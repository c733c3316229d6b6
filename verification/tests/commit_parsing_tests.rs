use branch_deck::commit_list::{log_args, log_range, parse_single_commit, starts_at_root, CommitField, CommitParseError};
use branch_deck::number::{format_u64, parse_u32, parse_u32_or_error};
use branch_deck::record_stream::{get_commit_list, get_commit_list_with_handler, record_commit, tail_commit, RecordStream};

fn chars(s: &str) -> Vec<char> {
  s.chars().collect()
}

fn record(id: &str, message: &str, at: &str, ct: &str, parents: &str, note: Option<&str>) -> String {
  let mut r = format!("{id}\u{1f}{message}\u{1f}Jane Doe\u{1f}jane@example.com\u{1f}{at}\u{1f}{ct}\u{1f}{parents}\u{1f}tree1");
  if let Some(n) = note {
    r.push('\u{1f}');
    r.push_str(n);
  }
  r
}

#[test]
fn parse_u32_reads_as_str_parse_does() {
  assert_eq!(parse_u32(&chars("0")), Some(0));
  assert_eq!(parse_u32(&chars("+42")), Some(42));
  assert_eq!(parse_u32(&chars("4294967295")), Some(4294967295));
  assert_eq!(parse_u32(&chars("4294967296")), None);
  assert_eq!(parse_u32(&chars("")), None);
  assert_eq!(parse_u32(&chars("+")), None);
  assert_eq!(parse_u32(&chars("-1")), None);
  assert_eq!(parse_u32(&chars(" 1")), None);
  for s in ["0", "+42", "4294967295", "4294967296", "", "+", "-1", " 1", "12a", "99999999999x"] {
    assert_eq!(parse_u32(&chars(s)), s.parse::<u32>().ok(), "{s}");
  }
}

#[test]
fn parse_error_text_matches_std() {
  for s in ["", "+", "-", "-1", "abc", "12a", "4294967296", "99999999999x", "1x99999999999", "+4294967296"] {
    let expected = s.parse::<u32>().unwrap_err().to_string();
    let got: String = parse_u32_or_error(&chars(s)).unwrap_err().into_iter().collect();
    assert_eq!(got, expected, "{s}");
  }
  assert_eq!(parse_u32_or_error(&chars("17")), Ok(17));
}

#[test]
fn format_then_parse_gives_the_number_back() {
  for n in [0u32, 7, 10, 99, 100, 123456, 4294967295] {
    let text: String = format_u64(n as u64).into_iter().collect();
    assert_eq!(text, n.to_string());
    assert_eq!(parse_u32(&chars(&text)), Some(n));
  }
  let big: String = format_u64(u64::MAX).into_iter().collect();
  assert_eq!(big, u64::MAX.to_string());
}

#[test]
fn parse_single_commit_reads_every_field() {
  let r = record("\nabc123 ", "(feature) Add login\r\n\nBody text\n", "1700000000", "1700000100", "p1 p2", Some(" v-commit-v1: def456 \n"));
  let c = parse_single_commit(&r).unwrap();
  assert_eq!(c.id, "abc123");
  assert_eq!(c.subject, "(feature) Add login");
  assert_eq!(c.stripped_subject, "(feature) Add login");
  assert_eq!(c.message, "(feature) Add login\r\n\nBody text");
  assert_eq!(c.author_name, "Jane Doe");
  assert_eq!(c.author_email, "jane@example.com");
  assert_eq!(c.author_timestamp, 1700000000);
  assert_eq!(c.committer_timestamp, 1700000100);
  assert_eq!(c.parent_id.as_deref(), Some("p1"));
  assert_eq!(c.tree_id, "tree1");
  assert_eq!(c.note.as_deref(), Some("v-commit-v1: def456"));
  assert_eq!(c.mapped_commit_id.as_deref(), Some("def456"));
}

#[test]
fn parse_single_commit_without_parent_or_note() {
  let c = parse_single_commit(&record("root", "Initial", "1", "2", "", None)).unwrap();
  assert_eq!(c.parent_id, None);
  assert_eq!(c.note, None);
  assert_eq!(c.mapped_commit_id, None);
  let c = parse_single_commit(&record("x", "Msg", "1", "2", "  ", Some(""))).unwrap();
  assert_eq!(c.parent_id, None);
  assert_eq!(c.note, None);
  let c = parse_single_commit(&record("x", "Msg", "1", "2", "p", Some("plain note"))).unwrap();
  assert_eq!(c.note.as_deref(), Some("plain note"));
  assert_eq!(c.mapped_commit_id, None);
}

#[test]
fn parse_single_commit_errors() {
  let e = parse_single_commit("abc\u{1f}msg\u{1f}name").unwrap_err();
  assert!(matches!(e, CommitParseError::MissingField(CommitField::AuthorEmail)));
  assert_eq!(e.message(), "Missing author email field");
  let e = parse_single_commit("").unwrap_err();
  assert!(matches!(e, CommitParseError::MissingField(CommitField::Message)));
  let e = parse_single_commit(&record("a", "m", "x1", "2", "", None)).unwrap_err();
  assert_eq!(e.message(), "Failed to parse author timestamp 'x1': invalid digit found in string");
  let e = parse_single_commit(&record("a", "m", "1", "", "", None)).unwrap_err();
  assert_eq!(e.message(), "Failed to parse committer timestamp '': cannot parse integer from empty string");
  let e = parse_single_commit(&record("a", "m", "99999999999", "1", "", None)).unwrap_err();
  assert_eq!(e.message(), "Failed to parse author timestamp '99999999999': number too large to fit in target type");
}

#[test]
fn log_range_and_args() {
  assert!(starts_at_root("main", "main"));
  assert!(!starts_at_root("main", "origin/main"));
  assert!(!starts_at_root("feature", "main"));
  assert_eq!(log_range("origin/main", None), "origin/main..HEAD");
  assert_eq!(log_range("main", Some("  root1 \n")), "root1..HEAD");
  let args = log_args("origin/main..HEAD");
  assert_eq!(
    args,
    vec![
      "--no-pager",
      "log",
      "--reverse",
      "--no-merges",
      "--pretty=format:%H%x1f%B%x1f%an%x1f%ae%x1f%at%x1f%ct%x1f%P%x1f%T%x1f%N%x1e",
      "origin/main..HEAD"
    ]
  );
}

#[test]
fn record_stream_splits_across_chunks() {
  let a = record("a1", "(x) First", "1", "2", "", None);
  let b = record("b2", "Second", "3", "4", "a1", None);
  let whole = format!("{a}\u{1e}\n{b}\u{1e}");
  let bytes = whole.as_bytes();
  // Any cut gives the same commits as the whole output.
  for cut in 0..=bytes.len() {
    let chunks = vec![bytes[..cut].to_vec(), bytes[cut..].to_vec()];
    let commits = get_commit_list(&chunks);
    assert_eq!(commits.len(), 2, "cut at {cut}");
    assert_eq!(commits[0].id, "a1");
    assert_eq!(commits[1].id, "b2");
    assert_eq!(commits[1].parent_id.as_deref(), Some("a1"));
  }
}

#[test]
fn record_stream_keeps_the_pending_tail() {
  let mut stream = RecordStream::new();
  let first = get_commit_list_with_handler(&mut stream, b"partial");
  assert!(first.is_empty());
  let rec = record("c3", "Third", "5", "6", "", None);
  let rest = format!("{}\u{1e}tail", &rec[..]);
  let got = get_commit_list_with_handler(&mut stream, rest.as_bytes());
  // "partial" glued to the record makes an id of "partialc3".
  assert_eq!(got.len(), 1);
  assert_eq!(got[0].id, "partialc3");
  assert_eq!(stream.remainder(), b"tail".to_vec());
}

#[test]
fn records_that_are_not_commits_are_passed_over() {
  assert!(record_commit(b"").is_none());
  assert!(record_commit(&[0xff, 0xfe]).is_none());
  assert!(record_commit(b"not a commit").is_none());
  assert!(tail_commit(b" \n ").is_none());
  let rec = record("d4", "Fourth", "7", "8", "", None);
  assert_eq!(tail_commit(rec.as_bytes()).unwrap().id, "d4");
  let chunks = vec![format!("garbage\u{1e}{rec}\u{1e}\n").into_bytes()];
  let commits = get_commit_list(&chunks);
  assert_eq!(commits.len(), 1);
  assert_eq!(commits[0].id, "d4");
}
