use branch_deck::detection::{
  compute_summary, create_detection_result, detect_merge_status, detect_rebase_status_with_marks, detect_squash_status, find_integration_commit,
  get_detection_strategy, get_integration_timestamp, handle_cache_hit, needs_integration_timestamp, needs_squash_check, perform_fresh_detection,
  scan_right_side_marks, should_compute_summary, uses_merge_detection, CacheOps, DetectionStrategy,
};
use branch_deck::integration::{
  deserialize_from_cache, serialize_for_cache, BranchIntegrationInfo, BranchIntegrationStatus, CacheError, CacheFields, IntegrationConfidence, StatusFields,
  NOTES_REF,
};
use serde_json::Value;

fn lines(v: &[&str]) -> Vec<String> {
  v.iter().map(|s| s.to_string()).collect()
}

fn info(summary: &str, status: BranchIntegrationStatus) -> BranchIntegrationInfo {
  BranchIntegrationInfo { name: "b".to_string(), summary: summary.to_string(), status }
}

/// The note as serde_json writes it from the same members.
fn serde_note(i: &BranchIntegrationInfo) -> String {
  let mut s = serde_json::Map::new();
  let num = |n: u32| Value::from(n);
  match i.status {
    BranchIntegrationStatus::Integrated { integrated_at, confidence, commit_count } => {
      s.insert("k".into(), "i".into());
      s.insert("c".into(), if confidence == IntegrationConfidence::Exact { "e".into() } else { "h".into() });
      if commit_count != 0 {
        s.insert("cc".into(), num(commit_count));
      }
      if let Some(ia) = integrated_at {
        s.insert("ia".into(), num(ia));
      }
    }
    BranchIntegrationStatus::NotIntegrated { total_commit_count, integrated_count, orphaned_count, integrated_at } => {
      s.insert("k".into(), "n".into());
      if total_commit_count != 0 {
        s.insert("tc".into(), num(total_commit_count));
      }
      if integrated_count != 0 {
        s.insert("ic".into(), num(integrated_count));
      }
      if orphaned_count != 0 {
        s.insert("oc".into(), num(orphaned_count));
      }
      if let Some(ia) = integrated_at {
        s.insert("ia".into(), num(ia));
      }
    }
    BranchIntegrationStatus::Partial { missing } => {
      s.insert("k".into(), "p".into());
      if missing != 0 {
        s.insert("m".into(), num(missing));
      }
    }
  }
  let mut top = serde_json::Map::new();
  top.insert("v".into(), Value::from(1u8));
  top.insert("s".into(), Value::Object(s));
  if !i.summary.is_empty() {
    top.insert("sum".into(), Value::from(i.summary.clone()));
  }
  serde_json::to_string(&Value::Object(top)).unwrap()
}

#[test]
fn cache_note_is_what_serde_json_writes() {
  let cases = vec![
    info("test summary", BranchIntegrationStatus::Integrated { integrated_at: Some(1234567890), confidence: IntegrationConfidence::High, commit_count: 3 }),
    info("", BranchIntegrationStatus::Integrated { integrated_at: None, confidence: IntegrationConfidence::Exact, commit_count: 0 }),
    info("q\"uote \\ back\nline\ttab\u{1}\u{1f}\u{7f} é ✓", BranchIntegrationStatus::Partial { missing: 2 }),
    info("", BranchIntegrationStatus::Partial { missing: 0 }),
    info("x", BranchIntegrationStatus::NotIntegrated { total_commit_count: 10, integrated_count: 7, orphaned_count: 3, integrated_at: Some(4294967295) }),
    info("", BranchIntegrationStatus::NotIntegrated { total_commit_count: 0, integrated_count: 0, orphaned_count: 0, integrated_at: None }),
  ];
  for c in &cases {
    assert_eq!(serialize_for_cache(c), serde_note(c));
  }
  assert_eq!(
    serialize_for_cache(&cases[0]),
    "{\"s\":{\"c\":\"h\",\"cc\":3,\"ia\":1234567890,\"k\":\"i\"},\"sum\":\"test summary\",\"v\":1}"
  );
}

fn status_fields(kind: Option<&str>) -> StatusFields {
  StatusFields {
    kind: kind.map(|k| k.to_string()),
    confidence: None,
    commit_count: None,
    integrated_at: None,
    total_commit_count: None,
    integrated_count: None,
    orphaned_count: None,
    missing: None,
  }
}

#[test]
fn cache_note_errors_and_defaults() {
  let e = deserialize_from_cache(&CacheFields { summary: None, status: None }).unwrap_err();
  assert_eq!(e, CacheError::MissingStatus);
  assert_eq!(e.message(), "Missing status field");
  let e = deserialize_from_cache(&CacheFields { summary: None, status: Some(status_fields(Some("z"))) }).unwrap_err();
  assert_eq!(e, CacheError::UnknownStatusKind);
  assert_eq!(e.message(), "Unknown status kind");
  let e = deserialize_from_cache(&CacheFields { summary: None, status: Some(status_fields(None)) }).unwrap_err();
  assert_eq!(e, CacheError::UnknownStatusKind);

  // Missing members default to zero, high confidence, no time.
  let i = deserialize_from_cache(&CacheFields { summary: None, status: Some(status_fields(Some("i"))) }).unwrap();
  assert_eq!(i.name, "");
  assert_eq!(i.summary, "");
  assert_eq!(i.status, BranchIntegrationStatus::Integrated { integrated_at: None, confidence: IntegrationConfidence::High, commit_count: 0 });
  // An unknown confidence reads as high; counts keep their low 32 bits.
  let mut sf = status_fields(Some("i"));
  sf.confidence = Some("?".to_string());
  sf.commit_count = Some((1u64 << 32) + 5);
  sf.integrated_at = Some(7);
  let i = deserialize_from_cache(&CacheFields { summary: Some("s".to_string()), status: Some(sf) }).unwrap();
  assert_eq!(i.summary, "s");
  assert_eq!(i.status, BranchIntegrationStatus::Integrated { integrated_at: Some(7), confidence: IntegrationConfidence::High, commit_count: 5 });
  let mut sf = status_fields(Some("p"));
  sf.missing = Some(9);
  assert_eq!(
    deserialize_from_cache(&CacheFields { summary: None, status: Some(sf) }).unwrap().status,
    BranchIntegrationStatus::Partial { missing: 9 }
  );
}

#[test]
fn strategies() {
  assert_eq!(get_detection_strategy(true), DetectionStrategy::All);
  assert_eq!(get_detection_strategy(false), DetectionStrategy::Rebase);
  assert!(uses_merge_detection(DetectionStrategy::Merge, true));
  assert!(uses_merge_detection(DetectionStrategy::All, true));
  assert!(!uses_merge_detection(DetectionStrategy::All, false));
  assert!(!uses_merge_detection(DetectionStrategy::Rebase, true));
  let none_found = BranchIntegrationStatus::NotIntegrated { total_commit_count: 2, integrated_count: 0, orphaned_count: 2, integrated_at: None };
  let some_found = BranchIntegrationStatus::NotIntegrated { total_commit_count: 2, integrated_count: 1, orphaned_count: 1, integrated_at: None };
  assert!(needs_squash_check(none_found, DetectionStrategy::Squash));
  assert!(needs_squash_check(none_found, DetectionStrategy::All));
  assert!(!needs_squash_check(none_found, DetectionStrategy::Rebase));
  assert!(!needs_squash_check(some_found, DetectionStrategy::All));
  assert!(!needs_squash_check(BranchIntegrationStatus::Partial { missing: 0 }, DetectionStrategy::All));
}

#[test]
fn cherry_marks() {
  let right = lines(&["commit abc", "> 111", "= 222", "= 333", "", "x", "commit > def"]);
  assert_eq!(scan_right_side_marks(&right), (3, 1, 2));
  assert_eq!(scan_right_side_marks(&vec![]), (0, 0, 0));
  let left = lines(&["commit 1", "= notanumber", "> 5", "= 1700000000", "= 12"]);
  assert_eq!(get_integration_timestamp(&left), Some(1700000000));
  assert_eq!(get_integration_timestamp(&lines(&["> 1"])), None);
  assert!(needs_integration_timestamp(1));
  assert!(!needs_integration_timestamp(0));
}

#[test]
fn rebase_status_from_marks() {
  // Nothing left on the branch side: integrated, no time.
  assert_eq!(
    detect_rebase_status_with_marks(0, 0, 0, Some(5)),
    BranchIntegrationStatus::Integrated { integrated_at: None, confidence: IntegrationConfidence::High, commit_count: 0 }
  );
  // All marked commits in the baseline.
  assert_eq!(
    detect_rebase_status_with_marks(3, 0, 3, Some(5)),
    BranchIntegrationStatus::Integrated { integrated_at: Some(5), confidence: IntegrationConfidence::High, commit_count: 3 }
  );
  assert_eq!(
    detect_rebase_status_with_marks(3, 1, 2, Some(5)),
    BranchIntegrationStatus::NotIntegrated { total_commit_count: 3, integrated_count: 2, orphaned_count: 1, integrated_at: Some(5) }
  );
  assert_eq!(
    detect_rebase_status_with_marks(3, 3, 0, Some(5)),
    BranchIntegrationStatus::NotIntegrated { total_commit_count: 3, integrated_count: 0, orphaned_count: 3, integrated_at: None }
  );
}

#[test]
fn merge_and_squash_status() {
  assert_eq!(detect_merge_status(false, Some("3".to_string()), Some(1)), None);
  assert_eq!(
    detect_merge_status(true, Some(" 3\n".to_string()), Some(1)),
    Some(BranchIntegrationStatus::Integrated { integrated_at: Some(1), confidence: IntegrationConfidence::Exact, commit_count: 3 })
  );
  assert_eq!(
    detect_merge_status(true, Some("x".to_string()), None),
    Some(BranchIntegrationStatus::Integrated { integrated_at: None, confidence: IntegrationConfidence::Exact, commit_count: 0 })
  );
  assert_eq!(find_integration_commit(&lines(&["aaa 1", "bbb 1700000000"])), Some(("bbb".to_string(), 1700000000)));
  assert_eq!(find_integration_commit(&lines(&["aaa 1", "bbb"])), None);
  assert_eq!(find_integration_commit(&vec![]), None);

  let found = Some(BranchIntegrationStatus::Integrated { integrated_at: Some(9), confidence: IntegrationConfidence::High, commit_count: 4 });
  assert_eq!(detect_squash_status(true, None, None, None, Some(9), 4), found);
  assert_eq!(detect_squash_status(false, Some("base".into()), Some("t1\n".into()), Some("t1".into()), Some(9), 4), found);
  assert_eq!(detect_squash_status(false, Some(" ".into()), Some("t1".into()), Some("t1".into()), Some(9), 4), None);
  assert_eq!(detect_squash_status(false, Some("base".into()), Some("t1".into()), Some("t2".into()), Some(9), 4), None);
  assert_eq!(detect_squash_status(false, Some("base".into()), None, Some("t2".into()), Some(9), 4), None);

  let rebase = BranchIntegrationStatus::Partial { missing: 1 };
  let merge = BranchIntegrationStatus::Partial { missing: 2 };
  let squash = BranchIntegrationStatus::Partial { missing: 3 };
  assert_eq!(perform_fresh_detection(Some(merge), rebase, Some(squash)), merge);
  assert_eq!(perform_fresh_detection(None, rebase, Some(squash)), squash);
  assert_eq!(perform_fresh_detection(None, rebase, None), rebase);
}

#[test]
fn summaries_of_issue_branches() {
  assert!(should_compute_summary("user/archived/2025-01-01/ABC-123"));
  assert!(should_compute_summary("ABC-123"));
  assert!(!should_compute_summary("user/archived/2025-01-01/feature"));
  assert!(!should_compute_summary("user/ABC-123-extra"));
  assert_eq!(compute_summary(Some("ABC-123: Fix the login  ".into()), true), "Fix the login");
  assert_eq!(compute_summary(Some("[ABC-12] : : done".into()), true), "] : : done");
  assert_eq!(compute_summary(Some("  no issue here ".into()), true), "no issue here");
  assert_eq!(compute_summary(Some("ABC-123: x".into()), false), "");
  assert_eq!(compute_summary(None, true), "");
}

#[test]
fn results_and_cache_arguments() {
  let status = BranchIntegrationStatus::Partial { missing: 1 };
  let r = create_detection_result(status, "user/archived/d/x".into(), "tip1".into(), "sum".into());
  assert_eq!(r.info.name, "user/archived/d/x");
  assert_eq!(r.info.summary, "sum");
  assert_eq!(r.info.status, status);
  assert_eq!(r.cache_to_write.0, "tip1");
  assert_eq!(r.cache_to_write.1.name, "user/archived/d/x");

  let hit = handle_cache_hit("user/archived/d/y", info("s", status));
  assert_eq!(hit.name, "user/archived/d/y");
  assert_eq!(hit.summary, "s");

  let ops = CacheOps::new("/repo");
  assert_eq!(ops.repo, "/repo");
  assert_eq!(ops.read_args("c1"), vec!["notes", "--ref", NOTES_REF, "show", "c1"]);
  let i = info("", status);
  assert_eq!(ops.write_args("c1", &i), vec!["notes".to_string(), "--ref".into(), NOTES_REF.into(), "add".into(), "-f".into(), "-m".into(), serialize_for_cache(&i), "c1".into()]);
  assert_eq!(NOTES_REF, "refs/notes/branch-deck/detection");
}
