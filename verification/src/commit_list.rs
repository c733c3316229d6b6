//! Commits ahead of the baseline: the `git log` request, the record format
//! it answers in, and the parsing of each record into a `Commit`.

use vstd::prelude::*;
use crate::text::push_all;
use crate::text::{
    self, chars_of, slice_chars, split_chars, split_whitespace_chars, starts_with, string_of,
    trim_chars,
};
use crate::model::{self, single_class};
use crate::number::{self, parse_u32};

verus! {

/// A commit as read from `git log`.
#[derive(Debug, Clone)]
pub struct Commit {
    pub id: String,
    /// The subject without its branch prefix (the subject itself until a
    /// grouper strips it).
    pub stripped_subject: String,
    /// The full message, trimmed.
    pub message: String,
    pub author_name: String,
    pub author_email: String,
    pub author_timestamp: u32,
    pub committer_timestamp: u32,
    /// The first line of the message.
    pub subject: String,
    pub parent_id: Option<String>,
    pub tree_id: String,
    pub note: Option<String>,
    /// The commit named by a `v-commit-v1:` note.
    pub mapped_commit_id: Option<String>,
}

/// The fields of a commit record, in order.
#[derive(Debug, Clone, Copy, PartialEq, Eq, Structural)]
pub enum CommitField {
    Id,
    Message,
    AuthorName,
    AuthorEmail,
    AuthorTimestamp,
    CommitterTimestamp,
    Parents,
    TreeId,
}

/// Why a commit record could not be read.
#[derive(Debug, Clone)]
pub enum CommitParseError {
    MissingField(CommitField),
    InvalidTimestamp(CommitField, String),
}

impl CommitParseError {
    /// The error as the log reader reports it; a bad timestamp is reported
    /// with what `str::parse` said of it.
    pub fn message(&self) -> (s: String)
        ensures
            match *self {
                CommitParseError::MissingField(f) => s@ == "Missing "@ + field_name(f) + " field"@,
                CommitParseError::InvalidTimestamp(f, t) => s@ == "Failed to parse "@ + field_name(f) + " '"@ + t@ + "'"@
                    + if number::parsed_u32(t@) is None {
                    ": "@ + number::u32_error_text(t@)
                } else {
                    Seq::empty()
                },
            },
    {
        match self {
            CommitParseError::MissingField(f) => {
                let mut v = chars_of("Missing ");
                push_all(&mut v, &chars_of(field_label(*f)));
                push_all(&mut v, &chars_of(" field"));
                string_of(&v)
            },
            CommitParseError::InvalidTimestamp(f, text) => {
                let mut v = chars_of("Failed to parse ");
                push_all(&mut v, &chars_of(field_label(*f)));
                push_all(&mut v, &chars_of(" '"));
                let t = chars_of(text.as_str());
                push_all(&mut v, &t);
                push_all(&mut v, &chars_of("'"));
                match number::parse_u32_or_error(&t) {
                    Ok(_) => {},
                    Err(e) => {
                        push_all(&mut v, &chars_of(": "));
                        push_all(&mut v, &e);
                    },
                }
                string_of(&v)
            },
        }
    }
}

/// How a field is named in messages.
pub open spec fn field_name(f: CommitField) -> Seq<char> {
    match f {
        CommitField::Id => "commit ID"@,
        CommitField::Message => "message"@,
        CommitField::AuthorName => "author name"@,
        CommitField::AuthorEmail => "author email"@,
        CommitField::AuthorTimestamp => "author timestamp"@,
        CommitField::CommitterTimestamp => "committer timestamp"@,
        CommitField::Parents => "parents"@,
        CommitField::TreeId => "tree ID"@,
    }
}

fn field_label(f: CommitField) -> (s: &'static str)
    ensures
        s@ == field_name(f),
{
    match f {
        CommitField::Id => "commit ID",
        CommitField::Message => "message",
        CommitField::AuthorName => "author name",
        CommitField::AuthorEmail => "author email",
        CommitField::AuthorTimestamp => "author timestamp",
        CommitField::CommitterTimestamp => "committer timestamp",
        CommitField::Parents => "parents",
        CommitField::TreeId => "tree ID",
    }
}

/// The field at position `k` of a record.
pub open spec fn field_at(k: int) -> CommitField {
    if k <= 0 {
        CommitField::Id
    } else if k == 1 {
        CommitField::Message
    } else if k == 2 {
        CommitField::AuthorName
    } else if k == 3 {
        CommitField::AuthorEmail
    } else if k == 4 {
        CommitField::AuthorTimestamp
    } else if k == 5 {
        CommitField::CommitterTimestamp
    } else if k == 6 {
        CommitField::Parents
    } else {
        CommitField::TreeId
    }
}

fn field_at_exec(k: usize) -> (f: CommitField)
    ensures
        f == field_at(k as int),
{
    if k == 0 {
        CommitField::Id
    } else if k == 1 {
        CommitField::Message
    } else if k == 2 {
        CommitField::AuthorName
    } else if k == 3 {
        CommitField::AuthorEmail
    } else if k == 4 {
        CommitField::AuthorTimestamp
    } else if k == 5 {
        CommitField::CommitterTimestamp
    } else if k == 6 {
        CommitField::Parents
    } else {
        CommitField::TreeId
    }
}

/// The unit separator between the fields of a record.
pub open spec fn field_separator() -> char {
    '\u{1f}'
}

/// The fields of a record.
pub open spec fn record_fields(record: Seq<char>) -> Seq<Seq<char>> {
    text::split_by(record, model::is_char(field_separator()))
}

/// The text before the first newline of `s` (all of `s` when it has none).
pub open spec fn before_newline(s: Seq<char>) -> Seq<char>
    decreases s.len(),
{
    if s.len() == 0 || s[0] == '\n' {
        Seq::empty()
    } else {
        seq![s[0]] + before_newline(s.drop_first())
    }
}

/// The first line of `s` as `str::lines` gives it: the text before the first
/// newline, without a carriage return just before that newline; empty when
/// `s` is.
pub open spec fn first_line(s: Seq<char>) -> Seq<char> {
    let l = before_newline(s);
    if l.len() < s.len() && l.len() > 0 && l.last() == '\r' {
        l.drop_last()
    } else {
        l
    }
}

/// The first parent in the parents field, if any.
pub open spec fn first_parent(parents: Seq<char>) -> Option<Seq<char>> {
    if text::words(parents).len() > 0 {
        Some(text::words(parents)[0])
    } else {
        None
    }
}

pub open spec fn mapping_note_prefix() -> Seq<char> {
    seq!['v', '-', 'c', 'o', 'm', 'm', 'i', 't', '-', 'v', '1', ':']
}

/// The note of a record: its trimmed ninth field, when there is a non-empty one.
pub open spec fn record_note(fields: Seq<Seq<char>>) -> Option<Seq<char>> {
    if fields.len() > 8 && fields[8].len() > 0 {
        Some(text::trim(fields[8]))
    } else {
        None
    }
}

/// The commit a mapping note names: what follows `v-commit-v1:`, trimmed.
pub open spec fn mapped_id_of(note: Option<Seq<char>>) -> Option<Seq<char>> {
    match note {
        Some(n) => if text::has_prefix(n, mapping_note_prefix()) {
            Some(text::trim(n.skip(12)))
        } else {
            None
        },
        None => None,
    }
}

pub open spec fn opt_view(o: Option<String>) -> Option<Seq<char>> {
    match o {
        Some(s) => Some(s@),
        None => None,
    }
}

/// Why `record` is not a commit, if it is not one.
pub open spec fn record_failure(record: Seq<char>) -> Option<CommitParseErrorSpec> {
    let f = record_fields(record);
    if f.len() < 8 {
        Some(CommitParseErrorSpec::Missing(field_at(f.len() as int)))
    } else if number::parsed_u32(f[4]) is None {
        Some(CommitParseErrorSpec::BadTimestamp(CommitField::AuthorTimestamp, f[4]))
    } else if number::parsed_u32(f[5]) is None {
        Some(CommitParseErrorSpec::BadTimestamp(CommitField::CommitterTimestamp, f[5]))
    } else {
        None
    }
}

/// The error of a record in terms of plain values.
pub enum CommitParseErrorSpec {
    Missing(CommitField),
    BadTimestamp(CommitField, Seq<char>),
}

impl CommitParseError {
    pub open spec fn spec_view(&self) -> CommitParseErrorSpec {
        match self {
            CommitParseError::MissingField(f) => CommitParseErrorSpec::Missing(*f),
            CommitParseError::InvalidTimestamp(f, t) => CommitParseErrorSpec::BadTimestamp(*f, t@),
        }
    }
}

/// `c` is the commit that the (well-formed) record describes.
pub open spec fn is_record_commit(c: Commit, record: Seq<char>) -> bool {
    let f = record_fields(record);
    &&& c.id@ == text::trim(f[0])
    &&& c.subject@ == first_line(f[1])
    &&& c.stripped_subject@ == first_line(f[1])
    &&& c.message@ == text::trim(f[1])
    &&& c.author_name@ == f[2]
    &&& c.author_email@ == f[3]
    &&& Some(c.author_timestamp) == number::parsed_u32(f[4])
    &&& Some(c.committer_timestamp) == number::parsed_u32(f[5])
    &&& opt_view(c.parent_id) == first_parent(f[6])
    &&& c.tree_id@ == f[7]
    &&& opt_view(c.note) == record_note(f)
    &&& opt_view(c.mapped_commit_id) == mapped_id_of(record_note(f))
}

pub proof fn lemma_before_newline_take(s: Seq<char>, i: int)
    requires
        0 <= i <= s.len(),
        forall|j: int| 0 <= j < i ==> s[j] != '\n',
        i == s.len() || s[i] == '\n',
    ensures
        before_newline(s) == s.take(i),
    decreases i,
{
    if i == 0 {
        assert(s.take(0) =~= Seq::<char>::empty());
    } else {
        let t = s.drop_first();
        assert forall|j: int| 0 <= j < i - 1 implies t[j] != '\n' by {
            assert(t[j] == s[j + 1]);
        }
        if i < s.len() {
            assert(t[i - 1] == s[i]);
        }
        lemma_before_newline_take(t, i - 1);
        assert(seq![s[0]] + t.take(i - 1) =~= s.take(i));
    }
}

/// Where the first line of `s` ends: at its first newline, or at its end.
proof fn lemma_before_newline_shape(s: Seq<char>) -> (m: int)
    ensures
        0 <= m <= s.len(),
        before_newline(s) == s.take(m),
        forall|j: int| 0 <= j < m ==> s[j] != '\n',
        m == s.len() || s[m] == '\n',
{
    let m = if exists|j: int| 0 <= j < s.len() && s[j] == '\n' {
        choose|j: int| 0 <= j < s.len() && s[j] == '\n' && forall|h: int| 0 <= h < j ==> s[h] != '\n'
    } else {
        s.len() as int
    };
    if exists|j: int| 0 <= j < s.len() && s[j] == '\n' {
        let j0 = choose|j: int| 0 <= j < s.len() && s[j] == '\n';
        lemma_first_newline_exists(s, j0);
    }
    lemma_before_newline_take(s, m);
    m
}

proof fn lemma_first_newline_exists(s: Seq<char>, j0: int)
    requires
        0 <= j0 < s.len(),
        s[j0] == '\n',
    ensures
        exists|j: int| 0 <= j < s.len() && s[j] == '\n' && forall|h: int| 0 <= h < j ==> s[h] != '\n',
    decreases j0,
{
    if exists|h: int| 0 <= h < j0 && s[h] == '\n' {
        let h = choose|h: int| 0 <= h < j0 && s[h] == '\n';
        lemma_first_newline_exists(s, h);
    }
}

/// A commit's subject is the first line of its message whenever the message
/// as git wrote it does not start with white space and its first line does
/// not end with white space (the message is trimmed, the subject is not).
pub proof fn lemma_subject_is_first_line(c: Commit, record: Seq<char>)
    requires
        is_record_commit(c, record),
        record_fields(record)[1].len() > 0 ==> !text::is_ws(record_fields(record)[1][0]),
        first_line(record_fields(record)[1]).len() > 0 ==> !text::is_ws(first_line(record_fields(record)[1]).last()),
    ensures
        c.subject@ == first_line(c.message@),
{
    let f = record_fields(record)[1];
    let p = |ch: char| text::is_ws(ch);
    text::lemma_lstrip_skip(f, p, 0);
    assert(f.skip(0) =~= f);
    let k = model::lemma_rstrip_shape(f, p);
    let t = f.take(k);
    assert(c.message@ == t);
    let m = lemma_before_newline_shape(f);
    let l = before_newline(f);
    if f.len() == 0 {
        assert(t =~= f);
        return;
    }
    if k > 0 {
        assert(t.last() == f[k - 1]);
    }
    if m == f.len() {
        assert(first_line(f) == f);
        if k < f.len() {
            assert(p(f[f.len() - 1]));
        }
        assert(t =~= f);
    } else if l.len() > 0 && l.last() == '\r' {
        assert(l[m - 1] == f[m - 1]);
        if m == 1 {
            assert(p(f[0]));
        }
        assert(first_line(f).last() == f[m - 2]);
        if k < m - 1 {
            assert(p(f[m - 2]));
        }
        if k == m {
            assert(p(f[m - 1]));
        }
        if k == m - 1 {
            lemma_before_newline_take(t, m - 1);
            assert(t.take(m - 1) =~= t);
            assert(t =~= l.drop_last());
        } else {
            assert forall|j: int| 0 <= j < m implies t[j] != '\n' by {
                assert(t[j] == f[j]);
            }
            assert(t[m] == f[m]);
            lemma_before_newline_take(t, m);
            assert(t.take(m) =~= l);
        }
    } else {
        if m == 0 {
            assert(p(f[0]));
        }
        assert(first_line(f) == l);
        assert(l.last() == f[m - 1]);
        if k < m {
            assert(p(f[m - 1]));
        }
        if k == m {
            lemma_before_newline_take(t, m);
            assert(t.take(m) =~= t);
            assert(t =~= l);
        } else {
            assert forall|j: int| 0 <= j < m implies t[j] != '\n' by {
                assert(t[j] == f[j]);
            }
            assert(t[m] == f[m]);
            lemma_before_newline_take(t, m);
            assert(t.take(m) =~= l);
        }
    }
}

/// The first line of `s`.
pub fn first_line_chars(s: &Vec<char>) -> (r: Vec<char>)
    ensures
        r@ == first_line(s@),
{
    let mut i: usize = 0;
    while i < s.len() && s[i] != '\n'
        invariant
            i <= s@.len(),
            forall|j: int| 0 <= j < i ==> s@[j] != '\n',
        decreases s.len() - i,
    {
        i = i + 1;
    }
    proof {
        lemma_before_newline_take(s@, i as int);
    }
    if i < s.len() && i > 0 && s[i - 1] == '\r' {
        let r = slice_chars(s, 0, i - 1);
        assert(r@ =~= s@.take(i as int).drop_last());
        r
    } else {
        let r = slice_chars(s, 0, i);
        assert(r@ =~= s@.take(i as int));
        r
    }
}

fn mapping_prefix_chars() -> (v: Vec<char>)
    ensures
        v@ == mapping_note_prefix(),
{
    let v = vec!['v', '-', 'c', 'o', 'm', 'm', 'i', 't', '-', 'v', '1', ':'];
    assert(v@ =~= mapping_note_prefix());
    v
}

fn string_opt(v: Option<Vec<char>>) -> (r: Option<String>)
    ensures
        opt_view(r) == (match v {
            Some(x) => Some(x@),
            None => None::<Seq<char>>,
        }),
{
    match v {
        Some(x) => Some(string_of(&x)),
        None => None,
    }
}

/// Parses one `git log` record: fields separated by U+001F, namely the
/// commit id, the message, author name and email, author and committer
/// timestamps, the parent ids, the tree id, and optionally the note.
pub fn parse_single_commit(record: &str) -> (r: Result<Commit, CommitParseError>)
    ensures
        match r {
            Ok(c) => record_failure(record@) is None && is_record_commit(c, record@),
            Err(e) => record_failure(record@) == Some(e.spec_view()),
        },
{
    let chars = chars_of(record);
    let sep = single_class('\u{1f}');
    let fields = split_chars(&chars, &sep);
    let ghost f = record_fields(record@);
    assert(fields@.len() == f.len());
    if fields.len() < 8 {
        return Err(CommitParseError::MissingField(field_at_exec(fields.len())));
    }
    let author_timestamp = match parse_u32(&fields[4]) {
        Some(t) => t,
        None => {
            return Err(CommitParseError::InvalidTimestamp(CommitField::AuthorTimestamp, string_of(&fields[4])));
        },
    };
    let committer_timestamp = match parse_u32(&fields[5]) {
        Some(t) => t,
        None => {
            return Err(CommitParseError::InvalidTimestamp(CommitField::CommitterTimestamp, string_of(&fields[5])));
        },
    };
    let id = trim_chars(&fields[0]);
    let subject = first_line_chars(&fields[1]);
    let message = trim_chars(&fields[1]);
    let parents = split_whitespace_chars(&fields[6]);
    let parent_id = if parents.len() > 0 {
        Some(string_of(&parents[0]))
    } else {
        None
    };
    let mut note: Option<Vec<char>> = None;
    let mut mapped: Option<Vec<char>> = None;
    if fields.len() > 8 && fields[8].len() > 0 {
        let trimmed = trim_chars(&fields[8]);
        let prefix = mapping_prefix_chars();
        if starts_with(&trimmed, &prefix) {
            let rest = slice_chars(&trimmed, 12, trimmed.len());
            assert(rest@ =~= trimmed@.skip(12));
            mapped = Some(trim_chars(&rest));
        }
        note = Some(trimmed);
    }
    let c = Commit {
        id: string_of(&id),
        stripped_subject: string_of(&subject),
        message: string_of(&message),
        author_name: string_of(&fields[2]),
        author_email: string_of(&fields[3]),
        author_timestamp,
        committer_timestamp,
        subject: string_of(&subject),
        parent_id,
        tree_id: string_of(&fields[7]),
        note: string_opt(note),
        mapped_commit_id: string_opt(mapped),
    };
    Ok(c)
}

/// Whether a subject begins with a branch prefix: `(`, then at least one
/// character, then the first `)`.
pub open spec fn has_prefix_spec(subject: Seq<char>) -> bool {
    &&& subject.len() > 0
    &&& subject[0] == '('
    &&& match text::first_occurrence(subject, seq![')']) {
        Some(p) => p > 1,
        None => false,
    }
}

/// Checks whether a commit subject has a branch prefix pattern.
pub fn has_branch_prefix(subject: &str) -> (b: bool)
    ensures
        b == has_prefix_spec(subject@),
{
    let s = chars_of(subject);
    if s.len() == 0 || s[0] != '(' {
        return false;
    }
    let close = vec![')'];
    assert(close@ =~= seq![')']);
    match text::find_seq(&s, &close) {
        Some(p) => p > 1,
        None => false,
    }
}

/// Whether the listing starts at the root commit: when the current branch is
/// the baseline itself and the baseline is a local branch (no `/`).
pub open spec fn starts_at_root_spec(current_branch: Seq<char>, baseline_branch: Seq<char>) -> bool {
    text::trim(current_branch) == baseline_branch && !baseline_branch.contains('/')
}

/// Decides whether the range of the listing starts at the root commit.
pub fn starts_at_root(current_branch: &str, baseline_branch: &str) -> (b: bool)
    ensures
        b == starts_at_root_spec(current_branch@, baseline_branch@),
{
    let current = trim_chars(&chars_of(current_branch));
    let baseline = chars_of(baseline_branch);
    let same = text::chars_eq(&current, &baseline);
    let has_slash = text::contains_char(&baseline, '/');
    same && !has_slash
}

pub open spec fn head_suffix() -> Seq<char> {
    seq!['.', '.', 'H', 'E', 'A', 'D']
}

/// The revision range of the listing: from the (trimmed) root commit when
/// there is one, else from the baseline branch, to `HEAD`.
pub open spec fn log_range_spec(baseline_branch: Seq<char>, root_commit: Option<Seq<char>>) -> Seq<char> {
    match root_commit {
        Some(root) => text::trim(root) + head_suffix(),
        None => baseline_branch + head_suffix(),
    }
}

pub fn log_range(baseline_branch: &str, root_commit: Option<&str>) -> (r: String)
    ensures
        r@ == log_range_spec(baseline_branch@, match root_commit {
            Some(s) => Some(s@),
            None => None,
        }),
{
    let mut v = match root_commit {
        Some(root) => trim_chars(&chars_of(root)),
        None => chars_of(baseline_branch),
    };
    let suffix = vec!['.', '.', 'H', 'E', 'A', 'D'];
    assert(suffix@ =~= head_suffix());
    text::push_all(&mut v, &suffix);
    string_of(&v)
}

/// The `git log` format: the record fields separated by U+001F, each record
/// closed by U+001E.
pub open spec fn log_format() -> Seq<char> {
    "--pretty=format:%H%x1f%B%x1f%an%x1f%ae%x1f%at%x1f%ct%x1f%P%x1f%T%x1f%N%x1e"@
}

/// The arguments of the listing: oldest first, no merge commits, in the
/// record format, over `range`.
pub fn log_args(range: &str) -> (args: Vec<String>)
    ensures
        args@.len() == 6,
        args@[0]@ == "--no-pager"@,
        args@[1]@ == "log"@,
        args@[2]@ == "--reverse"@,
        args@[3]@ == "--no-merges"@,
        args@[4]@ == log_format(),
        args@[5]@ == range@,
{
    let mut args: Vec<String> = Vec::new();
    args.push(String::from_str("--no-pager"));
    args.push(String::from_str("log"));
    args.push(String::from_str("--reverse"));
    args.push(String::from_str("--no-merges"));
    args.push(String::from_str("--pretty=format:%H%x1f%B%x1f%an%x1f%ae%x1f%at%x1f%ct%x1f%P%x1f%T%x1f%N%x1e"));
    args.push(String::from_str(range));
    args
}

} // verus!
