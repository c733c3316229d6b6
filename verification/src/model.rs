//! Shared data model: commit information, sync statuses, branch errors, and
//! the naming scheme of virtual branches (`<prefix>/virtual/<name>`).

use vstd::prelude::*;
use crate::text::{self, CharClass, chars_of, push_all, rstrip_len, slice_chars, starts_with, string_of, strip_chars, trim_chars};

verus! {

/// Simple commit information with hash and message.
#[derive(Debug, Clone)]
pub struct CommitInfo {
    pub hash: String,
    pub message: String,
}

/// Status of a branch synchronization operation.
#[derive(Debug, Clone, Copy, PartialEq, Eq, Structural)]
pub enum BranchSyncStatus {
    Created,
    Updated,
    Unchanged,
    Error,
    MergeConflict,
    AnalyzingConflict,
}

/// Status of a commit synchronization.
#[derive(Debug, Clone, Copy, PartialEq, Eq, Structural)]
pub enum CommitSyncStatus {
    Pending,
    Created,
    Unchanged,
    Error,
    Blocked,
}

/// A conflicted file met while replaying a commit, with its status
/// ("modified", "added", "deleted").
#[derive(Debug, Clone)]
pub struct ConflictDetail {
    pub file: String,
    pub status: String,
}

/// Information about a commit referenced in conflict markers.
#[derive(Debug, Clone)]
pub struct ConflictMarkerCommitInfo {
    pub hash: String,
    pub message: String,
    pub author: String,
    pub author_time: u32,
    pub committer_time: u32,
}

/// Details about a merge conflict encountered while replaying a commit.
#[derive(Debug, Clone)]
pub struct MergeConflictInfo {
    pub commit_message: String,
    pub commit_hash: String,
    pub commit_author_time: u32,
    pub commit_committer_time: u32,
    pub original_parent_message: String,
    pub original_parent_hash: String,
    pub original_parent_author_time: u32,
    pub original_parent_committer_time: u32,
    pub target_branch_message: String,
    pub target_branch_hash: String,
    pub target_branch_author_time: u32,
    pub target_branch_committer_time: u32,
    pub conflicting_files: Vec<ConflictDetail>,
    /// Commits referenced in conflict markers, keyed by their `hash` field.
    pub conflict_marker_commits: Vec<ConflictMarkerCommitInfo>,
}

/// Branch operation errors.
#[derive(Debug, Clone)]
pub enum BranchError {
    Generic(String),
    MergeConflict(Box<MergeConflictInfo>),
}

/// Why a virtual branch name could not be formed.
#[derive(Debug, Clone, Copy, PartialEq, Eq, Structural)]
pub enum BranchNameError {
    BlankPrefix,
    BlankName,
}

impl BranchNameError {
    /// The error message.
    pub fn message(&self) -> (s: String)
        ensures
            s@ == self.spec_message(),
    {
        match self {
            BranchNameError::BlankPrefix => {
                let s = String::from_str("branch prefix cannot be blank");
                proof {
                    reveal_strlit("branch prefix cannot be blank");
                }
                s
            },
            BranchNameError::BlankName => {
                let s = String::from_str("branch name cannot be blank");
                proof {
                    reveal_strlit("branch name cannot be blank");
                }
                s
            },
        }
    }

    pub open spec fn spec_message(&self) -> Seq<char> {
        match self {
            BranchNameError::BlankPrefix => "branch prefix cannot be blank"@,
            BranchNameError::BlankName => "branch name cannot be blank"@,
        }
    }
}

/// Characters that cannot stand in a git reference name and become `-`.
pub open spec fn is_ref_unsafe(c: char) -> bool {
    c == ' ' || c == '~' || c == '^' || c == ':' || c == '?' || c == '*' || c == '[' || c == ']'
        || c == '\\'
}

pub open spec fn replace_unsafe(s: Seq<char>) -> Seq<char> {
    s.map_values(|c: char| if is_ref_unsafe(c) { '-' } else { c })
}

/// `s` with every run of consecutive hyphens reduced to one hyphen.
pub open spec fn collapse_hyphens(s: Seq<char>) -> Seq<char>
    decreases s.len(),
{
    if s.len() == 0 {
        s
    } else {
        let a = collapse_hyphens(s.drop_last());
        if s.last() == '-' && a.len() > 0 && a.last() == '-' {
            a
        } else {
            a.push(s.last())
        }
    }
}

pub open spec fn is_char(c: char) -> spec_fn(char) -> bool {
    |x: char| x == c
}

/// What `sanitize_branch_name` makes of `s`: unsafe characters become hyphens,
/// dots then slashes are trimmed from both ends, runs of hyphens are collapsed,
/// and hyphens are trimmed from both ends.
pub open spec fn sanitized(s: Seq<char>) -> Seq<char> {
    text::strip(collapse_hyphens(text::strip(text::strip(replace_unsafe(s), is_char('.')), is_char('/'))), is_char('-'))
}

pub open spec fn no_double_hyphen(s: Seq<char>) -> bool {
    forall|i: int| 0 <= i < s.len() - 1 ==> !(#[trigger] s[i] == '-' && s[i + 1] == '-')
}

pub open spec fn no_unsafe_chars(s: Seq<char>) -> bool {
    forall|i: int| 0 <= i < s.len() ==> !is_ref_unsafe(#[trigger] s[i])
}

/// A class holding the single character `c`.
pub fn single_class(c: char) -> (k: CharClass)
    ensures
        k.pred() == is_char(c),
{
    let v = vec![c];
    let k = CharClass::AnyOf(v);
    assert forall|x: char| k.has(x) == (x == c) by {
        if x == c {
            assert(v@[0] == c);
        }
    }
    assert(k.pred() =~= is_char(c));
    k
}

proof fn lemma_lstrip_shape(s: Seq<char>, p: spec_fn(char) -> bool) -> (k: int)
    ensures
        0 <= k <= s.len(),
        text::lstrip(s, p) == s.skip(k),
        text::lstrip(s, p).len() > 0 ==> !p(text::lstrip(s, p)[0]),
    decreases s.len(),
{
    if s.len() > 0 && p(s[0]) {
        let k1 = lemma_lstrip_shape(s.drop_first(), p);
        assert(s.drop_first().skip(k1) =~= s.skip(k1 + 1));
        k1 + 1
    } else {
        assert(s.skip(0) =~= s);
        0
    }
}

/// `rstrip` keeps a prefix whose last character is outside the class, and
/// drops only characters of the class.
pub proof fn lemma_rstrip_shape(s: Seq<char>, p: spec_fn(char) -> bool) -> (k: int)
    ensures
        0 <= k <= s.len(),
        text::rstrip(s, p) == s.take(k),
        text::rstrip(s, p).len() > 0 ==> !p(text::rstrip(s, p).last()),
        forall|j: int| k <= j < s.len() ==> p(#[trigger] s[j]),
    decreases s.len(),
{
    if s.len() > 0 && p(s.last()) {
        let k1 = lemma_rstrip_shape(s.drop_last(), p);
        assert(s.drop_last().take(k1) =~= s.take(k1));
        assert forall|j: int| k1 <= j < s.len() implies p(#[trigger] s[j]) by {
            if j < s.len() - 1 {
                assert(s.drop_last()[j] == s[j]);
            }
        }
        k1
    } else {
        assert(s.take(s.len() as int) =~= s);
        s.len() as int
    }
}

/// `strip` keeps a contiguous part of its input whose ends are outside the class.
pub proof fn lemma_strip_shape(s: Seq<char>, p: spec_fn(char) -> bool) -> (r: (int, int))
    ensures
        0 <= r.0 <= r.1 <= s.len(),
        text::strip(s, p) == s.subrange(r.0, r.1),
        text::strip(s, p).len() > 0 ==> !p(text::strip(s, p)[0]) && !p(text::strip(s, p).last()),
{
    let a = lemma_lstrip_shape(s, p);
    let t = text::lstrip(s, p);
    let b = lemma_rstrip_shape(t, p);
    assert(t.take(b) =~= s.subrange(a, a + b));
    if text::strip(s, p).len() > 0 {
        assert(text::strip(s, p)[0] == t[0]);
    }
    (a, a + b)
}

proof fn lemma_collapse_props(s: Seq<char>)
    ensures
        no_double_hyphen(collapse_hyphens(s)),
        no_unsafe_chars(s) ==> no_unsafe_chars(collapse_hyphens(s)),
        collapse_hyphens(s).len() <= s.len(),
    decreases s.len(),
{
    if s.len() > 0 {
        lemma_collapse_props(s.drop_last());
        let a = collapse_hyphens(s.drop_last());
        if no_unsafe_chars(s) {
            assert forall|i: int| 0 <= i < s.drop_last().len() implies !is_ref_unsafe(
                #[trigger] s.drop_last()[i],
            ) by {
                assert(s.drop_last()[i] == s[i]);
            }
            assert(!is_ref_unsafe(s[s.len() - 1]));
        }
        let r = collapse_hyphens(s);
        assert forall|i: int| 0 <= i < r.len() - 1 implies !(#[trigger] r[i] == '-' && r[i + 1]
            == '-') by {
            if !(s.last() == '-' && a.len() > 0 && a.last() == '-') {
                if i < a.len() - 1 {
                    assert(r[i] == a[i] && r[i + 1] == a[i + 1]);
                } else {
                    assert(r[i] == a.last());
                }
            }
        }
    }
}

proof fn lemma_replace_unsafe_clean(s: Seq<char>)
    ensures
        no_unsafe_chars(replace_unsafe(s)),
{
}

proof fn lemma_subrange_keeps(s: Seq<char>, a: int, b: int)
    requires
        0 <= a <= b <= s.len(),
    ensures
        no_unsafe_chars(s) ==> no_unsafe_chars(s.subrange(a, b)),
        no_double_hyphen(s) ==> no_double_hyphen(s.subrange(a, b)),
{
    let t = s.subrange(a, b);
    if no_unsafe_chars(s) {
        assert forall|i: int| 0 <= i < t.len() implies !is_ref_unsafe(#[trigger] t[i]) by {
            assert(t[i] == s[a + i]);
        }
    }
    if no_double_hyphen(s) {
        assert forall|i: int| 0 <= i < t.len() - 1 implies !(#[trigger] t[i] == '-' && t[i + 1]
            == '-') by {
            assert(t[i] == s[a + i] && t[i + 1] == s[a + i + 1]);
        }
    }
}

/// A sanitized name holds no character that git refuses in a reference name,
/// never two hyphens in a row, and neither starts nor ends with a hyphen.
pub proof fn lemma_sanitized_well_formed(s: Seq<char>)
    ensures
        no_unsafe_chars(sanitized(s)),
        no_double_hyphen(sanitized(s)),
        sanitized(s).len() > 0 ==> sanitized(s)[0] != '-' && sanitized(s).last() != '-',
{
    let r0 = replace_unsafe(s);
    lemma_replace_unsafe_clean(s);
    let (a1, b1) = lemma_strip_shape(r0, is_char('.'));
    lemma_subrange_keeps(r0, a1, b1);
    let r1 = text::strip(r0, is_char('.'));
    let (a2, b2) = lemma_strip_shape(r1, is_char('/'));
    lemma_subrange_keeps(r1, a2, b2);
    let r2 = text::strip(r1, is_char('/'));
    lemma_collapse_props(r2);
    let r3 = collapse_hyphens(r2);
    let (a3, b3) = lemma_strip_shape(r3, is_char('-'));
    lemma_subrange_keeps(r3, a3, b3);
}

/// Sanitizes a branch name to make it valid for git references: unsafe
/// characters become hyphens, surrounding dots and slashes go, runs of hyphens
/// collapse to one, and surrounding hyphens go.
pub fn sanitize_branch_name(name: &str) -> (r: String)
    ensures
        r@ == sanitized(name@),
        no_unsafe_chars(r@),
        no_double_hyphen(r@),
        r@.len() > 0 ==> r@[0] != '-' && r@.last() != '-',
{
    let v = chars_of(name);
    let mut replaced: Vec<char> = Vec::new();
    let mut i: usize = 0;
    while i < v.len()
        invariant
            i <= v@.len(),
            replaced@ == replace_unsafe(v@).take(i as int),
        decreases v.len() - i,
    {
        let c = v[i];
        let d = if c == ' ' || c == '~' || c == '^' || c == ':' || c == '?' || c == '*' || c == '['
            || c == ']' || c == '\\' {
            '-'
        } else {
            c
        };
        replaced.push(d);
        assert(replace_unsafe(v@).take(i + 1) =~= replace_unsafe(v@).take(i as int).push(d));
        i = i + 1;
    }
    assert(replace_unsafe(v@).take(v@.len() as int) =~= replace_unsafe(v@));
    let no_dots = strip_chars(&replaced, &single_class('.'));
    let no_slashes = strip_chars(&no_dots, &single_class('/'));
    let mut collapsed: Vec<char> = Vec::new();
    let mut j: usize = 0;
    while j < no_slashes.len()
        invariant
            j <= no_slashes@.len(),
            collapsed@ == collapse_hyphens(no_slashes@.take(j as int)),
        decreases no_slashes.len() - j,
    {
        let c = no_slashes[j];
        assert(no_slashes@.take(j + 1).drop_last() =~= no_slashes@.take(j as int));
        if !(c == '-' && collapsed.len() > 0 && collapsed[collapsed.len() - 1] == '-') {
            collapsed.push(c);
        }
        j = j + 1;
    }
    assert(no_slashes@.take(no_slashes@.len() as int) =~= no_slashes@);
    let result = strip_chars(&collapsed, &single_class('-'));
    proof {
        lemma_sanitized_well_formed(name@);
    }
    string_of(&result)
}

/// The prefix as `to_final_branch_name` uses it: trailing slashes removed, then trimmed.
pub open spec fn clean_part(s: Seq<char>) -> Seq<char> {
    text::trim(text::rstrip(s, is_char('/')))
}

pub open spec fn virtual_infix() -> Seq<char> {
    seq!['/', 'v', 'i', 'r', 't', 'u', 'a', 'l', '/']
}

/// The full virtual branch name `<prefix>/virtual/<sanitized name>`.
pub open spec fn final_branch_name(prefix: Seq<char>, name: Seq<char>) -> Seq<char> {
    clean_part(prefix) + virtual_infix() + sanitized(clean_part(name))
}

fn virtual_infix_chars() -> (v: Vec<char>)
    ensures
        v@ == virtual_infix(),
{
    let v = vec!['/', 'v', 'i', 'r', 't', 'u', 'a', 'l', '/'];
    assert(v@ =~= virtual_infix());
    v
}

fn clean_part_chars(s: &str) -> (v: Vec<char>)
    ensures
        v@ == clean_part(s@),
{
    let c = chars_of(s);
    let slash = single_class('/');
    let k = rstrip_len(&c, &slash);
    let head = slice_chars(&c, 0, k);
    assert(head@ =~= c@.take(k as int));
    trim_chars(&head)
}

/// Forms the full virtual branch name from a branch prefix and a branch name.
/// Trailing slashes and surrounding whitespace are removed from both; the name
/// is sanitized. A prefix or name that is blank after that is refused.
pub fn to_final_branch_name(branch_prefix: &str, branch_name: &str) -> (r: Result<
    String,
    BranchNameError,
>)
    ensures
        clean_part(branch_prefix@).len() == 0 ==> r == Err::<String, BranchNameError>(
            BranchNameError::BlankPrefix,
        ),
        clean_part(branch_prefix@).len() > 0 && clean_part(branch_name@).len() == 0 ==> r == Err::<
            String,
            BranchNameError,
        >(BranchNameError::BlankName),
        clean_part(branch_prefix@).len() > 0 && clean_part(branch_name@).len() > 0 ==> (r matches Ok(
            s,
        ) && s@ == final_branch_name(branch_prefix@, branch_name@)),
{
    let prefix = clean_part_chars(branch_prefix);
    if prefix.len() == 0 {
        return Err(BranchNameError::BlankPrefix);
    }
    let name = clean_part_chars(branch_name);
    if name.len() == 0 {
        return Err(BranchNameError::BlankName);
    }
    let name_str = string_of(&name);
    let sanitized_name = sanitize_branch_name(name_str.as_str());
    let mut out = prefix;
    push_all(&mut out, &virtual_infix_chars());
    push_all(&mut out, &chars_of(sanitized_name.as_str()));
    Ok(string_of(&out))
}

/// The simple branch name within a full virtual branch name, if the full name
/// lies under `<prefix>/virtual/` (trailing slashes of the prefix ignored).
pub open spec fn branch_name_from_final(full: Seq<char>, prefix: Seq<char>) -> Option<Seq<char>> {
    let p = text::rstrip(prefix, is_char('/')) + virtual_infix();
    if text::has_prefix(full, p) {
        Some(full.skip(p.len() as int))
    } else {
        None
    }
}

/// Extract the simple branch name from a full virtual branch name, e.g.
/// `user/virtual/feature-auth` gives `feature-auth`.
pub fn extract_branch_name_from_final(full_branch_name: &str, branch_prefix: &str) -> (r: Option<
    String,
>)
    ensures
        branch_name_from_final(full_branch_name@, branch_prefix@) matches Some(n) ==> (r matches Some(
            s,
        ) && s@ == n),
        branch_name_from_final(full_branch_name@, branch_prefix@) is None ==> r is None,
{
    let c = chars_of(branch_prefix);
    let k = rstrip_len(&c, &single_class('/'));
    let mut p = slice_chars(&c, 0, k);
    assert(p@ =~= text::rstrip(branch_prefix@, is_char('/')));
    push_all(&mut p, &virtual_infix_chars());
    let full = chars_of(full_branch_name);
    if starts_with(&full, &p) {
        let rest = slice_chars(&full, p.len(), full.len());
        assert(rest@ =~= full@.skip(p@.len() as int));
        Some(string_of(&rest))
    } else {
        None
    }
}

/// Extracting the simple name from a freshly formed virtual branch name gives
/// back the sanitized name, for any prefix without surrounding whitespace.
pub proof fn lemma_extract_undoes_final_name(prefix: Seq<char>, name: Seq<char>)
    requires
        clean_part(prefix).len() > 0,
        text::trim(text::rstrip(prefix, is_char('/'))) == text::rstrip(prefix, is_char('/')),
    ensures
        branch_name_from_final(final_branch_name(prefix, name), prefix) == Some(
            sanitized(clean_part(name)),
        ),
{
    let p = text::rstrip(prefix, is_char('/')) + virtual_infix();
    let full = final_branch_name(prefix, name);
    assert(full.take(p.len() as int) =~= p);
    assert(full.skip(p.len() as int) =~= sanitized(clean_part(name)));
}

} // verus!

verus! {

/// Two conflict details hold the same text.
pub open spec fn same_detail(a: ConflictDetail, b: ConflictDetail) -> bool {
    a.file@ == b.file@ && a.status@ == b.status@
}

pub open spec fn same_marker(a: ConflictMarkerCommitInfo, b: ConflictMarkerCommitInfo) -> bool {
    &&& a.hash@ == b.hash@
    &&& a.message@ == b.message@
    &&& a.author@ == b.author@
    &&& a.author_time == b.author_time
    &&& a.committer_time == b.committer_time
}

/// Two conflict reports hold the same information.
pub open spec fn same_conflict(a: MergeConflictInfo, b: MergeConflictInfo) -> bool {
    &&& a.commit_message@ == b.commit_message@
    &&& a.commit_hash@ == b.commit_hash@
    &&& a.commit_author_time == b.commit_author_time
    &&& a.commit_committer_time == b.commit_committer_time
    &&& a.original_parent_message@ == b.original_parent_message@
    &&& a.original_parent_hash@ == b.original_parent_hash@
    &&& a.original_parent_author_time == b.original_parent_author_time
    &&& a.original_parent_committer_time == b.original_parent_committer_time
    &&& a.target_branch_message@ == b.target_branch_message@
    &&& a.target_branch_hash@ == b.target_branch_hash@
    &&& a.target_branch_author_time == b.target_branch_author_time
    &&& a.target_branch_committer_time == b.target_branch_committer_time
    &&& a.conflicting_files@.len() == b.conflicting_files@.len()
    &&& forall|i: int| 0 <= i < a.conflicting_files@.len() ==> same_detail(#[trigger] a.conflicting_files@[i], b.conflicting_files@[i])
    &&& a.conflict_marker_commits@.len() == b.conflict_marker_commits@.len()
    &&& forall|i: int| 0 <= i < a.conflict_marker_commits@.len() ==> same_marker(#[trigger] a.conflict_marker_commits@[i], b.conflict_marker_commits@[i])
}

/// Two branch errors hold the same information.
pub open spec fn same_error(a: BranchError, b: BranchError) -> bool {
    match (a, b) {
        (BranchError::Generic(x), BranchError::Generic(y)) => x@ == y@,
        (BranchError::MergeConflict(x), BranchError::MergeConflict(y)) => same_conflict(*x, *y),
        _ => false,
    }
}

impl ConflictDetail {
    pub fn duplicate(&self) -> (r: ConflictDetail)
        ensures
            same_detail(r, *self),
    {
        ConflictDetail { file: self.file.clone(), status: self.status.clone() }
    }
}

impl ConflictMarkerCommitInfo {
    pub fn duplicate(&self) -> (r: ConflictMarkerCommitInfo)
        ensures
            same_marker(r, *self),
    {
        ConflictMarkerCommitInfo {
            hash: self.hash.clone(),
            message: self.message.clone(),
            author: self.author.clone(),
            author_time: self.author_time,
            committer_time: self.committer_time,
        }
    }
}

impl MergeConflictInfo {
    pub fn duplicate(&self) -> (r: MergeConflictInfo)
        ensures
            same_conflict(r, *self),
    {
        let mut files: Vec<ConflictDetail> = Vec::new();
        let mut i: usize = 0;
        while i < self.conflicting_files.len()
            invariant
                i <= self.conflicting_files@.len(),
                files@.len() == i,
                forall|k: int| 0 <= k < i ==> same_detail(#[trigger] files@[k], self.conflicting_files@[k]),
            decreases self.conflicting_files.len() - i,
        {
            files.push(self.conflicting_files[i].duplicate());
            i = i + 1;
        }
        let mut markers: Vec<ConflictMarkerCommitInfo> = Vec::new();
        let mut j: usize = 0;
        while j < self.conflict_marker_commits.len()
            invariant
                j <= self.conflict_marker_commits@.len(),
                markers@.len() == j,
                forall|k: int| 0 <= k < j ==> same_marker(#[trigger] markers@[k], self.conflict_marker_commits@[k]),
            decreases self.conflict_marker_commits.len() - j,
        {
            markers.push(self.conflict_marker_commits[j].duplicate());
            j = j + 1;
        }
        MergeConflictInfo {
            commit_message: self.commit_message.clone(),
            commit_hash: self.commit_hash.clone(),
            commit_author_time: self.commit_author_time,
            commit_committer_time: self.commit_committer_time,
            original_parent_message: self.original_parent_message.clone(),
            original_parent_hash: self.original_parent_hash.clone(),
            original_parent_author_time: self.original_parent_author_time,
            original_parent_committer_time: self.original_parent_committer_time,
            target_branch_message: self.target_branch_message.clone(),
            target_branch_hash: self.target_branch_hash.clone(),
            target_branch_author_time: self.target_branch_author_time,
            target_branch_committer_time: self.target_branch_committer_time,
            conflicting_files: files,
            conflict_marker_commits: markers,
        }
    }
}

impl BranchError {
    pub fn duplicate(&self) -> (r: BranchError)
        ensures
            same_error(r, *self),
    {
        match self {
            BranchError::Generic(m) => BranchError::Generic(m.clone()),
            BranchError::MergeConflict(info) => BranchError::MergeConflict(Box::new(info.duplicate())),
        }
    }
}

} // verus!
