//! Replaying a commit onto another without touching the working tree: the
//! three-way `git merge-tree` request, the reading of its answer (the merged
//! tree, or the conflicted files with their stages), and progress reports.

use vstd::prelude::*;
use crate::archive::strs;
use crate::commit_list::{self, Commit};
use crate::model::{BranchError, BranchSyncStatus, ConflictDetail, ConflictMarkerCommitInfo, MergeConflictInfo};
use crate::number::{self, parse_u32};
use crate::rewrite::CopyCommitError;
use crate::text::{self, chars_of, push_all, slice_chars, split_whitespace_chars, string_of, trim_chars};

verus! {

/// Receives the status changes of branches while commits are copied.
pub trait ProgressCallback {
    /// What the callback may answer when told that `branch_name` reached
    /// `status` (with `error`). A callback that says nothing of its answers
    /// keeps this default, which admits every answer.
    open spec fn reported(&self, branch_name: Seq<char>, status: BranchSyncStatus, error: Option<BranchError>, r: Result<(), String>) -> bool {
        true
    }

    fn send_branch_status(&self, branch_name: String, status: BranchSyncStatus, error: Option<BranchError>) -> (r: Result<(), String>)
        ensures
            self.reported(branch_name@, status, error, r),
    ;
}

/// A callback that ignores every report.
pub struct NoOpProgress;

impl ProgressCallback for NoOpProgress {
    /// Every report is accepted.
    open spec fn reported(&self, branch_name: Seq<char>, status: BranchSyncStatus, error: Option<BranchError>, r: Result<(), String>) -> bool {
        r == Ok::<(), String>(())
    }

    fn send_branch_status(&self, branch_name: String, status: BranchSyncStatus, error: Option<BranchError>) -> (r: Result<(), String>)
        ensures
            r == Ok::<(), String>(()),
    {
        Ok(())
    }
}

/// Progress context of a cherry-pick: where to report, for which branch.
pub struct CherryPickProgress<'a, C: ProgressCallback> {
    pub callback: &'a C,
    pub branch_name: &'a str,
    pub task_index: i16,
}

impl<'a, C: ProgressCallback> CherryPickProgress<'a, C> {
    pub fn new(callback: &'a C, branch_name: &'a str, task_index: i16) -> (p: Self)
        ensures
            p.callback == callback,
            p.branch_name == branch_name,
            p.task_index == task_index,
    {
        CherryPickProgress { callback, branch_name, task_index }
    }

    /// Reports a status of the branch.
    pub fn send_status(&self, status: BranchSyncStatus, error: Option<BranchError>) -> (r: Result<(), String>)
        ensures
            self.callback.reported(self.branch_name@, status, error, r),
    {
        self.callback.send_branch_status(String::from_str(self.branch_name), status, error)
    }
}

/// The parent of a commit from `git rev-parse <commit>^`: the trimmed output,
/// or the failure.
pub fn get_commit_parent(output: Result<String, String>, commit_id: &str) -> (r: Result<String, CopyCommitError>)
    ensures
        match output {
            Ok(o) => r matches Ok(p) && p@ == text::trim(o@),
            Err(e) => r matches Err(CopyCommitError::Other(m)) && m@ == "Failed to get parent for "@ + commit_id@ + ": "@ + e@,
        },
{
    match output {
        Ok(o) => Ok(string_of(&trim_chars(&chars_of(o.as_str())))),
        Err(e) => {
            let mut m = chars_of("Failed to get parent for ");
            push_all(&mut m, &chars_of(commit_id));
            push_all(&mut m, &chars_of(": "));
            push_all(&mut m, &chars_of(e.as_str()));
            Err(CopyCommitError::Other(string_of(&m)))
        },
    }
}

/// The three-way merge that replays `cherry_commit_id` onto
/// `target_commit_id` from its parent, with zdiff3 conflict style and
/// NUL-separated output.
pub fn merge_tree_args(cherry_parent_id: &str, target_commit_id: &str, cherry_commit_id: &str) -> (args: Vec<String>)
    ensures
        strs(args@) == seq!["-c"@, "merge.conflictStyle=zdiff3"@, "merge-tree"@, "--write-tree"@, "-z"@, "--merge-base"@,
            cherry_parent_id@, target_commit_id@, cherry_commit_id@],
{
    let mut args: Vec<String> = Vec::new();
    args.push(String::from_str("-c"));
    args.push(String::from_str("merge.conflictStyle=zdiff3"));
    args.push(String::from_str("merge-tree"));
    args.push(String::from_str("--write-tree"));
    args.push(String::from_str("-z"));
    args.push(String::from_str("--merge-base"));
    args.push(String::from_str(cherry_parent_id));
    args.push(String::from_str(target_commit_id));
    args.push(String::from_str(cherry_commit_id));
    assert(strs(args@) =~= seq!["-c"@, "merge.conflictStyle=zdiff3"@, "merge-tree"@, "--write-tree"@, "-z"@, "--merge-base"@,
        cherry_parent_id@, target_commit_id@, cherry_commit_id@]);
    args
}

/// A file in conflict, with the object ids of its stages.
#[derive(Debug, Clone)]
pub struct ConflictFileInfo {
    pub path: String,
    pub base_oid: Option<String>,
    pub ours_oid: Option<String>,
    pub theirs_oid: Option<String>,
}

/// A conflict entry of merge-tree's output, `<mode> <object> <stage>\t<path>`:
/// the path, the object and the stage.
pub open spec fn conflict_entry(part: Seq<char>) -> Option<(Seq<char>, Seq<char>, Seq<char>)> {
    match text::first_occurrence(part, seq!['\t']) {
        Some(t) => {
            let ws = text::words(part.take(t));
            if ws.len() == 3 {
                Some((part.skip(t + 1), ws[1], ws[2]))
            } else {
                None
            }
        },
        None => None,
    }
}

/// The conflict files as the entries give them: in order of first
/// appearance, each with the object of its stages 1 (base), 2 (ours) and 3
/// (theirs); a later entry of the same stage replaces an earlier one.
pub open spec fn conflict_files(entries: Seq<(Seq<char>, Seq<char>, Seq<char>)>) -> Seq<(Seq<char>, Option<Seq<char>>, Option<Seq<char>>, Option<Seq<char>>)>
    decreases entries.len(),
{
    if entries.len() == 0 {
        Seq::empty()
    } else {
        let prev = conflict_files(entries.drop_last());
        let (path, oid, stage) = entries.last();
        let at = file_index(prev, path);
        let base = match at {
            Some(i) => prev[i],
            None => (path, None, None, None),
        };
        let updated = if stage == seq!['1'] {
            (base.0, Some(oid), base.2, base.3)
        } else if stage == seq!['2'] {
            (base.0, base.1, Some(oid), base.3)
        } else if stage == seq!['3'] {
            (base.0, base.1, base.2, Some(oid))
        } else {
            base
        };
        match at {
            Some(i) => prev.update(i, updated),
            None => prev.push(updated),
        }
    }
}

pub open spec fn file_index(files: Seq<(Seq<char>, Option<Seq<char>>, Option<Seq<char>>, Option<Seq<char>>)>, path: Seq<char>) -> Option<int> {
    if exists|i: int| 0 <= i < files.len() && files[i].0 == path {
        Some(choose|i: int| 0 <= i < files.len() && files[i].0 == path)
    } else {
        None
    }
}

/// The NUL-separated parts of merge-tree's output, trailing NULs removed.
pub open spec fn merge_tree_parts(output: Seq<char>) -> Seq<Seq<char>> {
    text::split_by(text::rstrip(output, |c: char| c == '\0'), |c: char| c == '\0')
}

/// The conflict entries: the parts after the tree, up to the first empty one.
pub open spec fn entry_parts(parts: Seq<Seq<char>>) -> Seq<Seq<char>> {
    let rest = parts.skip(1);
    if exists|i: int| 0 <= i < rest.len() && rest[i].len() == 0 {
        rest.take(choose|i: int| 0 <= i < rest.len() && rest[i].len() == 0 && forall|j: int| 0 <= j < i ==> #[trigger] rest[j].len() > 0)
    } else {
        rest
    }
}

pub open spec fn entries_of(parts: Seq<Seq<char>>) -> Seq<(Seq<char>, Seq<char>, Seq<char>)>
    decreases parts.len(),
{
    if parts.len() == 0 {
        Seq::empty()
    } else {
        entries_of(parts.drop_last()) + match conflict_entry(parts.last()) {
            Some(e) => seq![e],
            None => Seq::empty(),
        }
    }
}

/// What merge-tree answered.
#[derive(Debug, Clone)]
pub enum MergeTreeOutcome {
    /// The merged tree.
    Clean(String),
    /// The tree written with conflicts, and the conflicted files.
    Conflicts(String, Vec<ConflictFileInfo>),
}

pub open spec fn file_view(f: ConflictFileInfo) -> (Seq<char>, Option<Seq<char>>, Option<Seq<char>>, Option<Seq<char>>) {
    (f.path@, commit_list::opt_view(f.base_oid), commit_list::opt_view(f.ours_oid), commit_list::opt_view(f.theirs_oid))
}

pub open spec fn files_view(v: Seq<ConflictFileInfo>) -> Seq<(Seq<char>, Option<Seq<char>>, Option<Seq<char>>, Option<Seq<char>>)> {
    v.map_values(|f: ConflictFileInfo| file_view(f))
}

/// Reads the output of `git merge-tree --write-tree -z`: refused when empty
/// or when the first part (the tree) is empty; clean when there are no
/// conflict entries.
pub fn parse_merge_tree_output(output: &str) -> (r: Result<MergeTreeOutcome, CopyCommitError>)
    ensures
        output@.len() == 0 ==> (r matches Err(CopyCommitError::Other(m)) && m@ == "git merge-tree did not produce output"@),
        output@.len() > 0 && merge_tree_parts(output@)[0].len() == 0 ==> (r matches Err(CopyCommitError::Other(m)) && m@
            == "No output from git merge-tree"@),
        output@.len() > 0 && merge_tree_parts(output@)[0].len() > 0 ==> ({
            let parts = merge_tree_parts(output@);
            let files = conflict_files(entries_of(entry_parts(parts)));
            match r {
                Ok(MergeTreeOutcome::Clean(t)) => files.len() == 0 && t@ == parts[0],
                Ok(MergeTreeOutcome::Conflicts(t, fs)) => files.len() > 0 && t@ == parts[0] && files_view(fs@) == files,
                Err(_) => false,
            }
        }),
{
    let chars = chars_of(output);
    if chars.len() == 0 {
        return Err(CopyCommitError::Other(String::from_str("git merge-tree did not produce output")));
    }
    let nul = crate::model::single_class('\0');
    assert(crate::model::is_char('\0') =~= (|c: char| c == '\0'));
    let k = text::rstrip_len(&chars, &nul);
    let body = slice_chars(&chars, 0, k);
    assert(body@ =~= chars@.take(k as int));
    let parts = text::split_chars(&body, &nul);
    proof {
        text::lemma_split_by_nonempty(body@, |c: char| c == '\0');
    }
    if parts[0].len() == 0 {
        return Err(CopyCommitError::Other(String::from_str("No output from git merge-tree")));
    }
    let tree = string_of(&parts[0]);
    let ghost ps = merge_tree_parts(output@);
    let ghost rest = ps.skip(1);
    let mut n: usize = 1;
    while n < parts.len() && parts[n].len() > 0
        invariant
            1 <= n <= parts@.len(),
            parts@.len() == ps.len(),
            forall|q: int| 0 <= q < parts@.len() ==> (#[trigger] parts@[q])@ == ps[q],
            rest == ps.skip(1),
            forall|j: int| 0 <= j < n - 1 ==> #[trigger] rest[j].len() > 0,
        decreases parts.len() - n,
    {
        assert(rest[n - 1] == ps[n as int]);
        n = n + 1;
    }
    proof {
        if n < parts.len() {
            assert(rest[n - 1].len() == 0);
            let c = choose|i: int| 0 <= i < rest.len() && rest[i].len() == 0 && forall|j: int| 0 <= j < i ==> #[trigger] rest[j].len() > 0;
            assert(0 <= n - 1 < rest.len() && rest[n - 1].len() == 0 && forall|j: int| 0 <= j < n - 1 ==> #[trigger] rest[j].len() > 0);
            if c < n - 1 {
                assert(rest[c].len() > 0);
            } else if c > n - 1 {
                assert(rest[n - 1].len() > 0);
            }
            assert(entry_parts(ps) =~= ps.subrange(1, n as int));
        } else {
            assert forall|i: int| 0 <= i < rest.len() implies rest[i].len() > 0 by {
                assert(rest[i] == ps[i + 1]);
            }
            assert(entry_parts(ps) =~= ps.subrange(1, n as int));
        }
    }
    let mut files: Vec<ConflictFileInfo> = Vec::new();
    let mut i: usize = 1;
    while i < n
        invariant
            1 <= i <= n,
            n <= parts@.len(),
            parts@.len() == ps.len(),
            forall|q: int| 0 <= q < parts@.len() ==> (#[trigger] parts@[q])@ == ps[q],
            files_view(files@) == conflict_files(entries_of(ps.subrange(1, i as int))),
            forall|a: int, b: int| 0 <= a < b < files@.len() ==> (#[trigger] files@[a]).path@ != (#[trigger] files@[b]).path@,
        decreases n - i,
    {
        proof {
            assert(ps.subrange(1, i + 1).drop_last() =~= ps.subrange(1, i as int));
            assert(ps.subrange(1, i + 1).last() == ps[i as int]);
        }
        match parse_entry(&parts[i]) {
            Some((path, oid, stage)) => {
                proof {
                    let e = (path@, oid@, stage@);
                    let prev_e = entries_of(ps.subrange(1, i as int));
                    assert(entries_of(ps.subrange(1, i + 1)) =~= prev_e.push(e));
                    assert(prev_e.push(e).drop_last() =~= prev_e);
                    assert(prev_e.push(e).last() == e);
                }
                add_entry(&mut files, path, oid, stage);
            },
            None => {
                assert(entries_of(ps.subrange(1, i + 1)) =~= entries_of(ps.subrange(1, i as int)));
            },
        }
        i = i + 1;
    }
    if files.len() == 0 {
        Ok(MergeTreeOutcome::Clean(tree))
    } else {
        Ok(MergeTreeOutcome::Conflicts(tree, files))
    }
}

fn parse_entry(part: &Vec<char>) -> (r: Option<(Vec<char>, Vec<char>, Vec<char>)>)
    ensures
        match r {
            Some((p, o, s)) => conflict_entry(part@) == Some((p@, o@, s@)),
            None => conflict_entry(part@) is None,
        },
{
    let tab = vec!['\t'];
    assert(tab@ =~= seq!['\t']);
    match text::find_seq(part, &tab) {
        Some(t) => {
            assert(tab@.len() == 1);
            let plen = part.len();
            assert(t + 1 <= plen);
            let head = slice_chars(part, 0, t);
            assert(head@ =~= part@.take(t as int));
            let ws = split_whitespace_chars(&head);
            if ws.len() == 3 {
                let path = slice_chars(part, t + 1, part.len());
                assert(path@ =~= part@.skip(t + 1));
                let o = slice_chars(&ws[1], 0, ws[1].len());
                let s = slice_chars(&ws[2], 0, ws[2].len());
                assert(o@ =~= ws@[1]@);
                assert(s@ =~= ws@[2]@);
                Some((path, o, s))
            } else {
                None
            }
        },
        None => None,
    }
}

pub(crate) fn find_file(files: &Vec<ConflictFileInfo>, path: &Vec<char>) -> (r: Option<usize>)
    requires
        forall|a: int, b: int| 0 <= a < b < files@.len() ==> (#[trigger] files@[a]).path@ != (#[trigger] files@[b]).path@,
    ensures
        match r {
            Some(i) => file_index(files_view(files@), path@) == Some(i as int) && i < files@.len(),
            None => file_index(files_view(files@), path@) is None,
        },
{
    let ghost fv = files_view(files@);
    let mut i: usize = 0;
    while i < files.len()
        invariant
            i <= files@.len(),
            fv == files_view(files@),
            forall|j: int| 0 <= j < i ==> fv[j].0 != path@,
            forall|a: int, b: int| 0 <= a < b < files@.len() ==> (#[trigger] files@[a]).path@ != (#[trigger] files@[b]).path@,
        decreases files.len() - i,
    {
        if text::chars_eq(&chars_of(files[i].path.as_str()), path) {
            proof {
                assert(fv[i as int].0 == path@);
                let c = choose|c: int| 0 <= c < fv.len() && fv[c].0 == path@;
                assert(c == i) by {
                    if c < i {
                        assert(fv[c].0 != path@);
                    } else if c > i {
                        assert(files@[c].path@ == fv[c].0);
                        assert(files@[i as int].path@ == fv[i as int].0);
                    }
                }
            }
            return Some(i);
        }
        i = i + 1;
    }
    None
}

fn add_entry(files: &mut Vec<ConflictFileInfo>, path: Vec<char>, oid: Vec<char>, stage: Vec<char>)
    requires
        forall|a: int, b: int| 0 <= a < b < old(files)@.len() ==> (#[trigger] old(files)@[a]).path@ != (#[trigger] old(files)@[b]).path@,
    ensures
        forall|a: int, b: int| 0 <= a < b < final(files)@.len() ==> (#[trigger] final(files)@[a]).path@ != (#[trigger] final(files)@[b]).path@,
        files_view(final(files)@) == ({
            let prev = files_view(old(files)@);
            let at = file_index(prev, path@);
            let base = match at {
                Some(i) => prev[i],
                None => (path@, None, None, None),
            };
            let updated = if stage@ == seq!['1'] {
                (base.0, Some(oid@), base.2, base.3)
            } else if stage@ == seq!['2'] {
                (base.0, base.1, Some(oid@), base.3)
            } else if stage@ == seq!['3'] {
                (base.0, base.1, base.2, Some(oid@))
            } else {
                base
            };
            match at {
                Some(i) => prev.update(i, updated),
                None => prev.push(updated),
            }
        }),
{
    let one = vec!['1'];
    let two = vec!['2'];
    let three = vec!['3'];
    assert(one@ =~= seq!['1']);
    assert(two@ =~= seq!['2']);
    assert(three@ =~= seq!['3']);
    let at = find_file(files, &path);
    let mut entry = match at {
        Some(i) => files[i].clone_info(),
        None => ConflictFileInfo { path: string_of(&path), base_oid: None, ours_oid: None, theirs_oid: None },
    };
    let o = string_of(&oid);
    if text::chars_eq(&stage, &one) {
        entry.base_oid = Some(o);
    } else if text::chars_eq(&stage, &two) {
        entry.ours_oid = Some(o);
    } else if text::chars_eq(&stage, &three) {
        entry.theirs_oid = Some(o);
    }
    let ghost before = files@;
    match at {
        Some(i) => {
            assert(entry.path@ == before[i as int].path@);
            files.set(i, entry);
            assert(files_view(files@) =~= files_view(before).update(i as int, file_view(files@[i as int])));
            assert forall|a: int, b: int| 0 <= a < b < files@.len() implies (#[trigger] files@[a]).path@ != (#[trigger] files@[b]).path@ by {
                assert(files@[a].path@ == before[a].path@);
                assert(files@[b].path@ == before[b].path@);
            }
        },
        None => {
            files.push(entry);
            assert(files_view(files@) =~= files_view(before).push(file_view(files@[before.len() as int])));
            assert forall|a: int, b: int| 0 <= a < b < files@.len() implies (#[trigger] files@[a]).path@ != (#[trigger] files@[b]).path@ by {
                assert(files@[a].path@ == before[a].path@);
                if b < before.len() {
                    assert(files@[b].path@ == before[b].path@);
                } else {
                    assert(files_view(before)[a].0 == before[a].path@);
                }
            }
        },
    }
}

impl ConflictFileInfo {
    pub fn clone_info(&self) -> (r: ConflictFileInfo)
        ensures
            file_view(r) == file_view(*self),
    {
        ConflictFileInfo {
            path: self.path.clone(),
            base_oid: copy_opt(&self.base_oid),
            ours_oid: copy_opt(&self.ours_oid),
            theirs_oid: copy_opt(&self.theirs_oid),
        }
    }
}

fn copy_opt(o: &Option<String>) -> (r: Option<String>)
    ensures
        commit_list::opt_view(r) == commit_list::opt_view(*o),
{
    match o {
        Some(s) => Some(s.clone()),
        None => None,
    }
}

/// The commit information used in conflict reports, from `git log -1
/// --format=%s` and `--format=%ct`: the trimmed subject as subject and
/// message, and the time as author and committer time.
pub fn get_commit_info(commit_id: &str, subject_output: &str, time_output: &str) -> (r: Result<Commit, CopyCommitError>)
    ensures
        match number::parsed_u32(text::trim(time_output@)) {
            Some(t) => r matches Ok(c) && c.id@ == commit_id@ && c.subject@ == text::trim(subject_output@)
                && c.message@ == text::trim(subject_output@) && c.stripped_subject@ == text::trim(subject_output@)
                && c.author_timestamp == t && c.committer_timestamp == t && c.parent_id is None && c.note is None
                && c.mapped_commit_id is None && c.author_name@.len() == 0 && c.author_email@.len() == 0
                && c.tree_id@.len() == 0,
            None => r matches Err(CopyCommitError::Other(m)) && m@ == "Invalid timestamp for commit "@ + commit_id@,
        },
{
    let message = trim_chars(&chars_of(subject_output));
    let t = match parse_u32(&trim_chars(&chars_of(time_output))) {
        Some(t) => t,
        None => {
            let mut m = chars_of("Invalid timestamp for commit ");
            push_all(&mut m, &chars_of(commit_id));
            return Err(CopyCommitError::Other(string_of(&m)));
        },
    };
    Ok(Commit {
        id: String::from_str(commit_id),
        stripped_subject: string_of(&message),
        message: string_of(&message),
        author_name: String::new(),
        author_email: String::new(),
        author_timestamp: t,
        committer_timestamp: t,
        subject: string_of(&message),
        parent_id: None,
        tree_id: String::new(),
        note: None,
        mapped_commit_id: None,
    })
}

/// The report of a conflicting replay: the replayed commit, its original
/// parent and the target commit, with the details of the conflicts.
pub fn merge_conflict_info(
    cherry: &Commit,
    cherry_commit_id: &str,
    parent: &Commit,
    parent_id: &str,
    target: &Commit,
    target_commit_id: &str,
    conflicting_files: Vec<ConflictDetail>,
    conflict_marker_commits: Vec<ConflictMarkerCommitInfo>,
) -> (r: MergeConflictInfo)
    ensures
        r.commit_message@ == cherry.message@,
        r.commit_hash@ == cherry_commit_id@,
        r.commit_author_time == cherry.author_timestamp,
        r.commit_committer_time == cherry.committer_timestamp,
        r.original_parent_message@ == parent.message@,
        r.original_parent_hash@ == parent_id@,
        r.original_parent_author_time == parent.author_timestamp,
        r.original_parent_committer_time == parent.committer_timestamp,
        r.target_branch_message@ == target.message@,
        r.target_branch_hash@ == target_commit_id@,
        r.target_branch_author_time == target.author_timestamp,
        r.target_branch_committer_time == target.committer_timestamp,
        r.conflicting_files == conflicting_files,
        r.conflict_marker_commits == conflict_marker_commits,
{
    MergeConflictInfo {
        commit_message: cherry.message.clone(),
        commit_hash: String::from_str(cherry_commit_id),
        commit_author_time: cherry.author_timestamp,
        commit_committer_time: cherry.committer_timestamp,
        original_parent_message: parent.message.clone(),
        original_parent_hash: String::from_str(parent_id),
        original_parent_author_time: parent.author_timestamp,
        original_parent_committer_time: parent.committer_timestamp,
        target_branch_message: target.message.clone(),
        target_branch_hash: String::from_str(target_commit_id),
        target_branch_author_time: target.author_timestamp,
        target_branch_committer_time: target.committer_timestamp,
        conflicting_files,
        conflict_marker_commits,
    }
}

/// The cherry-pick's first decision: when the commit's parent has the
/// target's tree, the commit's own tree is the result and no merge is needed.
pub fn perform_fast_cherry_pick_with_context(cherry_parent_tree_id: &str, target_tree_id: &str) -> (b: bool)
    ensures
        b == (cherry_parent_tree_id@ == target_tree_id@),
{
    text::chars_eq(&chars_of(cherry_parent_tree_id), &chars_of(target_tree_id))
}

} // verus!

verus! {

/// What replaying a commit asks for next.
pub enum PickStep {
    /// The commit's first parent: the output of `git rev-parse <commit>^`.
    ReadParent { commit_id: String },
    /// The trees of the commit's parent and of the target.
    ReadTrees { parent_id: String, target_id: String },
    /// The parent has the target's tree: the commit's own tree is the result.
    ReadCommitTree { commit_id: String },
    /// Run `git` with these arguments (a three-way `merge-tree`).
    Merge { args: Vec<String> },
    /// The merge conflicts: report `AnalyzingConflict` on the branch (when
    /// there is someone to report to).
    ReportConflict { merge_tree: String, files: Vec<ConflictFileInfo> },
    /// Gather the details of the conflicted files.
    AnalyzeConflict { files: Vec<ConflictFileInfo>, merge_tree: String, parent_id: String, target_id: String, commit_id: String },
    /// Read the replayed commit, its parent and the target, in that order.
    ReadConflictCommits { commit_id: String, parent_id: String, target_id: String },
    /// The replay is over: the resulting tree, or why there is none.
    Done { result: Result<String, CopyCommitError> },
}

/// Replaying `commit_id` onto `target_id` without touching the working tree
/// (`perform_fast_cherry_pick_with_context`): when the commit's parent has
/// the target's tree the commit's own tree is the result; otherwise a
/// three-way merge gives the tree, or a merge-conflict error that names the
/// commit, its parent and the target.
pub struct CherryPick {
    commit_id: String,
    target_id: String,
    parent_id: String,
    details: Vec<ConflictDetail>,
    markers: Vec<ConflictMarkerCommitInfo>,
    step: PickStep,
}

impl CherryPick {
    pub closed spec fn step(&self) -> PickStep {
        self.step
    }

    /// The commit replayed.
    pub closed spec fn commit(&self) -> Seq<char> {
        self.commit_id@
    }

    /// The commit it is replayed onto.
    pub closed spec fn target(&self) -> Seq<char> {
        self.target_id@
    }

    /// The commit's parent, once read.
    pub closed spec fn parent(&self) -> Seq<char> {
        self.parent_id@
    }

    /// The details of the conflicts, once gathered.
    pub closed spec fn conflict_details(&self) -> (Seq<ConflictDetail>, Seq<ConflictMarkerCommitInfo>) {
        (self.details@, self.markers@)
    }

    /// Starts by reading the commit's parent.
    pub fn new(commit_id: &str, target_id: &str) -> (p: Self)
        ensures
            p.commit() == commit_id@,
            p.target() == target_id@,
            p.step() matches PickStep::ReadParent { commit_id: c } && c@ == commit_id@,
    {
        CherryPick {
            commit_id: String::from_str(commit_id),
            target_id: String::from_str(target_id),
            parent_id: String::new(),
            details: Vec::new(),
            markers: Vec::new(),
            step: PickStep::ReadParent { commit_id: String::from_str(commit_id) },
        }
    }

    /// What to do next.
    pub fn next_step(&self) -> (s: &PickStep)
        ensures
            *s == self.step(),
    {
        &self.step
    }

    /// The answer of `git rev-parse <commit>^`: without a parent the replay
    /// fails; with one, the trees are read next.
    pub fn parent_read(&mut self, output: Result<String, String>)
        requires
            old(self).step() is ReadParent,
        ensures
            final(self).commit() == old(self).commit(),
            final(self).target() == old(self).target(),
            match output {
                Ok(o) => final(self).parent() == text::trim(o@) && (final(self).step() matches PickStep::ReadTrees { parent_id, target_id }
                    && parent_id@ == text::trim(o@) && target_id@ == old(self).target()),
                Err(e) => final(self).step() matches PickStep::Done { result: Err(CopyCommitError::Other(m)) } && m@
                    == "Failed to get parent for "@ + old(self).commit() + ": "@ + e@,
            },
    {
        match get_commit_parent(output, self.commit_id.as_str()) {
            Ok(p) => {
                self.parent_id = p;
                self.step = PickStep::ReadTrees { parent_id: self.parent_id.clone(), target_id: self.target_id.clone() };
            },
            Err(e) => {
                self.step = PickStep::Done { result: Err(e) };
            },
        }
    }

    /// The trees of the parent and the target: equal ones take the fast
    /// path (the commit's own tree), different ones a three-way merge with
    /// the parent as base, the target as ours and the commit as theirs.
    pub fn trees_read(&mut self, trees: Result<(String, String), CopyCommitError>)
        requires
            old(self).step() is ReadTrees,
        ensures
            final(self).commit() == old(self).commit(),
            final(self).target() == old(self).target(),
            final(self).parent() == old(self).parent(),
            match trees {
                Err(e) => final(self).step() matches PickStep::Done { result: Err(f) } && f == e,
                Ok((parent_tree, target_tree)) => if parent_tree@ == target_tree@ {
                    final(self).step() matches PickStep::ReadCommitTree { commit_id } && commit_id@ == old(self).commit()
                } else {
                    final(self).step() matches PickStep::Merge { args } && strs(args@) == seq!["-c"@,
                        "merge.conflictStyle=zdiff3"@, "merge-tree"@, "--write-tree"@, "-z"@, "--merge-base"@,
                        old(self).parent(), old(self).target(), old(self).commit()]
                },
            },
    {
        match trees {
            Err(e) => {
                self.step = PickStep::Done { result: Err(e) };
            },
            Ok((parent_tree, target_tree)) => {
                if perform_fast_cherry_pick_with_context(parent_tree.as_str(), target_tree.as_str()) {
                    self.step = PickStep::ReadCommitTree { commit_id: self.commit_id.clone() };
                } else {
                    let args = merge_tree_args(self.parent_id.as_str(), self.target_id.as_str(), self.commit_id.as_str());
                    self.step = PickStep::Merge { args };
                }
            },
        }
    }

    /// The commit's own tree: the result of the fast path.
    pub fn commit_tree_read(&mut self, tree: Result<String, CopyCommitError>)
        requires
            old(self).step() is ReadCommitTree,
        ensures
            final(self).step() == (PickStep::Done { result: tree }),
    {
        self.step = PickStep::Done { result: tree };
    }

    /// The answer of the merge: a failure to run it, a clean tree (the
    /// result), or conflicts, which are reported next.
    pub fn merged(&mut self, output: Result<String, String>)
        requires
            old(self).step() is Merge,
        ensures
            final(self).commit() == old(self).commit(),
            final(self).target() == old(self).target(),
            final(self).parent() == old(self).parent(),
            match output {
                Err(e) => final(self).step() matches PickStep::Done { result: Err(CopyCommitError::Other(m)) } && m@
                    == "Failed to execute git merge-tree: "@ + e@,
                Ok(o) => if o@.len() == 0 || merge_tree_parts(o@)[0].len() == 0 {
                    final(self).step() matches PickStep::Done { result: Err(CopyCommitError::Other(_)) }
                } else if conflict_files(entries_of(entry_parts(merge_tree_parts(o@)))).len() == 0 {
                    final(self).step() matches PickStep::Done { result: Ok(t) } && t@ == merge_tree_parts(o@)[0]
                } else {
                    final(self).step() matches PickStep::ReportConflict { merge_tree, files } && merge_tree@
                        == merge_tree_parts(o@)[0] && files@.len() > 0 && files_view(files@) == conflict_files(
                        entries_of(entry_parts(merge_tree_parts(o@))),
                    )
                },
            },
    {
        match output {
            Err(e) => {
                let mut m = chars_of("Failed to execute git merge-tree: ");
                push_all(&mut m, &chars_of(e.as_str()));
                self.step = PickStep::Done { result: Err(CopyCommitError::Other(string_of(&m))) };
            },
            Ok(o) => match parse_merge_tree_output(o.as_str()) {
                Err(e) => {
                    self.step = PickStep::Done { result: Err(e) };
                },
                Ok(MergeTreeOutcome::Clean(t)) => {
                    self.step = PickStep::Done { result: Ok(t) };
                },
                Ok(MergeTreeOutcome::Conflicts(t, files)) => {
                    self.step = PickStep::ReportConflict { merge_tree: t, files };
                },
            },
        }
    }

    /// The conflict was reported: its details are gathered next.
    pub fn conflict_reported(&mut self)
        requires
            old(self).step() is ReportConflict,
        ensures
            final(self).commit() == old(self).commit(),
            final(self).target() == old(self).target(),
            final(self).parent() == old(self).parent(),
            final(self).step() matches PickStep::AnalyzeConflict { files, merge_tree, parent_id, target_id, commit_id }
                && old(self).step() matches PickStep::ReportConflict { merge_tree: t, files: fs } && merge_tree == t
                && files == fs && parent_id@ == old(self).parent() && target_id@ == old(self).target() && commit_id@
                == old(self).commit(),
    {
        let mut taken = PickStep::Done { result: Ok(String::new()) };
        std::mem::swap(&mut taken, &mut self.step);
        match taken {
            PickStep::ReportConflict { merge_tree, files } => {
                self.step = PickStep::AnalyzeConflict {
                    files,
                    merge_tree,
                    parent_id: self.parent_id.clone(),
                    target_id: self.target_id.clone(),
                    commit_id: self.commit_id.clone(),
                };
            },
            _ => {},
        }
    }

    /// The details of the conflicts: the three commits are read next.
    pub fn conflict_analyzed(&mut self, details: Result<(Vec<ConflictDetail>, Vec<ConflictMarkerCommitInfo>), CopyCommitError>)
        requires
            old(self).step() is AnalyzeConflict,
        ensures
            final(self).commit() == old(self).commit(),
            final(self).target() == old(self).target(),
            final(self).parent() == old(self).parent(),
            match details {
                Err(e) => final(self).step() == (PickStep::Done { result: Err(e) }),
                Ok((d, m)) => final(self).conflict_details() == (d@, m@) && (final(self).step() matches PickStep::ReadConflictCommits {
                    commit_id,
                    parent_id,
                    target_id,
                } && commit_id@ == old(self).commit() && parent_id@ == old(self).parent() && target_id@ == old(self).target()),
            },
    {
        match details {
            Err(e) => {
                self.step = PickStep::Done { result: Err(e) };
            },
            Ok((d, m)) => {
                self.details = d;
                self.markers = m;
                self.step = PickStep::ReadConflictCommits {
                    commit_id: self.commit_id.clone(),
                    parent_id: self.parent_id.clone(),
                    target_id: self.target_id.clone(),
                };
            },
        }
    }

    /// The replayed commit, its parent and the target: the replay ends with
    /// the merge-conflict error that names them.
    pub fn conflict_commits_read(&mut self, commits: Result<(Commit, Commit, Commit), CopyCommitError>)
        requires
            old(self).step() is ReadConflictCommits,
        ensures
            match commits {
                Err(e) => final(self).step() == (PickStep::Done { result: Err(e) }),
                Ok((cherry, parent, target)) => final(self).step() matches PickStep::Done {
                    result: Err(CopyCommitError::BranchError(BranchError::MergeConflict(info))),
                } && info.commit_hash@ == old(self).commit() && info.commit_message@ == cherry.message@
                    && info.commit_author_time == cherry.author_timestamp && info.commit_committer_time
                    == cherry.committer_timestamp && info.original_parent_hash@ == old(self).parent()
                    && info.original_parent_message@ == parent.message@ && info.original_parent_author_time
                    == parent.author_timestamp && info.original_parent_committer_time == parent.committer_timestamp
                    && info.target_branch_hash@ == old(self).target() && info.target_branch_message@ == target.message@
                    && info.target_branch_author_time == target.author_timestamp && info.target_branch_committer_time
                    == target.committer_timestamp && info.conflicting_files@ == old(self).conflict_details().0
                    && info.conflict_marker_commits@ == old(self).conflict_details().1,
            },
    {
        match commits {
            Err(e) => {
                self.step = PickStep::Done { result: Err(e) };
            },
            Ok((cherry, parent, target)) => {
                let mut d: Vec<ConflictDetail> = Vec::new();
                let mut m: Vec<ConflictMarkerCommitInfo> = Vec::new();
                std::mem::swap(&mut d, &mut self.details);
                std::mem::swap(&mut m, &mut self.markers);
                let info = merge_conflict_info(
                    &cherry,
                    self.commit_id.as_str(),
                    &parent,
                    self.parent_id.as_str(),
                    &target,
                    self.target_id.as_str(),
                    d,
                    m,
                );
                self.step = PickStep::Done { result: Err(CopyCommitError::BranchError(BranchError::MergeConflict(Box::new(info)))) };
            },
        }
    }

    /// The outcome, once the replay is over.
    pub fn into_result(self) -> (r: Result<String, CopyCommitError>)
        requires
            self.step() is Done,
        ensures
            self.step() == (PickStep::Done { result: r }),
    {
        match self.step {
            PickStep::Done { result } => result,
            _ => Err(CopyCommitError::Other(String::new())),
        }
    }
}

} // verus!
