//! Copying a commit of the working branch onto its virtual branch: reusing
//! the copy recorded in a note when it still exists, choosing the tree, the
//! message without the branch prefix, and the `git commit-tree` request.

use vstd::prelude::*;
use crate::archive::{pairs, strs};
use crate::commit_list::{self, Commit};
use crate::model::CommitSyncStatus;
use crate::rewrite::CopyCommitError;
use crate::number::{self, format_u64};
use crate::text::{self, chars_of, push_all, slice_chars, string_of};

verus! {

/// What the note of a copied commit records.
#[derive(Debug, Clone)]
pub struct CommitNoteInfo {
    pub original_oid: String,
    pub new_oid: String,
    pub author: String,
    pub author_email: String,
    pub tree_id: String,
    pub subject: String,
}

/// Where the copying of a commit stands, for logging and feedback.
#[derive(Debug, Clone)]
pub struct ProgressInfo {
    pub branch_name: String,
    pub current_commit_idx: usize,
    pub total_commits_in_branch: usize,
    pub current_branch_idx: usize,
    pub total_branches: usize,
}

/// The copy recorded for a commit is reused when reuse is allowed, the
/// commit has one, and it still exists.
pub open spec fn reusable(commit: Commit, reuse_if_possible: bool, mapped_exists: bool) -> bool {
    reuse_if_possible && commit.mapped_commit_id is Some && mapped_exists
}

/// The reuse of a recorded copy: its id, `Unchanged`, and the note to keep.
pub fn reuse_mapped_commit(commit: &Commit, reuse_if_possible: bool, mapped_exists: bool) -> (r: Option<(String, CommitSyncStatus, CommitNoteInfo)>)
    ensures
        !reusable(*commit, reuse_if_possible, mapped_exists) ==> r is None,
        reusable(*commit, reuse_if_possible, mapped_exists) ==> (r matches Some((id, status, note)) && id@
            == commit.mapped_commit_id->0@ && status == CommitSyncStatus::Unchanged && note.original_oid@ == commit.id@
            && note.new_oid@ == commit.mapped_commit_id->0@ && note.author@ == commit.author_name@ && note.author_email@
            == commit.author_email@ && note.tree_id@ == commit.tree_id@ && note.subject@ == commit.stripped_subject@),
{
    if !reuse_if_possible || !mapped_exists {
        return None;
    }
    match &commit.mapped_commit_id {
        Some(mapped) => {
            let note = CommitNoteInfo {
                original_oid: commit.id.clone(),
                new_oid: mapped.clone(),
                author: commit.author_name.clone(),
                author_email: commit.author_email.clone(),
                tree_id: commit.tree_id.clone(),
                subject: commit.stripped_subject.clone(),
            };
            Some((mapped.clone(), CommitSyncStatus::Unchanged, note))
        },
        None => None,
    }
}

/// The tree of the copy when no merge is needed: the commit's own tree, when
/// its original parent (the empty tree for a root commit) has the same tree
/// as the new parent.
pub fn reuse_tree(commit: &Commit, original_parent_tree_id: &str, new_parent_tree_id: &str) -> (r: Option<String>)
    ensures
        original_parent_tree_id@ == new_parent_tree_id@ ==> (r matches Some(t) && t@ == commit.tree_id@),
        original_parent_tree_id@ != new_parent_tree_id@ ==> r is None,
{
    if text::chars_eq(&chars_of(original_parent_tree_id), &chars_of(new_parent_tree_id)) {
        Some(commit.tree_id.clone())
    } else {
        None
    }
}

/// The message of the copy: the stripped subject, followed by the rest of
/// the message from its first newline on.
pub open spec fn copy_message(message: Seq<char>, stripped_subject: Seq<char>) -> Seq<char> {
    match text::first_occurrence(message, seq!['\n']) {
        Some(i) => stripped_subject + message.skip(i),
        None => stripped_subject,
    }
}

pub fn commit_message_for_copy(commit: &Commit) -> (m: String)
    ensures
        m@ == copy_message(commit.message@, commit.stripped_subject@),
{
    let msg = chars_of(commit.message.as_str());
    let nl = vec!['\n'];
    assert(nl@ =~= seq!['\n']);
    match text::find_seq(&msg, &nl) {
        Some(i) => {
            let mut out = chars_of(commit.stripped_subject.as_str());
            let rest = slice_chars(&msg, i, msg.len());
            assert(rest@ =~= msg@.skip(i as int));
            push_all(&mut out, &rest);
            string_of(&out)
        },
        None => commit.stripped_subject.clone(),
    }
}

/// A `git commit-tree` request: its arguments and environment.
pub struct CopyRequest {
    pub args: Vec<String>,
    pub env: Vec<(String, String)>,
}

/// The request that makes the copy of `commit`: `tree` on `new_parent` (its
/// only parent) with the copy message; the author and author time kept,
/// `branch-deck` as committer name with the author's email.
pub open spec fn copy_request_is(r: CopyRequest, commit: Commit, tree: Seq<char>, new_parent: Seq<char>) -> bool {
    &&& strs(r.args@) == seq!["commit-tree"@, tree, "-p"@, new_parent, "-m"@, copy_message(commit.message@, commit.stripped_subject@)]
    &&& pairs(r.env@) == seq![
        ("GIT_AUTHOR_NAME"@, commit.author_name@),
        ("GIT_AUTHOR_EMAIL"@, commit.author_email@),
        ("GIT_AUTHOR_DATE"@, number::decimal(commit.author_timestamp as nat)),
        ("GIT_COMMITTER_NAME"@, "branch-deck"@),
        ("GIT_COMMITTER_EMAIL"@, commit.author_email@),
    ]
}

/// The request that makes the copy: `tree` on `new_parent_oid` with the copy
/// message; the author and author time kept, `branch-deck` as committer name
/// with the author's email.
pub fn copy_commit_request(commit: &Commit, tree_id: &str, new_parent_oid: &str) -> (r: CopyRequest)
    ensures
        copy_request_is(r, *commit, tree_id@, new_parent_oid@),
        strs(r.args@) == seq!["commit-tree"@, tree_id@, "-p"@, new_parent_oid@, "-m"@, copy_message(commit.message@, commit.stripped_subject@)],
        pairs(r.env@) == seq![
            ("GIT_AUTHOR_NAME"@, commit.author_name@),
            ("GIT_AUTHOR_EMAIL"@, commit.author_email@),
            ("GIT_AUTHOR_DATE"@, number::decimal(commit.author_timestamp as nat)),
            ("GIT_COMMITTER_NAME"@, "branch-deck"@),
            ("GIT_COMMITTER_EMAIL"@, commit.author_email@),
        ],
{
    let mut args: Vec<String> = Vec::new();
    args.push(String::from_str("commit-tree"));
    args.push(String::from_str(tree_id));
    args.push(String::from_str("-p"));
    args.push(String::from_str(new_parent_oid));
    args.push(String::from_str("-m"));
    args.push(commit_message_for_copy(commit));
    let mut env: Vec<(String, String)> = Vec::new();
    env.push((String::from_str("GIT_AUTHOR_NAME"), commit.author_name.clone()));
    env.push((String::from_str("GIT_AUTHOR_EMAIL"), commit.author_email.clone()));
    env.push((String::from_str("GIT_AUTHOR_DATE"), string_of(&format_u64(commit.author_timestamp as u64))));
    env.push((String::from_str("GIT_COMMITTER_NAME"), String::from_str("branch-deck")));
    env.push((String::from_str("GIT_COMMITTER_EMAIL"), commit.author_email.clone()));
    let r = CopyRequest { args, env };
    assert(strs(r.args@) =~= seq!["commit-tree"@, tree_id@, "-p"@, new_parent_oid@, "-m"@, copy_message(commit.message@, commit.stripped_subject@)]);
    assert(pairs(r.env@) =~= seq![
        ("GIT_AUTHOR_NAME"@, commit.author_name@),
        ("GIT_AUTHOR_EMAIL"@, commit.author_email@),
        ("GIT_AUTHOR_DATE"@, number::decimal(commit.author_timestamp as nat)),
        ("GIT_COMMITTER_NAME"@, "branch-deck"@),
        ("GIT_COMMITTER_EMAIL"@, commit.author_email@),
    ]);
    r
}

/// The outcome of a new copy: its id (the trimmed output of `git
/// commit-tree`), `Created`, and its note (with the stripped subject, or the
/// subject when that is empty).
pub fn created_copy(commit: &Commit, commit_tree_output: &str) -> (r: (String, CommitSyncStatus, CommitNoteInfo))
    ensures
        r.0@ == text::trim(commit_tree_output@),
        r.1 == CommitSyncStatus::Created,
        r.2.original_oid@ == commit.id@,
        r.2.new_oid@ == text::trim(commit_tree_output@),
        r.2.author@ == commit.author_name@,
        r.2.author_email@ == commit.author_email@,
        r.2.tree_id@ == commit.tree_id@,
        r.2.subject@ == (if commit.stripped_subject@.len() > 0 { commit.stripped_subject@ } else { commit.subject@ }),
{
    let id = string_of(&text::trim_chars(&chars_of(commit_tree_output)));
    let note = CommitNoteInfo {
        original_oid: commit.id.clone(),
        new_oid: string_of(&text::trim_chars(&chars_of(commit_tree_output))),
        author: commit.author_name.clone(),
        author_email: commit.author_email.clone(),
        tree_id: commit.tree_id.clone(),
        subject: if commit.stripped_subject.as_str().is_empty() {
            commit.subject.clone()
        } else {
            commit.stripped_subject.clone()
        },
    };
    (id, CommitSyncStatus::Created, note)
}


/// What copying a commit asks for next.
pub enum CopyStep {
    /// Does the copy recorded for the commit still exist?
    CheckMapped { mapped_id: String },
    /// The trees of the commit's parent (the empty tree, written as an empty
    /// id, for a root commit) and of the new parent, in that order.
    ReadTrees { original_parent: Option<String>, new_parent: String },
    /// Replay the commit onto the new parent (see `CherryPick`).
    CherryPick { commit_id: String, target_id: String },
    /// Run `git commit-tree` as asked.
    CommitTree { request: CopyRequest },
    /// The copy is done: its id, its status and its note, or why it failed.
    Done { result: Result<(String, CommitSyncStatus, Option<CommitNoteInfo>), CopyCommitError> },
}

/// The note kept for a reused copy.
pub open spec fn reused_note_is(n: CommitNoteInfo, commit: Commit) -> bool {
    &&& n.original_oid@ == commit.id@
    &&& n.new_oid@ == commit.mapped_commit_id->0@
    &&& n.author@ == commit.author_name@
    &&& n.author_email@ == commit.author_email@
    &&& n.tree_id@ == commit.tree_id@
    &&& n.subject@ == commit.stripped_subject@
}

/// The note kept for a new copy with id `id`.
pub open spec fn created_note_is(n: CommitNoteInfo, commit: Commit, id: Seq<char>) -> bool {
    &&& n.original_oid@ == commit.id@
    &&& n.new_oid@ == id
    &&& n.author@ == commit.author_name@
    &&& n.author_email@ == commit.author_email@
    &&& n.tree_id@ == commit.tree_id@
    &&& n.subject@ == (if commit.stripped_subject@.len() > 0 { commit.stripped_subject@ } else { commit.subject@ })
}

/// Copying one commit onto a new parent (`create_or_update_commit`): the
/// copy recorded in the commit's note is reused when reuse is allowed and it
/// still exists (`Unchanged`, nothing is made); otherwise a new commit is
/// made on the new parent alone (`Created`), with the commit's own tree when
/// its parent has the new parent's tree, else with the replayed tree.
pub struct CommitCopy<'a> {
    commit: &'a Commit,
    new_parent_oid: String,
    step: CopyStep,
}

impl<'a> CommitCopy<'a> {
    pub closed spec fn step(&self) -> CopyStep {
        self.step
    }

    pub closed spec fn commit(&self) -> Commit {
        *self.commit
    }

    pub closed spec fn new_parent(&self) -> Seq<char> {
        self.new_parent_oid@
    }

    /// What to do next.
    pub fn next_step(&self) -> (s: &CopyStep)
        ensures
            *s == self.step(),
    {
        &self.step
    }

    fn read_trees(commit: &'a Commit, new_parent_oid: String) -> (c: Self)
        ensures
            c.commit() == *commit,
            c.new_parent() == new_parent_oid@,
            c.step() matches CopyStep::ReadTrees { original_parent, new_parent } && commit_list::opt_view(original_parent)
                == commit_list::opt_view(commit.parent_id) && new_parent@ == new_parent_oid@,
    {
        let parent = match &commit.parent_id {
            Some(p) => Some(p.clone()),
            None => None,
        };
        let np = new_parent_oid.clone();
        CommitCopy { commit, new_parent_oid, step: CopyStep::ReadTrees { original_parent: parent, new_parent: np } }
    }

    /// The recorded copy is checked first when reuse is allowed and there is
    /// one; otherwise the trees are read.
    pub fn new(commit: &'a Commit, new_parent_oid: &str, reuse_if_possible: bool) -> (c: Self)
        ensures
            c.commit() == *commit,
            c.new_parent() == new_parent_oid@,
            reuse_if_possible && commit.mapped_commit_id is Some ==> (c.step() matches CopyStep::CheckMapped { mapped_id }
                && mapped_id@ == commit.mapped_commit_id->0@),
            !(reuse_if_possible && commit.mapped_commit_id is Some) ==> (c.step() matches CopyStep::ReadTrees {
                original_parent,
                new_parent,
            } && commit_list::opt_view(original_parent) == commit_list::opt_view(commit.parent_id) && new_parent@
                == new_parent_oid@),
    {
        if reuse_if_possible {
            match &commit.mapped_commit_id {
                Some(m) => {
                    return CommitCopy {
                        commit,
                        new_parent_oid: String::from_str(new_parent_oid),
                        step: CopyStep::CheckMapped { mapped_id: m.clone() },
                    };
                },
                None => {},
            }
        }
        Self::read_trees(commit, String::from_str(new_parent_oid))
    }

    /// Whether the recorded copy exists: reused as it is when it does.
    pub fn mapped_checked(&mut self, exists: bool)
        requires
            old(self).step() is CheckMapped,
            old(self).commit().mapped_commit_id is Some,
        ensures
            final(self).commit() == old(self).commit(),
            final(self).new_parent() == old(self).new_parent(),
            exists ==> (final(self).step() matches CopyStep::Done { result: Ok((id, status, Some(note))) } && id@
                == old(self).commit().mapped_commit_id->0@ && status == CommitSyncStatus::Unchanged && reused_note_is(
                note,
                old(self).commit(),
            )),
            !exists ==> (final(self).step() matches CopyStep::ReadTrees { original_parent, new_parent }
                && commit_list::opt_view(original_parent) == commit_list::opt_view(old(self).commit().parent_id)
                && new_parent@ == old(self).new_parent()),
    {
        match reuse_mapped_commit(self.commit, true, exists) {
            Some((id, status, note)) => {
                self.step = CopyStep::Done { result: Ok((id, status, Some(note))) };
            },
            None => {
                let parent = match &self.commit.parent_id {
                    Some(p) => Some(p.clone()),
                    None => None,
                };
                self.step = CopyStep::ReadTrees { original_parent: parent, new_parent: self.new_parent_oid.clone() };
            },
        }
    }

    /// The trees of the commit's parent and of the new parent: equal ones
    /// keep the commit's tree, different ones replay the commit.
    pub fn trees_read(&mut self, trees: Result<(String, String), CopyCommitError>)
        requires
            old(self).step() is ReadTrees,
        ensures
            final(self).commit() == old(self).commit(),
            final(self).new_parent() == old(self).new_parent(),
            match trees {
                Err(e) => final(self).step() == (CopyStep::Done { result: Err(e) }),
                Ok((parent_tree, new_parent_tree)) => if parent_tree@ == new_parent_tree@ {
                    final(self).step() matches CopyStep::CommitTree { request } && copy_request_is(
                        request,
                        old(self).commit(),
                        old(self).commit().tree_id@,
                        old(self).new_parent(),
                    )
                } else {
                    final(self).step() matches CopyStep::CherryPick { commit_id, target_id } && commit_id@
                        == old(self).commit().id@ && target_id@ == old(self).new_parent()
                },
            },
    {
        match trees {
            Err(e) => {
                self.step = CopyStep::Done { result: Err(e) };
            },
            Ok((parent_tree, new_parent_tree)) => match reuse_tree(self.commit, parent_tree.as_str(), new_parent_tree.as_str()) {
                Some(tree) => {
                    let request = copy_commit_request(self.commit, tree.as_str(), self.new_parent_oid.as_str());
                    self.step = CopyStep::CommitTree { request };
                },
                None => {
                    self.step = CopyStep::CherryPick { commit_id: self.commit.id.clone(), target_id: self.new_parent_oid.clone() };
                },
            },
        }
    }

    /// The tree the replay gave, or why it failed.
    pub fn cherry_picked(&mut self, tree: Result<String, CopyCommitError>)
        requires
            old(self).step() is CherryPick,
        ensures
            final(self).commit() == old(self).commit(),
            final(self).new_parent() == old(self).new_parent(),
            match tree {
                Err(e) => final(self).step() == (CopyStep::Done { result: Err(e) }),
                Ok(t) => final(self).step() matches CopyStep::CommitTree { request } && copy_request_is(
                    request,
                    old(self).commit(),
                    t@,
                    old(self).new_parent(),
                ),
            },
    {
        match tree {
            Err(e) => {
                self.step = CopyStep::Done { result: Err(e) };
            },
            Ok(t) => {
                let request = copy_commit_request(self.commit, t.as_str(), self.new_parent_oid.as_str());
                self.step = CopyStep::CommitTree { request };
            },
        }
    }

    /// The answer of `git commit-tree`: the new copy, or the failure.
    pub fn commit_tree_done(&mut self, output: Result<String, String>)
        requires
            old(self).step() is CommitTree,
        ensures
            final(self).commit() == old(self).commit(),
            match output {
                Err(e) => final(self).step() matches CopyStep::Done { result: Err(CopyCommitError::Other(m)) } && m@
                    == "Failed to create commit: "@ + e@,
                Ok(o) => final(self).step() matches CopyStep::Done { result: Ok((id, status, Some(note))) } && id@
                    == text::trim(o@) && status == CommitSyncStatus::Created && created_note_is(
                    note,
                    old(self).commit(),
                    text::trim(o@),
                ),
            },
    {
        match output {
            Err(e) => {
                let mut m = chars_of("Failed to create commit: ");
                push_all(&mut m, &chars_of(e.as_str()));
                self.step = CopyStep::Done { result: Err(CopyCommitError::Other(string_of(&m))) };
            },
            Ok(o) => {
                let (id, status, note) = created_copy(self.commit, o.as_str());
                self.step = CopyStep::Done { result: Ok((id, status, Some(note))) };
            },
        }
    }

    /// The outcome, once the copy is done.
    pub fn into_result(self) -> (r: Result<(String, CommitSyncStatus, Option<CommitNoteInfo>), CopyCommitError>)
        requires
            self.step() is Done,
        ensures
            self.step() == (CopyStep::Done { result: r }),
    {
        match self.step {
            CopyStep::Done { result } => result,
            _ => Err(CopyCommitError::Other(String::new())),
        }
    }
}

/// Starts copying `commit` onto `new_parent_oid`; see `CommitCopy`.
pub fn create_or_update_commit<'a>(commit: &'a Commit, new_parent_oid: &str, reuse_if_possible: bool) -> (c: CommitCopy<'a>)
    ensures
        c.commit() == *commit,
        c.new_parent() == new_parent_oid@,
        reuse_if_possible && commit.mapped_commit_id is Some ==> (c.step() matches CopyStep::CheckMapped { mapped_id }
            && mapped_id@ == commit.mapped_commit_id->0@),
        !(reuse_if_possible && commit.mapped_commit_id is Some) ==> (c.step() matches CopyStep::ReadTrees {
            original_parent,
            new_parent,
        } && commit_list::opt_view(original_parent) == commit_list::opt_view(commit.parent_id) && new_parent@
            == new_parent_oid@),
{
    CommitCopy::new(commit, new_parent_oid, reuse_if_possible)
}

} // verus!
