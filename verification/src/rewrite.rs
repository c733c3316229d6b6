//! Rewriting the history of the current branch without touching the working
//! tree: dropping commits, amending one, and replaying the commits after it
//! on top. The walk over the commits is a state machine; the caller runs the
//! git plumbing each step asks for and reports what it gave.

use vstd::prelude::*;
use crate::archive::strs;
use crate::model::{BranchError, MergeConflictInfo};
use crate::number::{self, parse_u32};
use crate::text::{self, chars_of, push_all, slice_chars, split_whitespace_chars, string_of, trim_chars};

verus! {

/// Why copying or rewriting commits failed.
#[derive(Debug, Clone)]
pub enum CopyCommitError {
    /// An error to show on the branch (such as a conflict).
    BranchError(BranchError),
    Other(String),
}

/// What to do with a commit during a rewrite.
#[derive(Debug, Clone)]
pub enum RewriteAction {
    /// Keep the commit (recreated on its new parent).
    Keep,
    /// Drop the commit.
    Skip,
    /// Recreate the commit with this tree.
    Modify(String),
}

pub open spec fn is_keep(a: RewriteAction) -> bool {
    a is Keep
}

/// The commits of `git rev-list --first-parent --reverse --parents`, each
/// with its first parent (empty when none is listed).
pub open spec fn commit_with_parent(line: Seq<char>) -> Option<(Seq<char>, Seq<char>)> {
    let ws = text::words(line);
    if ws.len() == 0 {
        None
    } else if ws.len() == 1 {
        Some((ws[0], Seq::empty()))
    } else {
        Some((ws[0], ws[1]))
    }
}

pub open spec fn commits_with_parents(lines: Seq<Seq<char>>) -> Seq<(Seq<char>, Seq<char>)>
    decreases lines.len(),
{
    if lines.len() == 0 {
        Seq::empty()
    } else {
        commits_with_parents(lines.drop_last()) + match commit_with_parent(lines.last()) {
            Some(p) => seq![p],
            None => Seq::empty(),
        }
    }
}

/// Reads the commits to rewrite with their first parents.
pub fn parse_commits_with_parents(lines: &Vec<String>) -> (r: Vec<(String, String)>)
    ensures
        crate::archive::pairs(r@) == commits_with_parents(strs(lines@)),
{
    let ghost all = strs(lines@);
    let mut out: Vec<(String, String)> = Vec::new();
    let mut i: usize = 0;
    while i < lines.len()
        invariant
            i <= lines@.len(),
            all == strs(lines@),
            crate::archive::pairs(out@) == commits_with_parents(all.take(i as int)),
        decreases lines.len() - i,
    {
        proof {
            assert(all.take(i + 1).drop_last() =~= all.take(i as int));
            assert(all.take(i + 1).last() == lines@[i as int]@);
        }
        let ws = split_whitespace_chars(&chars_of(lines[i].as_str()));
        let ghost before = out@;
        if ws.len() == 1 {
            out.push((string_of(&ws[0]), String::new()));
            assert(crate::archive::pairs(out@) =~= crate::archive::pairs(before).push((ws@[0]@, Seq::<char>::empty())));
        } else if ws.len() >= 2 {
            out.push((string_of(&ws[0]), string_of(&ws[1])));
            assert(crate::archive::pairs(out@) =~= crate::archive::pairs(before).push((ws@[0]@, ws@[1]@)));
        } else {
            assert(commits_with_parents(all.take(i + 1)) =~= commits_with_parents(all.take(i as int)));
        }
        i = i + 1;
    }
    assert(all.take(lines@.len() as int) =~= all);
    out
}

/// A commit to replay was changed before: some earlier commit was dropped or
/// modified.
pub open spec fn changed_before(actions: Seq<RewriteAction>, k: int) -> bool {
    exists|j: int| 0 <= j < k && !is_keep(#[trigger] actions[j])
}

/// The first commit at or after `i` that is not dropped.
pub open spec fn first_kept(actions: Seq<RewriteAction>, i: int) -> int
    decreases actions.len() - i,
{
    if i < 0 || i >= actions.len() {
        if i < 0 { 0 } else { i }
    } else if actions[i] is Skip {
        first_kept(actions, i + 1)
    } else {
        i
    }
}

pub proof fn lemma_first_kept(actions: Seq<RewriteAction>, i: int)
    requires
        0 <= i <= actions.len(),
    ensures
        i <= first_kept(actions, i) <= actions.len(),
        forall|j: int| i <= j < first_kept(actions, i) ==> (#[trigger] actions[j]) is Skip,
        first_kept(actions, i) < actions.len() ==> !(actions[first_kept(actions, i)] is Skip),
    decreases actions.len() - i,
{
    if i < actions.len() && actions[i] is Skip {
        lemma_first_kept(actions, i + 1);
    }
}

/// What the rewrite asks for next.
#[derive(Debug, Clone)]
pub enum RewriteStep {
    /// Recreate commit `index` on `parent` with its own tree (nothing before
    /// it changed).
    ReuseTree { index: usize, commit: String, parent: String },
    /// Recreate commit `index` on `parent` with the tree from replaying it:
    /// the trees of `base` (its original parent), `ours` (the new parent)
    /// and `theirs` (the commit) decide it (see `choose_tree`).
    Replay { index: usize, commit: String, base: String, ours: String, theirs: String },
    /// Recreate commit `index` on `parent` with the given tree.
    UseTree { index: usize, commit: String, tree: String, parent: String },
    /// Every commit is done; the branch moves to `tip`.
    Finished { tip: String },
}

/// A rewrite in progress: the commits with their first parents, what to do
/// with each, how far it went and the commit the next one goes on.
pub struct Rewriter {
    commits: Vec<(String, String)>,
    actions: Vec<RewriteAction>,
    next: usize,
    current_parent: String,
    recreated: Ghost<Seq<Seq<char>>>,
}

impl Rewriter {
    pub closed spec fn commit_ids(&self) -> Seq<Seq<char>> {
        self.commits@.map_values(|p: (String, String)| p.0@)
    }

    pub closed spec fn parents(&self) -> Seq<Seq<char>> {
        self.commits@.map_values(|p: (String, String)| p.1@)
    }

    pub closed spec fn action_list(&self) -> Seq<RewriteAction> {
        self.actions@
    }

    pub closed spec fn position(&self) -> int {
        self.next as int
    }

    pub closed spec fn parent(&self) -> Seq<char> {
        self.current_parent@
    }

    /// The original commits recreated so far, in order.
    pub closed spec fn recreated(&self) -> Seq<Seq<char>> {
        self.recreated@
    }

    pub closed spec fn well_formed(&self) -> bool {
        &&& self.commits@.len() == self.actions@.len()
        &&& self.next <= self.commits@.len()
        &&& self.recreated@ == kept_ids(self.commit_ids().take(self.next as int), self.actions@.take(self.next as int))
    }

    /// Starts rewriting `commits` (oldest first) on top of `start_commit`.
    pub fn new(commits: Vec<(String, String)>, actions: Vec<RewriteAction>, start_commit: &str) -> (r: Self)
        requires
            commits@.len() == actions@.len(),
        ensures
            r.well_formed(),
            r.commit_ids() == commits@.map_values(|p: (String, String)| p.0@),
            r.parents() == commits@.map_values(|p: (String, String)| p.1@),
            r.action_list() == actions@,
            r.position() == 0,
            r.parent() == start_commit@,
    {
        let r = Rewriter { commits, actions, next: 0, current_parent: String::from_str(start_commit), recreated: Ghost(Seq::empty()) };
        assert(r.commit_ids().take(0) =~= Seq::<Seq<char>>::empty());
        assert(r.actions@.take(0) =~= Seq::<RewriteAction>::empty());
        r
    }

    /// The next step: past the dropped commits, the first commit left is
    /// recreated with its own tree when nothing before it changed, with the
    /// given tree when it is modified, else by replaying it; the branch
    /// moves to the last commit made when none is left.
    pub fn next_step(&mut self) -> (s: RewriteStep)
        requires
            old(self).well_formed(),
        ensures
            final(self).well_formed(),
            final(self).commit_ids() == old(self).commit_ids(),
            final(self).parents() == old(self).parents(),
            final(self).action_list() == old(self).action_list(),
            final(self).parent() == old(self).parent(),
            final(self).recreated() == old(self).recreated(),
            final(self).position() == first_kept(old(self).action_list(), old(self).position()),
            ({
                let k = first_kept(old(self).action_list(), old(self).position());
                let acts = old(self).action_list();
                match s {
                    RewriteStep::Finished { tip } => k == acts.len() && tip@ == old(self).parent(),
                    RewriteStep::ReuseTree { index, commit, parent } => index == k && k < acts.len() && acts[k] is Keep
                        && !changed_before(acts, k) && commit@ == old(self).commit_ids()[k] && parent@ == old(self).parent(),
                    RewriteStep::Replay { index, commit, base, ours, theirs } => index == k && k < acts.len() && acts[k] is Keep
                        && changed_before(acts, k) && commit@ == old(self).commit_ids()[k] && base@ == old(self).parents()[k]
                        && ours@ == old(self).parent() && theirs@ == old(self).commit_ids()[k],
                    RewriteStep::UseTree { index, commit, tree, parent } => index == k && k < acts.len()
                        && acts[k] == RewriteAction::Modify(tree) && commit@ == old(self).commit_ids()[k]
                        && parent@ == old(self).parent(),
                }
            }),
    {
        let ghost start = self.next as int;
        let ghost acts = self.actions@;
        let ghost commits0 = self.commits@;
        let ghost parent0 = self.current_parent@;
        let mut changed = false;
        let mut j: usize = 0;
        while j < self.next
            invariant
                j <= self.next,
                self.commits@ == commits0,
                self.actions@ == acts,
                self.current_parent@ == parent0,
                self.next == start,
                self.recreated@ == kept_ids(commits0.map_values(|p: (String, String)| p.0@).take(start), acts.take(start)),
                self.next <= self.actions@.len(),
                changed == changed_before(self.actions@, j as int),
            decreases self.next - j,
        {
            if !matches!(self.actions[j], RewriteAction::Keep) {
                changed = true;
            }
            proof {
                if changed_before(self.actions@, j + 1) && !changed_before(self.actions@, j as int) {
                    assert(!is_keep(self.actions@[j as int]));
                }
                if changed_before(self.actions@, j as int) {
                    let w = choose|w: int| 0 <= w < j && !is_keep(#[trigger] self.actions@[w]);
                    assert(!is_keep(self.actions@[w]));
                }
            }
            j = j + 1;
        }
        proof {
            lemma_first_kept(acts, start);
        }
        let ghost rec = self.recreated@;
        while self.next < self.actions.len() && matches!(self.actions[self.next], RewriteAction::Skip)
            invariant
                start <= self.next <= self.actions@.len(),
                self.actions@ == acts,
                self.commits@ == commits0,
                self.current_parent@ == parent0,
                self.commits@.len() == acts.len(),
                first_kept(acts, self.next as int) == first_kept(acts, start),
                changed == changed_before(acts, self.next as int),
                rec == kept_ids(self.commit_ids().take(self.next as int), acts.take(self.next as int)),
            decreases self.actions.len() - self.next,
        {
            proof {
                assert(self.commit_ids().take(self.next + 1).drop_last() =~= self.commit_ids().take(self.next as int));
                assert(acts.take(self.next + 1).drop_last() =~= acts.take(self.next as int));
                assert(acts.take(self.next + 1).last() == acts[self.next as int]);
                assert(!is_keep(acts[self.next as int]));
            }
            changed = true;
            self.next = self.next + 1;
        }
        self.recreated = Ghost(rec);
        let k = self.next;
        if k == self.commits.len() {
            return RewriteStep::Finished { tip: self.current_parent.clone() };
        }
        let commit = self.commits[k].0.clone();
        match &self.actions[k] {
            RewriteAction::Keep => {
                if !changed {
                    RewriteStep::ReuseTree { index: k, commit, parent: self.current_parent.clone() }
                } else {
                    RewriteStep::Replay {
                        index: k,
                        commit,
                        base: self.commits[k].1.clone(),
                        ours: self.current_parent.clone(),
                        theirs: self.commits[k].0.clone(),
                    }
                }
            },
            RewriteAction::Modify(t) => RewriteStep::UseTree { index: k, commit, tree: t.clone(), parent: self.current_parent.clone() },
            RewriteAction::Skip => {
                proof {
                    assert(false);
                }
                RewriteStep::Finished { tip: self.current_parent.clone() }
            },
        }
    }

    /// A rewrite that went through every commit recreated exactly the
    /// commits that were not dropped, in their order.
    pub proof fn lemma_finished_recreates_kept(&self)
        requires
            self.well_formed(),
            self.position() == self.action_list().len(),
        ensures
            self.recreated() == kept_ids(self.commit_ids(), self.action_list()),
    {
        assert(self.commit_ids().take(self.next as int) =~= self.commit_ids());
        assert(self.actions@.take(self.next as int) =~= self.actions@);
    }

    /// The commit asked for by the last step was made: it is the parent of
    /// the next one.
    pub fn commit_created(&mut self, new_commit: &str)
        requires
            old(self).well_formed(),
            old(self).position() < old(self).action_list().len(),
            !(old(self).action_list()[old(self).position()] is Skip),
        ensures
            final(self).well_formed(),
            final(self).commit_ids() == old(self).commit_ids(),
            final(self).parents() == old(self).parents(),
            final(self).action_list() == old(self).action_list(),
            final(self).position() == old(self).position() + 1,
            final(self).parent() == new_commit@,
            final(self).recreated() == old(self).recreated().push(old(self).commit_ids()[old(self).position()]),
    {
        let ghost k = self.next as int;
        proof {
            assert(self.commit_ids().take(k + 1).drop_last() =~= self.commit_ids().take(k));
            assert(self.actions@.take(k + 1).drop_last() =~= self.actions@.take(k));
            assert(self.actions@.take(k + 1).last() == self.actions@[k]);
            assert(self.commit_ids().take(k + 1).last() == self.commit_ids()[k]);
        }
        let n = self.actions.len();
        assert(self.next < n);
        assert(!(self.actions@.take(k + 1).last() is Skip));
        proof {
            let ids = self.commit_ids();
            let acts = self.actions@;
            assert(ids.take(k + 1).len() > 0);
            assert(kept_ids(ids.take(k + 1), acts.take(k + 1)) == kept_ids(ids.take(k), acts.take(k)) + seq![ids[k]]);
            assert(self.recreated@.push(ids[k]) =~= kept_ids(ids.take(k), acts.take(k)) + seq![ids[k]]);
        }
        self.recreated = Ghost(self.recreated@.push(self.commit_ids()[k]));
        self.next = self.next + 1;
        self.current_parent = String::from_str(new_commit);
        assert(self.next as int == k + 1);
        assert(self.recreated@ == kept_ids(self.commit_ids().take(k + 1), self.actions@.take(k + 1)));
    }
}

/// The commits that are not dropped, in order.
pub open spec fn kept_ids(ids: Seq<Seq<char>>, actions: Seq<RewriteAction>) -> Seq<Seq<char>>
    decreases ids.len(),
{
    if ids.len() == 0 || actions.len() == 0 {
        Seq::empty()
    } else {
        kept_ids(ids.drop_last(), actions.drop_last()) + if actions.last() is Skip {
            Seq::<Seq<char>>::empty()
        } else {
            seq![ids.last()]
        }
    }
}

/// The tree of a replayed commit when it needs no merge: the commit's tree
/// when the new parent has the original parent's tree; the new parent's tree
/// when the commit's tree is the same or the commit changed nothing.
pub open spec fn trivial_tree(base: Seq<char>, ours: Seq<char>, theirs: Seq<char>) -> Option<Seq<char>> {
    if base == ours {
        Some(theirs)
    } else if ours == theirs {
        Some(ours)
    } else if theirs == base {
        Some(ours)
    } else {
        None
    }
}

/// Decides the tree of a replayed commit, when no merge is needed.
pub fn choose_tree(base_tree: &str, ours_tree: &str, theirs_tree: &str) -> (r: Option<String>)
    ensures
        match r {
            Some(t) => trivial_tree(base_tree@, ours_tree@, theirs_tree@) == Some(t@),
            None => trivial_tree(base_tree@, ours_tree@, theirs_tree@) is None,
        },
{
    let b = chars_of(base_tree);
    let o = chars_of(ours_tree);
    let t = chars_of(theirs_tree);
    if text::chars_eq(&b, &o) {
        Some(String::from_str(theirs_tree))
    } else if text::chars_eq(&o, &t) {
        Some(String::from_str(ours_tree))
    } else if text::chars_eq(&t, &b) {
        Some(String::from_str(ours_tree))
    } else {
        None
    }
}

/// The first eight characters of a commit id (all of it when shorter).
pub open spec fn short_id(commit: Seq<char>) -> Seq<char> {
    if commit.len() > 8 {
        commit.take(8)
    } else {
        commit
    }
}

fn short_id_exec(commit: &str) -> (r: Vec<char>)
    ensures
        r@ == short_id(commit@),
{
    let c = chars_of(commit);
    if c.len() > 8 {
        let r = slice_chars(&c, 0, 8);
        assert(r@ =~= c@.take(8));
        r
    } else {
        c
    }
}

/// The tree `git merge-tree --write-tree` gave for a replayed commit: its
/// trimmed output on success; a conflict (exit code 1) refuses the rewrite;
/// any other failure is an error.
pub fn merge_tree_result(output: &str, exit_code: i32, commit: &str, subject: &str) -> (r: Result<String, CopyCommitError>)
    ensures
        exit_code == 0 ==> (r matches Ok(t) && t@ == text::trim(output@)),
        exit_code == 1 ==> (r matches Err(CopyCommitError::BranchError(BranchError::Generic(m))) && m@
            == "Rewriting would create conflicts when replaying commit "@ + short_id(commit@) + ": "@ + text::trim(subject@)),
        exit_code != 0 && exit_code != 1 ==> (r matches Err(CopyCommitError::Other(m)) && m@
            == "git merge-tree failed while rewriting: "@ + text::trim(output@)),
{
    if exit_code == 1 {
        let mut m = chars_of("Rewriting would create conflicts when replaying commit ");
        push_all(&mut m, &short_id_exec(commit));
        push_all(&mut m, &chars_of(": "));
        push_all(&mut m, &trim_chars(&chars_of(subject)));
        return Err(CopyCommitError::BranchError(BranchError::Generic(string_of(&m))));
    }
    if exit_code != 0 {
        let mut m = chars_of("git merge-tree failed while rewriting: ");
        push_all(&mut m, &trim_chars(&chars_of(output)));
        return Err(CopyCommitError::Other(string_of(&m)));
    }
    Ok(string_of(&trim_chars(&chars_of(output))))
}

/// After the branch moved, the index is reset to it (keeping the working
/// tree) only when the tree of `HEAD` changed and the branch is checked out.
pub fn needs_index_refresh(prev_head_tree: &str, new_head_tree: &str, current_branch: Option<String>, main_branch: &str) -> (b: bool)
    ensures
        b == (prev_head_tree@ != new_head_tree@ && (match current_branch {
            Some(c) => text::trim(c@) == main_branch@,
            None => false,
        })),
{
    if text::chars_eq(&chars_of(prev_head_tree), &chars_of(new_head_tree)) {
        return false;
    }
    match current_branch {
        Some(c) => text::chars_eq(&trim_chars(&chars_of(c.as_str())), &chars_of(main_branch)),
        None => false,
    }
}

/// ---- Dropping commits ----

/// The action for a commit when dropping some: drop it when listed.
pub fn drop_action(commit: &str, to_drop: &Vec<String>) -> (a: RewriteAction)
    ensures
        strs(to_drop@).contains(commit@) ==> a is Skip,
        !strs(to_drop@).contains(commit@) ==> a is Keep,
{
    let c = chars_of(commit);
    let mut i: usize = 0;
    while i < to_drop.len()
        invariant
            i <= to_drop@.len(),
            c@ == commit@,
            forall|j: int| 0 <= j < i ==> to_drop@[j]@ != commit@,
        decreases to_drop.len() - i,
    {
        if text::chars_eq(&chars_of(to_drop[i].as_str()), &c) {
            assert(strs(to_drop@)[i as int] == commit@);
            return RewriteAction::Skip;
        }
        i = i + 1;
    }
    assert forall|j: int| 0 <= j < strs(to_drop@).len() implies strs(to_drop@)[j] != commit@ by {
        assert(strs(to_drop@)[j] == to_drop@[j]@);
    }
    RewriteAction::Keep
}

/// The position, in `git rev-list --first-parent HEAD` (newest first), of
/// the oldest commit to drop.
pub open spec fn oldest_position(history: Seq<Seq<char>>, to_drop: Seq<Seq<char>>) -> Option<int> {
    if exists|i: int| 0 <= i < history.len() && to_drop.contains(history[i]) {
        Some(choose|i: int| 0 <= i < history.len() && to_drop.contains(history[i]) && forall|j: int| i < j < history.len() ==> !to_drop.contains(#[trigger] history[j]))
    } else {
        None
    }
}

/// Where dropping starts: the oldest listed commit found in the history of
/// `HEAD` (whose parent is the base of the rewrite). Refused when no commit is
/// listed or none is found.
pub fn drop_commits_from_head(history: &Vec<String>, commit_ids_to_drop: &Vec<String>) -> (r: Result<String, CopyCommitError>)
    ensures
        commit_ids_to_drop@.len() == 0 ==> (r matches Err(CopyCommitError::Other(m)) && m@ == "No commits specified to drop"@),
        commit_ids_to_drop@.len() > 0 ==> match oldest_position(strs(history@), strs(commit_ids_to_drop@)) {
            Some(p) => r matches Ok(c) && c@ == strs(history@)[p],
            None => r matches Err(CopyCommitError::Other(m)) && m@ == "None of the specified commits found in HEAD"@,
        },
{
    if commit_ids_to_drop.len() == 0 {
        return Err(CopyCommitError::Other(String::from_str("No commits specified to drop")));
    }
    let ghost h = strs(history@);
    let ghost d = strs(commit_ids_to_drop@);
    let mut found: Option<usize> = None;
    let mut i: usize = history.len();
    while i > 0
        invariant
            i <= history@.len(),
            h == strs(history@),
            d == strs(commit_ids_to_drop@),
            found is None ==> forall|j: int| i <= j < h.len() ==> !d.contains(#[trigger] h[j]),
            found matches Some(p) ==> p < h.len() && d.contains(h[p as int]) && forall|j: int| p < j < h.len() ==> !d.contains(#[trigger] h[j]),
        decreases i,
    {
        i = i - 1;
        if found.is_none() {
            let a = drop_action(history[i].as_str(), commit_ids_to_drop);
            if matches!(a, RewriteAction::Skip) {
                found = Some(i);
            }
        }
    }
    match found {
        Some(p) => {
            proof {
                let c = choose|k: int| 0 <= k < h.len() && d.contains(h[k]) && forall|j: int| k < j < h.len() ==> !d.contains(#[trigger] h[j]);
                assert(0 <= p < h.len() && d.contains(h[p as int]) && forall|j: int| p < j < h.len() ==> !d.contains(#[trigger] h[j]));
                if c < p {
                    assert(!d.contains(h[p as int]));
                } else if c > p {
                    assert(!d.contains(h[c]));
                }
            }
            Ok(history[p].clone())
        },
        None => Err(CopyCommitError::Other(String::from_str("None of the specified commits found in HEAD"))),
    }
}

/// The commits of `ids` that are not listed in `to_drop`, in order.
pub open spec fn without(ids: Seq<Seq<char>>, to_drop: Seq<Seq<char>>) -> Seq<Seq<char>> {
    ids.filter(|c: Seq<char>| !to_drop.contains(c))
}

proof fn lemma_kept_push(ids: Seq<Seq<char>>, acts: Seq<RewriteAction>, id: Seq<char>, a: RewriteAction)
    requires
        ids.len() == acts.len(),
    ensures
        kept_ids(ids.push(id), acts.push(a)) == kept_ids(ids, acts) + if a is Skip {
            Seq::<Seq<char>>::empty()
        } else {
            seq![id]
        },
{
    assert(ids.push(id).drop_last() =~= ids);
    assert(acts.push(a).drop_last() =~= acts);
}

/// The rewrite that drops the listed commits: the commits after the base,
/// oldest first, each dropped when listed and kept otherwise. Run to the
/// end, it recreates exactly the commits that are not listed, in order
/// (`Rewriter::lemma_finished_recreates_kept`).
pub fn drop_plan(commits: Vec<(String, String)>, to_drop: &Vec<String>, base_commit: &str) -> (r: Rewriter)
    ensures
        r.well_formed(),
        r.commit_ids() == commits@.map_values(|p: (String, String)| p.0@),
        r.parents() == commits@.map_values(|p: (String, String)| p.1@),
        r.position() == 0,
        r.parent() == base_commit@,
        forall|k: int| 0 <= k < r.action_list().len() ==> ((#[trigger] r.action_list()[k]) is Skip <==> strs(to_drop@).contains(
            r.commit_ids()[k],
        )),
        forall|k: int| 0 <= k < r.action_list().len() ==> ((#[trigger] r.action_list()[k]) is Skip || r.action_list()[k] is Keep),
        kept_ids(r.commit_ids(), r.action_list()) == without(r.commit_ids(), strs(to_drop@)),
{
    let ghost ids = commits@.map_values(|p: (String, String)| p.0@);
    let ghost d = strs(to_drop@);
    let mut actions: Vec<RewriteAction> = Vec::new();
    let mut i: usize = 0;
    while i < commits.len()
        invariant
            i <= commits@.len(),
            ids == commits@.map_values(|p: (String, String)| p.0@),
            d == strs(to_drop@),
            actions@.len() == i,
            forall|k: int| 0 <= k < i ==> ((#[trigger] actions@[k]) is Skip <==> d.contains(ids[k])),
            forall|k: int| 0 <= k < i ==> ((#[trigger] actions@[k]) is Skip || actions@[k] is Keep),
            kept_ids(ids.take(i as int), actions@) == without(ids.take(i as int), d),
        decreases commits.len() - i,
    {
        let a = drop_action(commits[i].0.as_str(), to_drop);
        proof {
            assert(ids[i as int] == commits@[i as int].0@);
            lemma_kept_push(ids.take(i as int), actions@, ids[i as int], a);
            assert(ids.take(i + 1) =~= ids.take(i as int).push(ids[i as int]));
            reveal_with_fuel(Seq::filter, 1);
            assert(ids.take(i + 1).drop_last() =~= ids.take(i as int));
        }
        actions.push(a);
        i = i + 1;
    }
    assert(ids.take(commits@.len() as int) =~= ids);
    Rewriter::new(commits, actions, base_commit)
}

/// ---- Amending ----

/// What amending changes into a commit.
#[derive(Debug, Clone)]
pub struct AmendToCommitParams {
    pub original_commit_id: String,
    pub files: Vec<String>,
}

/// The amended commit and the new tip of the branch.
#[derive(Debug, Clone)]
pub struct AmendResult {
    pub amended_commit_id: String,
    pub rebased_to_commit: String,
}

/// What amending a root commit asks for next.
pub enum RootAmendStep {
    /// Recreate `commit` with its metadata on `parent`, replaying it: its
    /// tree is decided by the trees of `base` (its original parent), `parent`
    /// (ours) and `commit` (theirs), as `choose_tree` or a three-way merge
    /// says, so that the amended changes carry into the later commits.
    Recreate { commit: String, base: String, parent: String },
    /// Every descendant is recreated: the branch moves to the result's new tip.
    Finished { result: AmendResult },
}

/// Amending a root commit: the amended root is made first (it has no
/// parent), then each descendant of the old root on the first-parent line,
/// oldest first, is replayed onto the commit made before it.
pub struct RootAmend {
    original_root: String,
    amended: String,
    descendants: Vec<String>,
    next: usize,
    current_parent: String,
}

impl RootAmend {
    /// The amended root commit.
    pub closed spec fn amended_id(&self) -> Seq<char> {
        self.amended@
    }

    /// The root commit that was amended.
    pub closed spec fn original_root(&self) -> Seq<char> {
        self.original_root@
    }

    /// The original parent of the `k`-th descendant: the one before it, or
    /// the old root for the first.
    pub open spec fn original_parent(&self, k: int) -> Seq<char> {
        if k == 0 {
            self.original_root()
        } else {
            self.descendant_ids()[k - 1]
        }
    }

    /// The descendants to recreate, oldest first.
    pub closed spec fn descendant_ids(&self) -> Seq<Seq<char>> {
        strs(self.descendants@)
    }

    /// How many descendants are recreated.
    pub closed spec fn position(&self) -> int {
        self.next as int
    }

    /// The commit the next descendant goes on: the last one made.
    pub closed spec fn parent(&self) -> Seq<char> {
        self.current_parent@
    }

    pub closed spec fn well_formed(&self) -> bool {
        self.next <= self.descendants@.len()
    }

    /// Starts with the amended root and the descendants of the old root.
    pub fn new(original_root: &str, amended_commit_id: &str, descendants: Vec<String>) -> (r: Self)
        ensures
            r.well_formed(),
            r.original_root() == original_root@,
            r.amended_id() == amended_commit_id@,
            r.descendant_ids() == strs(descendants@),
            r.position() == 0,
            r.parent() == amended_commit_id@,
    {
        RootAmend {
            original_root: String::from_str(original_root),
            amended: String::from_str(amended_commit_id),
            descendants,
            next: 0,
            current_parent: String::from_str(amended_commit_id),
        }
    }

    /// The next descendant to recreate on the last commit made, or, when all
    /// are done, the amended root and the new tip (the amended root itself
    /// when it has no descendants).
    pub fn next_step(&self) -> (s: RootAmendStep)
        requires
            self.well_formed(),
        ensures
            self.position() < self.descendant_ids().len() ==> (s matches RootAmendStep::Recreate { commit, base, parent }
                && commit@ == self.descendant_ids()[self.position()] && base@ == self.original_parent(self.position())
                && parent@ == self.parent()),
            self.position() == self.descendant_ids().len() ==> (s matches RootAmendStep::Finished { result }
                && result.amended_commit_id@ == self.amended_id() && result.rebased_to_commit@ == self.parent()),
    {
        if self.next < self.descendants.len() {
            let base = if self.next == 0 {
                self.original_root.clone()
            } else {
                self.descendants[self.next - 1].clone()
            };
            RootAmendStep::Recreate {
                commit: self.descendants[self.next].clone(),
                base,
                parent: String::from_str(self.current_parent.as_str()),
            }
        } else {
            RootAmendStep::Finished {
                result: AmendResult {
                    amended_commit_id: String::from_str(self.amended.as_str()),
                    rebased_to_commit: String::from_str(self.current_parent.as_str()),
                },
            }
        }
    }

    /// The next descendant was recreated as `new_commit`: the one after it
    /// goes on `new_commit`.
    pub fn commit_created(&mut self, new_commit: &str)
        requires
            old(self).well_formed(),
            old(self).position() < old(self).descendant_ids().len(),
        ensures
            final(self).well_formed(),
            final(self).position() == old(self).position() + 1,
            final(self).parent() == new_commit@,
            final(self).amended_id() == old(self).amended_id(),
            final(self).original_root() == old(self).original_root(),
            final(self).descendant_ids() == old(self).descendant_ids(),
    {
        assert(strs(self.descendants@).len() == self.descendants@.len());
        assert(strs(self.descendants@).len() == self.descendants@.len());
        let n = self.descendants.len();
        assert(self.next < n);
        self.next = self.next + 1;
        self.current_parent = String::from_str(new_commit);
    }
}

/// How an amend proceeds.
#[derive(Debug, Clone, Copy, PartialEq, Eq, Structural)]
pub enum AmendRoute {
    /// The commit is `HEAD`: `git commit -a --amend`.
    AmendHead,
    /// Otherwise: rewrite the objects when the range to `HEAD` is linear,
    /// else make a fixup commit and autosquash.
    AmendInHistory,
}

/// The first decision of an amend: refused without uncommitted changes (the
/// trimmed `git status --porcelain` is empty); the commit at `HEAD` is
/// amended directly.
pub fn amend_route(status_output: &str, current_head: &str, params: &AmendToCommitParams) -> (r: Result<AmendRoute, CopyCommitError>)
    ensures
        text::trim(status_output@).len() == 0 ==> (r matches Err(CopyCommitError::Other(m)) && m@ == "No uncommitted changes to amend"@),
        text::trim(status_output@).len() > 0 && text::trim(current_head@) == params.original_commit_id@ ==> r == Ok::<AmendRoute, CopyCommitError>(AmendRoute::AmendHead),
        text::trim(status_output@).len() > 0 && text::trim(current_head@) != params.original_commit_id@ ==> r == Ok::<AmendRoute, CopyCommitError>(AmendRoute::AmendInHistory),
{
    if trim_chars(&chars_of(status_output)).len() == 0 {
        return Err(CopyCommitError::Other(String::from_str("No uncommitted changes to amend")));
    }
    if text::chars_eq(&trim_chars(&chars_of(current_head)), &chars_of(params.original_commit_id.as_str())) {
        Ok(AmendRoute::AmendHead)
    } else {
        Ok(AmendRoute::AmendInHistory)
    }
}

/// The range to `HEAD` is linear: `git rev-list --first-parent --merges -n 1`
/// found no merge commit.
pub fn is_linear_range(output: &str) -> (b: bool)
    ensures
        b == (text::trim(output@).len() == 0),
{
    trim_chars(&chars_of(output)).len() == 0
}

/// The action for a commit when amending: the amended commit gets the
/// amended tree, the others are kept.
pub fn amend_action(commit: &str, original_commit_id: &str, amended_tree: &str) -> (a: RewriteAction)
    ensures
        commit@ == original_commit_id@ ==> (a matches RewriteAction::Modify(t) && t@ == amended_tree@),
        commit@ != original_commit_id@ ==> a is Keep,
{
    if text::chars_eq(&chars_of(commit), &chars_of(original_commit_id)) {
        RewriteAction::Modify(String::from_str(amended_tree))
    } else {
        RewriteAction::Keep
    }
}

/// The rewrite that amends `original_commit_id` with `amended_tree`: the
/// commits after its parent, oldest first; the amended commit gets the
/// amended tree, every other commit is kept (and replayed onto the amended
/// history). Nothing is dropped, so as many commits come out as went in.
pub fn amend_plan(commits: Vec<(String, String)>, original_commit_id: &str, amended_tree: &str, parent_commit: &str) -> (r: Rewriter)
    ensures
        r.well_formed(),
        r.commit_ids() == commits@.map_values(|p: (String, String)| p.0@),
        r.parents() == commits@.map_values(|p: (String, String)| p.1@),
        r.position() == 0,
        r.parent() == parent_commit@,
        forall|k: int| 0 <= k < r.action_list().len() ==> (r.commit_ids()[k] == original_commit_id@ ==> (
            #[trigger] r.action_list()[k] matches RewriteAction::Modify(t) && t@ == amended_tree@)),
        forall|k: int| 0 <= k < r.action_list().len() ==> (r.commit_ids()[k] != original_commit_id@ ==> (
            #[trigger] r.action_list()[k]) is Keep),
        kept_ids(r.commit_ids(), r.action_list()) == r.commit_ids(),
{
    let ghost ids = commits@.map_values(|p: (String, String)| p.0@);
    let mut actions: Vec<RewriteAction> = Vec::new();
    let mut i: usize = 0;
    while i < commits.len()
        invariant
            i <= commits@.len(),
            ids == commits@.map_values(|p: (String, String)| p.0@),
            actions@.len() == i,
            forall|k: int| 0 <= k < i ==> (ids[k] == original_commit_id@ ==> (#[trigger] actions@[k] matches RewriteAction::Modify(t)
                && t@ == amended_tree@)),
            forall|k: int| 0 <= k < i ==> (ids[k] != original_commit_id@ ==> (#[trigger] actions@[k]) is Keep),
            kept_ids(ids.take(i as int), actions@) == ids.take(i as int),
        decreases commits.len() - i,
    {
        let a = amend_action(commits[i].0.as_str(), original_commit_id, amended_tree);
        proof {
            assert(ids[i as int] == commits@[i as int].0@);
            lemma_kept_push(ids.take(i as int), actions@, ids[i as int], a);
            assert(ids.take(i + 1) =~= ids.take(i as int).push(ids[i as int]));
        }
        actions.push(a);
        i = i + 1;
    }
    assert(ids.take(commits@.len() as int) =~= ids);
    Rewriter::new(commits, actions, parent_commit)
}

/// The arguments of the autosquash rebase: from the (trimmed) parent of the
/// amended commit, or from the root when it has none.
pub fn rebase_args(parent: Option<String>) -> (args: Vec<String>)
    ensures
        args@.len() == 3,
        args@[0]@ == "rebase"@,
        args@[1]@ == "--autosquash"@,
        args@[2]@ == (match parent {
            Some(p) => if text::trim(p@).len() > 0 { text::trim(p@) } else { "--root"@ },
            None => "--root"@,
        }),
{
    let mut args: Vec<String> = Vec::new();
    args.push(String::from_str("rebase"));
    args.push(String::from_str("--autosquash"));
    let base = match parent {
        Some(p) => trim_chars(&chars_of(p.as_str())),
        None => Vec::new(),
    };
    if base.len() == 0 {
        args.push(String::from_str("--root"));
    } else {
        args.push(string_of(&base));
    }
    args
}

/// A failed rebase is a conflict when its message mentions one.
pub fn is_rebase_conflict(error_message: &str) -> (b: bool)
    ensures
        b == (text::contains_seq(error_message@, "conflict"@) || text::contains_seq(error_message@, "CONFLICT"@)),
{
    let m = chars_of(error_message);
    text::contains_exec(&m, &chars_of("conflict")) || text::contains_exec(&m, &chars_of("CONFLICT"))
}

/// The amended commit and the new tip after an amend: the amended commit is
/// the first commit after the parent in the rewritten history (for a direct
/// amend or an autosquash rebase, both are the trimmed new `HEAD`).
pub fn amend_result(amended_commit: Option<String>, new_head: &str) -> (r: Result<AmendResult, CopyCommitError>)
    ensures
        match amended_commit {
            Some(c) => r matches Ok(a) && a.amended_commit_id@ == c@ && a.rebased_to_commit@ == text::trim(new_head@),
            None => r matches Err(CopyCommitError::Other(m)) && m@ == "No commits found after rewriting"@,
        },
{
    match amended_commit {
        Some(c) => Ok(AmendResult { amended_commit_id: c, rebased_to_commit: string_of(&trim_chars(&chars_of(new_head))) }),
        None => Err(CopyCommitError::Other(String::from_str("No commits found after rewriting"))),
    }
}

/// The files to put into the amended tree, as the standard input of `git
/// update-index -z --stdin`: each followed by a NUL. Refused without files.
pub fn amend_index_input(files: &Vec<String>) -> (r: Result<String, CopyCommitError>)
    ensures
        files@.len() == 0 ==> (r matches Err(CopyCommitError::Other(m)) && m@ == "No files specified to amend"@),
        files@.len() > 0 ==> (r matches Ok(s) && s@ == nul_terminated(strs(files@))),
{
    if files.len() == 0 {
        return Err(CopyCommitError::Other(String::from_str("No files specified to amend")));
    }
    let mut v: Vec<char> = Vec::new();
    let mut i: usize = 0;
    while i < files.len()
        invariant
            i <= files@.len(),
            v@ == nul_terminated(strs(files@).take(i as int)),
        decreases files.len() - i,
    {
        assert(strs(files@).take(i + 1).drop_last() =~= strs(files@).take(i as int));
        push_all(&mut v, &chars_of(files[i].as_str()));
        v.push('\0');
        i = i + 1;
    }
    assert(strs(files@).take(files@.len() as int) =~= strs(files@));
    Ok(string_of(&v))
}

pub open spec fn nul_terminated(files: Seq<Seq<char>>) -> Seq<char>
    decreases files.len(),
{
    if files.len() == 0 {
        Seq::empty()
    } else {
        nul_terminated(files.drop_last()) + files.last() + seq!['\0']
    }
}

/// Whether amending is safe, from the commits after the amended one (`git
/// rev-list --first-parent --reverse`, one per line) and the exit codes of
/// `git merge-tree` for them in order (checking stops at the first non-zero):
/// exit code 1 is a conflict, another failure makes the amend unsafe.
pub fn check_amend_conflicts(commits_output: &str, exit_codes: &Vec<i32>, failing_subject: &str) -> (r: Result<(), String>)
    ensures
        ({
            let affected = affected_commits(commits_output@);
            match first_failure(exit_codes@, affected.len() as int) {
                None => r is Ok,
                Some(k) => r matches Err(m) && m@ == (if exit_codes@[k] == 1 {
                    "Amending would create conflicts with commit "@ + short_hash(affected[k]) + " ("@ + text::trim(failing_subject@)
                        + "). "@ + number::decimal((affected.len() - 1) as nat)
                        + " other commit(s) would also be affected by the rebase."@
                } else {
                    "Cannot safely amend: commit "@ + short_hash(affected[k]) + " ("@ + text::trim(failing_subject@)
                        + ") may have conflicts. "@ + number::decimal(affected.len() as nat) + " commit(s) would be rebased."@
                }),
            }
        }),
{
    let lines = text::nonblank_lines(commits_output);
    let n = lines.len();
    let mut k: usize = 0;
    while k < n && k < exit_codes.len()
        invariant
            k <= n,
            k <= exit_codes@.len(),
            n == affected_commits(commits_output@).len(),
            strs(lines@) == affected_commits(commits_output@),
            forall|j: int| 0 <= j < k ==> exit_codes@[j] == 0,
        decreases n - k,
    {
        if exit_codes[k] != 0 {
            proof {
                lemma_first_failure_is(exit_codes@, n as int, k as int);
            }
            let hash = short_hash_exec(lines[k].as_str());
            let subject = trim_chars(&chars_of(failing_subject));
            if exit_codes[k] == 1 {
                let mut m = chars_of("Amending would create conflicts with commit ");
                push_all(&mut m, &hash);
                push_all(&mut m, &chars_of(" ("));
                push_all(&mut m, &subject);
                push_all(&mut m, &chars_of("). "));
                push_all(&mut m, &number::format_u64((n - 1) as u64));
                push_all(&mut m, &chars_of(" other commit(s) would also be affected by the rebase."));
                return Err(string_of(&m));
            } else {
                let mut m = chars_of("Cannot safely amend: commit ");
                push_all(&mut m, &hash);
                push_all(&mut m, &chars_of(" ("));
                push_all(&mut m, &subject);
                push_all(&mut m, &chars_of(") may have conflicts. "));
                push_all(&mut m, &number::format_u64(n as u64));
                push_all(&mut m, &chars_of(" commit(s) would be rebased."));
                return Err(string_of(&m));
            }
        }
        k = k + 1;
    }
    proof {
        lemma_no_failure(exit_codes@, n as int, k as int);
    }
    Ok(())
}

/// The commits a rebase after the amended one would replay: the trimmed,
/// non-empty lines.
pub open spec fn affected_commits(output: Seq<char>) -> Seq<Seq<char>> {
    text::text_lines(output)
}

/// The first commit whose check failed.
pub open spec fn first_failure(codes: Seq<i32>, n: int) -> Option<int> {
    if exists|k: int| 0 <= k < n && k < codes.len() && codes[k] != 0 {
        Some(choose|k: int| 0 <= k < n && k < codes.len() && codes[k] != 0 && forall|j: int| 0 <= j < k ==> #[trigger] codes[j] == 0)
    } else {
        None
    }
}

proof fn lemma_first_failure_is(codes: Seq<i32>, n: int, k: int)
    requires
        0 <= k < n,
        k < codes.len(),
        codes[k] != 0,
        forall|j: int| 0 <= j < k ==> codes[j] == 0,
    ensures
        first_failure(codes, n) == Some(k),
{
    let c = choose|c: int| 0 <= c < n && c < codes.len() && codes[c] != 0 && forall|j: int| 0 <= j < c ==> #[trigger] codes[j] == 0;
    assert(0 <= k < n && k < codes.len() && codes[k] != 0 && forall|j: int| 0 <= j < k ==> #[trigger] codes[j] == 0);
    if c < k {
        assert(codes[c] == 0);
    } else if c > k {
        assert(codes[k] == 0);
    }
}

proof fn lemma_no_failure(codes: Seq<i32>, n: int, k: int)
    requires
        0 <= k <= n,
        k == n || k == codes.len(),
        forall|j: int| 0 <= j < k ==> codes[j] == 0,
    ensures
        first_failure(codes, n) is None,
{
}

/// The first eight characters of a hash, or all of it when shorter.
pub open spec fn short_hash(h: Seq<char>) -> Seq<char> {
    if h.len() >= 8 {
        h.take(8)
    } else {
        h
    }
}

fn short_hash_exec(h: &str) -> (r: Vec<char>)
    ensures
        r@ == short_hash(h@),
{
    let c = chars_of(h);
    if c.len() >= 8 {
        let r = slice_chars(&c, 0, 8);
        assert(r@ =~= c@.take(8));
        r
    } else {
        c
    }
}

} // verus!

verus! {

/// What amending working changes into a commit asks for next.
pub enum AmendStep {
    /// The output of `git status --porcelain`.
    ReadStatus,
    /// The output of `git rev-parse HEAD`.
    ReadHead,
    /// Run `git commit -a --amend --no-edit --no-verify` (the commit is `HEAD`).
    AmendHead,
    /// The output of `git rev-parse HEAD` once the history is rewritten.
    ReadFinalHead,
    /// Run `git` with these arguments: does the range to `HEAD` hold a merge?
    CheckLinear { args: Vec<String> },
    /// The output of `git symbolic-ref --short HEAD`.
    ReadBranch,
    /// The tree of `commit_id` with the working changes of `files`.
    ComputeAmendedTree { commit_id: String, files: Vec<String> },
    /// The output of `git rev-parse <commit>^`.
    ReadParent { commit_id: String },
    /// Rewrite the history after `parent` on `branch` with the rewrite that
    /// `amend_plan` makes (the amended commit gets `amended_tree`, the others
    /// are replayed), and give the new tip.
    Rewrite { parent: String, branch: String, commit_id: String, amended_tree: String },
    /// The output of `git rev-list --first-parent --reverse <parent>..<new_head>`.
    ListRewritten { parent: String, new_head: String },
    /// The commit is a root: make the amended root with `amended_tree`, replay
    /// its descendants with `RootAmend`, and move `branch` to the result.
    AmendRoot { commit_id: String, amended_tree: String, branch: String },
    /// Run `git` with these arguments (a fixup commit).
    Fixup { args: Vec<String> },
    /// The output of `git rev-parse <commit>^`, the base of the rebase.
    ReadRebaseBase { commit_id: String },
    /// Run `git` with these arguments (the autosquash rebase).
    Rebase { args: Vec<String> },
    /// The rebase stopped on conflicts: read them (see `AmendConflict`).
    ExtractConflict { commit_id: String },
    /// Run `git rebase --abort`.
    AbortRebase,
    /// The amend is over.
    Done { result: Result<AmendResult, CopyCommitError> },
}

/// Amending working changes into a commit of the current branch
/// (`amend_to_commit_in_main`). Refused without uncommitted changes. The
/// commit at `HEAD` is amended directly. Otherwise, on a linear history, the
/// commit is recreated with the amended tree and the commits after it are
/// replayed (a rewrite that keeps every commit); a root commit is recreated
/// without parent and its descendants replayed on it. Otherwise a fixup
/// commit and an autosquash rebase do it; a conflict there is reported with
/// its details after the rebase is aborted.
pub struct Amend {
    original: String,
    files: Vec<String>,
    branch: String,
    amended_tree: String,
    parent: String,
    new_head: String,
    conflict: Option<Result<MergeConflictInfo, String>>,
    step: AmendStep,
}

impl Amend {
    pub closed spec fn step(&self) -> AmendStep {
        self.step
    }

    /// The commit to amend.
    pub closed spec fn original(&self) -> Seq<char> {
        self.original@
    }

    /// The files whose working changes go into it.
    pub closed spec fn files(&self) -> Seq<Seq<char>> {
        strs(self.files@)
    }

    /// The current branch, once read.
    pub closed spec fn branch(&self) -> Seq<char> {
        self.branch@
    }

    /// The amended tree, once computed.
    pub closed spec fn amended_tree(&self) -> Seq<char> {
        self.amended_tree@
    }

    /// The parent of the commit, once read.
    pub closed spec fn parent(&self) -> Seq<char> {
        self.parent@
    }

    /// The new tip of a rewrite, once made.
    pub closed spec fn new_head(&self) -> Seq<char> {
        self.new_head@
    }

    /// The conflicts read after a failed rebase, or why they could not be.
    pub closed spec fn conflict(&self) -> Option<Result<MergeConflictInfo, String>> {
        self.conflict
    }

    /// What to do next.
    pub fn next_step(&self) -> (s: &AmendStep)
        ensures
            *s == self.step(),
    {
        &self.step
    }

    fn done(&mut self, result: Result<AmendResult, CopyCommitError>)
        ensures
            final(self).step() == (AmendStep::Done { result }),
            final(self).original() == old(self).original(),
            final(self).files() == old(self).files(),
            final(self).branch() == old(self).branch(),
            final(self).amended_tree() == old(self).amended_tree(),
            final(self).parent() == old(self).parent(),
            final(self).new_head() == old(self).new_head(),
            final(self).conflict() == old(self).conflict(),
    {
        self.step = AmendStep::Done { result };
    }

    /// Starts by reading the status.
    pub fn new(params: AmendToCommitParams) -> (a: Self)
        ensures
            a.original() == params.original_commit_id@,
            a.files() == strs(params.files@),
            a.step() is ReadStatus,
            a.conflict() is None,
    {
        Amend {
            original: params.original_commit_id,
            files: params.files,
            branch: String::new(),
            amended_tree: String::new(),
            parent: String::new(),
            new_head: String::new(),
            conflict: None,
            step: AmendStep::ReadStatus,
        }
    }

    /// The status: without uncommitted changes there is nothing to amend.
    pub fn status_read(&mut self, output: Result<String, CopyCommitError>)
        requires
            old(self).step() is ReadStatus,
        ensures
            final(self).original() == old(self).original(),
            final(self).files() == old(self).files(),
            match output {
                Err(e) => final(self).step() == (AmendStep::Done { result: Err(e) }),
                Ok(o) => if text::trim(o@).len() == 0 {
                    final(self).step() matches AmendStep::Done { result: Err(CopyCommitError::Other(m)) } && m@
                        == "No uncommitted changes to amend"@
                } else {
                    final(self).step() is ReadHead
                },
            },
    {
        match output {
            Err(e) => self.done(Err(e)),
            Ok(o) => {
                if trim_chars(&chars_of(o.as_str())).len() == 0 {
                    self.done(Err(CopyCommitError::Other(String::from_str("No uncommitted changes to amend"))));
                } else {
                    self.step = AmendStep::ReadHead;
                }
            },
        }
    }

    /// `HEAD`: the commit at `HEAD` is amended directly; another is amended in
    /// the history, whose linearity is checked first.
    pub fn head_read(&mut self, output: Result<String, CopyCommitError>)
        requires
            old(self).step() is ReadHead,
        ensures
            final(self).original() == old(self).original(),
            final(self).files() == old(self).files(),
            match output {
                Err(e) => final(self).step() == (AmendStep::Done { result: Err(e) }),
                Ok(h) => if text::trim(h@) == old(self).original() {
                    final(self).step() is AmendHead
                } else {
                    final(self).step() matches AmendStep::CheckLinear { args } && strs(args@) == seq!["rev-list"@,
                        "--first-parent"@, "--merges"@, old(self).original() + "..HEAD"@, "-n"@, "1"@]
                },
            },
    {
        match output {
            Err(e) => self.done(Err(e)),
            Ok(h) => {
                if text::chars_eq(&trim_chars(&chars_of(h.as_str())), &chars_of(self.original.as_str())) {
                    self.step = AmendStep::AmendHead;
                } else {
                    let mut range = chars_of(self.original.as_str());
                    push_all(&mut range, &chars_of("..HEAD"));
                    let mut args: Vec<String> = Vec::new();
                    args.push(String::from_str("rev-list"));
                    args.push(String::from_str("--first-parent"));
                    args.push(String::from_str("--merges"));
                    args.push(string_of(&range));
                    args.push(String::from_str("-n"));
                    args.push(String::from_str("1"));
                    assert(strs(args@) =~= seq!["rev-list"@, "--first-parent"@, "--merges"@, self.original@ + "..HEAD"@,
                        "-n"@, "1"@]);
                    self.step = AmendStep::CheckLinear { args };
                }
            },
        }
    }

    /// The direct amend of `HEAD` ran: the new `HEAD` is read next.
    pub fn head_amended(&mut self, result: Result<(), CopyCommitError>)
        requires
            old(self).step() is AmendHead,
        ensures
            match result {
                Err(e) => final(self).step() == (AmendStep::Done { result: Err(e) }),
                Ok(()) => final(self).step() is ReadFinalHead,
            },
    {
        match result {
            Err(e) => self.done(Err(e)),
            Ok(()) => {
                self.step = AmendStep::ReadFinalHead;
            },
        }
    }

    /// The new `HEAD`: both the amended commit and the new tip.
    pub fn final_head_read(&mut self, output: Result<String, CopyCommitError>)
        requires
            old(self).step() is ReadFinalHead,
        ensures
            match output {
                Err(e) => final(self).step() == (AmendStep::Done { result: Err(e) }),
                Ok(h) => final(self).step() matches AmendStep::Done { result: Ok(r) } && r.amended_commit_id@ == text::trim(h@)
                    && r.rebased_to_commit@ == text::trim(h@),
            },
    {
        match output {
            Err(e) => self.done(Err(e)),
            Ok(h) => {
                let head = string_of(&trim_chars(&chars_of(h.as_str())));
                let r = amend_result(Some(head), h.as_str());
                self.done(r);
            },
        }
    }

    /// Whether the range holds a merge: a linear history is rewritten (the
    /// branch is read first), another gets a fixup commit.
    pub fn linear_checked(&mut self, output: Result<String, CopyCommitError>)
        requires
            old(self).step() is CheckLinear,
        ensures
            final(self).original() == old(self).original(),
            final(self).files() == old(self).files(),
            match output {
                Err(e) => final(self).step() == (AmendStep::Done { result: Err(e) }),
                Ok(o) => if text::trim(o@).len() == 0 {
                    final(self).step() is ReadBranch
                } else {
                    final(self).step() matches AmendStep::Fixup { args } && strs(args@) == seq!["commit"@, "-a"@, "--fixup="@
                        + old(self).original(), "--no-verify"@]
                },
            },
    {
        match output {
            Err(e) => self.done(Err(e)),
            Ok(o) => {
                if is_linear_range(o.as_str()) {
                    self.step = AmendStep::ReadBranch;
                } else {
                    let mut fixup = chars_of("--fixup=");
                    push_all(&mut fixup, &chars_of(self.original.as_str()));
                    let mut args: Vec<String> = Vec::new();
                    args.push(String::from_str("commit"));
                    args.push(String::from_str("-a"));
                    args.push(string_of(&fixup));
                    args.push(String::from_str("--no-verify"));
                    assert(strs(args@) =~= seq!["commit"@, "-a"@, "--fixup="@ + self.original@, "--no-verify"@]);
                    self.step = AmendStep::Fixup { args };
                }
            },
        }
    }

    /// The current branch: the amended tree is computed next.
    pub fn branch_read(&mut self, output: Result<String, CopyCommitError>)
        requires
            old(self).step() is ReadBranch,
        ensures
            final(self).original() == old(self).original(),
            final(self).files() == old(self).files(),
            match output {
                Err(e) => final(self).step() == (AmendStep::Done { result: Err(e) }),
                Ok(b) => final(self).branch() == text::trim(b@) && (final(self).step() matches AmendStep::ComputeAmendedTree {
                    commit_id,
                    files,
                } && commit_id@ == old(self).original() && strs(files@) == old(self).files()),
            },
    {
        match output {
            Err(e) => self.done(Err(e)),
            Ok(b) => {
                self.branch = string_of(&trim_chars(&chars_of(b.as_str())));
                let mut files: Vec<String> = Vec::new();
                let mut i: usize = 0;
                while i < self.files.len()
                    invariant
                        i <= self.files@.len(),
                        strs(files@) == strs(self.files@).take(i as int),
                    decreases self.files.len() - i,
                {
                    let ghost before = files@;
                    files.push(self.files[i].clone());
                    assert(strs(files@) =~= strs(before).push(self.files@[i as int]@));
                    assert(strs(self.files@).take(i + 1) =~= strs(self.files@).take(i as int).push(self.files@[i as int]@));
                    i = i + 1;
                }
                assert(strs(self.files@).take(self.files@.len() as int) =~= strs(self.files@));
                self.step = AmendStep::ComputeAmendedTree { commit_id: self.original.clone(), files };
            },
        }
    }

    /// The amended tree: the commit's parent is read next.
    pub fn amended_tree_computed(&mut self, tree: Result<String, CopyCommitError>)
        requires
            old(self).step() is ComputeAmendedTree,
        ensures
            final(self).original() == old(self).original(),
            final(self).branch() == old(self).branch(),
            match tree {
                Err(e) => final(self).step() == (AmendStep::Done { result: Err(e) }),
                Ok(t) => final(self).amended_tree() == t@ && (final(self).step() matches AmendStep::ReadParent { commit_id }
                    && commit_id@ == old(self).original()),
            },
    {
        match tree {
            Err(e) => self.done(Err(e)),
            Ok(t) => {
                self.amended_tree = t;
                self.step = AmendStep::ReadParent { commit_id: self.original.clone() };
            },
        }
    }

    /// The commit's parent: with one, the history after it is rewritten;
    /// without, the commit is a root.
    pub fn parent_read(&mut self, output: Result<String, String>)
        requires
            old(self).step() is ReadParent,
        ensures
            final(self).original() == old(self).original(),
            final(self).branch() == old(self).branch(),
            final(self).amended_tree() == old(self).amended_tree(),
            match output {
                Ok(p) => final(self).parent() == text::trim(p@) && (final(self).step() matches AmendStep::Rewrite {
                    parent,
                    branch,
                    commit_id,
                    amended_tree,
                } && parent@ == text::trim(p@) && branch@ == old(self).branch() && commit_id@ == old(self).original()
                    && amended_tree@ == old(self).amended_tree()),
                Err(_) => final(self).step() matches AmendStep::AmendRoot { commit_id, amended_tree, branch } && commit_id@
                    == old(self).original() && amended_tree@ == old(self).amended_tree() && branch@ == old(self).branch(),
            },
    {
        match output {
            Ok(p) => {
                self.parent = string_of(&trim_chars(&chars_of(p.as_str())));
                self.step = AmendStep::Rewrite {
                    parent: self.parent.clone(),
                    branch: self.branch.clone(),
                    commit_id: self.original.clone(),
                    amended_tree: self.amended_tree.clone(),
                };
            },
            Err(_) => {
                self.step = AmendStep::AmendRoot {
                    commit_id: self.original.clone(),
                    amended_tree: self.amended_tree.clone(),
                    branch: self.branch.clone(),
                };
            },
        }
    }

    /// The tip of the rewritten history: the commits after the parent are
    /// listed next, the first of them being the amended commit.
    pub fn rewritten(&mut self, new_head: Result<String, CopyCommitError>)
        requires
            old(self).step() is Rewrite,
        ensures
            final(self).parent() == old(self).parent(),
            match new_head {
                Err(e) => final(self).step() == (AmendStep::Done { result: Err(e) }),
                Ok(h) => final(self).new_head() == h@ && (final(self).step() matches AmendStep::ListRewritten { parent, new_head }
                    && parent@ == old(self).parent() && new_head@ == h@),
            },
    {
        match new_head {
            Err(e) => self.done(Err(e)),
            Ok(h) => {
                self.new_head = h;
                self.step = AmendStep::ListRewritten { parent: self.parent.clone(), new_head: self.new_head.clone() };
            },
        }
    }

    /// The commits after the parent in the rewritten history: the first is
    /// the amended commit, the tip the new `HEAD`.
    pub fn rewritten_listed(&mut self, commits: Result<Vec<String>, CopyCommitError>)
        requires
            old(self).step() is ListRewritten,
        ensures
            match commits {
                Err(e) => final(self).step() == (AmendStep::Done { result: Err(e) }),
                Ok(v) => if v@.len() == 0 {
                    final(self).step() matches AmendStep::Done { result: Err(CopyCommitError::Other(m)) } && m@
                        == "No commits found after rewriting"@
                } else {
                    final(self).step() matches AmendStep::Done { result: Ok(r) } && r.amended_commit_id@ == v@[0]@
                        && r.rebased_to_commit@ == text::trim(old(self).new_head())
                },
            },
    {
        match commits {
            Err(e) => self.done(Err(e)),
            Ok(v) => {
                let first = if v.len() > 0 {
                    Some(v[0].clone())
                } else {
                    None
                };
                let r = amend_result(first, self.new_head.as_str());
                self.done(r);
            },
        }
    }

    /// The amend of a root commit, done by `RootAmend`.
    pub fn root_amended(&mut self, result: Result<AmendResult, CopyCommitError>)
        requires
            old(self).step() is AmendRoot,
        ensures
            final(self).step() == (AmendStep::Done { result }),
    {
        self.done(result);
    }

    /// The fixup commit was made: the base of the rebase is read next.
    pub fn fixup_done(&mut self, result: Result<(), CopyCommitError>)
        requires
            old(self).step() is Fixup,
        ensures
            final(self).original() == old(self).original(),
            match result {
                Err(e) => final(self).step() == (AmendStep::Done { result: Err(e) }),
                Ok(()) => final(self).step() matches AmendStep::ReadRebaseBase { commit_id } && commit_id@ == old(self).original(),
            },
    {
        match result {
            Err(e) => self.done(Err(e)),
            Ok(()) => {
                self.step = AmendStep::ReadRebaseBase { commit_id: self.original.clone() };
            },
        }
    }

    /// The parent of the commit (none for a root): the autosquash rebase
    /// starts from it, or from the root.
    pub fn rebase_base_read(&mut self, output: Result<String, String>)
        requires
            old(self).step() is ReadRebaseBase,
        ensures
            final(self).original() == old(self).original(),
            final(self).step() matches AmendStep::Rebase { args } && args@.len() == 3 && args@[0]@ == "rebase"@ && args@[1]@
                == "--autosquash"@ && args@[2]@ == (match output {
                Ok(p) => if text::trim(p@).len() > 0 {
                    text::trim(p@)
                } else {
                    "--root"@
                },
                Err(_) => "--root"@,
            }),
    {
        let parent = match output {
            Ok(p) => Some(p),
            Err(_) => None,
        };
        self.step = AmendStep::Rebase { args: rebase_args(parent) };
    }

    /// The rebase: done, stopped on conflicts (which are read next), or
    /// failed otherwise.
    pub fn rebased(&mut self, result: Result<(), String>)
        requires
            old(self).step() is Rebase,
        ensures
            final(self).original() == old(self).original(),
            final(self).conflict() == old(self).conflict(),
            match result {
                Ok(()) => final(self).step() is ReadFinalHead,
                Err(m) => if text::contains_seq(m@, "conflict"@) || text::contains_seq(m@, "CONFLICT"@) {
                    final(self).step() matches AmendStep::ExtractConflict { commit_id } && commit_id@ == old(self).original()
                } else {
                    final(self).step() matches AmendStep::Done { result: Err(CopyCommitError::Other(t)) } && t@ == "Rebase failed: "@
                        + m@
                },
            },
    {
        match result {
            Ok(()) => {
                self.step = AmendStep::ReadFinalHead;
            },
            Err(m) => {
                if is_rebase_conflict(m.as_str()) {
                    self.step = AmendStep::ExtractConflict { commit_id: self.original.clone() };
                } else {
                    let mut t = chars_of("Rebase failed: ");
                    push_all(&mut t, &chars_of(m.as_str()));
                    self.done(Err(CopyCommitError::Other(string_of(&t))));
                }
            },
        }
    }

    /// The conflicts of the rebase (or why they could not be read): the
    /// rebase is aborted next.
    pub fn conflict_extracted(&mut self, conflict: Result<MergeConflictInfo, String>)
        requires
            old(self).step() is ExtractConflict,
        ensures
            final(self).original() == old(self).original(),
            final(self).conflict() == Some(conflict),
            final(self).step() is AbortRebase,
    {
        self.conflict = Some(conflict);
        self.step = AmendStep::AbortRebase;
    }

    /// The rebase was aborted: the amend fails with the conflicts, or with
    /// why they could not be read.
    pub fn rebase_aborted(&mut self)
        requires
            old(self).step() is AbortRebase,
            old(self).conflict() is Some,
        ensures
            match old(self).conflict() {
                Some(Ok(info)) => final(self).step() == (AmendStep::Done {
                    result: Err(CopyCommitError::BranchError(BranchError::MergeConflict(Box::new(info)))),
                }),
                Some(Err(e)) => final(self).step() matches AmendStep::Done { result: Err(CopyCommitError::Other(t)) } && t@
                    == "Rebase conflicts detected when amending commit "@ + old(self).original() + ". Conflict analysis failed: "@ + e@,
                None => false,
            },
    {
        let mut taken: Option<Result<MergeConflictInfo, String>> = None;
        std::mem::swap(&mut taken, &mut self.conflict);
        match taken {
            Some(Ok(info)) => self.done(Err(CopyCommitError::BranchError(BranchError::MergeConflict(Box::new(info))))),
            Some(Err(e)) => {
                let mut t = chars_of("Rebase conflicts detected when amending commit ");
                push_all(&mut t, &chars_of(self.original.as_str()));
                push_all(&mut t, &chars_of(". Conflict analysis failed: "));
                push_all(&mut t, &chars_of(e.as_str()));
                self.done(Err(CopyCommitError::Other(string_of(&t))));
            },
            None => {},
        }
    }

    /// The outcome, once the amend is over.
    pub fn into_result(self) -> (r: Result<AmendResult, CopyCommitError>)
        requires
            self.step() is Done,
        ensures
            self.step() == (AmendStep::Done { result: r }),
    {
        match self.step {
            AmendStep::Done { result } => result,
            _ => Err(CopyCommitError::Other(String::new())),
        }
    }
}

/// Starts amending the working changes of `params.files` into
/// `params.original_commit_id`; see `Amend`.
pub fn amend_to_commit_in_main(params: AmendToCommitParams) -> (a: Amend)
    ensures
        a.original() == params.original_commit_id@,
        a.files() == strs(params.files@),
        a.step() is ReadStatus,
        a.conflict() is None,
{
    Amend::new(params)
}

} // verus!
