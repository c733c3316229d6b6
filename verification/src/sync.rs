//! Synchronizing the virtual branches: the events shown to the user, the
//! grouped branches sorted by their latest commit, and the copying of one
//! branch's commits as a state machine (the caller copies each commit and
//! reports the outcome).

use vstd::prelude::*;
use crate::archive::strs;
use crate::commit_grouper::{copy_commit, same_commit};
use crate::commit_list::Commit;
use crate::copy_commit::CommitNoteInfo;
use crate::model::{self, BranchError, BranchSyncStatus, CommitSyncStatus};
use crate::text::{self, chars_of, push_all, string_of};

verus! {

/// A branch with its commits (newest first) and the time of its latest
/// commit.
#[derive(Debug, Clone)]
pub struct GroupedBranchInfo {
    pub name: String,
    pub commits: Vec<Commit>,
    pub latest_commit_time: u32,
}

/// What a sync reports as it goes.
#[derive(Debug, Clone)]
pub enum SyncEvent {
    /// The branches, right after grouping.
    BranchesGrouped { branches: Vec<GroupedBranchInfo> },
    /// The commits without a branch.
    UnassignedCommits { commits: Vec<Commit> },
    /// A commit was copied.
    CommitSynced { branch_name: String, commit_hash: String, new_hash: String, status: CommitSyncStatus },
    /// A commit could not be copied.
    CommitError { branch_name: String, commit_hash: String, error: BranchError },
    /// The commits after a failed one, which were not copied.
    CommitsBlocked { branch_name: String, blocked_commit_hashes: Vec<String> },
    /// The status of a branch changed.
    BranchStatusUpdate { branch_name: String, status: BranchSyncStatus, error: Option<BranchError> },
    /// The sync is over.
    Completed,
}

/// Receives the events of a sync.
pub trait ProgressReporter {
    fn send(&self, event: SyncEvent) -> Result<(), String>;
}

/// The latest committer time of the commits, 0 when there are none.
pub open spec fn latest_time(commits: Seq<Commit>) -> u32
    decreases commits.len(),
{
    if commits.len() == 0 {
        0
    } else {
        let rest = latest_time(commits.drop_last());
        if commits.last().committer_timestamp > rest {
            commits.last().committer_timestamp
        } else {
            rest
        }
    }
}

/// A branch's latest time is the largest committer time of its commits (0
/// without commits): no commit is later, and one commit has it.
pub proof fn lemma_latest_time_is_max(commits: Seq<Commit>)
    ensures
        forall|i: int| 0 <= i < commits.len() ==> (#[trigger] commits[i]).committer_timestamp <= latest_time(commits),
        commits.len() == 0 ==> latest_time(commits) == 0,
        commits.len() > 0 ==> exists|i: int| 0 <= i < commits.len() && (#[trigger] commits[i]).committer_timestamp == latest_time(commits),
    decreases commits.len(),
{
    if commits.len() > 0 {
        let d = commits.drop_last();
        lemma_latest_time_is_max(d);
        assert forall|i: int| 0 <= i < commits.len() implies (#[trigger] commits[i]).committer_timestamp <= latest_time(commits) by {
            if i < d.len() {
                assert(commits[i] == d[i]);
            }
        }
        if commits.last().committer_timestamp > latest_time(d) {
            assert(commits[commits.len() - 1].committer_timestamp == latest_time(commits));
        } else if d.len() == 0 {
            assert(commits[0].committer_timestamp >= 0);
            assert(commits[commits.len() - 1].committer_timestamp == latest_time(commits));
        } else {
            let i = choose|i: int| 0 <= i < d.len() && (#[trigger] d[i]).committer_timestamp == latest_time(d);
            assert(commits[i] == d[i]);
        }
    }
}

/// What a shown branch's latest time says of its commits: none is later,
/// and one has it (0 without commits).
proof fn lemma_shown_latest(info: GroupedBranchInfo, group: (String, Vec<Commit>))
    requires
        shows_group(info, group),
    ensures
        forall|j: int| 0 <= j < info.commits@.len() ==> (#[trigger] info.commits@[j]).committer_timestamp <= info.latest_commit_time,
        info.commits@.len() == 0 ==> info.latest_commit_time == 0,
        info.commits@.len() > 0 ==> exists|j: int| 0 <= j < info.commits@.len() && (#[trigger] info.commits@[j]).committer_timestamp
            == info.latest_commit_time,
{
    let g = group.1@;
    lemma_latest_time_is_max(g);
    assert forall|j: int| 0 <= j < info.commits@.len() implies (#[trigger] info.commits@[j]).committer_timestamp <= info.latest_commit_time by {
        assert(same_commit(info.commits@[j], g[g.len() - 1 - j]));
    }
    if g.len() > 0 {
        let i = choose|i: int| 0 <= i < g.len() && (#[trigger] g[i]).committer_timestamp == latest_time(g);
        let j = g.len() - 1 - i;
        assert(same_commit(info.commits@[j], g[g.len() - 1 - j]));
    }
}

fn latest_commit_time(commits: &Vec<Commit>) -> (t: u32)
    ensures
        t == latest_time(commits@),
{
    let mut t: u32 = 0;
    let mut i: usize = 0;
    while i < commits.len()
        invariant
            i <= commits@.len(),
            t == latest_time(commits@.take(i as int)),
        decreases commits.len() - i,
    {
        assert(commits@.take(i + 1).drop_last() =~= commits@.take(i as int));
        if commits[i].committer_timestamp > t {
            t = commits[i].committer_timestamp;
        }
        i = i + 1;
    }
    assert(commits@.take(commits@.len() as int) =~= commits@);
    t
}

/// Where a branch of time `t` goes among branches sorted newest first: after
/// every branch at least as recent (the sort is stable).
pub open spec fn insert_position(sorted: Seq<(u32, int)>, t: u32) -> int
    decreases sorted.len(),
{
    if sorted.len() == 0 {
        0
    } else if sorted.last().0 >= t {
        sorted.len() as int
    } else {
        insert_position(sorted.drop_last(), t)
    }
}

/// The branches (time, position) sorted newest first, keeping the order of
/// branches with the same time.
pub open spec fn sorted_newest_first(keys: Seq<(u32, int)>) -> Seq<(u32, int)>
    decreases keys.len(),
{
    if keys.len() == 0 {
        Seq::empty()
    } else {
        let s = sorted_newest_first(keys.drop_last());
        let x = keys.last();
        s.insert(insert_position(s, x.0), x)
    }
}

pub proof fn lemma_insert_position_bounds(sorted: Seq<(u32, int)>, t: u32)
    ensures
        0 <= insert_position(sorted, t) <= sorted.len(),
        forall|j: int| insert_position(sorted, t) <= j < sorted.len() ==> #[trigger] sorted[j].0 < t,
    decreases sorted.len(),
{
    if sorted.len() > 0 && sorted.last().0 < t {
        lemma_insert_position_bounds(sorted.drop_last(), t);
        assert forall|j: int| insert_position(sorted, t) <= j < sorted.len() implies #[trigger] sorted[j].0 < t by {
            if j < sorted.len() - 1 {
                assert(sorted.drop_last()[j] == sorted[j]);
            }
        }
    }
}

pub open spec fn is_sorted_newest_first(s: Seq<(u32, int)>) -> bool {
    forall|a: int, b: int| 0 <= a < b < s.len() ==> (#[trigger] s[a]).0 >= (#[trigger] s[b]).0
}

proof fn lemma_insert_position_before(sorted: Seq<(u32, int)>, t: u32)
    requires
        is_sorted_newest_first(sorted),
    ensures
        forall|j: int| 0 <= j < insert_position(sorted, t) ==> #[trigger] sorted[j].0 >= t,
    decreases sorted.len(),
{
    if sorted.len() > 0 {
        if sorted.last().0 >= t {
            assert forall|j: int| 0 <= j < insert_position(sorted, t) implies #[trigger] sorted[j].0 >= t by {
                if j < sorted.len() - 1 {
                    assert(sorted[j].0 >= sorted[sorted.len() - 1].0);
                }
            }
        } else {
            let d = sorted.drop_last();
            assert(is_sorted_newest_first(d)) by {
                assert forall|a: int, b: int| 0 <= a < b < d.len() implies (#[trigger] d[a]).0 >= (#[trigger] d[b]).0 by {
                    assert(d[a] == sorted[a]);
                    assert(d[b] == sorted[b]);
                }
            }
            lemma_insert_position_before(d, t);
            lemma_insert_position_bounds(d, t);
            assert forall|j: int| 0 <= j < insert_position(sorted, t) implies #[trigger] sorted[j].0 >= t by {
                assert(d[j] == sorted[j]);
            }
        }
    }
}

/// The branches for display are sorted newest first and hold every branch
/// once.
pub proof fn lemma_sorted_newest_first(keys: Seq<(u32, int)>)
    ensures
        is_sorted_newest_first(sorted_newest_first(keys)),
        sorted_newest_first(keys).len() == keys.len(),
        sorted_newest_first(keys).to_multiset() == keys.to_multiset(),
    decreases keys.len(),
{
    if keys.len() > 0 {
        let s = sorted_newest_first(keys.drop_last());
        let x = keys.last();
        lemma_sorted_newest_first(keys.drop_last());
        lemma_insert_position_bounds(s, x.0);
        lemma_insert_position_before(s, x.0);
        let p = insert_position(s, x.0);
        let r = s.insert(p, x);
        assert forall|a: int, b: int| 0 <= a < b < r.len() implies (#[trigger] r[a]).0 >= (#[trigger] r[b]).0 by {
            if b < p {
                assert(r[a] == s[a] && r[b] == s[b]);
            } else if b == p {
                assert(r[a] == s[a]);
            } else if a < p {
                assert(r[a] == s[a] && r[b] == s[b - 1]);
            } else if a == p {
                assert(r[b] == s[b - 1]);
            } else {
                assert(r[a] == s[a - 1] && r[b] == s[b - 1]);
            }
        }
        let kd = keys.drop_last();
        assert(kd.push(x) =~= keys);
        vstd::seq_lib::to_multiset_build(kd, x);
        vstd::seq_lib::to_multiset_insert(s, p, x);
        assert(sorted_newest_first(keys) == r);
        assert(keys.to_multiset() == kd.to_multiset().insert(x));
    } else {
        assert(sorted_newest_first(keys) =~= keys);
    }
}

pub open spec fn branch_keys(groups: Seq<(String, Vec<Commit>)>) -> Seq<(u32, int)> {
    Seq::new(groups.len(), |i: int| (latest_time(groups[i].1@), i))
}

/// `info` shows the group: its name, its latest time, its commits newest
/// first.
pub open spec fn shows_group(info: GroupedBranchInfo, group: (String, Vec<Commit>)) -> bool {
    &&& info.name@ == group.0@
    &&& info.latest_commit_time == latest_time(group.1@)
    &&& info.commits@.len() == group.1@.len()
    &&& forall|k: int| 0 <= k < group.1@.len() ==> same_commit(#[trigger] info.commits@[k], group.1@[group.1@.len() - 1 - k])
}

fn show_group(group: &(String, Vec<Commit>)) -> (info: GroupedBranchInfo)
    ensures
        shows_group(info, *group),
{
    let commits = &group.1;
    let mut newest_first: Vec<Commit> = Vec::new();
    let mut i: usize = commits.len();
    while i > 0
        invariant
            i <= commits@.len(),
            newest_first@.len() == commits@.len() - i,
            forall|k: int| 0 <= k < newest_first@.len() ==> same_commit(#[trigger] newest_first@[k], commits@[commits@.len() - 1 - k]),
        decreases i,
    {
        i = i - 1;
        newest_first.push(copy_commit(&commits[i]));
    }
    GroupedBranchInfo { name: group.0.clone(), commits: newest_first, latest_commit_time: latest_commit_time(commits) }
}

/// The branches as shown after grouping: each group with its commits newest
/// first, the branches sorted by their latest commit, newest first (branches
/// with the same time keep their order).
pub fn grouped_branches_for_ui(groups: &Vec<(String, Vec<Commit>)>) -> (r: Vec<GroupedBranchInfo>)
    ensures
        r@.len() == groups@.len(),
        forall|k: int| 0 <= k < r@.len() ==> shows_group(#[trigger] r@[k], groups@[sorted_newest_first(branch_keys(groups@))[k].1]),
        forall|a: int, b: int| 0 <= a < b < r@.len() ==> (#[trigger] r@[a]).latest_commit_time >= (#[trigger] r@[b]).latest_commit_time,
        forall|k: int, j: int| 0 <= k < r@.len() && 0 <= j < r@[k].commits@.len() ==> (#[trigger] r@[k].commits@[j]).committer_timestamp
            <= r@[k].latest_commit_time,
        forall|k: int| 0 <= k < r@.len() && r@[k].commits@.len() == 0 ==> (#[trigger] r@[k]).latest_commit_time == 0,
        forall|k: int| 0 <= k < r@.len() && r@[k].commits@.len() > 0 ==> exists|j: int| 0 <= j < r@[k].commits@.len()
            && (#[trigger] r@[k].commits@[j]).committer_timestamp == r@[k].latest_commit_time,
{
    let ghost keys = branch_keys(groups@);
    let mut out: Vec<GroupedBranchInfo> = Vec::new();
    let ghost mut order: Seq<(u32, int)> = Seq::empty();
    let mut i: usize = 0;
    while i < groups.len()
        invariant
            i <= groups@.len(),
            keys == branch_keys(groups@),
            order == sorted_newest_first(keys.take(i as int)),
            out@.len() == order.len(),
            forall|k: int| 0 <= k < order.len() ==> 0 <= (#[trigger] order[k]).1 < i && order[k].0 == latest_time(groups@[order[k].1].1@),
            forall|k: int| 0 <= k < out@.len() ==> shows_group(#[trigger] out@[k], groups@[order[k].1]),
        decreases groups.len() - i,
    {
        proof {
            assert(keys.take(i + 1).drop_last() =~= keys.take(i as int));
            assert(keys.take(i + 1).last() == keys[i as int]);
            lemma_insert_position_bounds(order, keys[i as int].0);
        }
        let info = show_group(&groups[i]);
        let t = info.latest_commit_time;
        let mut p: usize = out.len();
        assert(order.take(p as int) =~= order);
        while p > 0 && out[p - 1].latest_commit_time < t
            invariant
                p <= out@.len(),
                out@.len() == order.len(),
                forall|k: int| 0 <= k < out@.len() ==> (#[trigger] out@[k]).latest_commit_time == order[k].0,
                insert_position(order, t) == insert_position(order.take(p as int), t),
            decreases p,
        {
            proof {
                assert(order.take(p as int).drop_last() =~= order.take(p - 1));
                assert(order.take(p as int).last() == order[p - 1]);
            }
            p = p - 1;
        }
        proof {
            if p > 0 {
                assert(order.take(p as int).last() == order[p - 1]);
                assert(order[p - 1].0 >= t);
            }
            assert(insert_position(order.take(p as int), t) == p);
            assert(t == keys[i as int].0);
        }
        let ghost before = out@;
        let ghost order_before = order;
        out.insert(p, info);
        proof {
            order = order_before.insert(p as int, keys[i as int]);
            assert forall|k: int| 0 <= k < out@.len() implies shows_group(#[trigger] out@[k], groups@[order[k].1]) by {
                if k < p {
                    assert(out@[k] == before[k]);
                    assert(order[k] == order_before[k]);
                } else if k == p {
                } else {
                    assert(out@[k] == before[k - 1]);
                    assert(order[k] == order_before[k - 1]);
                }
            }
            assert forall|k: int| 0 <= k < order.len() implies 0 <= (#[trigger] order[k]).1 < i + 1 && order[k].0 == latest_time(groups@[order[k].1].1@) by {
                if k < p {
                    assert(order[k] == order_before[k]);
                } else if k > p {
                    assert(order[k] == order_before[k - 1]);
                }
            }
        }
        i = i + 1;
    }
    assert(keys.take(groups@.len() as int) =~= keys);
    proof {
        lemma_sorted_newest_first(keys);
        assert forall|a: int, b: int| 0 <= a < b < out@.len() implies (#[trigger] out@[a]).latest_commit_time
            >= (#[trigger] out@[b]).latest_commit_time by {
            assert(order[a].0 >= order[b].0);
        }
        assert forall|k: int| 0 <= k < out@.len() implies ({
            &&& forall|j: int| 0 <= j < out@[k].commits@.len() ==> (#[trigger] out@[k].commits@[j]).committer_timestamp
                <= out@[k].latest_commit_time
            &&& out@[k].commits@.len() == 0 ==> out@[k].latest_commit_time == 0
            &&& out@[k].commits@.len() > 0 ==> exists|j: int| 0 <= j < out@[k].commits@.len()
                && (#[trigger] out@[k].commits@[j]).committer_timestamp == out@[k].latest_commit_time
        }) by {
            lemma_shown_latest(out@[k], groups@[order[k].1]);
        }
    }
    out
}

/// The commits without a branch as shown: newest first.
pub fn unassigned_for_ui(commits: &Vec<Commit>) -> (r: Vec<Commit>)
    ensures
        r@.len() == commits@.len(),
        forall|k: int| 0 <= k < commits@.len() ==> same_commit(#[trigger] r@[k], commits@[commits@.len() - 1 - k]),
{
    let mut out: Vec<Commit> = Vec::new();
    let mut i: usize = commits.len();
    while i > 0
        invariant
            i <= commits@.len(),
            out@.len() == commits@.len() - i,
            forall|k: int| 0 <= k < out@.len() ==> same_commit(#[trigger] out@[k], commits@[commits@.len() - 1 - k]),
        decreases i,
    {
        i = i - 1;
        out.push(copy_commit(&commits[i]));
    }
    out
}

/// The commit the branches start from: the parent of the oldest commit.
pub fn parent_ref(oldest_commit_id: &str) -> (r: String)
    ensures
        r@ == oldest_commit_id@ + "^"@,
{
    let mut v = chars_of(oldest_commit_id);
    push_all(&mut v, &chars_of("^"));
    string_of(&v)
}

/// The arguments that check whether a branch exists.
pub fn check_branch_exists(branch_name: &str) -> (args: Vec<String>)
    ensures
        strs(args@) == seq!["show-ref"@, "--verify"@, "--quiet"@, "refs/heads/"@ + branch_name@],
{
    let mut args: Vec<String> = Vec::new();
    args.push(String::from_str("show-ref"));
    args.push(String::from_str("--verify"));
    args.push(String::from_str("--quiet"));
    let mut r = chars_of("refs/heads/");
    push_all(&mut r, &chars_of(branch_name));
    args.push(string_of(&r));
    assert(strs(args@) =~= seq!["show-ref"@, "--verify"@, "--quiet"@, "refs/heads/"@ + branch_name@]);
    args
}

/// The copying of one branch's commits, oldest first.
pub struct BranchSync {
    branch_name: String,
    full_branch_name: String,
    commit_hashes: Vec<String>,
    is_existing: bool,
    current_parent: String,
    last_commit: String,
    any_changed: bool,
    pending_notes: Vec<CommitNoteInfo>,
    next: usize,
}

/// The final status of a branch: created when it is new; updated when a
/// commit was created anew; unchanged otherwise.
pub open spec fn final_status(is_existing: bool, any_changed: bool) -> BranchSyncStatus {
    if !is_existing {
        BranchSyncStatus::Created
    } else if any_changed {
        BranchSyncStatus::Updated
    } else {
        BranchSyncStatus::Unchanged
    }
}

impl BranchSync {
    pub closed spec fn hashes(&self) -> Seq<Seq<char>> {
        strs(self.commit_hashes@)
    }

    pub closed spec fn position(&self) -> int {
        self.next as int
    }

    pub closed spec fn existing(&self) -> bool {
        self.is_existing
    }

    pub closed spec fn changed(&self) -> bool {
        self.any_changed
    }

    pub closed spec fn parent(&self) -> Seq<char> {
        self.current_parent@
    }

    pub closed spec fn last(&self) -> Seq<char> {
        self.last_commit@
    }

    pub closed spec fn name(&self) -> Seq<char> {
        self.branch_name@
    }

    pub closed spec fn full_name(&self) -> Seq<char> {
        self.full_branch_name@
    }

    pub closed spec fn notes_count(&self) -> nat {
        self.pending_notes@.len()
    }

    /// The notes kept so far, in the order the commits were copied.
    pub closed spec fn notes(&self) -> Seq<CommitNoteInfo> {
        self.pending_notes@
    }

    pub closed spec fn well_formed(&self) -> bool {
        self.next <= self.commit_hashes@.len()
    }

    /// Starts copying the commits of `branch_name` (named `full_branch_name`
    /// in git) on top of `parent_commit_hash`.
    pub fn new(branch_name: &str, full_branch_name: &str, commits: &Vec<Commit>, is_existing: bool, parent_commit_hash: &str) -> (s: Self)
        ensures
            s.well_formed(),
            s.hashes() == commits@.map_values(|c: Commit| c.id@),
            s.position() == 0,
            s.existing() == is_existing,
            !s.changed(),
            s.parent() == parent_commit_hash@,
            s.last().len() == 0,
            s.name() == branch_name@,
            s.full_name() == full_branch_name@,
            s.notes_count() == 0,
            s.notes() == Seq::<CommitNoteInfo>::empty(),
    {
        let mut hashes: Vec<String> = Vec::new();
        let mut i: usize = 0;
        while i < commits.len()
            invariant
                i <= commits@.len(),
                strs(hashes@) == commits@.map_values(|c: Commit| c.id@).take(i as int),
            decreases commits.len() - i,
        {
            let h = commits[i].id.clone();
            let ghost before = hashes@;
            hashes.push(h);
            assert(strs(hashes@) =~= strs(before).push(commits@[i as int].id@));
            assert(commits@.map_values(|c: Commit| c.id@).take(i + 1) =~= commits@.map_values(|c: Commit| c.id@).take(i as int).push(commits@[i as int].id@));
            i = i + 1;
        }
        assert(commits@.map_values(|c: Commit| c.id@).take(commits@.len() as int) =~= commits@.map_values(|c: Commit| c.id@));
        BranchSync {
            branch_name: String::from_str(branch_name),
            full_branch_name: String::from_str(full_branch_name),
            commit_hashes: hashes,
            is_existing,
            current_parent: String::from_str(parent_commit_hash),
            last_commit: String::new(),
            any_changed: false,
            pending_notes: Vec::new(),
            next: 0,
        }
    }

    /// A commit is reused only while the branch exists and no earlier commit
    /// was created anew (else its parent changed).
    pub fn reuse_if_possible(&self) -> (b: bool)
        ensures
            b == (self.existing() && !self.changed()),
    {
        self.is_existing && !self.any_changed
    }

    /// The commit the next copy goes on.
    pub fn current_parent(&self) -> (p: String)
        ensures
            p@ == self.parent(),
    {
        self.current_parent.clone()
    }

    /// The next commit was copied as `new_hash`: it becomes the parent of the
    /// following one, a created copy marks the branch changed, and the note
    /// is kept for writing.
    pub fn commit_synced(&mut self, new_hash: &str, status: CommitSyncStatus, note: Option<CommitNoteInfo>) -> (e: SyncEvent)
        requires
            old(self).well_formed(),
            old(self).position() < old(self).hashes().len(),
        ensures
            final(self).well_formed(),
            final(self).hashes() == old(self).hashes(),
            final(self).existing() == old(self).existing(),
            final(self).name() == old(self).name(),
            final(self).full_name() == old(self).full_name(),
            final(self).position() == old(self).position() + 1,
            final(self).changed() == (old(self).changed() || status == CommitSyncStatus::Created),
            final(self).parent() == new_hash@,
            final(self).last() == new_hash@,
            final(self).notes_count() == old(self).notes_count() + (if note is Some { 1nat } else { 0nat }),
            final(self).notes() == (match note {
                Some(n) => old(self).notes().push(n),
                None => old(self).notes(),
            }),
            e matches SyncEvent::CommitSynced { branch_name, commit_hash, new_hash: h, status: st } && branch_name@ == old(self).name()
                && commit_hash@ == old(self).hashes()[old(self).position()] && h@ == new_hash@ && st == status,
    {
        let k = self.next;
        let n = self.commit_hashes.len();
        assert(k < n);
        let event = SyncEvent::CommitSynced {
            branch_name: self.branch_name.clone(),
            commit_hash: self.commit_hashes[k].clone(),
            new_hash: String::from_str(new_hash),
            status,
        };
        if status == CommitSyncStatus::Created {
            self.any_changed = true;
        }
        match note {
            Some(n) => self.pending_notes.push(n),
            None => {},
        }
        self.current_parent = String::from_str(new_hash);
        self.last_commit = String::from_str(new_hash);
        self.next = self.next + 1;
        event
    }

    /// The next commit could not be copied: the error, the commits after it
    /// reported blocked (when there are any), and the branch status (a merge
    /// conflict or an error).
    pub fn commit_failed(&self, error: BranchError) -> (events: Vec<SyncEvent>)
        requires
            self.well_formed(),
            self.position() < self.hashes().len(),
        ensures
            events@.len() == (if self.position() + 1 < self.hashes().len() { 3int } else { 2int }),
            events@[0] matches SyncEvent::CommitError { branch_name, commit_hash, error: e } && branch_name@ == self.name()
                && commit_hash@ == self.hashes()[self.position()] && model::same_error(e, error),
            self.position() + 1 < self.hashes().len() ==> (events@[1] matches SyncEvent::CommitsBlocked { branch_name, blocked_commit_hashes }
                && branch_name@ == self.name() && strs(blocked_commit_hashes@) == self.hashes().skip(self.position() + 1)),
            events@.last() matches SyncEvent::BranchStatusUpdate { branch_name, status, error: e } && branch_name@ == self.name()
                && status == (if error is MergeConflict { BranchSyncStatus::MergeConflict } else { BranchSyncStatus::Error })
                && e == Some(error),
    {
        let k = self.next;
        let len = self.commit_hashes.len();
        assert(k < len);
        let status = match &error {
            BranchError::MergeConflict(_) => BranchSyncStatus::MergeConflict,
            BranchError::Generic(_) => BranchSyncStatus::Error,
        };
        let mut events: Vec<SyncEvent> = Vec::new();
        events.push(SyncEvent::CommitError {
            branch_name: self.branch_name.clone(),
            commit_hash: self.commit_hashes[k].clone(),
            error: error.duplicate(),
        });
        let ghost first = events@[0];
        let mut blocked: Vec<String> = Vec::new();
        let mut j: usize = k + 1;
        while j < self.commit_hashes.len()
            invariant
                k + 1 <= j <= self.commit_hashes@.len(),
                strs(blocked@) == strs(self.commit_hashes@).subrange(k + 1, j as int),
            decreases self.commit_hashes.len() - j,
        {
            let h = self.commit_hashes[j].clone();
            let ghost before = blocked@;
            blocked.push(h);
            assert(strs(blocked@) =~= strs(before).push(self.commit_hashes@[j as int]@));
            assert(strs(self.commit_hashes@).subrange(k + 1, j + 1) =~= strs(self.commit_hashes@).subrange(k + 1, j as int).push(
                self.commit_hashes@[j as int]@,
            ));
            j = j + 1;
        }
        assert(strs(self.commit_hashes@).subrange(k + 1, self.commit_hashes@.len() as int) =~= strs(self.commit_hashes@).skip(k + 1));
        if blocked.len() > 0 {
            events.push(SyncEvent::CommitsBlocked { branch_name: self.branch_name.clone(), blocked_commit_hashes: blocked });
        }
        events.push(SyncEvent::BranchStatusUpdate { branch_name: self.branch_name.clone(), status, error: Some(error) });
        assert(events@[0] == first);
        events
    }

    /// The branch's outcome once every commit is copied: its status, and the
    /// arguments that move the branch to the last copy unless it is
    /// unchanged.
    pub fn finish(&self) -> (r: (BranchSyncStatus, Option<Vec<String>>))
        ensures
            r.0 == final_status(self.existing(), self.changed()),
            r.0 == BranchSyncStatus::Unchanged ==> r.1 is None,
            r.0 != BranchSyncStatus::Unchanged ==> (r.1 matches Some(args) && strs(args@) == seq!["branch"@, "-f"@, self.full_name(), self.last()]),
    {
        let status = if !self.is_existing {
            BranchSyncStatus::Created
        } else if self.any_changed {
            BranchSyncStatus::Updated
        } else {
            BranchSyncStatus::Unchanged
        };
        if status == BranchSyncStatus::Unchanged {
            return (status, None);
        }
        let mut args: Vec<String> = Vec::new();
        args.push(String::from_str("branch"));
        args.push(String::from_str("-f"));
        args.push(self.full_branch_name.clone());
        args.push(self.last_commit.clone());
        assert(strs(args@) =~= seq!["branch"@, "-f"@, self.full_name(), self.last()]);
        (status, Some(args))
    }

    /// The notes to write once the branch is synced.
    pub fn take_notes(&mut self) -> (notes: Vec<CommitNoteInfo>)
        ensures
            notes@.len() == old(self).notes_count(),
            notes@ == old(self).notes(),
            final(self).notes_count() == 0,
            final(self).notes() == Seq::<CommitNoteInfo>::empty(),
            final(self).well_formed() == old(self).well_formed(),
            final(self).name() == old(self).name(),
            final(self).existing() == old(self).existing(),
            final(self).changed() == old(self).changed(),
            final(self).full_name() == old(self).full_name(),
            final(self).last() == old(self).last(),
    {
        let mut notes: Vec<CommitNoteInfo> = Vec::new();
        std::mem::swap(&mut notes, &mut self.pending_notes);
        notes
    }

    /// Writing the notes failed: the branch is in error.
    pub fn notes_failed(&self, message: &str) -> (e: SyncEvent)
        ensures
            e matches SyncEvent::BranchStatusUpdate { branch_name, status, error } && branch_name@ == self.name()
                && status == BranchSyncStatus::Error && (error matches Some(BranchError::Generic(m)) && m@
                == "Failed to write commit notes: "@ + message@),
    {
        let mut m = chars_of("Failed to write commit notes: ");
        push_all(&mut m, &chars_of(message));
        SyncEvent::BranchStatusUpdate {
            branch_name: self.branch_name.clone(),
            status: BranchSyncStatus::Error,
            error: Some(BranchError::Generic(string_of(&m))),
        }
    }

    /// The final status report of the branch.
    pub fn completed(&self, status: BranchSyncStatus) -> (e: SyncEvent)
        ensures
            e matches SyncEvent::BranchStatusUpdate { branch_name, status: s, error } && branch_name@ == self.name() && s == status
                && error is None,
    {
        SyncEvent::BranchStatusUpdate { branch_name: self.branch_name.clone(), status, error: None }
    }
}

} // verus!
