//! Archiving virtual branches: the names they get in the archive namespace
//! (with numeric suffixes against collisions), the batch of ref updates that
//! moves them, and the reading of archived branches' commits.

use vstd::prelude::*;
use crate::commit_list::{self, Commit, parse_single_commit};
use crate::model::{self, extract_branch_name_from_final};
use crate::number::{self, format_u64};
use crate::text::{self, chars_of, push_all, string_of, trim_chars};

verus! {

pub open spec fn strs(v: Seq<String>) -> Seq<Seq<char>> {
    v.map_values(|s: String| s@)
}

/// `base-n`.
pub open spec fn suffixed(base: Seq<char>, n: nat) -> Seq<char> {
    base + seq!['-'] + number::decimal(n)
}

/// The candidate name of attempt `n`: the base name first, then `base-1`,
/// `base-2`, ...
pub open spec fn candidate(base: Seq<char>, n: nat) -> Seq<char> {
    if n == 0 {
        base
    } else {
        suffixed(base, n)
    }
}

/// The first of the first `limit` candidates that is not taken; when all are
/// taken, candidate `limit`, unchecked.
pub open spec fn first_free(base: Seq<char>, taken: Set<Seq<char>>, limit: nat) -> Seq<char> {
    if exists|n: nat| n < limit && !taken.contains(#[trigger] candidate(base, n)) {
        candidate(base, choose|n: nat| n < limit && !taken.contains(#[trigger] candidate(base, n)) && forall|m: nat| m < n ==> taken.contains(#[trigger] candidate(base, m)))
    } else {
        candidate(base, limit)
    }
}

fn candidate_chars(base: &Vec<char>, n: u32) -> (r: Vec<char>)
    ensures
        r@ == candidate(base@, n as nat),
{
    let mut r = text::slice_chars(base, 0, base.len());
    assert(r@ =~= base@);
    if n > 0 {
        r.push('-');
        push_all(&mut r, &format_u64(n as u64));
    }
    r
}

fn contains_name(names: &Vec<String>, name: &Vec<char>) -> (b: bool)
    ensures
        b == strs(names@).contains(name@),
{
    let mut i: usize = 0;
    while i < names.len()
        invariant
            i <= names@.len(),
            forall|j: int| 0 <= j < i ==> names@[j]@ != name@,
        decreases names.len() - i,
    {
        if text::chars_eq(&chars_of(names[i].as_str()), name) {
            assert(strs(names@)[i as int] == name@);
            return true;
        }
        i = i + 1;
    }
    assert forall|j: int| 0 <= j < strs(names@).len() implies strs(names@)[j] != name@ by {
        assert(strs(names@)[j] == names@[j]@);
    }
    false
}

proof fn lemma_first_free_is(base: Seq<char>, taken: Set<Seq<char>>, limit: nat, n: nat)
    requires
        n < limit,
        !taken.contains(candidate(base, n)),
        forall|m: nat| m < n ==> taken.contains(#[trigger] candidate(base, m)),
    ensures
        first_free(base, taken, limit) == candidate(base, n),
{
    let c = choose|k: nat| k < limit && !taken.contains(#[trigger] candidate(base, k)) && forall|m: nat| m < k ==> taken.contains(#[trigger] candidate(base, m));
    assert(n < limit && !taken.contains(candidate(base, n)) && forall|m: nat| m < n ==> taken.contains(#[trigger] candidate(base, m)));
    if c < n {
        assert(taken.contains(candidate(base, c)));
    } else if c > n {
        assert(taken.contains(candidate(base, n)));
    }
}

/// The first free name among `limit` attempts.
fn pick_name(base: &Vec<char>, taken: &Vec<String>, limit: u32) -> (r: Vec<char>)
    ensures
        r@ == first_free(base@, strs(taken@).to_set(), limit as nat),
{
    let ghost t = strs(taken@).to_set();
    let mut n: u32 = 0;
    while n < limit
        invariant
            n <= limit,
            t == strs(taken@).to_set(),
            forall|m: nat| m < n ==> t.contains(#[trigger] candidate(base@, m)),
        decreases limit - n,
    {
        let c = candidate_chars(base, n);
        if !contains_name(taken, &c) {
            proof {
                lemma_first_free_is(base@, t, limit as nat, n as nat);
            }
            return c;
        }
        assert(t.contains(candidate(base@, n as nat)));
        n = n + 1;
    }
    assert(!exists|k: nat| k < limit && !t.contains(#[trigger] candidate(base@, k)));
    candidate_chars(base, limit)
}

/// The archive ref name for `name` under `to_prefix`: `to_prefix/name`, or
/// the first of `to_prefix/name-1` to `to_prefix/name-999` that is not an
/// existing branch; `to_prefix/name-1000` when all of them exist.
pub fn archive_ref_unique(to_prefix: &str, name: &str, existing_branches: &Vec<String>) -> (r: String)
    ensures
        r@ == first_free(to_prefix@ + seq!['/'] + name@, strs(existing_branches@).to_set(), 1000),
{
    let mut base = chars_of(to_prefix);
    base.push('/');
    push_all(&mut base, &chars_of(name));
    assert(base@ =~= to_prefix@ + seq!['/'] + name@);
    let picked = pick_name(&base, existing_branches, 1000);
    string_of(&picked)
}

/// The name a branch is known by in the archive: its simple name when it is
/// a virtual branch of the prefix, else its full name.
pub open spec fn archived_simple_name(branch_name: Seq<char>, branch_prefix: Seq<char>) -> Seq<char> {
    match model::branch_name_from_final(branch_name, branch_prefix) {
        Some(n) => n,
        None => branch_name,
    }
}

/// Where a branch goes when it is archived on `date` (`YYYY-MM-DD`): under
/// `<prefix>/archived/<date>`, by its simple name, made unique among the
/// existing branches as `archive_ref_unique` does.
pub fn archive_branch(branch_name: &str, branch_prefix: &str, date: &str, existing_branches: &Vec<String>) -> (r: String)
    ensures
        r@ == first_free(
            branch_prefix@ + "/archived/"@ + date@ + seq!['/'] + archived_simple_name(branch_name@, branch_prefix@),
            strs(existing_branches@).to_set(),
            1000,
        ),
{
    let simple = match extract_branch_name_from_final(branch_name, branch_prefix) {
        Some(n) => n,
        None => String::from_str(branch_name),
    };
    let mut prefix = chars_of(branch_prefix);
    push_all(&mut prefix, &chars_of("/archived/"));
    push_all(&mut prefix, &chars_of(date));
    let archive_prefix = string_of(&prefix);
    archive_ref_unique(archive_prefix.as_str(), simple.as_str(), existing_branches)
}

/// The temporary branch that makes git create the parent directory of a
/// nested archive ref: `<parent>/.archive-temp`, when the target has more
/// than one `/`.
pub fn archive_temp_branch(target: &str) -> (r: Option<String>)
    ensures
        ({
            let t = target@;
            let parts = text::split_by(t, |c: char| c == '/');
            parts.len() > 2 ==> (r matches Some(b) && b@ == t.take(t.len() - parts.last().len() - 1) + "/.archive-temp"@)
        }),
        text::split_by(target@, |c: char| c == '/').len() <= 2 ==> r is None,
{
    let t = chars_of(target);
    let slash = model::single_class('/');
    assert(model::is_char('/') =~= (|c: char| c == '/'));
    let parts = text::split_chars(&t, &slash);
    if parts.len() <= 2 {
        return None;
    }
    proof {
        text::lemma_split_by_nonempty(t@, |c: char| c == '/');
        lemma_split_last_suffix(t@, |c: char| c == '/');
    }
    let last_len = parts[parts.len() - 1].len();
    let mut b = text::slice_chars(&t, 0, t.len() - last_len - 1);
    push_all(&mut b, &chars_of("/.archive-temp"));
    Some(string_of(&b))
}

/// The last piece of a split is a suffix, preceded by a separator when
/// there is more than one piece.
pub proof fn lemma_split_last_suffix(s: Seq<char>, sep: spec_fn(char) -> bool)
    ensures
        text::split_by(s, sep).len() >= 1,
        text::split_by(s, sep).last().len() <= s.len(),
        text::split_by(s, sep).len() > 1 ==> text::split_by(s, sep).last().len() < s.len(),
    decreases s.len(),
{
    text::lemma_split_by_nonempty(s, sep);
    if s.len() > 0 {
        lemma_split_last_suffix(s.drop_last(), sep);
        text::lemma_split_by_nonempty(s.drop_last(), sep);
    }
}

/// What archiving moves: each inactive branch to its archive name.
pub struct ArchivePlan {
    /// (branch, archived name), in the order of the branches.
    pub mappings: Vec<(String, String)>,
}

/// The names the branches are archived under in the batch, with the names
/// taken once they are given: each its simple name (the name without the
/// virtual prefix), made unique against the names already archived today and
/// those given to earlier branches of the batch, with at most 100 attempts.
pub open spec fn batch_names(simple: Seq<Seq<char>>, used: Set<Seq<char>>) -> (Seq<Seq<char>>, Set<Seq<char>>)
    decreases simple.len(),
{
    if simple.len() == 0 {
        (Seq::empty(), used)
    } else {
        let (names, taken) = batch_names(simple.drop_last(), used);
        let n = first_free(simple.last(), taken, 100);
        (names.push(n), taken.insert(n))
    }
}

pub proof fn lemma_batch_names_len(simple: Seq<Seq<char>>, used: Set<Seq<char>>)
    ensures
        batch_names(simple, used).0.len() == simple.len(),
    decreases simple.len(),
{
    if simple.len() > 0 {
        lemma_batch_names_len(simple.drop_last(), used);
    }
}

/// The simple name of a virtual branch, or the name itself.
pub open spec fn simple_name(branch: Seq<char>, prefix: Seq<char>) -> Seq<char> {
    match model::branch_name_from_final(branch, prefix) {
        Some(n) => n,
        None => branch,
    }
}

/// Names the inactive branches for the archive `<prefix>/archived/<date>`.
pub fn plan_batch_archive(
    branch_prefix: &str,
    date: &str,
    inactive_branches: &Vec<String>,
    existing_today_names: &Vec<String>,
) -> (plan: ArchivePlan)
    ensures
        ({
            let simples = strs(inactive_branches@).map_values(|b: Seq<char>| simple_name(b, branch_prefix@));
            let names = batch_names(simples, strs(existing_today_names@).to_set()).0;
            &&& plan.mappings@.len() == inactive_branches@.len()
            &&& forall|k: int| 0 <= k < inactive_branches@.len() ==> (#[trigger] plan.mappings@[k]).0@ == inactive_branches@[k]@
            &&& forall|k: int| 0 <= k < inactive_branches@.len() ==> (#[trigger] plan.mappings@[k]).1@
                == branch_prefix@ + "/archived/"@ + date@ + seq!['/'] + names[k]
        }),
{
    let ghost all = strs(inactive_branches@);
    let ghost simples = all.map_values(|b: Seq<char>| simple_name(b, branch_prefix@));
    let mut archive_prefix = chars_of(branch_prefix);
    push_all(&mut archive_prefix, &chars_of("/archived/"));
    push_all(&mut archive_prefix, &chars_of(date));
    archive_prefix.push('/');
    let mut used: Vec<String> = Vec::new();
    let mut i: usize = 0;
    while i < existing_today_names.len()
        invariant
            i <= existing_today_names@.len(),
            used@.len() == i,
            strs(used@) == strs(existing_today_names@).take(i as int),
        decreases existing_today_names.len() - i,
    {
        let c = existing_today_names[i].clone();
        let ghost before = used@;
        used.push(c);
        assert(used@[i as int]@ == existing_today_names@[i as int]@);
        assert(strs(used@) =~= strs(before).push(existing_today_names@[i as int]@));
        assert(strs(used@) =~= strs(existing_today_names@).take(i + 1));
        i = i + 1;
    }
    assert(strs(existing_today_names@).take(existing_today_names@.len() as int) =~= strs(existing_today_names@));
    let ghost start_used = strs(used@).to_set();
    let mut mappings: Vec<(String, String)> = Vec::new();
    let mut k: usize = 0;
    proof {
        assert(simples.take(0) =~= Seq::<Seq<char>>::empty());
    }
    while k < inactive_branches.len()
        invariant
            k <= inactive_branches@.len(),
            all == strs(inactive_branches@),
            simples == all.map_values(|b: Seq<char>| simple_name(b, branch_prefix@)),
            archive_prefix@ == branch_prefix@ + "/archived/"@ + date@ + seq!['/'],
            mappings@.len() == k,
            batch_names(simples.take(k as int), start_used).1 == strs(used@).to_set(),
            batch_names(simples.take(k as int), start_used).0.len() == k,
            forall|j: int| 0 <= j < k ==> (#[trigger] mappings@[j]).0@ == all[j],
            forall|j: int| 0 <= j < k ==> (#[trigger] mappings@[j]).1@ == archive_prefix@ + batch_names(
                simples.take(k as int),
                start_used,
            ).0[j],
        decreases inactive_branches.len() - k,
    {
        let branch = &inactive_branches[k];
        let simple = match extract_branch_name_from_final(branch.as_str(), branch_prefix) {
            Some(n) => chars_of(n.as_str()),
            None => chars_of(branch.as_str()),
        };
        assert(simple@ == simples[k as int]);
        let target = pick_name(&simple, &used, 100);
        let ghost before_used = strs(used@);
        used.push(string_of(&target));
        proof {
            assert(strs(used@) =~= before_used.push(target@));
            assert(strs(used@).to_set() =~= before_used.to_set().insert(target@)) by {
                assert forall|x: Seq<char>| strs(used@).to_set().contains(x) == before_used.to_set().insert(target@).contains(x) by {
                    if strs(used@).contains(x) {
                        let j = choose|j: int| 0 <= j < strs(used@).len() && strs(used@)[j] == x;
                        if j < before_used.len() {
                            assert(before_used[j] == x);
                        }
                    }
                    if before_used.contains(x) {
                        let j = choose|j: int| 0 <= j < before_used.len() && before_used[j] == x;
                        assert(strs(used@)[j] == x);
                    }
                    if x == target@ {
                        assert(strs(used@)[before_used.len() as int] == x);
                    }
                }
            }
            assert(simples.take(k + 1).drop_last() =~= simples.take(k as int));
            assert(simples.take(k + 1).last() == simples[k as int]);
        }
        let mut archived = text::slice_chars(&archive_prefix, 0, archive_prefix.len());
        assert(archived@ =~= archive_prefix@);
        push_all(&mut archived, &target);
        let ghost before_map = mappings@;
        mappings.push((branch.clone(), string_of(&archived)));
        proof {
            let names = batch_names(simples.take(k + 1), start_used).0;
            assert forall|j: int| 0 <= j < k + 1 implies (#[trigger] mappings@[j]).1@ == archive_prefix@ + names[j] by {
                if j < k {
                    assert(mappings@[j] == before_map[j]);
                }
            }
            assert forall|j: int| 0 <= j < k + 1 implies (#[trigger] mappings@[j]).0@ == all[j] by {
                if j < k {
                    assert(mappings@[j] == before_map[j]);
                }
            }
        }
        k = k + 1;
    }
    assert(simples.take(inactive_branches@.len() as int) =~= simples);
    ArchivePlan { mappings }
}

/// Some candidate among the first `limit` is free.
pub open spec fn has_free(base: Seq<char>, taken: Set<Seq<char>>, limit: nat) -> bool {
    exists|n: nat| n < limit && !taken.contains(#[trigger] candidate(base, n))
}

pub proof fn lemma_first_free_fresh(base: Seq<char>, taken: Set<Seq<char>>, limit: nat)
    requires
        has_free(base, taken, limit),
    ensures
        !taken.contains(first_free(base, taken, limit)),
{
    let w = choose|n: nat| n < limit && !taken.contains(#[trigger] candidate(base, n));
    lemma_least_free_exists(base, taken, limit, w);
}

proof fn lemma_least_free_exists(base: Seq<char>, taken: Set<Seq<char>>, limit: nat, w: nat)
    requires
        w < limit,
        !taken.contains(candidate(base, w)),
    ensures
        exists|n: nat| n < limit && !taken.contains(#[trigger] candidate(base, n)) && forall|m: nat| m < n ==> taken.contains(#[trigger] candidate(base, m)),
    decreases w,
{
    if forall|m: nat| m < w ==> taken.contains(#[trigger] candidate(base, m)) {
        assert(w < limit && !taken.contains(candidate(base, w)) && forall|m: nat| m < w ==> taken.contains(#[trigger] candidate(base, m)));
    } else {
        let m = choose|m: nat| m < w && !taken.contains(#[trigger] candidate(base, m));
        lemma_least_free_exists(base, taken, limit, m);
    }
}

/// The names taken after the batch: those taken before and all the names
/// given.
pub proof fn lemma_batch_names_taken(simple: Seq<Seq<char>>, used: Set<Seq<char>>)
    ensures
        batch_names(simple, used).1 == used + batch_names(simple, used).0.to_set(),
        batch_names(simple, used).0.len() == simple.len(),
    decreases simple.len(),
{
    lemma_batch_names_len(simple, used);
    if simple.len() == 0 {
        assert(batch_names(simple, used).0.to_set() =~= Set::<Seq<char>>::empty());
        assert(used + Set::<Seq<char>>::empty() =~= used);
    } else {
        lemma_batch_names_taken(simple.drop_last(), used);
        let (names, taken) = batch_names(simple.drop_last(), used);
        let n = first_free(simple.last(), taken, 100);
        assert(names.push(n).to_set() =~= names.to_set().insert(n)) by {
            assert forall|x: Seq<char>| names.push(n).to_set().contains(x) == names.to_set().insert(n).contains(x) by {
                if names.push(n).contains(x) {
                    let j = choose|j: int| 0 <= j < names.push(n).len() && names.push(n)[j] == x;
                    if j < names.len() {
                        assert(names[j] == x);
                    }
                }
                if names.contains(x) {
                    let j = choose|j: int| 0 <= j < names.len() && names[j] == x;
                    assert(names.push(n)[j] == x);
                }
                if x == n {
                    assert(names.push(n)[names.len() as int] == x);
                }
            }
        }
        assert(taken.insert(n) =~= used + names.push(n).to_set());
    }
}

/// Archive names never collide: a branch whose name was found within the
/// attempts gets a name that is neither archived today already nor given to
/// an earlier branch of the batch.
pub proof fn lemma_batch_names_fresh(simple: Seq<Seq<char>>, used: Set<Seq<char>>, k: int)
    requires
        0 <= k < simple.len(),
        has_free(simple[k], batch_names(simple.take(k), used).1, 100),
    ensures
        !used.contains(batch_names(simple, used).0[k]),
        forall|j: int| 0 <= j < k ==> batch_names(simple, used).0[j] != batch_names(simple, used).0[k],
{
    let before = batch_names(simple.take(k), used);
    lemma_batch_names_taken(simple.take(k), used);
    lemma_first_free_fresh(simple[k], before.1, 100);
    lemma_batch_names_prefix(simple, used, k + 1);
    assert(simple.take(k + 1).drop_last() =~= simple.take(k));
    assert(simple.take(k + 1).last() == simple[k]);
    let after = batch_names(simple.take(k + 1), used);
    assert(after.0[k] == first_free(simple[k], before.1, 100));
    assert forall|j: int| 0 <= j < k implies batch_names(simple, used).0[j] != batch_names(simple, used).0[k] by {
        assert(after.0[j] == before.0[j]);
        assert(before.0.to_set().contains(before.0[j]));
    }
}

/// The names of a prefix of the branches are a prefix of the names.
pub proof fn lemma_batch_names_prefix(simple: Seq<Seq<char>>, used: Set<Seq<char>>, k: int)
    requires
        0 <= k <= simple.len(),
    ensures
        forall|j: int| 0 <= j < k ==> batch_names(simple, used).0[j] == #[trigger] batch_names(simple.take(k), used).0[j],
    decreases simple.len() - k,
{
    lemma_batch_names_len(simple, used);
    lemma_batch_names_len(simple.take(k), used);
    if k == simple.len() {
        assert(simple.take(k) =~= simple);
    } else {
        lemma_batch_names_prefix(simple, used, k + 1);
        assert(simple.take(k + 1).drop_last() =~= simple.take(k));
        lemma_batch_names_len(simple.take(k + 1), used);
        let longer = batch_names(simple.take(k + 1), used).0;
        let shorter = batch_names(simple.take(k), used).0;
        assert forall|j: int| 0 <= j < k implies batch_names(simple, used).0[j] == #[trigger] batch_names(simple.take(k), used).0[j] by {
            assert(longer[j] == shorter[j]);
            assert(batch_names(simple, used).0[j] == longer[j]);
        }
    }
}

/// The `git update-ref --stdin` script of a batch archive, and the archived
/// branches with their commits.
pub struct BatchArchive {
    /// The temporary branch that makes the archive directory exist.
    pub temp_branch: String,
    pub commands: String,
    /// (archived name, commit), for the branches whose commit is known.
    pub archived: Vec<(String, String)>,
}

pub open spec fn pairs(v: Seq<(String, String)>) -> Seq<(Seq<char>, Seq<char>)> {
    v.map_values(|p: (String, String)| (p.0@, p.1@))
}

/// The commit of `branch` in a branch list: the first one recorded.
pub open spec fn commit_of(commits: Seq<(Seq<char>, Seq<char>)>, branch: Seq<char>) -> Option<Seq<char>>
    decreases commits.len(),
{
    if commits.len() == 0 {
        None
    } else if commits[0].0 == branch {
        Some(commits[0].1)
    } else {
        commit_of(commits.drop_first(), branch)
    }
}

fn lookup_commit(commits: &Vec<(String, String)>, branch: &str) -> (r: Option<String>)
    ensures
        match r {
            Some(c) => commit_of(pairs(commits@), branch@) == Some(c@),
            None => commit_of(pairs(commits@), branch@) is None,
        },
{
    let ghost all = pairs(commits@);
    assert(all.skip(0) =~= all);
    let b = chars_of(branch);
    let mut i: usize = 0;
    while i < commits.len()
        invariant
            i <= commits@.len(),
            all == pairs(commits@),
            b@ == branch@,
            commit_of(all, branch@) == commit_of(all.skip(i as int), branch@),
        decreases commits.len() - i,
    {
        assert(all.skip(i as int)[0] == (commits@[i as int].0@, commits@[i as int].1@));
        assert(all.skip(i as int).drop_first() =~= all.skip(i + 1));
        if text::chars_eq(&chars_of(commits[i].0.as_str()), &b) {
            return Some(commits[i].1.clone());
        }
        i = i + 1;
    }
    None
}

/// The script lines for the mappings whose branch commit is known: create
/// the archived ref and delete the original, both at that commit.
pub open spec fn script_lines(mappings: Seq<(Seq<char>, Seq<char>)>, commits: Seq<(Seq<char>, Seq<char>)>) -> Seq<char>
    decreases mappings.len(),
{
    if mappings.len() == 0 {
        Seq::empty()
    } else {
        let (orig, archived) = mappings.last();
        script_lines(mappings.drop_last(), commits) + match commit_of(commits, orig) {
            Some(c) => "create refs/heads/"@ + archived + seq![' '] + c + seq!['\n'] + "delete refs/heads/"@ + orig
                + seq![' '] + c + seq!['\n'],
            None => Seq::empty(),
        }
    }
}

/// The archived branches with their commits, in order.
pub open spec fn archived_pairs(mappings: Seq<(Seq<char>, Seq<char>)>, commits: Seq<(Seq<char>, Seq<char>)>) -> Seq<(Seq<char>, Seq<char>)>
    decreases mappings.len(),
{
    if mappings.len() == 0 {
        Seq::empty()
    } else {
        let (orig, archived) = mappings.last();
        archived_pairs(mappings.drop_last(), commits) + match commit_of(commits, orig) {
            Some(c) => seq![(archived, c)],
            None => Seq::empty(),
        }
    }
}

/// Builds the atomic batch that moves the planned branches into the archive.
pub fn batch_update_commands(plan: &ArchivePlan, branch_commits: &Vec<(String, String)>) -> (r: (String, Vec<(String, String)>))
    ensures
        r.0@ == "start\n"@ + script_lines(pairs(plan.mappings@), pairs(branch_commits@)) + "commit\n"@,
        pairs(r.1@) == archived_pairs(pairs(plan.mappings@), pairs(branch_commits@)),
{
    let ghost maps = pairs(plan.mappings@);
    let ghost commits = pairs(branch_commits@);
    let mut script = chars_of("start\n");
    let ghost head = script@;
    let mut archived: Vec<(String, String)> = Vec::new();
    let mut i: usize = 0;
    while i < plan.mappings.len()
        invariant
            i <= plan.mappings@.len(),
            maps == pairs(plan.mappings@),
            commits == pairs(branch_commits@),
            head == "start\n"@,
            script@ == head + script_lines(maps.take(i as int), commits),
            pairs(archived@) == archived_pairs(maps.take(i as int), commits),
        decreases plan.mappings.len() - i,
    {
        proof {
            assert(maps.take(i + 1).drop_last() =~= maps.take(i as int));
            assert(maps.take(i + 1).last() == (plan.mappings@[i as int].0@, plan.mappings@[i as int].1@));
        }
        let orig = &plan.mappings[i].0;
        let target = &plan.mappings[i].1;
        match lookup_commit(branch_commits, orig.as_str()) {
            Some(c) => {
                let ghost before = script@;
                let cc = chars_of(c.as_str());
                push_all(&mut script, &chars_of("create refs/heads/"));
                push_all(&mut script, &chars_of(target.as_str()));
                script.push(' ');
                push_all(&mut script, &cc);
                script.push('\n');
                push_all(&mut script, &chars_of("delete refs/heads/"));
                push_all(&mut script, &chars_of(orig.as_str()));
                script.push(' ');
                push_all(&mut script, &cc);
                script.push('\n');
                assert(script@ =~= before + ("create refs/heads/"@ + target@ + seq![' '] + c@ + seq!['\n'] + "delete refs/heads/"@
                    + orig@ + seq![' '] + c@ + seq!['\n']));
                let ghost before_arch = archived@;
                archived.push((target.clone(), c));
                assert(pairs(archived@) =~= pairs(before_arch) + seq![(target@, c@)]);
            },
            None => {
                assert(script_lines(maps.take(i + 1), commits) =~= script_lines(maps.take(i as int), commits));
                assert(archived_pairs(maps.take(i + 1), commits) =~= archived_pairs(maps.take(i as int), commits));
            },
        }
        i = i + 1;
    }
    assert(maps.take(plan.mappings@.len() as int) =~= maps);
    push_all(&mut script, &chars_of("commit\n"));
    (string_of(&script), archived)
}

/// Archives the inactive branches in one batch under
/// `<prefix>/archived/<date>`: nothing to do without inactive branches.
pub fn batch_archive_inactive_branches(
    branch_prefix: &str,
    date: &str,
    inactive_branches: &Vec<String>,
    branch_commits: &Vec<(String, String)>,
    existing_today_names: &Vec<String>,
) -> (r: Option<BatchArchive>)
    ensures
        inactive_branches@.len() == 0 <==> r is None,
        r matches Some(b) ==> b.temp_branch@ == branch_prefix@ + "/archived/"@ + date@ + "/archive-temp"@,
        r matches Some(b) ==> exists|plan: ArchivePlan| #[trigger] plan_is(plan, branch_prefix@, date@, inactive_branches@, existing_today_names@)
            && b.commands@ == "start\n"@ + script_lines(pairs(plan.mappings@), pairs(branch_commits@)) + "commit\n"@
            && pairs(b.archived@) == archived_pairs(pairs(plan.mappings@), pairs(branch_commits@)),
{
    if inactive_branches.len() == 0 {
        return None;
    }
    let plan = plan_batch_archive(branch_prefix, date, inactive_branches, existing_today_names);
    let mut temp = chars_of(branch_prefix);
    push_all(&mut temp, &chars_of("/archived/"));
    push_all(&mut temp, &chars_of(date));
    push_all(&mut temp, &chars_of("/archive-temp"));
    let (commands, archived) = batch_update_commands(&plan, branch_commits);
    assert(plan_is(plan, branch_prefix@, date@, inactive_branches@, existing_today_names@));
    Some(BatchArchive { temp_branch: string_of(&temp), commands, archived })
}

/// `plan` is what `plan_batch_archive` gives for these inputs.
pub open spec fn plan_is(plan: ArchivePlan, prefix: Seq<char>, date: Seq<char>, inactive: Seq<String>, existing: Seq<String>) -> bool {
    let simples = strs(inactive).map_values(|b: Seq<char>| simple_name(b, prefix));
    let names = batch_names(simples, strs(existing).to_set()).0;
    &&& plan.mappings@.len() == inactive.len()
    &&& forall|k: int| 0 <= k < inactive.len() ==> (#[trigger] plan.mappings@[k]).0@ == inactive[k]@
    &&& forall|k: int| 0 <= k < inactive.len() ==> (#[trigger] plan.mappings@[k]).1@ == prefix + "/archived/"@ + date
        + seq!['/'] + names[k]
}

/// The arguments that delete branches in one `git branch -D` call.
pub fn batch_delete_args(branches: &Vec<String>) -> (args: Vec<String>)
    ensures
        args@.len() == branches@.len() + 2,
        args@[0]@ == "branch"@,
        args@[1]@ == "-D"@,
        forall|k: int| 0 <= k < branches@.len() ==> (#[trigger] args@[k + 2])@ == branches@[k]@,
{
    let mut args: Vec<String> = Vec::new();
    args.push(String::from_str("branch"));
    args.push(String::from_str("-D"));
    let mut i: usize = 0;
    while i < branches.len()
        invariant
            i <= branches@.len(),
            args@.len() == i + 2,
            args@[0]@ == "branch"@,
            args@[1]@ == "-D"@,
            forall|k: int| 0 <= k < i ==> (#[trigger] args@[k + 2])@ == branches@[k]@,
        decreases branches.len() - i,
    {
        args.push(branches[i].clone());
        i = i + 1;
    }
    args
}

/// How many archived branches were deleted: all of them when the batch
/// deletion succeeded, else those whose one-by-one deletion succeeded.
pub fn batch_delete_archived_branches(branches: &Vec<String>, batch_succeeded: bool, individual_succeeded: &Vec<bool>) -> (n: usize)
    requires
        !batch_succeeded ==> individual_succeeded@.len() == branches@.len(),
    ensures
        branches@.len() == 0 ==> n == 0,
        branches@.len() > 0 && batch_succeeded ==> n == branches@.len(),
        branches@.len() > 0 && !batch_succeeded ==> n == individual_succeeded@.filter(|b: bool| b).len(),
{
    if branches.len() == 0 {
        return 0;
    }
    if batch_succeeded {
        return branches.len();
    }
    let mut n: usize = 0;
    let mut i: usize = 0;
    while i < individual_succeeded.len()
        invariant
            i <= individual_succeeded@.len(),
            n == individual_succeeded@.take(i as int).filter(|b: bool| b).len(),
            n <= i,
        decreases individual_succeeded.len() - i,
    {
        proof {
            assert(individual_succeeded@.take(i + 1).drop_last() =~= individual_succeeded@.take(i as int));
            reveal_with_fuel(Seq::filter, 1);
        }
        if individual_succeeded[i] {
            n = n + 1;
        }
        i = i + 1;
    }
    assert(individual_succeeded@.take(individual_succeeded@.len() as int) =~= individual_succeeded@);
    n
}

/// The commits of a `git log` output in the record format, in order: each
/// record (trimmed, non-empty) that parses.
pub open spec fn log_records(output: Seq<char>) -> Seq<Seq<char>> {
    text::split_by(output, |c: char| c == '\u{1e}').map_values(|r: Seq<char>| text::trim(r)).filter(
        |r: Seq<char>| r.len() > 0 && commit_list::record_failure(r) is None,
    )
}

/// Reads the commits of a `git log` output in the record format.
pub fn parse_log_output(output: &str) -> (r: Vec<Commit>)
    ensures
        r@.len() == log_records(output@).len(),
        forall|k: int| 0 <= k < r@.len() ==> commit_list::is_record_commit(#[trigger] r@[k], log_records(output@)[k]),
{
    let chars = chars_of(output);
    let sep = model::single_class('\u{1e}');
    assert(model::is_char('\u{1e}') =~= (|c: char| c == '\u{1e}'));
    let records = text::split_chars(&chars, &sep);
    let ghost trimmed = text::split_by(output@, |c: char| c == '\u{1e}').map_values(|r: Seq<char>| text::trim(r));
    let ghost good = |r: Seq<char>| r.len() > 0 && commit_list::record_failure(r) is None;
    let mut out: Vec<Commit> = Vec::new();
    let mut i: usize = 0;
    while i < records.len()
        invariant
            i <= records@.len(),
            records@.len() == trimmed.len(),
            forall|k: int| 0 <= k < records@.len() ==> text::trim((#[trigger] records@[k])@) == trimmed[k],
            good == (|r: Seq<char>| r.len() > 0 && commit_list::record_failure(r) is None),
            out@.len() == trimmed.take(i as int).filter(good).len(),
            forall|k: int| 0 <= k < out@.len() ==> commit_list::is_record_commit(#[trigger] out@[k], trimmed.take(i as int).filter(good)[k]),
        decreases records.len() - i,
    {
        proof {
            assert(trimmed.take(i + 1).drop_last() =~= trimmed.take(i as int));
            assert(trimmed.take(i + 1).last() == trimmed[i as int]);
            reveal_with_fuel(Seq::filter, 1);
        }
        let rec = trim_chars(&records[i]);
        if rec.len() > 0 {
            let s = string_of(&rec);
            match parse_single_commit(s.as_str()) {
                Ok(c) => {
                    out.push(c);
                },
                Err(_) => {},
            }
        }
        i = i + 1;
    }
    assert(trimmed.take(records@.len() as int) =~= trimmed);
    out
}

/// The commits of an archived branch: from the output of `git log` over the
/// range from its merge base with the baseline to its tip.
pub fn get_archived_branch_commits(log_output: &str) -> (r: Vec<Commit>)
    ensures
        r@.len() == log_records(log_output@).len(),
        forall|k: int| 0 <= k < r@.len() ==> commit_list::is_record_commit(#[trigger] r@[k], log_records(log_output@)[k]),
{
    parse_log_output(log_output)
}

/// The range of an archived branch's commits: from the (trimmed) merge base
/// to the branch.
pub fn archived_range(merge_base: &str, branch_name: &str) -> (r: String)
    ensures
        r@ == text::trim(merge_base@) + ".."@ + branch_name@,
{
    let mut v = trim_chars(&chars_of(merge_base));
    push_all(&mut v, &chars_of(".."));
    push_all(&mut v, &chars_of(branch_name));
    string_of(&v)
}

} // verus!
