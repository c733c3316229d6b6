//! Deciding how an archived branch was integrated: reading the answers of
//! the git queries (cherry marks, merge commits, trees) and choosing the
//! status, the strategy and the next query.

use vstd::prelude::*;
use crate::commit_grouper::{self, find_issue};
use crate::integration::{
    self, BranchIntegrationInfo, BranchIntegrationStatus, IntegrationConfidence, NOTES_REF, serialize_for_cache,
};
use crate::number::{self, parse_u32};
use crate::text::{self, chars_of, slice_chars, split_whitespace_chars, starts_with, string_of, trim_chars};

verus! {

/// Which detection methods run.
#[derive(Debug, Clone, Copy, PartialEq, Eq, Structural)]
pub enum DetectionStrategy {
    /// Rebase and cherry-pick detection only (the default).
    Rebase,
    /// Also merge commits.
    Merge,
    /// Also squash merges.
    Squash,
    /// Every method.
    All,
}

impl Default for DetectionStrategy {
    fn default() -> (s: Self)
        ensures
            s == DetectionStrategy::Rebase,
    {
        DetectionStrategy::Rebase
    }
}

/// The strategy: every method when full detection is asked for (the
/// `BRANCH_DECK_FULL_DETECTION` variable is set), else the default.
pub fn get_detection_strategy(full_detection_requested: bool) -> (s: DetectionStrategy)
    ensures
        s == (if full_detection_requested { DetectionStrategy::All } else { DetectionStrategy::Rebase }),
{
    if full_detection_requested {
        DetectionStrategy::All
    } else {
        DetectionStrategy::Rebase
    }
}

pub open spec fn views(lines: Seq<String>) -> Seq<Seq<char>> {
    lines.map_values(|l: String| l@)
}

pub open spec fn commit_header() -> Seq<char> {
    "commit "@
}

/// The counts of cherry marks among the branch-side lines of `git rev-list
/// --cherry-mark`: all marked commits (`>` or `=`), and those not found in
/// the baseline (`>`).
pub open spec fn mark_counts(lines: Seq<Seq<char>>) -> (nat, nat)
    decreases lines.len(),
{
    if lines.len() == 0 {
        (0, 0)
    } else {
        let (t, o) = mark_counts(lines.drop_last());
        let l = lines.last();
        if text::has_prefix(l, commit_header()) || l.len() == 0 {
            (t, o)
        } else if l[0] == '>' {
            (t + 1, o + 1)
        } else if l[0] == '=' {
            (t + 1, o)
        } else {
            (t, o)
        }
    }
}

pub proof fn lemma_mark_counts_bounded(lines: Seq<Seq<char>>)
    ensures
        mark_counts(lines).1 <= mark_counts(lines).0 <= lines.len(),
    decreases lines.len(),
{
    if lines.len() > 0 {
        lemma_mark_counts_bounded(lines.drop_last());
    }
}

/// Counts the branch-side cherry marks: the total, the orphaned (not in the
/// baseline) and the integrated ones.
pub fn scan_right_side_marks(lines: &Vec<String>) -> (r: (u32, u32, u32))
    requires
        lines@.len() <= u32::MAX,
    ensures
        r.0 == mark_counts(views(lines@)).0,
        r.1 == mark_counts(views(lines@)).1,
        r.2 == r.0 - r.1,
{
    let ghost all = views(lines@);
    let header = chars_of("commit ");
    proof {
        reveal_strlit("commit ");
    }
    let mut total: u32 = 0;
    let mut orphaned: u32 = 0;
    let mut i: usize = 0;
    while i < lines.len()
        invariant
            i <= lines@.len(),
            lines@.len() <= u32::MAX,
            all == views(lines@),
            header@ == commit_header(),
            total == mark_counts(all.take(i as int)).0,
            orphaned == mark_counts(all.take(i as int)).1,
        decreases lines.len() - i,
    {
        proof {
            assert(all.take(i + 1).drop_last() =~= all.take(i as int));
            assert(all.take(i + 1).last() == lines@[i as int]@);
            lemma_mark_counts_bounded(all.take(i as int));
        }
        let l = chars_of(lines[i].as_str());
        if !(starts_with(&l, &header) || l.len() == 0) {
            if l[0] == '>' {
                total = total + 1;
                orphaned = orphaned + 1;
            } else if l[0] == '=' {
                total = total + 1;
            }
        }
        i = i + 1;
    }
    assert(all.take(lines@.len() as int) =~= all);
    proof {
        lemma_mark_counts_bounded(all);
    }
    (total, orphaned, total - orphaned)
}

pub open spec fn equal_mark() -> Seq<char> {
    seq!['=', ' ']
}

/// The time of the first baseline-side commit marked as an equivalent of a
/// branch commit (`= <time>`), from `git rev-list --left-only --cherry-mark`.
pub open spec fn first_equal_time(lines: Seq<Seq<char>>) -> Option<u32>
    decreases lines.len(),
{
    if lines.len() == 0 {
        None
    } else {
        let l = lines[0];
        if !text::has_prefix(l, commit_header()) && text::has_prefix(l, equal_mark()) && number::parsed_u32(
            l.skip(2),
        ) is Some {
            number::parsed_u32(l.skip(2))
        } else {
            first_equal_time(lines.drop_first())
        }
    }
}

/// Reads the integration time from the baseline-side cherry marks.
pub fn get_integration_timestamp(lines: &Vec<String>) -> (r: Option<u32>)
    ensures
        r == first_equal_time(views(lines@)),
{
    let ghost all = views(lines@);
    let header = chars_of("commit ");
    let mark = vec!['=', ' '];
    proof {
        reveal_strlit("commit ");
        assert(mark@ =~= equal_mark());
        assert(all.skip(0) =~= all);
    }
    let mut i: usize = 0;
    while i < lines.len()
        invariant
            i <= lines@.len(),
            all == views(lines@),
            header@ == commit_header(),
            mark@ == equal_mark(),
            first_equal_time(all) == first_equal_time(all.skip(i as int)),
        decreases lines.len() - i,
    {
        let l = chars_of(lines[i].as_str());
        proof {
            assert(all.skip(i as int)[0] == l@);
            assert(all.skip(i as int).drop_first() =~= all.skip(i + 1));
        }
        if !starts_with(&l, &header) && starts_with(&l, &mark) {
            let rest = slice_chars(&l, 2, l.len());
            assert(rest@ =~= l@.skip(2));
            match parse_u32(&rest) {
                Some(t) => {
                    return Some(t);
                },
                None => {},
            }
        }
        i = i + 1;
    }
    None
}

/// Whether the timestamp of integration is worth asking for: some branch
/// commit is found in the baseline.
pub fn needs_integration_timestamp(integrated_right: u32) -> (b: bool)
    ensures
        b == (integrated_right > 0),
{
    integrated_right > 0
}

/// The status from the cherry marks: integrated when nothing is left on the
/// branch side or every marked commit is in the baseline; otherwise not
/// integrated, with the counts.
pub open spec fn rebase_status(total: u32, orphaned: u32, integrated: u32, integrated_at: Option<u32>) -> BranchIntegrationStatus {
    if total == 0 || (orphaned == 0 && integrated > 0) {
        BranchIntegrationStatus::Integrated {
            integrated_at: if integrated > 0 { integrated_at } else { None },
            confidence: IntegrationConfidence::High,
            commit_count: total,
        }
    } else {
        BranchIntegrationStatus::NotIntegrated {
            total_commit_count: total,
            integrated_count: integrated,
            orphaned_count: orphaned,
            integrated_at: if integrated > 0 { integrated_at } else { None },
        }
    }
}

/// Decides the rebase/cherry-pick status; `integrated_at` is the time read
/// from the baseline side when some commit is integrated.
pub fn detect_rebase_status_with_marks(
    total_right: u32,
    orphaned_right: u32,
    integrated_right: u32,
    integrated_at: Option<u32>,
) -> (s: BranchIntegrationStatus)
    ensures
        s == rebase_status(total_right, orphaned_right, integrated_right, integrated_at),
{
    let at = if integrated_right > 0 {
        integrated_at
    } else {
        None
    };
    if total_right == 0 || (orphaned_right == 0 && integrated_right > 0) {
        BranchIntegrationStatus::Integrated { integrated_at: at, confidence: IntegrationConfidence::High, commit_count: total_right }
    } else {
        BranchIntegrationStatus::NotIntegrated {
            total_commit_count: total_right,
            integrated_count: integrated_right,
            orphaned_count: orphaned_right,
            integrated_at: at,
        }
    }
}

/// The merge commit that brought the branch in: the hash and time on the
/// last line of `git log --merges --ancestry-path --format=%H %ct`.
pub open spec fn integration_commit(lines: Seq<Seq<char>>) -> Option<(Seq<char>, u32)> {
    if lines.len() == 0 {
        None
    } else {
        let ws = text::words(lines.last());
        if ws.len() >= 2 && number::parsed_u32(ws[1]) is Some {
            Some((ws[0], number::parsed_u32(ws[1])->0))
        } else {
            None
        }
    }
}

/// Reads the merge commit that integrated a branch.
pub fn find_integration_commit(lines: &Vec<String>) -> (r: Option<(String, u32)>)
    ensures
        match r {
            Some((h, t)) => integration_commit(views(lines@)) == Some((h@, t)),
            None => integration_commit(views(lines@)) is None,
        },
{
    if lines.len() == 0 {
        return None;
    }
    let last = chars_of(lines[lines.len() - 1].as_str());
    let ws = split_whitespace_chars(&last);
    if ws.len() < 2 {
        return None;
    }
    match parse_u32(&ws[1]) {
        Some(t) => Some((string_of(&ws[0]), t)),
        None => None,
    }
}

/// A count from `git rev-list --count`: the trimmed output as a number, 0
/// when the query failed or the output is not one.
pub open spec fn count_from(output: Option<Seq<char>>) -> u32 {
    match output {
        Some(o) => match number::parsed_u32(text::trim(o)) {
            Some(n) => n,
            None => 0,
        },
        None => 0,
    }
}

fn count_output(output: Option<String>) -> (n: u32)
    ensures
        n == count_from(match output {
            Some(s) => Some(s@),
            None => None,
        }),
{
    match output {
        Some(o) => match parse_u32(&trim_chars(&chars_of(o.as_str()))) {
            Some(n) => n,
            None => 0,
        },
        None => 0,
    }
}

/// The status of a branch that git reports merged: integrated for sure, with
/// the commit count and the time of the merge commit when found.
pub fn detect_merge_status(is_merged: bool, count_output_text: Option<String>, integrated_at: Option<u32>) -> (r: Option<BranchIntegrationStatus>)
    ensures
        !is_merged ==> r is None,
        is_merged ==> r == Some(BranchIntegrationStatus::Integrated {
            integrated_at,
            confidence: IntegrationConfidence::Exact,
            commit_count: count_from(match count_output_text {
                Some(s) => Some(s@),
                None => None,
            }),
        }),
{
    if !is_merged {
        return None;
    }
    let commit_count = count_output(count_output_text);
    Some(BranchIntegrationStatus::Integrated { integrated_at, confidence: IntegrationConfidence::Exact, commit_count })
}

/// Whether a branch whose changes were squashed into the baseline is found:
/// the three-dot diff is empty, or merging it into the baseline (from their
/// non-empty merge base) gives the baseline's own tree.
pub open spec fn squash_found(diff_clean: bool, merge_base: Option<Seq<char>>, merge_tree: Option<Seq<char>>, baseline_tree: Option<Seq<char>>) -> bool {
    diff_clean || (match (merge_base, merge_tree, baseline_tree) {
        (Some(b), Some(m), Some(t)) => text::trim(b).len() > 0 && text::trim(m) == text::trim(t),
        _ => false,
    })
}

fn opt_view(o: &Option<String>) -> (r: Option<Vec<char>>)
    ensures
        match (r, *o) {
            (Some(a), Some(b)) => a@ == text::trim(b@),
            (None, None) => true,
            _ => false,
        },
{
    match o {
        Some(s) => Some(trim_chars(&chars_of(s.as_str()))),
        None => None,
    }
}

pub open spec fn str_opt(o: Option<String>) -> Option<Seq<char>> {
    match o {
        Some(s) => Some(s@),
        None => None,
    }
}

/// The squash status: integrated (with the commit count of the branch side)
/// when found, nothing otherwise.
pub fn detect_squash_status(
    diff_clean: bool,
    merge_base: Option<String>,
    merge_tree: Option<String>,
    baseline_tree: Option<String>,
    integrated_at: Option<u32>,
    right_count: u32,
) -> (r: Option<BranchIntegrationStatus>)
    ensures
        squash_found(diff_clean, str_opt(merge_base), str_opt(merge_tree), str_opt(baseline_tree)) ==> r == Some(
            BranchIntegrationStatus::Integrated {
                integrated_at,
                confidence: IntegrationConfidence::High,
                commit_count: right_count,
            },
        ),
        !squash_found(diff_clean, str_opt(merge_base), str_opt(merge_tree), str_opt(baseline_tree)) ==> r is None,
{
    let found = if diff_clean {
        true
    } else {
        match (opt_view(&merge_base), opt_view(&merge_tree), opt_view(&baseline_tree)) {
            (Some(b), Some(m), Some(t)) => b.len() > 0 && text::chars_eq(&m, &t),
            _ => false,
        }
    };
    if found {
        Some(BranchIntegrationStatus::Integrated { integrated_at, confidence: IntegrationConfidence::High, commit_count: right_count })
    } else {
        None
    }
}

/// Merge detection runs first, for a branch git reports merged, when the
/// strategy includes it.
pub fn uses_merge_detection(strategy: DetectionStrategy, is_merged: bool) -> (b: bool)
    ensures
        b == ((strategy == DetectionStrategy::Merge || strategy == DetectionStrategy::All) && is_merged),
{
    (strategy == DetectionStrategy::Merge || strategy == DetectionStrategy::All) && is_merged
}

/// Squash detection runs last, for a branch with no commit found in the
/// baseline, when the strategy includes it.
pub fn needs_squash_check(status: BranchIntegrationStatus, strategy: DetectionStrategy) -> (b: bool)
    ensures
        b == ((status matches BranchIntegrationStatus::NotIntegrated { integrated_count: 0, .. }) && (strategy
            == DetectionStrategy::Squash || strategy == DetectionStrategy::All)),
{
    let not_found = match status {
        BranchIntegrationStatus::NotIntegrated { integrated_count, .. } => integrated_count == 0,
        _ => false,
    };
    not_found && (strategy == DetectionStrategy::Squash || strategy == DetectionStrategy::All)
}

/// The final status of a fresh detection: the merge status when merge
/// detection found one, else the rebase status, replaced by the squash
/// status when squash detection ran and found one.
pub open spec fn fresh_status(merge: Option<BranchIntegrationStatus>, rebase: BranchIntegrationStatus, squash: Option<BranchIntegrationStatus>) -> BranchIntegrationStatus {
    match merge {
        Some(m) => m,
        None => match squash {
            Some(s) => s,
            None => rebase,
        },
    }
}

pub fn perform_fresh_detection(
    merge: Option<BranchIntegrationStatus>,
    rebase: BranchIntegrationStatus,
    squash: Option<BranchIntegrationStatus>,
) -> (s: BranchIntegrationStatus)
    ensures
        s == fresh_status(merge, rebase, squash),
{
    match merge {
        Some(m) => m,
        None => match squash {
            Some(s) => s,
            None => rebase,
        },
    }
}

/// The last segment of a branch path.
pub open spec fn leaf_of(name: Seq<char>) -> Seq<char> {
    text::split_by(name, |c: char| c == '/').last()
}

/// A summary is computed only for branches named after an issue: the last
/// segment of the name is exactly an issue number.
pub open spec fn wants_summary(branch: Seq<char>) -> bool {
    commit_grouper::first_issue(leaf_of(branch)) == Some(leaf_of(branch))
}

fn leaf_chars(name: &Vec<char>) -> (r: Vec<char>)
    ensures
        r@ == leaf_of(name@),
{
    let slash = crate::model::single_class('/');
    assert(crate::model::is_char('/') =~= (|c: char| c == '/'));
    let parts = text::split_chars(name, &slash);
    proof {
        text::lemma_split_by_nonempty(name@, |c: char| c == '/');
    }
    let last = &parts[parts.len() - 1];
    slice_chars(last, 0, last.len())
}

/// Whether to compute a summary for an archived branch.
pub fn should_compute_summary(branch: &str) -> (b: bool)
    ensures
        b == wants_summary(branch@),
{
    let leaf = leaf_chars(&chars_of(branch));
    match find_issue(&leaf) {
        Some(issue) => text::chars_eq(&issue, &leaf),
        None => false,
    }
}

pub open spec fn space_or_colon() -> spec_fn(char) -> bool {
    |c: char| c == ' ' || c == ':'
}

/// The summary of an issue branch from its tip's subject: what follows the
/// first issue number, without leading spaces and colons, trimmed; the
/// trimmed subject when it holds no issue number.
pub open spec fn summary_of(subject: Seq<char>) -> Seq<char> {
    summary_given(subject, commit_grouper::issue_match(subject))
}

/// The summary of a subject given the first issue number found in it (the
/// number and the text after it): that text without leading spaces and
/// colons, trimmed; the trimmed subject when no number was found.
pub open spec fn summary_given(subject: Seq<char>, found: Option<(Seq<char>, Seq<char>)>) -> Seq<char> {
    match found {
        Some((_, rest)) => text::trim(text::lstrip(rest, space_or_colon())),
        None => text::trim(subject),
    }
}

pub open spec fn found_view(found: Option<(String, String)>) -> Option<(Seq<char>, Seq<char>)> {
    match found {
        Some((m, rest)) => Some((m@, rest@)),
        None => None,
    }
}

/// The summary of a subject from what the issue pattern found in it.
pub fn summary_with_match(subject: &str, found: Option<(String, String)>) -> (r: String)
    ensures
        r@ == summary_given(subject@, found_view(found)),
{
    match found {
        Some((_, after)) => {
            let rest = chars_of(after.as_str());
            let k = text::lstrip_count(&rest, &space_colon_class());
            let tail = slice_chars(&rest, k, rest.len());
            assert(tail@ =~= rest@.skip(k as int));
            string_of(&trim_chars(&tail))
        },
        None => string_of(&trim_chars(&chars_of(subject))),
    }
}

/// Computes the summary of an issue branch from its tip's subject; empty
/// when it is not wanted or the subject could not be read.
pub fn compute_summary(subject: Option<String>, should_compute: bool) -> (r: String)
    ensures
        !should_compute ==> r@.len() == 0,
        should_compute ==> r@ == (match subject {
            Some(s) => summary_of(s@),
            None => Seq::<char>::empty(),
        }),
{
    if !should_compute {
        return String::new();
    }
    let s = match subject {
        Some(s) => s,
        None => {
            return String::new();
        },
    };
    let found = commit_grouper::find_issue_match(s.as_str());
    summary_with_match(s.as_str(), found)
}

fn space_colon_class() -> (k: text::CharClass)
    ensures
        k.pred() == space_or_colon(),
{
    let v = vec![' ', ':'];
    let k = text::CharClass::AnyOf(v);
    assert forall|c: char| k.has(c) == (c == ' ' || c == ':') by {
        if c == ' ' {
            assert(v@[0] == c);
        }
        if c == ':' {
            assert(v@[1] == c);
        }
    }
    assert(k.pred() =~= space_or_colon());
    k
}

/// A cached result for a branch: the same result under the branch's name.
pub fn handle_cache_hit(archived_branch: &str, info: BranchIntegrationInfo) -> (r: BranchIntegrationInfo)
    ensures
        r.name@ == archived_branch@,
        r.summary == info.summary,
        r.status == info.status,
{
    BranchIntegrationInfo { name: String::from_str(archived_branch), summary: info.summary, status: info.status }
}

/// The result of a fresh detection, and the cache entry to write on the
/// branch tip.
pub struct DetectionResult {
    pub info: BranchIntegrationInfo,
    pub cache_to_write: (String, BranchIntegrationInfo),
}

pub fn create_detection_result(status: BranchIntegrationStatus, branch_name: String, branch_tip: String, summary: String) -> (r: DetectionResult)
    ensures
        r.info.name@ == branch_name@,
        r.info.summary@ == summary@,
        r.info.status == status,
        r.cache_to_write.0@ == branch_tip@,
        r.cache_to_write.1.name@ == branch_name@,
        r.cache_to_write.1.summary@ == summary@,
        r.cache_to_write.1.status == status,
{
    let info = BranchIntegrationInfo { name: branch_name.clone(), summary: summary.clone(), status };
    let cached = BranchIntegrationInfo { name: branch_name, summary, status };
    DetectionResult { info, cache_to_write: (branch_tip, cached) }
}

/// Reads and writes the detection cache kept in git notes, for one
/// repository.
pub struct CacheOps {
    pub repo: String,
}

impl CacheOps {
    pub fn new(repo: &str) -> (c: Self)
        ensures
            c.repo@ == repo@,
    {
        CacheOps { repo: String::from_str(repo) }
    }

    /// The arguments that show the cache note of `commit`.
    pub fn read_args(&self, commit: &str) -> (args: Vec<String>)
        ensures
            args@.len() == 5,
            args@[0]@ == "notes"@,
            args@[1]@ == "--ref"@,
            args@[2]@ == NOTES_REF@,
            args@[3]@ == "show"@,
            args@[4]@ == commit@,
    {
        let mut args: Vec<String> = Vec::new();
        args.push(String::from_str("notes"));
        args.push(String::from_str("--ref"));
        args.push(String::from_str(NOTES_REF));
        args.push(String::from_str("show"));
        args.push(String::from_str(commit));
        args
    }

    /// The arguments that write `info` as the cache note of `commit`,
    /// replacing any earlier one.
    pub fn write_args(&self, commit: &str, info: &BranchIntegrationInfo) -> (args: Vec<String>)
        ensures
            args@.len() == 8,
            args@[0]@ == "notes"@,
            args@[1]@ == "--ref"@,
            args@[2]@ == NOTES_REF@,
            args@[3]@ == "add"@,
            args@[4]@ == "-f"@,
            args@[5]@ == "-m"@,
            args@[6]@ == integration::cache_json(*info),
            args@[7]@ == commit@,
    {
        let mut args: Vec<String> = Vec::new();
        args.push(String::from_str("notes"));
        args.push(String::from_str("--ref"));
        args.push(String::from_str(NOTES_REF));
        args.push(String::from_str("add"));
        args.push(String::from_str("-f"));
        args.push(String::from_str("-m"));
        args.push(serialize_for_cache(info));
        args.push(String::from_str(commit));
        args
    }
}

} // verus!
