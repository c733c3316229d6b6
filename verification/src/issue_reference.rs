//! Adding an issue reference (`ABC-123`) to the commits of a branch: which
//! references are accepted, which commits already carry one, and the new
//! messages of the others.

use vstd::prelude::*;
use crate::commit_grouper::{self, find_issue};
use crate::model::CommitInfo;
use crate::text::{self, chars_of, push_all, slice_chars, split_whitespace_chars, starts_with, string_of, trim_chars};
use crate::unicode::{self, char_is_alphanumeric};

verus! {

/// What adding an issue reference to a branch's commits asks for.
#[derive(Debug, Clone)]
pub struct AddIssueReferenceParams {
    pub repository_path: String,
    pub branch_name: String,
    pub commits: Vec<CommitInfo>,
    pub issue_reference: String,
}

/// What adding an issue reference did.
#[derive(Debug, Clone, Copy, PartialEq, Eq, Structural)]
pub struct AddIssueReferenceResult {
    pub success: bool,
    pub updated_count: u32,
    pub skipped_count: u32,
}

/// A new message for a commit.
#[derive(Debug, Clone)]
pub struct RewordCommitParams {
    pub commit_id: String,
    pub new_message: String,
}

/// Whether the first word of a message is (or holds) an issue number.
pub open spec fn has_issue_reference_spec(message: Seq<char>) -> bool {
    text::words(message).len() > 0 && commit_grouper::first_issue(text::words(message)[0]) is Some
}

/// Checks whether a message starts with an issue reference such as `ABC-123`.
pub fn has_issue_reference(message: &str) -> (b: bool)
    ensures
        b == has_issue_reference_spec(message@),
{
    let chars = chars_of(message);
    let words = split_whitespace_chars(&chars);
    if words.len() == 0 {
        return false;
    }
    find_issue(&words[0]).is_some()
}

/// Why an issue reference was refused.
#[derive(Debug, Clone, Copy, PartialEq, Eq, Structural)]
pub enum IssueReferenceError {
    /// It holds a character other than a letter, a digit or `-`.
    InvalidCharacters,
    /// It is not two non-empty parts around a single `-`.
    InvalidFormat,
}

impl IssueReferenceError {
    pub fn message(&self) -> (s: String)
        ensures
            match *self {
                IssueReferenceError::InvalidCharacters => s@
                    == "Issue reference can only contain letters, numbers, and hyphens"@,
                IssueReferenceError::InvalidFormat => s@ == "Issue reference must be in format like ABC-123"@,
            },
    {
        match self {
            IssueReferenceError::InvalidCharacters => String::from_str(
                "Issue reference can only contain letters, numbers, and hyphens",
            ),
            IssueReferenceError::InvalidFormat => String::from_str("Issue reference must be in format like ABC-123"),
        }
    }
}

pub open spec fn reference_char(c: char) -> bool {
    unicode::unicode_alphanumeric(c) || c == '-'
}

pub open spec fn hyphen() -> spec_fn(char) -> bool {
    |c: char| c == '-'
}

/// Which check, if any, refuses an issue reference.
pub open spec fn reference_error(reference: Seq<char>) -> Option<IssueReferenceError> {
    let parts = text::split_by(reference, hyphen());
    if !(forall|i: int| 0 <= i < reference.len() ==> reference_char(#[trigger] reference[i])) {
        Some(IssueReferenceError::InvalidCharacters)
    } else if parts.len() != 2 || parts[0].len() == 0 || parts[1].len() == 0 {
        Some(IssueReferenceError::InvalidFormat)
    } else {
        None
    }
}

/// Checks an issue reference.
pub fn validate_issue_reference(reference: &str) -> (r: Result<(), IssueReferenceError>)
    ensures
        match r {
            Ok(()) => reference_error(reference@) is None,
            Err(e) => reference_error(reference@) == Some(e),
        },
{
    let chars = chars_of(reference);
    let mut i: usize = 0;
    while i < chars.len()
        invariant
            i <= chars@.len(),
            chars@ == reference@,
            forall|j: int| 0 <= j < i ==> reference_char(#[trigger] chars@[j]),
        decreases chars.len() - i,
    {
        let c = chars[i];
        if !(char_is_alphanumeric(c) || c == '-') {
            assert(!reference_char(reference@[i as int]));
            return Err(IssueReferenceError::InvalidCharacters);
        }
        i = i + 1;
    }
    let sep = crate::model::single_class('-');
    let parts = text::split_chars(&chars, &sep);
    assert(crate::model::is_char('-') =~= hyphen());
    if parts.len() != 2 || parts[0].len() == 0 || parts[1].len() == 0 {
        return Err(IssueReferenceError::InvalidFormat);
    }
    Ok(())
}

/// `(branch) `: the prefix of the branch's commit messages.
pub open spec fn branch_prefix_of(branch: Seq<char>) -> Seq<char> {
    seq!['('] + branch + seq![')', ' ']
}

/// What a message becomes: `None` when it already carries an issue
/// reference after the branch prefix; else the reference and a space inserted
/// after the branch prefix (or in front when there is none), the message
/// being trimmed first.
pub open spec fn reworded_message(message: Seq<char>, branch: Seq<char>, reference: Seq<char>) -> Option<Seq<char>> {
    let trimmed = text::trim(message);
    let prefix = branch_prefix_of(branch);
    let has_prefix = text::has_prefix(trimmed, prefix);
    let after = if has_prefix { trimmed.skip(prefix.len() as int) } else { trimmed };
    if has_issue_reference_spec(after) {
        None
    } else if has_prefix {
        Some(prefix + reference + seq![' '] + after)
    } else {
        Some(reference + seq![' '] + trimmed)
    }
}

/// `m` is `message` with `reference` and one space inserted after the branch
/// prefix when the trimmed message starts with it (else at the start), and
/// nothing else changed: removing them gives back the trimmed message.
pub open spec fn carries_reference(m: Seq<char>, message: Seq<char>, branch: Seq<char>, reference: Seq<char>) -> bool {
    let t = text::trim(message);
    let p = if text::has_prefix(t, branch_prefix_of(branch)) { branch_prefix_of(branch).len() as int } else { 0int };
    let e = p + reference.len();
    &&& m.len() == t.len() + reference.len() + 1
    &&& m.take(p) == t.take(p)
    &&& m.subrange(p, e) == reference
    &&& m[e] == ' '
    &&& m.take(p) + m.skip(e + 1) == t
}

/// Adding a reference loses nothing of the message: the new message holds,
/// after the branch prefix when the trimmed message starts with it (else at
/// the start), the reference and one space; removing those gives back the
/// trimmed message exactly, body lines included.
pub proof fn lemma_reworded_keeps_message(message: Seq<char>, branch: Seq<char>, reference: Seq<char>)
    requires
        reworded_message(message, branch, reference) is Some,
    ensures
        carries_reference(reworded_message(message, branch, reference)->0, message, branch, reference),
{
    let m = reworded_message(message, branch, reference)->0;
    let t = text::trim(message);
    let pre = branch_prefix_of(branch);
    if text::has_prefix(t, pre) {
        let after = t.skip(pre.len() as int);
        assert(m == pre + reference + seq![' '] + after);
        let p = pre.len() as int;
        let e = p + reference.len();
        assert(m.take(p) =~= pre);
        assert(m.subrange(p, e) =~= reference);
        assert(m[e] == ' ');
        assert(m.skip(e + 1) =~= after);
        assert(pre + after =~= t);
    } else {
        assert(m == reference + seq![' '] + t);
        let e = reference.len() as int;
        assert(m.take(0) =~= t.take(0));
        assert(m.subrange(0, e) =~= reference);
        assert(m[e] == ' ');
        assert(m.skip(e + 1) =~= t);
        assert(m.take(0) + m.skip(e + 1) =~= t);
    }
}

/// Every planned rewrite is of one of the commits, and its new message is
/// that commit's message with the reference added and nothing lost.
pub proof fn lemma_planned_keeps_messages(commits: Seq<CommitInfo>, branch: Seq<char>, reference: Seq<char>)
    ensures
        forall|k: int| 0 <= k < planned(commits, branch, reference).len() ==> exists|j: int| 0 <= j < commits.len()
            && (#[trigger] planned(commits, branch, reference)[k]).0 == commits[j].hash@ && carries_reference(
            planned(commits, branch, reference)[k].1,
            commits[j].message@,
            branch,
            reference,
        ),
    decreases commits.len(),
{
    if commits.len() > 0 {
        let d = commits.drop_last();
        lemma_planned_keeps_messages(d, branch, reference);
        let prev = planned(d, branch, reference);
        let cur = planned(commits, branch, reference);
        let last = commits.len() - 1;
        assert forall|k: int| 0 <= k < cur.len() implies exists|j: int| 0 <= j < commits.len() && (#[trigger] cur[k]).0
            == commits[j].hash@ && carries_reference(cur[k].1, commits[j].message@, branch, reference) by {
            if k < prev.len() {
                assert(cur[k] == prev[k]);
                let j = choose|j: int| 0 <= j < d.len() && (#[trigger] prev[k]).0 == d[j].hash@ && carries_reference(
                    prev[k].1,
                    d[j].message@,
                    branch,
                    reference,
                );
                assert(d[j] == commits[j]);
            } else {
                lemma_reworded_keeps_message(commits[last].message@, branch, reference);
                assert(commits.last() == commits[last]);
            }
        }
    }
}

/// The rewrites of an issue reference request, and how many commits already
/// carried one.
pub struct IssueReferencePlan {
    pub rewrites: Vec<RewordCommitParams>,
    pub skipped_count: u32,
}

/// The new messages of the commits, in order, for those without a reference.
pub open spec fn planned(commits: Seq<CommitInfo>, branch: Seq<char>, reference: Seq<char>) -> Seq<(Seq<char>, Seq<char>)>
    decreases commits.len(),
{
    if commits.len() == 0 {
        Seq::empty()
    } else {
        let prev = planned(commits.drop_last(), branch, reference);
        match reworded_message(commits.last().message@, branch, reference) {
            Some(m) => prev.push((commits.last().hash@, m)),
            None => prev,
        }
    }
}

/// How many of the commits already carry a reference.
pub open spec fn skipped(commits: Seq<CommitInfo>, branch: Seq<char>, reference: Seq<char>) -> nat
    decreases commits.len(),
{
    if commits.len() == 0 {
        0
    } else {
        skipped(commits.drop_last(), branch, reference) + if reworded_message(
            commits.last().message@,
            branch,
            reference,
        ) is None {
            1nat
        } else {
            0nat
        }
    }
}

pub proof fn lemma_planned_skipped_len(commits: Seq<CommitInfo>, branch: Seq<char>, reference: Seq<char>)
    ensures
        planned(commits, branch, reference).len() + skipped(commits, branch, reference) == commits.len(),
    decreases commits.len(),
{
    if commits.len() > 0 {
        lemma_planned_skipped_len(commits.drop_last(), branch, reference);
    }
}

fn reword_message(message: &str, prefix: &Vec<char>, reference: &Vec<char>) -> (r: Option<Vec<char>>)
    ensures
        ({
            let branch = prefix@.subrange(1, prefix@.len() - 2);
            prefix@ == branch_prefix_of(branch) ==> match r {
                Some(m) => reworded_message(message@, branch, reference@) == Some(m@),
                None => reworded_message(message@, branch, reference@) is None,
            }
        }),
{
    let ghost branch = prefix@.subrange(1, prefix@.len() - 2);
    let trimmed = trim_chars(&chars_of(message));
    let has_prefix = starts_with(&trimmed, prefix);
    let after = if has_prefix {
        let a = slice_chars(&trimmed, prefix.len(), trimmed.len());
        assert(a@ =~= trimmed@.skip(prefix@.len() as int));
        a
    } else {
        let a = slice_chars(&trimmed, 0, trimmed.len());
        assert(a@ =~= trimmed@);
        a
    };
    let words = split_whitespace_chars(&after);
    if words.len() > 0 && find_issue(&words[0]).is_some() {
        return None;
    }
    let mut out: Vec<char> = Vec::new();
    if has_prefix {
        push_all(&mut out, prefix);
    }
    push_all(&mut out, reference);
    out.push(' ');
    push_all(&mut out, &after);
    proof {
        if prefix@ == branch_prefix_of(branch) {
            if has_prefix {
                assert(out@ =~= prefix@ + reference@ + seq![' '] + after@);
            } else {
                assert(out@ =~= reference@ + seq![' '] + trimmed@);
            }
        }
    }
    Some(out)
}

#[verifier::spinoff_prover]
#[verifier::rlimit(30)]
fn plan_rewrites(commits: &Vec<CommitInfo>, prefix: &Vec<char>, reference: &Vec<char>, Ghost(branch): Ghost<Seq<char>>) -> (r: (Vec<RewordCommitParams>, u32))
    requires
        commits@.len() <= u32::MAX,
        prefix@ == branch_prefix_of(branch),
    ensures
        ({
            let expected = planned(commits@, branch, reference@);
            &&& r.0@.len() == expected.len()
            &&& forall|k: int| 0 <= k < expected.len() ==> (#[trigger] r.0@[k]).commit_id@ == expected[k].0
                && r.0@[k].new_message@ == expected[k].1
            &&& r.1 == skipped(commits@, branch, reference@)
        }),
{
    assert(prefix@.subrange(1, prefix@.len() - 2) =~= branch);
    let mut rewrites: Vec<RewordCommitParams> = Vec::new();
    let mut skipped_count: u32 = 0;
    let mut i: usize = 0;
    while i < commits.len()
        invariant
            i <= commits@.len(),
            commits@.len() <= u32::MAX,
            prefix@ == branch_prefix_of(branch),
            prefix@.subrange(1, prefix@.len() - 2) == branch,
            rewrites@.len() == planned(commits@.take(i as int), branch, reference@).len(),
            forall|k: int| 0 <= k < rewrites@.len() ==> (#[trigger] rewrites@[k]).commit_id@
                == planned(commits@.take(i as int), branch, reference@)[k].0
                && rewrites@[k].new_message@ == planned(commits@.take(i as int), branch, reference@)[k].1,
            skipped_count == skipped(commits@.take(i as int), branch, reference@),
        decreases commits.len() - i,
    {
        let commit = &commits[i];
        proof {
            assert(commits@.take(i + 1).drop_last() =~= commits@.take(i as int));
            assert(commits@.take(i + 1).last() == commits@[i as int]);
            lemma_planned_skipped_len(commits@.take(i as int), branch, reference@);
        }
        let ghost before = rewrites@;
        match reword_message(commit.message.as_str(), prefix, reference) {
            Some(m) => {
                rewrites.push(RewordCommitParams { commit_id: commit.hash.clone(), new_message: string_of(&m) });
                proof {
                    let exp = planned(commits@.take(i + 1), branch, reference@);
                    assert forall|k: int| 0 <= k < rewrites@.len() implies (#[trigger] rewrites@[k]).commit_id@
                        == exp[k].0 && rewrites@[k].new_message@ == exp[k].1 by {
                        if k < before.len() {
                            assert(rewrites@[k] == before[k]);
                        }
                    }
                }
            },
            None => {
                skipped_count = skipped_count + 1;
            },
        }
        i = i + 1;
    }
    assert(commits@.take(commits@.len() as int) =~= commits@);
    (rewrites, skipped_count)
}

/// Checks the reference and plans the rewording of the branch's commits:
/// every commit whose message (after the branch prefix) does not already
/// start with an issue reference gets the reference inserted; the others are
/// counted as skipped.
pub fn plan_issue_reference(params: &AddIssueReferenceParams) -> (r: Result<IssueReferencePlan, IssueReferenceError>)
    requires
        params.commits@.len() <= u32::MAX,
    ensures
        match r {
            Ok(plan) => {
                let expected = planned(params.commits@, params.branch_name@, params.issue_reference@);
                &&& reference_error(params.issue_reference@) is None
                &&& plan.rewrites@.len() == expected.len()
                &&& forall|k: int| 0 <= k < expected.len() ==> (#[trigger] plan.rewrites@[k]).commit_id@
                    == expected[k].0 && plan.rewrites@[k].new_message@ == expected[k].1
                &&& plan.skipped_count == skipped(params.commits@, params.branch_name@, params.issue_reference@)
                &&& forall|k: int| 0 <= k < plan.rewrites@.len() ==> exists|j: int| 0 <= j < params.commits@.len()
                    && (#[trigger] plan.rewrites@[k]).commit_id@ == params.commits@[j].hash@ && carries_reference(
                    plan.rewrites@[k].new_message@,
                    params.commits@[j].message@,
                    params.branch_name@,
                    params.issue_reference@,
                )
            },
            Err(e) => reference_error(params.issue_reference@) == Some(e),
        },
{
    match validate_issue_reference(params.issue_reference.as_str()) {
        Err(e) => {
            return Err(e);
        },
        Ok(()) => {},
    }
    let mut prefix: Vec<char> = vec!['('];
    push_all(&mut prefix, &chars_of(params.branch_name.as_str()));
    prefix.push(')');
    prefix.push(' ');
    assert(prefix@ =~= branch_prefix_of(params.branch_name@));
    let reference = chars_of(params.issue_reference.as_str());
    let (rewrites, skipped_count) = plan_rewrites(&params.commits, &prefix, &reference, Ghost(params.branch_name@));
    proof {
        lemma_planned_keeps_messages(params.commits@, params.branch_name@, params.issue_reference@);
        let expected = planned(params.commits@, params.branch_name@, params.issue_reference@);
        assert forall|k: int| 0 <= k < rewrites@.len() implies exists|j: int| 0 <= j < params.commits@.len()
            && (#[trigger] rewrites@[k]).commit_id@ == params.commits@[j].hash@ && carries_reference(
            rewrites@[k].new_message@,
            params.commits@[j].message@,
            params.branch_name@,
            params.issue_reference@,
        ) by {
            assert(expected[k].0 == rewrites@[k].commit_id@);
        }
    }
    Ok(IssueReferencePlan { rewrites, skipped_count })
}

/// The answer once the rewording has run: how many commits were updated and
/// skipped, or the rewording's failure.
pub fn issue_reference_result(plan: &IssueReferencePlan, reword_failure: Option<String>) -> (r: Result<AddIssueReferenceResult, String>)
    requires
        plan.rewrites@.len() <= u32::MAX,
    ensures
        plan.rewrites@.len() == 0 ==> r == Ok::<AddIssueReferenceResult, String>(AddIssueReferenceResult {
            success: true,
            updated_count: 0,
            skipped_count: plan.skipped_count,
        }),
        plan.rewrites@.len() > 0 && reword_failure is None ==> r == Ok::<AddIssueReferenceResult, String>(
            AddIssueReferenceResult {
                success: true,
                updated_count: plan.rewrites@.len() as u32,
                skipped_count: plan.skipped_count,
            },
        ),
        plan.rewrites@.len() > 0 && reword_failure is Some ==> (r matches Err(msg) && msg@
            == "Failed to add issue reference: "@ + reword_failure->0@),
{
    if plan.rewrites.len() == 0 {
        return Ok(AddIssueReferenceResult { success: true, updated_count: 0, skipped_count: plan.skipped_count });
    }
    match reword_failure {
        None => Ok(AddIssueReferenceResult {
            success: true,
            updated_count: plan.rewrites.len() as u32,
            skipped_count: plan.skipped_count,
        }),
        Some(e) => {
            let mut msg = String::from_str("Failed to add issue reference: ");
            msg.append(e.as_str());
            Err(msg)
        },
    }
}

} // verus!
