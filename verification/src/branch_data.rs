//! The branches under a prefix, read from one `git for-each-ref` listing:
//! virtual and archived branches with their tip commits, the notes on those
//! commits, the branches that are no longer active, and the archived
//! branches old enough to be removed.

use vstd::prelude::*;
use chrono::Datelike;
use crate::archive::{pairs, strs};
use crate::integration::BranchIntegrationInfo;
use crate::git_executor::{acceptable_failure, CommandOutput, GitCommandExecutor};
use crate::number::{self, parse_u32};
use crate::text::{self, chars_of, push_all, slice_chars, starts_with, string_of, trim_chars};

verus! {

/// The committer time of a commit from the output of `git show -s
/// --format=%ct`: the trimmed output as a number.
pub fn get_commit_timestamp(output: Option<String>) -> (r: Option<u32>)
    ensures
        r == (match output {
            Some(o) => number::parsed_u32(text::trim(o@)),
            None => None,
        }),
{
    match output {
        Some(o) => parse_u32(&trim_chars(&chars_of(o.as_str()))),
        None => None,
    }
}

/// The arguments of `git merge-base --is-ancestor ancestor descendant`.
pub fn is_ancestor_args(ancestor: &str, descendant: &str) -> (args: Vec<String>)
    ensures
        strs(args@) == seq!["merge-base"@, "--is-ancestor"@, ancestor@, descendant@],
{
    let args = vec![
        String::from_str("merge-base"),
        String::from_str("--is-ancestor"),
        String::from_str(ancestor),
        String::from_str(descendant),
    ];
    assert(strs(args@) =~= seq!["merge-base"@, "--is-ancestor"@, ancestor@, descendant@]);
    args
}

/// Whether `ancestor` is an ancestor of `descendant`: the answer of `git
/// merge-base --is-ancestor`, which succeeds exactly when it is.
pub fn is_ancestor(
    git: &GitCommandExecutor,
    repo: &str,
    ancestor: &str,
    descendant: &str,
    output: &CommandOutput,
) -> (b: bool)
    ensures
        b == (repo@.len() > 0 && (output.success || ((ancestor@ == "merge-tree"@ || descendant@ == "merge-tree"@)
            && output.exit_code == Some(1i32)))),
{
    let args = is_ancestor_args(ancestor, descendant);
    proof {
        reveal_strlit("merge-base");
        reveal_strlit("--is-ancestor");
        reveal_strlit("merge-tree");
        assert(strs(args@).len() == 4);
        assert(args@.len() == 4);
        assert(strs(args@)[0] == args@[0]@);
        assert(strs(args@)[1] == args@[1]@);
        assert(strs(args@)[2] == args@[2]@);
        assert(strs(args@)[3] == args@[3]@);
        assert(args@[0]@[6] != "merge-tree"@[6]);
        assert(args@[1]@.len() != "merge-tree"@.len());
        assert(acceptable_failure(args@, output.exit_code) == ((ancestor@ == "merge-tree"@ || descendant@ == "merge-tree"@)
            && output.exit_code == Some(1i32))) by {
            if ancestor@ == "merge-tree"@ {
                assert(args@[2]@ == "merge-tree"@);
            }
            if descendant@ == "merge-tree"@ {
                assert(args@[3]@ == "merge-tree"@);
            }
        }
    }
    git.execute_command(&args, repo, output).is_ok()
}

/// The position of the first space in a line.
pub open spec fn first_space(l: Seq<char>) -> Option<int> {
    if exists|i: int| 0 <= i < l.len() && l[i] == ' ' {
        Some(choose|i: int| 0 <= i < l.len() && l[i] == ' ' && forall|j: int| 0 <= j < i ==> l[j] != ' ')
    } else {
        None
    }
}

/// A listing line `<branch> <commit>`: split at the first space.
pub open spec fn branch_line(l: Seq<char>) -> Option<(Seq<char>, Seq<char>)> {
    match first_space(l) {
        Some(i) => Some((l.take(i), l.skip(i + 1))),
        None => None,
    }
}

pub open spec fn virtual_marker() -> Seq<char> {
    "/virtual/"@
}

pub open spec fn archived_marker() -> Seq<char> {
    "/archived/"@
}

/// The branches of the listing, classified.
pub struct BranchData {
    /// Virtual branches with their tips.
    pub virtual_commits: Vec<(String, String)>,
    /// All archived branches.
    pub archived_all: Vec<String>,
    /// The names archived today (under today's archive prefix).
    pub archived_today_names: Vec<String>,
    /// Every listed branch with its tip.
    pub all_branch_commits: Vec<(String, String)>,
    /// The distinct tips, in order of first appearance.
    pub commits: Vec<String>,
}

/// The branch/commit pairs of a listing, skipping lines without a space.
pub open spec fn listed(lines: Seq<Seq<char>>) -> Seq<(Seq<char>, Seq<char>)>
    decreases lines.len(),
{
    if lines.len() == 0 {
        Seq::empty()
    } else {
        listed(lines.drop_last()) + match branch_line(lines.last()) {
            Some(p) => seq![p],
            None => Seq::empty(),
        }
    }
}

pub open spec fn today_prefix(branch_prefix: Seq<char>, today: Seq<char>) -> Seq<char> {
    branch_prefix + "/archived/"@ + today + seq!['/']
}

fn find_space(l: &Vec<char>) -> (r: Option<usize>)
    ensures
        match r {
            Some(i) => first_space(l@) == Some(i as int) && i < l@.len(),
            None => first_space(l@) is None,
        },
{
    let mut i: usize = 0;
    while i < l.len()
        invariant
            i <= l@.len(),
            forall|j: int| 0 <= j < i ==> l@[j] != ' ',
        decreases l.len() - i,
    {
        if l[i] == ' ' {
            let ghost c = choose|c: int| 0 <= c < l@.len() && l@[c] == ' ' && forall|j: int| 0 <= j < c ==> l@[j] != ' ';
            assert(0 <= i < l@.len() && l@[i as int] == ' ' && forall|j: int| 0 <= j < i ==> l@[j] != ' ');
            assert(c == i) by {
                if c < i {
                    assert(l@[c] != ' ');
                } else if c > i {
                    assert(l@[i as int] != ' ');
                }
            }
            return Some(i);
        }
        i = i + 1;
    }
    None
}

fn contains_str(list: &Vec<String>, s: &Vec<char>) -> (b: bool)
    ensures
        b == strs(list@).contains(s@),
{
    let mut i: usize = 0;
    while i < list.len()
        invariant
            i <= list@.len(),
            forall|j: int| 0 <= j < i ==> list@[j]@ != s@,
        decreases list.len() - i,
    {
        if text::chars_eq(&chars_of(list[i].as_str()), s) {
            assert(strs(list@)[i as int] == s@);
            return true;
        }
        i = i + 1;
    }
    assert forall|j: int| 0 <= j < strs(list@).len() implies strs(list@)[j] != s@ by {
        assert(strs(list@)[j] == list@[j]@);
    }
    false
}

fn push_pair(v: &mut Vec<(String, String)>, a: &Vec<char>, b: &Vec<char>)
    ensures
        pairs(final(v)@) == pairs(old(v)@).push((a@, b@)),
{
    v.push((string_of(a), string_of(b)));
    assert(pairs(v@) =~= pairs(old(v)@).push((a@, b@)));
}

fn push_str(v: &mut Vec<String>, a: &Vec<char>)
    ensures
        strs(final(v)@) == strs(old(v)@).push(a@),
{
    v.push(string_of(a));
    assert(strs(v@) =~= strs(old(v)@).push(a@));
}

/// Classifies the listing of `git for-each-ref --format='%(refname:short)
/// %(objectname)' refs/heads/<prefix>/`: every branch with its tip; those
/// with `/virtual/` in their name as virtual, else those with `/archived/`
/// as archived, and among these the names under today's archive prefix.
pub fn get_all_branch_data(lines: &Vec<String>, branch_prefix: &str, today: &str) -> (d: BranchData)
    ensures
        ({
            let all = listed(strs(lines@));
            &&& pairs(d.all_branch_commits@) == all
            &&& pairs(d.virtual_commits@) == all.filter(|p: (Seq<char>, Seq<char>)| text::contains_seq(p.0, virtual_marker()))
            &&& strs(d.archived_all@) == all.filter(|p: (Seq<char>, Seq<char>)| !text::contains_seq(p.0, virtual_marker())
                && text::contains_seq(p.0, archived_marker())).map_values(|p: (Seq<char>, Seq<char>)| p.0)
            &&& strs(d.archived_today_names@) == all.filter(|p: (Seq<char>, Seq<char>)| !text::contains_seq(p.0, virtual_marker())
                && text::contains_seq(p.0, archived_marker()) && text::has_prefix(p.0, today_prefix(branch_prefix@, today@))).map_values(
                |p: (Seq<char>, Seq<char>)| p.0.skip(today_prefix(branch_prefix@, today@).len() as int))
            &&& forall|k: int| 0 <= k < d.commits@.len() ==> all.map_values(|p: (Seq<char>, Seq<char>)| p.1).contains(
                (#[trigger] d.commits@[k])@)
            &&& forall|i: int| 0 <= i < all.len() ==> strs(d.commits@).contains(#[trigger] all[i].1)
            &&& forall|a: int, b: int| 0 <= a < b < d.commits@.len() ==> (#[trigger] d.commits@[a])@ != (#[trigger] d.commits@[b])@
        }),
{
    let ghost ls = strs(lines@);
    let virtual_m = chars_of("/virtual/");
    let archived_m = chars_of("/archived/");
    let mut prefix = chars_of(branch_prefix);
    push_all(&mut prefix, &chars_of("/archived/"));
    push_all(&mut prefix, &chars_of(today));
    prefix.push('/');
    let mut d = BranchData {
        virtual_commits: Vec::new(),
        archived_all: Vec::new(),
        archived_today_names: Vec::new(),
        all_branch_commits: Vec::new(),
        commits: Vec::new(),
    };
    let ghost is_virtual = |p: (Seq<char>, Seq<char>)| text::contains_seq(p.0, virtual_marker());
    let ghost is_archived = |p: (Seq<char>, Seq<char>)| !text::contains_seq(p.0, virtual_marker()) && text::contains_seq(p.0, archived_marker());
    let ghost name_of = |p: (Seq<char>, Seq<char>)| p.0;
    let ghost tp = today_prefix(branch_prefix@, today@);
    let ghost is_today = |p: (Seq<char>, Seq<char>)| !text::contains_seq(p.0, virtual_marker()) && text::contains_seq(p.0, archived_marker())
        && text::has_prefix(p.0, tp);
    let ghost today_name = |p: (Seq<char>, Seq<char>)| p.0.skip(tp.len() as int);
    assert(prefix@ =~= tp);
    let ghost commit_of_pair = |p: (Seq<char>, Seq<char>)| p.1;
    let mut i: usize = 0;
    while i < lines.len()
        invariant
            i <= lines@.len(),
            ls == strs(lines@),
            virtual_m@ == virtual_marker(),
            archived_m@ == archived_marker(),
            is_virtual == (|p: (Seq<char>, Seq<char>)| text::contains_seq(p.0, virtual_marker())),
            is_archived == (|p: (Seq<char>, Seq<char>)| !text::contains_seq(p.0, virtual_marker()) && text::contains_seq(
                p.0,
                archived_marker(),
            )),
            name_of == (|p: (Seq<char>, Seq<char>)| p.0),
            prefix@ == tp,
            tp == today_prefix(branch_prefix@, today@),
            is_today == (|p: (Seq<char>, Seq<char>)| !text::contains_seq(p.0, virtual_marker()) && text::contains_seq(p.0, archived_marker())
                && text::has_prefix(p.0, tp)),
            today_name == (|p: (Seq<char>, Seq<char>)| p.0.skip(tp.len() as int)),
            strs(d.archived_today_names@) == listed(ls.take(i as int)).filter(is_today).map_values(today_name),
            commit_of_pair == (|p: (Seq<char>, Seq<char>)| p.1),
            pairs(d.all_branch_commits@) == listed(ls.take(i as int)),
            pairs(d.virtual_commits@) == listed(ls.take(i as int)).filter(is_virtual),
            strs(d.archived_all@) == listed(ls.take(i as int)).filter(is_archived).map_values(name_of),
            forall|k: int| 0 <= k < d.commits@.len() ==> listed(ls.take(i as int)).map_values(commit_of_pair).contains(
                (#[trigger] d.commits@[k])@),
            forall|j: int| 0 <= j < listed(ls.take(i as int)).len() ==> strs(d.commits@).contains(
                #[trigger] listed(ls.take(i as int))[j].1),
            forall|a: int, b: int| 0 <= a < b < d.commits@.len() ==> (#[trigger] d.commits@[a])@ != (#[trigger] d.commits@[b])@,
        decreases lines.len() - i,
    {
        proof {
            reveal_strlit("/virtual/");
            reveal_strlit("/archived/");
            assert(ls.take(i + 1).drop_last() =~= ls.take(i as int));
            assert(ls.take(i + 1).last() == lines@[i as int]@);
        }
        let ghost before_all = listed(ls.take(i as int));
        let ghost before_commits = d.commits@;
        let l = chars_of(lines[i].as_str());
        match find_space(&l) {
            Some(sp) => {
                assert(sp < l.len());
                let branch = slice_chars(&l, 0, sp);
                let commit = slice_chars(&l, sp + 1, l.len());
                assert(branch@ =~= l@.take(sp as int));
                assert(commit@ =~= l@.skip(sp + 1));
                let ghost p = (branch@, commit@);
                assert(listed(ls.take(i + 1)) == before_all.push(p));
                let fresh = !contains_str(&d.commits, &commit);
                if fresh {
                    push_str(&mut d.commits, &commit);
                }
                proof {
                    if fresh {
                        assert(strs(d.commits@) == strs(before_commits).push(commit@));
                    } else {
                        assert(d.commits@ == before_commits);
                    }
                    let after = before_all.push(p);
                    assert forall|j: int| 0 <= j < after.len() implies strs(d.commits@).contains(#[trigger] after[j].1) by {
                        if j < before_all.len() {
                            assert(after[j] == before_all[j]);
                            assert(strs(before_commits).contains(before_all[j].1));
                            let w = choose|w: int| 0 <= w < strs(before_commits).len() && strs(before_commits)[w] == before_all[j].1;
                            assert(strs(d.commits@)[w] == strs(before_commits)[w]);
                        } else {
                            assert(after[j].1 == commit@);
                            if fresh {
                                assert(strs(d.commits@)[before_commits.len() as int] == commit@);
                            }
                        }
                    }
                    assert forall|a: int, b: int| 0 <= a < b < d.commits@.len() implies (#[trigger] d.commits@[a])@ != (#[trigger] d.commits@[b])@ by {
                        assert(strs(d.commits@)[a] == d.commits@[a]@);
                        assert(strs(d.commits@)[b] == d.commits@[b]@);
                        if fresh && b == before_commits.len() {
                            assert(strs(d.commits@)[a] == strs(before_commits)[a]);
                            assert(!strs(before_commits).contains(commit@));
                        } else if fresh {
                            assert(strs(d.commits@)[a] == strs(before_commits)[a]);
                            assert(strs(d.commits@)[b] == strs(before_commits)[b]);
                            assert(strs(before_commits)[a] == before_commits[a]@);
                            assert(strs(before_commits)[b] == before_commits[b]@);
                        }
                    }
                }
                push_pair(&mut d.all_branch_commits, &branch, &commit);
                proof {
                    before_all.lemma_filter_push(p, is_virtual);
                    before_all.lemma_filter_push(p, is_archived);
                    assert(before_all.push(p).map_values(commit_of_pair) =~= before_all.map_values(commit_of_pair).push(commit@));
                    assert(before_all.map_values(commit_of_pair).push(commit@)[before_all.len() as int] == commit@);
                }
                let ghost arch_before = before_all.filter(is_archived);
                proof {
                    before_all.lemma_filter_push(p, is_today);
                    let tb = before_all.filter(is_today);
                    assert(tb.push(p).map_values(today_name) =~= tb.map_values(today_name).push(branch@.skip(tp.len() as int)));
                }
                proof {
                    assert(arch_before.push(p).map_values(name_of) =~= arch_before.map_values(name_of).push(branch@));
                }
                proof {
                    let after = before_all.push(p);
                    let cm = after.map_values(commit_of_pair);
                    assert forall|k: int| 0 <= k < d.commits@.len() implies cm.contains((#[trigger] d.commits@[k])@) by {
                        assert(strs(d.commits@)[k] == d.commits@[k]@);
                        if k < before_commits.len() {
                            assert(strs(d.commits@)[k] == strs(before_commits)[k]);
                            assert(strs(before_commits)[k] == before_commits[k]@);
                            assert(before_all.map_values(commit_of_pair).contains(before_commits[k]@));
                            let w = choose|w: int| 0 <= w < before_all.map_values(commit_of_pair).len()
                                && before_all.map_values(commit_of_pair)[w] == before_commits[k]@;
                            assert(cm[w] == before_all.map_values(commit_of_pair)[w]);
                        } else {
                            assert(fresh);
                            assert(strs(d.commits@)[k] == commit@);
                            assert(cm[before_all.len() as int] == commit@);
                        }
                    }
                }
                if text::contains_exec(&branch, &virtual_m) {
                    push_pair(&mut d.virtual_commits, &branch, &commit);
                } else if text::contains_exec(&branch, &archived_m) {
                    push_str(&mut d.archived_all, &branch);
                    if starts_with(&branch, &prefix) {
                        let name = slice_chars(&branch, prefix.len(), branch.len());
                        assert(name@ =~= branch@.skip(tp.len() as int));
                        push_str(&mut d.archived_today_names, &name);
                    }
                }
            },
            None => {
                assert(listed(ls.take(i + 1)) =~= before_all);
            },
        }
        i = i + 1;
    }
    assert(ls.take(lines@.len() as int) =~= ls);
    d
}

/// The arguments that fetch the notes of the tips in one call.
pub fn notes_args(commits: &Vec<String>) -> (args: Vec<String>)
    ensures
        args@.len() == commits@.len() + 5,
        args@[0]@ == "--no-pager"@,
        args@[1]@ == "log"@,
        args@[2]@ == "--no-walk"@,
        args@[3]@ == "--format=%H%x1f%N%x1e"@,
        args@[4]@ == "--notes="@ + crate::integration::NOTES_REF@,
        forall|k: int| 0 <= k < commits@.len() ==> (#[trigger] args@[k + 5])@ == commits@[k]@,
{
    let mut args: Vec<String> = Vec::new();
    args.push(String::from_str("--no-pager"));
    args.push(String::from_str("log"));
    args.push(String::from_str("--no-walk"));
    args.push(String::from_str("--format=%H%x1f%N%x1e"));
    let mut n = chars_of("--notes=");
    push_all(&mut n, &chars_of(crate::integration::NOTES_REF));
    args.push(string_of(&n));
    let mut i: usize = 0;
    while i < commits.len()
        invariant
            i <= commits@.len(),
            args@.len() == i + 5,
            args@[0]@ == "--no-pager"@,
            args@[1]@ == "log"@,
            args@[2]@ == "--no-walk"@,
            args@[3]@ == "--format=%H%x1f%N%x1e"@,
            args@[4]@ == "--notes="@ + crate::integration::NOTES_REF@,
            forall|k: int| 0 <= k < i ==> (#[trigger] args@[k + 5])@ == commits@[k]@,
        decreases commits.len() - i,
    {
        args.push(commits[i].clone());
        i = i + 1;
    }
    args
}

/// The position of the first unit separator in a record.
pub open spec fn first_unit_sep(l: Seq<char>) -> Option<int> {
    if exists|i: int| 0 <= i < l.len() && l[i] == '\u{1f}' {
        Some(choose|i: int| 0 <= i < l.len() && l[i] == '\u{1f}' && forall|j: int| 0 <= j < i ==> l[j] != '\u{1f}')
    } else {
        None
    }
}

/// A notes record `<commit>U+001F<note>` (trimmed) with a non-blank note:
/// the commit and the trimmed note.
pub open spec fn note_record(r: Seq<char>) -> Option<(Seq<char>, Seq<char>)> {
    let t = text::trim(r);
    match first_unit_sep(t) {
        Some(i) => if text::trim(t.skip(i + 1)).len() > 0 {
            Some((t.take(i), text::trim(t.skip(i + 1))))
        } else {
            None
        },
        None => None,
    }
}

/// The notes records of an output, in order.
pub open spec fn notes_of(records: Seq<Seq<char>>) -> Seq<(Seq<char>, Seq<char>)>
    decreases records.len(),
{
    if records.len() == 0 {
        Seq::empty()
    } else {
        notes_of(records.drop_last()) + match note_record(records.last()) {
            Some(p) => seq![p],
            None => Seq::empty(),
        }
    }
}

fn find_unit_sep(l: &Vec<char>) -> (r: Option<usize>)
    ensures
        match r {
            Some(i) => first_unit_sep(l@) == Some(i as int) && i < l@.len(),
            None => first_unit_sep(l@) is None,
        },
{
    let mut i: usize = 0;
    while i < l.len()
        invariant
            i <= l@.len(),
            forall|j: int| 0 <= j < i ==> l@[j] != '\u{1f}',
        decreases l.len() - i,
    {
        if l[i] == '\u{1f}' {
            let ghost c = choose|c: int| 0 <= c < l@.len() && l@[c] == '\u{1f}' && forall|j: int| 0 <= j < c ==> l@[j] != '\u{1f}';
            assert(0 <= i < l@.len() && l@[i as int] == '\u{1f}' && forall|j: int| 0 <= j < i ==> l@[j] != '\u{1f}');
            assert(c == i) by {
                if c < i {
                    assert(l@[c] != '\u{1f}');
                } else if c > i {
                    assert(l@[i as int] != '\u{1f}');
                }
            }
            return Some(i);
        }
        i = i + 1;
    }
    None
}

/// The notes in the output of the notes query: each commit with its
/// non-blank note text, in order.
pub fn note_records(output: &str) -> (r: Vec<(String, String)>)
    ensures
        pairs(r@) == notes_of(text::split_by(output@, |c: char| c == '\u{1e}')),
{
    let chars = chars_of(output);
    let sep = crate::model::single_class('\u{1e}');
    assert(crate::model::is_char('\u{1e}') =~= (|c: char| c == '\u{1e}'));
    let records = text::split_chars(&chars, &sep);
    let ghost all = text::split_by(output@, |c: char| c == '\u{1e}');
    let mut out: Vec<(String, String)> = Vec::new();
    let mut i: usize = 0;
    while i < records.len()
        invariant
            i <= records@.len(),
            records@.len() == all.len(),
            forall|k: int| 0 <= k < records@.len() ==> (#[trigger] records@[k])@ == all[k],
            pairs(out@) == notes_of(all.take(i as int)),
        decreases records.len() - i,
    {
        proof {
            assert(all.take(i + 1).drop_last() =~= all.take(i as int));
            assert(all.take(i + 1).last() == records@[i as int]@);
        }
        let t = trim_chars(&records[i]);
        match find_unit_sep(&t) {
            Some(p) => {
                let rest = slice_chars(&t, p + 1, t.len());
                assert(rest@ =~= t@.skip(p + 1));
                let note = trim_chars(&rest);
                if note.len() > 0 {
                    let commit = slice_chars(&t, 0, p);
                    assert(commit@ =~= t@.take(p as int));
                    push_pair(&mut out, &commit, &note);
                } else {
                    assert(notes_of(all.take(i + 1)) =~= notes_of(all.take(i as int)));
                }
            },
            None => {
                assert(notes_of(all.take(i + 1)) =~= notes_of(all.take(i as int)));
            },
        }
        i = i + 1;
    }
    assert(all.take(records@.len() as int) =~= all);
    out
}

/// The first branch whose tip is `commit`.
pub open spec fn branch_at(commits: Seq<(Seq<char>, Seq<char>)>, commit: Seq<char>) -> Option<Seq<char>>
    decreases commits.len(),
{
    if commits.len() == 0 {
        None
    } else if commits[0].1 == commit {
        Some(commits[0].0)
    } else {
        branch_at(commits.drop_first(), commit)
    }
}

/// Names a cached detection result after the branch whose tip carries it (the
/// first such branch of the listing); unchanged when no branch has that tip.
pub fn name_cached_result(commit: &str, info: BranchIntegrationInfo, all_branch_commits: &Vec<(String, String)>) -> (r: BranchIntegrationInfo)
    ensures
        r.status == info.status,
        r.summary == info.summary,
        match branch_at(pairs(all_branch_commits@), commit@) {
            Some(b) => r.name@ == b,
            None => r.name == info.name,
        },
{
    let ghost all = pairs(all_branch_commits@);
    assert(all.skip(0) =~= all);
    let c = chars_of(commit);
    let mut i: usize = 0;
    while i < all_branch_commits.len()
        invariant
            i <= all_branch_commits@.len(),
            all == pairs(all_branch_commits@),
            c@ == commit@,
            branch_at(all, commit@) == branch_at(all.skip(i as int), commit@),
        decreases all_branch_commits.len() - i,
    {
        assert(all.skip(i as int)[0] == (all_branch_commits@[i as int].0@, all_branch_commits@[i as int].1@));
        assert(all.skip(i as int).drop_first() =~= all.skip(i + 1));
        if text::chars_eq(&chars_of(all_branch_commits[i].1.as_str()), &c) {
            return BranchIntegrationInfo { name: all_branch_commits[i].0.clone(), summary: info.summary, status: info.status };
        }
        i = i + 1;
    }
    info
}

/// The name of a virtual branch without `<prefix>/virtual/`, or the name
/// itself when it does not start with it.
pub open spec fn simple_of(full: Seq<char>, virtual_prefix: Seq<char>) -> Seq<char> {
    if text::has_prefix(full, virtual_prefix) {
        full.skip(virtual_prefix.len() as int)
    } else {
        full
    }
}

fn simple_of_exec(full: &Vec<char>, virtual_prefix: &Vec<char>) -> (r: Vec<char>)
    ensures
        r@ == simple_of(full@, virtual_prefix@),
{
    if starts_with(full, virtual_prefix) {
        let r = slice_chars(full, virtual_prefix.len(), full.len());
        assert(r@ =~= full@.skip(virtual_prefix@.len() as int));
        r
    } else {
        let r = slice_chars(full, 0, full.len());
        assert(r@ =~= full@);
        r
    }
}

/// The virtual branches whose group is no longer among the active ones, in
/// order.
pub fn inactive_virtual_branches(virtual_branches: &Vec<String>, branch_prefix: &str, active_names: &Vec<String>) -> (r: Vec<String>)
    ensures
        strs(r@) == strs(virtual_branches@).filter(|b: Seq<char>| !strs(active_names@).contains(
            simple_of(b, branch_prefix@ + "/virtual/"@),
        )),
{
    let mut vp = chars_of(branch_prefix);
    push_all(&mut vp, &chars_of("/virtual/"));
    let ghost keep = |b: Seq<char>| !strs(active_names@).contains(simple_of(b, branch_prefix@ + "/virtual/"@));
    let ghost all = strs(virtual_branches@);
    let mut out: Vec<String> = Vec::new();
    let mut i: usize = 0;
    while i < virtual_branches.len()
        invariant
            i <= virtual_branches@.len(),
            all == strs(virtual_branches@),
            vp@ == branch_prefix@ + "/virtual/"@,
            keep == (|b: Seq<char>| !strs(active_names@).contains(simple_of(b, branch_prefix@ + "/virtual/"@))),
            strs(out@) == all.take(i as int).filter(keep),
        decreases virtual_branches.len() - i,
    {
        proof {
            assert(all.take(i + 1) =~= all.take(i as int).push(virtual_branches@[i as int]@));
            all.take(i as int).lemma_filter_push(virtual_branches@[i as int]@, keep);
        }
        let full = chars_of(virtual_branches[i].as_str());
        let simple = simple_of_exec(&full, &vp);
        if !contains_str(active_names, &simple) {
            push_str(&mut out, &full);
        }
        i = i + 1;
    }
    assert(all.take(virtual_branches@.len() as int) =~= all);
    out
}

/// The inactive virtual branches from the output of `git branch --list
/// '<prefix>/virtual/*'` (the prefix without trailing slashes): the
/// non-empty names whose group is not active.
pub fn list_inactive_virtual_branches(lines: &Vec<String>, branch_prefix: &str, active_names: &Vec<String>) -> (r: Vec<String>)
    ensures
        strs(r@) == strs(lines@).filter(|b: Seq<char>| b.len() > 0).filter(|b: Seq<char>| !strs(active_names@).contains(
            simple_of(b, text::rstrip(branch_prefix@, |c: char| c == '/') + "/virtual/"@),
        )),
{
    let p = chars_of(branch_prefix);
    let k = text::rstrip_len(&p, &crate::model::single_class('/'));
    assert(crate::model::is_char('/') =~= (|c: char| c == '/'));
    let trimmed = slice_chars(&p, 0, k);
    assert(trimmed@ =~= p@.take(k as int));
    let ghost nonempty = |b: Seq<char>| b.len() > 0;
    let mut names: Vec<String> = Vec::new();
    let mut i: usize = 0;
    while i < lines.len()
        invariant
            i <= lines@.len(),
            nonempty == (|b: Seq<char>| b.len() > 0),
            strs(names@) == strs(lines@).take(i as int).filter(nonempty),
        decreases lines.len() - i,
    {
        proof {
            assert(strs(lines@).take(i + 1) =~= strs(lines@).take(i as int).push(lines@[i as int]@));
            strs(lines@).take(i as int).lemma_filter_push(lines@[i as int]@, nonempty);
        }
        if lines[i].as_str().is_empty() {
        } else {
            let c = lines[i].clone();
            let ghost before = names@;
            names.push(c);
            assert(strs(names@) =~= strs(before).push(lines@[i as int]@));
        }
        i = i + 1;
    }
    assert(strs(lines@).take(lines@.len() as int) =~= strs(lines@));
    inactive_virtual_branches(&names, string_of(&trimmed).as_str(), active_names)
}

/// The date a `%Y-%m-%d` text names, counted in days from the start of the
/// common era (0001-01-01 is day 1).
pub uninterp spec fn ymd_day_number(s: Seq<char>) -> Option<i32>;

/// `chrono::NaiveDate::parse_from_str(s, "%Y-%m-%d")`, then
/// `Datelike::num_days_from_ce`.
#[verifier::external_body]
fn parse_ymd(s: &str) -> (r: Option<i32>)
    ensures
        r == ymd_day_number(s@),
{
    match chrono::NaiveDate::parse_from_str(s, "%Y-%m-%d") {
        Ok(d) => Some(d.num_days_from_ce()),
        Err(_) => None,
    }
}

/// Day 1970-01-01 counted from the start of the common era.
pub const UNIX_EPOCH_DAY: i64 = 719163;

/// The archive date segment of an archived branch: the first path segment
/// after `<prefix>/archived/`.
pub open spec fn archive_date(branch: Seq<char>, archive_prefix: Seq<char>) -> Option<Seq<char>> {
    if text::has_prefix(branch, archive_prefix) {
        Some(text::split_by(branch.skip(archive_prefix.len() as int), |c: char| c == '/')[0])
    } else {
        None
    }
}

/// An archived branch is removed when its archive date (at midnight UTC) is
/// before the cutoff and the cached result on its tip says integrated.
pub open spec fn expired(
    branch: Seq<char>,
    archive_prefix: Seq<char>,
    cutoff_secs: i64,
    commits: Seq<(Seq<char>, Seq<char>)>,
    notes: Seq<(Seq<char>, BranchIntegrationStatus)>,
) -> bool {
    match archive_date(branch, archive_prefix) {
        Some(d) => match ymd_day_number(d) {
            Some(day) => (day - UNIX_EPOCH_DAY) * 86400 < cutoff_secs && match crate::archive::commit_of(commits, branch) {
                Some(tip) => match status_at(notes, tip) {
                    Some(st) => st is Integrated,
                    None => false,
                },
                None => false,
            },
            None => false,
        },
        None => false,
    }
}

/// The first cached status recorded for a commit.
pub open spec fn status_at(notes: Seq<(Seq<char>, BranchIntegrationStatus)>, commit: Seq<char>) -> Option<BranchIntegrationStatus>
    decreases notes.len(),
{
    if notes.len() == 0 {
        None
    } else if notes[0].0 == commit {
        Some(notes[0].1)
    } else {
        status_at(notes.drop_first(), commit)
    }
}

pub open spec fn note_statuses(notes: Seq<(String, BranchIntegrationInfo)>) -> Seq<(Seq<char>, BranchIntegrationStatus)> {
    notes.map_values(|n: (String, BranchIntegrationInfo)| (n.0@, n.1.status))
}

use crate::integration::BranchIntegrationStatus;

fn lookup_status(notes: &Vec<(String, BranchIntegrationInfo)>, commit: &Vec<char>) -> (r: Option<BranchIntegrationStatus>)
    ensures
        r == status_at(note_statuses(notes@), commit@),
{
    let ghost all = note_statuses(notes@);
    assert(all.skip(0) =~= all);
    let mut i: usize = 0;
    while i < notes.len()
        invariant
            i <= notes@.len(),
            all == note_statuses(notes@),
            status_at(all, commit@) == status_at(all.skip(i as int), commit@),
        decreases notes.len() - i,
    {
        assert(all.skip(i as int)[0] == (notes@[i as int].0@, notes@[i as int].1.status));
        assert(all.skip(i as int).drop_first() =~= all.skip(i + 1));
        if text::chars_eq(&chars_of(notes[i].0.as_str()), commit) {
            return Some(notes[i].1.status);
        }
        i = i + 1;
    }
    None
}

fn lookup_tip(commits: &Vec<(String, String)>, branch: &Vec<char>) -> (r: Option<Vec<char>>)
    ensures
        match r {
            Some(c) => crate::archive::commit_of(pairs(commits@), branch@) == Some(c@),
            None => crate::archive::commit_of(pairs(commits@), branch@) is None,
        },
{
    let ghost all = pairs(commits@);
    assert(all.skip(0) =~= all);
    let mut i: usize = 0;
    while i < commits.len()
        invariant
            i <= commits@.len(),
            all == pairs(commits@),
            crate::archive::commit_of(all, branch@) == crate::archive::commit_of(all.skip(i as int), branch@),
        decreases commits.len() - i,
    {
        assert(all.skip(i as int)[0] == (commits@[i as int].0@, commits@[i as int].1@));
        assert(all.skip(i as int).drop_first() =~= all.skip(i + 1));
        if text::chars_eq(&chars_of(commits[i].0.as_str()), branch) {
            return Some(chars_of(commits[i].1.as_str()));
        }
        i = i + 1;
    }
    None
}

fn archive_date_exec(branch: &Vec<char>, archive_prefix: &Vec<char>) -> (r: Option<Vec<char>>)
    ensures
        match r {
            Some(d) => archive_date(branch@, archive_prefix@) == Some(d@),
            None => archive_date(branch@, archive_prefix@) is None,
        },
{
    if !starts_with(branch, archive_prefix) {
        return None;
    }
    let rest = slice_chars(branch, archive_prefix.len(), branch.len());
    assert(rest@ =~= branch@.skip(archive_prefix@.len() as int));
    let parts = text::split_chars(&rest, &crate::model::single_class('/'));
    assert(crate::model::is_char('/') =~= (|c: char| c == '/'));
    proof {
        text::lemma_split_by_nonempty(rest@, |c: char| c == '/');
    }
    Some(slice_chars(&parts[0], 0, parts[0].len()))
}

/// The archived branches to remove: archived before the cutoff (a time in
/// seconds since the Unix epoch) and cached as integrated.
pub fn branches_to_delete(
    archived_all: &Vec<String>,
    branch_prefix: &str,
    all_branch_commits: &Vec<(String, String)>,
    notes: &Vec<(String, BranchIntegrationInfo)>,
    cutoff_secs: i64,
) -> (r: Vec<String>)
    ensures
        strs(r@) == strs(archived_all@).filter(|b: Seq<char>| expired(
            b,
            branch_prefix@ + "/archived/"@,
            cutoff_secs,
            pairs(all_branch_commits@),
            note_statuses(notes@),
        )),
{
    let mut ap = chars_of(branch_prefix);
    push_all(&mut ap, &chars_of("/archived/"));
    let ghost keep = |b: Seq<char>| expired(b, branch_prefix@ + "/archived/"@, cutoff_secs, pairs(all_branch_commits@), note_statuses(notes@));
    let ghost all = strs(archived_all@);
    let mut out: Vec<String> = Vec::new();
    let mut i: usize = 0;
    while i < archived_all.len()
        invariant
            i <= archived_all@.len(),
            all == strs(archived_all@),
            ap@ == branch_prefix@ + "/archived/"@,
            keep == (|b: Seq<char>| expired(b, branch_prefix@ + "/archived/"@, cutoff_secs, pairs(all_branch_commits@), note_statuses(notes@))),
            strs(out@) == all.take(i as int).filter(keep),
        decreases archived_all.len() - i,
    {
        proof {
            assert(all.take(i + 1) =~= all.take(i as int).push(archived_all@[i as int]@));
            all.take(i as int).lemma_filter_push(archived_all@[i as int]@, keep);
        }
        let b = chars_of(archived_all[i].as_str());
        let mut remove = false;
        match archive_date_exec(&b, &ap) {
            Some(d) => match parse_ymd(string_of(&d).as_str()) {
                Some(day) => {
                    let secs: i64 = (day as i64 - UNIX_EPOCH_DAY) * 86400;
                    if secs < cutoff_secs {
                        match lookup_tip(all_branch_commits, &b) {
                            Some(tip) => match lookup_status(notes, &tip) {
                                Some(st) => {
                                    remove = match st {
                                        BranchIntegrationStatus::Integrated { .. } => true,
                                        _ => false,
                                    };
                                },
                                None => {},
                            },
                            None => {},
                        }
                    }
                },
                None => {},
            },
            None => {},
        }
        assert(remove == keep(b@));
        if remove {
            push_str(&mut out, &b);
        }
        i = i + 1;
    }
    assert(all.take(archived_all@.len() as int) =~= all);
    out
}

} // verus!
