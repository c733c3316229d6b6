//! Commits with their changed files, written as the raw `git log` text that
//! the branch-name generator reads: each commit's message, then one
//! `<status>\t<path>` line per file, then a blank line.

use vstd::prelude::*;
use crate::model::CommitInfo;
use crate::text::{self, chars_of, push_all, string_of, trim_chars};

verus! {

/// The changed files of one commit.
#[derive(Debug, Clone)]
pub struct CommitDiff {
    pub commit_hash: String,
    pub files: Vec<FileDiff>,
}

/// A changed file with its counts of added and deleted lines.
#[derive(Debug, Clone)]
pub struct FileDiff {
    pub path: String,
    pub additions: i32,
    pub deletions: i32,
    pub patch: Option<String>,
}

/// How a file changed: added when nothing was deleted, deleted when
/// nothing was added, else modified.
pub open spec fn file_status(f: FileDiff) -> Seq<char> {
    if f.deletions == 0 {
        "A"@
    } else if f.additions == 0 {
        "D"@
    } else {
        "M"@
    }
}

pub open spec fn file_lines(files: Seq<FileDiff>) -> Seq<char>
    decreases files.len(),
{
    if files.len() == 0 {
        Seq::empty()
    } else {
        file_lines(files.drop_last()) + file_status(files.last()) + "\t"@ + files.last().path@ + "\n"@
    }
}

/// The files recorded for the commit `hash`: those of the first diff with
/// that hash.
pub open spec fn diff_files(diffs: Seq<CommitDiff>, hash: Seq<char>) -> Option<Seq<FileDiff>>
    decreases diffs.len(),
{
    if diffs.len() == 0 {
        None
    } else if diffs[0].commit_hash@ == hash {
        Some(diffs[0].files@)
    } else {
        diff_files(diffs.drop_first(), hash)
    }
}

pub open spec fn commit_block(c: CommitInfo, diffs: Seq<CommitDiff>) -> Seq<char> {
    c.message@ + "\n"@ + match diff_files(diffs, c.hash@) {
        Some(files) => file_lines(files),
        None => Seq::empty(),
    } + "\n"@
}

pub open spec fn commit_blocks(commits: Seq<CommitInfo>, diffs: Seq<CommitDiff>) -> Seq<char>
    decreases commits.len(),
{
    if commits.len() == 0 {
        Seq::empty()
    } else {
        commit_blocks(commits.drop_last(), diffs) + commit_block(commits.last(), diffs)
    }
}

fn find_diff(diffs: &[CommitDiff], hash: &str) -> (r: Option<usize>)
    ensures
        match r {
            Some(i) => i < diffs@.len() && diff_files(diffs@, hash@) == Some(diffs@[i as int].files@),
            None => diff_files(diffs@, hash@) is None,
        },
{
    let h = chars_of(hash);
    assert(diffs@.skip(0) =~= diffs@);
    let mut i: usize = 0;
    while i < diffs.len()
        invariant
            i <= diffs@.len(),
            h@ == hash@,
            diff_files(diffs@, hash@) == diff_files(diffs@.skip(i as int), hash@),
        decreases diffs.len() - i,
    {
        let ghost rest = diffs@.skip(i as int);
        assert(rest[0] == diffs@[i as int]);
        assert(rest.drop_first() =~= diffs@.skip(i + 1));
        if text::chars_eq(&chars_of(diffs[i].commit_hash.as_str()), &h) {
            return Some(i);
        }
        i = i + 1;
    }
    assert(diffs@.skip(i as int) =~= Seq::<CommitDiff>::empty());
    None
}

fn push_file_lines(out: &mut Vec<char>, files: &Vec<FileDiff>)
    ensures
        final(out)@ == old(out)@ + file_lines(files@),
{
    let ghost start = out@;
    let mut i: usize = 0;
    while i < files.len()
        invariant
            i <= files@.len(),
            out@ == start + file_lines(files@.take(i as int)),
        decreases files.len() - i,
    {
        let f = &files[i];
        proof {
            reveal_strlit("A");
            reveal_strlit("D");
            reveal_strlit("M");
            reveal_strlit("\t");
            reveal_strlit("\n");
            assert(files@.take(i + 1).drop_last() =~= files@.take(i as int));
            assert(files@.take(i + 1).last() == *f);
        }
        let status = if f.deletions == 0 {
            chars_of("A")
        } else if f.additions == 0 {
            chars_of("D")
        } else {
            chars_of("M")
        };
        push_all(out, &status);
        push_all(out, &chars_of("\t"));
        push_all(out, &chars_of(f.path.as_str()));
        push_all(out, &chars_of("\n"));
        assert(out@ =~= start + file_lines(files@.take(i + 1)));
        i = i + 1;
    }
    assert(files@.take(files@.len() as int) =~= files@);
}

/// The raw `git log` text of the commits, trimmed.
pub fn convert_to_raw_git_format(commits: &[CommitInfo], diffs: &[CommitDiff]) -> (s: String)
    ensures
        s@ == text::trim(commit_blocks(commits@, diffs@)),
{
    let mut out: Vec<char> = Vec::new();
    let mut i: usize = 0;
    while i < commits.len()
        invariant
            i <= commits@.len(),
            out@ == commit_blocks(commits@.take(i as int), diffs@),
        decreases commits.len() - i,
    {
        let c = &commits[i];
        let ghost before = out@;
        proof {
            reveal_strlit("\n");
            assert(commits@.take(i + 1).drop_last() =~= commits@.take(i as int));
            assert(commits@.take(i + 1).last() == *c);
        }
        push_all(&mut out, &chars_of(c.message.as_str()));
        push_all(&mut out, &chars_of("\n"));
        let ghost mid = out@;
        match find_diff(diffs, c.hash.as_str()) {
            Some(k) => push_file_lines(&mut out, &diffs[k].files),
            None => {},
        }
        push_all(&mut out, &chars_of("\n"));
        assert(out@ =~= before + commit_block(*c, diffs@));
        i = i + 1;
    }
    assert(commits@.take(commits@.len() as int) =~= commits@);
    string_of(&trim_chars(&out))
}

} // verus!
