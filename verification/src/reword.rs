//! Rewording commits with git plumbing: which commits must be recreated
//! (the reworded ones and every commit after them), on which parents, with
//! which messages, and where the branch ends up.

use vstd::prelude::*;
use crate::archive::{pairs, strs};
use crate::commit_list::{self, Commit};
use crate::issue_reference::RewordCommitParams;
use crate::number::{self, format_u64, parse_u32};
use crate::text::{self, chars_of, push_all, split_whitespace_chars, string_of, trim_chars};

verus! {

/// The current branch from `git symbolic-ref --short HEAD`: the trimmed
/// output, refused when empty (detached `HEAD`).
pub fn get_current_branch(output: &str) -> (r: Result<String, String>)
    ensures
        text::trim(output@).len() > 0 ==> (r matches Ok(b) && b@ == text::trim(output@)),
        text::trim(output@).len() == 0 ==> (r matches Err(m) && m@ == "Not on any branch (detached HEAD state)"@),
{
    let t = trim_chars(&chars_of(output));
    if t.len() == 0 {
        return Err(String::from_str("Not on any branch (detached HEAD state)"));
    }
    Ok(string_of(&t))
}

/// The new message of a commit when it is reworded: the last request for it.
pub open spec fn new_message(rewrites: Seq<(Seq<char>, Seq<char>)>, commit: Seq<char>) -> Option<Seq<char>>
    decreases rewrites.len(),
{
    if rewrites.len() == 0 {
        None
    } else if rewrites.last().0 == commit {
        Some(rewrites.last().1)
    } else {
        new_message(rewrites.drop_last(), commit)
    }
}

pub open spec fn requests(rewrites: Seq<RewordCommitParams>) -> Seq<(Seq<char>, Seq<char>)> {
    rewrites.map_values(|r: RewordCommitParams| (r.commit_id@, r.new_message@))
}

fn find_message(rewrites: &Vec<RewordCommitParams>, commit: &Vec<char>) -> (r: Option<String>)
    ensures
        match r {
            Some(m) => new_message(requests(rewrites@), commit@) == Some(m@),
            None => new_message(requests(rewrites@), commit@) is None,
        },
{
    let ghost all = requests(rewrites@);
    assert(all.take(rewrites@.len() as int) =~= all);
    let mut i: usize = rewrites.len();
    while i > 0
        invariant
            i <= rewrites@.len(),
            all == requests(rewrites@),
            new_message(all, commit@) == new_message(all.take(i as int), commit@),
        decreases i,
    {
        proof {
            assert(all.take(i as int).drop_last() =~= all.take(i - 1));
            assert(all.take(i as int).last() == (rewrites@[i - 1].commit_id@, rewrites@[i - 1].new_message@));
        }
        if text::chars_eq(&chars_of(rewrites[i - 1].commit_id.as_str()), commit) {
            return Some(rewrites[i - 1].new_message.clone());
        }
        i = i - 1;
    }
    assert(all.take(0) =~= Seq::<(Seq<char>, Seq<char>)>::empty());
    None
}

/// The position, in `git rev-list --first-parent HEAD` (newest first), of the
/// oldest commit to reword.
pub open spec fn oldest_index(history: Seq<Seq<char>>, rewrites: Seq<(Seq<char>, Seq<char>)>) -> Option<int> {
    if exists|i: int| 0 <= i < history.len() && new_message(rewrites, history[i]) is Some {
        Some(choose|i: int| 0 <= i < history.len() && new_message(rewrites, history[i]) is Some && forall|j: int| i < j < history.len() ==> new_message(rewrites, #[trigger] history[j]) is None)
    } else {
        None
    }
}

/// The oldest commit to reword; refused when none is in the history.
pub fn oldest_reworded_commit(history: &Vec<String>, rewrites: &Vec<RewordCommitParams>) -> (r: Result<String, String>)
    ensures
        match oldest_index(strs(history@), requests(rewrites@)) {
            Some(i) => r matches Ok(c) && c@ == strs(history@)[i],
            None => r matches Err(m) && m@ == "No commits to reword found in history"@,
        },
{
    let ghost h = strs(history@);
    let ghost q = requests(rewrites@);
    let mut i: usize = history.len();
    while i > 0
        invariant
            i <= history@.len(),
            h == strs(history@),
            q == requests(rewrites@),
            forall|j: int| i <= j < h.len() ==> new_message(q, #[trigger] h[j]) is None,
        decreases i,
    {
        i = i - 1;
        let c = chars_of(history[i].as_str());
        if find_message(rewrites, &c).is_some() {
            proof {
                let w = choose|w: int| 0 <= w < h.len() && new_message(q, h[w]) is Some && forall|j: int| w < j < h.len() ==> new_message(q, #[trigger] h[j]) is None;
                assert(0 <= i < h.len() && new_message(q, h[i as int]) is Some && forall|j: int| i < j < h.len() ==> new_message(q, #[trigger] h[j]) is None);
                if w < i {
                    assert(new_message(q, h[i as int]) is None);
                } else if w > i {
                    assert(new_message(q, h[w]) is None);
                }
            }
            return Ok(history[i].clone());
        }
    }
    Err(String::from_str("No commits to reword found in history"))
}

/// The range to rewrite: from the parent of the oldest reworded commit, or
/// the whole history when it has none.
pub fn reword_range(oldest: &str, has_parent: bool) -> (r: String)
    ensures
        has_parent ==> r@ == oldest@ + "^..HEAD"@,
        !has_parent ==> r@ == "HEAD"@,
{
    if has_parent {
        let mut v = chars_of(oldest);
        push_all(&mut v, &chars_of("^..HEAD"));
        string_of(&v)
    } else {
        String::from_str("HEAD")
    }
}

/// A line of `git rev-list --first-parent --reverse --parents`: the commit
/// and its first parent.
pub open spec fn line_commit(line: Seq<char>) -> Option<(Seq<char>, Option<Seq<char>>)> {
    let ws = text::words(line);
    if ws.len() == 0 {
        None
    } else if ws.len() == 1 {
        Some((ws[0], None))
    } else {
        Some((ws[0], Some(ws[1])))
    }
}

pub open spec fn line_commits(lines: Seq<Seq<char>>) -> Seq<(Seq<char>, Option<Seq<char>>)>
    decreases lines.len(),
{
    if lines.len() == 0 {
        Seq::empty()
    } else {
        line_commits(lines.drop_last()) + match line_commit(lines.last()) {
            Some(p) => seq![p],
            None => Seq::empty(),
        }
    }
}

pub open spec fn parented(v: Seq<(String, Option<String>)>) -> Seq<(Seq<char>, Option<Seq<char>>)> {
    v.map_values(|p: (String, Option<String>)| (p.0@, commit_list::opt_view(p.1)))
}

/// The commits to process, oldest first, with their first parents; refused
/// when the range is empty.
pub fn get_commits_to_process(lines: &Vec<String>) -> (r: Result<Vec<(String, Option<String>)>, String>)
    ensures
        lines@.len() == 0 ==> (r matches Err(m) && m@ == "No commits found in range"@),
        lines@.len() > 0 ==> (r matches Ok(v) && parented(v@) == line_commits(strs(lines@))),
{
    if lines.len() == 0 {
        return Err(String::from_str("No commits found in range"));
    }
    let ghost all = strs(lines@);
    let mut out: Vec<(String, Option<String>)> = Vec::new();
    let mut i: usize = 0;
    while i < lines.len()
        invariant
            i <= lines@.len(),
            all == strs(lines@),
            parented(out@) == line_commits(all.take(i as int)),
        decreases lines.len() - i,
    {
        proof {
            assert(all.take(i + 1).drop_last() =~= all.take(i as int));
            assert(all.take(i + 1).last() == lines@[i as int]@);
        }
        let ws = split_whitespace_chars(&chars_of(lines[i].as_str()));
        let ghost before = out@;
        if ws.len() == 1 {
            out.push((string_of(&ws[0]), None));
            assert(parented(out@) =~= parented(before).push((ws@[0]@, None::<Seq<char>>)));
        } else if ws.len() >= 2 {
            out.push((string_of(&ws[0]), Some(string_of(&ws[1]))));
            assert(parented(out@) =~= parented(before).push((ws@[0]@, Some(ws@[1]@))));
        } else {
            assert(line_commits(all.take(i + 1)) =~= line_commits(all.take(i as int)));
        }
        i = i + 1;
    }
    assert(all.take(lines@.len() as int) =~= all);
    Ok(out)
}

/// The new id of a recreated commit.
pub open spec fn mapped(mapping: Seq<(Seq<char>, Seq<char>)>, commit: Seq<char>) -> Option<Seq<char>>
    decreases mapping.len(),
{
    if mapping.len() == 0 {
        None
    } else if mapping.last().0 == commit {
        Some(mapping.last().1)
    } else {
        mapped(mapping.drop_last(), commit)
    }
}

fn find_mapped(mapping: &Vec<(String, String)>, commit: &Vec<char>) -> (r: Option<String>)
    ensures
        match r {
            Some(m) => mapped(pairs(mapping@), commit@) == Some(m@),
            None => mapped(pairs(mapping@), commit@) is None,
        },
{
    let ghost all = pairs(mapping@);
    assert(all.take(mapping@.len() as int) =~= all);
    let mut i: usize = mapping.len();
    while i > 0
        invariant
            i <= mapping@.len(),
            all == pairs(mapping@),
            mapped(all, commit@) == mapped(all.take(i as int), commit@),
        decreases i,
    {
        proof {
            assert(all.take(i as int).drop_last() =~= all.take(i - 1));
            assert(all.take(i as int).last() == (mapping@[i - 1].0@, mapping@[i - 1].1@));
        }
        if text::chars_eq(&chars_of(mapping[i - 1].0.as_str()), commit) {
            return Some(mapping[i - 1].1.clone());
        }
        i = i - 1;
    }
    assert(all.take(0) =~= Seq::<(Seq<char>, Seq<char>)>::empty());
    None
}

/// The parent a commit gets: its parent's new id when the parent was
/// recreated, else its parent.
pub open spec fn new_parent(mapping: Seq<(Seq<char>, Seq<char>)>, parent: Option<Seq<char>>) -> Option<Seq<char>> {
    match parent {
        Some(p) => match mapped(mapping, p) {
            Some(n) => Some(n),
            None => Some(p),
        },
        None => None,
    }
}

/// A commit is recreated when it is reworded or its parent was recreated.
pub open spec fn must_recreate(rewrites: Seq<(Seq<char>, Seq<char>)>, mapping: Seq<(Seq<char>, Seq<char>)>, commit: Seq<char>, parent: Option<Seq<char>>) -> bool {
    new_message(rewrites, commit) is Some || (match parent {
        Some(p) => mapped(mapping, p) is Some,
        None => false,
    })
}

/// What the rewording asks for next.
#[derive(Debug, Clone)]
pub enum RewordStep {
    /// Recreate `commit` on `parent` (or as a root) with `message`, or with
    /// its own message when there is none.
    Recreate { commit: String, parent: Option<String>, message: Option<String> },
    /// Done: the branch moves to `new_tip`; `reworded` maps each reworded
    /// commit to its new id.
    Finished { new_tip: String, reworded: Vec<(String, String)> },
}

/// A rewording in progress.
pub struct Reworder {
    commits: Vec<(String, Option<String>)>,
    rewrites: Vec<RewordCommitParams>,
    mapping: Vec<(String, String)>,
    next: usize,
}

impl Reworder {
    pub closed spec fn commit_list(&self) -> Seq<(Seq<char>, Option<Seq<char>>)> {
        parented(self.commits@)
    }

    pub closed spec fn requested(&self) -> Seq<(Seq<char>, Seq<char>)> {
        requests(self.rewrites@)
    }

    /// The commits recreated so far with their new ids.
    pub closed spec fn recreated(&self) -> Seq<(Seq<char>, Seq<char>)> {
        pairs(self.mapping@)
    }

    pub closed spec fn position(&self) -> int {
        self.next as int
    }

    pub closed spec fn well_formed(&self) -> bool {
        self.next <= self.commits@.len()
    }

    /// Starts rewording: the commits to process, oldest first, and the
    /// requested messages.
    pub fn new(commits: Vec<(String, Option<String>)>, rewrites: Vec<RewordCommitParams>) -> (r: Self)
        ensures
            r.well_formed(),
            r.commit_list() == parented(commits@),
            r.requested() == requests(rewrites@),
            r.recreated() == Seq::<(Seq<char>, Seq<char>)>::empty(),
            r.position() == 0,
    {
        let r = Reworder { commits, rewrites, mapping: Vec::new(), next: 0 };
        assert(pairs(r.mapping@) =~= Seq::<(Seq<char>, Seq<char>)>::empty());
        r
    }

    /// The next commit to recreate (the commits that need none are passed
    /// over), or the end with the new tip and the reworded commits.
    pub fn next_step(&mut self) -> (s: RewordStep)
        requires
            old(self).well_formed(),
        ensures
            final(self).well_formed(),
            final(self).commit_list() == old(self).commit_list(),
            final(self).requested() == old(self).requested(),
            final(self).recreated() == old(self).recreated(),
            old(self).position() <= final(self).position(),
            forall|j: int| old(self).position() <= j < final(self).position() ==> !must_recreate(
                old(self).requested(),
                old(self).recreated(),
                (#[trigger] old(self).commit_list()[j]).0,
                old(self).commit_list()[j].1,
            ),
            match s {
                RewordStep::Recreate { commit, parent, message } => {
                    let k = final(self).position();
                    let c = old(self).commit_list()[k];
                    &&& k < old(self).commit_list().len()
                    &&& must_recreate(old(self).requested(), old(self).recreated(), c.0, c.1)
                    &&& commit@ == c.0
                    &&& commit_list::opt_view(parent) == new_parent(old(self).recreated(), c.1)
                    &&& commit_list::opt_view(message) == new_message(old(self).requested(), c.0)
                },
                RewordStep::Finished { new_tip, reworded } => {
                    let list = old(self).commit_list();
                    &&& final(self).position() == list.len()
                    &&& list.len() > 0 ==> new_tip@ == (match mapped(old(self).recreated(), list.last().0) {
                        Some(n) => n,
                        None => list.last().0,
                    })
                    &&& pairs(reworded@) == old(self).recreated().filter(|p: (Seq<char>, Seq<char>)| new_message(old(self).requested(), p.0) is Some)
                },
            },
    {
        let ghost list = self.commit_list();
        let ghost start = self.next as int;
        let ghost commits0 = self.commits@;
        let ghost rewrites0 = self.rewrites@;
        let ghost mapping0 = self.mapping@;
        while self.next < self.commits.len()
            invariant
                start <= self.next <= self.commits@.len(),
                self.commits@ == commits0,
                self.rewrites@ == rewrites0,
                self.mapping@ == mapping0,
                list.len() == self.commits@.len(),
                self.commit_list() == old(self).commit_list(),
                self.requested() == old(self).requested(),
                self.recreated() == old(self).recreated(),
                start == old(self).position(),
                list == parented(self.commits@),
                forall|j: int| start <= j < self.next ==> !must_recreate(
                    requests(self.rewrites@),
                    pairs(self.mapping@),
                    (#[trigger] list[j]).0,
                    list[j].1,
                ),
            decreases self.commits.len() - self.next,
        {
            let k = self.next;
            let commit = chars_of(self.commits[k].0.as_str());
            let message = find_message(&self.rewrites, &commit);
            let (parent, parent_mapped) = match &self.commits[k].1 {
                Some(p) => {
                    let pc = chars_of(p.as_str());
                    match find_mapped(&self.mapping, &pc) {
                        Some(n) => (Some(n), true),
                        None => (Some(p.clone()), false),
                    }
                },
                None => (None, false),
            };
            assert(list[k as int] == (self.commits@[k as int].0@, commit_list::opt_view(self.commits@[k as int].1)));
            if message.is_some() || parent_mapped {
                return RewordStep::Recreate { commit: self.commits[k].0.clone(), parent, message };
            }
            self.next = self.next + 1;
        }
        let new_tip = if self.commits.len() > 0 {
            let tip = chars_of(self.commits[self.commits.len() - 1].0.as_str());
            match find_mapped(&self.mapping, &tip) {
                Some(n) => n,
                None => string_of(&tip),
            }
        } else {
            String::new()
        };
        let reworded = self.reworded_only();
        RewordStep::Finished { new_tip, reworded }
    }

    fn reworded_only(&self) -> (r: Vec<(String, String)>)
        ensures
            pairs(r@) == pairs(self.mapping@).filter(|p: (Seq<char>, Seq<char>)| new_message(requests(self.rewrites@), p.0) is Some),
    {
        let ghost all = pairs(self.mapping@);
        let ghost keep = |p: (Seq<char>, Seq<char>)| new_message(requests(self.rewrites@), p.0) is Some;
        let mut out: Vec<(String, String)> = Vec::new();
        let mut i: usize = 0;
        while i < self.mapping.len()
            invariant
                i <= self.mapping@.len(),
                all == pairs(self.mapping@),
                keep == (|p: (Seq<char>, Seq<char>)| new_message(requests(self.rewrites@), p.0) is Some),
                pairs(out@) == all.take(i as int).filter(keep),
            decreases self.mapping.len() - i,
        {
            proof {
                assert(all.take(i + 1) =~= all.take(i as int).push(all[i as int]));
                all.take(i as int).lemma_filter_push(all[i as int], keep);
            }
            let c = chars_of(self.mapping[i].0.as_str());
            if find_message(&self.rewrites, &c).is_some() {
                let ghost before = out@;
                out.push((self.mapping[i].0.clone(), self.mapping[i].1.clone()));
                assert(pairs(out@) =~= pairs(before).push(all[i as int]));
            }
            i = i + 1;
        }
        assert(all.take(self.mapping@.len() as int) =~= all);
        out
    }

    /// The commit asked for by the last step was recreated as `new_id`.
    pub fn commit_created(&mut self, new_id: &str)
        requires
            old(self).well_formed(),
            old(self).position() < old(self).commit_list().len(),
        ensures
            final(self).well_formed(),
            final(self).commit_list() == old(self).commit_list(),
            final(self).requested() == old(self).requested(),
            final(self).position() == old(self).position() + 1,
            final(self).recreated() == old(self).recreated().push((old(self).commit_list()[old(self).position()].0, new_id@)),
    {
        let k = self.next;
        let n = self.commits.len();
        assert(k < n);
        let ghost before = self.mapping@;
        self.mapping.push((self.commits[k].0.clone(), String::from_str(new_id)));
        assert(pairs(self.mapping@) =~= pairs(before).push((self.commits@[k as int].0@, new_id@)));
        self.next = self.next + 1;
    }
}

/// Why commit information could not be read.
#[derive(Debug, Clone, Copy, PartialEq, Eq, Structural)]
pub enum CommitInfoError {
    InvalidFormat,
    InvalidAuthorTime,
    InvalidCommitterTime,
}

impl CommitInfoError {
    pub fn message(&self) -> (s: String)
        ensures
            match *self {
                CommitInfoError::InvalidFormat => s@ == "Invalid commit info format"@,
                CommitInfoError::InvalidAuthorTime => s@ == "Invalid author time"@,
                CommitInfoError::InvalidCommitterTime => s@ == "Invalid committer time"@,
            },
    {
        match self {
            CommitInfoError::InvalidFormat => String::from_str("Invalid commit info format"),
            CommitInfoError::InvalidAuthorTime => String::from_str("Invalid author time"),
            CommitInfoError::InvalidCommitterTime => String::from_str("Invalid committer time"),
        }
    }
}

/// Reads the information of a commit for recreating it.
pub fn get_commit_info(output: &str, commit_id: &str) -> (r: Result<Commit, CommitInfoError>)
    ensures
        ({
            let lines = text::std_lines(output@);
            if lines.len() < 7 {
                r == Err::<Commit, CommitInfoError>(CommitInfoError::InvalidFormat)
            } else if number::parsed_u32(lines[2]) is None {
                r == Err::<Commit, CommitInfoError>(CommitInfoError::InvalidAuthorTime)
            } else if number::parsed_u32(lines[3]) is None {
                r == Err::<Commit, CommitInfoError>(CommitInfoError::InvalidCommitterTime)
            } else {
                r matches Ok(c) && {
                    let message = text::join(lines.skip(6), seq!['\n']);
                    &&& c.id@ == commit_id@
                    &&& c.author_name@ == lines[0]
                    &&& c.author_email@ == lines[1]
                    &&& Some(c.author_timestamp) == number::parsed_u32(lines[2])
                    &&& Some(c.committer_timestamp) == number::parsed_u32(lines[3])
                    &&& c.tree_id@ == lines[4]
                    &&& commit_list::opt_view(c.parent_id) == (if lines[5].len() == 0 { None } else { Some(lines[5]) })
                    &&& c.message@ == message
                    &&& c.subject@ == commit_list::first_line(message)
                    &&& c.stripped_subject@ == commit_list::first_line(message)
                    &&& c.note is None
                    &&& c.mapped_commit_id is None
                }
            }
        }),
{
    let lines = text::std_lines_of(output);
    if lines.len() < 7 {
        return Err(CommitInfoError::InvalidFormat);
    }
    let author_timestamp = match parse_u32(&lines[2]) {
        Some(t) => t,
        None => {
            return Err(CommitInfoError::InvalidAuthorTime);
        },
    };
    let committer_timestamp = match parse_u32(&lines[3]) {
        Some(t) => t,
        None => {
            return Err(CommitInfoError::InvalidCommitterTime);
        },
    };
    let mut rest: Vec<Vec<char>> = Vec::new();
    let mut i: usize = 6;
    while i < lines.len()
        invariant
            6 <= i <= lines@.len(),
            text::views(rest@) == text::views(lines@).subrange(6, i as int),
        decreases lines.len() - i,
    {
        let piece = text::slice_chars(&lines[i], 0, lines[i].len());
        assert(piece@ =~= lines@[i as int]@);
        let ghost before = rest@;
        rest.push(piece);
        assert(text::views(rest@) =~= text::views(before).push(lines@[i as int]@));
        assert(text::views(lines@).subrange(6, i + 1) =~= text::views(lines@).subrange(6, i as int).push(lines@[i as int]@));
        i = i + 1;
    }
    assert(text::views(lines@).subrange(6, lines@.len() as int) =~= text::views(lines@).skip(6));
    let nl = vec!['\n'];
    assert(nl@ =~= seq!['\n']);
    let message = text::join_chars(&rest, &nl);
    let subject = commit_list::first_line_chars(&message);
    let parent_id = if lines[5].len() == 0 {
        None
    } else {
        Some(string_of(&lines[5]))
    };
    Ok(Commit {
        id: String::from_str(commit_id),
        stripped_subject: string_of(&subject),
        message: string_of(&message),
        author_name: string_of(&lines[0]),
        author_email: string_of(&lines[1]),
        author_timestamp,
        committer_timestamp,
        subject: string_of(&subject),
        parent_id,
        tree_id: string_of(&lines[4]),
        note: None,
        mapped_commit_id: None,
    })
}

/// The arguments that point `branch_name` at `new_commit_id`.
pub fn update_branch_ref(branch_name: &str, new_commit_id: &str) -> (args: Vec<String>)
    ensures
        args@.len() == 3,
        args@[0]@ == "update-ref"@,
        args@[1]@ == "refs/heads/"@ + branch_name@,
        args@[2]@ == new_commit_id@,
{
    let mut args: Vec<String> = Vec::new();
    args.push(String::from_str("update-ref"));
    let mut r = chars_of("refs/heads/");
    push_all(&mut r, &chars_of(branch_name));
    args.push(string_of(&r));
    args.push(String::from_str(new_commit_id));
    args
}

/// A `git commit-tree` request: its arguments and environment.
pub struct CommitTreeRequest {
    pub args: Vec<String>,
    pub env: Vec<(String, String)>,
}

/// The request that recreates `commit` with `tree` on `parent_id` (else on
/// the commit's own parent; a root commit when neither) with `message`,
/// keeping its author, and its author as committer, with their times.
pub fn create_commit_with_metadata(tree_id: &str, parent_id: Option<&str>, commit: &Commit, message: &str) -> (r: CommitTreeRequest)
    ensures
        ({
            let parent = match parent_id {
                Some(p) => Some(p@),
                None => commit_list::opt_view(commit.parent_id),
            };
            &&& strs(r.args@) == seq!["commit-tree"@, tree_id@] + (match parent {
                Some(p) => seq!["-p"@, p],
                None => Seq::<Seq<char>>::empty(),
            }) + seq!["-m"@, message@]
            &&& pairs(r.env@) == seq![
                ("GIT_AUTHOR_NAME"@, commit.author_name@),
                ("GIT_AUTHOR_EMAIL"@, commit.author_email@),
                ("GIT_AUTHOR_DATE"@, number::decimal(commit.author_timestamp as nat)),
                ("GIT_COMMITTER_NAME"@, commit.author_name@),
                ("GIT_COMMITTER_EMAIL"@, commit.author_email@),
                ("GIT_COMMITTER_DATE"@, number::decimal(commit.committer_timestamp as nat)),
            ]
        }),
{
    let mut args: Vec<String> = Vec::new();
    args.push(String::from_str("commit-tree"));
    args.push(String::from_str(tree_id));
    let parent: Option<String> = match parent_id {
        Some(p) => Some(String::from_str(p)),
        None => match &commit.parent_id {
            Some(p) => Some(p.clone()),
            None => None,
        },
    };
    match parent {
        Some(p) => {
            args.push(String::from_str("-p"));
            args.push(p);
        },
        None => {},
    }
    args.push(String::from_str("-m"));
    args.push(String::from_str(message));
    let mut env: Vec<(String, String)> = Vec::new();
    env.push((String::from_str("GIT_AUTHOR_NAME"), commit.author_name.clone()));
    env.push((String::from_str("GIT_AUTHOR_EMAIL"), commit.author_email.clone()));
    env.push((String::from_str("GIT_AUTHOR_DATE"), string_of(&format_u64(commit.author_timestamp as u64))));
    env.push((String::from_str("GIT_COMMITTER_NAME"), commit.author_name.clone()));
    env.push((String::from_str("GIT_COMMITTER_EMAIL"), commit.author_email.clone()));
    env.push((String::from_str("GIT_COMMITTER_DATE"), string_of(&format_u64(commit.committer_timestamp as u64))));
    let r = CommitTreeRequest { args, env };
    assert(strs(r.args@) =~= seq!["commit-tree"@, tree_id@] + (match (match parent_id {
        Some(p) => Some(p@),
        None => commit_list::opt_view(commit.parent_id),
    }) {
        Some(p) => seq!["-p"@, p],
        None => Seq::<Seq<char>>::empty(),
    }) + seq!["-m"@, message@]);
    assert(pairs(r.env@) =~= seq![
        ("GIT_AUTHOR_NAME"@, commit.author_name@),
        ("GIT_AUTHOR_EMAIL"@, commit.author_email@),
        ("GIT_AUTHOR_DATE"@, number::decimal(commit.author_timestamp as nat)),
        ("GIT_COMMITTER_NAME"@, commit.author_name@),
        ("GIT_COMMITTER_EMAIL"@, commit.author_email@),
        ("GIT_COMMITTER_DATE"@, number::decimal(commit.committer_timestamp as nat)),
    ]);
    r
}

/// The commits of a range for the prefetch, in order (a later record for
/// the same commit takes precedence when looking one up).
pub fn prefetch_commit_infos_map(output: &str) -> (r: Vec<Commit>)
    ensures
        r@.len() == crate::archive::log_records(output@).len(),
        forall|k: int| 0 <= k < r@.len() ==> commit_list::is_record_commit(#[trigger] r@[k], crate::archive::log_records(output@)[k]),
{
    crate::archive::parse_log_output(output)
}

} // verus!
