//! Grouping commits into virtual branches: by a `(prefix)` at the start of
//! the subject, else by the first issue number (`ABC-123`) in it.

use vstd::prelude::*;
use indexmap::IndexMap;
use crate::commit_list::{self, Commit};
use crate::text::{self, chars_of, slice_chars, string_of, trim_chars};

verus! {

#[verifier::external_type_specification]
#[verifier::external_body]
#[verifier::reject_recursive_types(K)]
#[verifier::reject_recursive_types(V)]
#[verifier::reject_recursive_types(S)]
pub struct ExIndexMap<K, V, S>(IndexMap<K, V, S>);

/// The groups an `IndexMap` of commits holds: each key with its commits, in
/// insertion order of the keys.
pub uninterp spec fn group_entries(m: IndexMap<String, Vec<Commit>>) -> Seq<(Seq<char>, Seq<Commit>)>;

pub open spec fn keys_distinct(e: Seq<(Seq<char>, Seq<Commit>)>) -> bool {
    forall|i: int, j: int| 0 <= i < j < e.len() ==> (#[trigger] e[i]).0 != (#[trigger] e[j]).0
}

/// `IndexMap::new`: an empty map.
#[verifier::external_body]
fn new_groups() -> (m: IndexMap<String, Vec<Commit>>)
    ensures
        group_entries(m) == Seq::<(Seq<char>, Seq<Commit>)>::empty(),
{
    IndexMap::new()
}

/// The position of the group with key `key`, if there is one.
pub open spec fn group_index(e: Seq<(Seq<char>, Seq<Commit>)>, key: Seq<char>) -> Option<int> {
    if exists|i: int| 0 <= i < e.len() && e[i].0 == key {
        Some(choose|i: int| 0 <= i < e.len() && e[i].0 == key)
    } else {
        None
    }
}

/// The groups after `commit` joined the group of `key`: appended to it when
/// it exists, else in a new group at the end.
pub open spec fn add_to_group(e: Seq<(Seq<char>, Seq<Commit>)>, key: Seq<char>, commit: Commit) -> Seq<(Seq<char>, Seq<Commit>)> {
    match group_index(e, key) {
        Some(i) => e.update(i, (key, e[i].1.push(commit))),
        None => e.push((key, seq![commit])),
    }
}

/// `IndexMap::entry(key).or_default().push(commit)`: keys are compared by
/// their text; an absent key is inserted at the end with an empty vector.
#[verifier::external_body]
fn push_to_group(m: &mut IndexMap<String, Vec<Commit>>, key: String, commit: Commit)
    requires
        keys_distinct(group_entries(*old(m))),
    ensures
        group_entries(*final(m)) == add_to_group(group_entries(*old(m)), key@, commit),
{
    m.entry(key).or_default().push(commit);
}

/// How many commits the groups hold together.
pub open spec fn grouped_total(e: Seq<(Seq<char>, Seq<Commit>)>) -> nat
    decreases e.len(),
{
    if e.len() == 0 {
        0
    } else {
        grouped_total(e.drop_last()) + e.last().1.len()
    }
}

proof fn lemma_total_update(e: Seq<(Seq<char>, Seq<Commit>)>, i: int, g: (Seq<char>, Seq<Commit>))
    requires
        0 <= i < e.len(),
    ensures
        grouped_total(e.update(i, g)) == grouped_total(e) - e[i].1.len() + g.1.len(),
    decreases e.len(),
{
    if i == e.len() - 1 {
        assert(e.update(i, g).drop_last() =~= e.drop_last());
    } else {
        lemma_total_update(e.drop_last(), i, g);
        assert(e.update(i, g).drop_last() =~= e.drop_last().update(i, g));
    }
}

/// Adding a commit to a group, existing or new, makes the groups hold one
/// commit more.
pub proof fn lemma_add_to_group_total(e: Seq<(Seq<char>, Seq<Commit>)>, key: Seq<char>, commit: Commit)
    ensures
        grouped_total(add_to_group(e, key, commit)) == grouped_total(e) + 1,
{
    match group_index(e, key) {
        Some(i) => {
            lemma_total_update(e, i, (key, e[i].1.push(commit)));
        },
        None => {
            assert(e.push((key, seq![commit])).drop_last() =~= e);
        },
    }
}

pub proof fn lemma_add_keeps_distinct(e: Seq<(Seq<char>, Seq<Commit>)>, key: Seq<char>, commit: Commit)
    requires
        keys_distinct(e),
    ensures
        keys_distinct(add_to_group(e, key, commit)),
        add_to_group(e, key, commit).len() == e.len() + (if group_index(e, key) is Some { 0int } else { 1int }),
{
    let r = add_to_group(e, key, commit);
    match group_index(e, key) {
        Some(i) => {
            assert forall|a: int, b: int| 0 <= a < b < r.len() implies (#[trigger] r[a]).0 != (#[trigger] r[b]).0 by {
                assert(r[a].0 == e[a].0);
                assert(r[b].0 == e[b].0);
            }
        },
        None => {
            assert forall|a: int, b: int| 0 <= a < b < r.len() implies (#[trigger] r[a]).0 != (#[trigger] r[b]).0 by {
                if b == e.len() {
                    assert(r[a].0 == e[a].0);
                } else {
                    assert(r[a].0 == e[a].0);
                    assert(r[b].0 == e[b].0);
                }
            }
        },
    }
}

/// ---- Issue numbers ----

/// What the regex crate's `Regex::find` gives for the regular expression
/// `pattern` on `text`: the leftmost match and the text after it, or nothing
/// when there is no match or the pattern does not compile.
pub uninterp spec fn regex_first_match(pattern: Seq<char>, text: Seq<char>) -> Option<(Seq<char>, Seq<char>)>;

/// `regex::Regex::new(pattern)` then `Regex::find(text)`: the leftmost match
/// of `pattern` in `text`, as its text and the text that follows it; nothing
/// when the pattern does not compile or does not match. The contract names
/// the result and claims nothing more of the regex engine.
#[verifier::external_body]
fn regex_find(pattern: &str, text: &str) -> (r: Option<(String, String)>)
    ensures
        match r {
            Some((m, rest)) => regex_first_match(pattern@, text@) == Some((m@, rest@)),
            None => regex_first_match(pattern@, text@) is None,
        },
{
    match regex::Regex::new(pattern) {
        Ok(re) => match re.find(text) {
            Some(m) => Some((m.as_str().to_string(), text[m.end()..].to_string())),
            None => None,
        },
        Err(_) => None,
    }
}

/// An issue number: upper-case letters, `-` and decimal digits, between word
/// boundaries (`\d`, `\b` and the word characters as Unicode defines them).
pub open spec fn issue_pattern() -> Seq<char> {
    "\\b([A-Z]+-\\d+)\\b"@
}

fn issue_pattern_str() -> (p: &'static str)
    ensures
        p@ == issue_pattern(),
{
    "\\b([A-Z]+-\\d+)\\b"
}

/// The first issue number in `s`, and the text after it.
pub open spec fn issue_match(s: Seq<char>) -> Option<(Seq<char>, Seq<char>)> {
    regex_first_match(issue_pattern(), s)
}

/// The first issue number in `s`.
pub open spec fn first_issue(s: Seq<char>) -> Option<Seq<char>> {
    match issue_match(s) {
        Some((m, _)) => Some(m),
        None => None,
    }
}

/// The first issue number in `s`, and the text after it.
pub fn find_issue_match(s: &str) -> (r: Option<(String, String)>)
    ensures
        match r {
            Some((m, rest)) => issue_match(s@) == Some((m@, rest@)),
            None => issue_match(s@) is None,
        },
{
    regex_find(issue_pattern_str(), s)
}

/// The first issue number in `s`, if any.
pub fn find_issue(s: &Vec<char>) -> (r: Option<Vec<char>>)
    ensures
        match r {
            Some(v) => first_issue(s@) == Some(v@),
            None => first_issue(s@) is None,
        },
{
    let text = string_of(s);
    match find_issue_match(text.as_str()) {
        Some((m, _)) => Some(chars_of(m.as_str())),
        None => None,
    }
}

/// The position of the `)` that closes a branch prefix on the first line,
/// when the subject starts with `(`: the first `)` after at least one
/// character.
pub open spec fn prefix_close(line: Seq<char>) -> Option<int> {
    if line.len() > 0 && line[0] == '(' && exists|p: int| 2 <= p < line.len() && line[p] == ')' {
        Some(choose|p: int| 2 <= p < line.len() && line[p] == ')' && forall|q: int| 2 <= q < p ==> line[q] != ')')
    } else {
        None
    }
}

/// How a subject assigns its commit to a group.
pub enum Grouping {
    /// By its branch prefix; the rest of the first line, trimmed, becomes the
    /// stripped subject.
    Prefix(Seq<char>, Seq<char>),
    /// By the first issue number of the subject.
    Issue(Seq<char>),
    Unassigned,
}

/// How a subject is grouped when `issue` is its first issue number: by its
/// branch prefix when it has one, else by the issue number, else not at all.
pub open spec fn grouping_given(subject: Seq<char>, issue: Option<Seq<char>>) -> Grouping {
    let line = commit_list::before_newline(subject);
    match prefix_close(line) {
        Some(p) => Grouping::Prefix(text::trim(line.subrange(1, p)), text::trim(line.skip(p + 1))),
        None => match issue {
            Some(i) => Grouping::Issue(i),
            None => Grouping::Unassigned,
        },
    }
}

pub open spec fn grouping(subject: Seq<char>) -> Grouping {
    grouping_given(subject, first_issue(subject))
}

/// The first line of `subject`.
fn before_newline_chars(s: &Vec<char>) -> (r: Vec<char>)
    ensures
        r@ == commit_list::before_newline(s@),
{
    let mut i: usize = 0;
    while i < s.len() && s[i] != '\n'
        invariant
            i <= s@.len(),
            forall|j: int| 0 <= j < i ==> s@[j] != '\n',
        decreases s.len() - i,
    {
        i = i + 1;
    }
    proof {
        commit_list::lemma_before_newline_take(s@, i as int);
    }
    let r = slice_chars(s, 0, i);
    assert(r@ =~= s@.take(i as int));
    r
}

fn prefix_close_exec(line: &Vec<char>) -> (r: Option<usize>)
    ensures
        match r {
            Some(p) => prefix_close(line@) == Some(p as int) && 2 <= p < line@.len(),
            None => prefix_close(line@) is None,
        },
{
    if line.len() == 0 || line[0] != '(' {
        return None;
    }
    let mut p: usize = 2;
    while p < line.len()
        invariant
            2 <= p,
            line@.len() > 0 && line@[0] == '(',
            forall|q: int| 2 <= q < p && q < line@.len() ==> line@[q] != ')',
        decreases line.len() - p,
    {
        if line[p] == ')' {
            let ghost c = choose|c: int| 2 <= c < line@.len() && line@[c] == ')' && forall|q: int| 2 <= q < c ==> line@[q] != ')';
            assert(2 <= p < line@.len() && line@[p as int] == ')' && forall|q: int| 2 <= q < p ==> line@[q] != ')');
            assert(c == p) by {
                if c < p {
                    assert(line@[c] != ')');
                } else if c > p {
                    assert(line@[p as int] != ')');
                }
            }
            return Some(p);
        }
        p = p + 1;
    }
    None
}

/// The group of a commit, decided from its subject.
pub enum GroupKey {
    Prefix { prefix: Vec<char>, stripped: Vec<char> },
    Issue { issue: Vec<char> },
    Unassigned,
}

pub open spec fn key_matches(k: GroupKey, g: Grouping) -> bool {
    match (k, g) {
        (GroupKey::Prefix { prefix, stripped }, Grouping::Prefix(p, s)) => prefix@ == p && stripped@ == s,
        (GroupKey::Issue { issue }, Grouping::Issue(i)) => issue@ == i,
        (GroupKey::Unassigned, Grouping::Unassigned) => true,
        _ => false,
    }
}

/// Decides the group of a subject.
pub fn classify_subject(subject: &str) -> (k: GroupKey)
    ensures
        key_matches(k, grouping(subject@)),
{
    let s = chars_of(subject);
    let line = before_newline_chars(&s);
    let issue = match prefix_close_exec(&line) {
        Some(_) => None,
        None => match find_issue(&s) {
            Some(i) => Some(string_of(&i)),
            None => None,
        },
    };
    grouping_with_issue(subject, issue)
}

/// The group key of a subject, given its first issue number (what the
/// issue pattern found in it, if anything): its branch prefix when it has
/// one, else that issue number, else none.
pub fn grouping_with_issue(subject: &str, issue: Option<String>) -> (k: GroupKey)
    ensures
        key_matches(k, grouping_given(subject@, commit_list::opt_view(issue))),
{
    let s = chars_of(subject);
    let line = before_newline_chars(&s);
    match prefix_close_exec(&line) {
        Some(p) => {
            let inner = slice_chars(&line, 1, p);
            let rest = slice_chars(&line, p + 1, line.len());
            assert(rest@ =~= line@.skip(p + 1));
            GroupKey::Prefix { prefix: trim_chars(&inner), stripped: trim_chars(&rest) }
        },
        None => match issue {
            Some(i) => GroupKey::Issue { issue: chars_of(i.as_str()) },
            None => GroupKey::Unassigned,
        },
    }
}

/// The key of the group a commit joins: its branch prefix, else its first
/// issue number; none when it stays unassigned.
pub open spec fn key_of(c: Commit) -> Option<Seq<char>> {
    match grouping(c.subject@) {
        Grouping::Prefix(p, _) => Some(p),
        Grouping::Issue(i) => Some(i),
        Grouping::Unassigned => None,
    }
}

pub open spec fn has_key(k: Seq<char>) -> spec_fn(Commit) -> bool {
    |c: Commit| key_of(c) == Some(k)
}

pub open spec fn no_key() -> spec_fn(Commit) -> bool {
    |c: Commit| key_of(c) is None
}

/// The ids of commits, in order.
pub open spec fn ids_of(cs: Seq<Commit>) -> Seq<Seq<char>> {
    cs.map_values(|c: Commit| c.id@)
}

/// The keys of groups, in order.
pub open spec fn keys_of(e: Seq<(Seq<char>, Seq<Commit>)>) -> Seq<Seq<char>> {
    e.map_values(|g: (Seq<char>, Seq<Commit>)| g.0)
}

/// The distinct group keys of the commits, in the order they first appear.
pub open spec fn first_seen(cs: Seq<Commit>) -> Seq<Seq<char>>
    decreases cs.len(),
{
    if cs.len() == 0 {
        Seq::empty()
    } else {
        let prev = first_seen(cs.drop_last());
        match key_of(cs.last()) {
            Some(k) => if prev.contains(k) {
                prev
            } else {
                prev.push(k)
            },
            None => prev,
        }
    }
}

/// Groups and unassigned commits as adding `history` in order makes them:
/// the keys in first-seen order, each group the commits of its key in order,
/// the unassigned commits those of no key in order.
pub open spec fn groups_follow(e: Seq<(Seq<char>, Seq<Commit>)>, u: Seq<Commit>, history: Seq<Commit>) -> bool {
    &&& keys_of(e) == first_seen(history)
    &&& forall|i: int| 0 <= i < e.len() ==> ids_of(#[trigger] e[i].1) == ids_of(history.filter(has_key(e[i].0)))
    &&& ids_of(u) == ids_of(history.filter(no_key()))
}

proof fn lemma_filter_push(s: Seq<Commit>, x: Commit, p: spec_fn(Commit) -> bool)
    ensures
        s.push(x).filter(p) == (if p(x) { s.filter(p).push(x) } else { s.filter(p) }),
{
    reveal_with_fuel(Seq::filter, 1);
    assert(s.push(x).drop_last() =~= s);
}

proof fn lemma_ids_push(s: Seq<Commit>, c: Commit)
    ensures
        ids_of(s.push(c)) == ids_of(s).push(c.id@),
{
    assert(ids_of(s.push(c)) =~= ids_of(s).push(c.id@));
}

/// A key that no commit has yet selects none of them.
proof fn lemma_absent_key(s: Seq<Commit>, k: Seq<char>)
    requires
        !first_seen(s).contains(k),
    ensures
        s.filter(has_key(k)) == Seq::<Commit>::empty(),
        forall|j: int| 0 <= j < s.len() ==> key_of(#[trigger] s[j]) != Some(k),
    decreases s.len(),
{
    if s.len() > 0 {
        let t = s.drop_last();
        assert(t.push(s.last()) =~= s);
        let prev = first_seen(t);
        if prev.contains(k) {
            let w = choose|w: int| 0 <= w < prev.len() && prev[w] == k;
            match key_of(s.last()) {
                Some(k2) => {
                    if !prev.contains(k2) {
                        assert(prev.push(k2)[w] == k);
                    }
                },
                None => {},
            }
        }
        if key_of(s.last()) == Some(k) {
            assert(first_seen(s).last() == k || prev.contains(k));
        }
        lemma_absent_key(t, k);
        lemma_filter_push(t, s.last(), has_key(k));
        assert forall|j: int| 0 <= j < s.len() implies key_of(#[trigger] s[j]) != Some(k) by {
            if j < t.len() {
                assert(s[j] == t[j]);
            }
        }
    }
}

/// The group of `key` exists exactly when `key` is among the group keys.
proof fn lemma_group_index_keys(e: Seq<(Seq<char>, Seq<Commit>)>, key: Seq<char>)
    ensures
        group_index(e, key) is Some <==> keys_of(e).contains(key),
        group_index(e, key) matches Some(i) ==> 0 <= i < e.len() && e[i].0 == key,
{
    if keys_of(e).contains(key) {
        let w = choose|w: int| 0 <= w < keys_of(e).len() && keys_of(e)[w] == key;
        assert(e[w].0 == key);
    }
    if group_index(e, key) is Some {
        let i = group_index(e, key)->0;
        assert(keys_of(e)[i] == key);
    }
}

/// A commit with no key leaves the groups as they are and joins the
/// unassigned commits.
proof fn lemma_follow_unassigned(e: Seq<(Seq<char>, Seq<Commit>)>, u: Seq<Commit>, h: Seq<Commit>, c: Commit)
    requires
        groups_follow(e, u, h),
        key_of(c) is None,
    ensures
        groups_follow(e, u.push(c), h.push(c)),
{
    assert(h.push(c).drop_last() =~= h);
    lemma_filter_push(h, c, no_key());
    lemma_ids_push(u, c);
    lemma_ids_push(h.filter(no_key()), c);
    assert forall|i: int| 0 <= i < e.len() implies ids_of(#[trigger] e[i].1) == ids_of(h.push(c).filter(has_key(e[i].0))) by {
        lemma_filter_push(h, c, has_key(e[i].0));
    }
}

/// A commit with a key joins the group of that key, a new one at the end
/// when the key is new.
proof fn lemma_follow_add(e: Seq<(Seq<char>, Seq<Commit>)>, u: Seq<Commit>, h: Seq<Commit>, c: Commit, stored: Commit)
    requires
        groups_follow(e, u, h),
        keys_distinct(e),
        key_of(c) is Some,
        stored.id == c.id,
    ensures
        groups_follow(add_to_group(e, key_of(c)->0, stored), u, h.push(c)),
{
    let k = key_of(c)->0;
    let h2 = h.push(c);
    let r = add_to_group(e, k, stored);
    assert(h2.drop_last() =~= h);
    assert(h2.last() == c);
    lemma_filter_push(h, c, no_key());
    lemma_filter_push(h, c, has_key(k));
    lemma_group_index_keys(e, k);
    lemma_ids_push(h.filter(has_key(k)), c);
    match group_index(e, k) {
        Some(i) => {
            assert(keys_of(r) =~= keys_of(e));
            lemma_ids_push(e[i].1, stored);
            assert forall|j: int| 0 <= j < r.len() implies ids_of(#[trigger] r[j].1) == ids_of(h2.filter(has_key(r[j].0))) by {
                lemma_filter_push(h, c, has_key(r[j].0));
                if j != i {
                    assert(e[j].0 != e[i].0);
                    assert(r[j] == e[j]);
                }
            }
        },
        None => {
            assert(keys_of(r) =~= keys_of(e).push(k));
            lemma_absent_key(h, k);
            assert(ids_of(seq![stored]) =~= ids_of(Seq::<Commit>::empty().push(c)));
            assert forall|j: int| 0 <= j < r.len() implies ids_of(#[trigger] r[j].1) == ids_of(h2.filter(has_key(r[j].0))) by {
                lemma_filter_push(h, c, has_key(r[j].0));
                if j < e.len() {
                    assert(r[j] == e[j]);
                    assert(keys_of(e)[j] == e[j].0);
                    assert(e[j].0 != k);
                } else {
                    assert(Seq::<Commit>::empty().push(c) =~= h.filter(has_key(k)).push(c));
                }
            }
        },
    }
}

/// Every commit with a key has a group of that key.
proof fn lemma_keys_seen(s: Seq<Commit>, j: int)
    requires
        0 <= j < s.len(),
        key_of(s[j]) is Some,
    ensures
        first_seen(s).contains(key_of(s[j])->0),
{
    if !first_seen(s).contains(key_of(s[j])->0) {
        lemma_absent_key(s, key_of(s[j])->0);
    }
}

/// Collects commits into groups as they arrive, in order.
pub struct CommitGrouper {
    prefix_to_commits: IndexMap<String, Vec<Commit>>,
    unassigned_commits: Vec<Commit>,
    /// The first commit added.
    pub oldest_commit: Option<Commit>,
    /// How many commits were added.
    pub commit_count: usize,
    /// The commits added, in order.
    added: Ghost<Seq<Commit>>,
}

impl CommitGrouper {
    /// The groups so far.
    pub closed spec fn groups(&self) -> Seq<(Seq<char>, Seq<Commit>)> {
        group_entries(self.prefix_to_commits)
    }

    /// The commits with no group so far.
    pub closed spec fn unassigned(&self) -> Seq<Commit> {
        self.unassigned_commits@
    }

    /// The commits added so far, in order.
    pub closed spec fn history(&self) -> Seq<Commit> {
        self.added@
    }

    pub closed spec fn well_formed(&self) -> bool {
        &&& keys_distinct(group_entries(self.prefix_to_commits))
        &&& grouped_total(group_entries(self.prefix_to_commits)) + self.unassigned_commits@.len() == self.commit_count
        &&& self.added@.len() == self.commit_count
        &&& groups_follow(group_entries(self.prefix_to_commits), self.unassigned_commits@, self.added@)
        &&& (self.oldest_commit is None <==> self.added@.len() == 0)
        &&& (self.oldest_commit matches Some(o) ==> same_commit(o, self.added@[0]))
    }

    /// The first commit added, if any.
    pub closed spec fn oldest(&self) -> Option<Commit> {
        self.oldest_commit
    }

    /// How many commits were added.
    pub closed spec fn count(&self) -> nat {
        self.commit_count as nat
    }

    pub fn new() -> (g: Self)
        ensures
            g.well_formed(),
            g.groups() == Seq::<(Seq<char>, Seq<Commit>)>::empty(),
            g.unassigned() == Seq::<Commit>::empty(),
            g.oldest() is None,
            g.count() == 0,
            g.history() == Seq::<Commit>::empty(),
    {
        let g = CommitGrouper {
            prefix_to_commits: new_groups(),
            unassigned_commits: Vec::new(),
            oldest_commit: None,
            commit_count: 0,
            added: Ghost(Seq::empty()),
        };
        assert(ids_of(Seq::<Commit>::empty()) =~= ids_of(Seq::<Commit>::empty().filter(no_key())));
        assert(keys_of(Seq::<(Seq<char>, Seq<Commit>)>::empty()) =~= first_seen(Seq::<Commit>::empty()));
        g
    }

    /// Adds a commit: to the group of its branch prefix (with the prefix
    /// stripped from its subject), else to the group of its first issue
    /// number, else to the unassigned commits.
    pub fn add_commit(&mut self, commit: Commit)
        requires
            old(self).well_formed(),
            old(self).count() < usize::MAX,
        ensures
            final(self).well_formed(),
            final(self).count() == old(self).count() + 1,
            final(self).history() == old(self).history().push(commit),
            old(self).oldest() is Some ==> final(self).oldest() == old(self).oldest(),
            old(self).oldest() is None ==> (final(self).oldest() matches Some(o) && same_commit(o, commit)),
            match grouping(commit.subject@) {
                Grouping::Prefix(p, s) => exists|t: String|
                    #![trigger with_stripped(commit, t)]
                    t@ == s && final(self).groups() == add_to_group(old(self).groups(), p, with_stripped(commit, t))
                        && final(self).unassigned() == old(self).unassigned(),
                Grouping::Issue(i) => final(self).groups() == add_to_group(old(self).groups(), i, commit)
                    && final(self).unassigned() == old(self).unassigned(),
                Grouping::Unassigned => final(self).groups() == old(self).groups()
                    && final(self).unassigned() == old(self).unassigned().push(commit),
            },
    {
        let ghost before = self.added@;
        let ghost e0 = group_entries(self.prefix_to_commits);
        let ghost u0 = self.unassigned_commits@;
        if self.oldest_commit.is_none() {
            self.oldest_commit = Some(copy_commit(&commit));
        }
        self.commit_count = self.commit_count + 1;
        self.added = Ghost(before.push(commit));
        assert(before.push(commit)[0] == (if before.len() == 0 { commit } else { before[0] }));
        let key = classify_subject(commit.subject.as_str());
        proof {
            lemma_add_keeps_distinct(group_entries(self.prefix_to_commits), Seq::empty(), commit);
        }
        match key {
            GroupKey::Prefix { prefix, stripped } => {
                let ghost orig = commit;
                let mut commit = commit;
                let t = string_of(&stripped);
                commit.stripped_subject = t;
                assert(commit == with_stripped(orig, t));
                proof {
                    lemma_add_keeps_distinct(group_entries(self.prefix_to_commits), prefix@, commit);
                    lemma_add_to_group_total(group_entries(self.prefix_to_commits), prefix@, commit);
                    lemma_follow_add(e0, u0, before, orig, commit);
                }
                push_to_group(&mut self.prefix_to_commits, string_of(&prefix), commit);
            },
            GroupKey::Issue { issue } => {
                proof {
                    lemma_add_keeps_distinct(group_entries(self.prefix_to_commits), issue@, commit);
                    lemma_add_to_group_total(group_entries(self.prefix_to_commits), issue@, commit);
                    lemma_follow_add(e0, u0, before, commit, commit);
                }
                push_to_group(&mut self.prefix_to_commits, string_of(&issue), commit);
            },
            GroupKey::Unassigned => {
                proof {
                    lemma_follow_unassigned(e0, u0, before, commit);
                }
                self.unassigned_commits.push(commit);
            },
        }
    }

    /// Every commit added is held once: in one group or among the
    /// unassigned commits.
    pub proof fn lemma_every_commit_accounted(&self)
        requires
            self.well_formed(),
        ensures
            grouped_total(self.groups()) + self.unassigned().len() == self.count(),
            keys_distinct(self.groups()),
    {
    }

    /// Grouping keeps every commit added, once and in order: the group keys
    /// are the distinct keys of the commits in the order they first appear,
    /// each group holds the commits of its key in the order they were added,
    /// the unassigned commits are those with no key in that order, and every
    /// commit with a key has its group. The oldest commit is the first added.
    pub proof fn lemma_grouping_law(&self)
        requires
            self.well_formed(),
        ensures
            self.history().len() == self.count(),
            keys_of(self.groups()) == first_seen(self.history()),
            forall|i: int| 0 <= i < self.groups().len() ==> ids_of(#[trigger] self.groups()[i].1) == ids_of(
                self.history().filter(has_key(self.groups()[i].0)),
            ),
            ids_of(self.unassigned()) == ids_of(self.history().filter(no_key())),
            forall|j: int| 0 <= j < self.history().len() && key_of(#[trigger] self.history()[j]) is Some
                ==> keys_of(self.groups()).contains(key_of(self.history()[j])->0),
            self.history().len() > 0 <==> self.oldest() is Some,
            self.oldest() matches Some(o) ==> same_commit(o, self.history()[0]),
    {
        assert forall|j: int| 0 <= j < self.history().len() && key_of(#[trigger] self.history()[j]) is Some
            implies keys_of(self.groups()).contains(key_of(self.history()[j])->0) by {
            lemma_keys_seen(self.history(), j);
        }
    }

    /// The groups, by first appearance of their key, and the unassigned
    /// commits.
    pub fn finish(self) -> (r: (IndexMap<String, Vec<Commit>>, Vec<Commit>))
        ensures
            group_entries(r.0) == self.groups(),
            r.1@ == self.unassigned(),
    {
        (self.prefix_to_commits, self.unassigned_commits)
    }
}

/// `c` with `s` as its stripped subject.
pub open spec fn with_stripped(c: Commit, s: String) -> Commit {
    Commit { stripped_subject: s, ..c }
}

/// `a` and `b` hold the same commit data.
pub open spec fn same_commit(a: Commit, b: Commit) -> bool {
    &&& a.id@ == b.id@
    &&& a.stripped_subject@ == b.stripped_subject@
    &&& a.message@ == b.message@
    &&& a.author_name@ == b.author_name@
    &&& a.author_email@ == b.author_email@
    &&& a.author_timestamp == b.author_timestamp
    &&& a.committer_timestamp == b.committer_timestamp
    &&& a.subject@ == b.subject@
    &&& commit_list::opt_view(a.parent_id) == commit_list::opt_view(b.parent_id)
    &&& a.tree_id@ == b.tree_id@
    &&& commit_list::opt_view(a.note) == commit_list::opt_view(b.note)
    &&& commit_list::opt_view(a.mapped_commit_id) == commit_list::opt_view(b.mapped_commit_id)
}

fn copy_opt(o: &Option<String>) -> (r: Option<String>)
    ensures
        commit_list::opt_view(r) == commit_list::opt_view(*o),
{
    match o {
        Some(s) => Some(s.clone()),
        None => None,
    }
}

/// A copy of a commit.
pub fn copy_commit(c: &Commit) -> (r: Commit)
    ensures
        same_commit(r, *c),
{
    Commit {
        id: c.id.clone(),
        stripped_subject: c.stripped_subject.clone(),
        message: c.message.clone(),
        author_name: c.author_name.clone(),
        author_email: c.author_email.clone(),
        author_timestamp: c.author_timestamp,
        committer_timestamp: c.committer_timestamp,
        subject: c.subject.clone(),
        parent_id: copy_opt(&c.parent_id),
        tree_id: c.tree_id.clone(),
        note: copy_opt(&c.note),
        mapped_commit_id: copy_opt(&c.mapped_commit_id),
    }
}

} // verus!
