//! Character-level text toolkit: every string operation of the library is
//! carried out on `Vec<char>` working copies whose views are the `Seq<char>`
//! of the strings involved.

use vstd::prelude::*;

verus! {

/// The Unicode `White_Space` property, which is what `char::is_whitespace` tests.
pub open spec fn is_ws(c: char) -> bool {
    ||| ('\u{9}' <= c && c <= '\u{d}')
    ||| c == ' '
    ||| c == '\u{85}'
    ||| c == '\u{a0}'
    ||| c == '\u{1680}'
    ||| ('\u{2000}' <= c && c <= '\u{200a}')
    ||| c == '\u{2028}'
    ||| c == '\u{2029}'
    ||| c == '\u{202f}'
    ||| c == '\u{205f}'
    ||| c == '\u{3000}'
}

/// Whether `c` is a Unicode whitespace character.
pub fn char_is_whitespace(c: char) -> (b: bool)
    ensures
        b == is_ws(c),
{
    ('\u{9}' <= c && c <= '\u{d}') || c == ' ' || c == '\u{85}' || c == '\u{a0}' || c == '\u{1680}'
        || ('\u{2000}' <= c && c <= '\u{200a}') || c == '\u{2028}' || c == '\u{2029}' || c
        == '\u{202f}' || c == '\u{205f}' || c == '\u{3000}'
}

/// A class of characters to strip from the ends of a text.
pub enum CharClass {
    Whitespace,
    AnyOf(Vec<char>),
}

impl CharClass {
    pub open spec fn has(&self, c: char) -> bool {
        match self {
            CharClass::Whitespace => is_ws(c),
            CharClass::AnyOf(set) => set@.contains(c),
        }
    }

    pub open spec fn pred(&self) -> spec_fn(char) -> bool {
        |c: char| self.has(c)
    }

    pub fn matches(&self, c: char) -> (b: bool)
        ensures
            b == self.has(c),
            b == (self.pred())(c),
    {
        match self {
            CharClass::Whitespace => char_is_whitespace(c),
            CharClass::AnyOf(set) => contains_char(set, c),
        }
    }
}

/// Whether `c` occurs in `set`.
pub fn contains_char(set: &[char], c: char) -> (b: bool)
    ensures
        b == set@.contains(c),
{
    let mut i: usize = 0;
    while i < set.len()
        invariant
            i <= set@.len(),
            forall|j: int| 0 <= j < i ==> set@[j] != c,
        decreases set.len() - i,
    {
        if set[i] == c {
            assert(set@[i as int] == c);
            return true;
        }
        i = i + 1;
    }
    false
}

/// `s` without its leading characters that satisfy `p`.
pub open spec fn lstrip(s: Seq<char>, p: spec_fn(char) -> bool) -> Seq<char>
    decreases s.len(),
{
    if s.len() > 0 && p(s[0]) {
        lstrip(s.drop_first(), p)
    } else {
        s
    }
}

/// `s` without its trailing characters that satisfy `p`.
pub open spec fn rstrip(s: Seq<char>, p: spec_fn(char) -> bool) -> Seq<char>
    decreases s.len(),
{
    if s.len() > 0 && p(s.last()) {
        rstrip(s.drop_last(), p)
    } else {
        s
    }
}

/// `s` without the characters that satisfy `p` at either end (Rust's `trim_matches`).
pub open spec fn strip(s: Seq<char>, p: spec_fn(char) -> bool) -> Seq<char> {
    rstrip(lstrip(s, p), p)
}

/// Rust's `str::trim`.
pub open spec fn trim(s: Seq<char>) -> Seq<char> {
    strip(s, |c: char| is_ws(c))
}

pub proof fn lemma_lstrip_skip(s: Seq<char>, p: spec_fn(char) -> bool, k: int)
    requires
        0 <= k <= s.len(),
        forall|j: int| 0 <= j < k ==> p(s[j]),
        k == s.len() || !p(s[k]),
    ensures
        lstrip(s, p) == s.skip(k),
    decreases k,
{
    if k == 0 {
        assert(s.skip(0) =~= s);
    } else {
        assert(p(s[0]));
        let t = s.drop_first();
        assert forall|j: int| 0 <= j < k - 1 implies p(t[j]) by {
            assert(t[j] == s[j + 1]);
        }
        if k - 1 < t.len() {
            assert(t[k - 1] == s[k]);
        }
        lemma_lstrip_skip(t, p, k - 1);
        assert(t.skip(k - 1) =~= s.skip(k));
    }
}

pub proof fn lemma_rstrip_take(s: Seq<char>, p: spec_fn(char) -> bool, k: int)
    requires
        0 <= k <= s.len(),
        forall|j: int| k <= j < s.len() ==> p(s[j]),
        k == 0 || !p(s[k - 1]),
    ensures
        rstrip(s, p) == s.take(k),
    decreases s.len() - k,
{
    if k == s.len() {
        assert(s.take(k) =~= s);
    } else {
        assert(p(s.last()));
        let t = s.drop_last();
        assert forall|j: int| k <= j < t.len() implies p(t[j]) by {
            assert(t[j] == s[j]);
        }
        if k > 0 {
            assert(t[k - 1] == s[k - 1]);
        }
        lemma_rstrip_take(t, p, k);
        assert(t.take(k) =~= s.take(k));
    }
}

/// Number of leading characters of `v` in `class`.
pub fn lstrip_count(v: &[char], class: &CharClass) -> (k: usize)
    ensures
        k <= v@.len(),
        lstrip(v@, class.pred()) == v@.skip(k as int),
        forall|j: int| 0 <= j < k ==> (class.pred())(v@[j]),
        k == v@.len() || !(class.pred())(v@[k as int]),
{
    let mut i: usize = 0;
    let mut done = false;
    while !done && i < v.len()
        invariant
            i <= v@.len(),
            forall|j: int| 0 <= j < i ==> (class.pred())(v@[j]),
            done ==> i < v@.len() && !(class.pred())(v@[i as int]),
        decreases v.len() - i + if done { 0int } else { 1int },
    {
        if class.matches(v[i]) {
            i = i + 1;
        } else {
            done = true;
        }
    }
    proof {
        lemma_lstrip_skip(v@, class.pred(), i as int);
    }
    i
}

/// Length of `v` once its trailing characters in `class` are removed.
pub fn rstrip_len(v: &[char], class: &CharClass) -> (k: usize)
    ensures
        k <= v@.len(),
        rstrip(v@, class.pred()) == v@.take(k as int),
        forall|j: int| k <= j < v@.len() ==> (class.pred())(v@[j]),
        k == 0 || !(class.pred())(v@[k - 1]),
{
    let mut i: usize = v.len();
    let mut done = false;
    while !done && i > 0
        invariant
            i <= v@.len(),
            forall|j: int| i <= j < v@.len() ==> (class.pred())(v@[j]),
            done ==> i > 0 && !(class.pred())(v@[i - 1]),
        decreases i + if done { 0int } else { 1int },
    {
        if class.matches(v[i - 1]) {
            i = i - 1;
        } else {
            done = true;
        }
    }
    proof {
        lemma_rstrip_take(v@, class.pred(), i as int);
    }
    i
}

/// Copy of `v[from..to]`.
pub fn slice_chars(v: &[char], from: usize, to: usize) -> (r: Vec<char>)
    requires
        from <= to <= v@.len(),
    ensures
        r@ == v@.subrange(from as int, to as int),
{
    let mut r: Vec<char> = Vec::new();
    let mut i: usize = from;
    while i < to
        invariant
            from <= i <= to <= v@.len(),
            r@ == v@.subrange(from as int, i as int),
        decreases to - i,
    {
        r.push(v[i]);
        assert(v@.subrange(from as int, i + 1) =~= v@.subrange(from as int, i as int).push(v@[i as int]));
        i = i + 1;
    }
    r
}

/// `v` with the characters of `class` removed from both ends.
pub fn strip_chars(v: &[char], class: &CharClass) -> (r: Vec<char>)
    ensures
        r@ == strip(v@, class.pred()),
{
    let a = lstrip_count(v, class);
    let rest = slice_chars(v, a, v.len());
    assert(rest@ == v@.skip(a as int));
    let b = rstrip_len(&rest, class);
    slice_chars(&rest, 0, b)
}

/// Rust's `trim` on a character sequence.
pub fn trim_chars(v: &[char]) -> (r: Vec<char>)
    ensures
        r@ == trim(v@),
{
    let r = strip_chars(v, &CharClass::Whitespace);
    assert(CharClass::Whitespace.pred() =~= (|c: char| is_ws(c)));
    r
}

/// The characters of a string slice (`str::chars` collected into a vector).
pub fn chars_of(s: &str) -> (v: Vec<char>)
    ensures
        v@ == s@,
{
    broadcast use vstd::string::axiom_spec_iter;
    let mut v: Vec<char> = Vec::new();
    for c in it: s.chars()
        invariant
            it.seq() == s@,
            v@ == it.seq().take(it.index() as int),
    {
        assert(it.seq().take(it.index() + 1) =~= it.seq().take(it.index() as int).push(c));
        v.push(c);
    }
    assert(s@.take(s@.len() as int) =~= s@);
    v
}

/// Appends one character to a string (`String::push`).
#[verifier::external_body]
pub fn push_char(s: &mut String, c: char)
    ensures
        final(s)@ == old(s)@.push(c),
{
    s.push(c);
}

/// The string made of the characters `v`.
pub fn string_of(v: &[char]) -> (s: String)
    ensures
        s@ == v@,
{
    let mut s = String::new();
    let mut i: usize = 0;
    while i < v.len()
        invariant
            i <= v@.len(),
            s@ == v@.take(i as int),
        decreases v.len() - i,
    {
        push_char(&mut s, v[i]);
        assert(v@.take(i + 1) =~= v@.take(i as int).push(v@[i as int]));
        i = i + 1;
    }
    assert(v@.take(v@.len() as int) =~= v@);
    s
}

} // verus!

verus! {

/// Appends all of `w` to `v`.
pub fn push_all(v: &mut Vec<char>, w: &[char])
    ensures
        final(v)@ == old(v)@ + w@,
{
    let ghost v0 = v@;
    let mut i: usize = 0;
    while i < w.len()
        invariant
            i <= w@.len(),
            v@ == v0 + w@.take(i as int),
        decreases w.len() - i,
    {
        v.push(w[i]);
        assert(w@.take(i + 1) =~= w@.take(i as int).push(w@[i as int]));
        i = i + 1;
    }
    assert(w@.take(w@.len() as int) =~= w@);
}

/// `p` is a prefix of `s`.
pub open spec fn has_prefix(s: Seq<char>, p: Seq<char>) -> bool {
    p.len() <= s.len() && s.take(p.len() as int) == p
}

/// Rust's `starts_with` on character sequences.
pub fn starts_with(v: &[char], p: &[char]) -> (b: bool)
    ensures
        b == has_prefix(v@, p@),
{
    if p.len() > v.len() {
        return false;
    }
    let mut i: usize = 0;
    while i < p.len()
        invariant
            p@.len() <= v@.len(),
            i <= p@.len(),
            forall|j: int| 0 <= j < i ==> v@[j] == p@[j],
        decreases p.len() - i,
    {
        if v[i] != p[i] {
            assert(v@.take(p@.len() as int)[i as int] != p@[i as int]);
            return false;
        }
        i = i + 1;
    }
    assert(v@.take(p@.len() as int) =~= p@);
    true
}

/// Equality of two character sequences.
pub fn chars_eq(a: &[char], b: &[char]) -> (r: bool)
    ensures
        r == (a@ == b@),
{
    if a.len() != b.len() {
        return false;
    }
    let r = starts_with(a, b);
    proof {
        assert(a@.take(b@.len() as int) =~= a@);
    }
    r
}

} // verus!

verus! {

/// `p` occurs in `s` at character index `i`.
pub open spec fn occurs_at(s: Seq<char>, p: Seq<char>, i: int) -> bool {
    0 <= i && i + p.len() <= s.len() && s.subrange(i, i + p.len()) == p
}

/// `p` occurs somewhere in `s` (Rust's `contains` with a string pattern).
pub open spec fn contains_seq(s: Seq<char>, p: Seq<char>) -> bool {
    exists|i: int| occurs_at(s, p, i)
}

/// The first index at which `p` occurs in `s` (Rust's `find`).
#[verifier::opaque]
pub open spec fn first_occurrence(s: Seq<char>, p: Seq<char>) -> Option<int> {
    if contains_seq(s, p) {
        Some(choose|i: int| occurs_at(s, p, i) && forall|j: int| 0 <= j < i ==> !occurs_at(s, p, j))
    } else {
        None
    }
}

/// The last index at which `p` occurs in `s` (Rust's `rfind`).
#[verifier::opaque]
pub open spec fn last_occurrence(s: Seq<char>, p: Seq<char>) -> Option<int> {
    if contains_seq(s, p) {
        Some(choose|i: int| occurs_at(s, p, i) && forall|j: int| i < j ==> !occurs_at(s, p, j))
    } else {
        None
    }
}

fn occurs_at_exec(v: &[char], p: &[char], i: usize) -> (b: bool)
    requires
        i <= v@.len(),
    ensures
        b == occurs_at(v@, p@, i as int),
{
    let n = v.len();
    if p.len() > n - i {
        return false;
    }
    let mut k: usize = 0;
    while k < p.len()
        invariant
            n == v@.len(),
            i + p@.len() <= v@.len(),
            k <= p@.len(),
            forall|j: int| 0 <= j < k ==> v@[i + j] == p@[j],
        decreases p.len() - k,
    {
        assert(i + k < v@.len());
        if v[i + k] != p[k] {
            assert(v@.subrange(i as int, i + p@.len())[k as int] != p@[k as int]);
            return false;
        }
        k = k + 1;
    }
    assert(v@.subrange(i as int, i + p@.len()) =~= p@);
    true
}

/// Rust's `find` on character sequences: the first index where `p` occurs.
pub fn find_seq(v: &[char], p: &[char]) -> (r: Option<usize>)
    ensures
        r matches Some(i) ==> occurs_at(v@, p@, i as int),
        r matches Some(i) ==> first_occurrence(v@, p@) == Some(i as int),
        r is None ==> first_occurrence(v@, p@) is None,
{
    let mut i: usize = 0;
    let mut searching = true;
    while searching
        invariant
            i <= v@.len(),
            forall|j: int| 0 <= j < i ==> !occurs_at(v@, p@, j),
            !searching ==> i == v@.len() && !occurs_at(v@, p@, i as int),
        decreases v.len() - i + if searching { 1int } else { 0int },
    {
        if occurs_at_exec(v, p, i) {
            proof {
                lemma_first_occurrence_is(v@, p@, i as int);
            }
            return Some(i);
        }
        if i == v.len() {
            searching = false;
        } else {
            i = i + 1;
        }
    }
    assert forall|j: int| !occurs_at(v@, p@, j) by {
        if 0 <= j && j < i {
        }
    }
    reveal(first_occurrence);
    None
}

pub proof fn lemma_first_occurrence_is(s: Seq<char>, p: Seq<char>, i: int)
    requires
        occurs_at(s, p, i),
        forall|j: int| 0 <= j < i ==> !occurs_at(s, p, j),
    ensures
        first_occurrence(s, p) == Some(i),
{
    reveal(first_occurrence);
    let c = choose|k: int| occurs_at(s, p, k) && forall|j: int| 0 <= j < k ==> !occurs_at(s, p, j);
    assert(occurs_at(s, p, c) && forall|j: int| 0 <= j < c ==> !occurs_at(s, p, j));
    if c < i {
        assert(!occurs_at(s, p, c));
    } else if c > i {
        assert(!occurs_at(s, p, i));
    }
}

pub proof fn lemma_last_occurrence_is(s: Seq<char>, p: Seq<char>, i: int)
    requires
        occurs_at(s, p, i),
        forall|j: int| i < j ==> !occurs_at(s, p, j),
    ensures
        last_occurrence(s, p) == Some(i),
{
    reveal(last_occurrence);
    let c = choose|k: int| occurs_at(s, p, k) && forall|j: int| k < j ==> !occurs_at(s, p, j);
    assert(occurs_at(s, p, c) && forall|j: int| c < j ==> !occurs_at(s, p, j));
    if c < i {
        assert(!occurs_at(s, p, i));
    } else if c > i {
        assert(!occurs_at(s, p, c));
    }
}

/// Rust's `rfind` on character sequences: the last index where `p` occurs.
pub fn rfind_seq(v: &[char], p: &[char]) -> (r: Option<usize>)
    ensures
        r matches Some(i) ==> occurs_at(v@, p@, i as int),
        r matches Some(i) ==> last_occurrence(v@, p@) == Some(i as int),
        r is None ==> last_occurrence(v@, p@) is None,
{
    let mut i: usize = v.len();
    let mut searching = true;
    while searching
        invariant
            i <= v@.len(),
            forall|j: int| i < j ==> !occurs_at(v@, p@, j),
            !searching ==> i == 0 && !occurs_at(v@, p@, 0),
        decreases i + if searching { 1int } else { 0int },
    {
        if occurs_at_exec(v, p, i) {
            proof {
                lemma_last_occurrence_is(v@, p@, i as int);
            }
            return Some(i);
        }
        if i == 0 {
            searching = false;
        } else {
            i = i - 1;
        }
    }
    assert forall|j: int| !occurs_at(v@, p@, j) by {
        if 0 <= j && j <= i {
        }
    }
    reveal(last_occurrence);
    None
}

/// Rust's `contains` with a string pattern on character sequences.
pub fn contains_exec(v: &[char], p: &[char]) -> (b: bool)
    ensures
        b == contains_seq(v@, p@),
{
    let r = find_seq(v, p);
    reveal(first_occurrence);
    r.is_some()
}

/// `s` split at every character satisfying `sep` (Rust's `split` with a
/// character pattern); never empty.
pub open spec fn split_by(s: Seq<char>, sep: spec_fn(char) -> bool) -> Seq<Seq<char>>
    decreases s.len(),
{
    if s.len() == 0 {
        seq![Seq::<char>::empty()]
    } else {
        let prev = split_by(s.drop_last(), sep);
        if sep(s.last()) {
            prev.push(Seq::<char>::empty())
        } else {
            prev.update(prev.len() - 1, prev.last().push(s.last()))
        }
    }
}

pub proof fn lemma_split_by_nonempty(s: Seq<char>, sep: spec_fn(char) -> bool)
    ensures
        split_by(s, sep).len() >= 1,
    decreases s.len(),
{
    if s.len() > 0 {
        lemma_split_by_nonempty(s.drop_last(), sep);
    }
}

/// The pieces of `v` between the characters of class `sep`.
pub fn split_chars(v: &[char], sep: &CharClass) -> (r: Vec<Vec<char>>)
    ensures
        r@.len() == split_by(v@, sep.pred()).len(),
        forall|k: int| 0 <= k < r@.len() ==> (#[trigger] r@[k])@ == split_by(v@, sep.pred())[k],
{
    let mut out: Vec<Vec<char>> = Vec::new();
    let mut cur: Vec<char> = Vec::new();
    let mut i: usize = 0;
    while i < v.len()
        invariant
            i <= v@.len(),
            split_by(v@.take(i as int), sep.pred()).len() == out@.len() + 1,
            forall|k: int| 0 <= k < out@.len() ==> (#[trigger] out@[k])@ == split_by(v@.take(i as int), sep.pred())[k],
            cur@ == split_by(v@.take(i as int), sep.pred()).last(),
        decreases v.len() - i,
    {
        proof {
            lemma_split_by_nonempty(v@.take(i as int), sep.pred());
            assert(v@.take(i + 1).drop_last() =~= v@.take(i as int));
        }
        if sep.matches(v[i]) {
            out.push(cur);
            cur = Vec::new();
        } else {
            cur.push(v[i]);
        }
        i = i + 1;
    }
    assert(v@.take(v@.len() as int) =~= v@);
    out.push(cur);
    out
}

/// Whitespace-separated words (Rust's `split_whitespace`), built left to right:
/// the finished words, and the word being read.
pub open spec fn words_state(s: Seq<char>) -> (Seq<Seq<char>>, Seq<char>)
    decreases s.len(),
{
    if s.len() == 0 {
        (Seq::empty(), Seq::empty())
    } else {
        let (done, cur) = words_state(s.drop_last());
        if is_ws(s.last()) {
            if cur.len() > 0 {
                (done.push(cur), Seq::empty())
            } else {
                (done, Seq::empty())
            }
        } else {
            (done, cur.push(s.last()))
        }
    }
}

/// The whitespace-separated words of `s`.
pub open spec fn words(s: Seq<char>) -> Seq<Seq<char>> {
    let (done, cur) = words_state(s);
    if cur.len() > 0 {
        done.push(cur)
    } else {
        done
    }
}

/// Rust's `split_whitespace` on a character sequence.
pub fn split_whitespace_chars(v: &[char]) -> (r: Vec<Vec<char>>)
    ensures
        r@.len() == words(v@).len(),
        forall|k: int| 0 <= k < r@.len() ==> (#[trigger] r@[k])@ == words(v@)[k],
{
    let mut out: Vec<Vec<char>> = Vec::new();
    let mut cur: Vec<char> = Vec::new();
    let mut i: usize = 0;
    while i < v.len()
        invariant
            i <= v@.len(),
            words_state(v@.take(i as int)).0.len() == out@.len(),
            forall|k: int| 0 <= k < out@.len() ==> (#[trigger] out@[k])@ == words_state(v@.take(i as int)).0[k],
            cur@ == words_state(v@.take(i as int)).1,
        decreases v.len() - i,
    {
        proof {
            assert(v@.take(i + 1).drop_last() =~= v@.take(i as int));
        }
        if char_is_whitespace(v[i]) {
            if cur.len() > 0 {
                out.push(cur);
                cur = Vec::new();
            }
        } else {
            cur.push(v[i]);
        }
        i = i + 1;
    }
    assert(v@.take(v@.len() as int) =~= v@);
    if cur.len() > 0 {
        out.push(cur);
    }
    out
}

/// The pieces joined with `sep` between consecutive pieces (Rust's `join`).
pub open spec fn join(parts: Seq<Seq<char>>, sep: Seq<char>) -> Seq<char>
    decreases parts.len(),
{
    if parts.len() == 0 {
        Seq::empty()
    } else if parts.len() == 1 {
        parts[0]
    } else {
        join(parts.drop_last(), sep) + sep + parts.last()
    }
}

/// The character sequences held by a vector of character vectors.
pub open spec fn views(parts: Seq<Vec<char>>) -> Seq<Seq<char>> {
    parts.map_values(|p: Vec<char>| p@)
}

/// Joins character sequences with `sep`.
pub fn join_chars(parts: &Vec<Vec<char>>, sep: &[char]) -> (r: Vec<char>)
    ensures
        r@ == join(views(parts@), sep@),
{
    let ghost views = views(parts@);
    let mut out: Vec<char> = Vec::new();
    let mut i: usize = 0;
    while i < parts.len()
        invariant
            i <= parts@.len(),
            views == self::views(parts@),
            out@ == join(views.take(i as int), sep@),
        decreases parts.len() - i,
    {
        assert(views.take(i + 1).drop_last() =~= views.take(i as int));
        if i > 0 {
            push_all(&mut out, sep);
        }
        push_all(&mut out, &parts[i]);
        proof {
            if i == 0 {
                assert(views.take(1)[0] == parts@[0]@);
                assert(out@ =~= join(views.take(1), sep@));
            }
        }
        i = i + 1;
    }
    assert(views.take(parts@.len() as int) =~= views);
    out
}

} // verus!

verus! {

pub open spec fn newline_sep() -> spec_fn(char) -> bool {
    |c: char| c == '\n'
}

pub open spec fn trimmed() -> spec_fn(Seq<char>) -> Seq<char> {
    |l: Seq<char>| trim(l)
}

pub open spec fn nonblank() -> spec_fn(Seq<char>) -> bool {
    |l: Seq<char>| l.len() > 0
}

/// The lines of `s` (split at newlines), trimmed, without the empty ones.
pub open spec fn text_lines(s: Seq<char>) -> Seq<Seq<char>> {
    split_by(s, newline_sep()).map_values(trimmed()).filter(nonblank())
}

/// The trimmed non-empty lines of a text.
pub fn nonblank_lines(s: &str) -> (r: Vec<String>)
    ensures
        r@.map_values(|x: String| x@) == text_lines(s@),
{
    let chars = chars_of(s);
    let mut nl_set: Vec<char> = Vec::new();
    nl_set.push('\n');
    let nl = CharClass::AnyOf(nl_set);
    assert forall|c: char| nl.has(c) == (c == '\n') by {
        if c == '\n' {
            assert(nl_set@[0] == c);
        }
    }
    assert(nl.pred() =~= newline_sep());
    let pieces = split_chars(&chars, &nl);
    let ghost all = split_by(s@, newline_sep()).map_values(trimmed());
    let mut out: Vec<String> = Vec::new();
    let mut i: usize = 0;
    while i < pieces.len()
        invariant
            i <= pieces@.len(),
            pieces@.len() == all.len(),
            forall|k: int| 0 <= k < pieces@.len() ==> trim((#[trigger] pieces@[k])@) == all[k],
            out@.map_values(|x: String| x@) == all.take(i as int).filter(nonblank()),
        decreases pieces.len() - i,
    {
        proof {
            assert(all.take(i + 1) =~= all.take(i as int).push(all[i as int]));
            all.take(i as int).lemma_filter_push(all[i as int], nonblank());
        }
        let t = trim_chars(&pieces[i]);
        if t.len() > 0 {
            let ghost before = out@;
            out.push(string_of(&t));
            assert(out@.map_values(|x: String| x@) =~= before.map_values(|x: String| x@).push(t@));
        }
        i = i + 1;
    }
    assert(all.take(pieces@.len() as int) =~= all);
    out
}

} // verus!

verus! {

/// `s` without one trailing carriage return.
pub open spec fn strip_cr(s: Seq<char>) -> Seq<char> {
    if s.len() > 0 && s.last() == '\r' {
        s.drop_last()
    } else {
        s
    }
}

/// The lines of `s` as `str::lines` gives them: split at newlines, a final
/// newline ending the last line rather than starting an empty one, and the
/// carriage return of each `\r\n` removed.
pub open spec fn std_lines(s: Seq<char>) -> Seq<Seq<char>> {
    let p = split_by(s, newline_sep());
    if s.len() == 0 {
        Seq::empty()
    } else {
        let n = if s.last() == '\n' { p.len() - 1 } else { p.len() as int };
        Seq::new(n as nat, |i: int| if i < p.len() - 1 { strip_cr(p[i]) } else { p[i] })
    }
}

/// `str::lines`.
pub fn std_lines_of(s: &str) -> (r: Vec<Vec<char>>)
    ensures
        views(r@) == std_lines(s@),
{
    let chars = chars_of(s);
    if chars.len() == 0 {
        let r: Vec<Vec<char>> = Vec::new();
        assert(views(r@) =~= std_lines(s@));
        return r;
    }
    let mut nl_set: Vec<char> = Vec::new();
    nl_set.push('\n');
    let nl = CharClass::AnyOf(nl_set);
    assert forall|c: char| nl.has(c) == (c == '\n') by {
        if c == '\n' {
            assert(nl_set@[0] == c);
        }
    }
    assert(nl.pred() =~= newline_sep());
    let pieces = split_chars(&chars, &nl);
    proof {
        lemma_split_by_nonempty(s@, newline_sep());
    }
    let ghost p = split_by(s@, newline_sep());
    let n: usize = if chars[chars.len() - 1] == '\n' { pieces.len() - 1 } else { pieces.len() };
    let mut out: Vec<Vec<char>> = Vec::new();
    let mut i: usize = 0;
    while i < n
        invariant
            i <= n,
            n <= pieces@.len(),
            pieces@.len() == p.len(),
            forall|k: int| 0 <= k < pieces@.len() ==> (#[trigger] pieces@[k])@ == p[k],
            out@.len() == i,
            forall|k: int| 0 <= k < i ==> (#[trigger] out@[k])@ == (if k < p.len() - 1 { strip_cr(p[k]) } else { p[k] }),
        decreases n - i,
    {
        let piece = &pieces[i];
        if i + 1 < pieces.len() && piece.len() > 0 && piece[piece.len() - 1] == '\r' {
            let r = slice_chars(piece, 0, piece.len() - 1);
            assert(r@ =~= piece@.drop_last());
            out.push(r);
        } else {
            let r = slice_chars(piece, 0, piece.len());
            assert(r@ =~= piece@);
            out.push(r);
        }
        i = i + 1;
    }
    assert(views(out@) =~= std_lines(s@));
    out
}

} // verus!
