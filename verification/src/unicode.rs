//! Unicode character classes and case mapping from the standard library, and
//! the UTF-8 byte length of text.

use vstd::prelude::*;

verus! {

/// Whether `c` has the Unicode `Alphabetic` property (`char::is_alphabetic`).
pub uninterp spec fn unicode_alphabetic(c: char) -> bool;

/// Whether `c` is `Alphabetic` or `Numeric` (`char::is_alphanumeric`).
pub uninterp spec fn unicode_alphanumeric(c: char) -> bool;

/// The Unicode lowercase mapping of a text (`str::to_lowercase`).
pub uninterp spec fn unicode_lowercase(s: Seq<char>) -> Seq<char>;

pub open spec fn is_ascii_letter(c: char) -> bool {
    ('a' <= c && c <= 'z') || ('A' <= c && c <= 'Z')
}

pub open spec fn is_ascii_digit(c: char) -> bool {
    '0' <= c && c <= '9'
}

/// `char::is_alphabetic`: the Unicode `Alphabetic` property; on ASCII these
/// are exactly the letters.
#[verifier::external_body]
pub fn char_is_alphabetic(c: char) -> (b: bool)
    ensures
        b == unicode_alphabetic(c),
        c <= '\u{7f}' ==> (b <==> is_ascii_letter(c)),
{
    c.is_alphabetic()
}

/// `char::is_alphanumeric`: `Alphabetic` or `Numeric`; on ASCII these are
/// exactly the letters and digits.
#[verifier::external_body]
pub fn char_is_alphanumeric(c: char) -> (b: bool)
    ensures
        b == unicode_alphanumeric(c),
        c <= '\u{7f}' ==> (b <==> (is_ascii_letter(c) || is_ascii_digit(c))),
{
    c.is_alphanumeric()
}

/// The lowercase of an ASCII character: `A`..`Z` become `a`..`z`, the rest
/// stay.
pub open spec fn ascii_lower(c: char) -> char {
    if 'A' <= c && c <= 'Z' {
        ((c as u32) + 32) as char
    } else {
        c
    }
}

/// `str::to_lowercase`: the Unicode lowercase mapping of the whole text; an
/// ASCII text is lowered character by character.
#[verifier::external_body]
pub fn str_to_lowercase(s: &str) -> (r: String)
    ensures
        r@ == unicode_lowercase(s@),
        (forall|i: int| 0 <= i < s@.len() ==> #[trigger] s@[i] <= '\u{7f}') ==> r@ == s@.map_values(
            |c: char| ascii_lower(c),
        ),
{
    s.to_lowercase()
}

/// Number of bytes of `c` in UTF-8 (`char::len_utf8`).
pub open spec fn utf8_width(c: char) -> nat {
    if c <= '\u{7f}' {
        1
    } else if c <= '\u{7ff}' {
        2
    } else if c <= '\u{ffff}' {
        3
    } else {
        4
    }
}

/// Number of bytes of `s` in UTF-8 (`str::len`).
pub open spec fn byte_len(s: Seq<char>) -> nat
    decreases s.len(),
{
    if s.len() == 0 {
        0
    } else {
        byte_len(s.drop_last()) + utf8_width(s.last())
    }
}

pub fn char_len_utf8(c: char) -> (n: usize)
    ensures
        n == utf8_width(c),
{
    if c <= '\u{7f}' {
        1
    } else if c <= '\u{7ff}' {
        2
    } else if c <= '\u{ffff}' {
        3
    } else {
        4
    }
}

pub proof fn lemma_byte_len_monotone(s: Seq<char>, i: int, j: int)
    requires
        0 <= i <= j <= s.len(),
    ensures
        byte_len(s.take(i)) + (j - i) <= byte_len(s.take(j)),
    decreases j - i,
{
    if i < j {
        lemma_byte_len_monotone(s, i, j - 1);
        assert(s.take(j).drop_last() =~= s.take(j - 1));
    }
}

/// UTF-8 byte length of `v`, saturating at `limit + 1` once it exceeds `limit`.
pub fn byte_len_capped(v: &[char], limit: usize) -> (n: usize)
    requires
        limit < usize::MAX - 4,
    ensures
        n <= limit ==> n == byte_len(v@),
        n > limit <==> byte_len(v@) > limit,
{
    let mut total: usize = 0;
    let mut i: usize = 0;
    while i < v.len() && total <= limit
        invariant
            i <= v@.len(),
            limit < usize::MAX - 4,
            total == byte_len(v@.take(i as int)),
            total <= limit + 4,
        decreases v.len() - i,
    {
        assert(v@.take(i + 1).drop_last() =~= v@.take(i as int));
        total = total + char_len_utf8(v[i]);
        i = i + 1;
    }
    assert(v@.take(v@.len() as int) =~= v@);
    proof {
        lemma_byte_len_monotone(v@, i as int, v@.len() as int);
    }
    total
}

/// `k` is how many leading characters of `s` fit in `n` bytes: they fit, and
/// one more would not.
pub open spec fn fits_within(s: Seq<char>, n: nat, k: int) -> bool {
    &&& 0 <= k <= s.len()
    &&& byte_len(s.take(k)) <= n
    &&& (k == s.len() || byte_len(s.take(k + 1)) > n)
}

/// The longest prefix of `s` that takes at most `n` bytes: `s` cut at its
/// last character boundary within `n` bytes.
pub open spec fn byte_cut(s: Seq<char>, n: nat) -> Seq<char> {
    s.take(choose|k: int| fits_within(s, n, k))
}

/// Only one count of characters fits exactly.
pub proof fn lemma_fits_within_unique(s: Seq<char>, n: nat, k1: int, k2: int)
    requires
        fits_within(s, n, k1),
        fits_within(s, n, k2),
    ensures
        k1 == k2,
{
    if k1 < k2 {
        lemma_byte_len_monotone(s, k1 + 1, k2);
    } else if k2 < k1 {
        lemma_byte_len_monotone(s, k2 + 1, k1);
    }
}

/// The characters of `v` that fit in its first `n` bytes.
pub fn take_within(v: &[char], n: usize) -> (r: Vec<char>)
    requires
        n < usize::MAX - 4,
    ensures
        r@ == byte_cut(v@, n as nat),
        byte_len(r@) <= n,
{
    let mut r: Vec<char> = Vec::new();
    let mut total: usize = 0;
    let mut i: usize = 0;
    let mut done = false;
    while !done
        invariant
            i <= v@.len(),
            n < usize::MAX - 4,
            total == byte_len(v@.take(i as int)),
            total <= n,
            r@ == v@.take(i as int),
            done ==> (i == v@.len() || byte_len(v@.take(i + 1)) > n),
        decreases v@.len() - i + (if done { 0int } else { 1int }),
    {
        if i >= v.len() {
            done = true;
        } else {
            let w = char_len_utf8(v[i]);
            assert(v@.take(i + 1).drop_last() =~= v@.take(i as int));
            if total + w > n {
                done = true;
            } else {
                r.push(v[i]);
                assert(v@.take(i + 1) =~= v@.take(i as int).push(v@[i as int]));
                total = total + w;
                i = i + 1;
            }
        }
    }
    proof {
        assert(fits_within(v@, n as nat, i as int));
        let k = choose|k: int| fits_within(v@, n as nat, k);
        lemma_fits_within_unique(v@, n as nat, i as int, k);
    }
    r
}

} // verus!

verus! {

/// `std::str::from_utf8`: the text the bytes encode when they are valid UTF-8,
/// and nothing otherwise.
#[verifier::external_body]
pub fn utf8_text(bytes: &[u8]) -> (r: Option<String>)
    ensures
        r is Some <==> vstd::utf8::valid_utf8(bytes@),
        r matches Some(s) ==> s@ == vstd::utf8::decode_utf8(bytes@),
{
    match std::str::from_utf8(bytes) {
        Ok(s) => Some(s.to_string()),
        Err(_) => None,
    }
}

} // verus!
