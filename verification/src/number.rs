//! Decimal numbers in text: reading them as `str::parse::<u32>` does, and
//! writing them as `u32`'s `to_string` does.

use vstd::prelude::*;
use crate::unicode::is_ascii_digit;
use crate::text::chars_of;

verus! {

pub open spec fn digit_value(c: char) -> int {
    (c as int) - ('0' as int)
}

/// Every character of `s` is an ASCII digit.
pub open spec fn all_digits(s: Seq<char>) -> bool {
    forall|i: int| 0 <= i < s.len() ==> is_ascii_digit(#[trigger] s[i])
}

/// The value of a string of decimal digits.
pub open spec fn digits_value(s: Seq<char>) -> int
    decreases s.len(),
{
    if s.len() == 0 {
        0
    } else {
        digits_value(s.drop_last()) * 10 + digit_value(s.last())
    }
}

/// The digits of `s` after an optional leading `+`.
pub open spec fn unsigned_digits(s: Seq<char>) -> Seq<char> {
    if s.len() > 0 && s[0] == '+' {
        s.drop_first()
    } else {
        s
    }
}

/// What `str::parse::<u32>` gives for `s`: an optional `+`, then at least one
/// ASCII digit, and a value that fits in 32 bits.
pub open spec fn parsed_u32(s: Seq<char>) -> Option<u32> {
    let d = unsigned_digits(s);
    if d.len() > 0 && all_digits(d) && digits_value(d) <= u32::MAX {
        Some(digits_value(d) as u32)
    } else {
        None
    }
}

pub proof fn lemma_digits_value_nonneg(s: Seq<char>)
    requires
        all_digits(s),
    ensures
        digits_value(s) >= 0,
    decreases s.len(),
{
    if s.len() > 0 {
        lemma_digits_value_nonneg(s.drop_last());
    }
}

/// Reads `s` as `str::parse::<u32>` does.
pub fn parse_u32(s: &[char]) -> (r: Option<u32>)
    ensures
        r == parsed_u32(s@),
{
    let start: usize = if s.len() > 0 && s[0] == '+' { 1 } else { 0 };
    let ghost d = unsigned_digits(s@);
    assert(d =~= s@.skip(start as int));
    if start == s.len() {
        return None;
    }
    let mut value: u64 = 0;
    let mut i: usize = start;
    while i < s.len()
        invariant
            start <= i <= s@.len(),
            d =~= s@.skip(start as int),
            d == unsigned_digits(s@),
            all_digits(s@.subrange(start as int, i as int)),
            value == digits_value(s@.subrange(start as int, i as int)),
            value <= u32::MAX,
        decreases s.len() - i,
    {
        let c = s[i];
        assert(s@.subrange(start as int, i + 1).drop_last() =~= s@.subrange(start as int, i as int));
        if !('0' <= c && c <= '9') {
            assert(d[i - start] == c);
            assert(!is_ascii_digit(d[(i - start) as int]));
            return None;
        }
        let next: u64 = value * 10 + ((c as u32) - ('0' as u32)) as u64;
        if next > 4294967295 {
            proof {
                let p = s@.subrange(start as int, i + 1);
                assert(p.last() == c);
                assert(digits_value(p) == value * 10 + digit_value(c));
                assert(digits_value(p) > u32::MAX);
                lemma_prefix_value_bound(d, (i + 1 - start) as int);
                assert(d.take((i + 1 - start) as int) =~= p);
            }
            return None;
        }
        value = next;
        i = i + 1;
    }
    assert(s@.subrange(start as int, s@.len() as int) =~= d);
    Some(value as u32)
}

/// A longer prefix of digits never has a smaller value.
pub proof fn lemma_prefix_value_bound(d: Seq<char>, k: int)
    requires
        0 <= k <= d.len(),
    ensures
        all_digits(d) ==> digits_value(d.take(k)) <= digits_value(d),
    decreases d.len() - k,
{
    if k < d.len() && all_digits(d) {
        lemma_prefix_value_bound(d, k + 1);
        assert(d.take(k + 1).drop_last() =~= d.take(k));
        assert(all_digits(d.take(k)));
        lemma_digits_value_nonneg(d.take(k));
    } else if k == d.len() {
        assert(d.take(k) =~= d);
    }
}

/// The decimal digits of `n`, most significant first, with no leading zero.
pub open spec fn decimal(n: nat) -> Seq<char>
    decreases n,
{
    if n < 10 {
        seq![(('0' as u32) + n) as char]
    } else {
        decimal(n / 10).push((('0' as u32) + (n % 10)) as char)
    }
}

pub proof fn lemma_decimal_digits(n: nat)
    ensures
        all_digits(decimal(n)),
        decimal(n).len() > 0,
        digits_value(decimal(n)) == n,
        decimal(n)[0] != '0' || n == 0,
    decreases n,
{
    if n >= 10 {
        lemma_decimal_digits(n / 10);
        let s = decimal(n);
        assert(s.drop_last() =~= decimal(n / 10));
        assert forall|i: int| 0 <= i < s.len() implies is_ascii_digit(#[trigger] s[i]) by {
            if i < s.len() - 1 {
                assert(s[i] == decimal(n / 10)[i]);
            }
        }
        assert(s[0] == decimal(n / 10)[0]);
        let m = n % 10;
        assert(s.last() == (('0' as u32) + m) as char);
        assert(digit_value(s.last()) == m);
        vstd::arithmetic::div_mod::lemma_fundamental_div_mod(n as int, 10);
        assert(digits_value(s) == digits_value(decimal(n / 10)) * 10 + m);
    } else {
        let s = decimal(n);
        assert(s.drop_last() =~= Seq::<char>::empty());
        assert(digits_value(s.drop_last()) == 0);
        assert(digit_value(s.last()) == n);
    }
}

/// Writes `n` in decimal, as `to_string` does.
pub fn format_u64(n: u64) -> (r: Vec<char>)
    ensures
        r@ == decimal(n as nat),
    decreases n,
{
    if n < 10 {
        let c = char_of_digit(n as u32);
        let r = vec![c];
        assert(r@ =~= decimal(n as nat));
        r
    } else {
        let mut r = format_u64(n / 10);
        let c = char_of_digit((n % 10) as u32);
        r.push(c);
        r
    }
}

fn char_of_digit(d: u32) -> (c: char)
    requires
        d < 10,
    ensures
        c == (('0' as u32) + d) as char,
{
    if d == 0 { '0' }
    else if d == 1 { '1' }
    else if d == 2 { '2' }
    else if d == 3 { '3' }
    else if d == 4 { '4' }
    else if d == 5 { '5' }
    else if d == 6 { '6' }
    else if d == 7 { '7' }
    else if d == 8 { '8' }
    else { '9' }
}

/// The length of the run of digits that starts `d`.
pub open spec fn digit_run(d: Seq<char>) -> int {
    if all_digits(d) {
        d.len() as int
    } else {
        choose|j: int| 0 <= j < d.len() && !is_ascii_digit(d[j]) && all_digits(d.take(j))
    }
}

/// What the error of `str::parse::<u32>` says for a text it refuses: the
/// text is empty, or its digits overflow before the first character that is
/// no digit, or that character comes first.
pub open spec fn u32_error_text(s: Seq<char>) -> Seq<char> {
    let d = unsigned_digits(s);
    if s.len() == 0 {
        "cannot parse integer from empty string"@
    } else if d.len() > 0 && digits_value(d.take(digit_run(d))) > u32::MAX {
        "number too large to fit in target type"@
    } else {
        "invalid digit found in string"@
    }
}

proof fn lemma_run_at(d: Seq<char>, j: int)
    requires
        0 <= j < d.len(),
        all_digits(d.take(j)),
        !is_ascii_digit(d[j]),
    ensures
        digit_run(d) == j,
{
    assert(!all_digits(d));
    let w = choose|w: int| 0 <= w < d.len() && !is_ascii_digit(d[w]) && all_digits(d.take(w));
    assert(w == j) by {
        if w < j {
            assert(d.take(j)[w] == d[w]);
        } else if w > j {
            assert(d.take(w)[j] == d[j]);
        }
    }
}

/// The error text for digits `d` (what follows an optional `+`) that do not
/// read as a `u32`.
fn digits_error(d: &Vec<char>) -> (m: Vec<char>)
    ensures
        m@ == (if digits_value(d@.take(digit_run(d@))) > u32::MAX {
            "number too large to fit in target type"@
        } else {
            "invalid digit found in string"@
        }),
{
    let mut value: u64 = 0;
    let mut over = false;
    let mut i: usize = 0;
    while i < d.len() && '0' <= d[i] && d[i] <= '9'
        invariant
            i <= d@.len(),
            all_digits(d@.take(i as int)),
            !over ==> value == digits_value(d@.take(i as int)) && value <= u32::MAX,
            over ==> digits_value(d@.take(i as int)) > u32::MAX,
        decreases d.len() - i,
    {
        let c = d[i];
        let ghost p = d@.take(i + 1);
        proof {
            assert(p.drop_last() =~= d@.take(i as int));
            assert(p.last() == c);
            assert(digits_value(p) == digits_value(d@.take(i as int)) * 10 + digit_value(c));
            assert forall|k: int| 0 <= k < i + 1 implies is_ascii_digit(#[trigger] p[k]) by {
                if k < i {
                    assert(p[k] == d@.take(i as int)[k]);
                }
            }
        }
        if !over {
            let next: u64 = value * 10 + ((c as u32) - ('0' as u32)) as u64;
            if next > 4294967295 {
                over = true;
            } else {
                value = next;
            }
        }
        i = i + 1;
    }
    proof {
        if i < d.len() {
            lemma_run_at(d@, i as int);
        } else {
            assert(d@.take(i as int) =~= d@);
        }
    }
    if over {
        chars_of("number too large to fit in target type")
    } else {
        chars_of("invalid digit found in string")
    }
}

/// Reads `s` as `str::parse::<u32>` does, with the text of its error.
pub fn parse_u32_or_error(s: &[char]) -> (r: Result<u32, Vec<char>>)
    ensures
        match r {
            Ok(n) => parsed_u32(s@) == Some(n),
            Err(m) => parsed_u32(s@) is None && m@ == u32_error_text(s@),
        },
{
    match parse_u32(s) {
        Some(n) => Ok(n),
        None => {
            if s.len() == 0 {
                return Err(chars_of("cannot parse integer from empty string"));
            }
            let start: usize = if s[0] == '+' { 1 } else { 0 };
            let d = crate::text::slice_chars(s, start, s.len());
            assert(d@ =~= unsigned_digits(s@));
            if d.len() == 0 {
                return Err(chars_of("invalid digit found in string"));
            }
            Err(digits_error(&d))
        },
    }
}

/// Reading back what `format_u64` wrote gives the number again.
pub proof fn lemma_parse_format_u32(n: u32)
    ensures
        parsed_u32(decimal(n as nat)) == Some(n),
{
    lemma_decimal_digits(n as nat);
    let s = decimal(n as nat);
    assert(s[0] != '+');
    assert(unsigned_digits(s) == s);
}

} // verus!
