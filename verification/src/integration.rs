//! Integration of archived branches into the baseline: the statuses that
//! detection reports, and their compact JSON form kept in git notes as a
//! detection cache.

use vstd::prelude::*;
use crate::text::{self, chars_of, push_all, string_of};
use crate::number::{self, format_u64};

verus! {

/// How sure detection is that a branch was integrated.
/// `Exact` ranks above `High`.
#[derive(Debug, Clone, Copy, PartialEq, Eq, Structural, PartialOrd, Ord)]
pub enum IntegrationConfidence {
    /// All its changes are found in the baseline.
    High,
    /// Git itself reports the branch merged.
    Exact,
}

/// What detection found for a branch.
#[derive(Debug, Clone, Copy, PartialEq, Eq, Structural)]
pub enum BranchIntegrationStatus {
    Integrated { integrated_at: Option<u32>, confidence: IntegrationConfidence, commit_count: u32 },
    NotIntegrated { total_commit_count: u32, integrated_count: u32, orphaned_count: u32, integrated_at: Option<u32> },
    Partial { missing: u32 },
}

/// A branch with its detection status and, for issue branches, a summary.
#[derive(Debug, Clone)]
pub struct BranchIntegrationInfo {
    pub name: String,
    pub summary: String,
    pub status: BranchIntegrationStatus,
}

/// The git notes ref that holds the detection cache.
pub const NOTES_REF: &'static str = "refs/notes/branch-deck/detection";

/// The version of the cache format.
pub const DETECTION_CACHE_VERSION: u8 = 1;

/// ---- Writing ----

/// A character as a JSON string writes it.
pub open spec fn escaped(c: char) -> Seq<char> {
    if c == '"' {
        seq!['\\', '"']
    } else if c == '\\' {
        seq!['\\', '\\']
    } else if c == '\u{8}' {
        seq!['\\', 'b']
    } else if c == '\t' {
        seq!['\\', 't']
    } else if c == '\n' {
        seq!['\\', 'n']
    } else if c == '\u{c}' {
        seq!['\\', 'f']
    } else if c == '\r' {
        seq!['\\', 'r']
    } else if (c as u32) < 0x20 {
        seq!['\\', 'u', '0', '0', hex_digit((c as u32) / 16), hex_digit((c as u32) % 16)]
    } else {
        seq![c]
    }
}

pub open spec fn hex_digit(d: u32) -> char {
    if d < 10 {
        (('0' as u32) + d) as char
    } else {
        (('a' as u32) + (d - 10)) as char
    }
}

/// The characters of `s`, each escaped.
pub open spec fn escaped_text(s: Seq<char>) -> Seq<char>
    decreases s.len(),
{
    if s.len() == 0 {
        Seq::empty()
    } else {
        escaped_text(s.drop_last()) + escaped(s.last())
    }
}

/// A JSON string.
pub open spec fn quoted(s: Seq<char>) -> Seq<char> {
    seq!['"'] + escaped_text(s) + seq!['"']
}

/// `"key":value`.
pub open spec fn member(key: Seq<char>, value: Seq<char>) -> Seq<char> {
    quoted(key) + seq![':'] + value
}

/// A JSON object of members already written, in order.
pub open spec fn object(members: Seq<Seq<char>>) -> Seq<char> {
    seq!['{'] + text::join(members, seq![',']) + seq!['}']
}

pub open spec fn num(n: u32) -> Seq<char> {
    number::decimal(n as nat)
}

/// A member that is left out when the value is zero.
pub open spec fn if_nonzero(key: Seq<char>, n: u32) -> Seq<Seq<char>> {
    if n != 0 {
        seq![member(key, num(n))]
    } else {
        Seq::empty()
    }
}

/// A member that is left out when there is no value.
pub open spec fn if_some(key: Seq<char>, n: Option<u32>) -> Seq<Seq<char>> {
    match n {
        Some(v) => seq![member(key, num(v))],
        None => Seq::empty(),
    }
}

/// The status object: short keys in alphabetical order, zero counts and
/// absent timestamps left out.
pub open spec fn status_json(status: BranchIntegrationStatus) -> Seq<char> {
    match status {
        BranchIntegrationStatus::Integrated { integrated_at, confidence, commit_count } => object(
            seq![member("c"@, quoted(if confidence == IntegrationConfidence::Exact { "e"@ } else { "h"@ }))]
                + if_nonzero("cc"@, commit_count) + if_some("ia"@, integrated_at) + seq![member("k"@, quoted("i"@))],
        ),
        BranchIntegrationStatus::NotIntegrated { total_commit_count, integrated_count, orphaned_count, integrated_at } => object(
            if_some("ia"@, integrated_at) + if_nonzero("ic"@, integrated_count) + seq![member("k"@, quoted("n"@))]
                + if_nonzero("oc"@, orphaned_count) + if_nonzero("tc"@, total_commit_count),
        ),
        BranchIntegrationStatus::Partial { missing } => object(
            seq![member("k"@, quoted("p"@))] + if_nonzero("m"@, missing),
        ),
    }
}

/// The cache entry: the status, the summary unless it is empty, and the
/// format version, in that (alphabetical) order.
pub open spec fn cache_json(info: BranchIntegrationInfo) -> Seq<char> {
    object(
        seq![member("s"@, status_json(info.status))] + (if info.summary@.len() > 0 {
            seq![member("sum"@, quoted(info.summary@))]
        } else {
            Seq::<Seq<char>>::empty()
        }) + seq![member("v"@, "1"@)],
    )
}

fn hex_char(d: u32) -> (c: char)
    requires
        d < 16,
    ensures
        c == hex_digit(d),
{
    if d == 0 { '0' }
    else if d == 1 { '1' }
    else if d == 2 { '2' }
    else if d == 3 { '3' }
    else if d == 4 { '4' }
    else if d == 5 { '5' }
    else if d == 6 { '6' }
    else if d == 7 { '7' }
    else if d == 8 { '8' }
    else if d == 9 { '9' }
    else if d == 10 { 'a' }
    else if d == 11 { 'b' }
    else if d == 12 { 'c' }
    else if d == 13 { 'd' }
    else if d == 14 { 'e' }
    else { 'f' }
}

fn push_escaped(out: &mut Vec<char>, c: char)
    ensures
        final(out)@ == old(out)@ + escaped(c),
{
    let ghost start = out@;
    if c == '"' {
        out.push('\\');
        out.push('"');
    } else if c == '\\' {
        out.push('\\');
        out.push('\\');
    } else if c == '\u{8}' {
        out.push('\\');
        out.push('b');
    } else if c == '\t' {
        out.push('\\');
        out.push('t');
    } else if c == '\n' {
        out.push('\\');
        out.push('n');
    } else if c == '\u{c}' {
        out.push('\\');
        out.push('f');
    } else if c == '\r' {
        out.push('\\');
        out.push('r');
    } else if (c as u32) < 0x20 {
        out.push('\\');
        out.push('u');
        out.push('0');
        out.push('0');
        out.push(hex_char((c as u32) / 16));
        out.push(hex_char((c as u32) % 16));
    } else {
        out.push(c);
    }
    assert(out@ =~= start + escaped(c));
}

/// Appends `s` as a JSON string.
fn push_quoted(out: &mut Vec<char>, s: &[char])
    ensures
        final(out)@ == old(out)@ + quoted(s@),
{
    let ghost start = out@;
    out.push('"');
    let mut i: usize = 0;
    while i < s.len()
        invariant
            i <= s@.len(),
            out@ == start + seq!['"'] + escaped_text(s@.take(i as int)),
        decreases s.len() - i,
    {
        assert(s@.take(i + 1).drop_last() =~= s@.take(i as int));
        push_escaped(out, s[i]);
        i = i + 1;
    }
    assert(s@.take(s@.len() as int) =~= s@);
    out.push('"');
    assert(out@ =~= start + quoted(s@));
}

fn member_chars(key: &str, value: Vec<char>) -> (r: Vec<char>)
    ensures
        r@ == member(key@, value@),
{
    let mut r: Vec<char> = Vec::new();
    push_quoted(&mut r, &chars_of(key));
    r.push(':');
    push_all(&mut r, &value);
    assert(r@ =~= member(key@, value@));
    r
}

fn num_chars(n: u32) -> (r: Vec<char>)
    ensures
        r@ == num(n),
{
    format_u64(n as u64)
}

fn quoted_chars(s: &str) -> (r: Vec<char>)
    ensures
        r@ == quoted(s@),
{
    let mut r: Vec<char> = Vec::new();
    push_quoted(&mut r, &chars_of(s));
    assert(r@ =~= quoted(s@));
    r
}

fn object_chars(members: &Vec<Vec<char>>) -> (r: Vec<char>)
    ensures
        r@ == object(text::views(members@)),
{
    let mut r: Vec<char> = vec!['{'];
    let comma = vec![','];
    assert(comma@ =~= seq![',']);
    push_all(&mut r, &text::join_chars(members, &comma));
    r.push('}');
    assert(r@ =~= object(text::views(members@)));
    r
}

fn push_member(members: &mut Vec<Vec<char>>, m: Vec<char>)
    ensures
        text::views(final(members)@) == text::views(old(members)@).push(m@),
{
    members.push(m);
    assert(text::views(members@) =~= text::views(old(members)@).push(m@));
}

fn status_chars(status: &BranchIntegrationStatus) -> (r: Vec<char>)
    ensures
        r@ == status_json(*status),
{
    let mut members: Vec<Vec<char>> = Vec::new();
    match status {
        BranchIntegrationStatus::Integrated { integrated_at, confidence, commit_count } => {
            let c = match confidence {
                IntegrationConfidence::Exact => quoted_chars("e"),
                IntegrationConfidence::High => quoted_chars("h"),
            };
            push_member(&mut members, member_chars("c", c));
            if *commit_count != 0 {
                push_member(&mut members, member_chars("cc", num_chars(*commit_count)));
            }
            match integrated_at {
                Some(t) => push_member(&mut members, member_chars("ia", num_chars(*t))),
                None => {},
            }
            push_member(&mut members, member_chars("k", quoted_chars("i")));
            let r = object_chars(&members);
            assert(text::views(members@) =~= seq![member("c"@, quoted(if *confidence == IntegrationConfidence::Exact { "e"@ } else { "h"@ }))]
                + if_nonzero("cc"@, *commit_count) + if_some("ia"@, *integrated_at) + seq![member("k"@, quoted("i"@))]);
            r
        },
        BranchIntegrationStatus::NotIntegrated { total_commit_count, integrated_count, orphaned_count, integrated_at } => {
            match integrated_at {
                Some(t) => push_member(&mut members, member_chars("ia", num_chars(*t))),
                None => {},
            }
            if *integrated_count != 0 {
                push_member(&mut members, member_chars("ic", num_chars(*integrated_count)));
            }
            push_member(&mut members, member_chars("k", quoted_chars("n")));
            if *orphaned_count != 0 {
                push_member(&mut members, member_chars("oc", num_chars(*orphaned_count)));
            }
            if *total_commit_count != 0 {
                push_member(&mut members, member_chars("tc", num_chars(*total_commit_count)));
            }
            let r = object_chars(&members);
            assert(text::views(members@) =~= if_some("ia"@, *integrated_at) + if_nonzero("ic"@, *integrated_count)
                + seq![member("k"@, quoted("n"@))] + if_nonzero("oc"@, *orphaned_count) + if_nonzero("tc"@, *total_commit_count));
            r
        },
        BranchIntegrationStatus::Partial { missing } => {
            push_member(&mut members, member_chars("k", quoted_chars("p")));
            if *missing != 0 {
                push_member(&mut members, member_chars("m", num_chars(*missing)));
            }
            let r = object_chars(&members);
            assert(text::views(members@) =~= seq![member("k"@, quoted("p"@))] + if_nonzero("m"@, *missing));
            r
        },
    }
}

/// Writes a detection result as the compact JSON of the cache: `v` the
/// format version, `s` the status (`k` its kind, `i`, `n` or `p`, with short
/// keys for its fields, zero counts left out), and `sum` the summary when it
/// is not empty.
pub fn serialize_for_cache(info: &BranchIntegrationInfo) -> (r: String)
    ensures
        r@ == cache_json(*info),
{
    let mut members: Vec<Vec<char>> = Vec::new();
    push_member(&mut members, member_chars("s", status_chars(&info.status)));
    let summary = chars_of(info.summary.as_str());
    if summary.len() > 0 {
        let mut q: Vec<char> = Vec::new();
        push_quoted(&mut q, &summary);
        push_member(&mut members, member_chars("sum", q));
    }
    let one = vec!['1'];
    proof {
        reveal_strlit("1");
        assert(one@ =~= "1"@);
    }
    push_member(&mut members, member_chars("v", one));
    let r = object_chars(&members);
    assert(text::views(members@) =~= seq![member("s"@, status_json(info.status))] + (if info.summary@.len() > 0 {
        seq![member("sum"@, quoted(info.summary@))]
    } else {
        Seq::<Seq<char>>::empty()
    }) + seq![member("v"@, "1"@)]);
    string_of(&r)
}

/// ---- Reading ----

/// The members of a cache note's status object, as the JSON holds them: the
/// strings and the non-negative integers, each absent when the member is
/// missing or of another type.
#[derive(Debug, Clone)]
pub struct StatusFields {
    pub kind: Option<String>,
    pub confidence: Option<String>,
    pub commit_count: Option<u64>,
    pub integrated_at: Option<u64>,
    pub total_commit_count: Option<u64>,
    pub integrated_count: Option<u64>,
    pub orphaned_count: Option<u64>,
    pub missing: Option<u64>,
}

/// The members of a cache note: the summary string and the status (absent
/// when the note has no `s` member).
#[derive(Debug, Clone)]
pub struct CacheFields {
    pub summary: Option<String>,
    pub status: Option<StatusFields>,
}

/// Why a cache note could not be read.
#[derive(Debug, Clone, Copy, PartialEq, Eq, Structural)]
pub enum CacheError {
    MissingStatus,
    UnknownStatusKind,
}

impl CacheError {
    pub fn message(&self) -> (s: String)
        ensures
            match *self {
                CacheError::MissingStatus => s@ == "Missing status field"@,
                CacheError::UnknownStatusKind => s@ == "Unknown status kind"@,
            },
    {
        match self {
            CacheError::MissingStatus => String::from_str("Missing status field"),
            CacheError::UnknownStatusKind => String::from_str("Unknown status kind"),
        }
    }
}

pub open spec fn opt_str(o: Option<String>) -> Option<Seq<char>> {
    match o {
        Some(s) => Some(s@),
        None => None,
    }
}

/// A count as the cache reads it: the integer's low 32 bits, 0 when absent.
pub open spec fn count_or_zero(v: Option<u64>) -> u32 {
    match v {
        Some(n) => n as u32,
        None => 0,
    }
}

pub open spec fn opt_u32(v: Option<u64>) -> Option<u32> {
    match v {
        Some(n) => Some(n as u32),
        None => None,
    }
}

/// The status a note's members describe.
pub open spec fn status_of(f: StatusFields) -> Result<BranchIntegrationStatus, CacheError> {
    let kind = opt_str(f.kind);
    if kind == Some("i"@) {
        Ok(BranchIntegrationStatus::Integrated {
            integrated_at: opt_u32(f.integrated_at),
            confidence: if opt_str(f.confidence) == Some("e"@) {
                IntegrationConfidence::Exact
            } else {
                IntegrationConfidence::High
            },
            commit_count: count_or_zero(f.commit_count),
        })
    } else if kind == Some("n"@) {
        Ok(BranchIntegrationStatus::NotIntegrated {
            total_commit_count: count_or_zero(f.total_commit_count),
            integrated_count: count_or_zero(f.integrated_count),
            orphaned_count: count_or_zero(f.orphaned_count),
            integrated_at: opt_u32(f.integrated_at),
        })
    } else if kind == Some("p"@) {
        Ok(BranchIntegrationStatus::Partial { missing: count_or_zero(f.missing) })
    } else {
        Err(CacheError::UnknownStatusKind)
    }
}

fn is_str(s: &Option<String>, lit: &str) -> (b: bool)
    ensures
        b == (opt_str(*s) == Some(lit@)),
{
    match s {
        Some(v) => text::chars_eq(&chars_of(v.as_str()), &chars_of(lit)),
        None => false,
    }
}

fn low_bits(v: Option<u64>) -> (r: u32)
    ensures
        r == count_or_zero(v),
{
    match v {
        Some(n) => n as u32,
        None => 0,
    }
}

fn low_bits_opt(v: Option<u64>) -> (r: Option<u32>)
    ensures
        r == opt_u32(v),
{
    match v {
        Some(n) => Some(n as u32),
        None => None,
    }
}

/// Reads a detection result back from the members of a cache note; the name
/// is left empty for the caller to fill.
pub fn deserialize_from_cache(fields: &CacheFields) -> (r: Result<BranchIntegrationInfo, CacheError>)
    ensures
        match fields.status {
            None => r == Err::<BranchIntegrationInfo, CacheError>(CacheError::MissingStatus),
            Some(sf) => match status_of(sf) {
                Err(e) => r == Err::<BranchIntegrationInfo, CacheError>(e),
                Ok(st) => r matches Ok(info) && info.name@.len() == 0 && info.status == st && info.summary@ == (
                match opt_str(fields.summary) {
                    Some(s) => s,
                    None => Seq::<char>::empty(),
                }),
            },
        },
{
    let summary = match &fields.summary {
        Some(s) => s.clone(),
        None => String::new(),
    };
    let sf = match &fields.status {
        Some(sf) => sf,
        None => {
            return Err(CacheError::MissingStatus);
        },
    };
    let status = if is_str(&sf.kind, "i") {
        BranchIntegrationStatus::Integrated {
            integrated_at: low_bits_opt(sf.integrated_at),
            confidence: if is_str(&sf.confidence, "e") {
                IntegrationConfidence::Exact
            } else {
                IntegrationConfidence::High
            },
            commit_count: low_bits(sf.commit_count),
        }
    } else if is_str(&sf.kind, "n") {
        BranchIntegrationStatus::NotIntegrated {
            total_commit_count: low_bits(sf.total_commit_count),
            integrated_count: low_bits(sf.integrated_count),
            orphaned_count: low_bits(sf.orphaned_count),
            integrated_at: low_bits_opt(sf.integrated_at),
        }
    } else if is_str(&sf.kind, "p") {
        BranchIntegrationStatus::Partial { missing: low_bits(sf.missing) }
    } else {
        return Err(CacheError::UnknownStatusKind);
    };
    Ok(BranchIntegrationInfo { name: String::new(), summary, status })
}

/// Reads a cache note, if it holds a detection result.
pub fn parse_cached_note(fields: &CacheFields) -> (r: Option<BranchIntegrationInfo>)
    ensures
        r is Some <==> (fields.status matches Some(sf) && status_of(sf) is Ok),
        r matches Some(info) ==> (fields.status matches Some(sf) && status_of(sf) == Ok::<
            BranchIntegrationStatus,
            CacheError,
        >(info.status)),
{
    match deserialize_from_cache(fields) {
        Ok(info) => Some(info),
        Err(_) => None,
    }
}

/// ---- What the written JSON holds ----

/// The status members that the JSON written for `status` holds, as read.
pub open spec fn written_status_fields(f: StatusFields, status: BranchIntegrationStatus) -> bool {
    let n = |v: u32| if v != 0 { Some(v as u64) } else { None::<u64> };
    let t = |v: Option<u32>| match v {
        Some(x) => Some(x as u64),
        None => None::<u64>,
    };
    match status {
        BranchIntegrationStatus::Integrated { integrated_at, confidence, commit_count } => {
            &&& opt_str(f.kind) == Some("i"@)
            &&& opt_str(f.confidence) == Some(if confidence == IntegrationConfidence::Exact { "e"@ } else { "h"@ })
            &&& f.commit_count == n(commit_count)
            &&& f.integrated_at == t(integrated_at)
        },
        BranchIntegrationStatus::NotIntegrated { total_commit_count, integrated_count, orphaned_count, integrated_at } => {
            &&& opt_str(f.kind) == Some("n"@)
            &&& f.total_commit_count == n(total_commit_count)
            &&& f.integrated_count == n(integrated_count)
            &&& f.orphaned_count == n(orphaned_count)
            &&& f.integrated_at == t(integrated_at)
        },
        BranchIntegrationStatus::Partial { missing } => {
            &&& opt_str(f.kind) == Some("p"@)
            &&& f.missing == n(missing)
        },
    }
}

proof fn lemma_widen_narrow(v: u32)
    ensures
        ((v as u64) as u32) == v,
{
    assert(((v as u64) as u32) == v) by (bit_vector);
}

/// Reading back what was written gives the status and the summary again:
/// whatever members the written JSON holds for a detection result, reading
/// them yields that result (with an empty name).
pub proof fn lemma_cache_round_trip(info: BranchIntegrationInfo, fields: CacheFields)
    requires
        fields.status matches Some(sf) && written_status_fields(sf, info.status),
        opt_str(fields.summary) == (if info.summary@.len() > 0 { Some(info.summary@) } else { None }),
    ensures
        fields.status matches Some(sf) && status_of(sf) == Ok::<BranchIntegrationStatus, CacheError>(info.status),
        (match opt_str(fields.summary) {
            Some(s) => s,
            None => Seq::<char>::empty(),
        }) == info.summary@,
{
    let sf = fields.status->0;
    reveal_strlit("i");
    reveal_strlit("n");
    reveal_strlit("p");
    reveal_strlit("e");
    reveal_strlit("h");
    match info.status {
        BranchIntegrationStatus::Integrated { integrated_at, confidence, commit_count } => {
            lemma_widen_narrow(commit_count);
            if let Some(t) = integrated_at {
                lemma_widen_narrow(t);
            }
            assert(count_or_zero(sf.commit_count) == commit_count);
            assert(opt_u32(sf.integrated_at) == integrated_at);
            assert(opt_str(sf.kind) == Some("i"@));
            assert("h"@[0] != "e"@[0]);
        },
        BranchIntegrationStatus::NotIntegrated { total_commit_count, integrated_count, orphaned_count, integrated_at } => {
            lemma_widen_narrow(total_commit_count);
            lemma_widen_narrow(integrated_count);
            lemma_widen_narrow(orphaned_count);
            if let Some(t) = integrated_at {
                lemma_widen_narrow(t);
            }
            assert(count_or_zero(sf.total_commit_count) == total_commit_count);
            assert(count_or_zero(sf.integrated_count) == integrated_count);
            assert(count_or_zero(sf.orphaned_count) == orphaned_count);
            assert(opt_u32(sf.integrated_at) == integrated_at);
            assert("n"@[0] != "i"@[0]);
        },
        BranchIntegrationStatus::Partial { missing } => {
            lemma_widen_narrow(missing);
            assert(count_or_zero(sf.missing) == missing);
            assert("p"@[0] != "i"@[0]);
            assert("p"@[0] != "n"@[0]);
        },
    }
    if info.summary@.len() == 0 {
        assert(info.summary@ =~= Seq::<char>::empty());
    }
}

} // verus!
