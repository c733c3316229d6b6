//! Post-processing of model output into a usable branch name, and prompt
//! size control.

use vstd::prelude::*;
use crate::text::{
    self, CharClass, chars_of, contains_exec, find_seq, join_chars, rfind_seq, rstrip_len,
    slice_chars, split_chars, split_whitespace_chars, starts_with, string_of, strip_chars,
    trim_chars,
};
use crate::unicode::{self, char_is_alphanumeric, take_within};
use crate::model::{self, single_class};

verus! {

/// Tokens kept free for generation when checking the context limit.
pub const GENERATION_BUFFER: usize = 200;

/// Why no branch name could be made of a model's output.
#[derive(Debug, Clone, Copy, PartialEq, Eq, Structural)]
pub struct NoValidBranchName;

impl NoValidBranchName {
    pub fn message(&self) -> (s: String)
        ensures
            s@ == "Could not generate a valid branch name"@,
    {
        String::from_str("Could not generate a valid branch name")
    }
}

pub open spec fn think_open() -> Seq<char> {
    seq!['<', 't', 'h', 'i', 'n', 'k', '>']
}

pub open spec fn think_close() -> Seq<char> {
    seq!['<', '/', 't', 'h', 'i', 'n', 'k', '>']
}

/// The output without thinking: what follows the last `</think>`, or else what
/// precedes the first `<think>`, or else all of it.
pub open spec fn without_think_tags(s: Seq<char>) -> Seq<char> {
    match text::last_occurrence(s, think_close()) {
        Some(e) => s.skip(e + 8),
        None => match text::first_occurrence(s, think_open()) {
            Some(t) => s.take(t),
            None => s,
        },
    }
}

/// The first of `lines` that is not blank, trimmed; empty if all are blank.
pub open spec fn first_nonblank(lines: Seq<Seq<char>>) -> Seq<char>
    decreases lines.len(),
{
    if lines.len() == 0 {
        Seq::empty()
    } else if text::trim(lines[0]).len() > 0 {
        text::trim(lines[0])
    } else {
        first_nonblank(lines.drop_first())
    }
}

pub open spec fn newline() -> spec_fn(char) -> bool {
    |c: char| c == '\n'
}

pub open spec fn first_nonblank_line(s: Seq<char>) -> Seq<char> {
    first_nonblank(text::split_by(s, newline()))
}

pub open spec fn fence() -> Seq<char> {
    seq!['`', '`', '`']
}

pub open spec fn git_word() -> Seq<char> {
    seq!['g', 'i', 't']
}

pub open spec fn git_command_marker() -> Seq<char> {
    seq!['g', 'i', 't', ' ']
}

pub open spec fn keeps_word(w: Seq<char>) -> bool {
    !text::contains_seq(w, git_word()) && !text::contains_seq(w, fence())
}

pub open spec fn kept_word() -> spec_fn(Seq<char>) -> bool {
    |w: Seq<char>| keeps_word(w)
}

/// A code fence or a git command line keeps only its words that mention
/// neither `git` nor a fence, joined with hyphens; any other line is kept.
pub open spec fn without_git_words(line: Seq<char>) -> Seq<char> {
    if text::has_prefix(line, fence()) || text::contains_seq(line, git_command_marker()) {
        text::join(
            text::words(line).filter(kept_word()),
            seq!['-'],
        )
    } else {
        line
    }
}

pub open spec fn is_name_char(c: char) -> bool {
    unicode::unicode_alphanumeric(c) || c == '-' || c == '_' || c == '/' || c == '.'
}

pub open spec fn name_char() -> spec_fn(char) -> bool {
    |c: char| is_name_char(c)
}

pub open spec fn name_edge() -> spec_fn(char) -> bool {
    |c: char| c == '-' || c == '_' || c == '.' || c == '/'
}

pub open spec fn cut_edge() -> spec_fn(char) -> bool {
    |c: char| c == '-' || c == '_'
}

/// The candidate name before the length limit: the first non-blank line of the
/// output without thinking, without git words, keeping only name characters,
/// with hyphens, underscores, dots and slashes trimmed from both ends.
pub open spec fn name_candidate(raw: Seq<char>) -> Seq<char> {
    text::strip(without_git_words(first_nonblank_line(without_think_tags(raw))).filter(name_char()), name_edge())
}

/// The candidate cut, when longer than 50 bytes, at its last character
/// boundary within 50 bytes, then stripped of trailing hyphens and underscores.
pub open spec fn limited_name(candidate: Seq<char>) -> Seq<char> {
    if unicode::byte_len(candidate) > 50 {
        text::rstrip(unicode::byte_cut(candidate, 50), cut_edge())
    } else {
        candidate
    }
}

/// A branch name as `clean_branch_name` gives it: not empty, at most 50 bytes,
/// only letters, digits, `-`, `_`, `/` and `.`, not starting with `-`, `_`,
/// `.` or `/`, and not ending with `-` or `_`.
pub open spec fn well_formed_name(s: Seq<char>) -> bool {
    &&& s.len() > 0
    &&& unicode::byte_len(s) <= 50
    &&& forall|i: int| 0 <= i < s.len() ==> is_name_char(#[trigger] s[i])
    &&& !name_edge()(s[0])
    &&& !cut_edge()(s.last())
}

/// Some count of leading characters fits in `n` bytes.
proof fn lemma_fits_exists(s: Seq<char>, n: nat) -> (k: int)
    ensures
        unicode::fits_within(s, n, k),
    decreases s.len(),
{
    if unicode::byte_len(s) <= n {
        assert(s.take(s.len() as int) =~= s);
        s.len() as int
    } else {
        let t = s.drop_last();
        let k1 = lemma_fits_exists(t, n);
        assert(t.take(k1) =~= s.take(k1));
        if k1 < t.len() {
            assert(t.take(k1 + 1) =~= s.take(k1 + 1));
        } else {
            assert(s.take(k1 + 1) =~= s);
        }
        k1
    }
}

/// Every name that `clean_branch_name` gives is well formed.
pub proof fn lemma_limited_name_well_formed(raw: Seq<char>)
    requires
        name_candidate(raw).len() > 0,
    ensures
        well_formed_name(limited_name(name_candidate(raw))),
{
    let f = without_git_words(first_nonblank_line(without_think_tags(raw))).filter(name_char());
    let c = name_candidate(raw);
    let (a, b) = model::lemma_strip_shape(f, name_edge());
    assert forall|i: int| 0 <= i < c.len() implies is_name_char(#[trigger] c[i]) by {
        assert(c[i] == f[a + i]);
        without_git_words(first_nonblank_line(without_think_tags(raw))).lemma_filter_pred(name_char(), a + i);
    }
    if unicode::byte_len(c) > 50 {
        let k = lemma_fits_exists(c, 50);
        let kk = choose|k: int| unicode::fits_within(c, 50, k);
        unicode::lemma_fits_within_unique(c, 50, k, kk);
        let cut = unicode::byte_cut(c, 50);
        assert(cut == c.take(k));
        if k == 0 {
            assert(c.take(1).drop_last() =~= Seq::<char>::empty());
            assert(c.take(1).last() == c[0]);
            assert(unicode::byte_len(Seq::<char>::empty()) == 0);
            assert(unicode::byte_len(c.take(1)) == unicode::utf8_width(c[0]));
            assert(false);
        }
        let j = model::lemma_rstrip_shape(cut, cut_edge());
        let r = text::rstrip(cut, cut_edge());
        if j == 0 {
            assert(cut_edge()(cut[0]));
            assert(false);
        }
        assert(r[0] == c[0]);
        assert forall|i: int| 0 <= i < r.len() implies is_name_char(#[trigger] r[i]) by {
            assert(r[i] == c[i]);
        }
        unicode::lemma_byte_len_monotone(cut, j, cut.len() as int);
        assert(cut.take(cut.len() as int) =~= cut);
    }
}

fn class_of(chars: Vec<char>) -> (k: CharClass)
    ensures
        forall|c: char| k.has(c) == chars@.contains(c),
        k.pred() == (|c: char| chars@.contains(c)),
{
    let k = CharClass::AnyOf(chars);
    assert(k.pred() =~= (|c: char| chars@.contains(c)));
    k
}

fn first_nonblank_exec(lines: &Vec<Vec<char>>) -> (r: Vec<char>)
    ensures
        r@ == first_nonblank(text::views(lines@)),
{
    let ghost views = text::views(lines@);
    assert(views.skip(0) =~= views);
    let mut i: usize = 0;
    while i < lines.len()
        invariant
            i <= lines@.len(),
            views == text::views(lines@),
            first_nonblank(views) == first_nonblank(views.skip(i as int)),
        decreases lines.len() - i,
    {
        let t = trim_chars(&lines[i]);
        assert(views.skip(i as int)[0] == lines@[i as int]@);
        if t.len() > 0 {
            return t;
        }
        assert(views.skip(i as int).drop_first() =~= views.skip(i + 1));
        i = i + 1;
    }
    Vec::new()
}

fn think_close_chars() -> (v: Vec<char>)
    ensures
        v@ == think_close(),
{
    let v = vec!['<', '/', 't', 'h', 'i', 'n', 'k', '>'];
    assert(v@ =~= think_close());
    v
}

fn think_open_chars() -> (v: Vec<char>)
    ensures
        v@ == think_open(),
{
    let v = vec!['<', 't', 'h', 'i', 'n', 'k', '>'];
    assert(v@ =~= think_open());
    v
}

fn without_think_tags_exec(raw: Vec<char>) -> (r: Vec<char>)
    ensures
        r@ == without_think_tags(raw@),
{
    let close = think_close_chars();
    let found = rfind_seq(&raw, &close);
    match found {
        Some(e) => {
            let n = raw.len();
            assert(close@.len() == 8);
            assert(e + 8 <= n);
            let start: usize = e + 8;
            let r = slice_chars(&raw, start, n);
            assert(r@ =~= raw@.skip(e + 8));
            r
        },
        None => {
            let open = think_open_chars();
            match find_seq(&raw, &open) {
                Some(t) => {
                    let r = slice_chars(&raw, 0, t);
                    assert(r@ =~= raw@.take(t as int));
                    r
                },
                None => raw,
            }
        },
    }
}

fn first_nonblank_line_exec(s: &Vec<char>) -> (r: Vec<char>)
    ensures
        r@ == first_nonblank_line(s@),
{
    let nl = single_class('\n');
    let lines = split_chars(s, &nl);
    assert(model::is_char('\n') =~= newline());
    assert(text::views(lines@) =~= text::split_by(s@, newline()));
    first_nonblank_exec(&lines)
}

fn without_git_words_exec(line: Vec<char>) -> (r: Vec<char>)
    ensures
        r@ == without_git_words(line@),
{
    let fence_v = vec!['`', '`', '`'];
    let git_v = vec!['g', 'i', 't'];
    let marker_v = vec!['g', 'i', 't', ' '];
    assert(fence_v@ =~= fence());
    assert(git_v@ =~= git_word());
    assert(marker_v@ =~= git_command_marker());
    if starts_with(&line, &fence_v) || contains_exec(&line, &marker_v) {
        let ws = split_whitespace_chars(&line);
        let ghost all = text::words(line@);
        let mut kept: Vec<Vec<char>> = Vec::new();
        let mut i: usize = 0;
        while i < ws.len()
            invariant
                i <= ws@.len(),
                ws@.len() == all.len(),
                forall|k: int| 0 <= k < ws@.len() ==> (#[trigger] ws@[k])@ == all[k],
                text::views(kept@) == all.take(i as int).filter(kept_word()),
                git_v@ == git_word(),
                fence_v@ == fence(),
            decreases ws.len() - i,
        {
            let w = &ws[i];
            let ok = !contains_exec(w, &git_v) && !contains_exec(w, &fence_v);
            proof {
                assert(all.take(i + 1).drop_last() =~= all.take(i as int));
                assert(all.take(i + 1).last() == all[i as int]);
                assert(ok == keeps_word(all[i as int]));
                reveal_with_fuel(Seq::filter, 1);
            }
            let ghost before = kept@;
            if ok {
                let copy = slice_chars(w, 0, w.len());
                assert(copy@ =~= all[i as int]);
                kept.push(copy);
                assert(text::views(kept@) =~= text::views(before).push(all[i as int]));
            }
            i = i + 1;
        }
        assert(all.take(ws@.len() as int) =~= all);
        let hyphen = vec!['-'];
        assert(hyphen@ =~= seq!['-']);
        join_chars(&kept, &hyphen)
    } else {
        line
    }
}

fn keep_name_chars(processed: &Vec<char>) -> (r: Vec<char>)
    ensures
        r@ == processed@.filter(name_char()),
{
    let mut filtered: Vec<char> = Vec::new();
    let mut j: usize = 0;
    while j < processed.len()
        invariant
            j <= processed@.len(),
            filtered@ == processed@.take(j as int).filter(name_char()),
        decreases processed.len() - j,
    {
        let c = processed[j];
        let ok = char_is_alphanumeric(c) || c == '-' || c == '_' || c == '/' || c == '.';
        proof {
            assert(processed@.take(j + 1).drop_last() =~= processed@.take(j as int));
            assert(processed@.take(j + 1).last() == c);
            reveal_with_fuel(Seq::filter, 1);
        }
        if ok {
            filtered.push(c);
        }
        j = j + 1;
    }
    assert(processed@.take(processed@.len() as int) =~= processed@);
    filtered
}

fn name_edge_class() -> (k: CharClass)
    ensures
        k.pred() == name_edge(),
{
    let edges = class_of(vec!['-', '_', '.', '/']);
    assert(edges.pred() =~= name_edge()) by {
        assert forall|c: char| edges.has(c) == (c == '-' || c == '_' || c == '.' || c == '/') by {
            let v = seq!['-', '_', '.', '/'];
            if c == '-' {
                assert(v[0] == c);
            }
            if c == '_' {
                assert(v[1] == c);
            }
            if c == '.' {
                assert(v[2] == c);
            }
            if c == '/' {
                assert(v[3] == c);
            }
        }
    }
    edges
}

fn limit_name(trimmed: &Vec<char>) -> (r: Vec<char>)
    ensures
        r@ == limited_name(trimmed@),
{
    let n = unicode::byte_len_capped(trimmed, 50);
    if n > 50 {
        let cut = take_within(trimmed, 50);
        let tail = class_of(vec!['-', '_']);
        assert(tail.pred() =~= cut_edge()) by {
            assert forall|c: char| tail.has(c) == (c == '-' || c == '_') by {
                let v = seq!['-', '_'];
                if c == '-' {
                    assert(v[0] == c);
                }
                if c == '_' {
                    assert(v[1] == c);
                }
            }
        }
        let k = rstrip_len(&cut, &tail);
        let result = slice_chars(&cut, 0, k);
        assert(result@ =~= cut@.take(k as int));
        result
    } else {
        slice_chars(trimmed, 0, trimmed.len())
    }
}

/// Clean up a generated branch name to follow git conventions: drop thinking,
/// take the first non-blank line, drop git words of code fences or git
/// commands, keep letters, digits, `-`, `_`, `/` and `.`, trim `-`, `_`, `.`
/// and `/` from both ends, and cut to the last character boundary within 50
/// bytes. An empty result is refused; every other input gives a well-formed
/// name.
pub fn clean_branch_name(raw_name: &str) -> (r: Result<String, NoValidBranchName>)
    ensures
        first_nonblank_line(without_think_tags(raw_name@)).len() == 0 || name_candidate(
            raw_name@,
        ).len() == 0 ==> r is Err,
        first_nonblank_line(without_think_tags(raw_name@)).len() > 0 && name_candidate(
            raw_name@,
        ).len() > 0 ==> (r matches Ok(s) && s@ == limited_name(name_candidate(raw_name@))),
        r matches Ok(s) ==> well_formed_name(s@),
{
    let without_tags = without_think_tags_exec(chars_of(raw_name));
    let first_line = first_nonblank_line_exec(&without_tags);
    if first_line.len() == 0 {
        return Err(NoValidBranchName);
    }
    let processed = without_git_words_exec(first_line);
    let filtered = keep_name_chars(&processed);
    let trimmed = strip_chars(&filtered, &name_edge_class());
    if trimmed.len() == 0 {
        return Err(NoValidBranchName);
    }
    let result = limit_name(&trimmed);
    proof {
        lemma_limited_name_well_formed(raw_name@);
    }
    Ok(string_of(&result))
}

/// Truncate tokens when they exceed the context limit less the generation
/// buffer; returns the original token count when it truncated.
pub fn truncate_tokens_if_needed(tokens: &mut Vec<u32>, max_context_tokens: usize) -> (r: Option<usize>)
    requires
        max_context_tokens >= GENERATION_BUFFER,
    ensures
        old(tokens)@.len() > max_context_tokens - GENERATION_BUFFER ==> r == Some(old(tokens)@.len() as usize)
            && final(tokens)@ == old(tokens)@.take(max_context_tokens - GENERATION_BUFFER),
        old(tokens)@.len() <= max_context_tokens - GENERATION_BUFFER ==> r is None && final(tokens)@ == old(tokens)@,
{
    if tokens.len() > max_context_tokens - GENERATION_BUFFER {
        let original_len = tokens.len();
        let max_tokens = max_context_tokens - GENERATION_BUFFER;
        tokens.truncate(max_tokens);
        Some(original_len)
    } else {
        None
    }
}

} // verus!
