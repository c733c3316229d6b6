//! Prompts that ask a language model for a branch name describing commits.

use vstd::prelude::*;
use crate::text::{self, CharClass, chars_of, join_chars, split_chars, string_of, trim_chars};
use crate::unicode::{self, char_is_alphabetic, str_to_lowercase};

verus! {

/// Maximum length for branch names (git's practical limit), in bytes.
pub const MAX_BRANCH_NAME_LENGTH: usize = 50;

/// Whatever a prompt could fail on; no prompt construction fails today.
#[derive(Debug, Clone, Copy, PartialEq, Eq, Structural)]
pub struct PromptError;

pub open spec fn word_separators() -> spec_fn(char) -> bool {
    |c: char| c == '-' || c == '_' || c == '/'
}

/// The lowercased, trimmed form of a piece of a branch name.
pub open spec fn clean_word(w: Seq<char>) -> Seq<char> {
    unicode::unicode_lowercase(text::trim(w))
}

/// A word is meaningful when it takes at least three bytes and holds a letter.
pub open spec fn is_meaningful(w: Seq<char>) -> bool {
    unicode::byte_len(w) >= 3 && exists|i: int| 0 <= i < w.len() && unicode::unicode_alphabetic(#[trigger] w[i])
}

/// The meaningful words of a branch name: its pieces between `-`, `_` and `/`,
/// trimmed and lowercased, keeping those that are meaningful, in order.
pub open spec fn meaningful_words(name: Seq<char>) -> Seq<Seq<char>> {
    text::split_by(name, word_separators()).map_values(|w: Seq<char>| clean_word(w)).filter(
        |w: Seq<char>| is_meaningful(w),
    )
}

fn has_alphabetic(v: &[char]) -> (b: bool)
    ensures
        b == exists|i: int| 0 <= i < v@.len() && unicode::unicode_alphabetic(#[trigger] v@[i]),
{
    let mut i: usize = 0;
    while i < v.len()
        invariant
            i <= v@.len(),
            forall|j: int| 0 <= j < i ==> !unicode::unicode_alphabetic(#[trigger] v@[j]),
        decreases v.len() - i,
    {
        if char_is_alphabetic(v[i]) {
            return true;
        }
        i = i + 1;
    }
    false
}

/// Extract meaningful words from a branch name to avoid repeating them in an
/// alternative suggestion.
pub fn extract_meaningful_words(branch_name: &str) -> (r: Vec<String>)
    ensures
        r@.map_values(|s: String| s@) == meaningful_words(branch_name@),
{
    let seps = CharClass::AnyOf(vec!['-', '_', '/']);
    assert(seps.pred() =~= word_separators()) by {
        assert forall|c: char| seps.has(c) == (c == '-' || c == '_' || c == '/') by {
            let v = seq!['-', '_', '/'];
            if c == '-' {
                assert(v[0] == c);
            }
            if c == '_' {
                assert(v[1] == c);
            }
            if c == '/' {
                assert(v[2] == c);
            }
        }
    }
    let pieces = split_chars(&chars_of(branch_name), &seps);
    let ghost all = text::split_by(branch_name@, word_separators());
    let ghost cleaned = all.map_values(|w: Seq<char>| clean_word(w));
    let mut out: Vec<String> = Vec::new();
    let mut i: usize = 0;
    while i < pieces.len()
        invariant
            i <= pieces@.len(),
            pieces@.len() == all.len(),
            forall|k: int| 0 <= k < pieces@.len() ==> (#[trigger] pieces@[k])@ == all[k],
            cleaned == all.map_values(|w: Seq<char>| clean_word(w)),
            out@.map_values(|s: String| s@) == cleaned.take(i as int).filter(
                |w: Seq<char>| is_meaningful(w),
            ),
        decreases pieces.len() - i,
    {
        let trimmed = string_of(&trim_chars(&pieces[i]));
        let lower = str_to_lowercase(trimmed.as_str());
        let lower_chars = chars_of(lower.as_str());
        let n = unicode::byte_len_capped(&lower_chars, 3);
        let keep = n >= 3 && has_alphabetic(&lower_chars);
        proof {
            assert(lower@ == clean_word(all[i as int]));
            assert(cleaned.take(i + 1).drop_last() =~= cleaned.take(i as int));
            assert(keep == is_meaningful(cleaned[i as int]));
            reveal_with_fuel(Seq::filter, 1);
        }
        let ghost before = out@;
        if keep {
            out.push(lower);
            assert(out@.map_values(|s: String| s@) =~= before.map_values(|s: String| s@).push(
                lower@,
            ));
        }
        i = i + 1;
    }
    assert(cleaned.take(pieces@.len() as int) =~= cleaned);
    out
}

/// Appends the words separated by ", ".
fn join_words(words: &Vec<String>) -> (r: Vec<char>)
    ensures
        r@ == text::join(words@.map_values(|s: String| s@), ", "@),
{
    let mut parts: Vec<Vec<char>> = Vec::new();
    let mut i: usize = 0;
    while i < words.len()
        invariant
            i <= words@.len(),
            parts@.len() == i,
            forall|k: int| 0 <= k < i ==> (#[trigger] parts@[k])@ == words@[k]@,
        decreases words.len() - i,
    {
        parts.push(chars_of(words[i].as_str()));
        i = i + 1;
    }
    let sep = chars_of(", ");
    let r = join_chars(&parts, &sep);
    assert(parts@.map_values(|p: Vec<char>| p@) =~= words@.map_values(|s: String| s@));
    r
}

pub open spec fn generic_prompt_head() -> Seq<char> {
    "Create one branch name for all commits (max 50 characters):\n    \nExample:\nUpdate payment gateway\n\nA       auth.js\nM       payment.js\n\nAdd unit tests for payment flow\n\nA       test-login.js\n\nUpdate API documentation\n\nM       README.md\n\nBranch name: update-payment-gateway-tests-docs\n\nYour turn:\n"@
}

pub open spec fn generic_prompt(git_output: Seq<char>) -> Seq<char> {
    generic_prompt_head() + text::trim(git_output) + "\n\nBranch name:"@
}

/// Create a generic prompt from raw git log output: a worked example, then the
/// trimmed output, then the request for a branch name.
pub fn create_generic_prompt(git_output: &str) -> (r: Result<String, PromptError>)
    ensures
        r matches Ok(s) && s@ == generic_prompt(git_output@),
{
    let mut s = String::from_str(
        "Create one branch name for all commits (max 50 characters):\n    \nExample:\nUpdate payment gateway\n\nA       auth.js\nM       payment.js\n\nAdd unit tests for payment flow\n\nA       test-login.js\n\nUpdate API documentation\n\nM       README.md\n\nBranch name: update-payment-gateway-tests-docs\n\nYour turn:\n",
    );
    let trimmed = string_of(&trim_chars(&chars_of(git_output)));
    s.append(trimmed.as_str());
    s.append("\n\nBranch name:");
    Ok(s)
}

pub open spec fn avoid_instruction(previous: Seq<char>) -> Seq<char> {
    let words = meaningful_words(previous);
    if words.len() == 0 {
        "Previous suggestion: "@ + previous
            + "\nCreate a DIFFERENT branch name using completely different words."@
    } else {
        "Previous suggestion: "@ + previous + "\nDO NOT use these words: "@ + text::join(
            words,
            ", "@,
        ) + "\nCreate a DIFFERENT branch name using completely different words."@
    }
}

pub open spec fn generic_alternative_prompt(git_output: Seq<char>, previous: Seq<char>) -> Seq<
    char,
> {
    "Create one branch name for all commits (max 50 characters):\n\n"@ + text::trim(git_output)
        + "\n\n"@ + avoid_instruction(previous) + "\n\nAlternative branch name:"@
}

/// Create a generic alternative prompt when a previous suggestion exists; it
/// names the meaningful words of that suggestion as words to avoid.
pub fn create_generic_alternative_prompt(git_output: &str, previous_suggestion: &str) -> (r: Result<
    String,
    PromptError,
>)
    ensures
        r matches Ok(s) && s@ == generic_alternative_prompt(git_output@, previous_suggestion@),
{
    let words = extract_meaningful_words(previous_suggestion);
    let mut avoid = String::from_str("Previous suggestion: ");
    avoid.append(previous_suggestion);
    if words.len() > 0 {
        avoid.append("\nDO NOT use these words: ");
        let joined = string_of(&join_words(&words));
        avoid.append(joined.as_str());
    }
    avoid.append("\nCreate a DIFFERENT branch name using completely different words.");
    let mut s = String::from_str("Create one branch name for all commits (max 50 characters):\n\n");
    let trimmed = string_of(&trim_chars(&chars_of(git_output)));
    s.append(trimmed.as_str());
    s.append("\n\n");
    s.append(avoid.as_str());
    s.append("\n\nAlternative branch name:");
    assert(s@ =~= generic_alternative_prompt(git_output@, previous_suggestion@));
    Ok(s)
}

pub open spec fn chatml_system(previous: Option<Seq<char>>) -> Seq<char> {
    let base = "You are a Git branch name generator."@;
    let with_previous = match previous {
        None => base,
        Some(prev) => {
            let words = meaningful_words(prev);
            let head = base + " Previous suggestion was '"@ + prev + "'."@
                + " Create a DIFFERENT name using completely different words."@;
            if words.len() == 0 {
                head
            } else {
                head + " DO NOT use these words: "@ + text::join(words, ", "@) + "."@
            }
        },
    };
    with_previous + " "@
        + "Output only the branch name. Use lowercase letters, numbers, and hyphens only. Maximum 50 characters."@
}

pub open spec fn chatml_prompt(git_output: Seq<char>, previous: Option<Seq<char>>) -> Seq<char> {
    "<|im_start|>system\n"@ + chatml_system(previous) + " /no_think<|im_end|>\n<|im_start|>user\n"@
        + text::trim(git_output) + "<|im_end|>\n<|im_start|>assistant"@
}

/// Create a ChatML-formatted prompt for Qwen3 models; with a previous
/// suggestion, the system message asks for a different name and lists the
/// words to avoid.
pub fn create_chatml_prompt(git_output: &str, previous_suggestion: Option<&str>) -> (r: Result<
    String,
    PromptError,
>)
    ensures
        r matches Ok(s) && s@ == chatml_prompt(
            git_output@,
            match previous_suggestion {
                Some(p) => Some(p@),
                None => None,
            },
        ),
{
    let mut system = String::from_str("You are a Git branch name generator.");
    if let Some(prev) = previous_suggestion {
        system.append(" Previous suggestion was '");
        system.append(prev);
        system.append("'.");
        system.append(" Create a DIFFERENT name using completely different words.");
        let words = extract_meaningful_words(prev);
        if words.len() > 0 {
            system.append(" DO NOT use these words: ");
            let joined = string_of(&join_words(&words));
            system.append(joined.as_str());
            system.append(".");
        }
    }
    system.append(" ");
    system.append(
        "Output only the branch name. Use lowercase letters, numbers, and hyphens only. Maximum 50 characters.",
    );
    let mut s = String::from_str("<|im_start|>system\n");
    s.append(system.as_str());
    s.append(" /no_think<|im_end|>\n<|im_start|>user\n");
    let trimmed = string_of(&trim_chars(&chars_of(git_output)));
    s.append(trimmed.as_str());
    s.append("<|im_end|>\n<|im_start|>assistant");
    assert(s@ =~= chatml_prompt(
        git_output@,
        match previous_suggestion {
            Some(p) => Some(p@),
            None => None,
        },
    ));
    Ok(s)
}

} // verus!
