//! Token counting with the `cl100k_base` vocabulary.

use vstd::prelude::*;
use vstd::utf8::encode_utf8;
use crate::text::chars_of;

verus! {

/// The number of tokens that the `cl100k_base` encoding, special tokens
/// allowed, cuts a text into.
pub uninterp spec fn token_count(text: Seq<char>) -> nat;

/// The longest text, in characters, that is handed to the tokenizer.
///
/// The tokenizer cuts a text with a backtracking pattern matcher that
/// keeps one entry for each character of a run of white space on a stack
/// of a million entries, and panics where the stack is full. Half of that
/// stack is more than any text of this length can fill.
pub const MAX_TOKENIZED_CHARS: usize = 500_000;

/// Counts the tokens of `text`.
///
/// Wraps `CoreBPE::encode_with_special_tokens` of `tiktoken_rs`, on the
/// shared `cl100k_base` encoder. The encoding is byte-pair merging over a
/// fixed vocabulary and depends on the text alone; it is not written out
/// here, so the contract only names the length of its result. Texts that
/// could fill the stack of the encoder's pattern matcher are kept out.
#[verifier::external_body]
pub(crate) fn count_tokens(text: &str) -> (n: usize)
    requires
        text@.len() <= MAX_TOKENIZED_CHARS,
    ensures
        n == token_count(text@),
{
    tiktoken_rs::cl100k_base_singleton().lock().encode_with_special_tokens(text).len()
}

/// A token count as stored with a chunk: the count itself, or the largest
/// value of the field where the count exceeds it.
pub open spec fn stored_token_count(n: nat) -> i32 {
    if n > i32::MAX {
        i32::MAX
    } else {
        n as i32
    }
}

/// A text has at least as many bytes as characters.
pub proof fn lemma_chars_at_most_bytes(text: Seq<char>)
    ensures
        text.len() <= encode_utf8(text).len(),
    decreases text.len(),
{
    if text.len() > 0 {
        lemma_chars_at_most_bytes(text.drop_first());
    }
}

/// The token count of a text that is short enough for the tokenizer, as
/// stored with a chunk.
pub(crate) fn stored_count(text: &str) -> (n: i32)
    requires
        text@.len() <= MAX_TOKENIZED_CHARS,
    ensures
        n == stored_token_count(token_count(text@)),
{
    let c = count_tokens(text);
    if c > i32::MAX as usize {
        i32::MAX
    } else {
        c as i32
    }
}

/// What `token_count_of` gives for a text: its token count as stored with
/// a chunk, or nothing where the text is too long for the tokenizer.
pub open spec fn counted(text: Seq<char>) -> Option<i32> {
    if text.len() <= MAX_TOKENIZED_CHARS {
        Some(stored_token_count(token_count(text)))
    } else {
        None
    }
}

/// The token count of `text`, as stored with a chunk; `None` where the
/// text has more than `MAX_TOKENIZED_CHARS` characters.
pub fn token_count_of(text: &str) -> (n: Option<i32>)
    ensures
        n == counted(text@),
{
    let short = if text.as_bytes().len() <= MAX_TOKENIZED_CHARS {
        proof {
            lemma_chars_at_most_bytes(text@);
        }
        true
    } else {
        chars_of(text).len() <= MAX_TOKENIZED_CHARS
    };
    if short {
        Some(stored_count(text))
    } else {
        None
    }
}

} // verus!
