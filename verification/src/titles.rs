//! Short titles for documents, made from their content.
//!
//! Asking the model is the caller's part.

use vstd::prelude::*;
use vstd::utf8::encode_utf8;
use crate::error::RecallError;
use crate::llm::{truncate_at_word_boundary, word_truncated, TITLE_ATTEMPTS};
use crate::models::Chunk;
use crate::text::{
    chars_of, joined, push_chars, string_of, subvec, trim, trim_chars, trimmed,
};

verus! {

/// The longest title, in bytes.
pub const TITLE_MAX_CHARS: usize = 40;

/// The characters of the content that are shown to the model, at most.
pub const TITLE_SAMPLE_CHARS: usize = 2000;

/// The bytes under which a text is its own title.
pub const SHORT_TEXT_LEN: usize = 20;

/// The chunks of a document that a title is made from.
pub const TITLE_CHUNKS: usize = 3;

/// The bytes of content under which a file gets no generated title.
pub const MIN_FILE_CONTENT: usize = 50;

/// The bytes of content under which a screenshot gets no generated
/// title.
pub const MIN_CAPTURE_CONTENT: usize = 20;

/// The milliseconds to wait before a title is asked for again.
pub const TITLE_RETRY_MILLIS: u64 = 500;

/// The first `n` characters of a text, or all of it.
pub open spec fn first_chars(text: Seq<char>, n: int) -> Seq<char> {
    if text.len() <= n {
        text
    } else if n <= 0 {
        Seq::empty()
    } else {
        text.subrange(0, n)
    }
}

fn take_chars(v: &Vec<char>, n: usize) -> (r: Vec<char>)
    ensures
        r@ == first_chars(v@, n as int),
{
    if v.len() <= n {
        let r = subvec(v, 0, v.len());
        proof {
            assert(v@.subrange(0, v@.len() as int) =~= v@);
        }
        r
    } else {
        let r = subvec(v, 0, n);
        proof {
            if n == 0 {
                assert(v@.subrange(0, 0) =~= Seq::<char>::empty());
            }
        }
        r
    }
}

/// The title of a text that is too short to ask the model about: its
/// first `max_chars` characters, without the white space around it;
/// `None` for a text of twenty bytes or more.
pub fn title_without_model(text: &str, max_chars: usize) -> (r: Option<String>)
    ensures
        encode_utf8(trimmed(text@)).len() < SHORT_TEXT_LEN ==> (r matches Some(t) && t@
            == first_chars(trimmed(text@), max_chars as int)),
        encode_utf8(trimmed(text@)).len() >= SHORT_TEXT_LEN ==> r is None,
{
    let t = trim(text);
    if t.as_str().as_bytes().len() < SHORT_TEXT_LEN {
        let chars = chars_of(t.as_str());
        Some(string_of(&take_chars(&chars, max_chars)))
    } else {
        None
    }
}

/// What is shown to the model of a text: its first two thousand
/// characters, without the white space around the text.
pub fn title_sample(text: &str) -> (r: String)
    ensures
        r@ == first_chars(trimmed(text@), TITLE_SAMPLE_CHARS as int),
{
    let chars = chars_of(text);
    let t = trim_chars(&chars);
    string_of(&take_chars(&t, TITLE_SAMPLE_CHARS))
}

/// Whether a character is stripped from the ends of a title: quotation
/// marks, line feeds and asterisks.
pub open spec fn is_title_noise(c: char) -> bool {
    c == '"' || c == '\'' || c == '\n' || c == '*'
}

/// The index of the first character at or after `from` that is no noise.
pub open spec fn skip_noise(s: Seq<char>, from: int) -> int
    decreases s.len() - from,
{
    if 0 <= from < s.len() && is_title_noise(s[from]) {
        skip_noise(s, from + 1)
    } else {
        from
    }
}

/// The end of the part of `s[lo..to]` that is left when noise at its end
/// is removed.
pub open spec fn drop_noise(s: Seq<char>, lo: int, to: int) -> int
    decreases to - lo,
{
    if lo < to <= s.len() && is_title_noise(s[to - 1]) {
        drop_noise(s, lo, to - 1)
    } else {
        to
    }
}

/// A title without noise at its ends.
pub open spec fn without_noise(s: Seq<char>) -> Seq<char> {
    let a = skip_noise(s, 0);
    let b = drop_noise(s, a, s.len() as int);
    s.subrange(a, b)
}

/// What the model replied as a title: without the white space around
/// it, without noise at its ends, and cut at a word to at most
/// `max_chars` bytes.
pub open spec fn cleaned_title(raw: Seq<char>, max_chars: int) -> Seq<char> {
    let clean = without_noise(trimmed(raw));
    if encode_utf8(clean).len() > max_chars {
        word_truncated(clean, max_chars)
    } else {
        clean
    }
}

fn is_noise(c: char) -> (r: bool)
    ensures
        r == is_title_noise(c),
{
    c == '"' || c == '\'' || c == '\n' || c == '*'
}

fn strip_noise(v: &Vec<char>) -> (r: Vec<char>)
    ensures
        r@ == without_noise(v@),
{
    let mut a: usize = 0;
    while a < v.len() && is_noise(v[a])
        invariant
            a <= v.len(),
            skip_noise(v@, 0) == skip_noise(v@, a as int),
        decreases v.len() - a,
    {
        a += 1;
    }
    let mut b: usize = v.len();
    while b > a && is_noise(v[b - 1])
        invariant
            a <= b <= v.len(),
            drop_noise(v@, a as int, v.len() as int) == drop_noise(v@, a as int, b as int),
        decreases b - a,
    {
        b -= 1;
    }
    subvec(v, a, b)
}

/// Cleans what the model replied as a title.
pub fn clean_title(raw: &str, max_chars: usize) -> (r: String)
    ensures
        r@ == cleaned_title(raw@, max_chars as int),
{
    let chars = chars_of(raw);
    let t = trim_chars(&chars);
    let clean = string_of(&strip_noise(&t));
    if clean.as_str().as_bytes().len() > max_chars {
        truncate_at_word_boundary(clean.as_str(), max_chars)
    } else {
        clean
    }
}

/// What to do with a reply to the request for a title.
#[derive(Debug, Clone)]
pub enum TitleStep {
    /// The title.
    Done(String),
    /// Wait this many milliseconds, then ask again.
    RetryAfterMs(u64),
    /// No title could be had.
    Fail(RecallError),
}

/// Decides what to do with the reply to attempt number `attempt`,
/// counted from 1, of at most two to have a title generated.
///
/// A reply that is not empty but for white space is cleaned and is the
/// title. An empty reply is asked for again once, then given up.
pub fn on_title_reply(attempt: u32, raw: &str, max_chars: usize) -> (r: TitleStep)
    ensures
        trimmed(raw@).len() > 0 ==> (r matches TitleStep::Done(t) && t@ == cleaned_title(
            raw@,
            max_chars as int,
        )),
        trimmed(raw@).len() == 0 && attempt < TITLE_ATTEMPTS ==> (r matches TitleStep::RetryAfterMs(
            ms,
        ) && ms == TITLE_RETRY_MILLIS),
        trimmed(raw@).len() == 0 && attempt >= TITLE_ATTEMPTS ==> (r matches TitleStep::Fail(
            RecallError::LlmApi(m),
        ) && m@ == "Title generation returned empty response"@),
{
    let t = trim(raw);
    if !t.as_str().is_empty() {
        TitleStep::Done(clean_title(raw, max_chars))
    } else if attempt < TITLE_ATTEMPTS {
        TitleStep::RetryAfterMs(TITLE_RETRY_MILLIS)
    } else {
        TitleStep::Fail(RecallError::LlmApi("Title generation returned empty response".to_owned()))
    }
}

/// The texts of the first chunks of a document, at most three.
pub open spec fn leading_texts(chunks: Seq<Chunk>) -> Seq<Seq<char>> {
    Seq::new(
        if chunks.len() <= TITLE_CHUNKS {
            chunks.len()
        } else {
            TITLE_CHUNKS as nat
        },
        |i: int| chunks[i].content@,
    )
}

/// The text that a title is made from: the first chunks of a document
/// with a space between them.
pub open spec fn title_text(chunks: Seq<Chunk>) -> Seq<char> {
    joined(leading_texts(chunks), seq![' '], leading_texts(chunks).len() as int)
}

/// Gives the text that a title for a document is to be made from, if
/// the document has enough content: at least `min_len` bytes, white
/// space at the ends not counted.
pub fn title_source(chunks: &Vec<Chunk>, min_len: usize) -> (r: Option<String>)
    ensures
        chunks@.len() == 0 ==> r is None,
        chunks@.len() > 0 && encode_utf8(trimmed(title_text(chunks@))).len() < min_len ==> r is None,
        chunks@.len() > 0 && encode_utf8(trimmed(title_text(chunks@))).len() >= min_len ==> (
        r matches Some(t) && t@ == title_text(chunks@)),
{
    if chunks.len() == 0 {
        return None;
    }
    let n = if chunks.len() <= TITLE_CHUNKS {
        chunks.len()
    } else {
        TITLE_CHUNKS
    };
    let ghost texts = leading_texts(chunks@);
    let mut combined = String::new();
    let mut i: usize = 0;
    while i < n
        invariant
            i <= n <= chunks.len(),
            n == texts.len(),
            texts == leading_texts(chunks@),
            combined@ == joined(texts, seq![' '], i as int),
        decreases n - i,
    {
        if i > 0 {
            crate::text::push_char(&mut combined, ' ');
        }
        let ghost before = combined@;
        let piece = chars_of(chunks[i].content.as_str());
        push_chars(&mut combined, &piece);
        proof {
            assert(texts[i as int] == chunks@[i as int].content@);
            if i == 0 {
                assert(joined(texts, seq![' '], 0) =~= Seq::<char>::empty());
                assert(combined@ =~= texts[0]);
            } else {
                assert(combined@ =~= joined(texts, seq![' '], i as int) + seq![' '] + texts[i as int]);
            }
        }
        i += 1;
    }
    let t = trim(combined.as_str());
    if t.as_str().as_bytes().len() < min_len {
        None
    } else {
        Some(combined)
    }
}

/// The title to give a document, of what came back from the model: the
/// title, unless the model failed or gave none.
pub fn accept_title(generated: std::result::Result<String, RecallError>) -> (r: Option<String>)
    ensures
        r == match generated {
            Ok(t) => if t@.len() > 0 {
                Some(t)
            } else {
                None
            },
            Err(_) => None,
        },
{
    match generated {
        Ok(t) => {
            if t.as_str().is_empty() {
                None
            } else {
                Some(t)
            }
        },
        Err(_) => None,
    }
}

/// Whether related documents are looked for after an ingestion: only
/// with a model, and only where the store holds another document.
pub fn should_check_related(has_model: bool, document_count: usize) -> (r: bool)
    ensures
        r == (has_model && document_count > 1),
{
    has_model && document_count > 1
}

} // verus!
