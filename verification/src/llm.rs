//! The rules of the model client: how failures of the provider are
//! read, when a request is tried again, what is put before the model,
//! and how its replies are cleaned.
//!
//! Sending requests and waiting are the caller's part.

use vstd::prelude::*;
use vstd::string::StringExecFns;
use vstd::utf8::encode_utf8;
use crate::citations::{
    citation_pattern, citation_views, citations_of, parse_citations, CitationRef,
};
use crate::error::RecallError;
use crate::json::{json_member, json_member_of, json_string, json_string_of};
use crate::notifications::{byte_prefix, prefix_of};
use crate::patterns::regex_matches;
use crate::rag::ContextChunk;
use crate::text::{
    chars_of, decimal, joined, last_index_of, push_decimal, push_signed, rfind_byte,
    signed_decimal, str_eq, string_of, trim, trim_end_chars, trimmed, trimmed_end,
};

verus! {

/// The requests per minute that the client allows itself by default.
pub const DEFAULT_REQUESTS_PER_MINUTE: u64 = 60;

/// The seconds after which a request is given up.
pub const REQUEST_TIMEOUT_SECS: u64 = 120;

/// The seconds after which an upload is given up.
pub const UPLOAD_TIMEOUT_SECS: u64 = 300;

/// The longest wait before a request is tried again, in seconds.
pub const MAX_BACKOFF_SECS: u64 = 120;

/// The seconds to wait that are assumed where the provider limits the
/// rate without saying how long to wait.
pub const DEFAULT_RETRY_AFTER_SECS: u64 = 60;

/// The texts embedded in one request, at most.
pub const EMBED_BATCH_SIZE: usize = 100;

/// The pages sent for recognition in one request.
pub const OCR_BATCH_SIZE: usize = 3;

/// The attempts to have an image described.
pub const IMAGE_ATTEMPTS: u32 = 5;

/// The attempts to have a title generated.
pub const TITLE_ATTEMPTS: u32 = 2;

/// The longest part of a reply that is shown in a failure, in bytes.
pub const ERROR_BODY_LEN: usize = 200;

/// The largest file that is uploaded to the provider: 2 GiB.
pub const MAX_UPLOAD_SIZE: u64 = 2 * 1024 * 1024 * 1024;

/// Checks the size of a PDF before it is uploaded to be read.
pub fn check_upload_size(size: u64) -> (r: std::result::Result<(), RecallError>)
    ensures
        r is Err <==> size > MAX_UPLOAD_SIZE,
        r matches Err(e) ==> (e matches RecallError::Ingestion(m) && m@ == "PDF too large ("@
            + decimal((crate::ingestion::tenths_of_mib(size) / 10) as nat) + "."@ + decimal(
            (crate::ingestion::tenths_of_mib(size) % 10) as nat,
        ) + " MB). Maximum supported size is 2 GB."@),
{
    if size <= MAX_UPLOAD_SIZE {
        return Ok(());
    }
    let tenths = crate::ingestion::size_in_tenths_of_mib(size);
    let mut m = String::new();
    m.append("PDF too large (");
    push_decimal(&mut m, tenths / 10);
    m.append(".");
    push_decimal(&mut m, tenths % 10);
    m.append(" MB). Maximum supported size is 2 GB.");
    proof {
        assert(m@ =~= "PDF too large ("@ + decimal(
            (crate::ingestion::tenths_of_mib(size) / 10) as nat,
        ) + "."@ + decimal((crate::ingestion::tenths_of_mib(size) % 10) as nat)
            + " MB). Maximum supported size is 2 GB."@);
    }
    Err(RecallError::Ingestion(m))
}

/// The seconds to wait before try number `retry`, counted from 1, after
/// the provider asked to wait `wait_secs`: the product of the two, but
/// at most 120.
pub open spec fn backoff_secs(wait_secs: u64, retry: u32) -> u64 {
    if wait_secs * retry > MAX_BACKOFF_SECS {
        MAX_BACKOFF_SECS
    } else {
        (wait_secs * retry) as u64
    }
}

/// The seconds to wait before try number `retry` after a rate limit.
pub fn rate_limit_backoff(wait_secs: u64, retry: u32) -> (r: u64)
    ensures
        r == backoff_secs(wait_secs, retry),
        r <= MAX_BACKOFF_SECS,
{
    assert(wait_secs * retry <= 0xFFFF_FFFF_FFFF_FFFF * 0xFFFF_FFFF) by (nonlinear_arith)
        requires
            0 <= wait_secs <= 0xFFFF_FFFF_FFFF_FFFF,
            0 <= retry <= 0xFFFF_FFFF,
    ;
    let product: u128 = wait_secs as u128 * retry as u128;
    if product > MAX_BACKOFF_SECS as u128 {
        MAX_BACKOFF_SECS
    } else {
        product as u64
    }
}

/// What to do after a request has failed.
#[derive(Debug, Clone, Copy, PartialEq, Eq, Structural)]
pub enum RetryDecision {
    /// Hand the failure on.
    GiveUp,
    /// Wait this many seconds, then try again.
    RetryAfterSecs(u64),
}

/// Decides what to do after a request has failed for the time number
/// `retries_so_far + 1`.
///
/// Only a rate limit is worth another try, and only while fewer than
/// `max_retries` tries were added; the wait grows with each try. Every
/// other failure, an invalid key among them, is handed on at once.
pub fn after_failure(error: &RecallError, retries_so_far: u32, max_retries: u32) -> (r:
    RetryDecision)
    ensures
        r == match *error {
            RecallError::RateLimit(wait_secs) => if retries_so_far < max_retries {
                RetryDecision::RetryAfterSecs(
                    backoff_secs(wait_secs, (retries_so_far + 1) as u32),
                )
            } else {
                RetryDecision::GiveUp
            },
            _ => RetryDecision::GiveUp,
        },
        !(error is RateLimit) ==> r == RetryDecision::GiveUp,
{
    match error {
        RecallError::RateLimit(wait_secs) => {
            if retries_so_far < max_retries {
                RetryDecision::RetryAfterSecs(rate_limit_backoff(*wait_secs, retries_so_far + 1))
            } else {
                RetryDecision::GiveUp
            }
        },
        _ => RetryDecision::GiveUp,
    }
}

/// Whether a status code says that the request succeeded.
pub open spec fn is_success(status: u16) -> bool {
    200 <= status < 300
}

/// The text of the failure for a reply with a status that is neither a
/// success, a rate limit nor a refusal of the key.
pub open spec fn api_error_text(status_text: Seq<char>, detail: Seq<char>) -> Seq<char> {
    "API error "@ + status_text + ": "@ + detail
}

/// Reads the status of a reply of the provider.
///
/// Status 429 is a rate limit with a wait of 60 seconds. Status 401 and
/// 403 say that the key is invalid. Any other status but a success is a
/// failure of the provider that shows the status line and the reply's
/// body.
pub fn error_for_status(status: u16, status_text: &str, body: &str) -> (r: Option<RecallError>)
    ensures
        is_success(status) ==> r is None,
        status == 429 ==> (r matches Some(RecallError::RateLimit(w)) && w
            == DEFAULT_RETRY_AFTER_SECS),
        status == 401 || status == 403 ==> (r matches Some(RecallError::InvalidApiKey)),
        !is_success(status) && status != 429 && status != 401 && status != 403 ==> (r matches Some(
            RecallError::LlmApi(m),
        ) && m@ == api_error_text(status_text@, body@)),
{
    if 200 <= status && status < 300 {
        None
    } else if status == 429 {
        Some(RecallError::RateLimit(DEFAULT_RETRY_AFTER_SECS))
    } else if status == 401 || status == 403 {
        Some(RecallError::InvalidApiKey)
    } else {
        let mut m = String::new();
        m.append("API error ");
        m.append(status_text);
        m.append(": ");
        m.append(body);
        proof {
            assert(m@ =~= api_error_text(status_text@, body@));
        }
        Some(RecallError::LlmApi(m))
    }
}

/// A text cut to at most `max_chars` bytes at a word: as it stands where
/// it fits, else its part before the last space among its first
/// `max_chars` bytes, or those bytes where there is no space, without
/// white space at its end.
pub open spec fn word_truncated(text: Seq<char>, max_chars: int) -> Seq<char> {
    let bytes = encode_utf8(text);
    if bytes.len() <= max_chars {
        text
    } else {
        let space = last_index_of(bytes, 0x20, 0, max_chars);
        trimmed_end(
            byte_prefix(
                text,
                if space >= 0 {
                    space
                } else {
                    max_chars
                },
            ),
        )
    }
}

/// Cuts a text to at most `max_chars` bytes, at a word where it can.
pub fn truncate_at_word_boundary(s: &str, max_chars: usize) -> (r: String)
    ensures
        r@ == word_truncated(s@, max_chars as int),
{
    let bytes = s.as_bytes();
    if bytes.len() <= max_chars {
        return s.to_owned();
    }
    let cut = match rfind_byte(bytes, 0x20, 0, max_chars) {
        Some(i) => i,
        None => max_chars,
    };
    let head = chars_of(prefix_of(s, cut));
    string_of(&trim_end_chars(&head))
}

/// The message of the failure that a reply reports in its body: the
/// string at `error.message`, if the body is JSON and has one.
pub open spec fn reported_message(body: Seq<char>) -> Option<Seq<char>> {
    match json_member_of(body, "error"@) {
        Some(error) => match json_member_of(error, "message"@) {
            Some(message) => json_string_of(message),
            None => None,
        },
        None => None,
    }
}

/// Reads the message of the failure that a reply reports in its body.
pub fn reported_error_message(body: &str) -> (r: Option<String>)
    ensures
        match reported_message(body@) {
            Some(m) => r matches Some(t) && t@ == m,
            None => r is None,
        },
{
    match json_member(body, "error") {
        Some(error) => match json_member(error.as_str(), "message") {
            Some(message) => json_string(message.as_str()),
            None => None,
        },
        None => None,
    }
}

/// The body of a reply as a failure shows it: as it stands where it has
/// at most `max_len` bytes, else its first `max_len` bytes, cut back to a
/// whole character, with three full stops behind.
pub open spec fn shown_body(body: Seq<char>, max_len: int) -> Seq<char> {
    if encode_utf8(body).len() <= max_len {
        body
    } else {
        byte_prefix(body, max_len) + "..."@
    }
}

/// Cuts the body of a reply down to `max_len` bytes for a failure's text.
pub fn truncate_body(body: &str, max_len: usize) -> (r: String)
    ensures
        r@ == shown_body(body@, max_len as int),
{
    if body.as_bytes().len() <= max_len {
        body.to_owned()
    } else {
        let mut r = String::new();
        r.append(prefix_of(body, max_len));
        r.append("...");
        proof {
            assert(r@ =~= byte_prefix(body@, max_len as int) + "..."@);
        }
        r
    }
}

/// What is shown of a reply that failed: the message it reports, or else
/// its body, cut to 200 bytes.
pub fn extract_error_message(body: &str) -> (r: String)
    ensures
        r@ == match reported_message(body@) {
            Some(m) => m,
            None => shown_body(body@, ERROR_BODY_LEN as int),
        },
{
    match reported_error_message(body) {
        Some(m) => m,
        None => truncate_body(body, ERROR_BODY_LEN),
    }
}

/// What the provider replied to a request with an image.
#[derive(Debug, Clone)]
pub struct ModelReply {
    /// Why the provider refused the prompt, if it did.
    pub block_reason: Option<String>,
    /// The text of the first candidate, or nothing where there is none.
    pub text: String,
    /// Why the first candidate ended, if the provider said.
    pub finish_reason: Option<String>,
}

/// What to do with a reply to a request with an image.
#[derive(Debug, Clone)]
pub enum ImageStep {
    /// The text is what the image shows.
    Done(String),
    /// The request failed for good.
    Fail(RecallError),
    /// Wait this many milliseconds, then ask again.
    RetryAfterMs(u64),
}

/// The milliseconds to wait after attempt number `attempt`, counted from
/// 1, came back empty: one second, doubled with each attempt.
pub open spec fn image_retry_delay(attempt: int) -> int
    decreases attempt,
{
    if attempt <= 1 {
        1000
    } else {
        2 * image_retry_delay(attempt - 1)
    }
}

/// The milliseconds to wait after attempt number `attempt` came back
/// empty.
pub fn image_retry_delay_ms(attempt: u32) -> (r: u64)
    requires
        1 <= attempt <= IMAGE_ATTEMPTS,
    ensures
        r == image_retry_delay(attempt as int),
{
    let mut r: u64 = 1000;
    let mut k: u32 = 1;
    while k < attempt
        invariant
            1 <= k <= attempt <= IMAGE_ATTEMPTS,
            r == image_retry_delay(k as int),
            r <= 1000 * 16,
        decreases attempt - k,
    {
        proof {
            reveal_with_fuel(image_retry_delay, 6);
        }
        r = r * 2;
        k += 1;
    }
    r
}

/// Decides what to do with the reply to attempt number `attempt`, counted
/// from 1, of at most five to have an image described.
///
/// A refused prompt fails at once, and so does an empty reply that ended
/// for safety or recitation. A reply with text is done. Any other empty
/// reply is asked for again after a growing wait, until the attempts are
/// used up.
pub fn on_image_reply(attempt: u32, reply: &ModelReply) -> (r: ImageStep)
    requires
        1 <= attempt <= IMAGE_ATTEMPTS,
    ensures
        match reply.block_reason {
            Some(reason) => (r matches ImageStep::Fail(RecallError::LlmApi(m)) && m@
                == "Image blocked by safety filter: "@ + reason@),
            None => if reply.text@.len() > 0 {
                (r matches ImageStep::Done(t) && t@ == reply.text@)
            } else if (reply.finish_reason matches Some(f) && (f@ == "SAFETY"@ || f@
                == "RECITATION"@)) {
                (r matches ImageStep::Fail(RecallError::LlmApi(m)) && m@
                    == "Image processing blocked: "@ + reply.finish_reason->0@)
            } else if attempt < IMAGE_ATTEMPTS {
                (r matches ImageStep::RetryAfterMs(ms) && ms == image_retry_delay(attempt as int))
            } else {
                (r matches ImageStep::Fail(RecallError::LlmApi(m)) && m@
                    == "OCR failed to extract text from image after multiple attempts"@)
            },
        },
{
    match &reply.block_reason {
        Some(reason) => {
            let mut m = String::new();
            m.append("Image blocked by safety filter: ");
            m.append(reason.as_str());
            proof {
                assert(m@ =~= "Image blocked by safety filter: "@ + reason@);
            }
            return ImageStep::Fail(RecallError::LlmApi(m));
        },
        None => {},
    }
    if !reply.text.as_str().is_empty() {
        return ImageStep::Done(reply.text.clone());
    }
    match &reply.finish_reason {
        Some(f) => {
            if str_eq(f.as_str(), "SAFETY") || str_eq(f.as_str(), "RECITATION") {
                let mut m = String::new();
                m.append("Image processing blocked: ");
                m.append(f.as_str());
                proof {
                    assert(m@ =~= "Image processing blocked: "@ + f@);
                }
                return ImageStep::Fail(RecallError::LlmApi(m));
            }
        },
        None => {},
    }
    if attempt < IMAGE_ATTEMPTS {
        ImageStep::RetryAfterMs(image_retry_delay_ms(attempt))
    } else {
        ImageStep::Fail(
            RecallError::LlmApi(
                "OCR failed to extract text from image after multiple attempts".to_owned(),
            ),
        )
    }
}

/// The marker with which the model says that an image shows no text.
pub open spec fn no_text_marker() -> Seq<char> {
    "[NO TEXT DETECTED]"@
}

/// The text that stands for an image without text, so that the image is
/// indexed all the same.
pub open spec fn image_placeholder() -> Seq<char> {
    "[Image with no detectable text]"@
}

/// The text that is indexed for an image that the model described as
/// `description`: the description, or the placeholder where the
/// description is empty or says that there is no text.
pub fn image_text(description: String) -> (r: String)
    ensures
        r@ == if trimmed(description@).len() == 0 || trimmed(description@) == no_text_marker() {
            image_placeholder()
        } else {
            description@
        },
{
    let t = trim(description.as_str());
    if t.as_str().is_empty() || str_eq(t.as_str(), "[NO TEXT DETECTED]") {
        "[Image with no detectable text]".to_owned()
    } else {
        description
    }
}

/// A position in timed media in seconds, as text: the whole seconds,
/// and behind a full stop the milliseconds, without zeros at their end.
pub open spec fn seconds_text(millis: u64) -> Seq<char> {
    let whole = decimal((millis / 1000) as nat);
    let rest = (millis % 1000) as int;
    if rest == 0 {
        whole
    } else if rest % 100 == 0 {
        whole + "."@ + decimal((rest / 100) as nat)
    } else if rest % 10 == 0 {
        whole + "."@ + decimal((rest / 100) as nat) + decimal((rest / 10 % 10) as nat)
    } else {
        whole + "."@ + decimal((rest / 100) as nat) + decimal((rest / 10 % 10) as nat) + decimal(
            (rest % 10) as nat,
        )
    }
}

/// Appends a position in timed media, in seconds, to `s`.
pub fn push_seconds(s: &mut String, millis: u64)
    ensures
        final(s)@ == old(s)@ + seconds_text(millis),
{
    let rest = millis % 1000;
    push_decimal(s, millis / 1000);
    if rest != 0 {
        s.append(".");
        push_decimal(s, rest / 100);
        if rest % 100 != 0 {
            push_decimal(s, rest / 10 % 10);
            if rest % 10 != 0 {
                push_decimal(s, rest % 10);
            }
        }
    }
    proof {
        assert(s@ =~= old(s)@ + seconds_text(millis));
    }
}

/// A chunk as it stands in the context block.
pub open spec fn chunk_element(c: ContextChunk) -> Seq<char> {
    "<chunk id=\""@ + signed_decimal(c.id as int) + "\" source=\""@ + c.source@ + "\""@ + (match c.page {
        Some(p) => " page=\""@ + signed_decimal(p as int) + "\""@,
        None => Seq::empty(),
    }) + (match c.timestamp {
        Some(t) => " timestamp=\""@ + seconds_text(t) + "\""@,
        None => Seq::empty(),
    }) + ">"@ + c.content@ + "</chunk>"@
}

/// The elements of a list of chunks.
pub open spec fn chunk_elements(context: Seq<ContextChunk>) -> Seq<Seq<char>> {
    context.map_values(|c: ContextChunk| chunk_element(c))
}

/// The context block that is put before the prompt: nothing where there
/// is no context, else the chunks, one to the line, between the tags of
/// the block.
pub open spec fn context_block_of(context: Seq<ContextChunk>) -> Seq<char> {
    if context.len() == 0 {
        Seq::empty()
    } else {
        "<context>\n"@ + joined(chunk_elements(context), "\n"@, context.len() as int)
            + "</context>\n\n"@
    }
}

fn push_chunk_element(s: &mut String, c: &ContextChunk)
    ensures
        final(s)@ == old(s)@ + chunk_element(*c),
{
    s.append("<chunk id=\"");
    push_signed(s, c.id);
    s.append("\" source=\"");
    s.append(c.source.as_str());
    s.append("\"");
    match c.page {
        Some(p) => {
            s.append(" page=\"");
            push_signed(s, p as i64);
            s.append("\"");
        },
        None => {},
    }
    match c.timestamp {
        Some(t) => {
            s.append(" timestamp=\"");
            push_seconds(s, t);
            s.append("\"");
        },
        None => {},
    }
    s.append(">");
    s.append(c.content.as_str());
    s.append("</chunk>");
    proof {
        assert(s@ =~= old(s)@ + chunk_element(*c));
    }
}

/// Writes the context block for the chunks that an answer may rest on.
///
/// The block is the same for the same chunks: each chunk stands with its
/// id, its source, and its page and position where it has them.
pub fn context_block(context: &Vec<ContextChunk>) -> (r: String)
    ensures
        r@ == context_block_of(context@),
{
    let mut r = String::new();
    if context.len() == 0 {
        return r;
    }
    r.append("<context>\n");
    let ghost elements = chunk_elements(context@);
    let mut n: usize = 0;
    while n < context.len()
        invariant
            n <= context.len(),
            elements == chunk_elements(context@),
            r@ == "<context>\n"@ + joined(elements, "\n"@, n as int),
        decreases context.len() - n,
    {
        let ghost before = r@;
        if n > 0 {
            r.append("\n");
        }
        push_chunk_element(&mut r, &context[n]);
        proof {
            assert(elements[n as int] == chunk_element(context@[n as int]));
            if n == 0 {
                assert(joined(elements, "\n"@, 0) =~= Seq::<char>::empty());
                assert(r@ =~= "<context>\n"@ + joined(elements, "\n"@, 1));
            } else {
                assert(r@ =~= "<context>\n"@ + (joined(elements, "\n"@, n as int) + "\n"@
                    + elements[n as int]));
            }
        }
        n += 1;
    }
    r.append("</context>\n\n");
    r
}

/// The prompt as it is sent: the context block, then the question.
pub fn full_prompt(context: &Vec<ContextChunk>, prompt: &str) -> (r: String)
    ensures
        r@ == context_block_of(context@) + prompt@,
{
    let mut r = context_block(context);
    r.append(prompt);
    r
}

/// The name under which the provider knows a role: `user` for the user,
/// `model` for every other.
pub fn provider_role(role: &str) -> (r: &'static str)
    ensures
        r@ == if role@ == "user"@ {
            "user"@
        } else {
            "model"@
        },
{
    if str_eq(role, "user") {
        "user"
    } else {
        "model"
    }
}

/// Whether `bounds` cut the items from 0 to `total` into batches of
/// `size`: each batch starts where the one before ends, every batch but
/// the last holds `size` items, and the last holds the rest.
pub open spec fn is_batching(bounds: Seq<(usize, usize)>, total: int, size: int) -> bool {
    &&& (bounds.len() == 0 <==> total == 0)
    &&& bounds.len() > 0 ==> bounds[0].0 == 0 && bounds.last().1 == total
    &&& forall|k: int|
        0 <= k < bounds.len() ==> (#[trigger] bounds[k]).0 < bounds[k].1 && bounds[k].1
            - bounds[k].0 <= size
    &&& forall|k: int|
        0 <= k < bounds.len() - 1 ==> (#[trigger] bounds[k]).1 - bounds[k].0 == size && bounds[k
            + 1].0 == bounds[k].1
}

/// The bounds of the batches that `total` items are sent in, `size` to
/// the batch.
pub fn batch_bounds(total: usize, size: usize) -> (r: Vec<(usize, usize)>)
    requires
        size > 0,
    ensures
        is_batching(r@, total as int, size as int),
{
    let mut r: Vec<(usize, usize)> = Vec::new();
    let mut start: usize = 0;
    while start < total
        invariant
            size > 0,
            start <= total,
            r@.len() == 0 <==> start == 0,
            r@.len() > 0 ==> r@[0].0 == 0 && r@.last().1 == start,
            forall|k: int|
                0 <= k < r@.len() ==> (#[trigger] r@[k]).0 < r@[k].1 && r@[k].1 - r@[k].0 == size,
            forall|k: int| 0 <= k < r@.len() - 1 ==> r@[k + 1].0 == (#[trigger] r@[k]).1,
        decreases total - start,
    {
        let end = if total - start <= size {
            total
        } else {
            start + size
        };
        r.push((start, end));
        if end == total {
            return r;
        }
        start = end;
    }
    r
}

/// How many tokens a request took.
#[derive(Debug, Clone)]
pub struct TokenUsage {
    pub prompt_tokens: u32,
    pub completion_tokens: u32,
    pub total_tokens: u32,
}

/// What the model generated: its text, the chunks that the text cites,
/// and what the request took.
#[derive(Debug, Clone)]
pub struct GenerateResponse {
    pub content: String,
    pub citations: Vec<CitationRef>,
    pub usage: TokenUsage,
}

/// Makes the reply to a request of the text that the model wrote and of
/// the tokens that the provider counted: the citations are read from the
/// text, and a count that the provider did not report is zero.
pub fn generate_response(content: String, usage: Option<TokenUsage>) -> (r: GenerateResponse)
    ensures
        r.content == content,
        citation_views(r.citations@) == citations_of(
            encode_utf8(content@),
            regex_matches(citation_pattern(), content@),
            regex_matches(citation_pattern(), content@).len() as int,
        ),
        r.usage == match usage {
            Some(u) => u,
            None => (TokenUsage { prompt_tokens: 0, completion_tokens: 0, total_tokens: 0 }),
        },
{
    let citations = parse_citations(content.as_str());
    let usage = match usage {
        Some(u) => u,
        None => TokenUsage { prompt_tokens: 0, completion_tokens: 0, total_tokens: 0 },
    };
    GenerateResponse { content, citations, usage }
}

} // verus!
