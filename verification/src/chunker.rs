//! Splits extracted text into chunks of bounded size.
//!
//! A window of about four bytes per token slides over the UTF-8 bytes of
//! the text. Each window ends, by preference, behind a sentence mark in
//! its last fifth, else before a space there, else at the nearest
//! character boundary. Consecutive windows overlap.

use vstd::prelude::*;
use vstd::utf8::{decode_utf8, encode_utf8, is_char_boundary, valid_utf8};
use crate::clock::now_millis;
use crate::error::{RecallError, Result};
use crate::models::Chunk;
use crate::text::{chars_of, string_of, trim_chars, trimmed};
use crate::tokenizer::{
    lemma_chars_at_most_bytes, stored_count, stored_token_count, token_count,
    MAX_TOKENIZED_CHARS,
};

verus! {

/// The largest character boundary at or below `i`; the length of the
/// bytes where `i` lies at or beyond it.
pub open spec fn floor_boundary(bytes: Seq<u8>, i: int) -> int
    decreases i,
{
    if i >= bytes.len() {
        bytes.len() as int
    } else if i <= 0 || is_char_boundary(bytes, i) {
        i
    } else {
        floor_boundary(bytes, i - 1)
    }
}

/// The largest character boundary at or below `i`, but not below `lo`.
pub open spec fn floor_boundary_from(bytes: Seq<u8>, lo: int, i: int) -> int
    decreases i - lo,
{
    if i > lo && !is_char_boundary(bytes, i) {
        floor_boundary_from(bytes, lo, i - 1)
    } else {
        i
    }
}

/// The smallest character boundary at or above `i`, or the length of the
/// bytes.
pub open spec fn ceil_boundary(bytes: Seq<u8>, i: int) -> int
    decreases bytes.len() - i,
{
    if i < bytes.len() && !is_char_boundary(bytes, i) {
        ceil_boundary(bytes, i + 1)
    } else {
        i
    }
}

/// Whether a byte is one of the marks that end a sentence: `.`, `!`, `?`.
pub open spec fn is_sentence_mark(b: u8) -> bool {
    b == 0x2E || b == 0x21 || b == 0x3F
}

/// The index of the last sentence mark in `bytes[lo..hi]`, or -1.
pub open spec fn last_sentence_mark(bytes: Seq<u8>, lo: int, hi: int) -> int
    decreases hi - lo,
{
    if hi <= lo || hi > bytes.len() {
        -1
    } else if is_sentence_mark(bytes[hi - 1]) {
        hi - 1
    } else {
        last_sentence_mark(bytes, lo, hi - 1)
    }
}

/// The index of the last space in `bytes[lo..hi]`, or -1.
pub open spec fn last_space(bytes: Seq<u8>, lo: int, hi: int) -> int
    decreases hi - lo,
{
    if hi <= lo || hi > bytes.len() {
        -1
    } else if bytes[hi - 1] == 0x20 {
        hi - 1
    } else {
        last_space(bytes, lo, hi - 1)
    }
}

proof fn lemma_floor_boundary(bytes: Seq<u8>, i: int)
    requires
        valid_utf8(bytes),
        0 <= i,
    ensures
        0 <= floor_boundary(bytes, i) <= bytes.len(),
        floor_boundary(bytes, i) <= i,
        is_char_boundary(bytes, floor_boundary(bytes, i)),
        is_char_boundary(bytes, i) ==> floor_boundary(bytes, i) == i,
    decreases i,
{
    vstd::utf8::is_char_boundary_start_end_of_seq(bytes);
    if i >= bytes.len() {
        if is_char_boundary(bytes, i) {
            reveal_with_fuel(is_char_boundary, 1);
        }
    } else if i <= 0 || is_char_boundary(bytes, i) {
    } else {
        lemma_floor_boundary(bytes, i - 1);
    }
}

proof fn lemma_floor_boundary_from(bytes: Seq<u8>, lo: int, i: int)
    requires
        valid_utf8(bytes),
        0 <= lo <= i,
        is_char_boundary(bytes, lo),
    ensures
        lo <= floor_boundary_from(bytes, lo, i) <= i,
        is_char_boundary(bytes, floor_boundary_from(bytes, lo, i)),
    decreases i - lo,
{
    if i > lo && !is_char_boundary(bytes, i) {
        lemma_floor_boundary_from(bytes, lo, i - 1);
    }
}

/// The smallest character boundary at or above an index lies between the
/// index and the end of the bytes.
pub proof fn lemma_ceil_boundary(bytes: Seq<u8>, i: int)
    requires
        valid_utf8(bytes),
        0 <= i <= bytes.len(),
    ensures
        i <= ceil_boundary(bytes, i) <= bytes.len(),
        is_char_boundary(bytes, ceil_boundary(bytes, i)),
    decreases bytes.len() - i,
{
    vstd::utf8::is_char_boundary_start_end_of_seq(bytes);
    if i < bytes.len() && !is_char_boundary(bytes, i) {
        lemma_ceil_boundary(bytes, i + 1);
    }
}

proof fn lemma_ceil_boundary_below(bytes: Seq<u8>, i: int, j: int)
    requires
        0 <= i <= j <= bytes.len(),
        is_char_boundary(bytes, j),
    ensures
        ceil_boundary(bytes, i) <= j,
    decreases bytes.len() - i,
{
    if i < bytes.len() && !is_char_boundary(bytes, i) {
        lemma_ceil_boundary_below(bytes, i + 1, j);
    }
}

proof fn lemma_last_sentence_mark(bytes: Seq<u8>, lo: int, hi: int)
    requires
        0 <= lo,
    ensures
        last_sentence_mark(bytes, lo, hi) == -1 || (lo <= last_sentence_mark(bytes, lo, hi) < hi
            && hi <= bytes.len() && is_sentence_mark(
            bytes[last_sentence_mark(bytes, lo, hi)],
        )),
    decreases hi - lo,
{
    if hi <= lo || hi > bytes.len() {
    } else if is_sentence_mark(bytes[hi - 1]) {
    } else {
        lemma_last_sentence_mark(bytes, lo, hi - 1);
    }
}

proof fn lemma_last_space(bytes: Seq<u8>, lo: int, hi: int)
    requires
        0 <= lo,
    ensures
        last_space(bytes, lo, hi) == -1 || (lo <= last_space(bytes, lo, hi) < hi && hi
            <= bytes.len() && bytes[last_space(bytes, lo, hi)] == 0x20),
    decreases hi - lo,
{
    if hi <= lo || hi > bytes.len() {
    } else if bytes[hi - 1] == 0x20 {
    } else {
        lemma_last_space(bytes, lo, hi - 1);
    }
}

/// Where the window that starts at `start` ends: `target` bytes on, moved
/// back to a character boundary, then to the last sentence mark or else
/// the last space in its final fifth, if there is one.
pub open spec fn window_end(bytes: Seq<u8>, start: int, target: int) -> int {
    let len = bytes.len() as int;
    let e0 = if len - start <= target {
        len
    } else {
        start + target
    };
    let e1 = floor_boundary_from(bytes, start, e0);
    if start < e1 < len {
        let k = target / 5;
        let from = floor_boundary(
            bytes,
            if e1 >= k {
                e1 - k
            } else {
                0
            },
        );
        let p = last_sentence_mark(bytes, from, e1);
        if p >= 0 {
            ceil_boundary(bytes, p + 1)
        } else {
            let q = last_space(bytes, from, e1);
            if q >= 0 {
                q
            } else {
                e1
            }
        }
    } else {
        e1
    }
}

/// The text of the window from `start` to `end`, without the white space
/// around it.
pub open spec fn piece_at(bytes: Seq<u8>, start: int, end: int) -> Seq<char> {
    let a = floor_boundary(bytes, start);
    let b = floor_boundary(bytes, end);
    if b > a {
        trimmed(decode_utf8(bytes.subrange(a, b)))
    } else {
        Seq::<char>::empty()
    }
}

/// Where the window after the one from `start` to `end` starts: `overlap`
/// bytes before `end`, but at least a quarter of `target` past `start`,
/// moved on to a character boundary.
pub open spec fn next_start(bytes: Seq<u8>, start: int, end: int, target: int, overlap: int) -> int {
    let len = bytes.len() as int;
    let span = if end >= start {
        end - start
    } else {
        0
    };
    let kept = if span >= overlap {
        span - overlap
    } else {
        0
    };
    let advance = if kept >= target / 4 {
        kept
    } else {
        target / 4
    };
    if advance >= len - start {
        len
    } else {
        ceil_boundary(bytes, start + advance)
    }
}

/// The texts of the windows from `start` on, those left out that hold
/// nothing but white space.
pub open spec fn pieces_from(bytes: Seq<u8>, start: int, target: int, overlap: int) -> Seq<
    Seq<char>,
>
    decreases bytes.len() - start,
{
    if start < 0 || start >= bytes.len() {
        Seq::empty()
    } else {
        let end = window_end(bytes, start, target);
        let piece = piece_at(bytes, start, end);
        let next = next_start(bytes, start, end, target, overlap);
        let rest = if start < next <= bytes.len() {
            pieces_from(bytes, next, target, overlap)
        } else {
            Seq::empty()
        };
        if piece.len() > 0 {
            seq![piece] + rest
        } else {
            rest
        }
    }
}

/// Each window starts behind the start of the one before: at least a
/// quarter of the target further on, or at the end of the text. So the
/// windows of a text come to an end.
pub proof fn lemma_forward_progress(bytes: Seq<u8>, start: int, end: int, target: int, overlap: int)
    requires
        valid_utf8(bytes),
        0 <= start < bytes.len(),
        target >= 4,
    ensures
        start < next_start(bytes, start, end, target, overlap) <= bytes.len(),
        next_start(bytes, start, end, target, overlap) >= start + target / 4 || next_start(
            bytes,
            start,
            end,
            target,
            overlap,
        ) == bytes.len(),
        is_char_boundary(bytes, next_start(bytes, start, end, target, overlap)),
{
    let len = bytes.len() as int;
    let span = if end >= start {
        end - start
    } else {
        0
    };
    let kept = if span >= overlap {
        span - overlap
    } else {
        0
    };
    let advance = if kept >= target / 4 {
        kept
    } else {
        target / 4
    };
    vstd::utf8::is_char_boundary_start_end_of_seq(bytes);
    if advance < len - start {
        lemma_ceil_boundary(bytes, start + advance);
    }
}

/// The chunk texts of `text` for a target of `target` bytes and an
/// overlap of `overlap` bytes: none for empty text, the text itself where
/// it fits the target, else its windows.
pub open spec fn pieces_of(text: Seq<char>, target: int, overlap: int) -> Seq<Seq<char>> {
    let bytes = encode_utf8(text);
    if text.len() == 0 {
        Seq::empty()
    } else if bytes.len() <= target {
        seq![text]
    } else {
        pieces_from(bytes, 0, target, overlap)
    }
}

/// The texts of a list of chunk texts with their token counts.
pub open spec fn piece_texts(v: Seq<(String, i32)>) -> Seq<Seq<char>> {
    v.map_values(|p: (String, i32)| p.0@)
}

/// The part of `text` between two character boundaries, given as byte
/// offsets.
pub fn slice_str(text: &str, a: usize, b: usize) -> (r: &str)
    requires
        a <= b <= encode_utf8(text@).len(),
        is_char_boundary(encode_utf8(text@), a as int),
        is_char_boundary(encode_utf8(text@), b as int),
    ensures
        r@ == decode_utf8(encode_utf8(text@).subrange(a as int, b as int)),
        encode_utf8(r@) == encode_utf8(text@).subrange(a as int, b as int),
{
    let ghost bytes = encode_utf8(text@);
    proof {
        vstd::utf8::encode_utf8_valid_utf8(text@);
        vstd::utf8::valid_utf8_split(bytes, b as int);
        let head = bytes.subrange(0, b as int);
        vstd::utf8::is_char_boundary_start_end_of_seq(head);
        if a < b {
            vstd::utf8::is_char_boundary_iff_not_is_continuation_byte(bytes, a as int);
            vstd::utf8::is_char_boundary_iff_not_is_continuation_byte(head, a as int);
        }
    }
    let (head, _) = text.split_at(b);
    let (_, mid) = head.split_at(a);
    proof {
        assert(encode_utf8(mid@) =~= bytes.subrange(a as int, b as int));
        vstd::utf8::encode_utf8_decode_utf8(mid@);
    }
    mid
}

fn rfind_sentence_mark(bytes: &[u8], lo: usize, hi: usize) -> (r: Option<usize>)
    requires
        lo <= hi <= bytes@.len(),
    ensures
        match r {
            Some(p) => p == last_sentence_mark(bytes@, lo as int, hi as int),
            None => last_sentence_mark(bytes@, lo as int, hi as int) == -1,
        },
{
    let mut i: usize = hi;
    while i > lo
        invariant
            lo <= i <= hi <= bytes@.len(),
            last_sentence_mark(bytes@, lo as int, hi as int) == last_sentence_mark(
                bytes@,
                lo as int,
                i as int,
            ),
        decreases i - lo,
    {
        let b = bytes[i - 1];
        if b == 0x2E || b == 0x21 || b == 0x3F {
            return Some(i - 1);
        }
        i -= 1;
    }
    None
}

fn rfind_space(bytes: &[u8], lo: usize, hi: usize) -> (r: Option<usize>)
    requires
        lo <= hi <= bytes@.len(),
    ensures
        match r {
            Some(p) => p == last_space(bytes@, lo as int, hi as int),
            None => last_space(bytes@, lo as int, hi as int) == -1,
        },
{
    let mut i: usize = hi;
    while i > lo
        invariant
            lo <= i <= hi <= bytes@.len(),
            last_space(bytes@, lo as int, hi as int) == last_space(bytes@, lo as int, i as int),
        decreases i - lo,
    {
        if bytes[i - 1] == 0x20 {
            return Some(i - 1);
        }
        i -= 1;
    }
    None
}

/// Finds the smallest character boundary at or above `index`.
pub fn ceil_char_boundary(text: &str, index: usize) -> (r: usize)
    requires
        index <= encode_utf8(text@).len(),
    ensures
        r == ceil_boundary(encode_utf8(text@), index as int),
        index <= r <= encode_utf8(text@).len(),
{
    proof {
        vstd::utf8::encode_utf8_valid_utf8(text@);
        lemma_ceil_boundary(encode_utf8(text@), index as int);
    }
    let len = text.as_bytes().len();
    let mut i: usize = index;
    while i < len && !text.is_char_boundary(i)
        invariant
            index <= i <= len,
            len == encode_utf8(text@).len(),
            ceil_boundary(encode_utf8(text@), index as int) == ceil_boundary(
                encode_utf8(text@),
                i as int,
            ),
        decreases len - i,
    {
        i += 1;
    }
    i
}

fn find_window_end(text: &str, start: usize, target: usize) -> (r: usize)
    requires
        start < encode_utf8(text@).len(),
        is_char_boundary(encode_utf8(text@), start as int),
    ensures
        r == window_end(encode_utf8(text@), start as int, target as int),
        r <= encode_utf8(text@).len(),
        r <= start + target,
{
    let ghost b = encode_utf8(text@);
    let bytes = text.as_bytes();
    let len = bytes.len();
    proof {
        vstd::utf8::encode_utf8_valid_utf8(text@);
    }
    let mut end: usize = if len - start <= target {
        len
    } else {
        start + target
    };
    let ghost e0 = end as int;
    proof {
        lemma_floor_boundary_from(b, start as int, e0);
    }
    while end > start && !text.is_char_boundary(end)
        invariant
            start <= end <= len,
            len == b.len(),
            b == encode_utf8(text@),
            floor_boundary_from(b, start as int, e0) == floor_boundary_from(
                b,
                start as int,
                end as int,
            ),
        decreases end - start,
    {
        end -= 1;
    }
    if end < len && end > start {
        let k = target / 5;
        let from = Chunker::floor_char_boundary(
            text,
            if end >= k {
                end - k
            } else {
                0
            },
        );
        proof {
            lemma_last_sentence_mark(b, from as int, end as int);
            lemma_last_space(b, from as int, end as int);
            let p = last_sentence_mark(b, from as int, end as int);
            if p >= 0 {
                lemma_ceil_boundary_below(b, p + 1, end as int);
            }
        }
        match rfind_sentence_mark(bytes, from, end) {
            Some(p) => ceil_char_boundary(text, p + 1),
            None => match rfind_space(bytes, from, end) {
                Some(q) => q,
                None => end,
            },
        }
    } else {
        end
    }
}

/// A stretch of timed media with what is said or shown in it.
#[derive(Debug, Clone)]
pub struct TimedSegment {
    /// Start, in milliseconds.
    pub start_time: u64,
    /// End, in milliseconds.
    pub end_time: u64,
    pub text: String,
    pub topics: Vec<String>,
}

/// What an extractor hands on: linear text, with its pages where they
/// are known, or the segments of timed media.
#[derive(Debug, Clone)]
pub enum ExtractedContent {
    Text { text: String, pages: Option<Vec<String>> },
    Timed { segments: Vec<TimedSegment> },
}

/// The character sequences of a list of strings.
pub open spec fn texts_of(v: Seq<String>) -> Seq<Seq<char>> {
    v.map_values(|t: String| t@)
}

/// What a chunk holds besides its identity and position.
pub struct ChunkOutline {
    pub content: Seq<char>,
    pub page_number: Option<int>,
    pub timestamp_start: Option<int>,
    pub timestamp_end: Option<int>,
    pub topics: Option<Seq<Seq<char>>>,
}

/// The outlines of chunk texts cut from one page or one segment. With a
/// `timing` of start and step, chunk `i` spans one step from
/// `start + i * step`.
pub open spec fn piece_outlines(
    pieces: Seq<Seq<char>>,
    page: Option<int>,
    timing: Option<(int, int)>,
    topics: Option<Seq<Seq<char>>>,
) -> Seq<ChunkOutline> {
    Seq::new(
        pieces.len(),
        |i: int|
            ChunkOutline {
                content: pieces[i],
                page_number: page,
                timestamp_start: match timing {
                    Some((start, step)) => Some(start + i * step),
                    None => None,
                },
                timestamp_end: match timing {
                    Some((start, step)) => Some(start + i * step + step),
                    None => None,
                },
                topics: topics,
            },
    )
}

/// The outlines of the chunks of the first `n` pages; pages count from 1.
pub open spec fn page_outlines(pages: Seq<String>, n: int, target: int, overlap: int) -> Seq<
    ChunkOutline,
>
    decreases n,
{
    if n <= 0 || n > pages.len() {
        Seq::empty()
    } else {
        page_outlines(pages, n - 1, target, overlap) + piece_outlines(
            pieces_of(pages[n - 1]@, target, overlap),
            Some(n),
            None,
            None,
        )
    }
}

/// The length of a segment, or zero where it ends before it starts.
pub open spec fn segment_duration(seg: TimedSegment) -> int {
    if seg.end_time >= seg.start_time {
        seg.end_time - seg.start_time
    } else {
        0
    }
}

/// The outlines of the chunks of one segment: its duration is shared out
/// evenly, in whole milliseconds, among its chunks.
pub open spec fn segment_outlines(seg: TimedSegment, target: int, overlap: int) -> Seq<ChunkOutline> {
    let pieces = pieces_of(seg.text@, target, overlap);
    let count = if pieces.len() >= 1 {
        pieces.len() as int
    } else {
        1
    };
    piece_outlines(
        pieces,
        None,
        Some((seg.start_time as int, segment_duration(seg) / count)),
        Some(texts_of(seg.topics@)),
    )
}

/// The outlines of the chunks of the first `n` segments.
pub open spec fn timed_outlines(segments: Seq<TimedSegment>, n: int, target: int, overlap: int) -> Seq<
    ChunkOutline,
>
    decreases n,
{
    if n <= 0 || n > segments.len() {
        Seq::empty()
    } else {
        timed_outlines(segments, n - 1, target, overlap) + segment_outlines(
            segments[n - 1],
            target,
            overlap,
        )
    }
}

/// The outlines of the chunks of extracted content, in order.
pub open spec fn outlines_of(content: ExtractedContent, target: int, overlap: int) -> Seq<
    ChunkOutline,
> {
    match content {
        ExtractedContent::Text { text, pages: None } => piece_outlines(
            pieces_of(text@, target, overlap),
            None,
            None,
            None,
        ),
        ExtractedContent::Text { text, pages: Some(pages) } => page_outlines(
            pages@,
            pages@.len() as int,
            target,
            overlap,
        ),
        ExtractedContent::Timed { segments } => timed_outlines(
            segments@,
            segments@.len() as int,
            target,
            overlap,
        ),
    }
}

/// Whether `c` is the chunk at position `index` of document `doc` with
/// outline `o`: not yet stored, so without an id, and without offsets.
pub open spec fn chunk_matches(c: Chunk, o: ChunkOutline, index: int, doc: Seq<char>) -> bool {
    &&& c.id == 0
    &&& c.document_id@ == doc
    &&& c.chunk_index == index
    &&& c.content@ == o.content
    &&& c.token_count == stored_token_count(token_count(o.content))
    &&& c.start_offset is None
    &&& c.end_offset is None
    &&& match c.page_number {
        Some(p) => o.page_number == Some(p as int),
        None => o.page_number is None,
    }
    &&& match c.timestamp_start {
        Some(t) => o.timestamp_start == Some(t as int),
        None => o.timestamp_start is None,
    }
    &&& match c.timestamp_end {
        Some(t) => o.timestamp_end == Some(t as int),
        None => o.timestamp_end is None,
    }
    &&& match c.topics {
        Some(t) => o.topics == Some(texts_of(t@)),
        None => o.topics is None,
    }
}

proof fn lemma_page_outlines_grow(pages: Seq<String>, n: int, m: int, target: int, overlap: int)
    requires
        0 <= n <= m <= pages.len(),
    ensures
        page_outlines(pages, n, target, overlap).len() <= page_outlines(
            pages,
            m,
            target,
            overlap,
        ).len(),
    decreases m - n,
{
    if n < m {
        lemma_page_outlines_grow(pages, n, m - 1, target, overlap);
    }
}

proof fn lemma_timed_outlines_grow(
    segments: Seq<TimedSegment>,
    n: int,
    m: int,
    target: int,
    overlap: int,
)
    requires
        0 <= n <= m <= segments.len(),
    ensures
        timed_outlines(segments, n, target, overlap).len() <= timed_outlines(
            segments,
            m,
            target,
            overlap,
        ).len(),
    decreases m - n,
{
    if n < m {
        lemma_timed_outlines_grow(segments, n, m - 1, target, overlap);
    }
}

fn clone_strings(v: &Vec<String>) -> (r: Vec<String>)
    ensures
        r@ == v@,
{
    let mut r: Vec<String> = Vec::new();
    let mut i: usize = 0;
    while i < v.len()
        invariant
            i <= v.len(),
            r@ == v@.take(i as int),
        decreases v.len() - i,
    {
        r.push(v[i].clone());
        proof {
            assert(v@.take(i + 1) =~= v@.take(i as int).push(v@[i as int]));
        }
        i += 1;
    }
    proof {
        assert(v@.take(v.len() as int) =~= v@);
    }
    r
}

/// Appends one chunk per piece to `chunks`, numbering them on from the
/// chunks already there. Gives `false`, and leaves the chunks it has
/// appended, where the numbers would pass the largest chunk index.
fn append_chunks(
    chunks: &mut Vec<Chunk>,
    document_id: &str,
    pieces: Vec<(String, i32)>,
    page: Option<i32>,
    timing: Option<(u64, u64)>,
    topics: Option<&Vec<String>>,
    now: i64,
) -> (ok: bool)
    requires
        forall|i: int|
            0 <= i < pieces.len() ==> (#[trigger] pieces[i]).1 == stored_token_count(
                token_count(pieces[i].0@),
            ),
        timing matches Some((start, step)) ==> start + step * pieces.len() <= u64::MAX,
    ensures
        ok == (old(chunks).len() + pieces.len() <= i32::MAX),
        ok ==> final(chunks).len() == old(chunks).len() + pieces.len(),
        ok ==> forall|i: int| 0 <= i < old(chunks).len() ==> final(chunks)[i] == old(chunks)[i],
        ok ==> forall|j: int|
            0 <= j < pieces.len() ==> chunk_matches(
                #[trigger] final(chunks)[old(chunks).len() + j],
                piece_outlines(
                    piece_texts(pieces@),
                    match page {
                        Some(p) => Some(p as int),
                        None => None,
                    },
                    match timing {
                        Some((start, step)) => Some((start as int, step as int)),
                        None => None,
                    },
                    match topics {
                        Some(t) => Some(texts_of(t@)),
                        None => None,
                    },
                )[j],
                old(chunks).len() + j,
                document_id@,
            ),
{
    let ghost base = chunks@;
    let ghost outlines = piece_outlines(
        piece_texts(pieces@),
        match page {
            Some(p) => Some(p as int),
            None => None,
        },
        match timing {
            Some((start, step)) => Some((start as int, step as int)),
            None => None,
        },
        match topics {
            Some(t) => Some(texts_of(t@)),
            None => None,
        },
    );
    if chunks.len() > i32::MAX as usize || pieces.len() > i32::MAX as usize - chunks.len() {
        return false;
    }
    let mut j: usize = 0;
    while j < pieces.len()
        invariant
            j <= pieces.len(),
            base.len() + pieces.len() <= i32::MAX,
            chunks.len() == base.len() + j,
            forall|i: int| 0 <= i < base.len() ==> chunks[i] == base[i],
            forall|k: int|
                0 <= k < j ==> chunk_matches(
                    #[trigger] chunks[base.len() + k],
                    outlines[k],
                    base.len() + k,
                    document_id@,
                ),
            forall|i: int|
                0 <= i < pieces.len() ==> (#[trigger] pieces[i]).1 == stored_token_count(
                    token_count(pieces[i].0@),
                ),
            timing matches Some((start, step)) ==> start + step * pieces.len() <= u64::MAX,
            outlines == piece_outlines(
                piece_texts(pieces@),
                match page {
                    Some(p) => Some(p as int),
                    None => None,
                },
                match timing {
                    Some((start, step)) => Some((start as int, step as int)),
                    None => None,
                },
                match topics {
                    Some(t) => Some(texts_of(t@)),
                    None => None,
                },
            ),
        decreases pieces.len() - j,
    {
        let (timestamp_start, timestamp_end) = match timing {
            Some((start, step)) => {
                proof {
                    assert(j * step + step <= step * pieces.len()) by (nonlinear_arith)
                        requires
                            j < pieces.len(),
                            step >= 0,
                    ;
                }
                let offset: u64 = (j as u64) * step;
                (Some(start + offset), Some(start + offset + step))
            },
            None => (None, None),
        };
        let chunk = Chunk {
            id: 0,
            document_id: document_id.to_owned(),
            chunk_index: chunks.len() as i32,
            content: pieces[j].0.clone(),
            token_count: pieces[j].1,
            start_offset: None,
            end_offset: None,
            page_number: page,
            timestamp_start,
            timestamp_end,
            topics: match topics {
                Some(t) => Some(clone_strings(t)),
                None => None,
            },
            created_at: now,
        };
        proof {
            assert(piece_texts(pieces@)[j as int] == pieces[j as int].0@);
            assert(chunk_matches(chunk, outlines[j as int], base.len() + j, document_id@));
        }
        chunks.push(chunk);
        j += 1;
    }
    true
}

/// The largest target size of a chunk, in tokens: at four bytes to the
/// token, the longest text that is handed to the tokenizer.
pub const MAX_CHUNK_SIZE: usize = 125_000;

/// Splits text into chunks of about `chunk_size` tokens that overlap by
/// about `overlap` tokens.
pub struct Chunker {
    chunk_size: usize,
    overlap: usize,
}

impl Chunker {
    #[verifier::type_invariant]
    spec fn wf(self) -> bool {
        &&& 1 <= self.chunk_size <= MAX_CHUNK_SIZE
        &&& self.overlap <= usize::MAX / 4
    }

    /// The target size of a chunk, in tokens.
    pub closed spec fn size(self) -> int {
        self.chunk_size as int
    }

    /// The overlap of consecutive chunks, in tokens.
    pub closed spec fn lap(self) -> int {
        self.overlap as int
    }

    /// A chunker for chunks of about `chunk_size` tokens, four bytes to the
    /// token, that overlap by about `overlap` tokens.
    ///
    /// The size is at most `MAX_CHUNK_SIZE`, so that every chunk is short
    /// enough for the tokenizer.
    pub fn new(chunk_size: usize, overlap: usize) -> (c: Chunker)
        requires
            1 <= chunk_size <= MAX_CHUNK_SIZE,
            overlap <= usize::MAX / 4,
        ensures
            c.size() == chunk_size,
            c.lap() == overlap,
    {
        Chunker { chunk_size, overlap }
    }

    /// The target size of a chunk, in tokens.
    pub fn chunk_size(&self) -> (n: usize)
        ensures
            n == self.size(),
    {
        self.chunk_size
    }

    /// The overlap of consecutive chunks, in tokens.
    pub fn overlap(&self) -> (n: usize)
        ensures
            n == self.lap(),
    {
        self.overlap
    }

    /// Cuts `text` into chunk texts, each with its token count.
    ///
    /// Empty text gives no chunk. Text of at most four bytes per token of
    /// the target size gives one chunk: the text as it stands. Longer text
    /// is cut into overlapping windows; a window that holds only white
    /// space gives no chunk.
    pub fn chunk_text(&self, text: &str) -> (r: Vec<(String, i32)>)
        ensures
            piece_texts(r@) == pieces_of(text@, 4 * self.size(), 4 * self.lap()),
            forall|i: int|
                0 <= i < r.len() ==> (#[trigger] r[i]).1 == stored_token_count(
                    token_count(r[i].0@),
                ),
            forall|i: int| 0 <= i < r.len() ==> (#[trigger] r[i]).0@.len() > 0,
            text@.len() == 0 ==> r.len() == 0,
            0 < encode_utf8(text@).len() <= 4 * self.size() ==> r.len() == 1 && r[0].0@ == text@,
    {
        proof {
            use_type_invariant(self);
            vstd::utf8::encode_utf8_valid_utf8(text@);
            vstd::utf8::encode_utf8_decode_utf8(text@);
            vstd::utf8::is_char_boundary_start_end_of_seq(encode_utf8(text@));
        }
        let ghost b = encode_utf8(text@);
        let target: usize = self.chunk_size * 4;
        let overlap: usize = self.overlap * 4;
        let len = text.as_bytes().len();
        let mut chunks: Vec<(String, i32)> = Vec::new();
        if len == 0 {
            proof {
                assert(text@.len() == 0) by {
                    if text@.len() > 0 {
                        reveal_with_fuel(vstd::utf8::encode_utf8, 1);
                    }
                }
                assert(piece_texts(chunks@) =~= Seq::<Seq<char>>::empty());
            }
            return chunks;
        }
        proof {
            assert(text@.len() != 0) by {
                if text@.len() == 0 {
                    reveal_with_fuel(vstd::utf8::encode_utf8, 1);
                }
            }
        }
        if len <= target {
            proof {
                lemma_chars_at_most_bytes(text@);
            }
            let n = stored_count(text);
            chunks.push((text.to_owned(), n));
            proof {
                assert(piece_texts(chunks@) =~= seq![text@]);
            }
            return chunks;
        }
        let mut start: usize = 0;
        while start < len
            invariant
                start <= len,
                len == b.len(),
                b == encode_utf8(text@),
                valid_utf8(b),
                target == 4 * self.size(),
                overlap == 4 * self.lap(),
                4 <= target <= MAX_TOKENIZED_CHARS,
                is_char_boundary(b, start as int),
                piece_texts(chunks@) + pieces_from(b, start as int, target as int, overlap as int)
                    == pieces_from(b, 0, target as int, overlap as int),
                forall|i: int|
                    0 <= i < chunks.len() ==> (#[trigger] chunks[i]).1 == stored_token_count(
                        token_count(chunks[i].0@),
                    ),
                forall|i: int| 0 <= i < chunks.len() ==> (#[trigger] chunks[i]).0@.len() > 0,
            decreases len - start,
        {
            let end = find_window_end(text, start, target);
            let ghost before = chunks@;
            let ghost piece = piece_at(b, start as int, end as int);
            let a_safe = Chunker::floor_char_boundary(text, start);
            let b_safe = Chunker::floor_char_boundary(text, end);
            if b_safe > a_safe {
                let part = slice_str(text, a_safe, b_safe);
                let part_chars = chars_of(part);
                let kept = trim_chars(&part_chars);
                if kept.len() > 0 {
                    let content = string_of(&kept);
                    proof {
                        lemma_chars_at_most_bytes(part@);
                        lemma_floor_boundary(b, start as int);
                        assert(encode_utf8(part@).len() == b_safe - a_safe);
                    }
                    let n = stored_count(content.as_str());
                    chunks.push((content, n));
                    proof {
                        assert(piece_texts(chunks@) =~= piece_texts(before) + seq![piece]);
                    }
                }
            }
            let span: usize = if end >= start {
                end - start
            } else {
                0
            };
            let kept_span: usize = if span >= overlap {
                span - overlap
            } else {
                0
            };
            let advance: usize = if kept_span >= target / 4 {
                kept_span
            } else {
                target / 4
            };
            let ghost old_start = start as int;
            let ghost next = next_start(b, old_start, end as int, target as int, overlap as int);
            if advance >= len - start {
                start = len;
            } else {
                start = ceil_char_boundary(text, start + advance);
            }
            proof {
                if advance < len - old_start {
                    lemma_ceil_boundary(b, old_start + advance);
                } else {
                    vstd::utf8::is_char_boundary_start_end_of_seq(b);
                }
                assert(start == next);
                assert(old_start < next <= b.len());
                let rest = pieces_from(b, next, target as int, overlap as int);
                if piece.len() > 0 {
                    assert(pieces_from(b, old_start, target as int, overlap as int) == seq![piece]
                        + rest);
                    assert(piece_texts(before) + (seq![piece] + rest) =~= (piece_texts(before)
                        + seq![piece]) + rest);
                } else {
                    assert(pieces_from(b, old_start, target as int, overlap as int) == rest);
                    assert(chunks@ == before);
                }
            }
        }
        proof {
            assert(pieces_from(b, start as int, target as int, overlap as int) =~= Seq::<
                Seq<char>,
            >::empty());
            assert(piece_texts(chunks@) + Seq::<Seq<char>>::empty() =~= piece_texts(chunks@));
        }
        chunks
    }

    /// Cuts extracted content into the chunks of document `document_id`.
    ///
    /// Linear text is cut as a whole, or page by page where its pages are
    /// given; each chunk of a page carries the page's number, counted from
    /// 1. Timed content is cut segment by segment; the chunks of a segment
    /// share its duration evenly and carry its topics. Chunks are numbered
    /// from 0 in the order they are cut.
    ///
    /// Fails only where the content has more pages, or gives more chunks,
    /// than the largest chunk index.
    pub fn chunk(&self, document_id: &str, content: &ExtractedContent) -> (r: Result<Vec<Chunk>>)
        ensures
            r is Err <==> (outlines_of(*content, 4 * self.size(), 4 * self.lap()).len() > i32::MAX
                || (content matches ExtractedContent::Text { pages: Some(p), .. } && p.len()
                > i32::MAX)),
            r matches Err(e) ==> e is Ingestion,
            r matches Ok(chunks) ==> forall|i: int|
                0 <= i < chunks.len() ==> (#[trigger] chunks[i]).chunk_index == i,
            r matches Ok(chunks) ==> {
                let outlines = outlines_of(*content, 4 * self.size(), 4 * self.lap());
                &&& chunks.len() == outlines.len()
                &&& forall|i: int|
                    0 <= i < chunks.len() ==> chunk_matches(
                        #[trigger] chunks[i],
                        outlines[i],
                        i,
                        document_id@,
                    )
            },
    {
        let ghost target = 4 * self.size();
        let ghost overlap = 4 * self.lap();
        let now = now_millis();
        let mut chunks: Vec<Chunk> = Vec::new();
        match content {
            ExtractedContent::Text { text, pages: None } => {
                let pieces = self.chunk_text(text.as_str());
                let ghost added = piece_outlines(piece_texts(pieces@), None, None, None);
                if !append_chunks(&mut chunks, document_id, pieces, None, None, None, now) {
                    return Err(RecallError::Ingestion("Too many chunks".to_owned()));
                }
                proof {
                    assert forall|i: int| 0 <= i < chunks.len() implies chunk_matches(
                        #[trigger] chunks[i],
                        added[i],
                        i,
                        document_id@,
                    ) by {
                        assert(chunks[i] == chunks[0 + i]);
                    }
                }
            },
            ExtractedContent::Text { text, pages: Some(pages) } => {
                if pages.len() > i32::MAX as usize {
                    return Err(RecallError::Ingestion("Too many pages".to_owned()));
                }
                let mut p: usize = 0;
                while p < pages.len()
                    invariant
                        p <= pages.len() <= i32::MAX,
                        chunks.len() <= i32::MAX,
                        outlines_of(*content, target, overlap) == page_outlines(
                            pages@,
                            pages@.len() as int,
                            target,
                            overlap,
                        ),
                        target == 4 * self.size(),
                        overlap == 4 * self.lap(),
                        chunks.len() == page_outlines(pages@, p as int, target, overlap).len(),
                        forall|i: int|
                            0 <= i < chunks.len() ==> chunk_matches(
                                #[trigger] chunks[i],
                                page_outlines(pages@, p as int, target, overlap)[i],
                                i,
                                document_id@,
                            ),
                    decreases pages.len() - p,
                {
                    let pieces = self.chunk_text(pages[p].as_str());
                    let ghost before = chunks@;
                    let ghost added = piece_outlines(
                        piece_texts(pieces@),
                        Some(p + 1),
                        None,
                        None,
                    );
                    let number: i32 = (p + 1) as i32;
                    if !append_chunks(
                        &mut chunks,
                        document_id,
                        pieces,
                        Some(number),
                        None,
                        None,
                        now,
                    ) {
                        proof {
                            let prev = page_outlines(pages@, p as int, target, overlap);
                            let next = page_outlines(pages@, p + 1, target, overlap);
                            assert(next == prev + added);
                            assert(next.len() == prev.len() + added.len());
                            lemma_page_outlines_grow(
                                pages@,
                                p + 1,
                                pages@.len() as int,
                                target,
                                overlap,
                            );
                            assert(next.len() > i32::MAX);
                            assert(outlines_of(*content, target, overlap) == page_outlines(
                                pages@,
                                pages@.len() as int,
                                target,
                                overlap,
                            ));
                        }
                        return Err(RecallError::Ingestion("Too many chunks".to_owned()));
                    }
                    proof {
                        let prev = page_outlines(pages@, p as int, target, overlap);
                        let next = page_outlines(pages@, p + 1, target, overlap);
                        assert(next == prev + added);
                        assert forall|i: int| 0 <= i < chunks.len() implies chunk_matches(
                            #[trigger] chunks[i],
                            next[i],
                            i,
                            document_id@,
                        ) by {
                            if i < before.len() {
                                assert(chunks[i] == before[i]);
                                assert(next[i] == prev[i]);
                            } else {
                                let j = i - before.len();
                                assert(chunks[i] == chunks[before.len() + j]);
                                assert(next[i] == added[j]);
                            }
                        }
                    }
                    p += 1;
                }
            },
            ExtractedContent::Timed { segments } => {
                let mut s: usize = 0;
                while s < segments.len()
                    invariant
                        s <= segments.len(),
                        chunks.len() <= i32::MAX,
                        outlines_of(*content, target, overlap) == timed_outlines(
                            segments@,
                            segments@.len() as int,
                            target,
                            overlap,
                        ),
                        target == 4 * self.size(),
                        overlap == 4 * self.lap(),
                        chunks.len() == timed_outlines(segments@, s as int, target, overlap).len(),
                        forall|i: int|
                            0 <= i < chunks.len() ==> chunk_matches(
                                #[trigger] chunks[i],
                                timed_outlines(segments@, s as int, target, overlap)[i],
                                i,
                                document_id@,
                            ),
                    decreases segments.len() - s,
                {
                    let seg = &segments[s];
                    let pieces = self.chunk_text(seg.text.as_str());
                    let duration: u64 = if seg.end_time >= seg.start_time {
                        seg.end_time - seg.start_time
                    } else {
                        0
                    };
                    let count: usize = if pieces.len() >= 1 {
                        pieces.len()
                    } else {
                        1
                    };
                    let step: u64 = duration / (count as u64);
                    proof {
                        assert(step * pieces.len() <= duration) by (nonlinear_arith)
                            requires
                                step == duration / (count as u64),
                                0 <= pieces.len() <= count,
                                count >= 1,
                                duration >= 0,
                        ;
                    }
                    let ghost before = chunks@;
                    let ghost added = segment_outlines(*seg, target, overlap);
                    if !append_chunks(
                        &mut chunks,
                        document_id,
                        pieces,
                        None,
                        Some((seg.start_time, step)),
                        Some(&seg.topics),
                        now,
                    ) {
                        proof {
                            let prev = timed_outlines(segments@, s as int, target, overlap);
                            let next = timed_outlines(segments@, s + 1, target, overlap);
                            assert(next == prev + added);
                            assert(next.len() == prev.len() + added.len());
                            lemma_timed_outlines_grow(
                                segments@,
                                s + 1,
                                segments@.len() as int,
                                target,
                                overlap,
                            );
                            assert(next.len() > i32::MAX);
                            assert(outlines_of(*content, target, overlap) == timed_outlines(
                                segments@,
                                segments@.len() as int,
                                target,
                                overlap,
                            ));
                        }
                        return Err(RecallError::Ingestion("Too many chunks".to_owned()));
                    }
                    proof {
                        let prev = timed_outlines(segments@, s as int, target, overlap);
                        let next = timed_outlines(segments@, s + 1, target, overlap);
                        assert(next == prev + added);
                        assert forall|i: int| 0 <= i < chunks.len() implies chunk_matches(
                            #[trigger] chunks[i],
                            next[i],
                            i,
                            document_id@,
                        ) by {
                            if i < before.len() {
                                assert(chunks[i] == before[i]);
                                assert(next[i] == prev[i]);
                            } else {
                                let j = i - before.len();
                                assert(chunks[i] == chunks[before.len() + j]);
                                assert(next[i] == added[j]);
                            }
                        }
                    }
                    s += 1;
                }
            },
        }
        Ok(chunks)
    }

    /// Finds the largest character boundary at or below `index`.
    pub fn floor_char_boundary(text: &str, index: usize) -> (r: usize)
        ensures
            r == floor_boundary(encode_utf8(text@), index as int),
            r <= index,
            r <= encode_utf8(text@).len(),
            is_char_boundary(encode_utf8(text@), r as int),
    {
        proof {
            vstd::utf8::encode_utf8_valid_utf8(text@);
            lemma_floor_boundary(encode_utf8(text@), index as int);
        }
        let len = text.as_bytes().len();
        if index >= len {
            return len;
        }
        let mut i: usize = index;
        while i > 0 && !text.is_char_boundary(i)
            invariant
                i <= index < len,
                len == encode_utf8(text@).len(),
                floor_boundary(encode_utf8(text@), index as int) == floor_boundary(
                    encode_utf8(text@),
                    i as int,
                ),
            decreases i,
        {
            i -= 1;
        }
        i
    }
}

} // verus!
