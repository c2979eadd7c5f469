//! Citation markers in generated answers.
//!
//! The model is told to cite a chunk as its id in square brackets. Each
//! id that is cited is reported once, with the sentence around its first
//! marker as a quote.

use vstd::prelude::*;
use vstd::utf8::{decode_utf8, encode_utf8};
use crate::chunker::{ceil_boundary, ceil_char_boundary, slice_str};
use crate::patterns::{find_matches, match_views, regex_matches, Match, Span};
use crate::text::{find_byte, first_index_of, last_index_of, rfind_byte, trim, trimmed};

verus! {

/// A chunk that an answer cites, with the sentence in which it does.
#[derive(Debug, Clone)]
pub struct CitationRef {
    pub chunk_id: i64,
    pub quote: String,
}

/// The pattern of a citation marker: decimal digits in square brackets.
pub open spec fn citation_pattern() -> Seq<char> {
    "\\[(\\d+)\\]"@
}

/// Whether a byte is an ASCII decimal digit.
pub open spec fn is_digit(b: u8) -> bool {
    0x30 <= b <= 0x39
}

/// Whether `bytes[a..b]` holds ASCII decimal digits only.
pub open spec fn all_digits(bytes: Seq<u8>, a: int, b: int) -> bool {
    forall|i: int| a <= i < b ==> is_digit(#[trigger] bytes[i])
}

/// The number that the digits in `bytes[a..b]` write.
pub open spec fn digits_value(bytes: Seq<u8>, a: int, b: int) -> int
    decreases b - a,
{
    if b <= a {
        0
    } else {
        digits_value(bytes, a, b - 1) * 10 + (bytes[b - 1] - 0x30)
    }
}

/// The number that `bytes[a..b]` writes, where that is one or more ASCII
/// digits and the number fits the range of `max`.
pub open spec fn parsed_number(bytes: Seq<u8>, a: int, b: int, max: int) -> Option<int> {
    if 0 <= a < b <= bytes.len() && all_digits(bytes, a, b) && digits_value(bytes, a, b) <= max {
        Some(digits_value(bytes, a, b))
    } else {
        None
    }
}

proof fn lemma_digits_value_grows(bytes: Seq<u8>, a: int, j: int, k: int)
    requires
        0 <= a <= j <= k <= bytes.len(),
        all_digits(bytes, a, k),
    ensures
        0 <= digits_value(bytes, a, j) <= digits_value(bytes, a, k),
    decreases k - a,
{
    if j < k {
        lemma_digits_value_grows(bytes, a, j, k - 1);
        assert(is_digit(bytes[k - 1]));
    } else if a < j {
        lemma_digits_value_grows(bytes, a, j - 1, j - 1);
        assert(is_digit(bytes[j - 1]));
    }
}

/// Reads `bytes[a..b]` as a decimal number of at most `max`.
pub fn parse_number(bytes: &[u8], a: usize, b: usize, max: u64) -> (r: Option<u64>)
    ensures
        match parsed_number(bytes@, a as int, b as int, max as int) {
            Some(v) => r == Some(v as u64),
            None => r is None,
        },
        r matches Some(x) ==> x <= max && parsed_number(bytes@, a as int, b as int, max as int)
            == Some(x as int),
{
    if a >= b || b > bytes.len() {
        return None;
    }
    let mut acc: u64 = 0;
    let mut i: usize = a;
    while i < b
        invariant
            a <= i <= b <= bytes@.len(),
            all_digits(bytes@, a as int, i as int),
            acc == digits_value(bytes@, a as int, i as int),
            acc <= max,
        decreases b - i,
    {
        let c = bytes[i];
        if c < 0x30 || c > 0x39 {
            assert(!is_digit(bytes@[i as int]));
            return None;
        }
        let d: u64 = (c - 0x30) as u64;
        if d > max || acc > (max - d) / 10 {
            proof {
                if all_digits(bytes@, a as int, b as int) {
                    lemma_digits_value_grows(bytes@, a as int, i + 1, b as int);
                }
            }
            return None;
        }
        acc = acc * 10 + d;
        i += 1;
    }
    Some(acc)
}

/// The id that a match of the citation pattern cites: the number written
/// by its first group, where that fits a chunk id.
pub open spec fn cited_id(bytes: Seq<u8>, m: Seq<Option<Span>>) -> Option<i64> {
    if m.len() >= 2 && (m[0] matches Some(whole) && whole.start <= whole.end <= bytes.len()) {
        match m[1] {
            Some(g) => match parsed_number(bytes, g.start as int, g.end as int, i64::MAX as int) {
                Some(v) => Some(v as i64),
                None => None,
            },
            None => None,
        }
    } else {
        None
    }
}

/// The sentence around `bytes[start..end]`: from behind the last full
/// stop before it to the first full stop after it, without the white
/// space around.
pub open spec fn quote_of(bytes: Seq<u8>, start: int, end: int) -> Seq<char> {
    let before = last_index_of(bytes, 0x2E, 0, start);
    let from = if before >= 0 {
        before + 1
    } else {
        0
    };
    let after = first_index_of(bytes, 0x2E, end, bytes.len() as int);
    let to = if after >= 0 {
        after + 1
    } else {
        bytes.len() as int
    };
    let a = ceil_boundary(bytes, from);
    let b = ceil_boundary(bytes, to);
    if a <= b {
        trimmed(decode_utf8(bytes.subrange(a, b)))
    } else {
        Seq::empty()
    }
}

/// The cited ids of a list of citations.
pub open spec fn cited_ids(refs: Seq<(i64, Seq<char>)>) -> Seq<i64> {
    refs.map_values(|r: (i64, Seq<char>)| r.0)
}

/// The citations that the first `n` matches give: for each id, the
/// first match that cites it.
pub open spec fn citations_of(bytes: Seq<u8>, matches: Seq<Seq<Option<Span>>>, n: int) -> Seq<
    (i64, Seq<char>),
>
    decreases n,
{
    if n <= 0 || n > matches.len() {
        Seq::empty()
    } else {
        let prev = citations_of(bytes, matches, n - 1);
        let m = matches[n - 1];
        match cited_id(bytes, m) {
            Some(id) => if cited_ids(prev).contains(id) {
                prev
            } else {
                prev.push((id, quote_of(bytes, m[0]->0.start as int, m[0]->0.end as int)))
            },
            None => prev,
        }
    }
}

/// A list of citations as pairs of id and quote.
pub open spec fn citation_views(refs: Seq<CitationRef>) -> Seq<(i64, Seq<char>)> {
    refs.map_values(|r: CitationRef| (r.chunk_id, r.quote@))
}

fn already_cited(refs: &Vec<CitationRef>, id: i64) -> (r: bool)
    ensures
        r == cited_ids(citation_views(refs@)).contains(id),
{
    let mut i: usize = 0;
    while i < refs.len()
        invariant
            i <= refs.len(),
            forall|j: int| 0 <= j < i ==> cited_ids(citation_views(refs@))[j] != id,
        decreases refs.len() - i,
    {
        if refs[i].chunk_id == id {
            assert(cited_ids(citation_views(refs@))[i as int] == id);
            return true;
        }
        i += 1;
    }
    false
}

fn id_cited(raw: &[u8], m: &Match) -> (r: Option<i64>)
    ensures
        r == cited_id(raw@, m@),
        r is Some ==> m@.len() >= 2 && (m@[0] matches Some(whole) && whole.start <= whole.end
            <= raw@.len()),
{
    if m.len() < 2 {
        return None;
    }
    match m[0] {
        Some(whole) => {
            if !(whole.start <= whole.end && whole.end <= raw.len()) {
                return None;
            }
        },
        None => {
            return None;
        },
    }
    match m[1] {
        Some(g) => match parse_number(raw, g.start, g.end, i64::MAX as u64) {
            Some(v) => Some(v as i64),
            None => None,
        },
        None => None,
    }
}

fn quote_around(content: &str, start: usize, end: usize) -> (r: String)
    requires
        start <= end <= encode_utf8(content@).len(),
    ensures
        r@ == quote_of(encode_utf8(content@), start as int, end as int),
{
    let bytes = content.as_bytes();
    let len = bytes.len();
    let from = match rfind_byte(bytes, 0x2E, 0, start) {
        Some(i) => i + 1,
        None => 0,
    };
    let to = match find_byte(bytes, 0x2E, end, len) {
        Some(i) => i + 1,
        None => len,
    };
    proof {
        vstd::utf8::encode_utf8_valid_utf8(content@);
        crate::chunker::lemma_ceil_boundary(encode_utf8(content@), from as int);
        crate::chunker::lemma_ceil_boundary(encode_utf8(content@), to as int);
    }
    let a = ceil_char_boundary(content, from);
    let b = ceil_char_boundary(content, to);
    if a <= b {
        trim(slice_str(content, a, b))
    } else {
        String::new()
    }
}

/// Reads the citations off the matches of the citation pattern in
/// `content`.
///
/// A match whose digits do not fit a chunk id cites nothing. An id is
/// reported where it is first cited, with the sentence around that
/// marker.
pub fn citations_from_matches(content: &str, matches: &Vec<Match>) -> (r: Vec<CitationRef>)
    ensures
        citation_views(r@) == citations_of(
            encode_utf8(content@),
            match_views(matches@),
            matches@.len() as int,
        ),
{
    let ghost bytes = encode_utf8(content@);
    let ghost mv = match_views(matches@);
    let raw = content.as_bytes();
    let mut r: Vec<CitationRef> = Vec::new();
    let mut n: usize = 0;
    proof {
        assert(citation_views(r@) =~= citations_of(bytes, mv, 0));
    }
    while n < matches.len()
        invariant
            n <= matches.len(),
            bytes == encode_utf8(content@),
            raw@ == bytes,
            mv == match_views(matches@),
            citation_views(r@) == citations_of(bytes, mv, n as int),
        decreases matches.len() - n,
    {
        let m = &matches[n];
        let ghost prev = r@;
        assert(mv[n as int] == m@);
        match id_cited(raw, m) {
            Some(id) => {
                if !already_cited(&r, id) {
                    let whole = m[0].unwrap();
                    let quote = quote_around(content, whole.start, whole.end);
                    r.push(CitationRef { chunk_id: id, quote });
                    proof {
                        assert(citation_views(r@) =~= citation_views(prev).push(
                            (id, quote_of(bytes, whole.start as int, whole.end as int)),
                        ));
                    }
                }
            },
            None => {},
        }
        n += 1;
    }
    r
}

/// Finds the chunks that an answer cites.
pub fn parse_citations(content: &str) -> (r: Vec<CitationRef>)
    ensures
        citation_views(r@) == citations_of(
            encode_utf8(content@),
            regex_matches(citation_pattern(), content@),
            regex_matches(citation_pattern(), content@).len() as int,
        ),
{
    let matches = find_matches("\\[(\\d+)\\]", content);
    citations_from_matches(content, &matches)
}

} // verus!
