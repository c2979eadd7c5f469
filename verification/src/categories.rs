//! The categories that documents are sorted into.
//!
//! Asking the model is the caller's part.

use vstd::prelude::*;
use vstd::string::StringExecFns;
use vstd::utf8::encode_utf8;
use crate::models::Chunk;
use crate::text::{chars_of, trim, trimmed};

verus! {

/// The categories, as the model is offered them. The last one takes
/// what fits no other.
pub open spec fn category_names() -> Seq<Seq<char>> {
    seq![
        "Science & Technology"@,
        "Business & Finance"@,
        "Health & Medicine"@,
        "Education & Learning"@,
        "Arts & Entertainment"@,
        "News & Current Events"@,
        "Legal & Compliance"@,
        "Personal & Lifestyle"@,
        "Travel & Geography"@,
        "Food & Cooking"@,
        "Sports & Fitness"@,
        "History & Culture"@,
        "Politics & Government"@,
        "Environment & Nature"@,
        "Other"@,
    ]
}

/// The views of a list of string slices.
pub open spec fn name_views(v: Seq<&'static str>) -> Seq<Seq<char>> {
    v.map_values(|s: &'static str| s@)
}

/// The categories.
pub fn content_categories() -> (v: Vec<&'static str>)
    ensures
        name_views(v@) == category_names(),
{
    let v = vec![
        "Science & Technology",
        "Business & Finance",
        "Health & Medicine",
        "Education & Learning",
        "Arts & Entertainment",
        "News & Current Events",
        "Legal & Compliance",
        "Personal & Lifestyle",
        "Travel & Geography",
        "Food & Cooking",
        "Sports & Fitness",
        "History & Culture",
        "Politics & Government",
        "Environment & Nature",
        "Other",
    ];
    proof {
        assert(name_views(v@) =~= category_names());
    }
    v
}

/// A character with an ASCII capital letter made small.
pub open spec fn ascii_lower(c: char) -> char {
    if 'A' <= c <= 'Z' {
        ((c as u8) + 32) as char
    } else {
        c
    }
}

/// A text with its ASCII capital letters made small.
pub open spec fn ascii_lowered(s: Seq<char>) -> Seq<char> {
    Seq::new(s.len(), |i: int| ascii_lower(s[i]))
}

/// Whether two texts are the same but for the case of ASCII letters.
pub open spec fn same_ignoring_ascii_case(a: Seq<char>, b: Seq<char>) -> bool {
    ascii_lowered(a) == ascii_lowered(b)
}

fn lower(c: char) -> (r: char)
    ensures
        r == ascii_lower(c),
{
    if 'A' <= c && c <= 'Z' {
        ((c as u8) + 32) as char
    } else {
        c
    }
}

/// Whether two texts are the same but for the case of ASCII letters.
pub fn eq_ignore_ascii_case(a: &str, b: &str) -> (r: bool)
    ensures
        r == same_ignoring_ascii_case(a@, b@),
{
    let x = chars_of(a);
    let y = chars_of(b);
    let ghost lx = ascii_lowered(x@);
    let ghost ly = ascii_lowered(y@);
    if x.len() != y.len() {
        assert(lx.len() != ly.len());
        return false;
    }
    let mut i: usize = 0;
    while i < x.len()
        invariant
            i <= x.len(),
            x.len() == y.len(),
            x@ == a@,
            y@ == b@,
            lx == ascii_lowered(x@),
            ly == ascii_lowered(y@),
            forall|j: int| 0 <= j < i ==> lx[j] == ly[j],
        decreases x.len() - i,
    {
        assert(lx[i as int] == ascii_lower(x@[i as int]));
        assert(ly[i as int] == ascii_lower(y@[i as int]));
        if lower(x[i]) != lower(y[i]) {
            assert(lx[i as int] != ly[i as int]);
            return false;
        }
        i += 1;
    }
    assert(lx =~= ly);
    true
}

/// The place of the first of the first `n` categories that `reply` names,
/// whatever the case of its ASCII letters, or -1.
pub open spec fn named_category(reply: Seq<char>, n: int) -> int
    decreases n,
{
    if n <= 0 || n > category_names().len() {
        -1
    } else {
        let before = named_category(reply, n - 1);
        if before >= 0 {
            before
        } else if same_ignoring_ascii_case(reply, category_names()[n - 1]) {
            n - 1
        } else {
            -1
        }
    }
}

/// The category that the model's reply stands for: the one it names,
/// white space around the name and the case of its letters set aside,
/// or the last one where it names none.
pub fn valid_category(reply: &str) -> (r: &'static str)
    ensures
        ({
            let i = named_category(trimmed(reply@), category_names().len() as int);
            r@ == if i >= 0 {
                category_names()[i]
            } else {
                "Other"@
            }
        }),
{
    let t = trim(reply);
    let names = content_categories();
    let mut n: usize = 0;
    while n < names.len()
        invariant
            n <= names.len(),
            name_views(names@) == category_names(),
            t@ == trimmed(reply@),
            named_category(t@, n as int) == -1,
        decreases names.len() - n,
    {
        assert(name_views(names@)[n as int] == names@[n as int]@);
        if eq_ignore_ascii_case(t.as_str(), names[n]) {
            proof {
                lemma_named_category_found(t@, n as int, names@.len() as int);
            }
            return names[n];
        }
        n += 1;
    }
    proof {
        assert(name_views(names@).len() == names@.len());
    }
    "Other"
}

proof fn lemma_named_category_found(reply: Seq<char>, k: int, n: int)
    requires
        0 <= k < n <= category_names().len(),
        named_category(reply, k) == -1,
        same_ignoring_ascii_case(reply, category_names()[k]),
    ensures
        named_category(reply, n) == k,
    decreases n,
{
    if n > k + 1 {
        lemma_named_category_found(reply, k, n - 1);
    }
}

/// The chunks of a document that are looked at, at most.
pub const SAMPLE_CHUNKS: usize = 5;

/// The bytes of a sample beyond which no further chunk is added.
pub const SAMPLE_LEN: usize = 2000;

/// The sample of the first `n` chunks: each chunk with two line feeds
/// behind it, until five chunks are taken or the sample has passed two
/// thousand bytes.
pub open spec fn sample_of(chunks: Seq<Chunk>, n: int) -> Seq<char>
    decreases n,
{
    if n <= 0 || n > chunks.len() || n > SAMPLE_CHUNKS {
        Seq::empty()
    } else {
        let before = sample_of(chunks, n - 1);
        if n > 1 && encode_utf8(before).len() > SAMPLE_LEN {
            before
        } else {
            before + chunks[n - 1].content@ + "\n\n"@
        }
    }
}

/// The number of chunks that a sample is taken from.
pub open spec fn sampled_chunks(chunks: Seq<Chunk>) -> int {
    if chunks.len() <= SAMPLE_CHUNKS {
        chunks.len() as int
    } else {
        SAMPLE_CHUNKS as int
    }
}

/// Takes the sample of a document's content that is shown to the model.
pub fn content_sample(chunks: &Vec<Chunk>) -> (r: String)
    ensures
        r@ == sample_of(chunks@, sampled_chunks(chunks@)),
{
    let n = if chunks.len() <= SAMPLE_CHUNKS {
        chunks.len()
    } else {
        SAMPLE_CHUNKS
    };
    let mut sample = String::new();
    let mut i: usize = 0;
    while i < n
        invariant
            i <= n <= chunks.len(),
            n <= SAMPLE_CHUNKS,
            sample@ == sample_of(chunks@, i as int),
        decreases n - i,
    {
        if !(i > 0 && sample.as_str().as_bytes().len() > SAMPLE_LEN) {
            sample.append(chunks[i].content.as_str());
            sample.append("\n\n");
            proof {
                assert(sample@ =~= sample_of(chunks@, i as int) + chunks@[i as int].content@
                    + "\n\n"@);
            }
        }
        i += 1;
    }
    sample
}

} // verus!
