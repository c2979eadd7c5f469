//! Turns what a user typed into a query for the full-text index.
//!
//! Characters that the index's query grammar could read as syntax are
//! replaced by spaces. What is left is split into words; words of a
//! single byte are dropped. One word is matched by prefix; several are
//! matched as a phrase or, each by prefix, alone.

use vstd::prelude::*;
use vstd::string::StringExecFns;
use crate::text::{
    alphanumeric, chars_of, is_alphanumeric, is_white_space, is_whitespace, push_chars,
    skip_white_space, subvec, trim_chars, trimmed,
};

verus! {

/// Whether a character is kept as it stands, given whether it is a
/// letter or a number: letters, numbers, white space, and the apostrophe,
/// full stop and comma are.
pub open spec fn is_kept(c: char, letter_or_number: bool) -> bool {
    letter_or_number || is_white_space(c) || c == '\'' || c == '.' || c == ','
}

/// Whether a character is kept as it stands: letters, numbers, white
/// space, and the apostrophe, full stop and comma.
pub open spec fn is_query_char(c: char) -> bool {
    is_kept(c, alphanumeric(c))
}

/// The query with every character that is not kept replaced by a space,
/// where `marks` says of each character whether it is a letter or a
/// number; a character without a mark counts as neither.
pub open spec fn sanitized_by(query: Seq<char>, marks: Seq<bool>) -> Seq<char> {
    Seq::new(
        query.len(),
        |i: int|
            if is_kept(query[i], i < marks.len() && marks[i]) {
                query[i]
            } else {
                ' '
            },
    )
}

/// The query with every character that is not kept replaced by a space.
pub open spec fn sanitized(query: Seq<char>) -> Seq<char> {
    query.map_values(
        |c: char|
            if is_query_char(c) {
                c
            } else {
                ' '
            },
    )
}

/// The index of the first white space at or after `from`, or the length
/// of `s`.
pub open spec fn word_end(s: Seq<char>, from: int) -> int
    decreases s.len() - from,
{
    if 0 <= from < s.len() && !is_white_space(s[from]) {
        word_end(s, from + 1)
    } else {
        from
    }
}

/// Whether a word takes more than one byte in UTF-8.
pub open spec fn is_query_word(w: Seq<char>) -> bool {
    w.len() > 1 || (w.len() == 1 && w[0] as u32 >= 0x80)
}

/// The words of `s` from index `from` on that take more than one byte:
/// a word is a longest run of characters that are not white space.
pub open spec fn query_words_from(s: Seq<char>, from: int) -> Seq<Seq<char>>
    decreases s.len() - from,
{
    let a = skip_white_space(s, from);
    let b = word_end(s, a);
    if from < 0 || a < from || a >= s.len() || b <= a || b > s.len() {
        Seq::empty()
    } else {
        let w = s.subrange(a, b);
        let rest = query_words_from(s, b);
        if is_query_word(w) {
            seq![w] + rest
        } else {
            rest
        }
    }
}

/// The first `n` words, each as a prefix term behind an ` OR `.
pub open spec fn or_terms(words: Seq<Seq<char>>, n: int) -> Seq<char>
    decreases n,
{
    if n <= 0 || n > words.len() {
        Seq::empty()
    } else {
        or_terms(words, n - 1) + " OR "@ + words[n - 1] + "*"@
    }
}

/// The full-text query for a sanitized text: nothing for a text without
/// words, a prefix term for one word, and for several the trimmed text
/// as a phrase, or any of the words by prefix.
pub open spec fn query_of(sanitized: Seq<char>) -> Seq<char> {
    let t = trimmed(sanitized);
    let words = query_words_from(t, 0);
    if words.len() == 0 {
        Seq::empty()
    } else if words.len() == 1 {
        words[0] + "*"@
    } else {
        "\""@ + t + "\""@ + or_terms(words, words.len() as int)
    }
}

/// The full-text query for what a user typed.
pub open spec fn fts_query(query: Seq<char>) -> Seq<char> {
    query_of(sanitized(query))
}

proof fn lemma_word_end_bounds(s: Seq<char>, from: int)
    requires
        0 <= from <= s.len(),
    ensures
        from <= word_end(s, from) <= s.len(),
        from < s.len() && !is_white_space(s[from]) ==> from < word_end(s, from),
    decreases s.len() - from,
{
    if from < s.len() && !is_white_space(s[from]) {
        lemma_word_end_bounds(s, from + 1);
    }
}

fn sanitize(query: &Vec<char>, marks: &Vec<bool>) -> (r: Vec<char>)
    ensures
        r@ == sanitized_by(query@, marks@),
{
    let mut r: Vec<char> = Vec::new();
    let mut i: usize = 0;
    while i < query.len()
        invariant
            i <= query.len(),
            r@ == sanitized_by(query@, marks@).take(i as int),
        decreases query.len() - i,
    {
        let c = query[i];
        let marked = i < marks.len() && marks[i];
        let keep = marked || is_whitespace(c) || c == '\'' || c == '.' || c == ',';
        r.push(
            if keep {
                c
            } else {
                ' '
            },
        );
        proof {
            assert(sanitized_by(query@, marks@).take(i + 1) =~= sanitized_by(query@, marks@).take(
                i as int,
            ).push(sanitized_by(query@, marks@)[i as int]));
        }
        i += 1;
    }
    proof {
        assert(sanitized_by(query@, marks@).take(query.len() as int) =~= sanitized_by(
            query@,
            marks@,
        ));
    }
    r
}

fn query_words(s: &Vec<char>) -> (r: Vec<Vec<char>>)
    ensures
        r@.map_values(|w: Vec<char>| w@) == query_words_from(s@, 0),
{
    let ghost view = |w: Vec<char>| w@;
    let mut r: Vec<Vec<char>> = Vec::new();
    let mut i: usize = 0;
    proof {
        assert(r@.map_values(view) + query_words_from(s@, 0) =~= query_words_from(s@, 0));
    }
    while i < s.len()
        invariant
            i <= s.len(),
            view == |w: Vec<char>| w@,
            r@.map_values(view) + query_words_from(s@, i as int) == query_words_from(s@, 0),
        decreases s.len() - i,
    {
        let ghost from = i as int;
        let ghost before = r@;
        let mut a: usize = i;
        while a < s.len() && is_whitespace(s[a])
            invariant
                i <= a <= s.len(),
                skip_white_space(s@, i as int) == skip_white_space(s@, a as int),
            decreases s.len() - a,
        {
            a += 1;
        }
        if a >= s.len() {
            i = s.len();
            proof {
                assert(query_words_from(s@, from) =~= Seq::<Seq<char>>::empty());
                assert(query_words_from(s@, s@.len() as int) =~= Seq::<Seq<char>>::empty());
            }
        } else {
            let mut b: usize = a;
            while b < s.len() && !is_whitespace(s[b])
                invariant
                    a <= b <= s.len(),
                    word_end(s@, a as int) == word_end(s@, b as int),
                decreases s.len() - b,
            {
                b += 1;
            }
            proof {
                lemma_word_end_bounds(s@, a as int);
            }
            let w = subvec(s, a, b);
            let keep = w.len() > 1 || (w[0] as u32) >= 0x80;
            if keep {
                r.push(w);
            }
            i = b;
            proof {
                let rest = query_words_from(s@, b as int);
                let wv = s@.subrange(a as int, b as int);
                if keep {
                    assert(r@.map_values(view) =~= before.map_values(view) + seq![wv]);
                    assert(query_words_from(s@, from) == seq![wv] + rest);
                    assert(before.map_values(view) + (seq![wv] + rest) =~= (before.map_values(view)
                        + seq![wv]) + rest);
                } else {
                    assert(query_words_from(s@, from) == rest);
                }
            }
        }
    }
    proof {
        assert(query_words_from(s@, s@.len() as int) =~= Seq::<Seq<char>>::empty());
        assert(r@.map_values(view) + Seq::<Seq<char>>::empty() =~= r@.map_values(view));
    }
    r
}

/// Prepares what a user typed for the full-text index.
///
/// Gives the empty string where nothing is left to search for: the
/// sparse leg of the retriever is then skipped.
pub fn prepare_fts_query(query: &str) -> (r: String)
    ensures
        r@ == fts_query(query@),
        trimmed(sanitized(query@)).len() == 0 ==> r@.len() == 0,
{
    let chars = chars_of(query);
    let mut marks: Vec<bool> = Vec::new();
    let mut i: usize = 0;
    while i < chars.len()
        invariant
            i <= chars.len(),
            marks@.len() == i,
            forall|j: int| 0 <= j < i ==> #[trigger] marks@[j] == alphanumeric(chars@[j]),
        decreases chars.len() - i,
    {
        marks.push(is_alphanumeric(chars[i]));
        i += 1;
    }
    proof {
        assert(sanitized_by(query@, marks@) =~= sanitized(query@));
    }
    query_from_marks(query, &marks)
}

/// Makes the full-text query of what a user typed and of the marks that
/// say of each of its characters whether it is a letter or a number.
pub fn query_from_marks(query: &str, marks: &Vec<bool>) -> (r: String)
    ensures
        r@ == query_of(sanitized_by(query@, marks@)),
        trimmed(sanitized_by(query@, marks@)).len() == 0 ==> r@.len() == 0,
{
    let chars = chars_of(query);
    let clean = sanitize(&chars, marks);
    let t = trim_chars(&clean);
    let words = query_words(&t);
    let ghost wv = words@.map_values(|w: Vec<char>| w@);
    proof {
        if t@.len() == 0 {
            assert(query_words_from(t@, 0) =~= Seq::<Seq<char>>::empty());
        }
    }
    let mut r = String::new();
    if words.len() == 0 {
        return r;
    }
    if words.len() == 1 {
        push_chars(&mut r, &words[0]);
        r.append("*");
        proof {
            assert(wv[0] == words[0]@);
            assert(r@ =~= wv[0] + "*"@);
        }
        return r;
    }
    r.append("\"");
    push_chars(&mut r, &t);
    r.append("\"");
    let ghost phrase = r@;
    proof {
        assert(phrase =~= "\""@ + t@ + "\""@);
    }
    let mut k: usize = 0;
    while k < words.len()
        invariant
            k <= words.len(),
            wv == words@.map_values(|w: Vec<char>| w@),
            r@ == phrase + or_terms(wv, k as int),
        decreases words.len() - k,
    {
        r.append(" OR ");
        push_chars(&mut r, &words[k]);
        r.append("*");
        proof {
            assert(wv[k as int] == words[k as int]@);
            assert(r@ =~= phrase + (or_terms(wv, k as int) + " OR "@ + wv[k as int] + "*"@));
        }
        k += 1;
    }
    r
}

} // verus!
