//! Paths as the store keeps them.
//!
//! A path is looked up in the form that the file system gives for it
//! (symbolic links resolved), without the long-path prefix of some
//! platforms. Where the file system gives none, because nothing is at
//! the path, separators are normalized instead: every run of `/` and `\`
//! becomes a single `\`.

use vstd::prelude::*;
use crate::notifications::{without_long_path_prefix, NotificationBuilder};
use crate::text::{chars_of, string_of};

verus! {

/// Whether a character separates the parts of a path.
pub open spec fn is_separator(c: char) -> bool {
    c == '/' || c == '\\'
}

/// A path with its separators normalized: every run of separators has
/// become one backslash, and every other character stands as it stood.
pub open spec fn separators_normalized(path: Seq<char>) -> Seq<char>
    decreases path.len(),
{
    if path.len() == 0 {
        Seq::empty()
    } else {
        let before = separators_normalized(path.drop_last());
        if !is_separator(path.last()) {
            before.push(path.last())
        } else if before.len() > 0 && before.last() == '\\' {
            before
        } else {
            before.push('\\')
        }
    }
}

/// The form in which a path is looked up: what the file system gives for
/// it, without the long-path prefix, or else the path with its
/// separators normalized.
pub open spec fn normalized(path: Seq<char>, canonical: Option<Seq<char>>) -> Seq<char> {
    match canonical {
        Some(c) => without_long_path_prefix(c),
        None => separators_normalized(path),
    }
}

/// Normalizes the separators of a path.
pub fn normalize_separators(path: &str) -> (r: String)
    ensures
        r@ == separators_normalized(path@),
{
    let chars = chars_of(path);
    let mut out: Vec<char> = Vec::new();
    let mut i: usize = 0;
    while i < chars.len()
        invariant
            i <= chars.len(),
            out@ == separators_normalized(chars@.take(i as int)),
        decreases chars.len() - i,
    {
        let c = chars[i];
        proof {
            assert(chars@.take(i + 1).drop_last() =~= chars@.take(i as int));
        }
        if c != '/' && c != '\\' {
            out.push(c);
        } else if out.len() == 0 || out[out.len() - 1] != '\\' {
            out.push('\\');
        }
        i += 1;
    }
    proof {
        assert(chars@.take(chars@.len() as int) =~= chars@);
    }
    string_of(&out)
}

/// Gives the form in which a path is looked up in the store; `canonical`
/// is what the file system gives for the path, if anything is there.
pub fn normalize_path(path: &str, canonical: Option<String>) -> (r: String)
    ensures
        r@ == normalized(
            path@,
            match canonical {
                Some(c) => Some(c@),
                None => None,
            },
        ),
{
    match canonical {
        Some(c) => NotificationBuilder::normalize_path(c.as_str()),
        None => normalize_separators(path),
    }
}

/// Whether no two backslashes stand in a row in `s`, and no slash
/// anywhere.
pub open spec fn is_normal(s: Seq<char>) -> bool {
    &&& forall|i: int| 0 <= i && i + 1 < s.len() ==> !(#[trigger] s[i] == '\\' && s[i + 1] == '\\')
    &&& forall|i: int| 0 <= i < s.len() ==> #[trigger] s[i] != '/'
}

/// A path in normal form stays as it is when its separators are
/// normalized.
pub proof fn lemma_normal_is_fixed(s: Seq<char>)
    requires
        is_normal(s),
    ensures
        separators_normalized(s) == s,
    decreases s.len(),
{
    if s.len() > 0 {
        let front = s.drop_last();
        assert(is_normal(front)) by {
            assert forall|i: int| 0 <= i && i + 1 < front.len() implies !(#[trigger] front[i]
                == '\\' && front[i + 1] == '\\') by {
                assert(front[i] == s[i] && front[i + 1] == s[i + 1]);
            }
            assert forall|i: int| 0 <= i < front.len() implies #[trigger] front[i] != '/' by {
                assert(front[i] == s[i]);
            }
        }
        lemma_normal_is_fixed(front);
        assert(s.last() == s[s.len() - 1]);
        if front.len() > 0 {
            assert(front.last() == s[s.len() - 2]);
        }
        assert(front.push(s.last()) =~= s);
    }
}

/// To normalize the separators of a path gives a path in normal form.
pub proof fn lemma_normalized_is_normal(path: Seq<char>)
    ensures
        is_normal(separators_normalized(path)),
    decreases path.len(),
{
    if path.len() > 0 {
        lemma_normalized_is_normal(path.drop_last());
    }
}

/// The normalization of separators is idempotent: to normalize a path
/// that was normalized changes nothing.
pub proof fn lemma_normalization_idempotent(path: Seq<char>)
    ensures
        separators_normalized(separators_normalized(path)) == separators_normalized(path),
{
    lemma_normalized_is_normal(path);
    lemma_normal_is_fixed(separators_normalized(path));
}

/// To look a path up is idempotent: the form in which a path is looked
/// up is looked up in that same form, as long as the file system gives
/// for it what it gave for the path.
pub proof fn lemma_lookup_form_idempotent(path: Seq<char>, canonical: Option<Seq<char>>)
    ensures
        normalized(normalized(path, canonical), canonical) == normalized(path, canonical),
{
    lemma_normalization_idempotent(path);
}

/// Two spellings of the path of one file are looked up in the same form:
/// that which the file system gives for the file.
pub proof fn lemma_spellings_agree(first: Seq<char>, second: Seq<char>, canonical: Seq<char>)
    ensures
        normalized(first, Some(canonical)) == normalized(second, Some(canonical)),
{
}

} // verus!
