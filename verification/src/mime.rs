//! Media types by file extension.

use vstd::prelude::*;

verus! {

/// The media type that the table of `mime_guess` holds first for a file
/// extension, if it holds any.
pub uninterp spec fn mime_of_extension(ext: Seq<char>) -> Option<Seq<char>>;

/// Looks up the media type for a file extension.
///
/// Wraps `mime_guess::from_ext` and `MimeGuess::first`, and writes the
/// media type out as text. The result is read from a fixed table and
/// depends on the extension alone; the table is not written out here, so
/// the contract only names the result.
#[verifier::external_body]
pub(crate) fn guess_mime(ext: &str) -> (r: Option<String>)
    ensures
        match mime_of_extension(ext@) {
            Some(m) => r matches Some(t) && t@ == m,
            None => r is None,
        },
{
    match mime_guess::from_ext(ext).first() {
        Some(m) => Some(m.to_string()),
        None => None,
    }
}

/// The media type for a file extension, or `fallback` where none is
/// known.
pub fn mime_or(ext: &str, fallback: &str) -> (r: String)
    ensures
        r@ == match mime_of_extension(ext@) {
            Some(m) => m,
            None => fallback@,
        },
{
    match guess_mime(ext) {
        Some(m) => m,
        None => fallback.to_owned(),
    }
}

} // verus!
