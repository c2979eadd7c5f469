//! Reading members out of JSON text.

use vstd::prelude::*;

verus! {

/// The member `key` of a JSON object, written as JSON text; `None` where
/// the text is not JSON, is no object, or has no such member.
pub uninterp spec fn json_member_of(json: Seq<char>, key: Seq<char>) -> Option<Seq<char>>;

/// The string that a JSON text stands for; `None` where the text is not
/// JSON or is not a string.
pub uninterp spec fn json_string_of(json: Seq<char>) -> Option<Seq<char>>;

/// Reads the member `key` out of a JSON object.
///
/// Wraps `serde_json::from_str`, `Value::get` and the `to_string` of the
/// member. Parsing and printing are `serde_json`'s and are not written
/// out here: the contract only names the result.
#[verifier::external_body]
pub(crate) fn json_member(json: &str, key: &str) -> (r: Option<String>)
    ensures
        match json_member_of(json@, key@) {
            Some(m) => r matches Some(t) && t@ == m,
            None => r is None,
        },
{
    match serde_json::from_str::<serde_json::Value>(json) {
        Ok(value) => match value.get(key) {
            Some(member) => Some(member.to_string()),
            None => None,
        },
        Err(_) => None,
    }
}

/// Reads a JSON text as a string.
///
/// Wraps `serde_json::from_str` and `Value::as_str`. The contract only
/// names the result.
#[verifier::external_body]
pub(crate) fn json_string(json: &str) -> (r: Option<String>)
    ensures
        match json_string_of(json@) {
            Some(s) => r matches Some(t) && t@ == s,
            None => r is None,
        },
{
    match serde_json::from_str::<serde_json::Value>(json) {
        Ok(value) => match value.as_str() {
            Some(s) => Some(s.to_string()),
            None => None,
        },
        Err(_) => None,
    }
}

} // verus!
