//! Fresh identifiers.

use vstd::prelude::*;

verus! {

/// A fresh identifier for a document, a conversation or a message.
///
/// Wraps `Uuid::new_v4` of `uuid` and its `to_string`. The identifier is
/// drawn at random, so nothing is promised of it.
#[verifier::external_body]
pub(crate) fn new_id() -> String {
    uuid::Uuid::new_v4().to_string()
}

} // verus!
