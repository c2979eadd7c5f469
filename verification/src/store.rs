//! The rules that the store keeps beyond its tables: which migrations
//! are run, which failures are passed over, and what is checked before a
//! write.
//!
//! The tables themselves, and every statement on them, are the caller's
//! part.

use vstd::prelude::*;
use vstd::string::StringExecFns;
use crate::error::RecallError;
use crate::models::DocumentStatus;
use crate::text::{chars_of, contains_chars, has_substring};

verus! {

/// The width of every embedding in the store.
pub const EMBEDDING_WIDTH: usize = 768;

/// The versions of the migrations that are yet to run on a store at
/// version `current`, where `count` migrations are known: those above
/// `current`, in rising order.
pub open spec fn pending_versions(current: i32, count: i32) -> Seq<i32> {
    if current >= count {
        Seq::empty()
    } else if current < 0 {
        Seq::new(count as nat, |i: int| (i + 1) as i32)
    } else {
        Seq::new((count - current) as nat, |i: int| (current + 1 + i) as i32)
    }
}

/// Gives the versions of the migrations that are yet to run.
///
/// A migration runs once: on a store that is at the latest version none
/// is left.
pub fn pending_migrations(current: i32, count: i32) -> (r: Vec<i32>)
    requires
        count >= 0,
    ensures
        r@ == pending_versions(current, count),
        current >= count ==> r@.len() == 0,
{
    let mut r: Vec<i32> = Vec::new();
    let start: i32 = if current < 0 {
        0
    } else {
        current
    };
    if start >= count {
        proof {
            assert(r@ =~= pending_versions(current, count));
        }
        return r;
    }
    let mut v: i32 = start;
    while v < count
        invariant
            0 <= start <= v <= count,
            r@.len() == v - start,
            forall|i: int| 0 <= i < r@.len() ==> r@[i] == start + 1 + i,
        decreases count - v,
    {
        v += 1;
        r.push(v);
    }
    proof {
        assert(r@ =~= pending_versions(current, count));
    }
    r
}

/// What to do when a migration fails.
#[derive(Debug, Clone, Copy, PartialEq, Eq, Structural)]
pub enum MigrationFailure {
    /// Go on: the store works without what the migration creates.
    PassOver,
    /// Give up starting.
    Abort,
}

/// The name of the table of embeddings.
pub open spec fn vector_table() -> Seq<char> {
    "vec_chunks"@
}

/// Decides what to do when the migration with text `migration` fails.
///
/// Only the migration that creates the table of embeddings may fail: the
/// store then works without vector search.
pub fn on_migration_failure(migration: &str) -> (r: MigrationFailure)
    ensures
        r == if has_substring(migration@, vector_table()) {
            MigrationFailure::PassOver
        } else {
            MigrationFailure::Abort
        },
{
    let hay = chars_of(migration);
    let needle = chars_of("vec_chunks");
    if contains_chars(&hay, &needle) {
        MigrationFailure::PassOver
    } else {
        MigrationFailure::Abort
    }
}

/// Whether a document in this status is left over from a run that
/// crashed: it was neither completed nor failed.
pub fn is_orphaned(status: DocumentStatus) -> (r: bool)
    ensures
        r == (status == DocumentStatus::Pending || status == DocumentStatus::Processing),
{
    match status {
        DocumentStatus::Pending | DocumentStatus::Processing => true,
        _ => false,
    }
}

/// Checks that vector search can be used: it cannot where the extension
/// that provides it did not load.
pub fn require_vector_extension(loaded: bool) -> (r: std::result::Result<(), RecallError>)
    ensures
        r is Err <==> !loaded,
        r matches Err(e) ==> (e matches RecallError::ExtensionLoad(m) && m@
            == "sqlite-vec extension is not loaded"@),
{
    if loaded {
        Ok(())
    } else {
        Err(RecallError::ExtensionLoad("sqlite-vec extension is not loaded".to_owned()))
    }
}

/// The text of the failure for chunks of a document that is not in the
/// store.
pub open spec fn missing_parent_text(document_id: Seq<char>) -> Seq<char> {
    "Cannot insert chunks: document "@ + document_id + " does not exist"@
}

/// Checks, inside the transaction that inserts chunks, that their
/// document is in the store.
pub fn require_parent(document_id: &str, found: bool) -> (r: std::result::Result<
    (),
    RecallError,
>)
    ensures
        r is Err <==> !found,
        r matches Err(e) ==> (e matches RecallError::Other(m) && m@ == missing_parent_text(
            document_id@,
        )),
{
    if found {
        Ok(())
    } else {
        let mut m = String::new();
        m.append("Cannot insert chunks: document ");
        m.append(document_id);
        m.append(" does not exist");
        proof {
            assert(m@ =~= missing_parent_text(document_id@));
        }
        Err(RecallError::Other(m))
    }
}

/// Checks that there is one embedding for each chunk, so that the chunks
/// of a document have embeddings all or none.
pub fn require_matching_counts(chunk_ids: usize, embeddings: usize) -> (r: std::result::Result<
    (),
    RecallError,
>)
    ensures
        r is Err <==> chunk_ids != embeddings,
        r matches Err(e) ==> (e matches RecallError::Other(m) && m@
            == "Mismatched chunk_ids and embeddings length"@),
{
    if chunk_ids == embeddings {
        Ok(())
    } else {
        Err(RecallError::Other("Mismatched chunk_ids and embeddings length".to_owned()))
    }
}

/// Checks that an embedding has the width of the store.
pub fn require_width(width: usize) -> (r: std::result::Result<(), RecallError>)
    ensures
        r is Err <==> width != EMBEDDING_WIDTH,
        r matches Err(e) ==> (e matches RecallError::Embedding(m) && m@
            == "Embedding has the wrong width"@),
{
    if width == EMBEDDING_WIDTH {
        Ok(())
    } else {
        Err(RecallError::Embedding("Embedding has the wrong width".to_owned()))
    }
}

/// A rank of the full-text index turned round, so that more is better:
/// the index gives less for a better match.
pub fn invert_rank(raw: i64) -> (r: i64)
    ensures
        r == if raw == i64::MIN {
            i64::MAX
        } else {
            (-raw) as i64
        },
{
    if raw == i64::MIN {
        i64::MAX
    } else {
        -raw
    }
}

} // verus!
