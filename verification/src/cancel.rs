//! The set of documents whose ingestion was asked to stop.

use vstd::prelude::*;
use crate::string_set::StringSet;

verus! {

/// The ids of the documents whose ingestion was asked to stop. The
/// pipeline looks at it between its steps.
#[derive(Debug, Clone)]
pub struct CancellationSet {
    ids: StringSet,
}

impl CancellationSet {
    /// The ids in the set.
    pub closed spec fn ids(self) -> Set<Seq<char>> {
        self.ids.view()
    }

    /// The empty set.
    pub fn new() -> (c: CancellationSet)
        ensures
            c.ids() == Set::<Seq<char>>::empty(),
    {
        CancellationSet { ids: StringSet::new() }
    }

    /// Asks the ingestion of document `doc_id` to stop. Always `true`: a
    /// request is taken whether or not an ingestion is under way.
    pub fn cancel(&mut self, doc_id: &str) -> (r: bool)
        ensures
            r,
            final(self).ids() == old(self).ids().insert(doc_id@),
    {
        self.ids.insert(doc_id);
        true
    }

    /// Whether the ingestion of document `doc_id` was asked to stop.
    pub fn is_cancelled(&self, doc_id: &str) -> (r: bool)
        ensures
            r == self.ids().contains(doc_id@),
    {
        self.ids.contains(doc_id)
    }

    /// Takes document `doc_id` out of the set.
    pub fn clear_cancelled(&mut self, doc_id: &str)
        ensures
            final(self).ids() == old(self).ids().remove(doc_id@),
    {
        self.ids.remove(doc_id);
    }

    /// Empties the set.
    pub fn clear(&mut self)
        ensures
            final(self).ids() == Set::<Seq<char>>::empty(),
    {
        self.ids.clear();
    }
}

} // verus!
