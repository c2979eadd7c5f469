//! The progress of each ingestion, for display.

use vstd::prelude::*;
use crate::models::{IngestionProgress, IngestionStage};
use crate::text::str_eq;

verus! {

/// The place of the last of the first `n` snapshots that is of document
/// `id`, or -1.
pub open spec fn snapshot_index(entries: Seq<IngestionProgress>, id: Seq<char>, n: int) -> int
    decreases n,
{
    if n <= 0 || n > entries.len() {
        -1
    } else if entries[n - 1].document_id@ == id {
        n - 1
    } else {
        snapshot_index(entries, id, n - 1)
    }
}

proof fn lemma_snapshot_index_same_ids(
    a: Seq<IngestionProgress>,
    b: Seq<IngestionProgress>,
    id: Seq<char>,
    n: int,
)
    requires
        0 <= n <= a.len(),
        n <= b.len(),
        forall|i: int| 0 <= i < n ==> a[i].document_id@ == b[i].document_id@,
    ensures
        snapshot_index(a, id, n) == snapshot_index(b, id, n),
    decreases n,
{
    if n > 0 {
        lemma_snapshot_index_same_ids(a, b, id, n - 1);
    }
}

proof fn lemma_snapshot_index_bounds(entries: Seq<IngestionProgress>, id: Seq<char>, n: int)
    requires
        0 <= n <= entries.len(),
    ensures
        -1 <= snapshot_index(entries, id, n) < n,
        snapshot_index(entries, id, n) >= 0 ==> entries[snapshot_index(
            entries,
            id,
            n,
        )].document_id@ == id,
    decreases n,
{
    if n > 0 && entries[n - 1].document_id@ != id {
        lemma_snapshot_index_bounds(entries, id, n - 1);
    }
}

/// Whether two snapshots show the same.
pub open spec fn same_snapshot(a: IngestionProgress, b: IngestionProgress) -> bool {
    &&& a.document_id@ == b.document_id@
    &&& a.file_path@ == b.file_path@
    &&& a.stage == b.stage
    &&& a.progress == b.progress
    &&& a.message@ == b.message@
}

/// A copy of a snapshot.
pub fn copy_snapshot(p: &IngestionProgress) -> (r: IngestionProgress)
    ensures
        same_snapshot(r, *p),
{
    IngestionProgress {
        document_id: p.document_id.clone(),
        file_path: p.file_path.clone(),
        stage: p.stage,
        progress: p.progress,
        message: p.message.clone(),
    }
}

/// One snapshot per document that is being, or was, ingested.
#[derive(Debug, Clone)]
pub struct ProgressMap {
    entries: Vec<IngestionProgress>,
}

impl ProgressMap {
    /// The snapshots, in the order in which their documents came.
    pub closed spec fn snapshots(self) -> Seq<IngestionProgress> {
        self.entries@
    }

    /// The snapshot of document `id`, if there is one.
    pub open spec fn entry(self, id: Seq<char>) -> Option<IngestionProgress> {
        let i = snapshot_index(self.snapshots(), id, self.snapshots().len() as int);
        if 0 <= i < self.snapshots().len() {
            Some(self.snapshots()[i])
        } else {
            None
        }
    }

    /// A map without snapshots.
    pub fn new() -> (m: ProgressMap)
        ensures
            m.snapshots().len() == 0,
    {
        ProgressMap { entries: Vec::new() }
    }

    fn find(&self, doc_id: &str) -> (r: Option<usize>)
        ensures
            match r {
                Some(i) => i == snapshot_index(
                    self.snapshots(),
                    doc_id@,
                    self.snapshots().len() as int,
                ) && i < self.snapshots().len(),
                None => snapshot_index(self.snapshots(), doc_id@, self.snapshots().len() as int)
                    == -1,
            },
    {
        let mut n: usize = self.entries.len();
        while n > 0
            invariant
                n <= self.entries.len(),
                snapshot_index(self.entries@, doc_id@, self.entries@.len() as int)
                    == snapshot_index(self.entries@, doc_id@, n as int),
            decreases n,
        {
            if str_eq(self.entries[n - 1].document_id.as_str(), doc_id) {
                return Some(n - 1);
            }
            n -= 1;
        }
        None
    }

    /// Sets the snapshot of document `doc_id`. The snapshots of other
    /// documents stay as they are.
    pub fn update(
        &mut self,
        doc_id: &str,
        file_path: &str,
        stage: IngestionStage,
        progress: u8,
        message: &str,
    )
        ensures
            final(self).entry(doc_id@) matches Some(p) && p.document_id@ == doc_id@ && p.file_path@
                == file_path@ && p.stage == stage && p.progress == progress && p.message@
                == message@,
            forall|other: Seq<char>|
                other != doc_id@ ==> #[trigger] final(self).entry(other) == old(self).entry(other),
    {
        let ghost before = self.entries@;
        let snapshot = IngestionProgress {
            document_id: doc_id.to_owned(),
            file_path: file_path.to_owned(),
            stage,
            progress,
            message: message.to_owned(),
        };
        match self.find(doc_id) {
            Some(i) => {
                proof {
                    lemma_snapshot_index_bounds(before, doc_id@, before.len() as int);
                }
                self.entries.set(i, snapshot);
                proof {
                    let after = self.entries@;
                    assert forall|other: Seq<char>| true implies snapshot_index(
                        after,
                        other,
                        after.len() as int,
                    ) == snapshot_index(before, other, before.len() as int) by {
                        lemma_snapshot_index_same_ids(after, before, other, after.len() as int);
                    }
                    assert forall|other: Seq<char>| other != doc_id@ implies #[trigger] self.entry(
                        other,
                    ) == old(self).entry(other) by {
                        lemma_snapshot_index_bounds(before, other, before.len() as int);
                        let k = snapshot_index(before, other, before.len() as int);
                        if k >= 0 {
                            assert(k != i);
                            assert(after[k] == before[k]);
                        }
                    }
                }
            },
            None => {
                self.entries.push(snapshot);
                proof {
                    let after = self.entries@;
                    assert forall|other: Seq<char>| other != doc_id@ implies #[trigger] self.entry(
                        other,
                    ) == old(self).entry(other) by {
                        lemma_snapshot_index_same_ids(after, before, other, before.len() as int);
                        lemma_snapshot_index_bounds(before, other, before.len() as int);
                        let k = snapshot_index(before, other, before.len() as int);
                        if k >= 0 {
                            assert(after[k] == before[k]);
                        }
                    }
                }
            },
        }
    }

    /// Replaces the message in the snapshot of document `doc_id`, if there
    /// is one. Gives whether there was.
    pub fn set_message(&mut self, doc_id: &str, message: &str) -> (found: bool)
        ensures
            found == (old(self).entry(doc_id@) is Some),
            found ==> (final(self).entry(doc_id@) matches Some(p) && old(self).entry(
                doc_id@,
            ) matches Some(q) && p.message@ == message@ && p.document_id@ == q.document_id@
                && p.file_path@ == q.file_path@ && p.stage == q.stage && p.progress == q.progress),
            !found ==> final(self).snapshots() == old(self).snapshots(),
            forall|other: Seq<char>|
                other != doc_id@ ==> #[trigger] final(self).entry(other) == old(self).entry(other),
    {
        let ghost before = self.entries@;
        match self.find(doc_id) {
            Some(i) => {
                proof {
                    lemma_snapshot_index_bounds(before, doc_id@, before.len() as int);
                }
                let snapshot = IngestionProgress {
                    document_id: self.entries[i].document_id.clone(),
                    file_path: self.entries[i].file_path.clone(),
                    stage: self.entries[i].stage,
                    progress: self.entries[i].progress,
                    message: message.to_owned(),
                };
                self.entries.set(i, snapshot);
                proof {
                    let after = self.entries@;
                    lemma_snapshot_index_same_ids(after, before, doc_id@, before.len() as int);
                    assert forall|other: Seq<char>| other != doc_id@ implies #[trigger] self.entry(
                        other,
                    ) == old(self).entry(other) by {
                        lemma_snapshot_index_same_ids(after, before, other, before.len() as int);
                        lemma_snapshot_index_bounds(before, other, before.len() as int);
                        let k = snapshot_index(before, other, before.len() as int);
                        if k >= 0 {
                            assert(k != i);
                            assert(after[k] == before[k]);
                        }
                    }
                }
                true
            },
            None => false,
        }
    }

    /// The snapshot of document `doc_id`, if there is one.
    pub fn get_progress(&self, doc_id: &str) -> (r: Option<IngestionProgress>)
        ensures
            match self.entry(doc_id@) {
                Some(p) => r matches Some(q) && same_snapshot(q, p),
                None => r is None,
            },
    {
        match self.find(doc_id) {
            Some(i) => Some(copy_snapshot(&self.entries[i])),
            None => None,
        }
    }

    /// All snapshots.
    pub fn get_all_progress(&self) -> (r: Vec<IngestionProgress>)
        ensures
            r@.len() == self.snapshots().len(),
            forall|i: int| 0 <= i < r@.len() ==> same_snapshot(#[trigger] r@[i], self.snapshots()[i]),
    {
        let mut r: Vec<IngestionProgress> = Vec::new();
        let mut i: usize = 0;
        while i < self.entries.len()
            invariant
                i <= self.entries.len(),
                r@.len() == i,
                forall|j: int| 0 <= j < i ==> same_snapshot(#[trigger] r@[j], self.entries@[j]),
            decreases self.entries.len() - i,
        {
            r.push(copy_snapshot(&self.entries[i]));
            i += 1;
        }
        r
    }

    /// Forgets all snapshots.
    pub fn clear_all_progress(&mut self)
        ensures
            final(self).snapshots().len() == 0,
    {
        self.entries = Vec::new();
    }
}

} // verus!
