//! The queue of files that wait to be ingested, and the single permit
//! under which one of them is processed at a time.

use vstd::prelude::*;
use crate::text::str_eq;

verus! {

/// A file that waits to be ingested.
#[derive(Debug, Clone)]
pub struct QueuedFile {
    pub path: String,
    /// In milliseconds since the Unix epoch.
    pub queued_at: i64,
}

/// The seconds to wait after an ingestion while other files wait.
pub const COOLDOWN_SECS: u64 = 2;

/// Queued files, in order, each as its path and the time at which it
/// was queued.
pub open spec fn queued_entries(files: Seq<QueuedFile>) -> Seq<(Seq<char>, i64)> {
    files.map_values(|f: QueuedFile| (f.path@, f.queued_at))
}

/// The first `n` of `entries` without those of the file at `path`.
pub open spec fn entries_without(entries: Seq<(Seq<char>, i64)>, path: Seq<char>, n: int) -> Seq<
    (Seq<char>, i64),
>
    decreases n,
{
    if n <= 0 || n > entries.len() {
        Seq::empty()
    } else if entries[n - 1].0 == path {
        entries_without(entries, path, n - 1)
    } else {
        entries_without(entries, path, n - 1).push(entries[n - 1])
    }
}

/// The files that wait, in the order in which they came, and the file
/// that holds the permit, if any.
#[derive(Debug, Clone)]
pub struct IngestionQueue {
    pending: Vec<QueuedFile>,
    active: Option<String>,
}

impl IngestionQueue {
    /// The files that wait, in the order in which they came, each as its
    /// path and the time at which it was queued.
    pub closed spec fn waiting(self) -> Seq<(Seq<char>, i64)> {
        queued_entries(self.pending@)
    }

    /// The path of the file that holds the permit, if any.
    pub closed spec fn in_flight(self) -> Option<Seq<char>> {
        match self.active {
            Some(p) => Some(p@),
            None => None,
        }
    }

    /// A queue in which nothing waits and nothing is processed.
    pub fn new() -> (q: IngestionQueue)
        ensures
            q.waiting().len() == 0,
            q.in_flight() is None,
    {
        IngestionQueue { pending: Vec::new(), active: None }
    }

    /// Puts a file at the end of the queue, as queued at the time `now`,
    /// and gives its place, counted from 1.
    pub fn enqueue(&mut self, path: &str, now: i64) -> (position: usize)
        ensures
            final(self).waiting() == old(self).waiting().push((path@, now)),
            final(self).in_flight() == old(self).in_flight(),
            position == final(self).waiting().len(),
    {
        let ghost before = self.pending@;
        self.pending.push(QueuedFile { path: path.to_owned(), queued_at: now });
        proof {
            assert(queued_entries(self.pending@) =~= queued_entries(before).push((path@, now)));
        }
        self.pending.len()
    }

    /// Whether it is the turn of the file at `path`: the permit is free,
    /// and the file is the first of those that wait, or none waits.
    pub open spec fn is_turn_of(self, path: Seq<char>) -> bool {
        self.in_flight() is None && (self.waiting().len() == 0 || self.waiting()[0].0 == path)
    }

    fn remove_entries(&mut self, path: &str)
        ensures
            final(self).in_flight() == old(self).in_flight(),
            final(self).waiting() == entries_without(
                old(self).waiting(),
                path@,
                old(self).waiting().len() as int,
            ),
    {
        let ghost before = queued_entries(self.pending@);
        let mut kept: Vec<QueuedFile> = Vec::new();
        let mut i: usize = 0;
        proof {
            assert(queued_entries(kept@) =~= entries_without(before, path@, 0));
        }
        while i < self.pending.len()
            invariant
                i <= self.pending.len(),
                before == queued_entries(self.pending@),
                queued_entries(kept@) == entries_without(before, path@, i as int),
            decreases self.pending.len() - i,
        {
            let ghost prev = kept@;
            if !str_eq(self.pending[i].path.as_str(), path) {
                kept.push(
                    QueuedFile {
                        path: self.pending[i].path.clone(),
                        queued_at: self.pending[i].queued_at,
                    },
                );
                proof {
                    assert(queued_entries(kept@) =~= queued_entries(prev).push(before[i as int]));
                }
            }
            i += 1;
        }
        self.pending = kept;
    }

    /// Takes the permit for the file at `path`, if it is the file's turn,
    /// and takes the file out of the queue. While one file holds the
    /// permit no other gets it, and a file that waits behind another does
    /// not get it before that one.
    pub fn try_begin(&mut self, path: &str) -> (granted: bool)
        ensures
            granted == old(self).is_turn_of(path@),
            granted ==> final(self).in_flight() == Some(path@) && final(self).waiting()
                == entries_without(old(self).waiting(), path@, old(self).waiting().len() as int),
            !granted ==> final(self).in_flight() == old(self).in_flight() && final(self).waiting()
                == old(self).waiting(),
    {
        if self.active.is_some() {
            return false;
        }
        if self.pending.len() > 0 && !str_eq(self.pending[0].path.as_str(), path) {
            return false;
        }
        self.remove_entries(path);
        self.active = Some(path.to_owned());
        true
    }

    /// Takes a file that waits out of the queue, as when its ingestion is
    /// given up before it began. The permit stays where it is.
    pub fn withdraw(&mut self, path: &str)
        ensures
            final(self).in_flight() == old(self).in_flight(),
            final(self).waiting() == entries_without(
                old(self).waiting(),
                path@,
                old(self).waiting().len() as int,
            ),
    {
        self.remove_entries(path);
    }

    /// The seconds to wait before the permit is given back: two while
    /// other files wait, else none.
    pub fn cooldown(&self) -> (secs: u64)
        ensures
            secs == if self.waiting().len() > 0 {
                COOLDOWN_SECS
            } else {
                0
            },
    {
        if self.pending.len() > 0 {
            COOLDOWN_SECS
        } else {
            0
        }
    }

    /// Gives the permit back and says how many seconds to wait before the
    /// next file is begun: two while other files wait, else none.
    pub fn finish(&mut self) -> (cooldown_secs: u64)
        ensures
            final(self).in_flight() is None,
            final(self).waiting() == old(self).waiting(),
            cooldown_secs == if old(self).waiting().len() > 0 {
                COOLDOWN_SECS
            } else {
                0
            },
    {
        self.active = None;
        if self.pending.len() > 0 {
            COOLDOWN_SECS
        } else {
            0
        }
    }

    /// How many files wait, and whether one is being processed.
    pub fn get_queue_status(&self) -> (r: (usize, bool))
        ensures
            r.0 == self.waiting().len(),
            r.1 == (self.in_flight() is Some),
    {
        (self.pending.len(), self.active.is_some())
    }

    /// The files that wait, in the order in which they came, each with
    /// the time at which it was queued.
    pub fn get_queued_files(&self) -> (r: Vec<QueuedFile>)
        ensures
            queued_entries(r@) == self.waiting(),
    {
        let mut r: Vec<QueuedFile> = Vec::new();
        let mut i: usize = 0;
        while i < self.pending.len()
            invariant
                i <= self.pending.len(),
                queued_entries(r@) == queued_entries(self.pending@).take(i as int),
            decreases self.pending.len() - i,
        {
            let ghost prev = r@;
            r.push(
                QueuedFile {
                    path: self.pending[i].path.clone(),
                    queued_at: self.pending[i].queued_at,
                },
            );
            proof {
                let entry = (self.pending@[i as int].path@, self.pending@[i as int].queued_at);
                assert(queued_entries(r@) =~= queued_entries(prev).push(entry));
                assert(queued_entries(self.pending@).take(i + 1) =~= queued_entries(
                    self.pending@,
                ).take(i as int).push(entry));
            }
            i += 1;
        }
        proof {
            assert(queued_entries(self.pending@).take(self.pending@.len() as int) =~= queued_entries(
                self.pending@,
            ));
        }
        r
    }

    /// Forgets the files that wait.
    pub fn clear(&mut self)
        ensures
            final(self).waiting().len() == 0,
            final(self).in_flight() == old(self).in_flight(),
    {
        self.pending = Vec::new();
    }
}

/// Of the files that wait, only the first can get the permit, and only
/// while no file holds it: no file is begun before one that was queued
/// before it, and no two files are in flight at once.
pub proof fn lemma_first_in_line_is_next(queue: IngestionQueue, path: Seq<char>)
    requires
        queue.waiting().len() > 0,
        queue.is_turn_of(path),
    ensures
        path == queue.waiting()[0].0,
        queue.in_flight() is None,
{
}

/// Files are begun in the order in which they were queued: once the
/// first of the files that wait has begun, the files that wait are the
/// others, in their order, so that the turn is the second file's next. This
/// holds where the first file does not wait a second time further back.
pub proof fn lemma_turns_follow_queue(waiting: Seq<(Seq<char>, i64)>, n: int)
    requires
        1 <= n <= waiting.len(),
        forall|j: int| 0 < j < waiting.len() ==> (#[trigger] waiting[j]).0 != waiting[0].0,
    ensures
        entries_without(waiting, waiting[0].0, n) == waiting.subrange(1, n),
    decreases n,
{
    if n > 1 {
        lemma_turns_follow_queue(waiting, n - 1);
        assert(waiting.subrange(1, n - 1).push(waiting[n - 1]) =~= waiting.subrange(1, n));
    } else {
        assert(entries_without(waiting, waiting[0].0, 0) =~= Seq::empty());
        assert(waiting.subrange(1, 1) =~= Seq::empty());
    }
}

} // verus!
