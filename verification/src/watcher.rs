//! The file watcher: which events of the file system matter, and when a
//! file that was written is settled enough to be ingested.
//!
//! Watching the file system, the clock and the store are the caller's
//! part.

use vstd::prelude::*;
use crate::ingestion::{extension_of, file_extension, file_name, file_name_of};
use crate::models::FileType;
use crate::string_set::StringSet;
use crate::text::{lowercase, str_eq};

verus! {

/// The milliseconds that a file has to be left alone before it is
/// ingested.
pub const DEBOUNCE_MILLIS: u64 = 2000;

/// The milliseconds after which the watcher looks for settled files even
/// if nothing happened.
pub const POLL_MILLIS: u64 = 500;

/// The events that can wait to be processed before further ones are
/// dropped.
pub const EVENT_CAPACITY: usize = 1000;

/// What the file system reports of a file.
#[derive(Debug, Clone, Copy, PartialEq, Eq, Structural)]
pub enum RawEventKind {
    Create,
    Modify,
    Remove,
    Other,
}

/// An event of a file that the knowledge base can ingest.
#[derive(Debug, Clone, PartialEq, Eq)]
pub enum WatchEvent {
    Created(String),
    Modified(String),
    Deleted(String),
}

/// The kind of the file at a path, by its extension.
pub open spec fn file_type_at(path: Seq<char>) -> FileType {
    FileType::of_extension(lowercase(extension_of(file_name_of(path))))
}

/// The kind of the file at `path`, by its extension.
pub fn file_type_of_path(path: &str) -> (t: FileType)
    ensures
        t == file_type_at(path@),
{
    let name = file_name(path);
    let ext = file_extension(name.as_str());
    FileType::from_extension(ext.as_str())
}

/// Maps a report of the file system to an event of the watcher.
///
/// Only the creation, change and removal of a file count, and only of a
/// file whose extension stands for a kind that can be ingested.
pub fn watch_event(kind: RawEventKind, path: &str) -> (r: Option<WatchEvent>)
    ensures
        file_type_at(path@) == FileType::Unknown || kind == RawEventKind::Other ==> r is None,
        file_type_at(path@) != FileType::Unknown ==> match kind {
            RawEventKind::Create => r matches Some(WatchEvent::Created(p)) && p@ == path@,
            RawEventKind::Modify => r matches Some(WatchEvent::Modified(p)) && p@ == path@,
            RawEventKind::Remove => r matches Some(WatchEvent::Deleted(p)) && p@ == path@,
            RawEventKind::Other => r is None,
        },
{
    match file_type_of_path(path) {
        FileType::Unknown => None,
        _ => match kind {
            RawEventKind::Create => Some(WatchEvent::Created(path.to_owned())),
            RawEventKind::Modify => Some(WatchEvent::Modified(path.to_owned())),
            RawEventKind::Remove => Some(WatchEvent::Deleted(path.to_owned())),
            RawEventKind::Other => None,
        },
    }
}

/// A file that was written, with the time of its last event, in
/// milliseconds.
pub type PendingFile = (String, u64);

/// The place of the last of the first `n` pending files that is at
/// `path`, or -1.
pub open spec fn pending_index(files: Seq<PendingFile>, path: Seq<char>, n: int) -> int
    decreases n,
{
    if n <= 0 || n > files.len() {
        -1
    } else if files[n - 1].0@ == path {
        n - 1
    } else {
        pending_index(files, path, n - 1)
    }
}

/// Whether a file whose last event was at `last` is settled at `now`.
pub open spec fn is_settled(last: u64, now: u64) -> bool {
    now >= last && now - last >= DEBOUNCE_MILLIS
}

/// The paths of the first `n` pending files that are settled at `now`.
pub open spec fn settled_among(files: Seq<PendingFile>, now: u64, n: int) -> Seq<Seq<char>>
    decreases n,
{
    if n <= 0 || n > files.len() {
        Seq::empty()
    } else if is_settled(files[n - 1].1, now) {
        settled_among(files, now, n - 1).push(files[n - 1].0@)
    } else {
        settled_among(files, now, n - 1)
    }
}

/// The first `n` pending files that are not settled at `now`, each as
/// its path and the time of its last event.
pub open spec fn unsettled_among(files: Seq<PendingFile>, now: u64, n: int) -> Seq<
    (Seq<char>, u64),
>
    decreases n,
{
    if n <= 0 || n > files.len() {
        Seq::empty()
    } else if is_settled(files[n - 1].1, now) {
        unsettled_among(files, now, n - 1)
    } else {
        unsettled_among(files, now, n - 1).push((files[n - 1].0@, files[n - 1].1))
    }
}

/// The first `n` pending files without those at `path`.
pub open spec fn pending_without(files: Seq<PendingFile>, path: Seq<char>, n: int) -> Seq<
    (Seq<char>, u64),
>
    decreases n,
{
    if n <= 0 || n > files.len() {
        Seq::empty()
    } else if files[n - 1].0@ == path {
        pending_without(files, path, n - 1)
    } else {
        pending_without(files, path, n - 1).push((files[n - 1].0@, files[n - 1].1))
    }
}

/// Pending files as pairs of path and time.
pub open spec fn pending_views(files: Seq<PendingFile>) -> Seq<(Seq<char>, u64)> {
    files.map_values(|f: PendingFile| (f.0@, f.1))
}

/// What the watcher is to do about an event at once.
#[derive(Debug, Clone, PartialEq, Eq)]
pub enum EventOutcome {
    /// Nothing: the file waits to settle, or is being ingested.
    Nothing,
    /// The file is gone: remove the document at this path from the store.
    RemoveDocument(String),
}

/// What to do with a settled file.
#[derive(Debug, Clone, Copy, PartialEq, Eq, Structural)]
pub enum SettledDecision {
    /// The file is gone again.
    SkipMissing,
    /// The store holds a document at its path already.
    SkipKnown,
    /// Hand the file to the ingestion engine.
    Ingest,
}

/// Collapses bursts of events: a file is ingested only when nothing has
/// happened to it for two seconds.
pub struct Debouncer {
    pending: Vec<PendingFile>,
    processing: StringSet,
}

impl Debouncer {
    /// The files that wait to settle, in the order in which they first
    /// came, each with the time of its last event.
    pub closed spec fn files(self) -> Seq<PendingFile> {
        self.pending@
    }

    /// The files that wait to settle, as pairs of path and time.
    pub open spec fn waiting(self) -> Seq<(Seq<char>, u64)> {
        pending_views(self.files())
    }

    /// The files that are being ingested.
    pub closed spec fn ingesting(self) -> Set<Seq<char>> {
        self.processing.view()
    }

    /// The time of the last event of the file at `path`, if it waits.
    pub closed spec fn last_event(self, path: Seq<char>) -> Option<u64> {
        let i = pending_index(self.pending@, path, self.pending@.len() as int);
        if 0 <= i < self.pending@.len() {
            Some(self.pending@[i].1)
        } else {
            None
        }
    }

    /// A debouncer for which nothing has happened yet.
    pub fn new() -> (d: Debouncer)
        ensures
            d.waiting().len() == 0,
            d.ingesting() == Set::<Seq<char>>::empty(),
    {
        Debouncer { pending: Vec::new(), processing: StringSet::new() }
    }

    fn find(&self, path: &str) -> (r: Option<usize>)
        ensures
            match r {
                Some(i) => i == pending_index(self.pending@, path@, self.pending@.len() as int)
                    && i < self.pending@.len() && self.pending@[i as int].0@ == path@,
                None => pending_index(self.pending@, path@, self.pending@.len() as int) == -1,
            },
    {
        let mut n: usize = self.pending.len();
        while n > 0
            invariant
                n <= self.pending.len(),
                pending_index(self.pending@, path@, self.pending@.len() as int) == pending_index(
                    self.pending@,
                    path@,
                    n as int,
                ),
            decreases n,
        {
            if str_eq(self.pending[n - 1].0.as_str(), path) {
                return Some(n - 1);
            }
            n -= 1;
        }
        None
    }

    fn forget(&mut self, path: &str)
        ensures
            final(self).waiting() == pending_without(
                old(self).pending@,
                path@,
                old(self).pending@.len() as int,
            ),
            final(self).processing == old(self).processing,
    {
        let mut kept: Vec<PendingFile> = Vec::new();
        let mut n: usize = 0;
        proof {
            assert(pending_views(kept@) =~= pending_without(self.pending@, path@, 0));
        }
        while n < self.pending.len()
            invariant
                n <= self.pending.len(),
                self.pending == old(self).pending,
                self.processing == old(self).processing,
                pending_views(kept@) == pending_without(self.pending@, path@, n as int),
            decreases self.pending.len() - n,
        {
            let ghost before = kept@;
            if !str_eq(self.pending[n].0.as_str(), path) {
                kept.push((self.pending[n].0.clone(), self.pending[n].1));
                proof {
                    assert(pending_views(kept@) =~= pending_views(before).push(
                        (self.pending@[n as int].0@, self.pending@[n as int].1),
                    ));
                }
            }
            n += 1;
        }
        self.pending = kept;
    }

    /// Takes an event that came at `now`.
    ///
    /// The creation or change of a file notes the time as that of the
    /// file's last event, unless the file is being ingested. The removal
    /// of a file is not debounced: the file is forgotten, and its
    /// document is to be removed at once.
    pub fn on_event(&mut self, event: &WatchEvent, now: u64) -> (r: EventOutcome)
        ensures
            match *event {
                WatchEvent::Created(path) | WatchEvent::Modified(path) => {
                    &&& r is Nothing
                    &&& final(self).ingesting() == old(self).ingesting()
                    &&& if old(self).ingesting().contains(path@) {
                        final(self).waiting() == old(self).waiting()
                    } else {
                        &&& final(self).last_event(path@) == Some(now)
                        &&& final(self).waiting().len() == if old(self).last_event(path@) is Some {
                            old(self).waiting().len()
                        } else {
                            old(self).waiting().len() + 1
                        }
                        &&& forall|other: Seq<char>|
                            other != path@ ==> #[trigger] final(self).last_event(other) == old(
                                self,
                            ).last_event(other)
                    }
                },
                WatchEvent::Deleted(path) => {
                    &&& r matches EventOutcome::RemoveDocument(p) && p@ == path@
                    &&& final(self).ingesting() == old(self).ingesting().remove(path@)
                    &&& final(self).last_event(path@) is None
                    &&& final(self).waiting() == pending_without(
                        old(self).files(),
                        path@,
                        old(self).files().len() as int,
                    )
                },
            },
    {
        match event {
            WatchEvent::Created(path) | WatchEvent::Modified(path) => {
                if self.processing.contains(path.as_str()) {
                    return EventOutcome::Nothing;
                }
                let ghost before = self.pending@;
                match self.find(path.as_str()) {
                    Some(i) => {
                        self.pending.set(i, (path.clone(), now));
                        proof {
                            let after = self.pending@;
                            lemma_pending_index_same_paths(
                                after,
                                before,
                                path@,
                                before.len() as int,
                            );
                            assert forall|other: Seq<char>|
                                other != path@ implies #[trigger] self.last_event(other) == old(
                                self,
                            ).last_event(other) by {
                                lemma_pending_index_same_paths(
                                    after,
                                    before,
                                    other,
                                    before.len() as int,
                                );
                                lemma_pending_index_bounds(before, other, before.len() as int);
                                let k = pending_index(before, other, before.len() as int);
                                if k >= 0 {
                                    assert(k != i);
                                    assert(after[k] == before[k]);
                                }
                            }
                        }
                    },
                    None => {
                        self.pending.push((path.clone(), now));
                        proof {
                            let after = self.pending@;
                            assert forall|other: Seq<char>|
                                other != path@ implies #[trigger] self.last_event(other) == old(
                                self,
                            ).last_event(other) by {
                                lemma_pending_index_same_paths(
                                    after,
                                    before,
                                    other,
                                    before.len() as int,
                                );
                                lemma_pending_index_bounds(before, other, before.len() as int);
                                let k = pending_index(before, other, before.len() as int);
                                if k >= 0 {
                                    assert(after[k] == before[k]);
                                }
                            }
                        }
                    },
                }
                EventOutcome::Nothing
            },
            WatchEvent::Deleted(path) => {
                self.forget(path.as_str());
                self.processing.remove(path.as_str());
                proof {
                    lemma_pending_without_absent(
                        old(self).pending@,
                        path@,
                        old(self).pending@.len() as int,
                    );
                    lemma_absent_index(self.pending@, path@, self.pending@.len() as int);
                }
                EventOutcome::RemoveDocument(path.clone())
            },
        }
    }

    /// Takes the files that are settled at `now` out of the waiting
    /// files, in the order in which they first came.
    pub fn take_ready(&mut self, now: u64) -> (ready: Vec<String>)
        ensures
            ready@.map_values(|p: String| p@) == settled_among(
                old(self).files(),
                now,
                old(self).files().len() as int,
            ),
            final(self).waiting() == unsettled_among(
                old(self).files(),
                now,
                old(self).files().len() as int,
            ),
            final(self).ingesting() == old(self).ingesting(),
    {
        let mut ready: Vec<String> = Vec::new();
        let mut kept: Vec<PendingFile> = Vec::new();
        let mut n: usize = 0;
        proof {
            assert(ready@.map_values(|p: String| p@) =~= settled_among(self.pending@, now, 0));
            assert(pending_views(kept@) =~= unsettled_among(self.pending@, now, 0));
        }
        while n < self.pending.len()
            invariant
                n <= self.pending.len(),
                self.pending == old(self).pending,
                self.processing == old(self).processing,
                ready@.map_values(|p: String| p@) == settled_among(self.pending@, now, n as int),
                pending_views(kept@) == unsettled_among(self.pending@, now, n as int),
            decreases self.pending.len() - n,
        {
            let ghost ready_before = ready@;
            let ghost kept_before = kept@;
            let last = self.pending[n].1;
            if now >= last && now - last >= DEBOUNCE_MILLIS {
                ready.push(self.pending[n].0.clone());
                proof {
                    assert(ready@.map_values(|p: String| p@) =~= ready_before.map_values(
                        |p: String| p@,
                    ).push(self.pending@[n as int].0@));
                }
            } else {
                kept.push((self.pending[n].0.clone(), last));
                proof {
                    assert(pending_views(kept@) =~= pending_views(kept_before).push(
                        (self.pending@[n as int].0@, last),
                    ));
                }
            }
            n += 1;
        }
        self.pending = kept;
        ready
    }

    /// Decides what to do with a settled file, given whether it still
    /// exists and whether the store holds a document at its path.
    pub fn decide(present: bool, known: bool) -> (d: SettledDecision)
        ensures
            d == if !present {
                SettledDecision::SkipMissing
            } else if known {
                SettledDecision::SkipKnown
            } else {
                SettledDecision::Ingest
            },
    {
        if !present {
            SettledDecision::SkipMissing
        } else if known {
            SettledDecision::SkipKnown
        } else {
            SettledDecision::Ingest
        }
    }

    /// Notes that the file at `path` is being ingested: events of it are
    /// passed over until it is done.
    pub fn begin(&mut self, path: &str)
        ensures
            final(self).ingesting() == old(self).ingesting().insert(path@),
            final(self).waiting() == old(self).waiting(),
    {
        self.processing.insert(path);
    }

    /// Notes that the file at `path` is done.
    pub fn finish(&mut self, path: &str)
        ensures
            final(self).ingesting() == old(self).ingesting().remove(path@),
            final(self).waiting() == old(self).waiting(),
    {
        self.processing.remove(path);
    }

    /// Whether the file at `path` is being ingested.
    pub fn is_processing(&self, path: &str) -> (r: bool)
        ensures
            r == self.ingesting().contains(path@),
    {
        self.processing.contains(path)
    }

    /// How many files wait to settle.
    pub fn pending_count(&self) -> (n: usize)
        ensures
            n == self.waiting().len(),
    {
        self.pending.len()
    }
}

proof fn lemma_pending_index_bounds(files: Seq<PendingFile>, path: Seq<char>, n: int)
    requires
        0 <= n <= files.len(),
    ensures
        -1 <= pending_index(files, path, n) < n,
        pending_index(files, path, n) >= 0 ==> files[pending_index(files, path, n)].0@ == path,
    decreases n,
{
    if n > 0 && files[n - 1].0@ != path {
        lemma_pending_index_bounds(files, path, n - 1);
    }
}

proof fn lemma_pending_index_same_paths(
    a: Seq<PendingFile>,
    b: Seq<PendingFile>,
    path: Seq<char>,
    n: int,
)
    requires
        0 <= n <= a.len(),
        n <= b.len(),
        forall|i: int| 0 <= i < n ==> a[i].0@ == b[i].0@,
    ensures
        pending_index(a, path, n) == pending_index(b, path, n),
    decreases n,
{
    if n > 0 {
        lemma_pending_index_same_paths(a, b, path, n - 1);
    }
}

/// No file at `path` is left among pending files once those at `path`
/// are taken out.
pub proof fn lemma_pending_without_absent(files: Seq<PendingFile>, path: Seq<char>, n: int)
    requires
        0 <= n <= files.len(),
    ensures
        forall|i: int|
            0 <= i < pending_without(files, path, n).len() ==> (#[trigger] pending_without(
                files,
                path,
                n,
            )[i]).0 != path,
    decreases n,
{
    if n > 0 {
        lemma_pending_without_absent(files, path, n - 1);
        let prev = pending_without(files, path, n - 1);
        let cur = pending_without(files, path, n);
        assert forall|i: int| 0 <= i < cur.len() implies (#[trigger] cur[i]).0 != path by {
            if i < prev.len() {
                assert(cur[i] == prev[i]);
            }
        }
    }
}

proof fn lemma_absent_index(files: Seq<PendingFile>, path: Seq<char>, n: int)
    requires
        0 <= n <= files.len(),
        forall|i: int| 0 <= i < files.len() ==> (#[trigger] pending_views(files)[i]).0 != path,
    ensures
        pending_index(files, path, n) == -1,
    decreases n,
{
    if n > 0 {
        assert(pending_views(files)[n - 1].0 == files[n - 1].0@);
        lemma_absent_index(files, path, n - 1);
    }
}

} // verus!
