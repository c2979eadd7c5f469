//! The rules behind the operations that the shell offers: which files of
//! a directory are ingested, what a batch of ingestions comes to, how
//! watched folders are kept, and what is told in notifications.
//!
//! Walking directories and showing windows are the caller's part.

use vstd::prelude::*;
use vstd::string::StringExecFns;
use crate::error::RecallError;
use crate::ingestion::{file_name, file_name_of};
use crate::models::{FileType, IngestionProgress};
use crate::progress::{same_snapshot, ProgressMap};
use crate::queue::{queued_entries, IngestionQueue, QueuedFile};
use crate::related::RelatedDocument;
use crate::text::{decimal, joined, push_decimal, str_eq};
use crate::watcher::{file_type_at, file_type_of_path};

verus! {

/// Whether the file at a path is hidden: its name starts with a full
/// stop, or the path names no file.
pub open spec fn is_hidden(path: Seq<char>) -> bool {
    file_name_of(path).len() == 0 || file_name_of(path)[0] == '.'
}

/// Whether a file found in a directory is ingested: it is not hidden,
/// and its extension stands for a kind that can be ingested.
pub fn should_ingest_entry(path: &str) -> (r: bool)
    ensures
        r == (!is_hidden(path@) && file_type_at(path@) != FileType::Unknown),
{
    let name = crate::text::chars_of(file_name(path).as_str());
    if name.len() == 0 || name[0] == '.' {
        return false;
    }
    match file_type_of_path(path) {
        FileType::Unknown => false,
        _ => true,
    }
}

/// Whether a file found when a folder is first watched is ingested: its
/// extension stands for a kind that can be ingested, and the store holds
/// no document at its path.
pub fn should_scan_entry(path: &str, known: bool) -> (r: bool)
    ensures
        r == (file_type_at(path@) != FileType::Unknown && !known),
{
    match file_type_of_path(path) {
        FileType::Unknown => false,
        _ => !known,
    }
}

/// The character sequences of a list of strings.
pub open spec fn message_texts(v: Seq<String>) -> Seq<Seq<char>> {
    v.map_values(|t: String| t@)
}

/// The text of the failure of a directory of which no file could be
/// ingested.
pub open spec fn all_failed_text(errors: Seq<Seq<char>>) -> Seq<char> {
    "All files failed to ingest: "@ + joined(errors, "; "@, errors.len() as int)
}

/// What the ingestion of a directory comes to: a failure only where no
/// file was ingested and some file failed.
pub fn directory_outcome(ingested: usize, errors: &Vec<String>) -> (r: std::result::Result<
    (),
    RecallError,
>)
    ensures
        r is Err <==> (ingested == 0 && errors@.len() > 0),
        r matches Err(e) ==> (e matches RecallError::Ingestion(m) && m@ == all_failed_text(
            message_texts(errors@),
        )),
{
    if ingested == 0 && errors.len() > 0 {
        let ghost texts = message_texts(errors@);
        let mut m = String::new();
        m.append("All files failed to ingest: ");
        let ghost head = m@;
        let mut i: usize = 0;
        while i < errors.len()
            invariant
                i <= errors.len(),
                texts == message_texts(errors@),
                head == "All files failed to ingest: "@,
                m@ == head + joined(texts, "; "@, i as int),
            decreases errors.len() - i,
        {
            if i > 0 {
                m.append("; ");
            }
            m.append(errors[i].as_str());
            proof {
                assert(texts[i as int] == errors@[i as int]@);
                if i == 0 {
                    assert(joined(texts, "; "@, 0) =~= Seq::<char>::empty());
                    assert(m@ =~= head + joined(texts, "; "@, 1));
                } else {
                    assert(m@ =~= head + (joined(texts, "; "@, i as int) + "; "@ + texts[i as int]));
                }
            }
            i += 1;
        }
        proof {
            assert(texts.len() == errors@.len());
        }
        Err(RecallError::Ingestion(m))
    } else {
        Ok(())
    }
}

/// The entry for a file that failed, in the list of failures of a
/// directory.
pub fn directory_error(path: &str, error: &RecallError) -> (r: String)
    ensures
        r@ == path@ + ": "@ + error.message_spec(),
{
    let mut r = String::new();
    r.append(path);
    r.append(": ");
    r.append(error.message().as_str());
    proof {
        assert(r@ =~= path@ + ": "@ + error.message_spec());
    }
    r
}

/// Whether `folder` is among `folders`.
pub fn is_watched(folders: &Vec<String>, folder: &str) -> (r: bool)
    ensures
        r == message_texts(folders@).contains(folder@),
{
    let mut i: usize = 0;
    while i < folders.len()
        invariant
            i <= folders.len(),
            forall|j: int| 0 <= j < i ==> message_texts(folders@)[j] != folder@,
        decreases folders.len() - i,
    {
        if str_eq(folders[i].as_str(), folder) {
            assert(message_texts(folders@)[i as int] == folder@);
            return true;
        }
        i += 1;
    }
    false
}

/// Adds a folder to the watched folders, unless it is among them. Gives
/// whether it was added.
pub fn add_watched_folder(folders: &mut Vec<String>, folder: &str) -> (added: bool)
    ensures
        added == !message_texts(old(folders)@).contains(folder@),
        added ==> message_texts(final(folders)@) == message_texts(old(folders)@).push(folder@),
        !added ==> final(folders)@ == old(folders)@,
{
    if is_watched(folders, folder) {
        false
    } else {
        folders.push(folder.to_owned());
        proof {
            assert(message_texts(folders@) =~= message_texts(old(folders)@).push(folder@));
        }
        true
    }
}

/// The first `n` folders without those equal to `folder`.
pub open spec fn folders_without(folders: Seq<Seq<char>>, folder: Seq<char>, n: int) -> Seq<
    Seq<char>,
>
    decreases n,
{
    if n <= 0 || n > folders.len() {
        Seq::empty()
    } else if folders[n - 1] == folder {
        folders_without(folders, folder, n - 1)
    } else {
        folders_without(folders, folder, n - 1).push(folders[n - 1])
    }
}

/// Removes a folder from the watched folders.
pub fn remove_watched_folder(folders: &mut Vec<String>, folder: &str)
    ensures
        message_texts(final(folders)@) == folders_without(
            message_texts(old(folders)@),
            folder@,
            old(folders)@.len() as int,
        ),
{
    let ghost texts = message_texts(folders@);
    let mut kept: Vec<String> = Vec::new();
    let mut n: usize = 0;
    proof {
        assert(message_texts(kept@) =~= folders_without(texts, folder@, 0));
    }
    while n < folders.len()
        invariant
            n <= folders.len(),
            folders@ == old(folders)@,
            texts == message_texts(folders@),
            message_texts(kept@) == folders_without(texts, folder@, n as int),
        decreases folders.len() - n,
    {
        let ghost before = kept@;
        assert(texts[n as int] == folders@[n as int]@);
        if !str_eq(folders[n].as_str(), folder) {
            kept.push(folders[n].clone());
            proof {
                assert(message_texts(kept@) =~= message_texts(before).push(texts[n as int]));
            }
        }
        n += 1;
    }
    *folders = kept;
}

/// Whether the watcher is started with these settings: only where
/// files are to be ingested as they appear and some folder is watched.
pub fn should_start_watcher(auto_ingest_enabled: bool, watched_folders: usize) -> (r: bool)
    ensures
        r == (auto_ingest_enabled && watched_folders > 0),
{
    auto_ingest_enabled && watched_folders > 0
}

/// The snapshots that are shown: that of one document, if one is asked
/// for and has one, else all.
pub fn get_ingestion_progress(map: &ProgressMap, document_id: &Option<String>) -> (r: Vec<
    IngestionProgress,
>)
    ensures
        match *document_id {
            Some(id) => match map.entry(id@) {
                Some(p) => r@.len() == 1 && same_snapshot(r@[0], p),
                None => r@.len() == 0,
            },
            None => r@.len() == map.snapshots().len() && forall|i: int|
                0 <= i < r@.len() ==> same_snapshot(#[trigger] r@[i], map.snapshots()[i]),
        },
{
    match document_id {
        Some(id) => {
            let mut r: Vec<IngestionProgress> = Vec::new();
            match map.get_progress(id.as_str()) {
                Some(p) => {
                    r.push(p);
                },
                None => {},
            }
            r
        },
        None => map.get_all_progress(),
    }
}

/// The state of the ingestion queue, for display.
#[derive(Debug, Clone)]
pub struct IngestionQueueStatus {
    pub queue_length: usize,
    pub is_processing: bool,
    pub queued_files: Vec<QueuedFile>,
}

/// The state of the ingestion queue.
pub fn get_ingestion_queue(queue: &IngestionQueue) -> (r: IngestionQueueStatus)
    ensures
        r.queue_length == queue.waiting().len(),
        r.is_processing == (queue.in_flight() is Some),
        queued_entries(r.queued_files@) == queue.waiting(),
{
    let (queue_length, is_processing) = queue.get_queue_status();
    IngestionQueueStatus { queue_length, is_processing, queued_files: queue.get_queued_files() }
}

/// What a notification says.
#[derive(Debug, Clone)]
pub struct NotificationData {
    pub title: String,
    pub message: String,
    pub document_id: Option<String>,
    pub related_documents: Option<Vec<RelatedDocument>>,
}

/// The message that tells of `count` related documents.
pub open spec fn related_message(count: nat) -> Seq<char> {
    decimal(count) + if count == 1 {
        " similar document found"@
    } else {
        " similar documents found"@
    }
}

/// The notification that related documents were found for a new
/// document.
pub fn related_content_notification(
    new_document_id: &str,
    document_title: &str,
    related: Vec<RelatedDocument>,
) -> (r: NotificationData)
    ensures
        r.title@ == document_title@,
        r.message@ == related_message(related@.len()),
        r.document_id matches Some(id) && id@ == new_document_id@,
        r.related_documents == Some(related),
{
    let mut message = String::new();
    push_decimal(&mut message, related.len() as u64);
    if related.len() == 1 {
        message.append(" similar document found");
    } else {
        message.append(" similar documents found");
    }
    proof {
        assert(message@ =~= related_message(related@.len()));
    }
    NotificationData {
        title: document_title.to_owned(),
        message,
        document_id: Some(new_document_id.to_owned()),
        related_documents: Some(related),
    }
}

/// The notification that a screenshot is being processed.
pub fn processing_notification(source_app: Option<&str>) -> (r: NotificationData)
    ensures
        r.title@ == "Processing Screenshot"@,
        r.message@ == match source_app {
            Some(app) => "From "@ + app@,
            None => "Extracting text..."@,
        },
        r.document_id is None,
        r.related_documents is None,
{
    let message = match source_app {
        Some(app) => {
            let mut m = String::new();
            m.append("From ");
            m.append(app);
            m
        },
        None => "Extracting text...".to_owned(),
    };
    NotificationData {
        title: "Processing Screenshot".to_owned(),
        message,
        document_id: None,
        related_documents: None,
    }
}

} // verus!
