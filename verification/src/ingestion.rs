//! The decisions of the ingestion engine.
//!
//! Ingesting a file means: look it up, decide whether it is new, renamed
//! or unchanged, queue it, and then, one file at a time, extract its
//! content, chunk it, store the chunks, embed and index them. Reading
//! files, talking to the store and to the model are the caller's part;
//! what to do next, and with which message, is decided here.

use vstd::prelude::*;
use vstd::string::StringExecFns;
use vstd::utf8::encode_utf8;
use crate::error::RecallError;
use crate::ident::new_id;
use crate::mime::{guess_mime, mime_of_extension};
use crate::models::{Document, DocumentStatus, FileType};
use crate::text::{chars_of, decimal, lowercase, push_decimal, str_eq, string_of, subvec};

verus! {

/// The largest file that is ingested: 500 MiB.
pub const MAX_FILE_SIZE: u64 = 500 * 1024 * 1024;

/// The number of bytes in a mebibyte.
pub const MIB: u64 = 1024 * 1024;

/// The size in tenths of a mebibyte, rounded to the nearest tenth and,
/// half-way between two, to the even one.
pub open spec fn tenths_of_mib(size: u64) -> int {
    let q = (size as int * 10) / (MIB as int);
    let rem = (size as int * 10) % (MIB as int);
    if rem * 2 > MIB || (rem * 2 == MIB && q % 2 == 1) {
        q + 1
    } else {
        q
    }
}

/// The text of the failure for a file of `size` bytes that is too large.
pub open spec fn too_large_text(size: u64) -> Seq<char> {
    "File too large ("@ + decimal((tenths_of_mib(size) / 10) as nat) + "."@ + decimal(
        (tenths_of_mib(size) % 10) as nat,
    ) + " MB). Maximum size is 500 MB."@
}

/// The size in tenths of a mebibyte, rounded.
pub fn size_in_tenths_of_mib(size: u64) -> (r: u64)
    ensures
        r == tenths_of_mib(size),
{
    let scaled: u128 = size as u128 * 10;
    let q: u128 = scaled / (MIB as u128);
    let rem: u128 = scaled % (MIB as u128);
    let tenths: u128 = if rem * 2 > MIB as u128 || (rem * 2 == MIB as u128 && q % 2 == 1) {
        q + 1
    } else {
        q
    };
    tenths as u64
}

/// Checks the size of a file before any of it is read.
///
/// A file of more than 500 MiB is refused with an ingestion failure that
/// names its size.
pub fn validate_file_size(size: u64) -> (r: std::result::Result<(), RecallError>)
    ensures
        r is Err <==> size > MAX_FILE_SIZE,
        r matches Err(e) ==> (e matches RecallError::Ingestion(m) && m@ == too_large_text(size)),
{
    if size <= MAX_FILE_SIZE {
        return Ok(());
    }
    let tenths = size_in_tenths_of_mib(size);
    let mut m = String::new();
    m.append("File too large (");
    push_decimal(&mut m, tenths / 10);
    m.append(".");
    push_decimal(&mut m, tenths % 10);
    m.append(" MB). Maximum size is 500 MB.");
    proof {
        assert(m@ =~= too_large_text(size));
    }
    Err(RecallError::Ingestion(m))
}

/// The documents allowed without a license.
pub const TRIAL_DOCUMENT_LIMIT: usize = 25;

/// Checks the trial limit before any work is done for a new file.
///
/// Without a license no file is taken once the store holds the limit of
/// documents.
pub fn check_trial_limit(licensed: bool, document_count: usize, limit: usize) -> (r:
    std::result::Result<(), RecallError>)
    ensures
        r is Err <==> (!licensed && document_count >= limit),
        r matches Err(e) ==> (e matches RecallError::TrialLimitReached(m) && m@
            == "Trial limit of "@ + decimal(limit as nat)
            + " documents reached. Activate a license to add more."@),
{
    if !licensed && document_count >= limit {
        let mut m = String::new();
        m.append("Trial limit of ");
        push_decimal(&mut m, limit as u64);
        m.append(" documents reached. Activate a license to add more.");
        proof {
            assert(m@ =~= "Trial limit of "@ + decimal(limit as nat)
                + " documents reached. Activate a license to add more."@);
        }
        Err(RecallError::TrialLimitReached(m))
    } else {
        Ok(())
    }
}

/// What to do with a file once the store was asked for a document at its
/// path.
#[derive(Debug, Clone, PartialEq, Eq)]
pub enum PathOutcome {
    /// The file is ingested and unchanged: return the document with this
    /// id, and do nothing else.
    ReturnExisting(String),
    /// The document with this id is stale: delete it, with its chunks and
    /// embeddings, then look for the file's hash.
    ReplaceExisting(String),
    /// No document at this path: look for the file's hash.
    LookupHash,
}

/// Decides what to do with a file whose content hash is `current_hash`,
/// given the document that the store holds at its path, if any.
///
/// A completed document with the same hash is returned as it is: to
/// ingest an unchanged file again changes nothing. A document that is
/// not completed, or has another hash, is to be replaced.
pub fn on_path_lookup(current_hash: &str, at_path: &Option<Document>) -> (r: PathOutcome)
    ensures
        match *at_path {
            Some(doc) => if doc.file_hash@ == current_hash@ && doc.status
                == DocumentStatus::Completed {
                r matches PathOutcome::ReturnExisting(id) && id@ == doc.id@
            } else {
                r matches PathOutcome::ReplaceExisting(id) && id@ == doc.id@
            },
            None => r is LookupHash,
        },
{
    match at_path {
        Some(doc) => {
            let same = str_eq(doc.file_hash.as_str(), current_hash);
            let completed = match doc.status {
                DocumentStatus::Completed => true,
                _ => false,
            };
            if same && completed {
                PathOutcome::ReturnExisting(doc.id.clone())
            } else {
                PathOutcome::ReplaceExisting(doc.id.clone())
            }
        },
        None => PathOutcome::LookupHash,
    }
}

/// What to do with a file once the store was asked for a document with
/// its content hash.
#[derive(Debug, Clone, PartialEq, Eq)]
pub enum HashOutcome {
    /// The file was renamed: give the document with this id the new path
    /// and title, and touch nothing else.
    Rename { id: String, path: String, title: String },
    /// The file is new: create a document for it.
    CreateNew,
}

/// The name of the file at a path: what follows the last separator, `/`
/// or `\`.
pub open spec fn file_name_of(path: Seq<char>) -> Seq<char> {
    path.subrange(name_start(path, path.len() as int), path.len() as int)
}

/// Where the file name starts in the first `n` characters of a path.
pub open spec fn name_start(path: Seq<char>, n: int) -> int
    decreases n,
{
    if n <= 0 || n > path.len() {
        0
    } else if path[n - 1] == '/' || path[n - 1] == '\\' {
        n
    } else {
        name_start(path, n - 1)
    }
}

/// The place of the last full stop among the first `n` characters of a
/// file name, or -1.
pub open spec fn last_dot(name: Seq<char>, n: int) -> int
    decreases n,
{
    if n <= 0 || n > name.len() {
        -1
    } else if name[n - 1] == '.' {
        n - 1
    } else {
        last_dot(name, n - 1)
    }
}

/// The extension of a file name: what follows its last full stop, unless
/// that is its first character; else nothing.
pub open spec fn extension_of(name: Seq<char>) -> Seq<char> {
    let d = last_dot(name, name.len() as int);
    if d > 0 {
        name.subrange(d + 1, name.len() as int)
    } else {
        Seq::empty()
    }
}

/// The title that a document gets from its path: the file's name, or
/// `unknown` where the path names no file.
pub open spec fn title_of_path(path: Seq<char>) -> Seq<char> {
    if file_name_of(path).len() == 0 {
        "unknown"@
    } else {
        file_name_of(path)
    }
}

/// The name of the file at `path`.
pub fn file_name(path: &str) -> (r: String)
    ensures
        r@ == file_name_of(path@),
{
    let chars = chars_of(path);
    let mut n: usize = chars.len();
    while n > 0 && !(chars[n - 1] == '/' || chars[n - 1] == '\\')
        invariant
            n <= chars.len(),
            name_start(chars@, chars@.len() as int) == name_start(chars@, n as int),
        decreases n,
    {
        n -= 1;
    }
    let name = subvec(&chars, n, chars.len());
    string_of(&name)
}

/// The extension of the file name `name`.
pub fn file_extension(name: &str) -> (r: String)
    ensures
        r@ == extension_of(name@),
{
    let chars = chars_of(name);
    let mut n: usize = chars.len();
    while n > 0 && chars[n - 1] != '.'
        invariant
            n <= chars.len(),
            last_dot(chars@, chars@.len() as int) == last_dot(chars@, n as int),
        decreases n,
    {
        n -= 1;
    }
    if n > 1 {
        let ext = subvec(&chars, n, chars.len());
        string_of(&ext)
    } else {
        String::new()
    }
}

/// The title that a document gets from its path.
pub fn title_for_path(path: &str) -> (r: String)
    ensures
        r@ == title_of_path(path@),
{
    let name = file_name(path);
    if name.as_str().is_empty() {
        "unknown".to_owned()
    } else {
        name
    }
}

/// Decides what to do with the file at `path`, given the document that
/// the store holds with the file's content hash, if any.
///
/// A completed document with the same content is the same file under
/// another name: only its path and title change, its id, chunks and
/// embeddings stay.
pub fn on_hash_lookup(path: &str, with_hash: &Option<Document>) -> (r: HashOutcome)
    ensures
        match *with_hash {
            Some(doc) => if doc.status == DocumentStatus::Completed {
                r matches HashOutcome::Rename { id, path: p, title } && id@ == doc.id@ && p@
                    == path@ && title@ == title_of_path(path@)
            } else {
                r is CreateNew
            },
            None => r is CreateNew,
        },
{
    match with_hash {
        Some(doc) => match doc.status {
            DocumentStatus::Completed => HashOutcome::Rename {
                id: doc.id.clone(),
                path: path.to_owned(),
                title: title_for_path(path),
            },
            _ => HashOutcome::CreateNew,
        },
        None => HashOutcome::CreateNew,
    }
}

/// The size of a file as a document records it.
pub open spec fn recorded_size(size: u64) -> i64 {
    if size > i64::MAX {
        i64::MAX
    } else {
        size as i64
    }
}

/// The document for a new file, pending ingestion.
///
/// The title is the file's name, the kind follows from its extension,
/// and so does the media type where one is known for it. The document
/// gets a fresh id.
pub fn create_document(path: &str, file_size: u64, file_hash: String, now: i64) -> (doc: Document)
    ensures
        doc.title@ == title_of_path(path@),
        doc.file_path@ == path@,
        doc.file_type == FileType::of_extension(lowercase(extension_of(file_name_of(path@)))),
        doc.file_size == recorded_size(file_size),
        doc.file_hash@ == file_hash@,
        match mime_of_extension(extension_of(file_name_of(path@))) {
            Some(m) => doc.mime_type matches Some(t) && t@ == m,
            None => doc.mime_type is None,
        },
        doc.created_at == now,
        doc.updated_at == now,
        doc.ingested_at is None,
        doc.status == DocumentStatus::Pending,
        doc.error_message is None,
        doc.metadata@ == "{}"@,
{
    let name = file_name(path);
    let ext = file_extension(name.as_str());
    let size: i64 = if file_size > i64::MAX as u64 {
        i64::MAX
    } else {
        file_size as i64
    };
    Document {
        id: new_id(),
        title: title_for_path(path),
        file_path: path.to_owned(),
        file_type: FileType::from_extension(ext.as_str()),
        file_size: size,
        file_hash,
        mime_type: guess_mime(ext.as_str()),
        created_at: now,
        updated_at: now,
        ingested_at: None,
        status: DocumentStatus::Pending,
        error_message: None,
        metadata: "{}".to_owned(),
    }
}

} // verus!
