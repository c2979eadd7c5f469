//! The records of the knowledge base: documents, chunks, conversations,
//! and the enumerations that tag them.
//!
//! Times are whole milliseconds since the Unix epoch, or, for positions in
//! timed media, whole milliseconds from the start of the recording.
//! Relevance scores are whole multiples of `1 / SCORE_SCALE`.

use vstd::prelude::*;
use crate::text::{lowercase, str_eq, to_lowercase};

verus! {

/// The number of score units that make up 1.
pub const SCORE_SCALE: u64 = 1_000_000_000_000;

/// The kind of a file, by which its extractor is chosen.
#[derive(Debug, Clone, Copy, PartialEq, Eq, Structural)]
pub enum FileType {
    Pdf,
    Text,
    Markdown,
    Video,
    Audio,
    Image,
    Screenshot,
    Unknown,
}

impl FileType {
    /// The kind that a lowercase file extension stands for.
    pub open spec fn of_extension(e: Seq<char>) -> FileType {
        if e == "pdf"@ {
            FileType::Pdf
        } else if e == "txt"@ || e == "text"@ {
            FileType::Text
        } else if e == "md"@ || e == "markdown"@ {
            FileType::Markdown
        } else if e == "mp4"@ || e == "mkv"@ || e == "avi"@ || e == "mov"@ || e == "webm"@ {
            FileType::Video
        } else if e == "mp3"@ || e == "wav"@ || e == "flac"@ || e == "m4a"@ || e == "ogg"@ {
            FileType::Audio
        } else if e == "png"@ || e == "jpg"@ || e == "jpeg"@ || e == "gif"@ || e == "webp"@ || e
            == "bmp"@ {
            FileType::Image
        } else {
            FileType::Unknown
        }
    }

    /// The tag under which a kind is stored.
    pub open spec fn name(self) -> Seq<char> {
        match self {
            FileType::Pdf => "pdf"@,
            FileType::Text => "text"@,
            FileType::Markdown => "markdown"@,
            FileType::Video => "video"@,
            FileType::Audio => "audio"@,
            FileType::Image => "image"@,
            FileType::Screenshot => "screenshot"@,
            FileType::Unknown => "unknown"@,
        }
    }

    /// The kind that a lowercase tag stands for; `Unknown` for any other
    /// text.
    pub open spec fn of_name(n: Seq<char>) -> FileType {
        if n == "pdf"@ {
            FileType::Pdf
        } else if n == "text"@ {
            FileType::Text
        } else if n == "markdown"@ {
            FileType::Markdown
        } else if n == "video"@ {
            FileType::Video
        } else if n == "audio"@ {
            FileType::Audio
        } else if n == "image"@ {
            FileType::Image
        } else if n == "screenshot"@ {
            FileType::Screenshot
        } else {
            FileType::Unknown
        }
    }

    /// The kind of a file with extension `ext`, whatever its case.
    pub fn from_extension(ext: &str) -> (t: FileType)
        ensures
            t == FileType::of_extension(lowercase(ext@)),
    {
        let lower = to_lowercase(ext);
        let e = lower.as_str();
        if str_eq(e, "pdf") {
            FileType::Pdf
        } else if str_eq(e, "txt") || str_eq(e, "text") {
            FileType::Text
        } else if str_eq(e, "md") || str_eq(e, "markdown") {
            FileType::Markdown
        } else if str_eq(e, "mp4") || str_eq(e, "mkv") || str_eq(e, "avi") || str_eq(e, "mov")
            || str_eq(e, "webm") {
            FileType::Video
        } else if str_eq(e, "mp3") || str_eq(e, "wav") || str_eq(e, "flac") || str_eq(e, "m4a")
            || str_eq(e, "ogg") {
            FileType::Audio
        } else if str_eq(e, "png") || str_eq(e, "jpg") || str_eq(e, "jpeg") || str_eq(e, "gif")
            || str_eq(e, "webp") || str_eq(e, "bmp") {
            FileType::Image
        } else {
            FileType::Unknown
        }
    }

    /// The tag under which this kind is stored.
    pub fn as_str(&self) -> (s: &'static str)
        ensures
            s@ == self.name(),
    {
        match self {
            FileType::Pdf => "pdf",
            FileType::Text => "text",
            FileType::Markdown => "markdown",
            FileType::Video => "video",
            FileType::Audio => "audio",
            FileType::Image => "image",
            FileType::Screenshot => "screenshot",
            FileType::Unknown => "unknown",
        }
    }

    /// The kind stored under the tag `s`, whatever its case.
    pub fn from_name(s: &str) -> (t: FileType)
        ensures
            t == FileType::of_name(lowercase(s@)),
    {
        let lower = to_lowercase(s);
        let n = lower.as_str();
        if str_eq(n, "pdf") {
            FileType::Pdf
        } else if str_eq(n, "text") {
            FileType::Text
        } else if str_eq(n, "markdown") {
            FileType::Markdown
        } else if str_eq(n, "video") {
            FileType::Video
        } else if str_eq(n, "audio") {
            FileType::Audio
        } else if str_eq(n, "image") {
            FileType::Image
        } else if str_eq(n, "screenshot") {
            FileType::Screenshot
        } else {
            FileType::Unknown
        }
    }
}

impl std::str::FromStr for FileType {
    type Err = ();

    /// Reads the tag of a kind, whatever its case. Every text is read as
    /// some kind, so this never fails.
    fn from_str(s: &str) -> (r: std::result::Result<Self, ()>)
        ensures
            r == Ok::<FileType, ()>(FileType::of_name(lowercase(s@))),
    {
        Ok(FileType::from_name(s))
    }
}

/// Where a document stands in its ingestion.
#[derive(Debug, Clone, Copy, PartialEq, Eq, Structural)]
pub enum DocumentStatus {
    Pending,
    Processing,
    Completed,
    Failed,
}

impl DocumentStatus {
    /// The tag under which a status is stored.
    pub open spec fn name(self) -> Seq<char> {
        match self {
            DocumentStatus::Pending => "pending"@,
            DocumentStatus::Processing => "processing"@,
            DocumentStatus::Completed => "completed"@,
            DocumentStatus::Failed => "failed"@,
        }
    }

    /// The status that a lowercase tag stands for; `Pending` for any
    /// other text.
    pub open spec fn of_name(n: Seq<char>) -> DocumentStatus {
        if n == "processing"@ {
            DocumentStatus::Processing
        } else if n == "completed"@ {
            DocumentStatus::Completed
        } else if n == "failed"@ {
            DocumentStatus::Failed
        } else {
            DocumentStatus::Pending
        }
    }

    /// The tag under which this status is stored.
    pub fn as_str(&self) -> (s: &'static str)
        ensures
            s@ == self.name(),
    {
        match self {
            DocumentStatus::Pending => "pending",
            DocumentStatus::Processing => "processing",
            DocumentStatus::Completed => "completed",
            DocumentStatus::Failed => "failed",
        }
    }

    /// The status stored under the tag `s`, whatever its case.
    pub fn from_name(s: &str) -> (t: DocumentStatus)
        ensures
            t == DocumentStatus::of_name(lowercase(s@)),
    {
        let lower = to_lowercase(s);
        let n = lower.as_str();
        if str_eq(n, "processing") {
            DocumentStatus::Processing
        } else if str_eq(n, "completed") {
            DocumentStatus::Completed
        } else if str_eq(n, "failed") {
            DocumentStatus::Failed
        } else {
            DocumentStatus::Pending
        }
    }
}

impl std::str::FromStr for DocumentStatus {
    type Err = ();

    /// Reads the tag of a status, whatever its case. Every text is read
    /// as some status, so this never fails.
    fn from_str(s: &str) -> (r: std::result::Result<Self, ()>)
        ensures
            r == Ok::<DocumentStatus, ()>(DocumentStatus::of_name(lowercase(s@))),
    {
        Ok(DocumentStatus::from_name(s))
    }
}

/// Which leg of the retriever found a chunk.
#[derive(Debug, Clone, Copy, PartialEq, Eq, Structural)]
pub enum SearchType {
    Vector,
    Fts,
    Hybrid,
}

/// Who wrote a message of a conversation.
#[derive(Debug, Clone, Copy, PartialEq, Eq, Structural)]
pub enum MessageRole {
    User,
    Assistant,
    System,
}

impl MessageRole {
    /// The tag under which a role is stored and handed to the model.
    pub open spec fn name(self) -> Seq<char> {
        match self {
            MessageRole::User => "user"@,
            MessageRole::Assistant => "assistant"@,
            MessageRole::System => "system"@,
        }
    }

    /// The tag under which this role is stored.
    pub fn as_str(&self) -> (s: &'static str)
        ensures
            s@ == self.name(),
    {
        match self {
            MessageRole::User => "user",
            MessageRole::Assistant => "assistant",
            MessageRole::System => "system",
        }
    }
}

/// The stage that an ingestion has reached.
#[derive(Debug, Clone, Copy, PartialEq, Eq, Structural)]
pub enum IngestionStage {
    Queued,
    Extracting,
    Chunking,
    Embedding,
    Indexing,
    Completed,
    Failed,
}

/// A file known to the knowledge base.
#[derive(Debug, Clone)]
pub struct Document {
    pub id: String,
    pub title: String,
    pub file_path: String,
    pub file_type: FileType,
    pub file_size: i64,
    pub file_hash: String,
    pub mime_type: Option<String>,
    pub created_at: i64,
    pub updated_at: i64,
    pub ingested_at: Option<i64>,
    pub status: DocumentStatus,
    pub error_message: Option<String>,
    /// The metadata bag, as JSON text.
    pub metadata: String,
}

/// A span of a document's text: the unit of indexing and retrieval.
#[derive(Debug, Clone)]
pub struct Chunk {
    pub id: i64,
    pub document_id: String,
    pub chunk_index: i32,
    pub content: String,
    pub token_count: i32,
    pub start_offset: Option<i32>,
    pub end_offset: Option<i32>,
    pub page_number: Option<i32>,
    /// Start within timed media, in milliseconds.
    pub timestamp_start: Option<u64>,
    /// End within timed media, in milliseconds.
    pub timestamp_end: Option<u64>,
    /// The topics of the timed segment that the chunk was cut from.
    pub topics: Option<Vec<String>>,
    pub created_at: i64,
}

/// A chunk with the fused score it was retrieved with.
#[derive(Debug, Clone)]
pub struct ChunkWithScore {
    pub chunk: Chunk,
    /// In units of `1 / SCORE_SCALE`.
    pub score: u64,
    pub search_type: SearchType,
}

/// A thread of questions and answers.
#[derive(Debug, Clone)]
pub struct Conversation {
    pub id: String,
    pub title: Option<String>,
    pub created_at: i64,
    pub updated_at: i64,
}

/// One turn of a conversation.
#[derive(Debug, Clone)]
pub struct Message {
    pub id: String,
    pub conversation_id: String,
    pub role: MessageRole,
    pub content: String,
    pub citations: Vec<Citation>,
    pub created_at: i64,
}

/// A reference from an answer to the chunk it rests on.
#[derive(Debug, Clone)]
pub struct Citation {
    pub chunk_id: i64,
    pub document_id: String,
    pub document_title: String,
    pub content_snippet: String,
    pub page_number: Option<i32>,
    /// Position within timed media, in milliseconds.
    pub timestamp: Option<u64>,
    /// In units of `1 / SCORE_SCALE`.
    pub relevance_score: u64,
}

/// Counts over the whole store.
#[derive(Debug, Clone, Copy, PartialEq, Eq, Structural)]
pub struct IngestionStats {
    pub total_documents: i64,
    pub completed_documents: i64,
    pub failed_documents: i64,
    pub pending_documents: i64,
    pub processing_documents: i64,
    pub total_chunks: i64,
    pub total_size_bytes: i64,
}

/// A snapshot of one ingestion, for display.
#[derive(Debug, Clone)]
pub struct IngestionProgress {
    pub document_id: String,
    pub file_path: String,
    pub stage: IngestionStage,
    /// Percent done, from 0 to 100.
    pub progress: u8,
    pub message: String,
}

} // verus!
