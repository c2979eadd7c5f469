//! The closed set of failure kinds and their user-visible text.

use vstd::prelude::*;
use vstd::string::StringExecFns;
use crate::text::{decimal, push_decimal};

verus! {

/// A failure of the knowledge base. Each kind carries the text that
/// describes the failure; a rate limit carries the seconds to wait.
#[derive(Debug, Clone)]
pub enum RecallError {
    Database(String),
    Io(String),
    Json(String),
    Http(String),
    PdfExtract(String),
    LlmApi(String),
    RateLimit(u64),
    InvalidApiKey,
    Embedding(String),
    Ingestion(String),
    FFmpeg(String),
    Ocr(String),
    VectorSearch(String),
    ExtensionLoad(String),
    Config(String),
    Capture(String),
    NotFound(String),
    TrialLimitReached(String),
    Tauri(String),
    Other(String),
}

/// What a fallible operation of the knowledge base gives.
pub type Result<T> = std::result::Result<T, RecallError>;

impl RecallError {
    /// The text that precedes the detail of each kind.
    pub open spec fn prefix(self) -> Seq<char> {
        match self {
            RecallError::Database(_) => "Database error: "@,
            RecallError::Io(_) => "IO error: "@,
            RecallError::Json(_) => "JSON error: "@,
            RecallError::Http(_) => "HTTP error: "@,
            RecallError::PdfExtract(_) => "PDF extraction error: "@,
            RecallError::LlmApi(_) => "LLM API error: "@,
            RecallError::RateLimit(_) => "Rate limit exceeded: retry after "@,
            RecallError::InvalidApiKey => "Invalid API key"@,
            RecallError::Embedding(_) => "Embedding error: "@,
            RecallError::Ingestion(_) => "Ingestion error: "@,
            RecallError::FFmpeg(_) => "FFmpeg error: "@,
            RecallError::Ocr(_) => "OCR error: "@,
            RecallError::VectorSearch(_) => "Vector search error: "@,
            RecallError::ExtensionLoad(_) => "Extension loading error: "@,
            RecallError::Config(_) => "Configuration error: "@,
            RecallError::Capture(_) => "Screen capture error: "@,
            RecallError::NotFound(_) => "Not found: "@,
            RecallError::TrialLimitReached(_) => "Trial limit reached: "@,
            RecallError::Tauri(_) => "Tauri error: "@,
            RecallError::Other(_) => ""@,
        }
    }

    /// The detail that follows the prefix.
    pub open spec fn detail(self) -> Seq<char> {
        match self {
            RecallError::Database(m) => m@,
            RecallError::Io(m) => m@,
            RecallError::Json(m) => m@,
            RecallError::Http(m) => m@,
            RecallError::PdfExtract(m) => m@,
            RecallError::LlmApi(m) => m@,
            RecallError::RateLimit(secs) => decimal(secs as nat) + " seconds"@,
            RecallError::InvalidApiKey => Seq::<char>::empty(),
            RecallError::Embedding(m) => m@,
            RecallError::Ingestion(m) => m@,
            RecallError::FFmpeg(m) => m@,
            RecallError::Ocr(m) => m@,
            RecallError::VectorSearch(m) => m@,
            RecallError::ExtensionLoad(m) => m@,
            RecallError::Config(m) => m@,
            RecallError::Capture(m) => m@,
            RecallError::NotFound(m) => m@,
            RecallError::TrialLimitReached(m) => m@,
            RecallError::Tauri(m) => m@,
            RecallError::Other(m) => m@,
        }
    }

    /// The single string a failure is shown as: its kind's prefix, then
    /// its detail.
    pub open spec fn message_spec(self) -> Seq<char> {
        self.prefix() + self.detail()
    }

    fn prefix_str(&self) -> (p: &'static str)
        ensures
            p@ == self.prefix(),
    {
        match self {
            RecallError::Database(_) => "Database error: ",
            RecallError::Io(_) => "IO error: ",
            RecallError::Json(_) => "JSON error: ",
            RecallError::Http(_) => "HTTP error: ",
            RecallError::PdfExtract(_) => "PDF extraction error: ",
            RecallError::LlmApi(_) => "LLM API error: ",
            RecallError::RateLimit(_) => "Rate limit exceeded: retry after ",
            RecallError::InvalidApiKey => "Invalid API key",
            RecallError::Embedding(_) => "Embedding error: ",
            RecallError::Ingestion(_) => "Ingestion error: ",
            RecallError::FFmpeg(_) => "FFmpeg error: ",
            RecallError::Ocr(_) => "OCR error: ",
            RecallError::VectorSearch(_) => "Vector search error: ",
            RecallError::ExtensionLoad(_) => "Extension loading error: ",
            RecallError::Config(_) => "Configuration error: ",
            RecallError::Capture(_) => "Screen capture error: ",
            RecallError::NotFound(_) => "Not found: ",
            RecallError::TrialLimitReached(_) => "Trial limit reached: ",
            RecallError::Tauri(_) => "Tauri error: ",
            RecallError::Other(_) => "",
        }
    }

    /// The single string this failure is shown as.
    pub fn message(&self) -> (s: String)
        ensures
            s@ == self.message_spec(),
    {
        let mut s = String::new();
        s.append(self.prefix_str());
        match self {
            RecallError::RateLimit(secs) => {
                push_decimal(&mut s, *secs);
                s.append(" seconds");
                assert(s@ =~= self.prefix() + (decimal(*secs as nat) + " seconds"@));
            },
            RecallError::InvalidApiKey => {
                assert(s@ =~= self.prefix() + Seq::<char>::empty());
            },
            RecallError::Database(m)
            | RecallError::Io(m)
            | RecallError::Json(m)
            | RecallError::Http(m)
            | RecallError::PdfExtract(m)
            | RecallError::LlmApi(m)
            | RecallError::Embedding(m)
            | RecallError::Ingestion(m)
            | RecallError::FFmpeg(m)
            | RecallError::Ocr(m)
            | RecallError::VectorSearch(m)
            | RecallError::ExtensionLoad(m)
            | RecallError::Config(m)
            | RecallError::Capture(m)
            | RecallError::NotFound(m)
            | RecallError::TrialLimitReached(m)
            | RecallError::Tauri(m)
            | RecallError::Other(m) => {
                s.append(m.as_str());
            },
        }
        s
    }
}

} // verus!
