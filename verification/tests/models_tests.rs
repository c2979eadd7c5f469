use recall_os::error::RecallError;
use recall_os::models::{DocumentStatus, FileType, MessageRole};

#[test]
fn file_types_by_extension() {
    assert_eq!(FileType::from_extension("pdf"), FileType::Pdf);
    assert_eq!(FileType::from_extension("PDF"), FileType::Pdf);
    assert_eq!(FileType::from_extension("txt"), FileType::Text);
    assert_eq!(FileType::from_extension("text"), FileType::Text);
    assert_eq!(FileType::from_extension("md"), FileType::Markdown);
    assert_eq!(FileType::from_extension("Markdown"), FileType::Markdown);
    for e in ["mp4", "mkv", "avi", "mov", "webm"] {
        assert_eq!(FileType::from_extension(e), FileType::Video);
    }
    for e in ["mp3", "wav", "flac", "m4a", "ogg"] {
        assert_eq!(FileType::from_extension(e), FileType::Audio);
    }
    for e in ["png", "jpg", "jpeg", "gif", "webp", "bmp"] {
        assert_eq!(FileType::from_extension(e), FileType::Image);
    }
    assert_eq!(FileType::from_extension(""), FileType::Unknown);
    assert_eq!(FileType::from_extension("exe"), FileType::Unknown);
    assert_eq!(FileType::from_extension("screenshot"), FileType::Unknown);
}

#[test]
fn tags_round_trip() {
    for t in [
        FileType::Pdf,
        FileType::Text,
        FileType::Markdown,
        FileType::Video,
        FileType::Audio,
        FileType::Image,
        FileType::Screenshot,
        FileType::Unknown,
    ] {
        assert_eq!(t.as_str().parse::<FileType>().unwrap(), t);
    }
    assert_eq!(FileType::from_name("nonsense"), FileType::Unknown);
    for s in [
        DocumentStatus::Pending,
        DocumentStatus::Processing,
        DocumentStatus::Completed,
        DocumentStatus::Failed,
    ] {
        assert_eq!(s.as_str().parse::<DocumentStatus>().unwrap(), s);
    }
    assert_eq!(DocumentStatus::from_name("COMPLETED"), DocumentStatus::Completed);
    assert_eq!(DocumentStatus::from_name("?"), DocumentStatus::Pending);
    assert_eq!(DocumentStatus::Completed.as_str(), "completed");
    assert_eq!(MessageRole::User.as_str(), "user");
    assert_eq!(MessageRole::Assistant.as_str(), "assistant");
    assert_eq!(MessageRole::System.as_str(), "system");
}

#[test]
fn error_messages_carry_their_kind() {
    assert_eq!(RecallError::Database("locked".into()).message(), "Database error: locked");
    assert_eq!(RecallError::Io("gone".into()).message(), "IO error: gone");
    assert_eq!(RecallError::Json("bad".into()).message(), "JSON error: bad");
    assert_eq!(RecallError::Http("down".into()).message(), "HTTP error: down");
    assert_eq!(RecallError::PdfExtract("x".into()).message(), "PDF extraction error: x");
    assert_eq!(RecallError::LlmApi("x".into()).message(), "LLM API error: x");
    assert_eq!(
        RecallError::RateLimit(60).message(),
        "Rate limit exceeded: retry after 60 seconds"
    );
    assert_eq!(
        RecallError::RateLimit(u64::MAX).message(),
        "Rate limit exceeded: retry after 18446744073709551615 seconds"
    );
    assert_eq!(RecallError::RateLimit(0).message(), "Rate limit exceeded: retry after 0 seconds");
    assert_eq!(RecallError::InvalidApiKey.message(), "Invalid API key");
    assert_eq!(RecallError::Embedding("x".into()).message(), "Embedding error: x");
    assert_eq!(RecallError::Ingestion("x".into()).message(), "Ingestion error: x");
    assert_eq!(RecallError::FFmpeg("x".into()).message(), "FFmpeg error: x");
    assert_eq!(RecallError::Ocr("x".into()).message(), "OCR error: x");
    assert_eq!(RecallError::VectorSearch("x".into()).message(), "Vector search error: x");
    assert_eq!(RecallError::ExtensionLoad("x".into()).message(), "Extension loading error: x");
    assert_eq!(RecallError::Config("x".into()).message(), "Configuration error: x");
    assert_eq!(RecallError::Capture("x".into()).message(), "Screen capture error: x");
    assert_eq!(RecallError::NotFound("x".into()).message(), "Not found: x");
    assert_eq!(RecallError::TrialLimitReached("x".into()).message(), "Trial limit reached: x");
    assert_eq!(RecallError::Tauri("x".into()).message(), "Tauri error: x");
    assert_eq!(RecallError::Other("plain".into()).message(), "plain");
}
