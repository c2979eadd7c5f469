use recall_os::error::RecallError;
use recall_os::key_check::{validate_api_key, ContentReply};
use recall_os::license::{
    activate_license, deactivate_license, get_instance_id, prepare_license_key,
    read_activation, revoke_license, verify_license, ActivationReply, LicenseVerdict,
    ValidationOutcome, ValidationReply, PRODUCT_ID,
};
use recall_os::llm::{batch_bounds, context_block, full_prompt, provider_role};
use recall_os::models::{Chunk, DocumentStatus, SCORE_SCALE};
use recall_os::paths::{normalize_path, normalize_separators};
use recall_os::rag::ContextChunk;
use recall_os::rate_limiter::RateLimiter;
use recall_os::related::{
    find_related_documents, probe_chunks, probe_width, RelatedCandidate, RELATED_LIMIT,
    RELATED_MIN_SIMILARITY,
};
use recall_os::scheduler::{
    CaptureScheduler, SchedulerAction, SchedulerEvent, SchedulerMessage,
};
use recall_os::settings::{
    capture_settings_of, current_embedding_model, default_auto_ingest,
    default_capture_filter, default_capture_hotkey, default_capture_interval,
    default_capture_mode, default_capture_retention, get_license_status, is_masked_key,
    mask_api_key, mask_license_key, merge_api_key, LicenseTier, Settings,
};
use recall_os::store::{
    invert_rank, is_orphaned, on_migration_failure, pending_migrations, require_matching_counts,
    require_parent, require_vector_extension, require_width, MigrationFailure,
};
use recall_os::titles::{
    accept_title, clean_title, on_title_reply, should_check_related, title_sample,
    title_source, title_without_model, TitleStep,
};
use recall_os::watcher::{
    file_type_of_path, watch_event, Debouncer, EventOutcome, RawEventKind, SettledDecision,
    WatchEvent,
};

use recall_os::categories::{content_categories, content_sample, eq_ignore_ascii_case, valid_category};
use recall_os::media::{duration_from_matches, get_duration, keyframe_timestamp, FFmpeg};
use recall_os::prompts::{batch_ocr_prompt, categorization_prompt, page_label, title_prompt, RAG_SYSTEM_PROMPT};
use recall_os::shell::{ add_watched_folder, directory_error, directory_outcome, processing_notification, related_content_notification, remove_watched_folder, should_ingest_entry, should_scan_entry, should_start_watcher, };
use recall_os::capture::{get_status, CaptureCounters, CaptureSettings};
use recall_os::models::IngestionStage;
use recall_os::progress::ProgressMap;
use recall_os::queue::IngestionQueue;
use recall_os::shell::{get_ingestion_progress, get_ingestion_queue};

#[test]
fn path_normalization_is_idempotent() {
    for p in ["C:/docs/a.md", "a\\\\b", "a/b\\c", "plain", "", "a//b", "/", "a///b", "\\\\/\\x//"] {
        let once = normalize_separators(p);
        assert_eq!(normalize_separators(&once), once);
    }
    assert_eq!(normalize_separators("C:/docs/a.md"), "C:\\docs\\a.md");
    assert_eq!(normalize_separators("a//b"), "a\\b");
    assert_eq!(normalize_separators("a\\\\b/c"), "a\\b\\c");
    // A run of separators of any length becomes one.
    assert_eq!(normalize_separators("a///b"), "a\\b");
    assert_eq!(normalize_separators("a/\\/\\/b//"), "a\\b\\");
    assert_eq!(normalize_path("a///b", None), "a\\b");
    assert_eq!(normalize_path(&normalize_path("a///b", None), None), "a\\b");
    assert_eq!(normalize_path("x/y", None), "x\\y");
    assert_eq!(normalize_path("x/y", Some("\\\\?\\C:\\x\\y".to_string())), "C:\\x\\y");
    assert_eq!(normalize_path("x/y", Some("/real/x/y".to_string())), "/real/x/y");
}

#[test]
fn related_documents() {
    let c = |doc: &str, title: &str, distance: u64| RelatedCandidate {
        document_id: doc.to_string(),
        title: title.to_string(),
        distance,
    };
    let candidates = vec![
        c("src", "Source", 0),
        c("b", "B", SCORE_SCALE),          // similarity 1/2
        c("a", "A", 3 * SCORE_SCALE),      // similarity 1/4: too little
        c("c", "C", SCORE_SCALE / 4),      // similarity 4/5
        c("b", "B again", SCORE_SCALE / 9), // similarity 9/10
        c("d", "D", SCORE_SCALE),          // similarity 1/2
    ];
    let related = find_related_documents("src", &candidates, RELATED_LIMIT, RELATED_MIN_SIMILARITY);
    let ids: Vec<&str> = related.iter().map(|d| d.id.as_str()).collect();
    assert_eq!(ids, vec!["b", "c", "d"]);
    assert_eq!(related[0].title, "B");
    assert_eq!(related[0].similarity, 900_000_000_000);
    assert_eq!(related[1].similarity, 800_000_000_000);
    assert_eq!(related[2].similarity, 500_000_000_000);
    let top = find_related_documents("src", &candidates, 2, RELATED_MIN_SIMILARITY);
    assert_eq!(top.len(), 2);
    assert_eq!(top[1].id, "c");
    assert!(find_related_documents("src", &candidates, 0, 0).is_empty());
    assert!(find_related_documents("src", &vec![], 5, 0).is_empty());
    let all = find_related_documents("src", &candidates, 10, 0);
    assert_eq!(all.len(), 4);
    assert_eq!(all[3].id, "a");
    assert_eq!(probe_chunks(&vec![5, 6, 7, 8]), vec![5, 6, 7]);
    assert_eq!(probe_chunks(&vec![5]), vec![5]);
    assert_eq!(probe_width(5), 10);
    assert_eq!(probe_width(usize::MAX), usize::MAX);
}

#[test]
fn scheduler_states() {
    let mut s = CaptureScheduler::new();
    assert!(!s.is_running());
    assert_eq!(s.on_event(SchedulerEvent::Tick), SchedulerAction::Exit);
    assert!(s.start(60));
    assert!(!s.start(30));
    assert_eq!(s.interval_secs(), 60);
    assert!(s.is_running());
    assert!(!s.is_paused());
    assert_eq!(s.on_event(SchedulerEvent::Tick), SchedulerAction::Capture);
    assert_eq!(s.on_event(SchedulerEvent::Message(SchedulerMessage::Pause)), SchedulerAction::Wait);
    assert!(s.is_paused());
    assert_eq!(s.on_event(SchedulerEvent::Tick), SchedulerAction::Wait);
    assert_eq!(s.on_event(SchedulerEvent::Message(SchedulerMessage::Resume)), SchedulerAction::Wait);
    assert_eq!(s.on_event(SchedulerEvent::Tick), SchedulerAction::Capture);
    assert_eq!(
        s.on_event(SchedulerEvent::Message(SchedulerMessage::UpdateInterval(120))),
        SchedulerAction::ResetTimer(120)
    );
    assert_eq!(s.interval_secs(), 120);
    s.pause();
    assert!(s.is_paused());
    s.resume();
    assert!(!s.is_paused());
    assert_eq!(s.on_event(SchedulerEvent::Message(SchedulerMessage::Stop)), SchedulerAction::Exit);
    assert!(!s.is_running());
    assert!(s.start(30));
    assert_eq!(s.on_event(SchedulerEvent::Closed), SchedulerAction::Exit);
    assert!(!s.is_running());
    assert!(s.start(30));
    s.signal_stop();
    assert_eq!(s.on_event(SchedulerEvent::Tick), SchedulerAction::Exit);
}

#[test]
fn watcher_maps_events_of_known_files() {
    assert_eq!(
        watch_event(RawEventKind::Create, "/d/a.md"),
        Some(WatchEvent::Created("/d/a.md".to_string()))
    );
    assert_eq!(
        watch_event(RawEventKind::Modify, "/d/a.PDF"),
        Some(WatchEvent::Modified("/d/a.PDF".to_string()))
    );
    assert_eq!(
        watch_event(RawEventKind::Remove, "/d/a.mp3"),
        Some(WatchEvent::Deleted("/d/a.mp3".to_string()))
    );
    assert_eq!(watch_event(RawEventKind::Other, "/d/a.md"), None);
    assert_eq!(watch_event(RawEventKind::Create, "/d/a.exe"), None);
    assert_eq!(watch_event(RawEventKind::Create, "/d/noext"), None);
    assert_eq!(file_type_of_path("/x.y/file"), recall_os::models::FileType::Unknown);
}

#[test]
fn debouncer_waits_for_quiet() {
    let mut d = Debouncer::new();
    let created = WatchEvent::Created("a.md".to_string());
    let modified = WatchEvent::Modified("a.md".to_string());
    assert_eq!(d.on_event(&created, 1_000), EventOutcome::Nothing);
    assert_eq!(d.on_event(&WatchEvent::Created("b.md".to_string()), 1_200), EventOutcome::Nothing);
    assert_eq!(d.on_event(&modified, 2_500), EventOutcome::Nothing);
    assert_eq!(d.pending_count(), 2);
    assert!(d.take_ready(3_000).is_empty());
    // b.md has been quiet for two seconds, a.md has not.
    assert_eq!(d.take_ready(3_200), vec!["b.md".to_string()]);
    assert_eq!(d.pending_count(), 1);
    assert!(d.take_ready(4_499).is_empty());
    assert_eq!(d.take_ready(4_500), vec!["a.md".to_string()]);
    assert_eq!(d.pending_count(), 0);
    // Events of a file that is being ingested are passed over.
    d.begin("a.md");
    assert!(d.is_processing("a.md"));
    assert_eq!(d.on_event(&modified, 5_000), EventOutcome::Nothing);
    assert_eq!(d.pending_count(), 0);
    d.finish("a.md");
    assert!(!d.is_processing("a.md"));
    // A removal is not debounced.
    d.on_event(&created, 6_000);
    assert_eq!(
        d.on_event(&WatchEvent::Deleted("a.md".to_string()), 6_100),
        EventOutcome::RemoveDocument("a.md".to_string())
    );
    assert_eq!(d.pending_count(), 0);
    assert!(d.take_ready(100_000).is_empty());
    assert_eq!(Debouncer::decide(false, false), SettledDecision::SkipMissing);
    assert_eq!(Debouncer::decide(true, true), SettledDecision::SkipKnown);
    assert_eq!(Debouncer::decide(true, false), SettledDecision::Ingest);
}

#[test]
fn settings_defaults_and_masks() {
    let s = Settings::default();
    assert_eq!(s.chunk_size, 512);
    assert_eq!(s.chunk_overlap, 50);
    assert_eq!(s.max_context_chunks, 20);
    assert_eq!(s.video_segment_duration, 300);
    assert_eq!(s.keyframe_interval, 200);
    assert!(s.watched_folders.is_empty());
    assert!(!s.auto_ingest_enabled);
    assert!(!s.screen_capture_enabled);
    assert_eq!(s.capture_interval_secs, 60);
    assert_eq!(s.capture_mode, "active_window");
    assert_eq!(s.capture_app_filter, "none");
    assert_eq!(s.capture_retention_days, 7);
    assert_eq!(s.capture_hotkey, "Ctrl+Shift+S");
    assert_eq!(s.embedding_model, "gemini-embedding-001");
    assert!(!default_auto_ingest());
    assert_eq!(default_capture_interval(), 60);
    assert_eq!(default_capture_mode(), "active_window");
    assert_eq!(default_capture_filter(), "none");
    assert_eq!(default_capture_retention(), 7);
    assert_eq!(default_capture_hotkey(), "Ctrl+Shift+S");
    assert_eq!(mask_api_key("short"), "****");
    assert_eq!(mask_api_key("12345678"), "****");
    assert_eq!(mask_api_key("AIzaSyABCDEFGH1234"), "****1234");
    assert_eq!(mask_api_key("abcdefghé"), "****ghé");
    // Four bytes from the end lies inside a character: the mask shows
    // what follows it.
    assert_eq!(mask_api_key("abcdef€hi"), "****hi");
    assert_eq!(mask_license_key("12345678"), "****-****");
    assert_eq!(mask_license_key("ABCD-EFGH-IJKL"), "****-****-IJKL");
    assert!(is_masked_key("****1234"));
    assert!(!is_masked_key("***1234"));
    assert_eq!(merge_api_key(Some("old".into()), Some("****1234".into())), Some("old".to_string()));
    assert_eq!(merge_api_key(Some("old".into()), Some("new".into())), Some("new".to_string()));
    assert_eq!(merge_api_key(Some("old".into()), None), None);
    assert_eq!(current_embedding_model("text-embedding-004".into()), "gemini-embedding-001");
    assert_eq!(current_embedding_model("other".into()), "other");
    let mut t = Settings::default();
    t.capture_interval_secs = 1;
    t.capture_retention_days = 500;
    t.capture_mode = "FULL_SCREEN".into();
    t.capture_app_filter = "blacklist".into();
    t.capture_app_list = vec!["slack.exe".into()];
    let c = capture_settings_of(&t);
    assert_eq!(c.interval_secs, 30);
    assert_eq!(c.retention_days, 90);
    assert_eq!(c.mode, recall_os::capture::CaptureMode::FullScreen);
    assert_eq!(c.filter_mode, recall_os::filter::AppFilterMode::Blacklist);
    assert_eq!(c.app_list, vec!["slack.exe".to_string()]);
    let trial = get_license_status(&s, 3);
    assert!(!trial.is_valid);
    assert_eq!(trial.tier, LicenseTier::Trial);
    assert_eq!(trial.documents_used, Some(3));
    assert_eq!(trial.documents_limit, Some(25));
    t.license_key = Some("ABCD-EFGH-IJKL".into());
    t.license_customer_name = Some("Ada".into());
    let licensed = get_license_status(&t, 3);
    assert!(licensed.is_valid);
    assert_eq!(licensed.tier, LicenseTier::Licensed);
    assert_eq!(licensed.license_key.as_deref(), Some("****-****-IJKL"));
    assert_eq!(licensed.documents_used, None);
    assert_eq!(licensed.customer_name.as_deref(), Some("Ada"));
    assert_eq!(LicenseTier::default(), LicenseTier::Trial);
}

#[test]
fn store_rules() {
    assert_eq!(pending_migrations(0, 4), vec![1, 2, 3, 4]);
    assert_eq!(pending_migrations(2, 4), vec![3, 4]);
    assert!(pending_migrations(4, 4).is_empty());
    assert!(pending_migrations(9, 4).is_empty());
    assert_eq!(pending_migrations(-1, 2), vec![1, 2]);
    assert_eq!(
        on_migration_failure("CREATE VIRTUAL TABLE IF NOT EXISTS vec_chunks USING vec0(...)"),
        MigrationFailure::PassOver
    );
    assert_eq!(on_migration_failure("CREATE TABLE documents (...)"), MigrationFailure::Abort);
    assert!(is_orphaned(DocumentStatus::Pending));
    assert!(is_orphaned(DocumentStatus::Processing));
    assert!(!is_orphaned(DocumentStatus::Completed));
    assert!(!is_orphaned(DocumentStatus::Failed));
    assert!(require_vector_extension(true).is_ok());
    assert!(matches!(require_vector_extension(false), Err(RecallError::ExtensionLoad(_))));
    assert!(require_parent("d1", true).is_ok());
    assert!(matches!(
        require_parent("d1", false),
        Err(RecallError::Other(m)) if m == "Cannot insert chunks: document d1 does not exist"
    ));
    assert!(require_matching_counts(3, 3).is_ok());
    assert!(matches!(
        require_matching_counts(3, 2),
        Err(RecallError::Other(m)) if m == "Mismatched chunk_ids and embeddings length"
    ));
    assert!(require_width(768).is_ok());
    assert!(matches!(require_width(767), Err(RecallError::Embedding(_))));
    assert_eq!(invert_rank(-5), 5);
    assert_eq!(invert_rank(7), -7);
    assert_eq!(invert_rank(i64::MIN), i64::MAX);
}

#[test]
fn titles() {
    assert_eq!(title_without_model("  short text ", 40), Some("short text".to_string()));
    assert_eq!(title_without_model("  short text ", 5), Some("short".to_string()));
    assert_eq!(title_without_model("this text has twenty+ bytes in it", 40), None);
    assert_eq!(title_sample("  abc  "), "abc");
    assert_eq!(title_sample(&"x".repeat(3000)).len(), 2000);
    assert_eq!(clean_title(" \"Quarterly Report\"\n", 40), "Quarterly Report");
    assert_eq!(clean_title("**Bold** title", 40), "Bold** title");
    assert_eq!(
        clean_title("A very long title that goes on and on beyond forty bytes", 40),
        "A very long title that goes on and on"
    );
    assert!(matches!(on_title_reply(1, " Title ", 40), TitleStep::Done(t) if t == "Title"));
    assert!(matches!(on_title_reply(1, "  ", 40), TitleStep::RetryAfterMs(500)));
    assert!(matches!(
        on_title_reply(2, "", 40),
        TitleStep::Fail(RecallError::LlmApi(m)) if m == "Title generation returned empty response"
    ));
    let chunk = |content: &str| Chunk {
        id: 1,
        document_id: "d".into(),
        chunk_index: 0,
        content: content.into(),
        token_count: 1,
        start_offset: None,
        end_offset: None,
        page_number: None,
        timestamp_start: None,
        timestamp_end: None,
        topics: None,
        created_at: 0,
    };
    let chunks = vec![chunk("first part of it"), chunk("second part"), chunk("third"), chunk("fourth")];
    assert_eq!(title_source(&chunks, 20), Some("first part of it second part third".to_string()));
    assert_eq!(title_source(&chunks, 50), None);
    assert_eq!(title_source(&vec![], 0), None);
    assert_eq!(title_source(&vec![chunk("   ")], 1), None);
    assert_eq!(accept_title(Ok("T".into())), Some("T".to_string()));
    assert_eq!(accept_title(Ok(String::new())), None);
    assert_eq!(accept_title(Err(RecallError::LlmApi("x".into()))), None);
    assert!(should_check_related(true, 2));
    assert!(!should_check_related(true, 1));
    assert!(!should_check_related(false, 5));
}

#[test]
fn test_rate_limiter() {
    let mut limiter = RateLimiter::new(60, 0);
    // First request should succeed immediately.
    assert!(limiter.acquire(0).is_none());
    // Rapid requests should eventually be rate limited.
    let mut rate_limited = false;
    for _ in 0..100 {
        if limiter.acquire(0).is_some() {
            rate_limited = true;
            break;
        }
    }
    assert!(rate_limited);
    assert_eq!(limiter.tokens(), 0);
    assert_eq!(limiter.acquire(10), Some(1_000));
    // A second later one token has flowed in.
    assert_eq!(limiter.acquire(1_010), None);
    assert_eq!(limiter.acquire(1_010), Some(1_000));
    // The bucket never holds more than its limit.
    assert_eq!(limiter.acquire(10_000_000), None);
    assert_eq!(limiter.tokens(), 59);
}

#[test]
fn context_blocks() {
    let chunks = vec![
        ContextChunk {
            id: 42,
            content: "Saturn has 146 known moons".into(),
            source: "Planets".into(),
            page: Some(3),
            timestamp: None,
        },
        ContextChunk {
            id: 7,
            content: "spoken".into(),
            source: "Talk".into(),
            page: None,
            timestamp: Some(12_500),
        },
    ];
    let expected = "<context>\n<chunk id=\"42\" source=\"Planets\" page=\"3\">Saturn has 146 known moons</chunk>\n<chunk id=\"7\" source=\"Talk\" timestamp=\"12.5\">spoken</chunk></context>\n\n";
    assert_eq!(context_block(&chunks), expected);
    assert_eq!(context_block(&chunks), context_block(&chunks));
    assert_eq!(context_block(&vec![]), "");
    assert_eq!(full_prompt(&vec![], "question"), "question");
    assert_eq!(full_prompt(&chunks, "q"), format!("{}q", expected));
    let t = |ms: u64| {
        context_block(&vec![ContextChunk {
            id: -1,
            content: String::new(),
            source: String::new(),
            page: Some(-2),
            timestamp: Some(ms),
        }])
    };
    assert!(t(0).contains("id=\"-1\" source=\"\" page=\"-2\" timestamp=\"0\""));
    assert!(t(12_000).contains("timestamp=\"12\""));
    assert!(t(12_050).contains("timestamp=\"12.05\""));
    assert!(t(12_005).contains("timestamp=\"12.005\""));
    assert!(t(999).contains("timestamp=\"0.999\""));
    assert_eq!(provider_role("user"), "user");
    assert_eq!(provider_role("assistant"), "model");
    assert_eq!(provider_role("system"), "model");
    assert_eq!(batch_bounds(250, 100), vec![(0, 100), (100, 200), (200, 250)]);
    assert_eq!(batch_bounds(7, 3), vec![(0, 3), (3, 6), (6, 7)]);
    assert_eq!(batch_bounds(3, 3), vec![(0, 3)]);
    assert!(batch_bounds(0, 3).is_empty());
}

#[test]
fn key_checks() {
    let ok = Some(ContentReply { candidates: 1, block_reason: None, first_text: Some("Hello".into()) });
    assert!(matches!(validate_api_key(200, "200 OK", "{}", &ok), Ok(true)));
    assert!(matches!(validate_api_key(401, "", "", &None), Err(RecallError::InvalidApiKey)));
    assert!(matches!(validate_api_key(403, "", "", &None), Err(RecallError::InvalidApiKey)));
    assert!(matches!(validate_api_key(429, "", "slow down", &None), Err(RecallError::RateLimit(60))));
    assert!(matches!(
        validate_api_key(429, "", "RESOURCE_EXHAUSTED", &None),
        Err(RecallError::LlmApi(m)) if m.starts_with("API quota exceeded")
    ));
    assert!(matches!(
        validate_api_key(500, "500 Internal Server Error", "{\"error\":{\"message\":\"boom\"}}", &None),
        Err(RecallError::LlmApi(m)) if m == "API error 500 Internal Server Error: boom"
    ));
    assert!(matches!(
        validate_api_key(200, "", "{\"error\":{\"message\":\"billing disabled\"}}", &ok),
        Err(RecallError::LlmApi(m)) if m.starts_with("Billing not enabled")
    ));
    assert!(matches!(
        validate_api_key(200, "", "{\"error\":{\"message\":\"model not found\"}}", &ok),
        Err(RecallError::LlmApi(m)) if m.starts_with("Model not available")
    ));
    assert!(matches!(
        validate_api_key(200, "", "{\"error\":{\"message\":\"odd\"}}", &ok),
        Err(RecallError::LlmApi(m)) if m == "odd"
    ));
    assert!(matches!(
        validate_api_key(200, "", "{\"error\":{}}", &ok),
        Err(RecallError::LlmApi(m)) if m == "Unknown API error"
    ));
    assert!(matches!(
        validate_api_key(200, "", "not json", &None),
        Err(RecallError::LlmApi(m)) if m == "Invalid API response: not json"
    ));
    let blocked = Some(ContentReply { candidates: 0, block_reason: Some("SAFETY".into()), first_text: None });
    assert!(matches!(
        validate_api_key(200, "", "{}", &blocked),
        Err(RecallError::LlmApi(m)) if m == "Request blocked: SAFETY"
    ));
    let none = Some(ContentReply { candidates: 0, block_reason: None, first_text: None });
    assert!(matches!(
        validate_api_key(200, "", "{}", &none),
        Err(RecallError::LlmApi(m)) if m.starts_with("API returned no response")
    ));
    let empty = Some(ContentReply { candidates: 1, block_reason: None, first_text: Some("  ".into()) });
    assert!(matches!(
        validate_api_key(200, "", "{}", &empty),
        Err(RecallError::LlmApi(m)) if m.starts_with("API returned empty response")
    ));
}

#[test]
fn categories() {
    assert_eq!(content_categories().len(), 15);
    assert_eq!(valid_category(" science & technology\n"), "Science & Technology");
    assert_eq!(valid_category("FOOD & COOKING"), "Food & Cooking");
    assert_eq!(valid_category("Gardening"), "Other");
    assert_eq!(valid_category(""), "Other");
    assert!(eq_ignore_ascii_case("AbC", "aBc"));
    assert!(!eq_ignore_ascii_case("abc", "abd"));
    assert!(!eq_ignore_ascii_case("É", "é"));
    let chunk = |content: String| Chunk {
        id: 1,
        document_id: "d".into(),
        chunk_index: 0,
        content,
        token_count: 1,
        start_offset: None,
        end_offset: None,
        page_number: None,
        timestamp_start: None,
        timestamp_end: None,
        topics: None,
        created_at: 0,
    };
    let short: Vec<Chunk> = (0..7).map(|i| chunk(format!("c{}", i))).collect();
    assert_eq!(content_sample(&short), "c0\n\nc1\n\nc2\n\nc3\n\nc4\n\n");
    let long = vec![chunk("x".repeat(1500)), chunk("y".repeat(600)), chunk("z".into())];
    assert_eq!(content_sample(&long).len(), 1502 + 602);
    assert_eq!(content_sample(&vec![]), "");
}

#[test]
fn media_tool() {
    assert_eq!(FFmpeg::new(false, true, true).unwrap().binary_path(), "resources/ffmpeg.exe");
    assert_eq!(FFmpeg::new(true, true, true).unwrap().binary_path(), "src-tauri/resources/ffmpeg.exe");
    assert_eq!(FFmpeg::new(true, false, true).unwrap().binary_path(), "resources/ffmpeg.exe");
    assert_eq!(FFmpeg::new(true, false, false).unwrap().binary_path(), "ffmpeg");
    assert_eq!(get_duration("  Duration: 00:05:30.12, start: 0.0").unwrap(), 330_120);
    assert_eq!(get_duration("Duration: 01:00:00").unwrap(), 3_600_000);
    assert_eq!(get_duration("Duration: 00:00:07.5 Duration: 09:00:00").unwrap(), 7_500);
    assert_eq!(get_duration("Duration: 00:00:01.23456").unwrap(), 1_234);
    assert!(matches!(
        get_duration("no duration here"),
        Err(RecallError::FFmpeg(m)) if m == "Could not parse video duration"
    ));
    assert!(duration_from_matches("x", &vec![]).is_err());
    assert_eq!(keyframe_timestamp(0, 200), 0);
    assert_eq!(keyframe_timestamp(3, 200), 15_000);
    assert_eq!(keyframe_timestamp(1, 1000), 1_000);
    assert_eq!(keyframe_timestamp(1, 0), u64::MAX);
}

#[test]
fn prompts_and_shell_rules() {
    assert!(RAG_SYSTEM_PROMPT.contains("[chunk_id]"));
    assert!(title_prompt("the content").ends_with("Content:\nthe content"));
    assert!(title_prompt("x").starts_with("Write a very short title (3-6 words MAX)"));
    assert!(batch_ocr_prompt(3).starts_with("Extract ALL text from these 3 document page(s). For EACH page"));
    assert_eq!(page_label(12), "Page 12:");
    let p = categorization_prompt("My Title", "sample text");
    assert!(p.starts_with("Analyze this document and categorize it into ONE of these categories:\n- Science & Technology\n- Business & Finance\n"));
    assert!(p.contains("\n- Other\n\nDocument title: My Title\nContent sample:\nsample text\n\nRespond with ONLY the category name, nothing else."));
    assert!(should_ingest_entry("/d/a.md"));
    assert!(!should_ingest_entry("/d/.hidden.md"));
    assert!(!should_ingest_entry("/d/a.exe"));
    assert!(!should_ingest_entry("/d/"));
    assert!(should_scan_entry("/d/a.md", false));
    assert!(!should_scan_entry("/d/a.md", true));
    assert!(!should_scan_entry("/d/a.bin", false));
    assert!(directory_outcome(0, &vec![]).is_ok());
    assert!(directory_outcome(2, &vec!["e".to_string()]).is_ok());
    assert!(matches!(
        directory_outcome(0, &vec!["a: x".to_string(), "b: y".to_string()]),
        Err(RecallError::Ingestion(m)) if m == "All files failed to ingest: a: x; b: y"
    ));
    assert_eq!(directory_error("/d/a.md", &RecallError::Io("gone".into())), "/d/a.md: IO error: gone");
    let mut folders = vec!["/a".to_string()];
    assert!(add_watched_folder(&mut folders, "/b"));
    assert!(!add_watched_folder(&mut folders, "/a"));
    assert_eq!(folders, vec!["/a".to_string(), "/b".to_string()]);
    remove_watched_folder(&mut folders, "/a");
    assert_eq!(folders, vec!["/b".to_string()]);
    assert!(should_start_watcher(true, 1));
    assert!(!should_start_watcher(true, 0));
    assert!(!should_start_watcher(false, 3));
    let n = related_content_notification("d1", "Doc", vec![]);
    assert_eq!(n.message, "0 similar documents found");
    assert_eq!(n.title, "Doc");
    assert_eq!(n.document_id.as_deref(), Some("d1"));
    let one = recall_os::related::RelatedDocument { id: "x".into(), title: "X".into(), similarity: 1 };
    assert_eq!(related_content_notification("d1", "Doc", vec![one]).message, "1 similar document found");
    assert_eq!(processing_notification(Some("code.exe")).message, "From code.exe");
    assert_eq!(processing_notification(None).message, "Extracting text...");
    assert_eq!(processing_notification(None).title, "Processing Screenshot");
}

#[test]
fn capture_counters_and_status() {
    let mut c = CaptureCounters::new();
    c.record(5);
    c.record(9);
    assert_eq!(c.capture_count, 2);
    assert_eq!(c.last_capture, Some(9));
    let s = get_status(&CaptureSettings::default(), true, false, 2, Some("2024-03-05T14:07:09+00:00".into()));
    assert!(!s.enabled);
    assert!(s.scheduler_running);
    assert_eq!(s.mode, "active_window");
    assert_eq!(s.interval_secs, 60);
    assert_eq!(s.capture_count, 2);
    assert_eq!(s.hotkey, "Ctrl+Shift+S");
}

#[test]
fn queue_status_and_progress_queries() {
    let mut q = IngestionQueue::new();
    assert!(q.try_begin("zz"));
    q.enqueue("a", 1);
    let status = get_ingestion_queue(&q);
    assert_eq!(status.queue_length, 1);
    assert!(status.is_processing);
    assert_eq!(status.queued_files[0].path, "a");
    let mut m = ProgressMap::new();
    m.update("d1", "a", IngestionStage::Queued, 0, "q");
    m.update("d2", "b", IngestionStage::Queued, 0, "q");
    assert_eq!(get_ingestion_progress(&m, &None).len(), 2);
    assert_eq!(get_ingestion_progress(&m, &Some("d2".to_string())).len(), 1);
    assert!(get_ingestion_progress(&m, &Some("d9".to_string())).is_empty());
}

#[test]
fn licenses() {
    let reply = |activated: bool, error: Option<&str>, product_id: Option<u64>| ActivationReply {
        activated,
        error: error.map(|e| e.to_string()),
        product_id,
        customer_name: Some("Ada".into()),
        customer_email: Some("ada@example.com".into()),
        instance_id: Some("i-1".into()),
    };
    assert_eq!(prepare_license_key("  KEY-1 \n").unwrap(), "KEY-1");
    assert!(matches!(
        prepare_license_key("   "),
        Err(RecallError::Other(m)) if m == "License key cannot be empty"
    ));
    assert!(read_activation(&reply(true, None, Some(PRODUCT_ID))).is_ok());
    assert!(read_activation(&reply(true, None, None)).is_ok());
    assert!(matches!(
        read_activation(&reply(true, Some("limit reached"), Some(PRODUCT_ID))),
        Err(RecallError::Other(m)) if m == "License activation failed: limit reached"
    ));
    assert!(matches!(
        read_activation(&reply(false, None, Some(PRODUCT_ID))),
        Err(RecallError::Other(m)) if m == "License activation failed. Please check your key and try again."
    ));
    assert!(matches!(
        read_activation(&reply(true, None, Some(1))),
        Err(RecallError::Other(m)) if m == "This license key is not valid for RECALL.OS"
    ));
    let mut settings = Settings::default();
    settings.chunk_size = 300;
    settings.gemini_api_key = Some("model-key".to_string());
    let status = activate_license(
        &mut settings,
        "ABCD-EFGH-IJKL".to_string(),
        &reply(true, None, Some(PRODUCT_ID)),
        "2024-03-05T14:07:09+00:00".to_string(),
    );
    assert!(status.is_valid);
    assert_eq!(status.license_key.as_deref(), Some("****-****-IJKL"));
    assert_eq!(status.customer_name.as_deref(), Some("Ada"));
    assert_eq!(settings.license_key.as_deref(), Some("ABCD-EFGH-IJKL"));
    assert_eq!(settings.license_instance_id.as_deref(), Some("i-1"));
    let valid = |valid: bool, product_id: Option<u64>| {
        ValidationOutcome::Replied(ValidationReply { valid, product_id })
    };
    assert_eq!(verify_license(false, ValidationOutcome::Unreachable), LicenseVerdict::Invalid);
    assert_eq!(verify_license(true, ValidationOutcome::Unreachable), LicenseVerdict::Valid);
    assert_eq!(verify_license(true, ValidationOutcome::Unreadable), LicenseVerdict::Invalid);
    assert_eq!(verify_license(true, valid(true, Some(PRODUCT_ID))), LicenseVerdict::Valid);
    assert_eq!(verify_license(true, valid(true, None)), LicenseVerdict::Valid);
    assert_eq!(verify_license(true, valid(true, Some(2))), LicenseVerdict::Invalid);
    assert_eq!(verify_license(true, valid(false, Some(PRODUCT_ID))), LicenseVerdict::Revoked);
    revoke_license(&mut settings);
    assert_eq!(settings.license_key, None);
    assert_eq!(settings.license_customer_name.as_deref(), Some("Ada"));
    deactivate_license(&mut settings);
    assert_eq!(settings.license_customer_name, None);
    assert_eq!(settings.license_instance_id, None);
    // Nothing but the license has changed.
    assert_eq!(settings.chunk_size, 300);
    assert_eq!(settings.gemini_api_key.as_deref(), Some("model-key"));
    assert_eq!(settings.chunk_overlap, Settings::default().chunk_overlap);
    assert_eq!(settings.embedding_model, Settings::default().embedding_model);
    assert_eq!(get_instance_id(Some("my-host"), 5), "RECALL-my-host");
    assert_eq!(get_instance_id(None, 1700000000), "RECALL-1700000000");
}
