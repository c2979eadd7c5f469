use recall_os::cancel::CancellationSet;
use recall_os::error::RecallError;
use recall_os::hashing::content_hash;
use recall_os::ingestion::{
    check_trial_limit, create_document, file_extension, file_name, on_hash_lookup,
    on_path_lookup, title_for_path, validate_file_size, HashOutcome, PathOutcome,
    MAX_FILE_SIZE, TRIAL_DOCUMENT_LIMIT,
};
use recall_os::mime::mime_or;
use recall_os::models::{Document, DocumentStatus, FileType, IngestionStage};
use recall_os::pipeline::{
    embedding_message, extraction_message_for, extractor_for, queue_message, Extractor, Phase,
    Pipeline, PipelineAction, PipelineEvent,
};
use recall_os::progress::ProgressMap;
use recall_os::queue::IngestionQueue;

fn doc(id: &str, path: &str, hash: &str, status: DocumentStatus) -> Document {
    Document {
        id: id.to_string(),
        title: "t".to_string(),
        file_path: path.to_string(),
        file_type: FileType::Markdown,
        file_size: 11,
        file_hash: hash.to_string(),
        mime_type: None,
        created_at: 0,
        updated_at: 0,
        ingested_at: None,
        status,
        error_message: None,
        metadata: "{}".to_string(),
    }
}

#[test]
fn files_over_500_mib_are_refused() {
    assert!(validate_file_size(0).is_ok());
    assert!(validate_file_size(MAX_FILE_SIZE).is_ok());
    match validate_file_size(MAX_FILE_SIZE + 1) {
        Err(RecallError::Ingestion(m)) => {
            assert_eq!(m, "File too large (500.0 MB). Maximum size is 500 MB.");
        }
        other => panic!("expected an ingestion failure, got {:?}", other),
    }
    match validate_file_size(600 * 1024 * 1024 + 300 * 1024) {
        Err(RecallError::Ingestion(m)) => {
            assert_eq!(m, "File too large (600.3 MB). Maximum size is 500 MB.");
        }
        other => panic!("expected an ingestion failure, got {:?}", other),
    }
    // 1023.25 MiB lies half-way between two tenths: the even one is taken.
    match validate_file_size(1023 * 1024 * 1024 + 256 * 1024) {
        Err(RecallError::Ingestion(m)) => {
            assert_eq!(m, "File too large (1023.2 MB). Maximum size is 500 MB.");
        }
        other => panic!("expected an ingestion failure, got {:?}", other),
    }
    assert!(validate_file_size(u64::MAX).is_err());
}

#[test]
fn trial_limit() {
    assert!(check_trial_limit(false, 24, TRIAL_DOCUMENT_LIMIT).is_ok());
    assert!(matches!(
        check_trial_limit(false, 25, TRIAL_DOCUMENT_LIMIT),
        Err(RecallError::TrialLimitReached(_))
    ));
    assert!(check_trial_limit(true, 1000, TRIAL_DOCUMENT_LIMIT).is_ok());
}

#[test]
fn content_hashes() {
    assert_eq!(
        content_hash(b"Hello world"),
        "64ec88ca00b268e5ba1a35678a1b5316d212f4f366b2477232534a8aeca37f3c"
    );
    assert_eq!(
        content_hash(b""),
        "e3b0c44298fc1c149afbf4c8996fb92427ae41e4649b934ca495991b7852b855"
    );
}

#[test]
fn unchanged_file_is_returned_as_it_is() {
    let h = content_hash(b"Hello world");
    let existing = Some(doc("d1", "a.md", &h, DocumentStatus::Completed));
    assert_eq!(on_path_lookup(&h, &existing), PathOutcome::ReturnExisting("d1".to_string()));
    // A second look gives the same answer.
    assert_eq!(on_path_lookup(&h, &existing), PathOutcome::ReturnExisting("d1".to_string()));
}

#[test]
fn changed_or_unfinished_file_is_replaced() {
    let h = content_hash(b"Hello world");
    let changed = Some(doc("d1", "a.md", "other", DocumentStatus::Completed));
    assert_eq!(on_path_lookup(&h, &changed), PathOutcome::ReplaceExisting("d1".to_string()));
    for status in [DocumentStatus::Pending, DocumentStatus::Processing, DocumentStatus::Failed] {
        let unfinished = Some(doc("d2", "a.md", &h, status));
        assert_eq!(
            on_path_lookup(&h, &unfinished),
            PathOutcome::ReplaceExisting("d2".to_string())
        );
    }
    assert_eq!(on_path_lookup(&h, &None), PathOutcome::LookupHash);
}

#[test]
fn rename_detection() {
    // a.md was ingested, then moved to b.md: nothing is at b.md, but a
    // completed document has the file's hash.
    let h = content_hash(b"Hello world");
    assert_eq!(on_path_lookup(&h, &None), PathOutcome::LookupHash);
    let same_content = Some(doc("d1", "a.md", &h, DocumentStatus::Completed));
    assert_eq!(
        on_hash_lookup("b.md", &same_content),
        HashOutcome::Rename {
            id: "d1".to_string(),
            path: "b.md".to_string(),
            title: "b.md".to_string()
        }
    );
    let failed = Some(doc("d1", "a.md", &h, DocumentStatus::Failed));
    assert_eq!(on_hash_lookup("b.md", &failed), HashOutcome::CreateNew);
    assert_eq!(on_hash_lookup("b.md", &None), HashOutcome::CreateNew);
    assert_eq!(
        on_hash_lookup("/docs/new name.md", &same_content),
        HashOutcome::Rename {
            id: "d1".to_string(),
            path: "/docs/new name.md".to_string(),
            title: "new name.md".to_string()
        }
    );
}

#[test]
fn names_and_extensions() {
    assert_eq!(file_name("/home/u/notes.md"), "notes.md");
    assert_eq!(file_name("C:\\docs\\report.final.PDF"), "report.final.PDF");
    assert_eq!(file_name("plain"), "plain");
    assert_eq!(file_name("dir/"), "");
    assert_eq!(title_for_path("dir/"), "unknown");
    assert_eq!(title_for_path(""), "unknown");
    assert_eq!(file_extension("notes.md"), "md");
    assert_eq!(file_extension("report.final.PDF"), "PDF");
    assert_eq!(file_extension(".bashrc"), "");
    assert_eq!(file_extension("noext"), "");
    assert_eq!(file_extension("trailing."), "");
}

#[test]
fn new_documents() {
    let d = create_document("/home/u/Report.PDF", 1234, "abc".to_string(), 77);
    assert_eq!(d.title, "Report.PDF");
    assert_eq!(d.file_path, "/home/u/Report.PDF");
    assert_eq!(d.file_type, FileType::Pdf);
    assert_eq!(d.file_size, 1234);
    assert_eq!(d.file_hash, "abc");
    assert_eq!(d.mime_type.as_deref(), Some("application/pdf"));
    assert_eq!(d.created_at, 77);
    assert_eq!(d.updated_at, 77);
    assert_eq!(d.ingested_at, None);
    assert_eq!(d.status, DocumentStatus::Pending);
    assert_eq!(d.error_message, None);
    assert_eq!(d.metadata, "{}");
    assert_eq!(d.id.len(), 36);
    let e = create_document("x.unknownext", u64::MAX, "h".to_string(), 0);
    assert_eq!(e.file_type, FileType::Unknown);
    assert_eq!(e.mime_type, None);
    assert_eq!(e.file_size, i64::MAX);
    assert_ne!(e.id, d.id);
    assert_eq!(mime_or("png", "image/jpeg"), "image/png");
    assert_eq!(mime_or("zzzz", "image/jpeg"), "image/jpeg");
}

fn run(p: &mut Pipeline, c: &mut CancellationSet, e: PipelineEvent) -> PipelineAction {
    p.step(e, c)
}

#[test]
fn pipeline_runs_through_its_stages() {
    let mut c = CancellationSet::new();
    let mut p = Pipeline::new("d1".to_string(), FileType::Markdown, true);
    assert_eq!(p.phase(), Phase::Queued);
    assert_eq!(p.stage(), IngestionStage::Queued);
    assert_eq!(p.percent(), 0);
    assert!(matches!(
        run(&mut p, &mut c, PipelineEvent::Started),
        PipelineAction::Extract(Extractor::Text)
    ));
    assert_eq!(p.stage(), IngestionStage::Extracting);
    assert_eq!(p.percent(), 10);
    assert!(matches!(run(&mut p, &mut c, PipelineEvent::Extracted), PipelineAction::Chunk));
    assert_eq!(p.percent(), 30);
    assert!(matches!(
        run(&mut p, &mut c, PipelineEvent::Chunked { count: 3 }),
        PipelineAction::StoreChunks
    ));
    assert_eq!(p.stage(), IngestionStage::Chunking);
    assert!(matches!(run(&mut p, &mut c, PipelineEvent::ChunksStored), PipelineAction::Embed));
    assert_eq!(p.stage(), IngestionStage::Embedding);
    assert_eq!(p.percent(), 50);
    assert!(matches!(
        run(&mut p, &mut c, PipelineEvent::Embedded { count: 3 }),
        PipelineAction::StoreEmbeddings
    ));
    assert_eq!(p.stage(), IngestionStage::Indexing);
    assert_eq!(p.percent(), 80);
    assert!(matches!(
        run(&mut p, &mut c, PipelineEvent::EmbeddingsStored),
        PipelineAction::Complete
    ));
    assert_eq!(p.phase(), Phase::Completed);
    assert_eq!(p.percent(), 100);
    assert_eq!(p.chunk_count(), 3);
    assert_eq!(p.embedded_count(), 3);
    assert_eq!(p.document_id(), "d1");
    // An ingestion that has ended takes no more events.
    assert!(matches!(run(&mut p, &mut c, PipelineEvent::Started), PipelineAction::Nothing));
    assert!(matches!(
        run(&mut p, &mut c, PipelineEvent::Failed(RecallError::Other("late".into()))),
        PipelineAction::Nothing
    ));
    assert_eq!(p.phase(), Phase::Completed);
}

#[test]
fn pipeline_without_model_completes_without_embeddings() {
    let mut c = CancellationSet::new();
    let mut p = Pipeline::new("d1".to_string(), FileType::Pdf, false);
    assert!(matches!(
        run(&mut p, &mut c, PipelineEvent::Started),
        PipelineAction::Extract(Extractor::Pdf)
    ));
    run(&mut p, &mut c, PipelineEvent::Extracted);
    run(&mut p, &mut c, PipelineEvent::Chunked { count: 2 });
    assert!(matches!(run(&mut p, &mut c, PipelineEvent::ChunksStored), PipelineAction::Complete));
    assert_eq!(p.phase(), Phase::Completed);
    assert_eq!(p.chunk_count(), 2);
    assert_eq!(p.embedded_count(), 0);
}

fn failure_message(a: PipelineAction) -> String {
    match a {
        PipelineAction::Fail(e) => e.message(),
        other => panic!("expected a failure, got {:?}", other),
    }
}

#[test]
fn pipeline_refusals() {
    let mut c = CancellationSet::new();
    let mut p = Pipeline::new("d".to_string(), FileType::Unknown, true);
    assert_eq!(
        failure_message(run(&mut p, &mut c, PipelineEvent::Started)),
        "Ingestion error: Unsupported file type"
    );
    assert_eq!(p.phase(), Phase::Failed);
    assert_eq!(p.percent(), 0);
    for t in [FileType::Video, FileType::Audio, FileType::Image, FileType::Screenshot] {
        let mut p = Pipeline::new("d".to_string(), t, false);
        assert_eq!(
            failure_message(run(&mut p, &mut c, PipelineEvent::Started)),
            "Configuration error: LLM client not configured"
        );
    }
    let mut p = Pipeline::new("d".to_string(), FileType::Text, true);
    run(&mut p, &mut c, PipelineEvent::Started);
    run(&mut p, &mut c, PipelineEvent::Extracted);
    assert_eq!(
        failure_message(run(&mut p, &mut c, PipelineEvent::Chunked { count: 0 })),
        "Ingestion error: No content extracted from file"
    );
    let mut p = Pipeline::new("d".to_string(), FileType::Text, true);
    run(&mut p, &mut c, PipelineEvent::Started);
    run(&mut p, &mut c, PipelineEvent::Extracted);
    run(&mut p, &mut c, PipelineEvent::Chunked { count: 4 });
    run(&mut p, &mut c, PipelineEvent::ChunksStored);
    assert_eq!(
        failure_message(run(&mut p, &mut c, PipelineEvent::Embedded { count: 3 })),
        "Mismatched chunk_ids and embeddings length"
    );
    assert_eq!(p.phase(), Phase::Failed);
    let mut p = Pipeline::new("d".to_string(), FileType::Text, true);
    assert_eq!(
        failure_message(run(&mut p, &mut c, PipelineEvent::Extracted)),
        "Ingestion error: Event out of turn"
    );
    let mut p = Pipeline::new("d".to_string(), FileType::Text, true);
    run(&mut p, &mut c, PipelineEvent::Started);
    assert_eq!(
        failure_message(run(
            &mut p,
            &mut c,
            PipelineEvent::Failed(RecallError::Io("disk gone".into()))
        )),
        "IO error: disk gone"
    );
    assert_eq!(p.phase(), Phase::Failed);
    assert_eq!(extractor_for(FileType::Screenshot), Some(Extractor::Image));
    assert_eq!(extractor_for(FileType::Unknown), None);
}

#[test]
fn cancellation_is_seen_at_three_points() {
    // Before extraction.
    let mut c = CancellationSet::new();
    assert!(c.cancel("d1"));
    let mut p = Pipeline::new("d1".to_string(), FileType::Pdf, true);
    let m = failure_message(run(&mut p, &mut c, PipelineEvent::Started));
    assert_eq!(m, "Ingestion error: Ingestion cancelled");
    assert!(m.contains("cancelled"));
    assert_eq!(p.phase(), Phase::Failed);
    assert_eq!(p.chunk_count(), 0);
    assert_eq!(p.embedded_count(), 0);
    assert!(!c.is_cancelled("d1"));
    // After extraction.
    let mut p = Pipeline::new("d1".to_string(), FileType::Pdf, true);
    run(&mut p, &mut c, PipelineEvent::Started);
    c.cancel("d1");
    c.cancel("other");
    assert_eq!(
        failure_message(run(&mut p, &mut c, PipelineEvent::Extracted)),
        "Ingestion error: Ingestion cancelled"
    );
    assert!(!c.is_cancelled("d1"));
    assert!(c.is_cancelled("other"));
    // After chunking, before any chunk is stored.
    let mut p = Pipeline::new("d1".to_string(), FileType::Pdf, true);
    run(&mut p, &mut c, PipelineEvent::Started);
    run(&mut p, &mut c, PipelineEvent::Extracted);
    c.cancel("d1");
    assert_eq!(
        failure_message(run(&mut p, &mut c, PipelineEvent::Chunked { count: 2 })),
        "Ingestion error: Ingestion cancelled"
    );
    assert_eq!(p.phase(), Phase::Failed);
    assert_eq!(p.chunk_count(), 0);
    assert_eq!(p.embedded_count(), 0);
    assert!(!c.is_cancelled("d1"));
    // A request that comes while the chunks are stored is not looked for.
    let mut p = Pipeline::new("d1".to_string(), FileType::Pdf, true);
    run(&mut p, &mut c, PipelineEvent::Started);
    run(&mut p, &mut c, PipelineEvent::Extracted);
    assert!(matches!(
        run(&mut p, &mut c, PipelineEvent::Chunked { count: 2 }),
        PipelineAction::StoreChunks
    ));
    assert_eq!(p.chunk_count(), 2);
    c.cancel("d1");
    assert!(matches!(run(&mut p, &mut c, PipelineEvent::ChunksStored), PipelineAction::Embed));
    assert!(c.is_cancelled("d1"));
    c.clear_cancelled("d1");
    // A request for another document does not stop this one.
    let mut p = Pipeline::new("d1".to_string(), FileType::Text, false);
    assert!(matches!(run(&mut p, &mut c, PipelineEvent::Started), PipelineAction::Extract(_)));
    c.clear();
    assert!(!c.is_cancelled("other"));
    c.cancel("x");
    c.cancel("x");
    c.clear_cancelled("x");
    assert!(!c.is_cancelled("x"));
}

#[test]
fn queue_keeps_order_and_grants_one_permit() {
    let mut q = IngestionQueue::new();
    assert_eq!(q.get_queue_status(), (0, false));
    assert!(q.try_begin("first.md"));
    assert_eq!(q.get_queue_status(), (0, true));
    // Three files come in while the permit is held.
    assert_eq!(q.enqueue("a.md", 1), 1);
    assert_eq!(q.enqueue("b.md", 2), 2);
    assert_eq!(q.enqueue("c.md", 3), 3);
    assert_eq!(q.get_queue_status(), (3, true));
    let paths: Vec<String> = q.get_queued_files().into_iter().map(|f| f.path).collect();
    assert_eq!(paths, vec!["a.md", "b.md", "c.md"]);
    assert_eq!(q.get_queued_files()[1].queued_at, 2);
    // None of them gets the permit while it is held.
    assert!(!q.try_begin("a.md"));
    assert!(!q.try_begin("b.md"));
    assert_eq!(q.get_queue_status(), (3, true));
    // They are begun strictly one after the other, in the order of the queue.
    assert_eq!(q.cooldown(), 2);
    assert_eq!(q.finish(), 2);
    assert!(!q.try_begin("b.md"));
    assert!(!q.try_begin("c.md"));
    assert!(!q.try_begin("not-queued.md"));
    assert_eq!(q.get_queue_status(), (3, false));
    assert!(q.try_begin("a.md"));
    assert!(!q.try_begin("b.md"));
    let paths: Vec<String> = q.get_queued_files().into_iter().map(|f| f.path).collect();
    assert_eq!(paths, vec!["b.md", "c.md"]);
    assert_eq!(q.finish(), 2);
    assert!(!q.try_begin("c.md"));
    assert!(q.try_begin("b.md"));
    assert_eq!(q.get_queued_files()[0].queued_at, 3);
    assert_eq!(q.cooldown(), 2);
    assert_eq!(q.finish(), 2);
    assert!(q.try_begin("c.md"));
    assert_eq!(q.cooldown(), 0);
    assert_eq!(q.finish(), 0);
    assert_eq!(q.get_queue_status(), (0, false));
    // A file that gives up its place lets the next one through.
    q.enqueue("d.md", 4);
    q.enqueue("e.md", 5);
    assert!(!q.try_begin("e.md"));
    q.withdraw("d.md");
    assert_eq!(q.get_queue_status(), (1, false));
    assert!(q.try_begin("e.md"));
    assert_eq!(q.finish(), 0);
    q.enqueue("x", 0);
    q.clear();
    assert_eq!(q.get_queue_status(), (0, false));
}

#[test]
fn progress_snapshots() {
    let mut m = ProgressMap::new();
    assert!(m.get_progress("d1").is_none());
    m.update("d1", "a.md", IngestionStage::Queued, 0, "Queued for processing");
    m.update("d2", "b.md", IngestionStage::Queued, 0, "Queued (position 2 of 2)");
    m.update("d1", "a.md", IngestionStage::Extracting, 10, "Extracting content...");
    let p = m.get_progress("d1").unwrap();
    assert_eq!(p.stage, IngestionStage::Extracting);
    assert_eq!(p.progress, 10);
    assert_eq!(p.message, "Extracting content...");
    assert_eq!(p.file_path, "a.md");
    assert_eq!(m.get_progress("d2").unwrap().message, "Queued (position 2 of 2)");
    assert_eq!(m.get_all_progress().len(), 2);
    assert!(m.set_message("d1", "Running Windows OCR..."));
    assert!(!m.set_message("d9", "x"));
    let p = m.get_progress("d1").unwrap();
    assert_eq!(p.message, "Running Windows OCR...");
    assert_eq!(p.progress, 10);
    m.clear_all_progress();
    assert!(m.get_all_progress().is_empty());
}

#[test]
fn stage_messages() {
    assert_eq!(extraction_message_for(FileType::Pdf), "Extracting PDF (may use OCR)...");
    assert_eq!(extraction_message_for(FileType::Image), "Running OCR on image...");
    assert_eq!(extraction_message_for(FileType::Screenshot), "Running OCR on image...");
    assert_eq!(extraction_message_for(FileType::Video), "Processing video frames...");
    assert_eq!(extraction_message_for(FileType::Audio), "Transcribing audio...");
    assert_eq!(extraction_message_for(FileType::Text), "Extracting content...");
    assert_eq!(embedding_message(12), "Generating embeddings for 12 chunks...");
    assert_eq!(queue_message(1), "Queued for processing");
    assert_eq!(queue_message(3), "Queued (position 3 of 3)");
}
