use recall_os::chunker::{Chunker, ExtractedContent, TimedSegment, MAX_CHUNK_SIZE};
use recall_os::tokenizer::{token_count_of, MAX_TOKENIZED_CHARS};

#[test]
fn test_chunker_basic() {
    let chunker = Chunker::new(512, 50);
    let content = ExtractedContent::Text {
        text: "This is a test. It has multiple sentences. We want to see how chunking works."
            .to_string(),
        pages: None,
    };

    let chunks = chunker.chunk("doc-1", &content).unwrap();
    assert!(!chunks.is_empty());
    assert!(chunks[0].token_count > 0);
}

#[test]
fn empty_text_gives_no_chunk() {
    let chunker = Chunker::new(512, 50);
    assert!(chunker.chunk_text("").is_empty());
    let content = ExtractedContent::Text { text: String::new(), pages: None };
    assert!(chunker.chunk("doc-1", &content).unwrap().is_empty());
}

#[test]
fn short_text_gives_one_chunk_with_its_token_count() {
    let chunker = Chunker::new(512, 50);
    let pieces = chunker.chunk_text("hello world");
    assert_eq!(pieces.len(), 1);
    assert_eq!(pieces[0].0, "hello world");
    assert_eq!(pieces[0].1, 2);
    let content = ExtractedContent::Text { text: "hello world".to_string(), pages: None };
    let chunks = chunker.chunk("doc-7", &content).unwrap();
    assert_eq!(chunks.len(), 1);
    assert_eq!(chunks[0].document_id, "doc-7");
    assert_eq!(chunks[0].chunk_index, 0);
    assert_eq!(chunks[0].content, "hello world");
    assert_eq!(chunks[0].token_count, 2);
    assert_eq!(chunks[0].page_number, None);
    assert_eq!(chunks[0].timestamp_start, None);
    assert!(chunks[0].topics.is_none());
}

#[test]
fn long_text_is_cut_before_a_space_in_the_last_fifth() {
    // Target 8 bytes, no overlap. The last fifth of the window [0, 8) is
    // [7, 8): it holds the space at byte 7, so the window ends there. The
    // last fifth of the next window, [14, 15), holds neither a sentence
    // mark nor a space, so that window ends at byte 15.
    let chunker = Chunker::new(2, 0);
    let pieces = chunker.chunk_text("aaaa. b cccc dddd");
    let texts: Vec<&str> = pieces.iter().map(|p| p.0.as_str()).collect();
    assert_eq!(texts, vec!["aaaa. b", "cccc dd", "dd"]);
    assert_eq!(pieces[0].1, 3);
}

#[test]
fn consecutive_windows_overlap() {
    // Target 8 bytes, overlap 4 bytes: each window starts four bytes
    // before the end of the one before.
    let chunker = Chunker::new(2, 1);
    let pieces = chunker.chunk_text("abcdefghijklmnopqrst");
    let texts: Vec<&str> = pieces.iter().map(|p| p.0.as_str()).collect();
    // The last window is never shorter than a quarter of the target, so
    // the tail is covered twice.
    assert_eq!(texts, vec!["abcdefgh", "efghijkl", "ijklmnop", "mnopqrst", "qrst", "st"]);
}

#[test]
fn window_ends_behind_sentence_mark_in_last_fifth() {
    // Target 20 bytes: the last fifth of the first window is [16, 20).
    let chunker = Chunker::new(5, 0);
    let text = "0123456789abcdefg. tail of the text goes on";
    let pieces = chunker.chunk_text(text);
    assert_eq!(pieces[0].0, "0123456789abcdefg.");
    assert!(pieces.len() >= 2);
    for p in &pieces {
        assert!(!p.0.is_empty());
        assert!(p.0.len() <= 20);
    }
}

#[test]
fn windows_respect_character_boundaries() {
    let chunker = Chunker::new(1, 0);
    let text = "ééééééééé";
    let pieces = chunker.chunk_text(text);
    let joined: String = pieces.iter().map(|p| p.0.as_str()).collect();
    assert_eq!(joined, text);
    assert_eq!(pieces[0].0, "éé");
}

#[test]
fn chunker_is_deterministic() {
    let chunker = Chunker::new(4, 1);
    let text = "One sentence here. Another one there! And a third? Yes, and more words follow.";
    let a = chunker.chunk_text(text);
    let b = chunker.chunk_text(text);
    assert_eq!(a, b);
    assert!(a.len() > 1);
}

#[test]
fn pages_carry_their_numbers_and_indices_run_on() {
    let chunker = Chunker::new(512, 50);
    let page = "The quick brown fox jumps over the lazy dog.".to_string();
    let content = ExtractedContent::Text {
        text: String::new(),
        pages: Some(vec![page.clone(), String::new(), page.clone()]),
    };
    let chunks = chunker.chunk("doc-2", &content).unwrap();
    assert_eq!(chunks.len(), 2);
    assert_eq!(chunks[0].page_number, Some(1));
    assert_eq!(chunks[1].page_number, Some(3));
    for (i, c) in chunks.iter().enumerate() {
        assert_eq!(c.chunk_index, i as i32);
        assert_eq!(c.content, page);
        assert_eq!(c.id, 0);
    }
}

#[test]
fn timed_chunks_share_the_segment_evenly() {
    let chunker = Chunker::new(2, 0);
    let seg = TimedSegment {
        start_time: 10_000,
        end_time: 40_000,
        text: "aaaa. b cccc dddd".to_string(),
        topics: vec!["intro".to_string()],
    };
    let short = TimedSegment {
        start_time: 40_000,
        end_time: 45_000,
        text: "end".to_string(),
        topics: vec![],
    };
    let content = ExtractedContent::Timed { segments: vec![seg, short] };
    let chunks = chunker.chunk("doc-3", &content).unwrap();
    assert_eq!(chunks.len(), 4);
    assert_eq!(chunks[0].content, "aaaa. b");
    assert_eq!(chunks[0].timestamp_start, Some(10_000));
    assert_eq!(chunks[0].timestamp_end, Some(20_000));
    assert_eq!(chunks[1].timestamp_start, Some(20_000));
    assert_eq!(chunks[2].timestamp_start, Some(30_000));
    assert_eq!(chunks[2].timestamp_end, Some(40_000));
    assert_eq!(chunks[2].topics, Some(vec!["intro".to_string()]));
    assert_eq!(chunks[3].timestamp_start, Some(40_000));
    assert_eq!(chunks[3].timestamp_end, Some(45_000));
    assert_eq!(chunks[3].chunk_index, 3);
}

#[test]
fn floor_char_boundary_steps_back_into_range() {
    assert_eq!(Chunker::floor_char_boundary("héllo", 2), 1);
    assert_eq!(Chunker::floor_char_boundary("héllo", 3), 3);
    assert_eq!(Chunker::floor_char_boundary("héllo", 99), 6);
    assert_eq!(Chunker::floor_char_boundary("", 0), 0);
}

#[test]
fn long_runs_of_white_space_are_counted() {
    let chunker = Chunker::new(512, 50);
    let text = format!("start{}end. {}", " ".repeat(6000), "x".repeat(3000));
    let pieces = chunker.chunk_text(&text);
    assert!(!pieces.is_empty());
    for p in &pieces {
        assert!(p.1 > 0);
    }
    let inner = format!("a{}b", " ".repeat(1900));
    let one = chunker.chunk_text(&inner);
    assert_eq!(one.len(), 1);
    assert!(one[0].1 > 2);
    let lines = format!("a{}b", "\n".repeat(2000));
    assert_eq!(chunker.chunk_text(&lines).len(), 1);
    let big = Chunker::new(10_000, 0);
    let huge = format!("a{}b{}", " ".repeat(20_000), "\n \t".repeat(5_000));
    let counted = big.chunk_text(&huge);
    assert_eq!(counted.len(), 1);
    assert!(counted[0].1 > 0);
}

#[test]
fn long_texts_are_not_handed_to_the_tokenizer() {
    assert_eq!(token_count_of(""), Some(0));
    assert_eq!(token_count_of("hello world"), Some(2));
    let too_long = "a".repeat(MAX_TOKENIZED_CHARS + 1);
    assert_eq!(token_count_of(&too_long), None);
    // The limit counts characters, not bytes.
    let wide = "é".repeat(400);
    assert!(token_count_of(&wide).is_some());
    assert_eq!(MAX_CHUNK_SIZE * 4, MAX_TOKENIZED_CHARS);
}

#[test]
fn runs_of_white_space_are_chunked() {
    let text = format!("start{}end", " ".repeat(20_000));
    let chunks = Chunker::new(512, 50).chunk_text(&text);
    assert!(!chunks.is_empty());
    assert_eq!(chunks[0].0.split_whitespace().next(), Some("start"));
    assert!(chunks.iter().all(|c| !c.0.trim().is_empty()));
    assert_eq!(token_count_of(&" ".repeat(3000)).map(|n| n > 0), Some(true));
}
