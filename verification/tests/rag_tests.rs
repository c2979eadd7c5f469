use recall_os::citations::{citations_from_matches, parse_citations, parse_number, CitationRef};
use recall_os::error::RecallError;
use recall_os::llm::{
    after_failure, error_for_status, extract_error_message, generate_response,
    image_retry_delay_ms, image_text, on_image_reply, rate_limit_backoff,
    truncate_at_word_boundary, ImageStep, ModelReply, RetryDecision, TokenUsage,
};
use recall_os::models::{Chunk, ChunkWithScore, Message, MessageRole, SearchType};
use recall_os::patterns::Span;
use recall_os::rag::{
    build_citations, build_context, build_generate_request, build_source_chunks,
    compose_answer, history_of, no_context_response, retrieval_limit, truncate_snippet,
};

fn scored(id: i64, doc: &str, content: &str) -> ChunkWithScore {
    ChunkWithScore {
        chunk: Chunk {
            id,
            document_id: doc.to_string(),
            chunk_index: 0,
            content: content.to_string(),
            token_count: 5,
            start_offset: None,
            end_offset: None,
            page_number: Some(2),
            timestamp_start: Some(1500),
            timestamp_end: Some(2500),
            topics: None,
            created_at: 0,
        },
        score: 77,
        search_type: SearchType::Hybrid,
    }
}

#[test]
fn citations_are_found_once_with_their_sentence() {
    let refs = parse_citations("Intro. Saturn has 146 known moons [42]. More [7][42] text");
    assert_eq!(refs.len(), 2);
    assert_eq!(refs[0].chunk_id, 42);
    assert_eq!(refs[0].quote, "Saturn has 146 known moons [42].");
    assert_eq!(refs[1].chunk_id, 7);
    assert_eq!(refs[1].quote, "More [7][42] text");
    assert!(parse_citations("no markers [] [x] [1 2]").is_empty());
    // Digits that do not fit a chunk id cite nothing.
    assert!(parse_citations("[99999999999999999999]").is_empty());
    let max = parse_citations("[9223372036854775807]");
    assert_eq!(max[0].chunk_id, i64::MAX);
    assert!(parse_citations("[9223372036854775808]").is_empty());
    assert_eq!(parse_citations("[007]")[0].chunk_id, 7);
    assert_eq!(parse_citations("é [3] ü.")[0].quote, "é [3] ü.");
}

#[test]
fn citations_from_given_matches() {
    let content = "A [12] b.";
    let good = vec![Some(Span { start: 2, end: 6 }), Some(Span { start: 3, end: 5 })];
    let refs = citations_from_matches(content, &vec![good.clone(), good]);
    assert_eq!(refs.len(), 1);
    assert_eq!(refs[0].chunk_id, 12);
    assert_eq!(refs[0].quote, "A [12] b.");
    // Matches that do not fit the text, or lack a group, cite nothing.
    let out_of_range = vec![Some(Span { start: 2, end: 60 }), Some(Span { start: 3, end: 5 })];
    let no_group = vec![Some(Span { start: 2, end: 6 })];
    let not_digits = vec![Some(Span { start: 2, end: 6 }), Some(Span { start: 2, end: 5 })];
    let absent = vec![Some(Span { start: 2, end: 6 }), None];
    assert!(citations_from_matches(
        content,
        &vec![out_of_range, no_group, not_digits, absent, vec![]]
    )
    .is_empty());
    assert_eq!(parse_number(b"x123y", 1, 4, 1000), Some(123));
    assert_eq!(parse_number(b"x123y", 1, 4, 122), None);
    assert_eq!(parse_number(b"x123y", 1, 5, 1000), None);
    assert_eq!(parse_number(b"x123y", 1, 1, 1000), None);
    assert_eq!(parse_number(b"0", 0, 1, 0), Some(0));
}

#[test]
fn rag_with_citations() {
    let chunks = vec![scored(42, "doc-1", "Saturn has 146 known moons")];
    let titles = vec![("doc-1".to_string(), Some("Planets".to_string()))];
    let sources = build_source_chunks(&chunks, &titles);
    assert_eq!(sources.len(), 1);
    assert_eq!(sources[0].chunk_id, 42);
    assert_eq!(sources[0].document_title, "Planets");
    assert_eq!(sources[0].page_number, Some(2));
    assert_eq!(sources[0].timestamp, Some(1500));
    assert_eq!(sources[0].relevance_score, 77);
    let context = build_context(&sources);
    assert_eq!(context[0].id, 42);
    assert_eq!(context[0].source, "Planets");
    assert_eq!(context[0].content, "Saturn has 146 known moons");
    let request = build_generate_request(
        "How many moons does Saturn have?",
        "Cite your sources.",
        &sources,
        vec![],
    );
    assert_eq!(request.prompt, "How many moons does Saturn have?");
    assert_eq!(request.system_prompt.as_deref(), Some("Cite your sources."));
    assert_eq!(request.max_tokens, Some(2000));
    assert_eq!(request.temperature_percent, Some(70));
    assert_eq!(request.context.len(), 1);
    let answer = "Saturn has 146 known moons [42].".to_string();
    let refs = parse_citations(&answer);
    let outcome = compose_answer(
        "How many moons does Saturn have?",
        "conv-1".to_string(),
        answer.clone(),
        &refs,
        sources,
        true,
    );
    assert!(outcome.response.answer.contains("[42]"));
    assert_eq!(outcome.response.citations[0].chunk_id, 42);
    assert_eq!(outcome.response.citations[0].document_id, "doc-1");
    assert_eq!(outcome.response.citations[0].document_title, "Planets");
    assert_eq!(outcome.response.citations[0].content_snippet, "Saturn has 146 known moons");
    assert_eq!(outcome.response.sources.len(), 1);
    assert_eq!(outcome.response.conversation_id, "conv-1");
    assert_eq!(outcome.turns.len(), 2);
    assert_eq!(outcome.turns[0].role, MessageRole::User);
    assert_eq!(outcome.turns[0].content, "How many moons does Saturn have?");
    assert!(outcome.turns[0].citations.is_empty());
    assert_eq!(outcome.turns[1].role, MessageRole::Assistant);
    assert_eq!(outcome.turns[1].content, answer);
    assert_eq!(outcome.turns[1].citations[0].chunk_id, 42);
}

#[test]
fn references_outside_the_sources_are_dropped() {
    let chunks = vec![scored(1, "a", "one"), scored(2, "b", "two")];
    let sources = build_source_chunks(&chunks, &vec![]);
    assert_eq!(sources[0].document_title, "Unknown");
    let refs = vec![
        CitationRef { chunk_id: 9, quote: String::new() },
        CitationRef { chunk_id: 2, quote: String::new() },
        CitationRef { chunk_id: 1, quote: String::new() },
    ];
    let citations = build_citations(&refs, &sources);
    let ids: Vec<i64> = citations.iter().map(|c| c.chunk_id).collect();
    assert_eq!(ids, vec![2, 1]);
    let outcome =
        compose_answer("q", "c".to_string(), "a".to_string(), &refs, sources, false);
    assert!(outcome.response.sources.is_empty());
    assert_eq!(outcome.response.citations.len(), 2);
    let titles = vec![("a".to_string(), None), ("a".to_string(), Some("late".to_string()))];
    assert_eq!(build_source_chunks(&chunks, &titles)[0].document_title, "Unknown");
}

#[test]
fn nothing_retrieved_gives_the_fixed_answer() {
    let r = no_context_response("conv-9".to_string());
    assert!(r.answer.starts_with("I don't have any relevant information"));
    assert!(r.citations.is_empty());
    assert!(r.sources.is_empty());
    assert_eq!(r.conversation_id, "conv-9");
    assert_eq!(retrieval_limit(Some(3), 20), 3);
    assert_eq!(retrieval_limit(None, 20), 20);
}

#[test]
fn snippets_and_history() {
    let long = "x".repeat(250);
    let s = truncate_snippet(&long, 200);
    assert_eq!(s.chars().count(), 200);
    assert_eq!(s, format!("{}...", "x".repeat(197)));
    assert_eq!(truncate_snippet(&"x".repeat(200), 200), "x".repeat(200));
    assert_eq!(truncate_snippet("short", 200), "short");
    let wide = "é".repeat(150);
    assert_eq!(truncate_snippet(&wide, 200), wide);
    assert_eq!(truncate_snippet(&"é".repeat(201), 200), format!("{}...", "é".repeat(197)));
    assert_eq!(truncate_snippet("ééé", 3), "ééé");
    assert_eq!(truncate_snippet("éééé", 3), "...");
    assert_eq!(truncate_snippet("éééé", 2), "éé");
    assert_eq!(truncate_snippet("abc", 0), "");
    let messages = vec![
        Message {
            id: "m1".into(),
            conversation_id: "c".into(),
            role: MessageRole::User,
            content: "hi".into(),
            citations: vec![],
            created_at: 1,
        },
        Message {
            id: "m2".into(),
            conversation_id: "c".into(),
            role: MessageRole::Assistant,
            content: "hello".into(),
            citations: vec![],
            created_at: 2,
        },
    ];
    let h = history_of(&messages);
    assert_eq!(h.len(), 2);
    assert_eq!(h[0].role, "user");
    assert_eq!(h[0].content, "hi");
    assert_eq!(h[1].role, "assistant");
}

#[test]
fn retry_policy() {
    assert_eq!(rate_limit_backoff(60, 1), 60);
    assert_eq!(rate_limit_backoff(60, 2), 120);
    assert_eq!(rate_limit_backoff(60, 3), 120);
    assert_eq!(rate_limit_backoff(10, 3), 30);
    assert_eq!(rate_limit_backoff(u64::MAX, u32::MAX), 120);
    assert_eq!(rate_limit_backoff(0, 5), 0);
    let limited = RecallError::RateLimit(60);
    assert_eq!(after_failure(&limited, 0, 3), RetryDecision::RetryAfterSecs(60));
    assert_eq!(after_failure(&limited, 1, 3), RetryDecision::RetryAfterSecs(120));
    assert_eq!(after_failure(&limited, 2, 3), RetryDecision::RetryAfterSecs(120));
    assert_eq!(after_failure(&limited, 3, 3), RetryDecision::GiveUp);
    assert_eq!(after_failure(&RecallError::InvalidApiKey, 0, 3), RetryDecision::GiveUp);
    assert_eq!(after_failure(&RecallError::Http("x".into()), 0, 3), RetryDecision::GiveUp);
}

#[test]
fn statuses() {
    assert!(error_for_status(200, "200 OK", "{}").is_none());
    assert!(matches!(
        error_for_status(429, "429 Too Many Requests", ""),
        Some(RecallError::RateLimit(60))
    ));
    assert!(matches!(error_for_status(401, "", ""), Some(RecallError::InvalidApiKey)));
    assert!(matches!(error_for_status(403, "", ""), Some(RecallError::InvalidApiKey)));
    match error_for_status(500, "500 Internal Server Error", "boom") {
        Some(RecallError::LlmApi(m)) => {
            assert_eq!(m, "API error 500 Internal Server Error: boom")
        }
        other => panic!("unexpected {:?}", other),
    }
}

#[test]
fn error_messages_from_replies() {
    assert_eq!(
        extract_error_message("{\"error\": {\"code\": 400, \"message\": \"API key not valid\"}}"),
        "API key not valid"
    );
    assert_eq!(extract_error_message("plain text"), "plain text");
    assert_eq!(extract_error_message("{\"error\": {\"message\": 5}}"), "{\"error\": {\"message\": 5}}");
    let long = "y".repeat(300);
    let cut = extract_error_message(&long);
    assert_eq!(cut.len(), 203);
    assert!(cut.ends_with("..."));
}

#[test]
fn word_boundaries() {
    assert_eq!(truncate_at_word_boundary("short title", 40), "short title");
    assert_eq!(truncate_at_word_boundary("one two three four", 9), "one two");
    assert_eq!(truncate_at_word_boundary("one  two three", 5), "one");
    assert_eq!(truncate_at_word_boundary("abcdefghij", 4), "abcd");
    assert_eq!(truncate_at_word_boundary("ééééé", 3), "é");
}

#[test]
fn image_replies() {
    let reply = |block: Option<&str>, text: &str, finish: Option<&str>| ModelReply {
        block_reason: block.map(|s| s.to_string()),
        text: text.to_string(),
        finish_reason: finish.map(|s| s.to_string()),
    };
    assert!(matches!(on_image_reply(1, &reply(None, "text", None)), ImageStep::Done(t) if t == "text"));
    match on_image_reply(1, &reply(Some("OTHER"), "text", None)) {
        ImageStep::Fail(RecallError::LlmApi(m)) => {
            assert_eq!(m, "Image blocked by safety filter: OTHER")
        }
        other => panic!("unexpected {:?}", other),
    }
    match on_image_reply(2, &reply(None, "", Some("SAFETY"))) {
        ImageStep::Fail(RecallError::LlmApi(m)) => assert_eq!(m, "Image processing blocked: SAFETY"),
        other => panic!("unexpected {:?}", other),
    }
    assert!(matches!(on_image_reply(1, &reply(None, "", None)), ImageStep::RetryAfterMs(1000)));
    assert!(matches!(on_image_reply(2, &reply(None, "", Some("STOP"))), ImageStep::RetryAfterMs(2000)));
    assert!(matches!(on_image_reply(3, &reply(None, "", None)), ImageStep::RetryAfterMs(4000)));
    assert!(matches!(on_image_reply(4, &reply(None, "", None)), ImageStep::RetryAfterMs(8000)));
    match on_image_reply(5, &reply(None, "", None)) {
        ImageStep::Fail(RecallError::LlmApi(m)) => {
            assert_eq!(m, "OCR failed to extract text from image after multiple attempts")
        }
        other => panic!("unexpected {:?}", other),
    }
    assert_eq!(image_retry_delay_ms(5), 16000);
    assert_eq!(image_text("  ".to_string()), "[Image with no detectable text]");
    assert_eq!(image_text(" [NO TEXT DETECTED]\n".to_string()), "[Image with no detectable text]");
    assert_eq!(image_text(" some text ".to_string()), " some text ");
}

#[test]
fn replies_carry_their_citations_and_usage() {
    let usage = TokenUsage { prompt_tokens: 10, completion_tokens: 5, total_tokens: 15 };
    let r = generate_response("It began in 2024 [12]. See also [7].".to_string(), Some(usage));
    assert_eq!(r.content, "It began in 2024 [12]. See also [7].");
    let ids: Vec<i64> = r.citations.iter().map(|c| c.chunk_id).collect();
    assert_eq!(ids, vec![12, 7]);
    assert_eq!(r.usage.prompt_tokens, 10);
    assert_eq!(r.usage.completion_tokens, 5);
    assert_eq!(r.usage.total_tokens, 15);
    let r = generate_response("No sources.".to_string(), None);
    assert!(r.citations.is_empty());
    assert_eq!(r.usage.prompt_tokens, 0);
    assert_eq!(r.usage.completion_tokens, 0);
    assert_eq!(r.usage.total_tokens, 0);
}
