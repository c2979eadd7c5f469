use recall_os::error::RecallError;
use recall_os::fts_query::{prepare_fts_query, query_from_marks};
use recall_os::fusion::{fuse_one, leg_score, rank_score, reciprocal_rank_fusion, FusedHit};
use recall_os::models::{Chunk, SearchType, SCORE_SCALE};
use recall_os::retriever::{
    candidate_ids, fuse_legs, leg_ids, normalize_scores, plan_retrieval, score_vector_hits,
    select_results, similarity,
};

fn chunk(id: i64, doc: &str) -> Chunk {
    Chunk {
        id,
        document_id: doc.to_string(),
        chunk_index: 0,
        content: format!("content {}", id),
        token_count: 2,
        start_offset: None,
        end_offset: None,
        page_number: Some(1),
        timestamp_start: None,
        timestamp_end: None,
        topics: None,
        created_at: 0,
    }
}

#[test]
fn fts_query_single_word_is_a_prefix_match() {
    assert_eq!(prepare_fts_query("hello"), "hello*");
    assert_eq!(prepare_fts_query("  hello!! "), "hello*");
    assert_eq!(prepare_fts_query("a hello b"), "hello*");
}

#[test]
fn fts_query_several_words_are_phrase_or_prefixes() {
    assert_eq!(prepare_fts_query("quick fox"), "\"quick fox\" OR quick* OR fox*");
    assert_eq!(
        prepare_fts_query("How many moons does Saturn have?"),
        "\"How many moons does Saturn have\" OR How* OR many* OR moons* OR does* OR Saturn* OR have*"
    );
    // A word of one byte stays in the phrase but gets no term of its own.
    assert_eq!(prepare_fts_query("a quick fox"), "\"a quick fox\" OR quick* OR fox*");
    // Syntax characters become spaces.
    assert_eq!(prepare_fts_query("foo:bar (baz)"), "\"foo bar  baz\" OR foo* OR bar* OR baz*");
    assert_eq!(prepare_fts_query("it's 3.5, ok"), "\"it's 3.5, ok\" OR it's* OR 3.5,* OR ok*");
}

#[test]
fn fts_query_empty_after_cleaning_is_empty() {
    assert_eq!(prepare_fts_query(""), "");
    assert_eq!(prepare_fts_query("   "), "");
    assert_eq!(prepare_fts_query("\"*()-+^:"), "");
    assert_eq!(prepare_fts_query("a b c"), "");
    assert_eq!(prepare_fts_query("é"), "é*");
}

#[test]
fn rank_scores() {
    assert_eq!(rank_score(1), SCORE_SCALE / 61);
    assert_eq!(rank_score(1), 16_393_442_622);
    assert_eq!(rank_score(2), 16_129_032_258);
    assert_eq!(leg_score(&vec![5, 6, 5], 5), SCORE_SCALE / 61 + SCORE_SCALE / 63);
    assert_eq!(leg_score(&vec![5, 6, 5], 7), 0);
}

#[test]
fn fusion_sums_ranks_and_tags_origin() {
    let vector = vec![1, 2, 3];
    let fts = vec![3, 4];
    let fused = reciprocal_rank_fusion(&vector, &fts);
    let ids: Vec<i64> = fused.iter().map(|h| h.chunk_id).collect();
    assert_eq!(ids, vec![3, 1, 2, 4]);
    assert_eq!(
        fused[0],
        FusedHit {
            chunk_id: 3,
            score: SCORE_SCALE / 63 + SCORE_SCALE / 61,
            search_type: SearchType::Hybrid
        }
    );
    assert_eq!(fused[1].search_type, SearchType::Vector);
    assert_eq!(fused[1].score, SCORE_SCALE / 61);
    assert_eq!(fused[3].search_type, SearchType::Fts);
    assert_eq!(fused[3].score, SCORE_SCALE / 62);
    assert_eq!(fuse_one(&vector, &fts, 4), fused[3]);
    for w in fused.windows(2) {
        assert!(w[0].score >= w[1].score);
    }
}

#[test]
fn fusion_is_stable_under_identical_inputs() {
    let vector = vec![9, 8, 7, 6];
    let fts = vec![6, 7, 8, 9];
    let a = reciprocal_rank_fusion(&vector, &fts);
    let b = reciprocal_rank_fusion(&vector, &fts);
    assert_eq!(a, b);
    // 9 and 6 tie, as do 8 and 7: ties keep the order of first occurrence.
    let ids: Vec<i64> = a.iter().map(|h| h.chunk_id).collect();
    assert_eq!(ids, vec![9, 6, 8, 7]);
    assert!(reciprocal_rank_fusion(&vec![], &vec![]).is_empty());
}

#[test]
fn failed_vector_leg_falls_back_to_full_text() {
    let vector: Result<Vec<(i64, u64)>, RecallError> =
        Err(RecallError::ExtensionLoad("sqlite-vec not loaded".to_string()));
    let fts: Result<Vec<(i64, u64)>, RecallError> = Ok(vec![(4, 10), (2, 5)]);
    assert!(leg_ids(&vector).is_empty());
    assert_eq!(leg_ids(&fts), vec![4, 2]);
    let fused = fuse_legs(&vector, &fts);
    assert_eq!(fused, reciprocal_rank_fusion(&vec![], &vec![4, 2]));
    assert_eq!(fused.len(), 2);
    assert_eq!(fused[0].search_type, SearchType::Fts);
    // The sparse list alone keeps its order, each hit with the score of its rank.
    let sparse: Result<Vec<(i64, u64)>, RecallError> =
        Ok(vec![(9, 1), (3, 1), (7, 1), (1, 1), (5, 1)]);
    let alone = fuse_legs(&vector, &sparse);
    let ids: Vec<i64> = alone.iter().map(|h| h.chunk_id).collect();
    assert_eq!(ids, vec![9, 3, 7, 1, 5]);
    for (i, hit) in alone.iter().enumerate() {
        assert_eq!(hit.search_type, SearchType::Fts);
        assert_eq!(hit.score, SCORE_SCALE / (60 + i as u64 + 1));
    }
    let none: Result<Vec<(i64, u64)>, RecallError> = Err(RecallError::Other("x".to_string()));
    assert!(fuse_legs(&vector, &none).is_empty());
}

#[test]
fn retrieval_plans() {
    let p = plan_retrieval("quick fox", 0, false);
    assert!(!p.run_dense);
    assert_eq!(p.fts_query, None);
    let p = plan_retrieval("quick fox", 5, false);
    assert!(p.run_dense);
    assert_eq!(p.fts_query.as_deref(), Some("\"quick fox\" OR quick* OR fox*"));
    assert_eq!(p.leg_limit, 10);
    assert_eq!(p.fetch_limit, 5);
    let p = plan_retrieval("?", 5, true);
    assert!(p.run_dense);
    assert_eq!(p.fts_query, None);
    assert_eq!(p.fetch_limit, 15);
    let p = plan_retrieval("x", usize::MAX, true);
    assert_eq!(p.leg_limit, usize::MAX);
    assert_eq!(p.fetch_limit, usize::MAX);
}

#[test]
fn similarities() {
    assert_eq!(similarity(0), SCORE_SCALE);
    assert_eq!(similarity(SCORE_SCALE), SCORE_SCALE / 2);
    assert_eq!(similarity(3 * SCORE_SCALE), SCORE_SCALE / 4);
    assert!(similarity(u64::MAX) < 100_000);
}

#[test]
fn results_follow_rank_filter_and_limit() {
    let ranked = reciprocal_rank_fusion(&vec![1, 2, 3, 4], &vec![3]);
    assert_eq!(candidate_ids(&ranked, 2), vec![3, 1]);
    assert_eq!(candidate_ids(&ranked, 10), vec![3, 1, 2, 4]);
    let chunks = vec![chunk(1, "a"), chunk(3, "b"), chunk(4, "a")];
    let all = select_results(&ranked, 10, &chunks, None, 10);
    let ids: Vec<i64> = all.iter().map(|c| c.chunk.id).collect();
    assert_eq!(ids, vec![3, 1, 4]);
    assert_eq!(all[0].score, ranked[0].score);
    assert_eq!(all[0].chunk.document_id, "b");
    assert_eq!(all[0].chunk.content, "content 3");
    let allow = vec!["a".to_string()];
    let only_a = select_results(&ranked, 10, &chunks, Some(&allow), 10);
    let ids: Vec<i64> = only_a.iter().map(|c| c.chunk.id).collect();
    assert_eq!(ids, vec![1, 4]);
    let one = select_results(&ranked, 10, &chunks, Some(&allow), 1);
    assert_eq!(one.len(), 1);
    assert_eq!(one[0].chunk.id, 1);
    // Only the best two candidates were fetched.
    let narrow = select_results(&ranked, 2, &chunks, Some(&allow), 10);
    assert_eq!(narrow.len(), 1);
    assert!(select_results(&ranked, 10, &chunks, None, 0).is_empty());
}

#[test]
fn leg_scores() {
    let dense = score_vector_hits(&vec![(1, 0), (2, SCORE_SCALE), (3, 3 * SCORE_SCALE)]);
    assert_eq!(dense, vec![(1, SCORE_SCALE), (2, SCORE_SCALE / 2), (3, SCORE_SCALE / 4)]);
    let sparse = normalize_scores(&vec![(7, 4_000), (8, 1_000), (9, 0)]);
    assert_eq!(sparse, vec![(7, SCORE_SCALE), (8, SCORE_SCALE / 4), (9, 0)]);
    assert_eq!(normalize_scores(&vec![(7, 0), (8, 0)]), vec![(7, 0), (8, 0)]);
    assert!(normalize_scores(&vec![]).is_empty());
}

#[test]
fn queries_are_made_of_marked_characters() {
    // Every character marked as a letter or a number.
    assert_eq!(query_from_marks("ab", &vec![true, true]), "ab*");
    // Unmarked characters become spaces, but for white space and ' . ,
    assert_eq!(query_from_marks("ab", &vec![false, false]), "");
    assert_eq!(query_from_marks("ab-cd", &vec![true, true, false, true, true]), "\"ab cd\" OR ab* OR cd*");
    assert_eq!(query_from_marks("a.b", &vec![true, false, true]), "a.b*");
    // A character without a mark counts as neither letter nor number.
    assert_eq!(query_from_marks("abcd", &vec![true, true]), "ab*");
    assert_eq!(query_from_marks("", &vec![true]), "");
    // With the marks of the characters themselves this is the prepared query.
    let typed = "quick (fox)";
    let marks: Vec<bool> = typed.chars().map(|c| c.is_alphanumeric()).collect();
    assert_eq!(query_from_marks(typed, &marks), prepare_fts_query(typed));
}
