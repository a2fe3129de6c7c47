use bookmark_hub::error::Error;
use bookmark_hub::rag::{
    answer_plan, distinct_chunk_positions, keeps_chunk, max_context_tokens, query_variations, search_limit, search_mode, select_chunks_within_budget,
    similarity_threshold, token_estimate, validate_rag_query_request,
    validate_weighted_hybrid_config, AnswerPlan, HybridSearchConfig, RagQueryRequest, SearchMode,
};

fn weight(x: f64) -> Option<u64> {
    Some(x.to_bits())
}

fn weighted(vector_weight: Option<u64>, fts_weight: Option<u64>) -> RagQueryRequest {
    RagQueryRequest {
        question: "test".into(),
        max_chunks: None,
        similarity_threshold: None,
        max_context_tokens: None,
        hybrid_search: Some(HybridSearchConfig {
            enabled: true,
            use_rrf: Some(false),
            rrf_k: None,
            vector_weight,
            fts_weight,
        }),
    }
}

#[test]
fn weighted_hybrid_rejects_zero_total_weight() {
    let request = weighted(weight(0.0), weight(0.0));
    assert!(validate_rag_query_request(&request).is_err());
}

#[test]
fn weighted_hybrid_rejects_negative_weight() {
    let request = weighted(weight(-0.1), weight(1.0));
    assert!(validate_rag_query_request(&request).is_err());
}

#[test]
fn weighted_hybrid_accepts_positive_weights() {
    let request = weighted(weight(0.2), weight(0.8));
    assert!(validate_rag_query_request(&request).is_ok());
}

fn field_errors(r: Result<(), Error>) -> Vec<(String, Vec<String>)> {
    match r {
        Err(Error::UnprocessableEntity { errors }) => errors,
        _ => panic!("expected unprocessable entity"),
    }
}

#[test]
fn weighted_hybrid_reports_each_field() {
    let config = HybridSearchConfig {
        enabled: true,
        use_rrf: Some(false),
        rrf_k: None,
        vector_weight: weight(f64::NAN),
        fts_weight: weight(-2.0),
    };
    let errors = field_errors(validate_weighted_hybrid_config(&config));
    assert_eq!(
        errors,
        vec![
            ("vector_weight".to_string(), vec!["must be a finite number".to_string()]),
            ("fts_weight".to_string(), vec!["must be greater than or equal to 0".to_string()]),
        ]
    );
}

#[test]
fn weighted_hybrid_zero_error_names_both_weights() {
    let config = HybridSearchConfig {
        enabled: true,
        use_rrf: Some(false),
        rrf_k: None,
        vector_weight: weight(-0.0),
        fts_weight: weight(0.0),
    };
    let errors = field_errors(validate_weighted_hybrid_config(&config));
    assert_eq!(
        errors,
        vec![(
            "hybrid_search".to_string(),
            vec!["vector_weight and fts_weight cannot both be zero".to_string()]
        )]
    );
}

#[test]
fn weighted_hybrid_defaults_and_infinity() {
    let mut request = weighted(None, None);
    assert!(validate_rag_query_request(&request).is_ok());
    request = weighted(weight(f64::INFINITY), None);
    assert!(validate_rag_query_request(&request).is_err());
}

#[test]
fn rank_fusion_requests_are_not_checked() {
    let mut request = weighted(weight(-1.0), weight(-1.0));
    if let Some(c) = request.hybrid_search.as_mut() {
        c.use_rrf = None;
    }
    assert!(validate_rag_query_request(&request).is_ok());
    assert_eq!(search_mode(&request), SearchMode::RankFusion { k: 60 });
    if let Some(c) = request.hybrid_search.as_mut() {
        c.enabled = false;
        c.use_rrf = Some(false);
    }
    assert!(validate_rag_query_request(&request).is_ok());
    assert_eq!(search_mode(&request), SearchMode::Vector);
}

#[test]
fn request_defaults() {
    let request = weighted(None, weight(0.25));
    assert_eq!(
        search_mode(&request),
        SearchMode::Weighted { vector_weight: 0.5f64.to_bits(), fts_weight: 0.25f64.to_bits() }
    );
    assert_eq!(search_limit(&request), 12);
    assert_eq!(max_context_tokens(&request), 4096);
    assert_eq!(f64::from_bits(similarity_threshold(&request)), 0.3);
}

#[test]
fn budget_selects_leading_chunks_that_fit() {
    // 500 tokens leave 300 for context.
    assert_eq!(select_chunks_within_budget(&[100, 150, 60, 10], 500), 2);
    assert_eq!(select_chunks_within_budget(&[100, 200, 60], 500), 2);
    assert_eq!(select_chunks_within_budget(&[301], 500), 0);
    assert_eq!(select_chunks_within_budget(&[1, 1], 150), 0);
    assert_eq!(select_chunks_within_budget(&[0, 0], 150), 2);
    assert_eq!(select_chunks_within_budget(&[], 4096), 0);
    assert_eq!(select_chunks_within_budget(&[usize::MAX, 1], usize::MAX), 0);
}

#[test]
fn token_estimates_fall_back_to_bytes() {
    assert_eq!(token_estimate(Some(7), "whatever"), 7);
    assert_eq!(token_estimate(None, "abcdefghi"), 2);
}

#[test]
fn variations_keep_the_question_first() {
    let qs = query_variations("q".into(), Some(vec!["a".into(), "b".into()]));
    assert_eq!(qs, vec!["q".to_string(), "a".to_string(), "b".to_string()]);
    let qs = query_variations("q".into(), None);
    assert_eq!(qs, vec!["q".to_string()]);
}

#[test]
fn relevance_assessment_keeps_relevant_and_unassessed_chunks() {
    assert!(keeps_chunk(Some(true)));
    assert!(!keeps_chunk(Some(false)));
    assert!(keeps_chunk(None));
}

#[test]
fn first_match_of_each_chunk_is_kept_up_to_the_limit() {
    assert_eq!(distinct_chunk_positions(&[7, 3, 7, 5, 3, 9], 10), vec![0, 1, 3, 5]);
    assert_eq!(distinct_chunk_positions(&[7, 3, 7, 5, 3, 9], 2), vec![0, 1]);
    assert_eq!(distinct_chunk_positions(&[], 3), Vec::<usize>::new());
}

#[test]
fn no_kept_chunk_means_the_no_context_answer() {
    assert_eq!(answer_plan(0), AnswerPlan::NoContext);
    assert_eq!(answer_plan(3), AnswerPlan::FromContext);
}
