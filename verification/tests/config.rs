use bookmark_hub::config::{
    build_llm_client, embedding_provider, ollama_base_url, request_timeout_secs, text_provider,
    AiDaemonSettings, EmbeddingProvider, LlmParams, TextProvider,
};

fn params(provider: &str) -> LlmParams {
    LlmParams {
        llm_provider: provider.into(),
        llm_embedding_provider: None,
        llm_text_model: Some("model".into()),
        llm_embedding_model: None,
        llm_embedding_dimension: None,
        ai_text_chunk_size: None,
        ai_text_chunk_overlap: None,
        ai_embed_chunk_size: 512,
        ai_embed_chunk_overlap: 64,
        ai_text_claim_window_secs: 600,
        ai_embed_claim_window_secs: 600,
        llm_max_in_flight_total: 4,
        llm_max_in_flight_background: 2,
        llm_text_rpm_interactive: None,
        llm_text_rpm_background: None,
        llm_embed_rpm_interactive: None,
        llm_embed_rpm_background: None,
        llm_retry_base_delay_ms: 100,
        llm_retry_max_delay_ms: 1000,
        ollama_url: None,
        openai_api_key: None,
        anthropic_api_key: None,
        gemini_api_key: None,
        openrouter_api_key: None,
        llm_embedding_api_key: None,
        llm_request_timeout_secs: None,
    }
}

#[test]
fn text_chunking_defaults_by_provider() {
    let p = params("ollama");
    assert_eq!(p.resolved_text_chunk_size(), 1000);
    assert_eq!(p.resolved_text_chunk_overlap(), 100);
    let p = params("openai");
    assert_eq!(p.resolved_text_chunk_size(), 2000);
    assert_eq!(p.resolved_text_chunk_overlap(), 200);
}

#[test]
fn settings_are_checked_in_order() {
    assert!(params("ollama").validate_runtime_settings().is_ok());
    let mut p = params("ollama");
    p.ai_text_chunk_overlap = Some(1000);
    assert_eq!(
        p.validate_runtime_settings().unwrap_err().message,
        "AI_TEXT_CHUNK_OVERLAP must be smaller than AI_TEXT_CHUNK_SIZE"
    );
    let mut p = params("ollama");
    p.llm_max_in_flight_background = 5;
    p.llm_retry_max_delay_ms = 1;
    assert_eq!(
        p.validate_runtime_settings().unwrap_err().message,
        "LLM_MAX_IN_FLIGHT_BACKGROUND must be less than or equal to LLM_MAX_IN_FLIGHT_TOTAL"
    );
}

#[test]
fn daemon_settings_follow_params() {
    let s = AiDaemonSettings::from_llm_params(&params("openai")).unwrap();
    assert_eq!(s.text_chunk_size, 2000);
    assert_eq!(s.embed_chunk_overlap, 64);
    assert_eq!(s.text_claim_window_secs, 600);
    let mut p = params("openai");
    p.ai_embed_chunk_size = 0;
    assert!(AiDaemonSettings::from_llm_params(&p).is_err());
}

#[test]
fn ollama_url_loses_trailing_slashes() {
    let mut p = params("ollama");
    assert_eq!(ollama_base_url(&p), "http://localhost:11434");
    p.ollama_url = Some("http://gpu:11434//".into());
    assert_eq!(ollama_base_url(&p), "http://gpu:11434");
    assert_eq!(request_timeout_secs(&p), 120);
}

#[test]
fn providers_need_their_keys() {
    assert!(matches!(
        text_provider(&params("ollama")),
        Ok(TextProvider::Ollama { base_url }) if base_url == "http://localhost:11434"
    ));
    assert_eq!(
        text_provider(&params("openai")).unwrap_err().message,
        "OPENAI_API_KEY required for openai provider"
    );
    assert_eq!(
        text_provider(&params("mistral")).unwrap_err().message,
        "Unknown LLM_PROVIDER: mistral"
    );
    let mut p = params("anthropic");
    p.gemini_api_key = Some("g".into());
    assert!(matches!(
        embedding_provider(&"gemini".to_string(), &p),
        Ok(EmbeddingProvider::Gemini { api_key }) if api_key == "g"
    ));
    assert!(embedding_provider(&"anthropic".to_string(), &p)
        .unwrap_err()
        .message
        .starts_with("Provider 'anthropic' does not support embeddings."));
}

#[test]
fn client_plan_defaults_embedding_to_text_settings() {
    let plan = build_llm_client(&params("ollama")).unwrap().unwrap();
    assert_eq!(plan.text_model, "model");
    assert_eq!(plan.embedding_model, "model");
    assert_eq!(plan.embedding_ndims, 1024);
    let mut p = params("ollama");
    p.llm_text_model = None;
    assert!(build_llm_client(&p).unwrap().is_none());
    let mut p = params("openai");
    p.openai_api_key = Some("k".into());
    p.llm_embedding_provider = Some("anthropic".into());
    assert!(build_llm_client(&p).is_err());
}
