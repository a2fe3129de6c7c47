use std::str::FromStr;

use bookmark_hub::chunking::{count_tokens, token_windows, windowed_chunks, TokenizerError};
use bookmark_hub::embeddings::{embedding_plan, plan_from_chunks, EmbeddingCandidate, EmbeddingPlan};
use tokenizers::Tokenizer;

const WORD_LEVEL: &str = r#"{
  "version": "1.0",
  "truncation": null,
  "padding": null,
  "added_tokens": [],
  "normalizer": null,
  "pre_tokenizer": {"type": "Whitespace"},
  "post_processor": null,
  "decoder": null,
  "model": {
    "type": "WordLevel",
    "vocab": {"[UNK]": 0, "a": 1, "b": 2, "c": 3, "d": 4, "e": 5},
    "unk_token": "[UNK]"
  }
}"#;

fn tokenizer() -> Tokenizer {
    Tokenizer::from_str(WORD_LEVEL).unwrap()
}

#[test]
fn windows_start_a_step_apart() {
    let ids: Vec<u32> = (1..=7).collect();
    assert_eq!(
        token_windows(&ids, 3, 1),
        vec![vec![1, 2, 3], vec![3, 4, 5], vec![5, 6, 7]]
    );
    assert_eq!(token_windows(&ids, 3, 0), vec![vec![1, 2, 3], vec![4, 5, 6]]);
    assert!(token_windows(&vec![1, 2], 3, 1).is_empty());
}

#[test]
fn tokens_are_counted() {
    assert_eq!(count_tokens(&tokenizer(), "a b c d"), Ok(4));
    assert_eq!(count_tokens(&tokenizer(), ""), Ok(0));
}

#[test]
fn text_is_cut_into_overlapping_chunks() {
    let chunks = windowed_chunks(&tokenizer(), 3, 1, "a b c d e").unwrap();
    assert_eq!(chunks, vec!["a b c".to_string(), "c d e".to_string()]);
}

#[test]
fn short_text_gives_no_chunk() {
    let chunks = windowed_chunks(&tokenizer(), 3, 1, "a b").unwrap();
    assert!(chunks.is_empty());
}

fn candidate(text: &str) -> EmbeddingCandidate {
    EmbeddingCandidate {
        bookmark_id: "b".into(),
        user_id: 1,
        text_content: text.into(),
        attempts: 0,
    }
}

#[test]
fn short_texts_are_done_without_chunks() {
    let plan = embedding_plan(&tokenizer(), &candidate("a b c d e"), 3, 1).unwrap();
    assert!(matches!(plan, EmbeddingPlan::DoneWithoutChunks));
}

#[test]
fn long_texts_are_embedded_chunk_by_chunk() {
    let text = "a b c d e ".repeat(30);
    assert!(text.len() >= 200);
    match embedding_plan(&tokenizer(), &candidate(&text), 50, 10).unwrap() {
        EmbeddingPlan::Embed(chunks) => assert_eq!(chunks.len(), 3),
        EmbeddingPlan::DoneWithoutChunks => panic!("expected chunks"),
    }
}

#[test]
fn long_text_with_too_few_tokens_is_done_without_chunks() {
    let text = "a".repeat(250);
    let plan = embedding_plan(&tokenizer(), &candidate(&text), 3, 1).unwrap();
    assert!(matches!(plan, EmbeddingPlan::DoneWithoutChunks));
}

#[test]
fn plan_follows_the_chunking_outcome() {
    assert!(matches!(plan_from_chunks(Ok(vec![])), Ok(EmbeddingPlan::DoneWithoutChunks)));
    match plan_from_chunks(Ok(vec!["a".to_string(), "b".to_string()])) {
        Ok(EmbeddingPlan::Embed(chunks)) => assert_eq!(chunks, vec!["a".to_string(), "b".to_string()]),
        other => panic!("unexpected plan {other:?}"),
    }
    assert!(matches!(plan_from_chunks(Err(TokenizerError::Decode)), Err(TokenizerError::Decode)));
}
