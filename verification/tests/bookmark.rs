use bookmark_hub::bookmark::{
    embedding_required, status_for_initial_embeddings, status_for_initial_summary,
    status_for_initial_tags, status_for_initial_text_ai, summary_value, tag_update,
    truncate_fail_reason, AiGenerationStatus, TagUpdateMode,
};
use bookmark_hub::model::TagOperation;

fn strings(v: &[&str]) -> Vec<String> {
    v.iter().map(|s| s.to_string()).collect()
}

#[test]
fn given_tags_need_no_generation() {
    let tags = strings(&["a"]);
    assert_eq!(status_for_initial_tags(Some(tags.as_slice())), AiGenerationStatus::Done);
    assert_eq!(status_for_initial_tags(Some(&[][..])), AiGenerationStatus::Pending);
    assert_eq!(status_for_initial_tags(None), AiGenerationStatus::Pending);
}

#[test]
fn given_summary_needs_no_generation_unless_blank() {
    assert_eq!(status_for_initial_summary(Some("sum")), AiGenerationStatus::Done);
    assert_eq!(status_for_initial_summary(Some(" \t")), AiGenerationStatus::Pending);
    assert_eq!(status_for_initial_summary(None), AiGenerationStatus::Pending);
}

#[test]
fn text_generation_is_done_when_both_parts_are() {
    let done = AiGenerationStatus::Done;
    let pending = AiGenerationStatus::Pending;
    assert_eq!(status_for_initial_text_ai(done, done), done);
    assert_eq!(status_for_initial_text_ai(done, pending), pending);
    assert_eq!(status_for_initial_text_ai(pending, done), pending);
}

#[test]
fn embeddings_wait_for_texts_of_two_hundred_bytes() {
    assert_eq!(status_for_initial_embeddings(&"x".repeat(199)), AiGenerationStatus::Done);
    assert_eq!(status_for_initial_embeddings(&"x".repeat(200)), AiGenerationStatus::Pending);
    assert!(embedding_required(&"é".repeat(100)));
    assert!(!embedding_required(&"é".repeat(99)));
}

#[test]
fn fail_reason_is_cut_to_2048_characters() {
    let long = "é".repeat(3000);
    let cut = truncate_fail_reason(&long);
    assert_eq!(cut.chars().count(), 2048);
    assert_eq!(truncate_fail_reason("short"), "short");
}

#[test]
fn summary_is_trimmed_or_absent() {
    assert_eq!(summary_value("  text \n"), Some("text".to_string()));
    assert_eq!(summary_value("   "), None);
}

#[test]
fn tag_updates_replace_or_merge_normalized_tags() {
    let (mode, tags) = tag_update(&TagOperation::Replace(strings(&[" A", "a", "B "])));
    assert_eq!(mode, TagUpdateMode::Replace);
    assert_eq!(tags, Some(strings(&["a", "b"])));
    let (mode, tags) = tag_update(&TagOperation::Append(strings(&["", " "])));
    assert_eq!(mode, TagUpdateMode::Merge);
    assert_eq!(tags, None);
}

#[test]
fn save_record_normalizes_what_is_written() {
    let bookmark = bookmark_hub::model::Bookmark {
        bookmark_id: "id".into(),
        user_id: 1,
        url: "https://Example.com:443/a#frag".into(),
        domain: "example.com".into(),
        title: "t".into(),
        tags: Some(strings(&[" Rust", "rust", ""])),
        summary: Some("  text  ".into()),
        created_at: 0,
        updated_at: None,
    };
    let rec = bookmark_hub::bookmark::save_record(&bookmark, "short").unwrap();
    assert_eq!(rec.canonical_url, "https://example.com/a");
    assert_eq!(rec.tags, Some(strings(&["rust"])));
    assert_eq!(rec.summary.as_deref(), Some("text"));
    assert_eq!(rec.summary_status, AiGenerationStatus::Done);
    assert_eq!(rec.tag_status, AiGenerationStatus::Done);
    assert_eq!(rec.text_ai_status, AiGenerationStatus::Done);
    assert_eq!(rec.embedding_status, AiGenerationStatus::Done);

    let mut other = bookmark.clone();
    other.summary = Some("   ".into());
    other.tags = None;
    let rec = bookmark_hub::bookmark::save_record(&other, &"x".repeat(300)).unwrap();
    assert_eq!(rec.summary, None);
    assert_eq!(rec.summary_status, AiGenerationStatus::Pending);
    assert_eq!(rec.tag_status, AiGenerationStatus::Pending);
    assert_eq!(rec.text_ai_status, AiGenerationStatus::Pending);
    assert_eq!(rec.embedding_status, AiGenerationStatus::Pending);

    other.url = "not a url".into();
    assert!(bookmark_hub::bookmark::save_record(&other, "").is_err());
}
