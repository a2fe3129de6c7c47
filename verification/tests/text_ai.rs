use bookmark_hub::model::Bookmark;
use bookmark_hub::text_ai::{
    chunk_hashes, chunk_layout_changed, collect_raw_tags, hash_chunk, normalize_tags,
    reusable_analysis, summary_output, summary_request, tags_output, tags_request, ChunkAnalysis,
    GenerationCandidate, TEXT_AI_PIPELINE_VERSION,
};

fn strings(v: &[&str]) -> Vec<String> {
    v.iter().map(|s| s.to_string()).collect()
}

fn analysis(index: i32, hash: &str, version: i32, tags: &[&str]) -> ChunkAnalysis {
    ChunkAnalysis {
        bookmark_id: "b".into(),
        user_id: 1,
        chunk_index: index,
        chunk_hash: hash.into(),
        pipeline_version: version,
        summary: format!("summary {index}"),
        tags: strings(tags),
    }
}

fn candidate(needs_summary: bool, needs_tags: bool) -> GenerationCandidate {
    GenerationCandidate {
        bookmark: Bookmark {
            bookmark_id: "b".into(),
            user_id: 1,
            url: "https://example.com/".into(),
            domain: "example.com".into(),
            title: "t".into(),
            tags: Some(strings(&["kept"])),
            summary: Some("old".into()),
            created_at: 0,
            updated_at: None,
        },
        attempts: 0,
        needs_summary,
        needs_tags,
    }
}

#[test]
fn chunk_hash_is_hex_sha256() {
    assert_eq!(
        hash_chunk("abc"),
        "ba7816bf8f01cfea414140de5dae2223b00361a396177a9cb410ff61f20015ad"
    );
    assert_eq!(
        hash_chunk(""),
        "e3b0c44298fc1c149afbf4c8996fb92427ae41e4649b934ca495991b7852b855"
    );
}

#[test]
fn chunk_hashes_follow_chunks() {
    let hashes = chunk_hashes(&strings(&["abc", ""]));
    assert_eq!(hashes, vec![hash_chunk("abc"), hash_chunk("")]);
}

#[test]
fn unchanged_layout_is_kept() {
    let hashes = strings(&["h0", "h1"]);
    let rows = vec![analysis(1, "h1", 1, &[]), analysis(0, "h0", 1, &[])];
    assert!(!chunk_layout_changed(&rows, &hashes, TEXT_AI_PIPELINE_VERSION));
}

#[test]
fn layout_changes_on_count_hash_version_or_index() {
    let hashes = strings(&["h0", "h1"]);
    assert!(chunk_layout_changed(&[analysis(0, "h0", 1, &[])], &hashes, 1));
    assert!(chunk_layout_changed(
        &[analysis(0, "h0", 1, &[]), analysis(1, "other", 1, &[])],
        &hashes,
        1
    ));
    assert!(chunk_layout_changed(
        &[analysis(0, "h0", 1, &[]), analysis(1, "h1", 2, &[])],
        &hashes,
        1
    ));
    assert!(chunk_layout_changed(
        &[analysis(0, "h0", 1, &[]), analysis(2, "h1", 1, &[])],
        &hashes,
        1
    ));
    assert!(chunk_layout_changed(
        &[analysis(0, "h0", 1, &[]), analysis(-1, "h1", 1, &[])],
        &hashes,
        1
    ));
}

#[test]
fn analyses_are_reused_by_index_unless_changed() {
    let rows = vec![analysis(1, "h1", 1, &[]), analysis(0, "h0", 1, &[])];
    assert_eq!(reusable_analysis(&rows, false, 0), Some(1));
    assert_eq!(reusable_analysis(&rows, false, 1), Some(0));
    assert_eq!(reusable_analysis(&rows, false, 2), None);
    assert_eq!(reusable_analysis(&rows, true, 0), None);
}

#[test]
fn raw_tags_are_sorted_and_distinct() {
    let analyses = vec![
        analysis(0, "h0", 1, &["rust", "web", "Rust"]),
        analysis(1, "h1", 1, &["async", "web", "éclair", "rust"]),
    ];
    assert_eq!(
        collect_raw_tags(&analyses),
        strings(&["Rust", "async", "rust", "web", "éclair"])
    );
    assert!(collect_raw_tags(&[]).is_empty());
}

#[test]
fn consolidation_is_asked_only_when_needed() {
    let analyses = vec![analysis(0, "h0", 1, &["b", "a"])];
    assert_eq!(
        summary_request(&candidate(true, false), &analyses),
        Some(strings(&["summary 0"]))
    );
    assert_eq!(summary_request(&candidate(false, true), &analyses), None);
    assert_eq!(summary_request(&candidate(true, true), &[]), None);
    assert_eq!(
        tags_request(&candidate(false, true), &analyses),
        Some(strings(&["a", "b"]))
    );
    assert_eq!(tags_request(&candidate(true, false), &analyses), None);
}

#[test]
fn outputs_use_consolidation_or_keep_current() {
    assert_eq!(
        summary_output(Some("old".into()), Some("  new summary \n")),
        Some("new summary".into())
    );
    assert_eq!(summary_output(Some("old".into()), Some("   ")), None);
    assert_eq!(summary_output(Some("old".into()), None), Some("old".into()));
    assert_eq!(
        tags_output(Some(strings(&["kept"])), Some(strings(&[" Rust", "rust ", "", "Web"]))),
        Some(strings(&["rust", "web"]))
    );
    assert_eq!(tags_output(Some(strings(&["kept"])), Some(strings(&[" "]))), None);
    assert_eq!(tags_output(Some(strings(&["kept"])), None), Some(strings(&["kept"])));
}

#[test]
fn consolidated_tags_are_normalized() {
    assert_eq!(
        normalize_tags(strings(&["A", "a", " b ", ""])),
        Some(strings(&["a", "b"]))
    );
    assert_eq!(normalize_tags(vec![]), None);
}
