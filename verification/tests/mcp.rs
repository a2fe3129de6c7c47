use bookmark_hub::error::Error;
use bookmark_hub::mcp::{
    create_bookmark_tags, map_err, parse_task_status, rag_history_request, search_request,
    search_tags_filter, tag_lookup_key, task_search_request, GetBookmarksByTagParams,
    ListTasksParams, RagHistoryParams, RagQueryParams, rag_query_request, SearchBookmarksParams, ToolError,
};
use bookmark_hub::model::{BookmarkTaskStatus, TagFilter};

fn strings(v: &[&str]) -> Vec<String> {
    v.iter().map(|s| s.to_string()).collect()
}

fn list_params(status: Option<&str>, last: Option<&str>) -> ListTasksParams {
    ListTasksParams {
        url: Some("x".into()),
        status: status.map(|s| s.to_string()),
        tags: None,
        page_size: Some(3),
        last_task_id: last.map(|s| s.to_string()),
    }
}

#[test]
fn task_status_is_read_in_any_case() {
    assert_eq!(parse_task_status("pending"), Ok(BookmarkTaskStatus::Pending));
    assert_eq!(parse_task_status("DONE"), Ok(BookmarkTaskStatus::Done));
    assert_eq!(parse_task_status("Fail"), Ok(BookmarkTaskStatus::Fail));
    assert_eq!(
        parse_task_status("Running"),
        Err(ToolError::InvalidParams("unknown status 'running'".into()))
    );
}

#[test]
fn tag_filter_follows_kind() {
    let tags = Some(strings(&["a"]));
    assert!(matches!(search_tags_filter(None, Some("and")), Ok(TagFilter::Any)));
    assert!(matches!(search_tags_filter(tags.clone(), Some("any")), Ok(TagFilter::Any)));
    assert!(matches!(
        search_tags_filter(tags.clone(), Some("untagged")),
        Ok(TagFilter::Untagged)
    ));
    assert!(matches!(search_tags_filter(tags.clone(), Some("and")), Ok(TagFilter::And(t)) if t == strings(&["a"])));
    assert!(matches!(search_tags_filter(tags.clone(), Some("or")), Ok(TagFilter::Or(_))));
    assert!(matches!(search_tags_filter(tags.clone(), None), Ok(TagFilter::Or(_))));
    assert_eq!(
        search_tags_filter(tags, Some("AND")).err(),
        Some(ToolError::InvalidParams("unknown tags_filter_type 'AND'".into()))
    );
}

#[test]
fn search_request_keeps_query_and_paging() {
    let r = search_request(SearchBookmarksParams {
        query: Some("q".into()),
        tags: None,
        tags_filter_type: None,
        limit: Some(3),
        offset: Some(6),
    })
    .unwrap();
    assert_eq!(r.query.as_deref(), Some("q"));
    assert!(matches!(r.tags_filter, Some(TagFilter::Any)));
    assert_eq!(r.limit, Some(3));
    assert_eq!(r.offset, Some(6));
    assert!(search_request(SearchBookmarksParams {
        query: None,
        tags: Some(vec![]),
        tags_filter_type: Some("xor".into()),
        limit: None,
        offset: None,
    })
    .is_err());
}

#[test]
fn blank_tags_of_new_bookmark_are_dropped() {
    assert_eq!(
        create_bookmark_tags(Some(strings(&["a", " ", "", "b"]))),
        strings(&["a", "b"])
    );
    assert!(create_bookmark_tags(None).is_empty());
}

#[test]
fn tag_lookup_is_lower_case() {
    assert_eq!(
        tag_lookup_key(&GetBookmarksByTagParams { tag: "RuSt".into() }),
        "rust"
    );
}

#[test]
fn task_search_request_reads_status_and_last_task() {
    let r = task_search_request(list_params(
        Some("Done"),
        Some("67e55044-10b1-426f-9247-bb680e5fe0c8"),
    ))
    .unwrap();
    assert_eq!(r.status, Some(BookmarkTaskStatus::Done));
    assert_eq!(r.last_task_id, Some(0x67e5504410b1426f9247bb680e5fe0c8));
    assert_eq!(r.page_size, Some(3));
    assert_eq!(r.url.as_deref(), Some("x"));
    assert!(r.from_created_at.is_none() && r.to_created_at.is_none());
}

#[test]
fn task_search_request_reports_bad_values() {
    assert!(task_search_request(list_params(Some("later"), None)).is_err());
    match task_search_request(list_params(None, Some("nope"))) {
        Err(ToolError::InvalidParams(m)) => assert!(m.starts_with("invalid last_task_id: ")),
        other => panic!("unexpected {other:?}"),
    }
}

#[test]
fn errors_are_reported_by_kind() {
    assert_eq!(
        map_err(Error::NotFound),
        ToolError::ResourceNotFound("not_found".into())
    );
    assert_eq!(
        map_err(Error::InvalidToken),
        ToolError::InvalidParams("unauthorized".into())
    );
    assert_eq!(
        map_err(Error::BadRequest { errors: vec![] }),
        ToolError::InvalidParams("invalid_payload".into())
    );
    assert_eq!(
        map_err(Error::DatabaseError { message: "x".into() }),
        ToolError::Internal("database_error".into())
    );
}

#[test]
fn history_request_keeps_paging() {
    let r = rag_history_request(&RagHistoryParams { limit: Some(5), offset: None });
    assert_eq!(r.limit, Some(5));
    assert_eq!(r.offset, None);
}

#[test]
fn rag_query_request_passes_parameters_without_hybrid_search() {
    let params = RagQueryParams {
        question: "what is rust?".to_string(),
        max_chunks: Some(3),
        similarity_threshold: Some(0.5f64.to_bits()),
        max_context_tokens: None,
    };
    let request = rag_query_request(params);
    assert_eq!(request.question, "what is rust?");
    assert_eq!(request.max_chunks, Some(3));
    assert_eq!(request.similarity_threshold, Some(0.5f64.to_bits()));
    assert_eq!(request.max_context_tokens, None);
    assert!(request.hybrid_search.is_none());
}
