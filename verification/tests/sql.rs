use bookmark_hub::model::{
    BookmarkTaskSearchRequest, BookmarkTaskStatus, SearchRequest, TagFilter, TagOperation,
};
use bookmark_hub::sql::{
    aggregation_statement, format_decimal, format_signed, search_statement, take_page,
    tag_update_statement, task_search_statement, total_statement, SqlValue, MERGE_TAGS_SQL,
    REPLACE_TAGS_SQL,
};

fn strings(v: &[&str]) -> Vec<String> {
    v.iter().map(|s| s.to_string()).collect()
}

fn request(query: Option<&str>, tags_filter: Option<TagFilter>) -> SearchRequest {
    SearchRequest {
        query: query.map(|q| q.to_string()),
        tags_filter,
        limit: None,
        offset: None,
    }
}

fn kinds(params: &[SqlValue]) -> Vec<String> {
    params
        .iter()
        .map(|p| match p {
            SqlValue::Uuid(u) => format!("uuid:{u}"),
            SqlValue::Text(t) => format!("text:{t}"),
            SqlValue::NullText => "null".to_string(),
            SqlValue::TextArray(v) => format!("tags:{}", v.join(",")),
            SqlValue::NullTextArray => "null-tags".to_string(),
            SqlValue::Status(s) => format!("status:{s:?}"),
            SqlValue::Timestamp(t) => format!("ts:{t}"),
        })
        .collect()
}

#[test]
fn decimals_are_written_without_leading_zeros() {
    assert_eq!(format_decimal(0), "0");
    assert_eq!(format_decimal(7), "7");
    assert_eq!(format_decimal(1230), "1230");
    assert_eq!(format_decimal(u64::MAX), u64::MAX.to_string());
    assert_eq!(format_signed(-45), "-45");
    assert_eq!(format_signed(20), "20");
}

#[test]
fn total_counts_user_bookmarks_matching_query_and_tags() {
    let st = total_statement(5, &request(Some("rust"), Some(TagFilter::And(strings(&["a", "b"])))));
    assert_eq!(
        st.sql,
        "SELECT COUNT(1) FROM bookmark b WHERE b.user_id = $1 AND b.search_tokens @@ websearch_to_tsquery('english', $2) AND b.tags @> $3"
    );
    assert_eq!(kinds(&st.params), vec!["uuid:5", "text:rust", "tags:a,b"]);
}

#[test]
fn total_without_query_binds_tags_second() {
    let st = total_statement(5, &request(None, Some(TagFilter::Or(strings(&["a"])))));
    assert_eq!(
        st.sql,
        "SELECT COUNT(1) FROM bookmark b WHERE b.user_id = $1 AND b.tags && $2"
    );
    assert_eq!(kinds(&st.params), vec!["uuid:5", "tags:a"]);
    let st = total_statement(5, &request(None, Some(TagFilter::Untagged)));
    assert_eq!(
        st.sql,
        "SELECT COUNT(1) FROM bookmark b WHERE b.user_id = $1 AND (b.tags IS NULL OR cardinality(b.tags) = 0)"
    );
    assert_eq!(kinds(&st.params), vec!["uuid:5"]);
    let st = total_statement(5, &request(None, Some(TagFilter::Any)));
    assert_eq!(st.sql, "SELECT COUNT(1) FROM bookmark b WHERE b.user_id = $1");
}

#[test]
fn aggregation_counts_tags_of_found_bookmarks() {
    let st = aggregation_statement(5, &request(Some("q"), None));
    assert_eq!(
        st.sql,
        "WITH tags AS (SELECT unnest(b.tags) AS tag FROM bookmark b WHERE b.user_id = $1 AND b.search_tokens @@ websearch_to_tsquery('english', $2)) SELECT tag, count(1) AS count FROM tags t GROUP BY tag"
    );
    assert_eq!(kinds(&st.params), vec!["uuid:5", "text:q"]);
}

#[test]
fn search_with_query_ranks_and_highlights() {
    let mut r = request(Some("rust"), Some(TagFilter::Or(strings(&["x"]))));
    r.limit = Some(5);
    r.offset = Some(10);
    let st = search_statement(5, &r);
    assert_eq!(
        st.sql,
        "SELECT ts_headline('english', b.text_content, websearch_to_tsquery('english', $1), 'StartSel=<mark>, StopSel=</mark>') AS search_match, b.* FROM bookmark b WHERE b.user_id = $2 AND b.search_tokens @@ websearch_to_tsquery('english', $1) AND b.tags && $3 ORDER BY ts_rank(b.search_tokens, websearch_to_tsquery('english', $1)) DESC LIMIT 5 OFFSET 10"
    );
    assert_eq!(kinds(&st.params), vec!["text:rust", "uuid:5", "tags:x"]);
}

#[test]
fn search_without_query_lists_newest_first() {
    let st = search_statement(5, &request(None, None));
    assert_eq!(
        st.sql,
        "SELECT $1::text AS search_match, b.* FROM bookmark b WHERE b.user_id = $2 ORDER BY b.created_at DESC LIMIT 20 "
    );
    assert_eq!(kinds(&st.params), vec!["null", "uuid:5"]);
}

#[test]
fn task_search_binds_each_given_filter_in_order() {
    let r = BookmarkTaskSearchRequest {
        url: Some("example".into()),
        status: Some(BookmarkTaskStatus::Fail),
        tags: Some(strings(&["t"])),
        from_created_at: Some(100),
        to_created_at: Some(200),
        page_size: Some(10),
        last_task_id: Some(42),
    };
    let st = task_search_statement(5, &r);
    assert_eq!(
        st.sql,
        "SELECT * FROM bookmark_task bt WHERE bt.user_id = $1 AND bt.url ILIKE $2 AND bt.tags @> $3 AND bt.status = $4 AND bt.task_id > $5 AND bt.created_at <= $6 AND bt.created_at >= $7 ORDER BY bt.task_id ASC LIMIT 11"
    );
    assert_eq!(
        kinds(&st.params),
        vec![
            "uuid:5",
            "text:%example%",
            "tags:t",
            "status:Fail",
            "uuid:42",
            "ts:200",
            "ts:100"
        ]
    );
}

#[test]
fn task_search_defaults_to_pages_of_twenty_five() {
    let r = BookmarkTaskSearchRequest {
        url: None,
        status: None,
        tags: Some(vec![]),
        from_created_at: None,
        to_created_at: None,
        page_size: None,
        last_task_id: None,
    };
    let st = task_search_statement(5, &r);
    assert_eq!(
        st.sql,
        "SELECT * FROM bookmark_task bt WHERE bt.user_id = $1 ORDER BY bt.task_id ASC LIMIT 26"
    );
    assert_eq!(kinds(&st.params), vec!["uuid:5"]);
}

#[test]
fn extra_row_tells_more_results_follow() {
    assert_eq!(take_page(vec![1, 2, 3], 2), (vec![1, 2], true));
    assert_eq!(take_page(vec![1, 2], 2), (vec![1, 2], false));
    assert_eq!(take_page(Vec::<i32>::new(), 0), (vec![], false));
}

#[test]
fn tag_replacement_binds_normalized_tags() {
    let st = tag_update_statement(5, "bm", &TagOperation::Replace(strings(&[" A", "a", "b"])));
    assert!(st.sql.starts_with("UPDATE bookmark\n         SET tags=$1,\n"));
    assert!(st.sql.ends_with("WHERE bookmark_id=$2 AND user_id=$3\n         RETURNING *;"));
    assert!(st.sql.contains(REPLACE_TAGS_SQL));
    assert_eq!(kinds(&st.params), vec!["tags:a,b", "text:bm", "uuid:5"]);
}

#[test]
fn tag_append_merges_and_binds_null_without_tags() {
    let st = tag_update_statement(5, "bm", &TagOperation::Append(strings(&[" "])));
    assert!(st.sql.contains(MERGE_TAGS_SQL));
    assert!(st.sql.contains("tag_status='done'"));
    assert_eq!(kinds(&st.params), vec!["null-tags", "text:bm", "uuid:5"]);
}

#[test]
fn url_filter_matches_the_literal_text_in_any_case() {
    let r = BookmarkTaskSearchRequest {
        url: Some("RUST_LANG%\\".into()),
        status: None,
        tags: None,
        from_created_at: None,
        to_created_at: None,
        page_size: None,
        last_task_id: None,
    };
    let st = task_search_statement(5, &r);
    assert_eq!(
        st.sql,
        "SELECT * FROM bookmark_task bt WHERE bt.user_id = $1 AND bt.url ILIKE $2 ORDER BY bt.task_id ASC LIMIT 26"
    );
    assert_eq!(kinds(&st.params), vec!["uuid:5", "text:%RUST\\_LANG\\%\\\\%"]);
}
