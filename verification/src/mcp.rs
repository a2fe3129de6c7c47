//! The tools of the Model Context Protocol server: their parameters, how
//! those become requests, and how errors are reported to the client.
use crate::error::Error;
use crate::model::{BookmarkTaskSearchRequest, BookmarkTaskStatus, SearchRequest, TagFilter};
use crate::rag::{RagHistoryRequest, RagQueryRequest};
use crate::tags::{non_blank, retain_non_blank, texts};
use crate::text::{lowercase_chars, same_text, to_lowercase};
use vstd::prelude::*;

verus! {

/// Parameters of `get_bookmark`.
#[derive(Debug, Clone)]
pub struct GetBookmarkParams {
    /// The bookmark identifier (not the URL).
    pub bookmark_id: String,
}

/// Parameters of `create_bookmark`.
#[derive(Debug, Clone)]
pub struct CreateBookmarkParams {
    /// URL to save.
    pub url: String,
    /// Tags to attach; blank ones are ignored.
    pub tags: Option<Vec<String>>,
}

/// Parameters of `delete_bookmark`.
#[derive(Debug, Clone)]
pub struct DeleteBookmarkParams {
    pub bookmark_id: String,
}

/// Parameters of `get_bookmarks_by_tag`.
#[derive(Debug, Clone)]
pub struct GetBookmarksByTagParams {
    /// Tag to filter by, in any case.
    pub tag: String,
}

/// Parameters of `set_tags`.
#[derive(Debug, Clone)]
pub struct SetTagsParams {
    pub bookmark_id: String,
    /// Tags that replace the bookmark's tags.
    pub tags: Vec<String>,
}

/// Parameters of `append_tags`.
#[derive(Debug, Clone)]
pub struct AppendTagsParams {
    pub bookmark_id: String,
    /// Tags added to the bookmark's tags.
    pub tags: Vec<String>,
}

/// Parameters of `search_bookmarks`.
#[derive(Debug, Clone)]
pub struct SearchBookmarksParams {
    /// Full-text query; none lists the bookmarks.
    pub query: Option<String>,
    /// Tags to filter by, combined as `tags_filter_type` says.
    pub tags: Option<Vec<String>>,
    /// `and`, `or` (the default), `any` (tags ignored) or `untagged`.
    pub tags_filter_type: Option<String>,
    pub limit: Option<i32>,
    pub offset: Option<i32>,
}

/// Parameters of `list_tasks`.
#[derive(Debug, Clone)]
pub struct ListTasksParams {
    /// Text the task URLs contain, ignoring case.
    pub url: Option<String>,
    /// `pending`, `done` or `fail`, in any case.
    pub status: Option<String>,
    /// Tags the tasks all carry.
    pub tags: Option<Vec<String>>,
    pub page_size: Option<u8>,
    /// The task after which the page starts.
    pub last_task_id: Option<String>,
}

/// Parameters of `rag_history`.
#[derive(Debug, Clone)]
pub struct RagHistoryParams {
    /// Sessions to return (20 by default, 100 at most).
    pub limit: Option<usize>,
    pub offset: Option<usize>,
}

/// Parameters of `rag_query`. The similarity threshold is carried as the
/// bits of a 64-bit float.
#[derive(Debug, Clone)]
pub struct RagQueryParams {
    /// The question to answer from the content of the user's bookmarks.
    pub question: String,
    /// Chunks to retrieve (6 by default).
    pub max_chunks: Option<usize>,
    /// Least similarity for a chunk to be considered (0.3 by default).
    pub similarity_threshold: Option<u64>,
    /// Tokens of context handed to the model (4096 by default).
    pub max_context_tokens: Option<usize>,
}

/// An error reported to the client of a tool.
#[derive(Debug, Clone, PartialEq, Eq)]
pub enum ToolError {
    /// The parameters are wrong; the message says how.
    InvalidParams(String),
    /// What was asked for does not exist.
    ResourceNotFound(String),
    /// The server failed.
    Internal(String),
}

/// How an error of the service is reported by a tool: a missing resource,
/// authentication failures as invalid parameters, payload errors with their
/// message, anything else as an internal error with its message.
pub open spec fn tool_error_of(error: Error, message: Seq<char>) -> (int, Seq<char>) {
    match error {
        Error::NotFound => (1, "not_found"@),
        Error::Unauthorized => (0, "unauthorized"@),
        Error::InvalidToken => (0, "unauthorized"@),
        Error::WrongCredentials => (0, "unauthorized"@),
        Error::BadRequest { .. } => (0, message),
        Error::UnprocessableEntity { .. } => (0, message),
        _ => (2, message),
    }
}

/// The kind (0 invalid parameters, 1 not found, 2 internal) and message of
/// a tool error.
pub open spec fn tool_error_view(e: ToolError) -> (int, Seq<char>) {
    match e {
        ToolError::InvalidParams(m) => (0, m@),
        ToolError::ResourceNotFound(m) => (1, m@),
        ToolError::Internal(m) => (2, m@),
    }
}

/// Reports an error of the service to the client of a tool.
pub fn map_err(error: Error) -> (r: ToolError)
    ensures
        tool_error_view(r) == tool_error_of(error, error.message_of()),
{
    let message = String::from_str(error.message());
    match error {
        Error::NotFound => ToolError::ResourceNotFound(String::from_str("not_found")),
        Error::Unauthorized | Error::InvalidToken | Error::WrongCredentials => {
            ToolError::InvalidParams(String::from_str("unauthorized"))
        },
        Error::BadRequest { .. } | Error::UnprocessableEntity { .. } => ToolError::InvalidParams(
            message,
        ),
        _ => ToolError::Internal(message),
    }
}

/// The status named by a lower-cased text, if any.
pub open spec fn task_status_named(lower: Seq<char>) -> Option<BookmarkTaskStatus> {
    if lower == "pending"@ {
        Some(BookmarkTaskStatus::Pending)
    } else if lower == "done"@ {
        Some(BookmarkTaskStatus::Done)
    } else if lower == "fail"@ {
        Some(BookmarkTaskStatus::Fail)
    } else {
        None
    }
}

/// A text quoted in an error message: `'text'` after the given words.
pub open spec fn quoted(words: Seq<char>, text: Seq<char>) -> Seq<char> {
    words + "'"@ + text + "'"@
}

fn quote(words: &str, text: &str) -> (r: String)
    ensures
        r@ == quoted(words@, text@),
{
    String::from_str(words).concat("'").concat(text).concat("'")
}

/// Reads a task status in any case: `pending`, `done` or `fail`.
pub fn parse_task_status(s: &str) -> (r: Result<BookmarkTaskStatus, ToolError>)
    ensures
        match task_status_named(lowercase_chars(s@)) {
            Some(status) => r == Ok::<BookmarkTaskStatus, ToolError>(status),
            None => r matches Err(e) && tool_error_view(e) == (0int, quoted(
                "unknown status "@,
                lowercase_chars(s@),
            )),
        },
{
    let lower = to_lowercase(s);
    if same_text(lower.as_str(), "pending") {
        Ok(BookmarkTaskStatus::Pending)
    } else if same_text(lower.as_str(), "done") {
        Ok(BookmarkTaskStatus::Done)
    } else if same_text(lower.as_str(), "fail") {
        Ok(BookmarkTaskStatus::Fail)
    } else {
        Err(ToolError::InvalidParams(quote("unknown status ", lower.as_str())))
    }
}

/// The tag filter of a search: no tags, or `any`, keeps everything;
/// `untagged` keeps bookmarks without tags; `and` needs all the tags;
/// `or`, the default, any of them. Another combination is refused.
pub open spec fn search_filter_of(tags: Option<Vec<String>>, kind: Option<Seq<char>>) -> Option<
    TagFilter,
> {
    match tags {
        None => Some(TagFilter::Any),
        Some(t) => match kind {
            None => Some(TagFilter::Or(t)),
            Some(k) => if k == "any"@ {
                Some(TagFilter::Any)
            } else if k == "untagged"@ {
                Some(TagFilter::Untagged)
            } else if k == "and"@ {
                Some(TagFilter::And(t))
            } else if k == "or"@ {
                Some(TagFilter::Or(t))
            } else {
                None
            },
        },
    }
}

/// The tag filter of a search, or the error naming an unknown combination.
pub fn search_tags_filter(tags: Option<Vec<String>>, kind: Option<&str>) -> (r: Result<
    TagFilter,
    ToolError,
>)
    ensures
        match search_filter_of(
            tags,
            match kind {
                Some(k) => Some(k@),
                None => None,
            },
        ) {
            Some(f) => r == Ok::<TagFilter, ToolError>(f),
            None => r matches Err(e) && tool_error_view(e) == (0int, quoted(
                "unknown tags_filter_type "@,
                kind->0@,
            )),
        },
{
    match tags {
        None => Ok(TagFilter::Any),
        Some(t) => match kind {
            None => Ok(TagFilter::Or(t)),
            Some(k) => {
                if same_text(k, "any") {
                    Ok(TagFilter::Any)
                } else if same_text(k, "untagged") {
                    Ok(TagFilter::Untagged)
                } else if same_text(k, "and") {
                    Ok(TagFilter::And(t))
                } else if same_text(k, "or") {
                    Ok(TagFilter::Or(t))
                } else {
                    Err(ToolError::InvalidParams(quote("unknown tags_filter_type ", k)))
                }
            },
        },
    }
}

/// The search a `search_bookmarks` call asks for.
pub fn search_request(params: SearchBookmarksParams) -> (r: Result<SearchRequest, ToolError>)
    ensures
        match search_filter_of(
            params.tags,
            match params.tags_filter_type {
                Some(k) => Some(k@),
                None => None,
            },
        ) {
            Some(f) => r matches Ok(req) && req.query == params.query && req.tags_filter == Some(f)
                && req.limit == params.limit && req.offset == params.offset,
            None => r is Err,
        },
{
    let kind: Option<&str> = match &params.tags_filter_type {
        Some(k) => Some(k.as_str()),
        None => None,
    };
    let filter = search_tags_filter(params.tags, kind)?;
    Ok(SearchRequest {
        query: params.query,
        tags_filter: Some(filter),
        limit: params.limit,
        offset: params.offset,
    })
}

/// The tags of a new bookmark: those given, without the blank ones.
pub fn create_bookmark_tags(tags: Option<Vec<String>>) -> (r: Vec<String>)
    ensures
        texts(r@) == match tags {
            Some(t) => non_blank(texts(t@)),
            None => Seq::empty(),
        },
{
    match tags {
        Some(t) => retain_non_blank(t),
        None => Vec::new(),
    }
}

/// The tag looked up by `get_bookmarks_by_tag`: lower-cased.
pub fn tag_lookup_key(params: &GetBookmarksByTagParams) -> (r: String)
    ensures
        r@ == lowercase_chars(params.tag@),
{
    to_lowercase(params.tag.as_str())
}

/// `Uuid::parse_str` of a text, as a 128-bit value, or nothing where the
/// text is no UUID.
pub uninterp spec fn uuid_parse_of(text: Seq<char>) -> Option<u128>;

/// `uuid::Uuid::parse_str`; the value is named by `uuid_parse_of`, the
/// error given by its message.
#[verifier::external_body]
fn parse_uuid(text: &str) -> (r: Result<u128, String>)
    ensures
        match r {
            Ok(v) => uuid_parse_of(text@) == Some(v),
            Err(_) => uuid_parse_of(text@) is None,
        },
{
    uuid::Uuid::parse_str(text).map(|u| u.as_u128()).map_err(|e| e.to_string())
}

/// The task search a `list_tasks` call asks for: the status is read in any
/// case and the last task as a UUID; either failing is reported.
pub fn task_search_request(params: ListTasksParams) -> (r: Result<
    BookmarkTaskSearchRequest,
    ToolError,
>)
    ensures
        r matches Ok(req) ==> req.url == params.url && req.tags == params.tags && req.page_size
            == params.page_size && req.from_created_at is None && req.to_created_at is None
            && match params.status {
            Some(s) => task_status_named(lowercase_chars(s@)) == req.status,
            None => req.status is None,
        } && match params.last_task_id {
            Some(t) => uuid_parse_of(t@) == req.last_task_id,
            None => req.last_task_id is None,
        },
        (params.status matches Some(s) && task_status_named(lowercase_chars(s@)) is None) ==> r is Err,
        (params.last_task_id matches Some(t) && uuid_parse_of(t@) is None) ==> r is Err,
        ((params.status matches Some(s) ==> task_status_named(lowercase_chars(s@)) is Some) && (
        params.last_task_id matches Some(t) ==> uuid_parse_of(t@) is Some)) ==> r is Ok,
{
    let status = match &params.status {
        Some(s) => Some(parse_task_status(s.as_str())?),
        None => None,
    };
    let last_task_id = match &params.last_task_id {
        Some(t) => match parse_uuid(t.as_str()) {
            Ok(v) => Some(v),
            Err(e) => {
                return Err(ToolError::InvalidParams(String::from_str("invalid last_task_id: ").concat(
                    e.as_str(),
                )));
            },
        },
        None => None,
    };
    Ok(BookmarkTaskSearchRequest {
        url: params.url,
        status,
        tags: params.tags,
        from_created_at: None,
        to_created_at: None,
        page_size: params.page_size,
        last_task_id,
    })
}

/// The history page a `rag_history` call asks for.
pub fn rag_history_request(params: &RagHistoryParams) -> (r: RagHistoryRequest)
    ensures
        r.limit == params.limit,
        r.offset == params.offset,
{
    RagHistoryRequest { limit: params.limit, offset: params.offset }
}

/// The question request of a `rag_query` call: the parameters as given,
/// without hybrid search.
pub fn rag_query_request(params: RagQueryParams) -> (r: RagQueryRequest)
    ensures
        r.question == params.question,
        r.max_chunks == params.max_chunks,
        r.similarity_threshold == params.similarity_threshold,
        r.max_context_tokens == params.max_context_tokens,
        r.hybrid_search is None,
{
    RagQueryRequest {
        question: params.question,
        max_chunks: params.max_chunks,
        similarity_threshold: params.similarity_threshold,
        max_context_tokens: params.max_context_tokens,
        hybrid_search: None,
    }
}

} // verus!
