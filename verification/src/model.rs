//! The records the library reasons about, held as plain values: identifiers
//! are 128-bit integers, instants are microseconds since the Unix epoch.
use vstd::prelude::*;

verus! {

/// A saved bookmark.
#[derive(Debug, Clone)]
pub struct Bookmark {
    pub bookmark_id: String,
    pub user_id: u128,
    pub url: String,
    pub domain: String,
    pub title: String,
    pub tags: Option<Vec<String>>,
    pub summary: Option<String>,
    pub created_at: i64,
    pub updated_at: Option<i64>,
}

/// The state of an ingestion task.
#[derive(Debug, Clone, Copy, PartialEq, Eq, Structural)]
pub enum BookmarkTaskStatus {
    Done,
    Pending,
    Fail,
}

/// A queued request to fetch and save a URL.
#[derive(Debug, Clone)]
pub struct BookmarkTask {
    pub task_id: u128,
    pub user_id: u128,
    pub url: String,
    pub status: BookmarkTaskStatus,
    pub tags: Option<Vec<String>>,
    pub summary: Option<String>,
    pub created_at: i64,
    pub updated_at: i64,
    pub next_delivery: i64,
    pub retries: Option<i16>,
    pub fail_reason: Option<String>,
}

/// How a tag update combines with the tags already present.
#[derive(Debug, Clone)]
pub enum TagOperation {
    Replace(Vec<String>),
    Append(Vec<String>),
}

/// Which bookmarks a search keeps by their tags.
#[derive(Debug, Clone)]
pub enum TagFilter {
    And(Vec<String>),
    Or(Vec<String>),
    Any,
    Untagged,
}

/// A full-text and tag search over one user's bookmarks.
#[derive(Debug, Clone)]
pub struct SearchRequest {
    pub query: Option<String>,
    pub tags_filter: Option<TagFilter>,
    pub limit: Option<i32>,
    pub offset: Option<i32>,
}

/// A search over one user's ingestion tasks.
#[derive(Debug, Clone)]
pub struct BookmarkTaskSearchRequest {
    pub url: Option<String>,
    pub status: Option<BookmarkTaskStatus>,
    pub tags: Option<Vec<String>>,
    pub from_created_at: Option<i64>,
    pub to_created_at: Option<i64>,
    pub page_size: Option<u8>,
    pub last_task_id: Option<u128>,
}

/// A tag with the number of bookmarks carrying it.
#[derive(Debug, Clone)]
pub struct TagCount {
    pub tag: String,
    pub count: i64,
}

/// A list of tags.
#[derive(Debug, Clone)]
pub struct Tags {
    pub tags: Vec<String>,
}

/// Tags with their counters.
#[derive(Debug, Clone)]
pub struct TagsWithCounters {
    pub tags: Vec<TagCount>,
}

/// Tags with their counters, as the tag endpoint answers.
#[derive(Debug, Clone)]
pub struct TagsResponse {
    pub tags: Vec<TagCount>,
}

/// A request to save a URL with tags.
#[derive(Debug, Clone)]
pub struct NewBookmarkRequest {
    pub url: String,
    pub tags: Vec<String>,
}

/// The ways a search text may be read.
#[derive(Debug, Clone, Copy, PartialEq, Eq, Structural)]
pub enum SearchType {
    Query,
    Phrase,
}

/// The ways tags of a search may be combined.
#[derive(Debug, Clone, Copy, PartialEq, Eq, Structural)]
pub enum TagFilterType {
    Or,
    And,
}

impl SearchType {
    /// The default reading of a search text.
    pub fn default_type() -> (t: SearchType)
        ensures
            t == SearchType::Query,
    {
        SearchType::Query
    }
}

impl TagFilterType {
    /// The default combination of tags.
    pub fn default_type() -> (t: TagFilterType)
        ensures
            t == TagFilterType::Or,
    {
        TagFilterType::Or
    }
}

impl BookmarkTaskStatus {
    /// The default status.
    pub fn default_status() -> (s: BookmarkTaskStatus)
        ensures
            s == BookmarkTaskStatus::Done,
    {
        BookmarkTaskStatus::Done
    }
}

} // verus!
