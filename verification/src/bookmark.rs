//! Bookmark records as they are written: initial generation states, tag and
//! summary updates, and the failure reasons kept with a record.
use crate::identity::{canonical_text, canonicalize_url_str, IdentityError};
use crate::model::{Bookmark, TagOperation};
use crate::tags::{normalized_tag_option, normalized_tags, texts};
use crate::text::{is_blank, lemma_trim_idempotent, trim, trim_chars, truncate_chars};
use vstd::prelude::*;

verus! {

/// Bytes of text below which a bookmark gets no embeddings.
pub const MIN_EMBEDDING_TEXT_BYTES: usize = 200;

/// Characters of a failure reason that are kept.
pub const MAX_FAILURE_REASON_LEN: usize = 2048;

/// The state of one kind of AI generation for a bookmark.
#[derive(Debug, Clone, Copy, PartialEq, Eq, Structural)]
pub enum AiGenerationStatus {
    Pending,
    Done,
    Fail,
}

/// Tags given at creation mean that no tags need generating.
pub fn status_for_initial_tags(tags: Option<&[String]>) -> (s: AiGenerationStatus)
    ensures
        s == (if tags matches Some(t) && t@.len() > 0 {
            AiGenerationStatus::Done
        } else {
            AiGenerationStatus::Pending
        }),
{
    match tags {
        Some(tags) if tags.len() > 0 => AiGenerationStatus::Done,
        _ => AiGenerationStatus::Pending,
    }
}

/// A non-blank summary given at creation means that none needs generating.
pub fn status_for_initial_summary(summary: Option<&str>) -> (s: AiGenerationStatus)
    ensures
        s == (if summary matches Some(t) && !is_blank(t@) {
            AiGenerationStatus::Done
        } else {
            AiGenerationStatus::Pending
        }),
{
    match summary {
        Some(summary) => {
            if !crate::text::blank(summary) {
                AiGenerationStatus::Done
            } else {
                AiGenerationStatus::Pending
            }
        },
        None => AiGenerationStatus::Pending,
    }
}

/// Text generation is done once both the summary and the tags are done.
pub fn status_for_initial_text_ai(
    summary_status: AiGenerationStatus,
    tag_status: AiGenerationStatus,
) -> (s: AiGenerationStatus)
    ensures
        s == (if summary_status == AiGenerationStatus::Done && tag_status
            == AiGenerationStatus::Done {
            AiGenerationStatus::Done
        } else {
            AiGenerationStatus::Pending
        }),
{
    if summary_status == AiGenerationStatus::Done && tag_status == AiGenerationStatus::Done {
        AiGenerationStatus::Done
    } else {
        AiGenerationStatus::Pending
    }
}

/// Whether a text is long enough (in UTF-8 bytes) to be embedded.
pub open spec fn needs_embedding(text: Seq<char>) -> bool {
    vstd::utf8::encode_utf8(text).len() >= MIN_EMBEDDING_TEXT_BYTES
}

/// Texts of at least 200 bytes wait for embeddings; shorter ones need none.
pub fn status_for_initial_embeddings(text_content: &str) -> (s: AiGenerationStatus)
    ensures
        s == (if needs_embedding(text_content@) {
            AiGenerationStatus::Pending
        } else {
            AiGenerationStatus::Done
        }),
{
    if text_content.as_bytes().len() >= MIN_EMBEDDING_TEXT_BYTES {
        AiGenerationStatus::Pending
    } else {
        AiGenerationStatus::Done
    }
}

/// Whether a text is embedded (at least 200 UTF-8 bytes).
pub fn embedding_required(text_content: &str) -> (b: bool)
    ensures
        b == needs_embedding(text_content@),
{
    text_content.as_bytes().len() >= MIN_EMBEDDING_TEXT_BYTES
}

/// A failure reason cut to its first 2048 characters.
pub fn truncate_fail_reason(fail_reason: &str) -> (r: String)
    ensures
        r@ == crate::text::first_chars(fail_reason@, MAX_FAILURE_REASON_LEN as nat),
{
    truncate_chars(fail_reason, MAX_FAILURE_REASON_LEN)
}

/// A summary as it is stored: trimmed, and absent when blank.
pub open spec fn stored_summary(summary: Seq<char>) -> Option<Seq<char>> {
    if is_blank(summary) {
        None
    } else {
        Some(trim_chars(summary))
    }
}

/// The stored form of a summary.
pub fn summary_value(summary: &str) -> (r: Option<String>)
    ensures
        match r {
            Some(s) => stored_summary(summary@) == Some(s@),
            None => stored_summary(summary@) is None,
        },
{
    let t = trim(summary);
    if t.is_empty() {
        None
    } else {
        Some(t.to_owned())
    }
}

/// How the stored tags are combined with new ones.
#[derive(Debug, Clone, Copy, PartialEq, Eq, Structural)]
pub enum TagUpdateMode {
    /// The new tags replace the stored ones.
    Replace,
    /// The new tags are added to the stored ones, each kept once.
    Merge,
}

/// What a tag update writes: the mode and the normalized tags.
pub fn tag_update(operation: &TagOperation) -> (r: (TagUpdateMode, Option<Vec<String>>))
    ensures
        r.0 == (match operation {
            TagOperation::Replace(_) => TagUpdateMode::Replace,
            TagOperation::Append(_) => TagUpdateMode::Merge,
        }),
        ({
            let given = match operation {
                TagOperation::Replace(t) => t@,
                TagOperation::Append(t) => t@,
            };
            match r.1 {
                Some(v) => texts(v@) == normalized_tags(texts(given)) && v@.len() > 0,
                None => normalized_tags(texts(given)).len() == 0,
            }
        }),
{
    match operation {
        TagOperation::Replace(tags) => (TagUpdateMode::Replace, normalized_tag_option(tags.as_slice())),
        TagOperation::Append(tags) => (TagUpdateMode::Merge, normalized_tag_option(tags.as_slice())),
    }
}

/// What is written when a bookmark is saved, besides its own fields.
#[derive(Debug, Clone)]
pub struct SaveRecord {
    /// The canonical form of the bookmark's URL, unique per user.
    pub canonical_url: String,
    pub tags: Option<Vec<String>>,
    pub summary: Option<String>,
    pub summary_status: AiGenerationStatus,
    pub tag_status: AiGenerationStatus,
    pub text_ai_status: AiGenerationStatus,
    pub embedding_status: AiGenerationStatus,
}

/// The record of a bookmark being saved: its canonical URL (the save fails
/// without one), its normalized tags, its stored summary, and the initial
/// state of each AI generation: done for what was given, pending for the
/// rest; embeddings pending only for texts of 200 bytes or more.
pub fn save_record(bookmark: &Bookmark, text_content: &str) -> (r: Result<SaveRecord, IdentityError>)
    ensures
        canonical_text(bookmark.url@) is None <==> r is Err,
        r matches Ok(rec) ==> {
            &&& Some(rec.canonical_url@) == canonical_text(bookmark.url@)
            &&& match bookmark.tags {
                Some(t) => match rec.tags {
                    Some(v) => texts(v@) == normalized_tags(texts(t@)) && v@.len() > 0,
                    None => normalized_tags(texts(t@)).len() == 0,
                },
                None => rec.tags is None,
            }
            &&& match bookmark.summary {
                Some(s) => match rec.summary {
                    Some(v) => stored_summary(s@) == Some(v@),
                    None => stored_summary(s@) is None,
                },
                None => rec.summary is None,
            }
            &&& rec.summary_status == (if rec.summary is Some {
                AiGenerationStatus::Done
            } else {
                AiGenerationStatus::Pending
            })
            &&& rec.tag_status == (if rec.tags is Some {
                AiGenerationStatus::Done
            } else {
                AiGenerationStatus::Pending
            })
            &&& rec.text_ai_status == (if rec.summary is Some && rec.tags is Some {
                AiGenerationStatus::Done
            } else {
                AiGenerationStatus::Pending
            })
            &&& rec.embedding_status == (if needs_embedding(text_content@) {
                AiGenerationStatus::Pending
            } else {
                AiGenerationStatus::Done
            })
        },
{
    let canonical_url = match canonicalize_url_str(bookmark.url.as_str()) {
        Ok(c) => c,
        Err(e) => return Err(e),
    };
    let tags = match &bookmark.tags {
        Some(t) => normalized_tag_option(t.as_slice()),
        None => None,
    };
    let summary = match &bookmark.summary {
        Some(s) => summary_value(s.as_str()),
        None => None,
    };
    let summary_status = match &summary {
        Some(s) => status_for_initial_summary(Some(s.as_str())),
        None => status_for_initial_summary(None),
    };
    proof {
        if summary is Some {
            let v = summary->0@;
            assert(v == trim_chars(bookmark.summary->0@));
            lemma_trim_idempotent(bookmark.summary->0@);
        }
    }
    let tag_status = match &tags {
        Some(t) => status_for_initial_tags(Some(t.as_slice())),
        None => status_for_initial_tags(None),
    };
    let text_ai_status = status_for_initial_text_ai(summary_status, tag_status);
    let embedding_status = status_for_initial_embeddings(text_content);
    Ok(
        SaveRecord {
            canonical_url,
            tags,
            summary,
            summary_status,
            tag_status,
            text_ai_status,
            embedding_status,
        },
    )
}

} // verus!
