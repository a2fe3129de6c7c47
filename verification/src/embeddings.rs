//! Decisions of the embedding worker: which bookmarks get chunks embedded,
//! and into which chunks their text is cut.
use crate::bookmark::{embedding_required, needs_embedding};
use crate::chunking::{windowed_chunks, window_count, TokenizerError};
use crate::error::{field_errors_view, grouped, pairs_view, Error};
use vstd::prelude::*;

verus! {

/// The version of the embedding pipeline written with the chunks.
pub const EMBEDDING_PIPELINE_VERSION: i32 = 1;

/// Bookmarks claimed by one step of the worker.
pub const QUERY_LIMIT: usize = 5;

/// A bookmark claimed for embedding.
#[derive(Debug, Clone)]
pub struct EmbeddingCandidate {
    pub bookmark_id: String,
    pub user_id: u128,
    pub text_content: String,
    pub attempts: i16,
}

/// What the worker does with a claimed bookmark.
#[derive(Debug, Clone)]
pub enum EmbeddingPlan {
    /// Nothing to embed: the bookmark is marked done without chunks.
    DoneWithoutChunks,
    /// Embed each chunk, store them, then mark the bookmark done.
    Embed(Vec<String>),
}

/// The plan for the outcome of chunking a text: the chunking error as it
/// is, done without chunks where there are none, otherwise embedding
/// exactly those chunks in order.
pub open spec fn plan_of(
    chunks: Result<Vec<String>, TokenizerError>,
    r: Result<EmbeddingPlan, TokenizerError>,
) -> bool {
    match chunks {
        Err(e) => r == Err::<EmbeddingPlan, TokenizerError>(e),
        Ok(c) => if c@.len() == 0 {
            r matches Ok(EmbeddingPlan::DoneWithoutChunks)
        } else {
            r matches Ok(EmbeddingPlan::Embed(v)) && v@ == c@
        },
    }
}

/// What chunking a text into windows of `size` tokens, `step` apart, can
/// give: an error, or as many chunks as there are windows over some number
/// of tokens.
pub open spec fn chunking_outcome(chunks: Result<Vec<String>, TokenizerError>, size: int, step: int) -> bool {
    chunks matches Ok(c) ==> exists|n: nat| c@.len() == #[trigger] window_count(n as int, size, step)
}

/// The plan for the outcome of chunking a text.
pub fn plan_from_chunks(chunks: Result<Vec<String>, TokenizerError>) -> (r: Result<
    EmbeddingPlan,
    TokenizerError,
>)
    ensures
        plan_of(chunks, r),
{
    match chunks {
        Err(e) => Err(e),
        Ok(c) => if c.len() == 0 {
            Ok(EmbeddingPlan::DoneWithoutChunks)
        } else {
            Ok(EmbeddingPlan::Embed(c))
        },
    }
}

/// A text shorter than 200 bytes is done without chunks, and is not
/// chunked. A longer one is cut into windows of `size` tokens overlapping
/// by `overlap` (`windowed_chunks`), and the plan is `plan_from_chunks` of
/// what that gives. The chunks come from the tokenizer, which is not
/// stated, so of them only what holds of every outcome is said.
pub fn embedding_plan(
    tokenizer: &tokenizers::Tokenizer,
    candidate: &EmbeddingCandidate,
    size: usize,
    overlap: usize,
) -> (r: Result<EmbeddingPlan, TokenizerError>)
    requires
        overlap < size,
    ensures
        !needs_embedding(candidate.text_content@) ==> r matches Ok(
            EmbeddingPlan::DoneWithoutChunks,
        ),
        needs_embedding(candidate.text_content@) ==> exists|
            chunks: Result<Vec<String>, TokenizerError>,
        | chunking_outcome(chunks, size as int, size - overlap) && #[trigger] plan_of(chunks, r),
{
    if !embedding_required(candidate.text_content.as_str()) {
        return Ok(EmbeddingPlan::DoneWithoutChunks);
    }
    let chunks = windowed_chunks(tokenizer, size, overlap, candidate.text_content.as_str());
    let ghost outcome = chunks;
    let r = plan_from_chunks(chunks);
    assert(chunking_outcome(outcome, size as int, size - overlap));
    assert(plan_of(outcome, r));
    r
}

/// Chunks are stored only with one embedding each; otherwise the request is
/// refused, naming the chunks.
pub fn check_chunk_embeddings(chunks: usize, embeddings: usize) -> (r: Result<(), Error>)
    ensures
        chunks == embeddings ==> r is Ok,
        chunks != embeddings ==> (r matches Err(Error::BadRequest { errors })
            && field_errors_view(errors@) == grouped(
            seq![("chunks"@, "Chunks and embeddings length mismatch"@)],
        )),
{
    if chunks == embeddings {
        return Ok(());
    }
    let mut errors: Vec<(String, String)> = Vec::new();
    errors.push((String::from_str("chunks"), String::from_str("Chunks and embeddings length mismatch")));
    assert(pairs_view(errors@) =~= seq![("chunks"@, "Chunks and embeddings length mismatch"@)]);
    Err(Error::bad_request(errors))
}

} // verus!
