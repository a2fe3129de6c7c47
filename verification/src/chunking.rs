//! Splitting a text into overlapping windows of tokens, as the AI workers
//! analyse and embed it.
use cantrip::SequenceTo;
use vstd::prelude::*;

verus! {

#[verifier::external_type_specification]
#[verifier::external_body]
pub struct ExTokenizer(tokenizers::Tokenizer);

/// The number of windows of `size` items, `step` apart, that fit in `n`
/// items: none when `n < size`.
pub open spec fn window_count(n: int, size: int, step: int) -> int {
    if n < size {
        0
    } else {
        (n - size) / step + 1
    }
}

/// `w` is the list of windows of `ids`: window `k` holds the `size` items
/// starting at `k * step`, for every window that fits.
pub open spec fn is_windowing(ids: Seq<u32>, size: int, step: int, w: Seq<Seq<u32>>) -> bool {
    &&& w.len() == window_count(ids.len() as int, size, step)
    &&& forall|k: int|
        0 <= k < w.len() ==> #[trigger] w[k] == ids.subrange(k * step, k * step + size)
}

/// `SequenceTo::windowed` of `cantrip` on a vector: the windows of `size`
/// items that fit, each `step` after the previous (for a step not larger
/// than the size; the crate panics on a zero size or step).
#[verifier::external_body]
fn windowed_ids(ids: &Vec<u32>, size: usize, step: usize) -> (r: Vec<Vec<u32>>)
    requires
        0 < step <= size,
    ensures
        is_windowing(ids@, size as int, step as int, r@.map_values(|w: Vec<u32>| w@)),
{
    ids.windowed(size, step)
}

/// `Tokenizer::encode` without special tokens, keeping the token ids;
/// nothing where the tokenizer reports an error. The ids depend on the
/// loaded model, which has no plain-value form here, and for some models
/// (BPE with dropout, unigram sampling) on a random draw, so nothing more is
/// stated of them.
#[verifier::external_body]
fn encode_ids(tokenizer: &tokenizers::Tokenizer, text: &str) -> (r: Option<Vec<u32>>) {
    match tokenizer.encode(text, false) {
        Ok(encoding) => Some(encoding.get_ids().to_vec()),
        Err(_) => None,
    }
}

/// `Tokenizer::decode` skipping special tokens; nothing where the tokenizer
/// reports an error. The text depends on the loaded model, so nothing more
/// is stated of it.
#[verifier::external_body]
fn decode_ids(tokenizer: &tokenizers::Tokenizer, ids: &[u32]) -> (r: Option<String>) {
    tokenizer.decode(ids, true).ok()
}

/// Why a text could not be chunked or counted.
#[derive(Debug, Clone, Copy, PartialEq, Eq, Structural)]
pub enum TokenizerError {
    /// The tokenizer failed to encode the text.
    Encode,
    /// The tokenizer failed to decode a window.
    Decode,
}

/// The windows of token ids for chunks of `size` tokens whose neighbours
/// share `overlap` tokens.
pub fn token_windows(ids: &Vec<u32>, size: usize, overlap: usize) -> (r: Vec<Vec<u32>>)
    requires
        overlap < size,
    ensures
        is_windowing(ids@, size as int, size - overlap, r@.map_values(|w: Vec<u32>| w@)),
{
    windowed_ids(ids, size, size - overlap)
}

/// The number of tokens of a text.
pub fn count_tokens(tokenizer: &tokenizers::Tokenizer, text: &str) -> (r: Result<
    usize,
    TokenizerError,
>)
    ensures
        r matches Err(e) ==> e == TokenizerError::Encode,
{
    match encode_ids(tokenizer, text) {
        Some(ids) => Ok(ids.len()),
        None => Err(TokenizerError::Encode),
    }
}

/// Decodes each window into the text of one chunk, in order.
pub fn chunks_from_windows(tokenizer: &tokenizers::Tokenizer, windows: &Vec<Vec<u32>>) -> (r:
    Result<Vec<String>, TokenizerError>)
    ensures
        r matches Ok(chunks) ==> chunks@.len() == windows@.len(),
        r matches Err(e) ==> e == TokenizerError::Decode,
{
    let mut chunks: Vec<String> = Vec::new();
    let mut k: usize = 0;
    while k < windows.len()
        invariant
            0 <= k <= windows@.len(),
            chunks@.len() == k,
        decreases windows@.len() - k,
    {
        match decode_ids(tokenizer, windows[k].as_slice()) {
            Some(text) => chunks.push(text),
            None => return Err(TokenizerError::Decode),
        }
        k = k + 1;
    }
    Ok(chunks)
}

/// Splits a text into chunks of `size` tokens whose neighbours share
/// `overlap` tokens: one chunk per window of the text's token ids.
pub fn windowed_chunks(
    tokenizer: &tokenizers::Tokenizer,
    size: usize,
    overlap: usize,
    text: &str,
) -> (r: Result<Vec<String>, TokenizerError>)
    requires
        overlap < size,
    ensures
        r matches Ok(chunks) ==> exists|n: nat|
            chunks@.len() == #[trigger] window_count(n as int, size as int, size - overlap),
{
    let ids = match encode_ids(tokenizer, text) {
        Some(ids) => ids,
        None => return Err(TokenizerError::Encode),
    };
    let windows = token_windows(&ids, size, overlap);
    let r = chunks_from_windows(tokenizer, &windows);
    proof {
        if r is Ok {
            let n = ids@.len();
            assert(windows@.map_values(|w: Vec<u32>| w@).len() == windows@.len());
            assert(r->Ok_0@.len() == window_count(n as int, size as int, size - overlap));
        }
    }
    r
}

/// Law: consecutive windows share exactly `overlap` tokens: the last
/// `overlap` tokens of a window are the first of the next one.
pub proof fn law_windows_overlap(ids: Seq<u32>, size: int, overlap: int, w: Seq<Seq<u32>>, k: int)
    requires
        0 <= overlap < size,
        is_windowing(ids, size, size - overlap, w),
        0 <= k,
        k + 1 < w.len(),
    ensures
        w[k].subrange(size - overlap, size) == w[k + 1].subrange(0, overlap),
{
    let step = size - overlap;
    let n = ids.len() as int;
    assert(n >= size);
    assert(k + 1 <= (n - size) / step);
    assert((k + 1) * step <= n - size) by (nonlinear_arith)
        requires
            k + 1 <= (n - size) / step,
            step > 0,
            n - size >= 0,
    ;
    assert(k * step + step == (k + 1) * step) by (nonlinear_arith);
    assert(0 <= k * step) by (nonlinear_arith)
        requires
            k >= 0,
            step > 0,
    ;
    assert(w[k] == ids.subrange(k * step, k * step + size));
    assert(w[k + 1] == ids.subrange((k + 1) * step, (k + 1) * step + size));
    assert(w[k].subrange(step, size) =~= w[k + 1].subrange(0, overlap));
}

} // verus!
