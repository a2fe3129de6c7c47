//! Retrieval-augmented question answering: request validation, the choice
//! of search mode, question variations and the token budget of the context.
//!
//! Floating-point settings are carried as the IEEE-754 bit patterns of the
//! `f64` values (`f64::to_bits`), so that every decision taken on them is
//! made on integers.
use crate::error::{grouped, pairs_view, field_errors_view, Error};
use vstd::prelude::*;

verus! {

/// Chunks retrieved when the request does not say.
pub const DEFAULT_MAX_CHUNKS: usize = 6;

/// Context tokens allowed when the request does not say.
pub const DEFAULT_MAX_CONTEXT_TOKENS: usize = 4096;

/// Tokens set aside for the prompt around the context.
pub const PROMPT_OVERHEAD_TOKENS: usize = 200;

/// The constant of reciprocal rank fusion when the request does not say.
pub const DEFAULT_RRF_K: u32 = 60;

/// Bits of the `f64` 0.5, the default weight of each search in a weighted
/// hybrid search.
pub const DEFAULT_WEIGHT_BITS: u64 = 0x3FE0_0000_0000_0000;

/// Bits of the `f64` 0.3, the default similarity threshold.
pub const DEFAULT_SIMILARITY_THRESHOLD_BITS: u64 = 0x3FD3_3333_3333_3333;

/// The answer given when no context was found.
pub const NO_CONTEXT_ANSWER: &'static str =
    "I couldn't find any relevant information in your bookmarks to answer this question.";

/// Settings of a search that combines vector similarity and full text.
#[derive(Debug, Clone)]
pub struct HybridSearchConfig {
    pub enabled: bool,
    pub use_rrf: Option<bool>,
    pub rrf_k: Option<u32>,
    /// Bits of an `f64`.
    pub vector_weight: Option<u64>,
    /// Bits of an `f64`.
    pub fts_weight: Option<u64>,
}

/// A question to answer from the user's bookmarks.
#[derive(Debug, Clone)]
pub struct RagQueryRequest {
    pub question: String,
    pub max_chunks: Option<usize>,
    /// Bits of an `f64`.
    pub similarity_threshold: Option<u64>,
    pub max_context_tokens: Option<usize>,
    pub hybrid_search: Option<HybridSearchConfig>,
}

/// A page of past questions.
#[derive(Debug, Clone)]
pub struct RagHistoryRequest {
    pub limit: Option<usize>,
    pub offset: Option<usize>,
}

/// The `f64` with these bits is finite (neither infinite nor NaN).
pub open spec fn bits_finite(b: u64) -> bool {
    (b >> 52u64) & 0x7ffu64 != 0x7ffu64
}

/// The `f64` with these bits, when not NaN, is below zero.
pub open spec fn bits_negative(b: u64) -> bool {
    (b >> 63u64) == 1u64 && (b & 0x7fff_ffff_ffff_ffffu64) != 0u64
}

/// The `f64` with these bits is zero (of either sign).
pub open spec fn bits_zero(b: u64) -> bool {
    (b & 0x7fff_ffff_ffff_ffffu64) == 0u64
}

/// The field errors of one weight.
pub open spec fn weight_errors(field: Seq<char>, bits: u64) -> Seq<(Seq<char>, Seq<char>)> {
    if !bits_finite(bits) {
        seq![(field, "must be a finite number"@)]
    } else if bits_negative(bits) {
        seq![(field, "must be greater than or equal to 0"@)]
    } else {
        Seq::empty()
    }
}

/// The field errors of a weighted hybrid search. For finite, non-negative
/// weights the floating-point sum is at most zero exactly when both weights
/// are zero, so that is the condition of the last error.
pub open spec fn hybrid_config_errors(config: HybridSearchConfig) -> Seq<(Seq<char>, Seq<char>)> {
    let v = match config.vector_weight {
        Some(b) => b,
        None => DEFAULT_WEIGHT_BITS,
    };
    let f = match config.fts_weight {
        Some(b) => b,
        None => DEFAULT_WEIGHT_BITS,
    };
    let errors = weight_errors("vector_weight"@, v) + weight_errors("fts_weight"@, f);
    if errors.len() == 0 && bits_zero(v) && bits_zero(f) {
        seq![("hybrid_search"@, "vector_weight and fts_weight cannot both be zero"@)]
    } else {
        errors
    }
}

fn push_weight_errors(errors: &mut Vec<(String, String)>, field: &'static str, bits: u64)
    ensures
        pairs_view(final(errors)@) == pairs_view(old(errors)@) + weight_errors(field@, bits),
{
    if (bits >> 52u64) & 0x7ffu64 == 0x7ffu64 {
        errors.push((field.to_owned(), "must be a finite number".to_owned()));
    } else if (bits >> 63u64) == 1u64 && (bits & 0x7fff_ffff_ffff_ffffu64) != 0u64 {
        errors.push((field.to_owned(), "must be greater than or equal to 0".to_owned()));
    }
    assert(pairs_view(errors@) =~= pairs_view(old(errors)@) + weight_errors(field@, bits));
}

/// Checks the weights of a weighted hybrid search: each must be finite and
/// not below zero, and they must not both be zero.
pub fn validate_weighted_hybrid_config(config: &HybridSearchConfig) -> (r: Result<(), Error>)
    ensures
        match r {
            Ok(()) => hybrid_config_errors(*config).len() == 0,
            Err(e) => hybrid_config_errors(*config).len() > 0 && (e matches Error::UnprocessableEntity {
                errors: g,
            } && field_errors_view(g@) == grouped(hybrid_config_errors(*config))),
        },
{
    let vector_weight = match config.vector_weight {
        Some(b) => b,
        None => DEFAULT_WEIGHT_BITS,
    };
    let fts_weight = match config.fts_weight {
        Some(b) => b,
        None => DEFAULT_WEIGHT_BITS,
    };
    let mut errors: Vec<(String, String)> = Vec::new();
    push_weight_errors(&mut errors, "vector_weight", vector_weight);
    push_weight_errors(&mut errors, "fts_weight", fts_weight);
    assert(pairs_view(errors@) =~= weight_errors("vector_weight"@, vector_weight) + weight_errors(
        "fts_weight"@,
        fts_weight,
    ));
    if errors.len() == 0 && (vector_weight & 0x7fff_ffff_ffff_ffffu64) == 0u64 && (fts_weight
        & 0x7fff_ffff_ffff_ffffu64) == 0u64 {
        errors.push(
            ("hybrid_search".to_owned(), "vector_weight and fts_weight cannot both be zero".to_owned()),
        );
        assert(pairs_view(errors@) =~= hybrid_config_errors(*config));
    }
    if errors.len() == 0 {
        Ok(())
    } else {
        Err(Error::unprocessable_entity(errors))
    }
}

/// Whether a request asks for a weighted (not rank-fused) hybrid search.
pub open spec fn asks_weighted_hybrid(request: RagQueryRequest) -> bool {
    request.hybrid_search matches Some(c) && c.enabled && c.use_rrf == Some(false)
}

/// Checks a question request: only a weighted hybrid search has settings
/// that can be wrong.
pub fn validate_rag_query_request(request: &RagQueryRequest) -> (r: Result<(), Error>)
    ensures
        !asks_weighted_hybrid(*request) ==> r is Ok,
        asks_weighted_hybrid(*request) ==> match r {
            Ok(()) => hybrid_config_errors(request.hybrid_search->0).len() == 0,
            Err(e) => hybrid_config_errors(request.hybrid_search->0).len() > 0 && (
            e matches Error::UnprocessableEntity { errors: g } && field_errors_view(g@) == grouped(
                hybrid_config_errors(request.hybrid_search->0),
            )),
        },
{
    let config = match request.hybrid_search.as_ref() {
        Some(c) => c,
        None => return Ok(()),
    };
    let use_rrf = match config.use_rrf {
        Some(b) => b,
        None => true,
    };
    if !config.enabled || use_rrf {
        return Ok(());
    }
    validate_weighted_hybrid_config(config)
}

/// How the chunks of a question are searched.
#[derive(Debug, Clone, Copy, PartialEq, Eq, Structural)]
pub enum SearchMode {
    /// Vector similarity only.
    Vector,
    /// Vector and full text, combined by reciprocal rank fusion with `k`.
    RankFusion { k: u32 },
    /// Vector and full text, combined by weights (bits of `f64`).
    Weighted { vector_weight: u64, fts_weight: u64 },
}

/// The search mode a request asks for, with the defaults filled in.
pub open spec fn search_mode_of(request: RagQueryRequest) -> SearchMode {
    match request.hybrid_search {
        Some(c) if c.enabled => if c.use_rrf != Some(false) {
            SearchMode::RankFusion {
                k: match c.rrf_k {
                    Some(k) => k,
                    None => DEFAULT_RRF_K,
                },
            }
        } else {
            SearchMode::Weighted {
                vector_weight: match c.vector_weight {
                    Some(b) => b,
                    None => DEFAULT_WEIGHT_BITS,
                },
                fts_weight: match c.fts_weight {
                    Some(b) => b,
                    None => DEFAULT_WEIGHT_BITS,
                },
            }
        },
        _ => SearchMode::Vector,
    }
}

/// The search mode of a request.
pub fn search_mode(request: &RagQueryRequest) -> (m: SearchMode)
    ensures
        m == search_mode_of(*request),
{
    match &request.hybrid_search {
        Some(c) => {
            if !c.enabled {
                return SearchMode::Vector;
            }
            let use_rrf = match c.use_rrf {
                Some(b) => b,
                None => true,
            };
            if use_rrf {
                let k = match c.rrf_k {
                    Some(k) => k,
                    None => DEFAULT_RRF_K,
                };
                SearchMode::RankFusion { k }
            } else {
                let vector_weight = match c.vector_weight {
                    Some(b) => b,
                    None => DEFAULT_WEIGHT_BITS,
                };
                let fts_weight = match c.fts_weight {
                    Some(b) => b,
                    None => DEFAULT_WEIGHT_BITS,
                };
                SearchMode::Weighted { vector_weight, fts_weight }
            }
        },
        None => SearchMode::Vector,
    }
}

/// The number of chunks kept for the answer.
pub fn max_chunks(request: &RagQueryRequest) -> (n: usize)
    ensures
        n == match request.max_chunks {
            Some(n) => n,
            None => DEFAULT_MAX_CHUNKS,
        },
{
    match request.max_chunks {
        Some(n) => n,
        None => DEFAULT_MAX_CHUNKS,
    }
}

/// The number of chunks asked of each search: twice the number kept.
pub fn search_limit(request: &RagQueryRequest) -> (n: usize)
    requires
        match request.max_chunks {
            Some(n) => n <= usize::MAX / 2,
            None => true,
        },
    ensures
        n == 2 * match request.max_chunks {
            Some(n) => n,
            None => DEFAULT_MAX_CHUNKS,
        },
{
    max_chunks(request) * 2
}

/// The similarity threshold of a request (bits of an `f64`).
pub fn similarity_threshold(request: &RagQueryRequest) -> (b: u64)
    ensures
        b == match request.similarity_threshold {
            Some(b) => b,
            None => DEFAULT_SIMILARITY_THRESHOLD_BITS,
        },
{
    match request.similarity_threshold {
        Some(b) => b,
        None => DEFAULT_SIMILARITY_THRESHOLD_BITS,
    }
}

/// The context token limit of a request.
pub fn max_context_tokens(request: &RagQueryRequest) -> (n: usize)
    ensures
        n == match request.max_context_tokens {
            Some(n) => n,
            None => DEFAULT_MAX_CONTEXT_TOKENS,
        },
{
    match request.max_context_tokens {
        Some(n) => n,
        None => DEFAULT_MAX_CONTEXT_TOKENS,
    }
}

/// The questions searched for: the original first, then the variations
/// when they could be generated.
pub fn query_variations(question: String, similar: Option<Vec<String>>) -> (qs: Vec<String>)
    ensures
        qs@ == seq![question] + match similar {
            Some(v) => v@,
            None => Seq::<String>::empty(),
        },
{
    let mut questions: Vec<String> = Vec::new();
    questions.push(question);
    match similar {
        Some(mut v) => {
            questions.append(&mut v);
        },
        None => {},
    }
    questions
}

/// The positions of the first occurrence of each identifier among the
/// first `n`, in order.
pub open spec fn first_positions(ids: Seq<u128>, n: nat) -> Seq<int>
    decreases n,
{
    if n == 0 || n > ids.len() {
        Seq::empty()
    } else {
        let r = first_positions(ids, (n - 1) as nat);
        if ids.take(n - 1).contains(ids[n - 1]) {
            r
        } else {
            r.push(n - 1)
        }
    }
}

/// The retrieved chunks kept, by position: the first match of each chunk
/// (the best, matches being ordered by score), at most `limit` of them.
pub fn distinct_chunk_positions(ids: &[u128], limit: usize) -> (r: Vec<usize>)
    ensures
        r@.map_values(|p: usize| p as int) == first_positions(ids@, ids@.len()).take(
            if limit < first_positions(ids@, ids@.len()).len() {
                limit as int
            } else {
                first_positions(ids@, ids@.len()).len() as int
            },
        ),
{
    let mut out: Vec<usize> = Vec::new();
    let mut i: usize = 0;
    while i < ids.len()
        invariant
            0 <= i <= ids@.len(),
            out@.len() <= limit,
            out@.len() <= first_positions(ids@, i as nat).len(),
            out@.map_values(|p: usize| p as int) == first_positions(ids@, i as nat).take(
                out@.len() as int,
            ),
            out@.len() < limit ==> out@.len() == first_positions(ids@, i as nat).len(),
        decreases ids@.len() - i,
    {
        let mut seen = false;
        let mut j: usize = 0;
        while j < i
            invariant
                0 <= j <= i < ids@.len(),
                seen <==> ids@.take(j as int).contains(ids@[i as int]),
            decreases i - j,
        {
            let ghost prev = ids@.take(j as int);
            let ghost next = ids@.take(j + 1);
            if ids[j] == ids[i] {
                seen = true;
                assert(next[j as int] == ids@[i as int]);
            }
            proof {
                let x = ids@[i as int];
                if next.contains(x) && ids@[j as int] != x {
                    let q = choose|q: int| 0 <= q < next.len() && next[q] == x;
                    assert(prev[q] == next[q]);
                }
                if prev.contains(x) {
                    let q = choose|q: int| 0 <= q < prev.len() && prev[q] == x;
                    assert(next[q] == prev[q]);
                }
            }
            j = j + 1;
        }
        let ghost before = first_positions(ids@, i as nat);
        assert(first_positions(ids@, (i + 1) as nat) == if seen {
            before
        } else {
            before.push(i as int)
        });
        if !seen && out.len() < limit {
            let ghost old_map = out@.map_values(|p: usize| p as int);
            assert(before.take(before.len() as int) =~= before);
            out.push(i);
            assert(out@.map_values(|p: usize| p as int) =~= old_map.push(i as int));
            assert(out@.map_values(|p: usize| p as int) =~= before.push(i as int).take(
                out@.len() as int,
            ));
        } else if !seen {
            assert(before.push(i as int).take(out@.len() as int) =~= before.take(out@.len() as int));
        }
        i = i + 1;
    }
    out
}

/// How the answer to a question is made.
#[derive(Debug, Clone, Copy, PartialEq, Eq, Structural)]
pub enum AnswerPlan {
    /// No chunk was kept: the answer is `NO_CONTEXT_ANSWER`.
    NoContext,
    /// The model answers from the kept chunks.
    FromContext,
}

/// The answer is the fixed no-context answer exactly when no chunk was kept
/// within the budget; otherwise the model answers from the kept chunks.
pub fn answer_plan(kept: usize) -> (r: AnswerPlan)
    ensures
        (r == AnswerPlan::NoContext) <==> kept == 0,
{
    if kept == 0 {
        AnswerPlan::NoContext
    } else {
        AnswerPlan::FromContext
    }
}

/// Whether a retrieved chunk stays in the answer's context after its
/// relevance was assessed: it stays when judged relevant, and also when the
/// assessment could not be made (`None`).
pub fn keeps_chunk(assessment: Option<bool>) -> (keep: bool)
    ensures
        keep == match assessment {
            Some(relevant) => relevant,
            None => true,
        },
{
    match assessment {
        Some(relevant) => relevant,
        None => true,
    }
}

/// The tokens of a chunk: the count when it could be made, otherwise an
/// estimate of one token per four bytes of text.
pub fn token_estimate(counted: Option<usize>, text: &str) -> (n: usize)
    ensures
        n == match counted {
            Some(c) => c,
            None => (text.len() / 4) as usize,
        },
{
    match counted {
        Some(c) => c,
        None => text.len() / 4,
    }
}

/// The number of leading chunks, with the given token counts, that fit one
/// after the other into `available` tokens; selection stops at the first
/// chunk that does not fit.
pub open spec fn fitting_prefix(counts: Seq<usize>, available: nat) -> nat
    decreases counts.len(),
{
    if counts.len() == 0 || counts[0] > available {
        0
    } else {
        1 + fitting_prefix(counts.drop_first(), (available - counts[0]) as nat)
    }
}

/// Sum of a list of token counts.
pub open spec fn total_tokens(counts: Seq<usize>) -> nat
    decreases counts.len(),
{
    if counts.len() == 0 {
        0
    } else {
        total_tokens(counts.drop_last()) + (counts.last() as nat)
    }
}

/// Tokens left for context once the prompt overhead is set aside.
pub open spec fn available_tokens(max_tokens: usize) -> nat {
    if max_tokens >= PROMPT_OVERHEAD_TOKENS {
        (max_tokens - PROMPT_OVERHEAD_TOKENS) as nat
    } else {
        0
    }
}

proof fn lemma_fitting_prefix_step(counts: Seq<usize>, available: nat, i: nat)
    requires
        i < counts.len(),
        total_tokens(counts.take(i as int)) <= available,
    ensures
        fitting_prefix(counts, available) >= i ==> (fitting_prefix(counts, available) == i
            <==> counts[i as int] > available - total_tokens(counts.take(i as int))),
    decreases i,
{
    if i > 0 {
        let rest = counts.drop_first();
        assert(counts.take(i as int) =~= seq![counts[0]] + rest.take(i - 1));
        lemma_total_cons(counts[0], rest.take(i - 1));
        lemma_fitting_prefix_step(rest, (available - counts[0]) as nat, (i - 1) as nat);
        assert(rest[i - 1] == counts[i as int]);
    }
}

proof fn lemma_total_cons(x: usize, s: Seq<usize>)
    ensures
        total_tokens(seq![x] + s) == x + total_tokens(s),
    decreases s.len(),
{
    if s.len() > 0 {
        lemma_total_cons(x, s.drop_last());
        assert((seq![x] + s).drop_last() =~= seq![x] + s.drop_last());
        assert((seq![x] + s).last() == s.last());
    } else {
        assert((seq![x] + s).drop_last() =~= Seq::<usize>::empty());
        assert((seq![x] + s).last() == x);
        assert(total_tokens(Seq::<usize>::empty()) == 0);
        assert(s =~= Seq::<usize>::empty());
    }
}

proof fn lemma_fitting_prefix_bounds(counts: Seq<usize>, available: nat)
    ensures
        fitting_prefix(counts, available) <= counts.len(),
        total_tokens(counts.take(fitting_prefix(counts, available) as int)) <= available,
    decreases counts.len(),
{
    if counts.len() > 0 && counts[0] <= available {
        let rest = counts.drop_first();
        let a2 = (available - counts[0]) as nat;
        lemma_fitting_prefix_bounds(rest, a2);
        let n = fitting_prefix(rest, a2);
        assert(counts.take(n + 1 as int) =~= seq![counts[0]] + rest.take(n as int));
        lemma_total_cons(counts[0], rest.take(n as int));
    } else {
        assert(counts.take(0) =~= Seq::<usize>::empty());
    }
}

/// The number of leading chunks that fit into the token budget of
/// `max_tokens` once the prompt overhead is set aside.
pub fn select_chunks_within_budget(token_counts: &[usize], max_tokens: usize) -> (n: usize)
    ensures
        n == fitting_prefix(token_counts@, available_tokens(max_tokens)),
{
    let available = if max_tokens >= PROMPT_OVERHEAD_TOKENS {
        max_tokens - PROMPT_OVERHEAD_TOKENS
    } else {
        0
    };
    let ghost avail = available_tokens(max_tokens);
    let mut total: usize = 0;
    let mut i: usize = 0;
    proof {
        assert(token_counts@.take(0) =~= Seq::<usize>::empty());
    }
    while i < token_counts.len()
        invariant
            0 <= i <= token_counts@.len(),
            available == avail,
            avail == available_tokens(max_tokens),
            total == total_tokens(token_counts@.take(i as int)),
            total <= available,
            fitting_prefix(token_counts@, avail) >= i,
        decreases token_counts@.len() - i,
    {
        proof {
            lemma_fitting_prefix_step(token_counts@, avail, i as nat);
        }
        let c = token_counts[i];
        if c > available - total {
            assert(fitting_prefix(token_counts@, avail) == i);
            return i;
        }
        proof {
            assert(token_counts@.take(i + 1) =~= token_counts@.take(i as int).push(c));
            assert(token_counts@.take(i + 1).drop_last() =~= token_counts@.take(i as int));
        }
        total = total + c;
        i = i + 1;
    }
    proof {
        lemma_fitting_prefix_bounds(token_counts@, avail);
    }
    i
}

/// Law: the selected chunks fit into the budget together, and no longer
/// prefix of the chunks is selected.
pub proof fn law_budget_selection(counts: Seq<usize>, max_tokens: usize)
    ensures
        fitting_prefix(counts, available_tokens(max_tokens)) <= counts.len(),
        total_tokens(counts.take(fitting_prefix(counts, available_tokens(max_tokens)) as int))
            <= available_tokens(max_tokens),
        fitting_prefix(counts, available_tokens(max_tokens)) < counts.len() ==> total_tokens(
            counts.take(fitting_prefix(counts, available_tokens(max_tokens)) as int + 1),
        ) > available_tokens(max_tokens),
{
    let avail = available_tokens(max_tokens);
    lemma_fitting_prefix_bounds(counts, avail);
    let n = fitting_prefix(counts, avail);
    if n < counts.len() {
        lemma_fitting_prefix_step(counts, avail, n);
        assert(counts.take(n + 1 as int).drop_last() =~= counts.take(n as int));
    }
}

/// The page of past questions asked for: at most 100, 20 when the request
/// does not say, starting at the given offset.
pub fn rag_history_window(request: &RagHistoryRequest) -> (r: (usize, usize))
    ensures
        r.0 == match request.limit {
            Some(l) => if l < 100 {
                l
            } else {
                100
            },
            None => 20,
        },
        r.1 == match request.offset {
            Some(o) => o,
            None => 0,
        },
{
    let limit = match request.limit {
        Some(l) => if l < 100 {
            l
        } else {
            100
        },
        None => 20,
    };
    let offset = match request.offset {
        Some(o) => o,
        None => 0,
    };
    (limit, offset)
}

/// The weight a hybrid search uses: the requested one, else 0.5.
pub open spec fn weight_in_use(w: Option<u64>) -> u64 {
    match w {
        Some(b) => b,
        None => 0x3FE0_0000_0000_0000u64,
    }
}

/// The fusion constant a rank-fused search uses: the requested one, else 60.
pub open spec fn fusion_constant_in_use(k: Option<u32>) -> u32 {
    match k {
        Some(k) => k,
        None => 60u32,
    }
}

/// Law: the search mode follows the request. Without an enabled hybrid
/// search the search is by vector only; an enabled one fuses ranks unless
/// `use_rrf` is `false`, with the requested `rrf_k` and 60 only where none
/// is given; a weighted one uses the requested weights, 0.5 each by default.
pub proof fn law_search_mode_follows_request(r: RagQueryRequest)
    ensures
        (r.hybrid_search is None || !r.hybrid_search->0.enabled) ==> search_mode_of(r)
            == SearchMode::Vector,
        (r.hybrid_search is Some && r.hybrid_search->0.enabled && r.hybrid_search->0.use_rrf
            != Some(false)) ==> search_mode_of(r) == (SearchMode::RankFusion {
            k: fusion_constant_in_use(r.hybrid_search->0.rrf_k),
        }),
        (r.hybrid_search is Some && r.hybrid_search->0.enabled && r.hybrid_search->0.use_rrf
            == Some(false)) ==> search_mode_of(r) == (SearchMode::Weighted {
            vector_weight: weight_in_use(r.hybrid_search->0.vector_weight),
            fts_weight: weight_in_use(r.hybrid_search->0.fts_weight),
        }),
{
}

/// The `f64` with these bits is neither infinite nor NaN.
pub open spec fn finite_weight(b: u64) -> bool {
    (b >> 52u64) & 0x7ffu64 != 0x7ffu64
}

/// The `f64` with these bits is not below zero (a zero of either sign is
/// not).
pub open spec fn non_negative_weight(b: u64) -> bool {
    (b >> 63u64) == 0u64 || (b & 0x7fff_ffff_ffff_ffffu64) == 0u64
}

/// The `f64` with these bits is a zero of either sign.
pub open spec fn zero_weight(b: u64) -> bool {
    (b & 0x7fff_ffff_ffff_ffffu64) == 0u64
}

/// Law: the weights of a weighted hybrid search are accepted exactly when
/// both are finite, neither is below zero and they are not both zero (so
/// one non-zero weight is enough). Finite, non-negative weights that are
/// both zero give only the "cannot both be zero" error; a weight that is
/// not finite, or below zero, is reported under its own name.
pub proof fn law_weighted_validation(config: HybridSearchConfig)
    ensures
        hybrid_config_errors(config).len() == 0 <==> (finite_weight(
            weight_in_use(config.vector_weight),
        ) && finite_weight(weight_in_use(config.fts_weight)) && non_negative_weight(
            weight_in_use(config.vector_weight),
        ) && non_negative_weight(weight_in_use(config.fts_weight)) && !(zero_weight(
            weight_in_use(config.vector_weight),
        ) && zero_weight(weight_in_use(config.fts_weight)))),
        (finite_weight(weight_in_use(config.vector_weight)) && finite_weight(
            weight_in_use(config.fts_weight),
        ) && zero_weight(weight_in_use(config.vector_weight)) && zero_weight(
            weight_in_use(config.fts_weight),
        )) ==> hybrid_config_errors(config) == seq![
            ("hybrid_search"@, "vector_weight and fts_weight cannot both be zero"@),
        ],
        !finite_weight(weight_in_use(config.vector_weight)) ==> hybrid_config_errors(
            config,
        ).contains(("vector_weight"@, "must be a finite number"@)),
        !finite_weight(weight_in_use(config.fts_weight)) ==> hybrid_config_errors(
            config,
        ).contains(("fts_weight"@, "must be a finite number"@)),
        (finite_weight(weight_in_use(config.vector_weight)) && !non_negative_weight(
            weight_in_use(config.vector_weight),
        )) ==> hybrid_config_errors(config).contains(
            ("vector_weight"@, "must be greater than or equal to 0"@),
        ),
        (finite_weight(weight_in_use(config.fts_weight)) && !non_negative_weight(
            weight_in_use(config.fts_weight),
        )) ==> hybrid_config_errors(config).contains(
            ("fts_weight"@, "must be greater than or equal to 0"@),
        ),
{
    let v = weight_in_use(config.vector_weight);
    let f = weight_in_use(config.fts_weight);
    assert((v >> 63u64) == 0u64 || (v >> 63u64) == 1u64) by (bit_vector);
    assert((f >> 63u64) == 0u64 || (f >> 63u64) == 1u64) by (bit_vector);
    let ev = weight_errors("vector_weight"@, v);
    let ef = weight_errors("fts_weight"@, f);
    let all = ev + ef;
    if ev.len() > 0 {
        assert(all[0] == ev[0]);
    }
    if ef.len() > 0 {
        assert(all[ev.len() as int] == ef[0]);
    }
}

proof fn lemma_first_positions(ids: Seq<u128>, n: nat)
    requires
        n <= ids.len(),
    ensures
        forall|k: int|
            0 <= k < first_positions(ids, n).len() ==> 0 <= #[trigger] first_positions(ids, n)[k]
                < n,
        forall|a: int, b: int|
            0 <= a < b < first_positions(ids, n).len() ==> #[trigger] first_positions(ids, n)[a]
                < #[trigger] first_positions(ids, n)[b],
        forall|k: int|
            0 <= k < first_positions(ids, n).len() ==> !ids.take(
                #[trigger] first_positions(ids, n)[k],
            ).contains(ids[first_positions(ids, n)[k]]),
    decreases n,
{
    if n > 0 {
        let m = (n - 1) as nat;
        lemma_first_positions(ids, m);
        let r = first_positions(ids, m);
        let fp = first_positions(ids, n);
        if !ids.take(m as int).contains(ids[m as int]) {
            assert(fp == r.push(m as int));
            assert forall|a: int, b: int| 0 <= a < b < fp.len() implies #[trigger] fp[a]
                < #[trigger] fp[b] by {
                assert(fp[a] == r[a]);
                if b < r.len() {
                    assert(fp[b] == r[b]);
                }
            }
            assert forall|k: int| 0 <= k < fp.len() implies !ids.take(#[trigger] fp[k]).contains(
                ids[fp[k]],
            ) by {
                if k < r.len() {
                    assert(fp[k] == r[k]);
                }
            }
        }
    }
}

/// Some kept position holds the identifier at position `i`.
pub open spec fn covered(ids: Seq<u128>, kept: Seq<int>, i: int) -> bool {
    exists|k: int| 0 <= k < kept.len() && ids[kept[k]] == ids[i]
}

proof fn lemma_first_positions_cover(ids: Seq<u128>, n: nat)
    requires
        n <= ids.len(),
    ensures
        forall|i: int| 0 <= i < n ==> #[trigger] covered(ids, first_positions(ids, n), i),
    decreases n,
{
    if n > 0 {
        let m = (n - 1) as nat;
        lemma_first_positions_cover(ids, m);
        let r = first_positions(ids, m);
        let fp = first_positions(ids, n);
        let x = ids[m as int];
        if ids.take(m as int).contains(x) {
            assert(fp == r);
            let j = choose|j: int| 0 <= j < ids.take(m as int).len() && ids.take(m as int)[j] == x;
            assert(ids[j] == x);
            assert(covered(ids, r, j));
        } else {
            assert(fp == r.push(m as int));
            assert(fp[r.len() as int] == m);
            assert(covered(ids, fp, m as int));
            assert forall|i: int| 0 <= i < m implies #[trigger] covered(ids, fp, i) by {
                assert(covered(ids, r, i));
                let k = choose|k: int| 0 <= k < r.len() && ids[r[k]] == ids[i];
                assert(fp[k] == r[k]);
            }
        }
    }
}

/// Law: the kept positions hold no chunk twice, each is the first (so the
/// best-ranked) match of its chunk, they keep the order of the matches, and
/// there are at most `limit` of them; where fewer than `limit` are kept,
/// every retrieved chunk is among them.
pub proof fn law_distinct_chunks(ids: Seq<u128>, limit: nat, kept: Seq<int>)
    requires
        kept == first_positions(ids, ids.len()).take(
            if limit < first_positions(ids, ids.len()).len() {
                limit as int
            } else {
                first_positions(ids, ids.len()).len() as int
            },
        ),
    ensures
        kept.len() <= limit,
        forall|k: int| 0 <= k < kept.len() ==> 0 <= #[trigger] kept[k] < ids.len(),
        forall|a: int, b: int| 0 <= a < b < kept.len() ==> #[trigger] kept[a] < #[trigger] kept[b],
        forall|a: int, b: int|
            0 <= a < b < kept.len() ==> ids[#[trigger] kept[a]] != ids[#[trigger] kept[b]],
        forall|k: int, j: int|
            #![trigger kept[k], ids[j]]
            0 <= k < kept.len() && 0 <= j < kept[k] ==> ids[j] != ids[kept[k]],
        kept.len() < limit ==> forall|i: int| 0 <= i < ids.len() ==> #[trigger] covered(ids, kept, i),
{
    let fp = first_positions(ids, ids.len());
    lemma_first_positions(ids, ids.len());
    lemma_first_positions_cover(ids, ids.len());
    assert forall|k: int| 0 <= k < kept.len() implies kept[k] == #[trigger] fp[k] by {}
    assert forall|k: int, j: int|
        #![trigger kept[k], ids[j]]
        0 <= k < kept.len() && 0 <= j < kept[k] implies ids[j] != ids[kept[k]] by {
        assert(kept[k] == fp[k]);
        if ids[j] == ids[kept[k]] {
            assert(ids.take(fp[k])[j] == ids[j]);
        }
    }
    assert forall|a: int, b: int| 0 <= a < b < kept.len() implies ids[#[trigger] kept[a]]
        != ids[#[trigger] kept[b]] by {
        assert(kept[a] == fp[a] && kept[b] == fp[b]);
        assert(fp[a] < fp[b]);
        assert(ids.take(fp[b])[fp[a]] == ids[fp[a]]);
    }
    if kept.len() < limit {
        assert(kept =~= fp);
    }
}

} // verus!
