//! The embedding profile kept with the stored chunks: what to do when the
//! configured model changes, and when the vector index must be rebuilt.
use crate::sql::{decimal, format_decimal};
use vstd::prelude::*;

verus! {

/// The name of the approximate nearest-neighbour index over the chunks.
pub const EMBEDDING_INDEX_NAME: &'static str = "idx_bookmark_chunk_embedding";

/// The embedding model the stored vectors were made with.
#[derive(Debug, Clone)]
pub struct EmbeddingProfile {
    pub provider: String,
    pub model: String,
    pub dimensions: usize,
}

/// Two profiles name the same provider, model and dimensions.
pub open spec fn same_profile_spec(a: EmbeddingProfile, b: EmbeddingProfile) -> bool {
    a.provider@ == b.provider@ && a.model@ == b.model@ && a.dimensions == b.dimensions
}

/// Whether two profiles are the same.
pub fn same_profile(a: &EmbeddingProfile, b: &EmbeddingProfile) -> (r: bool)
    ensures
        r == same_profile_spec(*a, *b),
{
    a.provider == b.provider && a.model == b.model && a.dimensions == b.dimensions
}

/// What reconciling the stored profile with the configured one does.
#[derive(Debug, Clone, Copy, PartialEq, Eq, Structural)]
pub enum ProfileAction {
    /// The stored profile is the configured one: nothing changes.
    Keep,
    /// The vectors were made otherwise (or by an unknown model): they are
    /// dropped, and the configured profile is stored.
    ClearAndStore,
    /// Nothing is stored yet: the configured profile is stored.
    Store,
}

/// Keeps a matching profile; drops the chunks made with another profile,
/// or with none recorded while chunks exist; otherwise records the profile.
pub fn profile_action(
    stored: Option<&EmbeddingProfile>,
    target: &EmbeddingProfile,
    chunk_count: i64,
) -> (a: ProfileAction)
    ensures
        a == match stored {
            Some(current) => if same_profile_spec(*current, *target) {
                ProfileAction::Keep
            } else {
                ProfileAction::ClearAndStore
            },
            None => if chunk_count > 0 {
                ProfileAction::ClearAndStore
            } else {
                ProfileAction::Store
            },
        },
{
    match stored {
        Some(current) => {
            if same_profile(current, target) {
                ProfileAction::Keep
            } else {
                ProfileAction::ClearAndStore
            }
        },
        None => {
            if chunk_count > 0 {
                ProfileAction::ClearAndStore
            } else {
                ProfileAction::Store
            }
        },
    }
}

/// The column type of vectors of the given dimensions.
pub open spec fn vector_type(dimensions: nat) -> Seq<char> {
    "vector("@ + decimal(dimensions) + ")"@
}

fn format_vector_type(dimensions: usize) -> (r: String)
    ensures
        r@ == vector_type(dimensions as nat),
{
    String::from_str("vector(").concat(format_decimal(dimensions as u64).as_str()).concat(")")
}

/// `needle` occurs in `hay` at position `i`.
pub open spec fn occurs_at(hay: Seq<char>, needle: Seq<char>, i: int) -> bool {
    0 <= i && i + needle.len() <= hay.len() && hay.subrange(i, i + needle.len()) == needle
}

/// `needle` occurs somewhere in `hay`.
pub open spec fn occurs_in(hay: Seq<char>, needle: Seq<char>) -> bool {
    exists|i: int| #[trigger] occurs_at(hay, needle, i)
}

fn occurs_at_exec(hay: &str, needle: &str, i: usize) -> (r: bool)
    requires
        i + needle@.len() <= hay@.len(),
    ensures
        r == occurs_at(hay@, needle@, i as int),
{
    let n = needle.unicode_len();
    let h = hay.unicode_len();
    let mut k: usize = 0;
    while k < n
        invariant
            0 <= k <= n,
            n == needle@.len(),
            h == hay@.len(),
            i + n <= hay@.len(),
            forall|j: int| 0 <= j < k ==> hay@[i + j] == needle@[j],
        decreases n - k,
    {
        if hay.get_char(i + k) != needle.get_char(k) {
            assert(hay@.subrange(i as int, i + n)[k as int] != needle@[k as int]);
            return false;
        }
        k = k + 1;
    }
    assert(hay@.subrange(i as int, i + n) =~= needle@);
    true
}

/// Whether `needle` occurs in `hay`.
pub fn text_contains(hay: &str, needle: &str) -> (r: bool)
    ensures
        r == occurs_in(hay@, needle@),
{
    let h = hay.unicode_len();
    let n = needle.unicode_len();
    if n > h {
        assert forall|i: int| !occurs_at(hay@, needle@, i) by {}
        return false;
    }
    if n == 0 {
        assert(hay@.subrange(0, 0) =~= needle@);
        assert(occurs_at(hay@, needle@, 0));
        return true;
    }
    let mut i: usize = 0;
    while i <= h - n
        invariant
            0 < n <= h,
            h == hay@.len(),
            n == needle@.len(),
            0 <= i <= h - n + 1,
            forall|j: int| 0 <= j < i ==> !#[trigger] occurs_at(hay@, needle@, j),
        decreases h - n + 1 - i,
    {
        if occurs_at_exec(hay, needle, i) {
            return true;
        }
        i = i + 1;
    }
    assert forall|j: int| !#[trigger] occurs_at(hay@, needle@, j) by {
        if 0 <= j < i {
        }
    }
    false
}

/// The index is rebuilt when it is missing or not made for vectors of the
/// configured dimensions.
pub fn index_needs_rebuild(definition: Option<&str>, dimensions: usize) -> (r: bool)
    ensures
        r == match definition {
            Some(d) => !occurs_in(d@, vector_type(dimensions as nat)),
            None => true,
        },
{
    match definition {
        Some(d) => !text_contains(d, format_vector_type(dimensions).as_str()),
        None => true,
    }
}

/// The statement that rebuilds the vector index for vectors of the given
/// dimensions.
pub open spec fn index_rebuild_sql(dimensions: nat) -> Seq<char> {
    "DROP INDEX IF EXISTS "@ + EMBEDDING_INDEX_NAME@ + ";\n             CREATE INDEX "@ + EMBEDDING_INDEX_NAME@ + " ON bookmark_chunk\n             USING hnsw (((embedding)::vector("@ + decimal(dimensions) + ")) vector_cosine_ops)\n             WITH (m = 16, ef_construction = 64);"@
}

/// The statement that rebuilds the vector index for vectors of the given
/// dimensions.
pub fn index_rebuild_statement(dimensions: usize) -> (r: String)
    ensures
        r@ == index_rebuild_sql(dimensions as nat),
{
    String::from_str("DROP INDEX IF EXISTS ").concat(EMBEDDING_INDEX_NAME).concat(";\n             CREATE INDEX ").concat(EMBEDDING_INDEX_NAME).concat(
        " ON bookmark_chunk\n             USING hnsw (((embedding)::vector(",
    ).concat(format_decimal(dimensions as u64).as_str()).concat(")) vector_cosine_ops)\n             WITH (m = 16, ef_construction = 64);")
}

} // verus!
