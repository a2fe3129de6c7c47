//! Decisions of the text AI worker: which chunk analyses can be reused, what
//! is sent for consolidation, and how the consolidated outputs are stored.
use crate::bookmark::{stored_summary, summary_value};
use crate::model::Bookmark;
use crate::tags::{normalized_tag_option, normalized_tags, texts};
use crate::text::{lemma_text_lt_total, lemma_text_lt_transitive, text_less, text_lt};
use sha2::Digest;
use vstd::prelude::*;

verus! {

/// The version of the chunk analysis; analyses of another version are redone.
pub const TEXT_AI_PIPELINE_VERSION: i32 = 1;

/// Bookmarks claimed by one step of the worker.
pub const QUERY_LIMIT: usize = 10;

/// The stored analysis of one chunk of a bookmark's text.
#[derive(Debug, Clone)]
pub struct ChunkAnalysis {
    pub bookmark_id: String,
    pub user_id: u128,
    pub chunk_index: i32,
    pub chunk_hash: String,
    pub pipeline_version: i32,
    pub summary: String,
    pub tags: Vec<String>,
}

/// A bookmark claimed for text generation, with what it still needs.
#[derive(Debug, Clone)]
pub struct GenerationCandidate {
    pub bookmark: Bookmark,
    pub attempts: i16,
    pub needs_summary: bool,
    pub needs_tags: bool,
}

/// The SHA-256 digest of the UTF-8 bytes of a text.
pub uninterp spec fn sha256_of(text: Seq<char>) -> Seq<u8>;

/// `Sha256::digest` of the bytes of a text: 32 bytes, named by `sha256_of`.
#[verifier::external_body]
fn sha256_digest(text: &str) -> (r: Vec<u8>)
    ensures
        r@ == sha256_of(text@),
        r@.len() == 32,
{
    sha2::Sha256::digest(text.as_bytes()).to_vec()
}

/// The lower-case hexadecimal digit of a value below 16.
pub open spec fn hex_digit(n: int) -> char {
    if n < 10 {
        (n + 48) as char
    } else {
        (n - 10 + 97) as char
    }
}

/// Bytes written as lower-case hexadecimal, two digits per byte.
pub open spec fn hex_lower(bytes: Seq<u8>) -> Seq<char>
    decreases bytes.len(),
{
    if bytes.len() == 0 {
        Seq::empty()
    } else {
        hex_lower(bytes.drop_last()) + seq![
            hex_digit(bytes.last() as int / 16),
            hex_digit(bytes.last() as int % 16),
        ]
    }
}

/// `hex::encode`: each byte as two lower-case hexadecimal digits.
#[verifier::external_body]
fn hex_encode(bytes: &[u8]) -> (r: String)
    ensures
        r@ == hex_lower(bytes@),
{
    hex::encode(bytes)
}

proof fn lemma_hex_lower_len(bytes: Seq<u8>)
    ensures
        hex_lower(bytes).len() == 2 * bytes.len(),
    decreases bytes.len(),
{
    if bytes.len() > 0 {
        lemma_hex_lower_len(bytes.drop_last());
    }
}

/// The hash a chunk is stored under: its SHA-256 digest in hexadecimal.
pub open spec fn chunk_hash_of(chunk: Seq<char>) -> Seq<char> {
    hex_lower(sha256_of(chunk))
}

/// The hexadecimal SHA-256 digest of a chunk, 64 characters long.
pub fn hash_chunk(chunk: &str) -> (r: String)
    ensures
        r@ == chunk_hash_of(chunk@),
        r@.len() == 64,
{
    let digest = sha256_digest(chunk);
    proof {
        lemma_hex_lower_len(digest@);
    }
    hex_encode(digest.as_slice())
}

/// The hashes of all chunks, in order.
pub fn chunk_hashes(chunks: &[String]) -> (r: Vec<String>)
    ensures
        r@.len() == chunks@.len(),
        forall|i: int| 0 <= i < chunks@.len() ==> #[trigger] r@[i]@ == chunk_hash_of(chunks@[i]@),
{
    let mut r: Vec<String> = Vec::new();
    let mut i: usize = 0;
    while i < chunks.len()
        invariant
            0 <= i <= chunks@.len(),
            r@.len() == i,
            forall|j: int| 0 <= j < i ==> #[trigger] r@[j]@ == chunk_hash_of(chunks@[j]@),
        decreases chunks@.len() - i,
    {
        r.push(hash_chunk(chunks[i].as_str()));
        i = i + 1;
    }
    r
}

/// A stored analysis still describes the chunk at its index.
pub open spec fn row_matches(row: ChunkAnalysis, hashes: Seq<Seq<char>>, version: i32) -> bool {
    &&& 0 <= row.chunk_index < hashes.len()
    &&& row.pipeline_version == version
    &&& row.chunk_hash@ == hashes[row.chunk_index as int]
}

/// The stored analyses no longer fit the chunks: their number differs, or
/// one of them is out of range, of another version or of other text.
pub open spec fn layout_changed(
    rows: Seq<ChunkAnalysis>,
    hashes: Seq<Seq<char>>,
    version: i32,
) -> bool {
    rows.len() != hashes.len() || exists|i: int|
        0 <= i < rows.len() && !row_matches(#[trigger] rows[i], hashes, version)
}

/// Whether the stored analyses must be dropped and redone.
pub fn chunk_layout_changed(rows: &[ChunkAnalysis], hashes: &[String], version: i32) -> (b: bool)
    ensures
        b == layout_changed(rows@, texts(hashes@), version),
{
    let ghost hs = texts(hashes@);
    if rows.len() != hashes.len() {
        return true;
    }
    let mut i: usize = 0;
    while i < rows.len()
        invariant
            0 <= i <= rows@.len(),
            hs == texts(hashes@),
            hs.len() == hashes@.len(),
            forall|j: int| 0 <= j < i ==> row_matches(#[trigger] rows@[j], hs, version),
        decreases rows@.len() - i,
    {
        let row = &rows[i];
        if row.chunk_index < 0 {
            assert(!row_matches(rows@[i as int], hs, version));
            return true;
        }
        let idx = row.chunk_index as usize;
        if idx >= hashes.len() || row.pipeline_version != version || row.chunk_hash
            != hashes[idx] {
            assert(!row_matches(rows@[i as int], hs, version));
            return true;
        }
        assert(row_matches(rows@[i as int], hs, version));
        i = i + 1;
    }
    false
}

/// The stored analysis reused for a chunk: none once the layout changed,
/// else the last one stored for that chunk's index.
pub fn reusable_analysis(rows: &[ChunkAnalysis], changed: bool, index: i32) -> (r: Option<usize>)
    ensures
        changed ==> r is None,
        !changed ==> match r {
            Some(p) => p < rows@.len() && rows@[p as int].chunk_index == index && forall|q: int|
                p < q < rows@.len() ==> (#[trigger] rows@[q]).chunk_index != index,
            None => forall|q: int| 0 <= q < rows@.len() ==> (#[trigger] rows@[q]).chunk_index != index,
        },
{
    if changed {
        return None;
    }
    let mut k: usize = rows.len();
    while k > 0
        invariant
            !changed,
            0 <= k <= rows@.len(),
            forall|q: int| k <= q < rows@.len() ==> (#[trigger] rows@[q]).chunk_index != index,
        decreases k,
    {
        if rows[k - 1].chunk_index == index {
            return Some(k - 1);
        }
        k = k - 1;
    }
    None
}

/// Texts in strictly increasing order, hence each at most once.
pub open spec fn strictly_sorted(v: Seq<Seq<char>>) -> bool {
    forall|i: int, j: int| 0 <= i < j < v.len() ==> text_lt(#[trigger] v[i], #[trigger] v[j])
}

proof fn lemma_insert_sorted(s: Seq<Seq<char>>, p: int, t: Seq<char>)
    requires
        strictly_sorted(s),
        0 <= p <= s.len(),
        forall|j: int| 0 <= j < p ==> text_lt(#[trigger] s[j], t),
        p < s.len() ==> text_lt(t, s[p]),
    ensures
        strictly_sorted(s.insert(p, t)),
{
    let n = s.insert(p, t);
    assert forall|i: int, j: int| 0 <= i < j < n.len() implies text_lt(
        #[trigger] n[i],
        #[trigger] n[j],
    ) by {
        if j < p {
            assert(n[i] == s[i] && n[j] == s[j]);
        } else if j == p {
            assert(n[i] == s[i]);
        } else if i < p {
            assert(n[i] == s[i] && n[j] == s[j - 1]);
        } else if i == p {
            assert(n[j] == s[j - 1]);
            if j - 1 > p {
                lemma_text_lt_transitive(t, s[p], s[j - 1]);
            }
        } else {
            assert(n[i] == s[i - 1] && n[j] == s[j - 1]);
        }
    }
}

/// Adds a text to a sorted list unless it is there already.
fn insert_sorted(v: &mut Vec<String>, t: String)
    requires
        strictly_sorted(texts(old(v)@)),
    ensures
        strictly_sorted(texts(final(v)@)),
        forall|x: Seq<char>| #[trigger]
            texts(final(v)@).contains(x) <==> (texts(old(v)@).contains(x) || x == t@),
{
    let ghost s = texts(v@);
    let mut p: usize = 0;
    while p < v.len() && text_less(v[p].as_str(), t.as_str())
        invariant
            0 <= p <= v@.len(),
            s == texts(v@),
            forall|j: int| 0 <= j < p ==> text_lt(#[trigger] s[j], t@),
        decreases v@.len() - p,
    {
        p = p + 1;
    }
    if p < v.len() && v[p] == t {
        assert(s[p as int] == t@);
        return;
    }
    proof {
        if p < s.len() {
            assert(!text_lt(s[p as int], t@));
            lemma_text_lt_total(s[p as int], t@);
        }
        lemma_insert_sorted(s, p as int, t@);
    }
    let ghost tv = t@;
    v.insert(p, t);
    assert(texts(v@) =~= s.insert(p as int, tv));
    assert forall|x: Seq<char>| #[trigger] texts(v@).contains(x) <==> (s.contains(x) || x == tv) by {
        let n = s.insert(p as int, tv);
        if s.contains(x) {
            let j = choose|j: int| 0 <= j < s.len() && s[j] == x;
            if j < p {
                assert(n[j] == x);
            } else {
                assert(n[j + 1] == x);
            }
        }
        if x == tv {
            assert(n[p as int] == x);
        }
        if n.contains(x) {
            let j = choose|j: int| 0 <= j < n.len() && n[j] == x;
            if j < p {
                assert(s[j] == x);
            } else if j > p {
                assert(s[j - 1] == x);
            }
        }
    }
}

/// All tags of the analyses, analysis after analysis.
pub open spec fn flat_tags(analyses: Seq<ChunkAnalysis>) -> Seq<Seq<char>>
    decreases analyses.len(),
{
    if analyses.len() == 0 {
        Seq::empty()
    } else {
        flat_tags(analyses.drop_last()) + texts(analyses.last().tags@)
    }
}

/// The tags sent for consolidation: every tag of the analyses, once each,
/// in the order of texts.
pub fn collect_raw_tags(analyses: &[ChunkAnalysis]) -> (r: Vec<String>)
    ensures
        strictly_sorted(texts(r@)),
        forall|t: Seq<char>| #[trigger]
            texts(r@).contains(t) <==> flat_tags(analyses@).contains(t),
{
    let mut out: Vec<String> = Vec::new();
    let mut i: usize = 0;
    while i < analyses.len()
        invariant
            0 <= i <= analyses@.len(),
            strictly_sorted(texts(out@)),
            forall|t: Seq<char>| #[trigger]
                texts(out@).contains(t) <==> flat_tags(analyses@.take(i as int)).contains(t),
        decreases analyses@.len() - i,
    {
        let tags = &analyses[i].tags;
        let ghost before = flat_tags(analyses@.take(i as int));
        let mut k: usize = 0;
        while k < tags.len()
            invariant
                0 <= k <= tags@.len(),
                tags@ == analyses@[i as int].tags@,
                strictly_sorted(texts(out@)),
                forall|t: Seq<char>| #[trigger]
                    texts(out@).contains(t) <==> (before + texts(tags@).take(k as int)).contains(
                        t,
                    ),
            decreases tags@.len() - k,
        {
            let ghost prev = before + texts(tags@).take(k as int);
            insert_sorted(&mut out, tags[k].clone());
            let ghost next = before + texts(tags@).take(k + 1);
            assert(next =~= prev.push(tags@[k as int]@));
            assert forall|t: Seq<char>| #[trigger] texts(out@).contains(t) <==> next.contains(t) by {
                if next.contains(t) && t != tags@[k as int]@ {
                    let j = choose|j: int| 0 <= j < next.len() && next[j] == t;
                    assert(prev[j] == t);
                }
                if prev.contains(t) {
                    let j = choose|j: int| 0 <= j < prev.len() && prev[j] == t;
                    assert(next[j] == t);
                }
                if t == tags@[k as int]@ {
                    assert(next[next.len() - 1] == t);
                }
            }
            k = k + 1;
        }
        assert(texts(tags@).take(k as int) =~= texts(tags@));
        assert(analyses@.take(i + 1).drop_last() =~= analyses@.take(i as int));
        i = i + 1;
    }
    assert(analyses@.take(i as int) =~= analyses@);
    out
}

/// The summaries of the analyses, in chunk order.
pub open spec fn summaries_of(analyses: Seq<ChunkAnalysis>) -> Seq<Seq<char>> {
    analyses.map_values(|a: ChunkAnalysis| a.summary@)
}

/// The chunk summaries to consolidate: only where a summary is needed and
/// there is at least one analysis.
pub fn summary_request(candidate: &GenerationCandidate, analyses: &[ChunkAnalysis]) -> (r: Option<
    Vec<String>,
>)
    ensures
        r is Some <==> (candidate.needs_summary && analyses@.len() > 0),
        r matches Some(v) ==> texts(v@) == summaries_of(analyses@),
{
    if !(candidate.needs_summary && analyses.len() > 0) {
        return None;
    }
    let mut v: Vec<String> = Vec::new();
    let mut i: usize = 0;
    while i < analyses.len()
        invariant
            0 <= i <= analyses@.len(),
            texts(v@) == summaries_of(analyses@.take(i as int)),
        decreases analyses@.len() - i,
    {
        v.push(analyses[i].summary.clone());
        assert(summaries_of(analyses@.take(i + 1)) =~= summaries_of(analyses@.take(i as int)).push(
            analyses@[i as int].summary@,
        ));
        assert(texts(v@) =~= summaries_of(analyses@.take(i + 1)));
        i = i + 1;
    }
    assert(analyses@.take(i as int) =~= analyses@);
    Some(v)
}

/// The raw tags to consolidate: only where tags are needed and there is at
/// least one analysis; then every tag once, in the order of texts.
pub fn tags_request(candidate: &GenerationCandidate, analyses: &[ChunkAnalysis]) -> (r: Option<
    Vec<String>,
>)
    ensures
        r is Some <==> (candidate.needs_tags && analyses@.len() > 0),
        r matches Some(v) ==> strictly_sorted(texts(v@)) && forall|t: Seq<char>| #[trigger]
            texts(v@).contains(t) <==> flat_tags(analyses@).contains(t),
{
    if candidate.needs_tags && analyses.len() > 0 {
        Some(collect_raw_tags(analyses))
    } else {
        None
    }
}

/// The summary written back: the consolidated one where it was asked for,
/// trimmed and absent when blank; otherwise the current one.
pub fn summary_output(current: Option<String>, consolidated: Option<&str>) -> (r: Option<String>)
    ensures
        match consolidated {
            Some(text) => match r {
                Some(s) => stored_summary(text@) == Some(s@),
                None => stored_summary(text@) is None,
            },
            None => r == current,
        },
{
    match consolidated {
        Some(text) => summary_value(text),
        None => current,
    }
}

/// Normalizes consolidated tags: trimmed, lower-cased, without blanks or
/// repeats; nothing when none is left.
pub fn normalize_tags(tags: Vec<String>) -> (r: Option<Vec<String>>)
    ensures
        match r {
            Some(v) => texts(v@) == normalized_tags(texts(tags@)) && v@.len() > 0,
            None => normalized_tags(texts(tags@)).len() == 0,
        },
{
    normalized_tag_option(tags.as_slice())
}

/// The tags written back: the normalized consolidated ones where they were
/// asked for; otherwise the current ones.
pub fn tags_output(current: Option<Vec<String>>, consolidated: Option<Vec<String>>) -> (r: Option<
    Vec<String>,
>)
    ensures
        match consolidated {
            Some(tags) => match r {
                Some(v) => texts(v@) == normalized_tags(texts(tags@)) && v@.len() > 0,
                None => normalized_tags(texts(tags@)).len() == 0,
            },
            None => r == current,
        },
{
    match consolidated {
        Some(tags) => normalize_tags(tags),
        None => current,
    }
}

} // verus!
