//! The hybrid retriever: what to ask of the two indexes, and what to
//! return from their answers.
//!
//! The searches themselves, and the loading of chunks, are done by the
//! caller; the functions here decide what is searched for and turn the
//! answers into results.

use vstd::prelude::*;
use crate::error::RecallError;
use crate::fts_query::{fts_query, prepare_fts_query};
use crate::fusion::{fused, reciprocal_rank_fusion, FusedHit};
use crate::models::{Chunk, ChunkWithScore, SCORE_SCALE};
use crate::text::str_eq;

verus! {

/// The retrieval limit for quick answers.
pub const FAST_LIMIT: usize = 10;

/// The retrieval limit for comprehensive answers.
pub const DEEP_LIMIT: usize = 50;

/// How many candidates are kept per requested result when results are
/// filtered by document.
pub const FILTER_WIDENING: usize = 3;

/// What a retrieval asks of the indexes.
#[derive(Debug, Clone)]
pub struct RetrievalPlan {
    /// Whether the query is embedded and the vector index searched.
    pub run_dense: bool,
    /// The full-text query, or `None` where the sparse leg is skipped.
    pub fts_query: Option<String>,
    /// How many hits each leg is asked for.
    pub leg_limit: usize,
    /// How many fused candidates are loaded from the store.
    pub fetch_limit: usize,
}

/// `a * b`, or the largest value where the product exceeds it.
pub open spec fn capped_product(a: usize, b: usize) -> usize {
    if a * b > usize::MAX {
        usize::MAX
    } else {
        (a * b) as usize
    }
}

fn capped_mul(a: usize, b: usize) -> (r: usize)
    ensures
        r == capped_product(a, b),
{
    match a.checked_mul(b) {
        Some(p) => p,
        None => usize::MAX,
    }
}

/// Plans the retrieval of up to `limit` chunks for `query`.
///
/// With a limit of zero neither index is searched. Otherwise each leg is
/// asked for twice the limit; the sparse leg is skipped where nothing of
/// the query is left to search for. Three times the limit is loaded
/// where results are filtered by document, else the limit.
pub fn plan_retrieval(query: &str, limit: usize, filtered: bool) -> (plan: RetrievalPlan)
    ensures
        plan.run_dense == (limit > 0),
        limit == 0 ==> plan.fts_query is None,
        limit > 0 && fts_query(query@).len() == 0 ==> plan.fts_query is None,
        limit > 0 && fts_query(query@).len() > 0 ==> (plan.fts_query matches Some(q) && q@
            == fts_query(query@)),
        plan.leg_limit == capped_product(limit, 2),
        plan.fetch_limit == if filtered {
            capped_product(limit, FILTER_WIDENING)
        } else {
            limit
        },
{
    let leg_limit = capped_mul(limit, 2);
    let fetch_limit = if filtered {
        capped_mul(limit, FILTER_WIDENING)
    } else {
        limit
    };
    if limit == 0 {
        return RetrievalPlan { run_dense: false, fts_query: None, leg_limit, fetch_limit };
    }
    let q = prepare_fts_query(query);
    let fts = if q.as_str().is_empty() {
        None
    } else {
        Some(q)
    };
    RetrievalPlan { run_dense: true, fts_query: fts, leg_limit, fetch_limit }
}

/// The similarity for a distance: `1 / (1 + d)`, both in units of
/// `1 / SCORE_SCALE`, rounded down.
pub open spec fn similarity_of(distance: u64) -> u64 {
    ((SCORE_SCALE as int * SCORE_SCALE as int) / (SCORE_SCALE as int + distance as int)) as u64
}

/// Converts a distance to a similarity: the smaller the distance, the
/// larger the similarity; distance zero gives similarity one.
pub fn similarity(distance: u64) -> (r: u64)
    ensures
        r == similarity_of(distance),
        r <= SCORE_SCALE,
        distance == 0 ==> r == SCORE_SCALE,
{
    let scale: u128 = SCORE_SCALE as u128;
    let d: u128 = scale + distance as u128;
    let q: u128 = (scale * scale) / d;
    assert(q <= scale) by (nonlinear_arith)
        requires
            q == (scale * scale) / (d as int),
            d >= scale,
            scale > 0,
    ;
    assert(distance == 0 ==> q == scale) by (nonlinear_arith)
        requires
            q == (scale * scale) / (d as int),
            d == scale + distance,
            scale > 0,
    ;
    q as u64
}

/// The nearer, the more similar: a smaller distance never gives a
/// smaller similarity.
pub proof fn lemma_similarity_falls(near: u64, far: u64)
    requires
        near <= far,
    ensures
        similarity_of(near) >= similarity_of(far),
        similarity_of(far) <= SCORE_SCALE,
{
    let scale = SCORE_SCALE as int;
    let a = scale + near as int;
    let b = scale + far as int;
    assert((scale * scale) / a >= (scale * scale) / b) by (nonlinear_arith)
        requires
            0 < a <= b,
            scale * scale >= 0,
    {
        vstd::arithmetic::div_mod::lemma_div_is_ordered_by_denominator(scale * scale, a, b);
    }
    assert(0 <= (scale * scale) / a <= scale) by (nonlinear_arith)
        requires
            a >= scale,
            scale > 0,
    ;
    assert(0 <= (scale * scale) / b <= scale) by (nonlinear_arith)
        requires
            b >= scale,
            scale > 0,
    ;
}

/// One answer of an index: a chunk id with its distance or score.
pub type LegHit = (i64, u64);

/// The hits of the dense leg with their distances turned into
/// similarities.
pub fn score_vector_hits(hits: &Vec<LegHit>) -> (r: Vec<LegHit>)
    ensures
        r@.len() == hits@.len(),
        forall|i: int|
            0 <= i < r@.len() ==> (#[trigger] r@[i]).0 == hits@[i].0 && r@[i].1 == similarity_of(
                hits@[i].1,
            ),
{
    let mut r: Vec<LegHit> = Vec::new();
    let mut i: usize = 0;
    while i < hits.len()
        invariant
            i <= hits.len(),
            r@.len() == i,
            forall|j: int|
                0 <= j < i ==> (#[trigger] r@[j]).0 == hits@[j].0 && r@[j].1 == similarity_of(
                    hits@[j].1,
                ),
        decreases hits.len() - i,
    {
        r.push((hits[i].0, similarity(hits[i].1)));
        i += 1;
    }
    r
}

/// The greatest score among the first `n` hits, or zero.
pub open spec fn greatest_score(hits: Seq<LegHit>, n: int) -> u64
    decreases n,
{
    if n <= 0 || n > hits.len() {
        0
    } else if hits[n - 1].1 > greatest_score(hits, n - 1) {
        hits[n - 1].1
    } else {
        greatest_score(hits, n - 1)
    }
}

/// A score as a share of the greatest score, in units of
/// `1 / SCORE_SCALE`; zero where the greatest score is zero.
pub open spec fn score_share(score: u64, greatest: u64) -> u64 {
    if greatest == 0 {
        0
    } else if score >= greatest {
        SCORE_SCALE
    } else {
        ((score as int * SCORE_SCALE as int) / (greatest as int)) as u64
    }
}

proof fn lemma_greatest_score_bounds(hits: Seq<LegHit>, n: int, i: int)
    requires
        0 <= i < n <= hits.len(),
    ensures
        hits[i].1 <= greatest_score(hits, n),
    decreases n,
{
    if i < n - 1 {
        lemma_greatest_score_bounds(hits, n - 1, i);
    }
}

/// The hits of the sparse leg with their scores brought into the range
/// from nothing to one: each score as a share of the greatest.
pub fn normalize_scores(hits: &Vec<LegHit>) -> (r: Vec<LegHit>)
    ensures
        r@.len() == hits@.len(),
        forall|i: int|
            0 <= i < r@.len() ==> (#[trigger] r@[i]).0 == hits@[i].0 && r@[i].1 == score_share(
                hits@[i].1,
                greatest_score(hits@, hits@.len() as int),
            ),
        forall|i: int| 0 <= i < r@.len() ==> (#[trigger] r@[i]).1 <= SCORE_SCALE,
{
    let mut greatest: u64 = 0;
    let mut n: usize = 0;
    while n < hits.len()
        invariant
            n <= hits.len(),
            greatest == greatest_score(hits@, n as int),
        decreases hits.len() - n,
    {
        if hits[n].1 > greatest {
            greatest = hits[n].1;
        }
        n += 1;
    }
    let mut r: Vec<LegHit> = Vec::new();
    let mut i: usize = 0;
    while i < hits.len()
        invariant
            i <= hits.len(),
            r@.len() == i,
            greatest == greatest_score(hits@, hits@.len() as int),
            forall|j: int|
                0 <= j < i ==> (#[trigger] r@[j]).0 == hits@[j].0 && r@[j].1 == score_share(
                    hits@[j].1,
                    greatest,
                ),
            forall|j: int| 0 <= j < i ==> (#[trigger] r@[j]).1 <= SCORE_SCALE,
        decreases hits.len() - i,
    {
        let score = hits[i].1;
        proof {
            lemma_greatest_score_bounds(hits@, hits@.len() as int, i as int);
        }
        let share: u64 = if greatest == 0 {
            0
        } else if score >= greatest {
            SCORE_SCALE
        } else {
            let q: u128 = (score as u128 * SCORE_SCALE as u128) / (greatest as u128);
            assert(q <= SCORE_SCALE) by (nonlinear_arith)
                requires
                    q == (score as int * SCORE_SCALE as int) / (greatest as int),
                    0 <= score < greatest,
            ;
            q as u64
        };
        r.push((hits[i].0, share));
        i += 1;
    }
    r
}

/// The chunk ids of a leg's answer, in order.
pub open spec fn hit_ids(hits: Seq<LegHit>) -> Seq<i64> {
    hits.map_values(|h: LegHit| h.0)
}

/// The chunk ids that a leg contributes: those of its answer, or none
/// where the leg failed.
pub open spec fn leg_ids_of(leg: std::result::Result<Vec<LegHit>, RecallError>) -> Seq<i64> {
    match leg {
        Ok(hits) => hit_ids(hits@),
        Err(_) => Seq::empty(),
    }
}

/// The chunk ids that a leg contributes.
pub fn leg_ids(leg: &std::result::Result<Vec<LegHit>, RecallError>) -> (r: Vec<i64>)
    ensures
        r@ == leg_ids_of(*leg),
{
    let mut r: Vec<i64> = Vec::new();
    match leg {
        Ok(hits) => {
            let mut i: usize = 0;
            while i < hits.len()
                invariant
                    i <= hits.len(),
                    r@ == hit_ids(hits@).take(i as int),
                decreases hits.len() - i,
            {
                r.push(hits[i].0);
                proof {
                    assert(hit_ids(hits@).take(i + 1) =~= hit_ids(hits@).take(i as int).push(
                        hits@[i as int].0,
                    ));
                }
                i += 1;
            }
            proof {
                assert(hit_ids(hits@).take(hits@.len() as int) =~= hit_ids(hits@));
            }
        },
        Err(_) => {},
    }
    r
}

/// Fuses the answers of the two legs. A leg that failed counts as a leg
/// that found nothing: where the vector index is not available, the
/// result is that of the full-text leg alone.
pub fn fuse_legs(
    vector: &std::result::Result<Vec<LegHit>, RecallError>,
    fts: &std::result::Result<Vec<LegHit>, RecallError>,
) -> (r: Vec<FusedHit>)
    ensures
        r@ == fused(leg_ids_of(*vector), leg_ids_of(*fts)),
        vector is Err ==> r@ == fused(Seq::empty(), leg_ids_of(*fts)),
        vector is Err && fts is Err ==> r@.len() == 0,
{
    let v = leg_ids(vector);
    let f = leg_ids(fts);
    reciprocal_rank_fusion(&v, &f)
}

/// The smaller of two lengths.
pub open spec fn min_len(a: int, b: int) -> int {
    if a <= b {
        a
    } else {
        b
    }
}

/// The ids of the best `fetch_limit` hits, for loading from the store.
pub fn candidate_ids(ranked: &Vec<FusedHit>, fetch_limit: usize) -> (r: Vec<i64>)
    ensures
        r@.len() == min_len(fetch_limit as int, ranked@.len() as int),
        forall|i: int| 0 <= i < r@.len() ==> r@[i] == ranked@[i].chunk_id,
{
    let n = if fetch_limit <= ranked.len() {
        fetch_limit
    } else {
        ranked.len()
    };
    let mut r: Vec<i64> = Vec::new();
    let mut i: usize = 0;
    while i < n
        invariant
            i <= n <= ranked.len(),
            r@.len() == i,
            forall|j: int| 0 <= j < i ==> r@[j] == ranked@[j].chunk_id,
        decreases n - i,
    {
        r.push(ranked[i].chunk_id);
        i += 1;
    }
    r
}

/// The index of the last of the first `n` chunks that has id `id`, or -1.
pub open spec fn chunk_index_of(chunks: Seq<Chunk>, id: i64, n: int) -> int
    decreases n,
{
    if n <= 0 || n > chunks.len() {
        -1
    } else if chunks[n - 1].id == id {
        n - 1
    } else {
        chunk_index_of(chunks, id, n - 1)
    }
}

/// Whether a document passes the filter: any does where there is none.
pub open spec fn passes_filter(document_id: Seq<char>, filter: Option<Seq<Seq<char>>>) -> bool {
    match filter {
        Some(ids) => ids.contains(document_id),
        None => true,
    }
}

/// For the first `k` hits: each hit whose chunk was loaded and passes the
/// filter, as the pair of the hit's place and the chunk's place.
pub open spec fn selection(
    ranked: Seq<FusedHit>,
    chunks: Seq<Chunk>,
    filter: Option<Seq<Seq<char>>>,
    k: int,
) -> Seq<(int, int)>
    decreases k,
{
    if k <= 0 || k > ranked.len() {
        Seq::empty()
    } else {
        let prev = selection(ranked, chunks, filter, k - 1);
        let c = chunk_index_of(chunks, ranked[k - 1].chunk_id, chunks.len() as int);
        if 0 <= c < chunks.len() && passes_filter(chunks[c].document_id@, filter) {
            prev.push((k - 1, c))
        } else {
            prev
        }
    }
}

/// Whether two chunks hold the same values.
pub open spec fn same_chunk(a: Chunk, b: Chunk) -> bool {
    &&& a.id == b.id
    &&& a.document_id@ == b.document_id@
    &&& a.chunk_index == b.chunk_index
    &&& a.content@ == b.content@
    &&& a.token_count == b.token_count
    &&& a.start_offset == b.start_offset
    &&& a.end_offset == b.end_offset
    &&& a.page_number == b.page_number
    &&& a.timestamp_start == b.timestamp_start
    &&& a.timestamp_end == b.timestamp_end
    &&& match (a.topics, b.topics) {
        (Some(x), Some(y)) => x@ == y@,
        (None, None) => true,
        _ => false,
    }
    &&& a.created_at == b.created_at
}

/// A copy of a chunk.
pub fn copy_chunk(c: &Chunk) -> (r: Chunk)
    ensures
        same_chunk(r, *c),
{
    let topics = match &c.topics {
        Some(t) => {
            let mut v: Vec<String> = Vec::new();
            let mut i: usize = 0;
            while i < t.len()
                invariant
                    i <= t.len(),
                    v@ == t@.take(i as int),
                decreases t.len() - i,
            {
                v.push(t[i].clone());
                proof {
                    assert(t@.take(i + 1) =~= t@.take(i as int).push(t@[i as int]));
                }
                i += 1;
            }
            proof {
                assert(t@.take(t@.len() as int) =~= t@);
            }
            Some(v)
        },
        None => None,
    };
    Chunk {
        id: c.id,
        document_id: c.document_id.clone(),
        chunk_index: c.chunk_index,
        content: c.content.clone(),
        token_count: c.token_count,
        start_offset: c.start_offset,
        end_offset: c.end_offset,
        page_number: c.page_number,
        timestamp_start: c.timestamp_start,
        timestamp_end: c.timestamp_end,
        topics,
        created_at: c.created_at,
    }
}

/// The character sequences of a list of strings.
pub open spec fn id_texts(v: Seq<String>) -> Seq<Seq<char>> {
    v.map_values(|t: String| t@)
}

/// Whether `id` is among `ids`.
pub fn contains_text(ids: &Vec<String>, id: &str) -> (r: bool)
    ensures
        r == id_texts(ids@).contains(id@),
{
    let mut i: usize = 0;
    while i < ids.len()
        invariant
            i <= ids.len(),
            forall|j: int| 0 <= j < i ==> id_texts(ids@)[j] != id@,
        decreases ids.len() - i,
    {
        if str_eq(ids[i].as_str(), id) {
            assert(id_texts(ids@)[i as int] == id@);
            return true;
        }
        i += 1;
    }
    false
}

fn find_chunk(chunks: &Vec<Chunk>, id: i64) -> (r: Option<usize>)
    ensures
        match r {
            Some(c) => c == chunk_index_of(chunks@, id, chunks@.len() as int) && c < chunks.len()
                && chunks@[c as int].id == id,
            None => chunk_index_of(chunks@, id, chunks@.len() as int) == -1,
        },
{
    let mut n: usize = chunks.len();
    while n > 0
        invariant
            n <= chunks.len(),
            chunk_index_of(chunks@, id, chunks@.len() as int) == chunk_index_of(
                chunks@,
                id,
                n as int,
            ),
        decreases n,
    {
        if chunks[n - 1].id == id {
            return Some(n - 1);
        }
        n -= 1;
    }
    None
}

/// The filter as sequences of characters.
pub open spec fn filter_of(document_ids: Option<&Vec<String>>) -> Option<Seq<Seq<char>>> {
    match document_ids {
        Some(ids) => Some(id_texts(ids@)),
        None => None,
    }
}

/// Builds the results of a retrieval from the ranked hits and the chunks
/// that were loaded for the best `fetch_limit` of them.
///
/// The hits are taken in order of rank. A hit whose chunk was not loaded
/// is passed over, and so is one whose chunk belongs to a document
/// outside `document_ids`, where these are given. At most `limit`
/// results are returned, each with the hit's score and origin.
pub fn select_results(
    ranked: &Vec<FusedHit>,
    fetch_limit: usize,
    chunks: &Vec<Chunk>,
    document_ids: Option<&Vec<String>>,
    limit: usize,
) -> (r: Vec<ChunkWithScore>)
    ensures
        ({
            let sel = selection(
                ranked@,
                chunks@,
                filter_of(document_ids),
                min_len(fetch_limit as int, ranked@.len() as int),
            );
            &&& r@.len() == min_len(limit as int, sel.len() as int)
            &&& forall|i: int|
                0 <= i < r@.len() ==> {
                    &&& 0 <= sel[i].0 < ranked@.len()
                    &&& 0 <= sel[i].1 < chunks@.len()
                    &&& (#[trigger] r@[i]).score == ranked@[sel[i].0].score
                    &&& r@[i].search_type == ranked@[sel[i].0].search_type
                    &&& r@[i].chunk.id == ranked@[sel[i].0].chunk_id
                    &&& same_chunk(r@[i].chunk, chunks@[sel[i].1])
                    &&& passes_filter(r@[i].chunk.document_id@, filter_of(document_ids))
                }
        }),
        limit == 0 ==> r@.len() == 0,
{
    let ghost filter = filter_of(document_ids);
    let n = if fetch_limit <= ranked.len() {
        fetch_limit
    } else {
        ranked.len()
    };
    let mut r: Vec<ChunkWithScore> = Vec::new();
    let mut k: usize = 0;
    while k < n
        invariant
            k <= n <= ranked.len(),
            filter == filter_of(document_ids),
            r@.len() == min_len(
                limit as int,
                selection(ranked@, chunks@, filter, k as int).len() as int,
            ),
            forall|i: int|
                0 <= i < r@.len() ==> {
                    let sel = selection(ranked@, chunks@, filter, k as int);
                    &&& 0 <= sel[i].0 < ranked@.len()
                    &&& 0 <= sel[i].1 < chunks@.len()
                    &&& (#[trigger] r@[i]).score == ranked@[sel[i].0].score
                    &&& r@[i].search_type == ranked@[sel[i].0].search_type
                    &&& r@[i].chunk.id == ranked@[sel[i].0].chunk_id
                    &&& same_chunk(r@[i].chunk, chunks@[sel[i].1])
                    &&& passes_filter(r@[i].chunk.document_id@, filter)
                },
        decreases n - k,
    {
        let hit = ranked[k];
        let ghost prev = selection(ranked@, chunks@, filter, k as int);
        let ghost next = selection(ranked@, chunks@, filter, k + 1);
        let ghost before = r@;
        let picked: Option<usize> = match find_chunk(chunks, hit.chunk_id) {
            Some(c) => {
                let allowed = match document_ids {
                    Some(ids) => contains_text(ids, chunks[c].document_id.as_str()),
                    None => true,
                };
                if allowed {
                    Some(c)
                } else {
                    None
                }
            },
            None => None,
        };
        proof {
            assert(next == match picked {
                Some(c) => prev.push((k as int, c as int)),
                None => prev,
            });
        }
        match picked {
            Some(c) => {
                if r.len() < limit {
                    r.push(
                        ChunkWithScore {
                            chunk: copy_chunk(&chunks[c]),
                            score: hit.score,
                            search_type: hit.search_type,
                        },
                    );
                }
            },
            None => {},
        }
        proof {
            assert forall|i: int| 0 <= i < r@.len() implies {
                &&& 0 <= next[i].0 < ranked@.len()
                &&& 0 <= next[i].1 < chunks@.len()
                &&& (#[trigger] r@[i]).score == ranked@[next[i].0].score
                &&& r@[i].search_type == ranked@[next[i].0].search_type
                &&& r@[i].chunk.id == ranked@[next[i].0].chunk_id
                &&& same_chunk(r@[i].chunk, chunks@[next[i].1])
                &&& passes_filter(r@[i].chunk.document_id@, filter)
            } by {
                if i < before.len() {
                    assert(r@[i] == before[i]);
                    assert(i < prev.len());
                    assert(next[i] == prev[i]);
                } else {
                    assert(picked is Some);
                    let c = picked->0 as int;
                    assert(before.len() == prev.len());
                    assert(i == prev.len());
                    assert(next[i] == (k as int, c));
                    assert(same_chunk(r@[i].chunk, chunks@[c]));
                    assert(passes_filter(chunks@[c].document_id@, filter));
                }
            }
        }
        k += 1;
    }
    r
}

} // verus!
