//! Reciprocal-rank fusion of the dense and the sparse result list.
//!
//! A chunk scores `1 / (K + rank)` for each place it takes in a list,
//! ranks counting from 1. Scores are kept in whole units of
//! `1 / SCORE_SCALE`; each term is rounded down to a whole unit.

use vstd::prelude::*;
use crate::models::{SearchType, SCORE_SCALE};

verus! {

/// The constant of reciprocal-rank fusion.
pub const RRF_K: u64 = 60;

/// A chunk found by the retriever, with its fused score and the legs
/// that found it.
#[derive(Debug, Clone, Copy, PartialEq, Eq, Structural)]
pub struct FusedHit {
    pub chunk_id: i64,
    /// In units of `1 / SCORE_SCALE`.
    pub score: u64,
    pub search_type: SearchType,
}

/// The score for the place `rank`, counted from 1, in one list.
pub open spec fn rank_term(rank: int) -> int {
    SCORE_SCALE as int / (RRF_K as int + rank)
}

/// What the first `n` places of a list give to `id`.
pub open spec fn list_score(ids: Seq<i64>, id: i64, n: int) -> int
    decreases n,
{
    if n <= 0 || n > ids.len() {
        0
    } else {
        list_score(ids, id, n - 1) + if ids[n - 1] == id {
            rank_term(n)
        } else {
            0
        }
    }
}

/// A sum of scores as it is stored: the sum, or the largest value of the
/// field where the sum exceeds it.
pub open spec fn stored_score(sum: int) -> u64 {
    if sum > u64::MAX {
        u64::MAX
    } else if sum < 0 {
        0
    } else {
        sum as u64
    }
}

/// The fused score of `id`, as stored.
pub open spec fn fused_score(vector: Seq<i64>, fts: Seq<i64>, id: i64) -> u64 {
    stored_score(
        list_score(vector, id, vector.len() as int) + list_score(fts, id, fts.len() as int),
    )
}

/// Which legs found `id`.
pub open spec fn origin(vector: Seq<i64>, fts: Seq<i64>, id: i64) -> SearchType {
    if !fts.contains(id) {
        SearchType::Vector
    } else if vector.contains(id) {
        SearchType::Hybrid
    } else {
        SearchType::Fts
    }
}

/// The hit for `id`.
pub open spec fn hit_of(vector: Seq<i64>, fts: Seq<i64>, id: i64) -> FusedHit {
    FusedHit {
        chunk_id: id,
        score: fused_score(vector, fts, id),
        search_type: origin(vector, fts, id),
    }
}

/// The ids among the first `n` of `ids`, each once, in the order in which
/// they first occur.
pub open spec fn distinct_ids(ids: Seq<i64>, n: int) -> Seq<i64>
    decreases n,
{
    if n <= 0 || n > ids.len() {
        Seq::empty()
    } else {
        let d = distinct_ids(ids, n - 1);
        if d.contains(ids[n - 1]) {
            d
        } else {
            d.push(ids[n - 1])
        }
    }
}

/// `h` put into a list that is ordered by falling score, behind every
/// hit that scores at least as much.
pub open spec fn insert_ranked(sorted: Seq<FusedHit>, h: FusedHit) -> Seq<FusedHit>
    decreases sorted.len(),
{
    if sorted.len() == 0 {
        seq![h]
    } else if sorted.last().score >= h.score {
        sorted.push(h)
    } else {
        insert_ranked(sorted.drop_last(), h).push(sorted.last())
    }
}

/// The hits for the first `n` of `ids`, ordered by falling score; hits
/// with the same score keep the order of `ids`.
pub open spec fn ranked_hits(vector: Seq<i64>, fts: Seq<i64>, ids: Seq<i64>, n: int) -> Seq<
    FusedHit,
>
    decreases n,
{
    if n <= 0 || n > ids.len() {
        Seq::empty()
    } else {
        insert_ranked(ranked_hits(vector, fts, ids, n - 1), hit_of(vector, fts, ids[n - 1]))
    }
}

/// The fusion of two result lists, given by their chunk ids in order of
/// rank: one hit per chunk, by falling score; chunks with the same score
/// in the order in which they first occur, the dense list first.
pub open spec fn fused(vector: Seq<i64>, fts: Seq<i64>) -> Seq<FusedHit> {
    let ids = distinct_ids(vector + fts, (vector + fts).len() as int);
    ranked_hits(vector, fts, ids, ids.len() as int)
}

/// Whether hits are ordered by falling score.
pub open spec fn by_falling_score(hits: Seq<FusedHit>) -> bool {
    forall|i: int, j: int| 0 <= i <= j < hits.len() ==> hits[i].score >= hits[j].score
}

proof fn lemma_insert_ranked_at(sorted: Seq<FusedHit>, h: FusedHit, p: int)
    requires
        0 <= p <= sorted.len(),
        forall|j: int| p <= j < sorted.len() ==> sorted[j].score < h.score,
        p > 0 ==> sorted[p - 1].score >= h.score,
    ensures
        insert_ranked(sorted, h) == sorted.insert(p, h),
    decreases sorted.len(),
{
    if sorted.len() == 0 {
        assert(seq![h] =~= sorted.insert(p, h));
    } else if p == sorted.len() {
        assert(sorted.push(h) =~= sorted.insert(p, h));
    } else {
        let front = sorted.drop_last();
        lemma_insert_ranked_at(front, h, p);
        assert(front.insert(p, h).push(sorted.last()) =~= sorted.insert(p, h));
    }
}

proof fn lemma_insert_ranked_sorted(sorted: Seq<FusedHit>, h: FusedHit)
    requires
        by_falling_score(sorted),
    ensures
        by_falling_score(insert_ranked(sorted, h)),
        insert_ranked(sorted, h).len() == sorted.len() + 1,
    decreases sorted.len(),
{
    if sorted.len() == 0 {
    } else if sorted.last().score >= h.score {
    } else {
        let front = sorted.drop_last();
        assert(by_falling_score(front)) by {
            assert forall|i: int, j: int| 0 <= i <= j < front.len() implies front[i].score
                >= front[j].score by {
                assert(front[i] == sorted[i] && front[j] == sorted[j]);
            }
        }
        lemma_insert_ranked_sorted(front, h);
        lemma_insert_ranked_min(front, h, sorted.last().score);
    }
}

/// Every hit of a list that has taken in `h` scores at least `bound` if
/// `h` does and every hit of the list did.
pub proof fn lemma_insert_ranked_min(sorted: Seq<FusedHit>, h: FusedHit, bound: u64)
    requires
        h.score >= bound,
        forall|i: int| 0 <= i < sorted.len() ==> sorted[i].score >= bound,
    ensures
        forall|i: int|
            0 <= i < insert_ranked(sorted, h).len() ==> insert_ranked(sorted, h)[i].score >= bound,
    decreases sorted.len(),
{
    if sorted.len() == 0 {
    } else if sorted.last().score >= h.score {
    } else {
        let front = sorted.drop_last();
        assert forall|i: int| 0 <= i < front.len() implies front[i].score >= bound by {
            assert(front[i] == sorted[i]);
        }
        lemma_insert_ranked_min(front, h, bound);
    }
}

proof fn lemma_ranked_hits_sorted(vector: Seq<i64>, fts: Seq<i64>, ids: Seq<i64>, n: int)
    requires
        0 <= n <= ids.len(),
    ensures
        by_falling_score(ranked_hits(vector, fts, ids, n)),
        ranked_hits(vector, fts, ids, n).len() == n,
    decreases n,
{
    if n > 0 {
        lemma_ranked_hits_sorted(vector, fts, ids, n - 1);
        lemma_insert_ranked_sorted(
            ranked_hits(vector, fts, ids, n - 1),
            hit_of(vector, fts, ids[n - 1]),
        );
    }
}

/// The chunk ids of a list of hits.
pub open spec fn hit_chunk_ids(hits: Seq<FusedHit>) -> Seq<i64> {
    hits.map_values(|h: FusedHit| h.chunk_id)
}

/// Whether every hit of a list is the hit of its chunk.
pub open spec fn hits_are_fused(hits: Seq<FusedHit>, vector: Seq<i64>, fts: Seq<i64>) -> bool {
    forall|i: int| 0 <= i < hits.len() ==> #[trigger] hits[i] == hit_of(vector, fts, hits[i].chunk_id)
}

proof fn lemma_distinct_ids(ids: Seq<i64>, n: int)
    requires
        0 <= n <= ids.len(),
    ensures
        distinct_ids(ids, n).no_duplicates(),
        forall|x: i64|
            distinct_ids(ids, n).contains(x) <==> exists|j: int| 0 <= j < n && ids[j] == x,
    decreases n,
{
    if n > 0 {
        lemma_distinct_ids(ids, n - 1);
        let d = distinct_ids(ids, n - 1);
        let e = distinct_ids(ids, n);
        let last = ids[n - 1];
        if d.contains(last) {
            assert forall|x: i64| e.contains(x) <==> exists|j: int| 0 <= j < n && ids[j] == x by {
                if e.contains(x) {
                    let j = choose|j: int| 0 <= j < n - 1 && ids[j] == x;
                    assert(0 <= j < n && ids[j] == x);
                }
                if exists|j: int| 0 <= j < n && ids[j] == x {
                    let j = choose|j: int| 0 <= j < n && ids[j] == x;
                    if j == n - 1 {
                        assert(d.contains(x));
                    } else {
                        assert(0 <= j < n - 1 && ids[j] == x);
                    }
                }
            }
        } else {
            assert(e == d.push(last));
            assert forall|i: int, j: int| 0 <= i < e.len() && 0 <= j < e.len() && i != j implies e[i]
                != e[j] by {
                if i < d.len() && j < d.len() {
                    assert(d[i] != d[j]);
                } else if i < d.len() {
                    assert(d.contains(d[i]));
                } else {
                    assert(d.contains(d[j]));
                }
            }
            assert forall|x: i64| e.contains(x) <==> exists|j: int| 0 <= j < n && ids[j] == x by {
                if e.contains(x) {
                    let k = choose|k: int| 0 <= k < e.len() && e[k] == x;
                    if k < d.len() {
                        assert(d.contains(x));
                        let j = choose|j: int| 0 <= j < n - 1 && ids[j] == x;
                        assert(0 <= j < n && ids[j] == x);
                    } else {
                        assert(ids[n - 1] == x);
                    }
                }
                if exists|j: int| 0 <= j < n && ids[j] == x {
                    let j = choose|j: int| 0 <= j < n && ids[j] == x;
                    if j == n - 1 {
                        assert(e[d.len() as int] == x);
                    } else {
                        assert(0 <= j < n - 1 && ids[j] == x);
                        assert(d.contains(x));
                        let k = choose|k: int| 0 <= k < d.len() && d[k] == x;
                        assert(e[k] == x);
                    }
                }
            }
        }
    } else {
        assert forall|x: i64| !distinct_ids(ids, n).contains(x) by {}
    }
}

proof fn lemma_insert_ranked_ids(sorted: Seq<FusedHit>, h: FusedHit)
    ensures
        insert_ranked(sorted, h).len() == sorted.len() + 1,
        forall|x: i64|
            hit_chunk_ids(insert_ranked(sorted, h)).contains(x) <==> (hit_chunk_ids(
                sorted,
            ).contains(x) || x == h.chunk_id),
        hit_chunk_ids(sorted).no_duplicates() && !hit_chunk_ids(sorted).contains(h.chunk_id)
            ==> hit_chunk_ids(insert_ranked(sorted, h)).no_duplicates(),
        forall|i: int|
            0 <= i < insert_ranked(sorted, h).len() ==> #[trigger] insert_ranked(sorted, h)[i]
                == h || exists|j: int| 0 <= j < sorted.len() && sorted[j] == insert_ranked(
                sorted,
                h,
            )[i],
    decreases sorted.len(),
{
    let out = insert_ranked(sorted, h);
    let ids = hit_chunk_ids(sorted);
    if sorted.len() == 0 {
        assert(out =~= seq![h]);
        assert(hit_chunk_ids(out) =~= seq![h.chunk_id]);
        assert forall|x: i64| hit_chunk_ids(out).contains(x) <==> (ids.contains(x) || x
            == h.chunk_id) by {
            if x == h.chunk_id {
                assert(hit_chunk_ids(out)[0] == x);
            }
        }
    } else if sorted.last().score >= h.score {
        assert(out == sorted.push(h));
        assert(hit_chunk_ids(out) =~= ids.push(h.chunk_id));
        lemma_push_ids(ids, h.chunk_id);
        assert forall|i: int| 0 <= i < out.len() implies #[trigger] out[i] == h || exists|j: int|
            0 <= j < sorted.len() && sorted[j] == out[i] by {
            if i < sorted.len() {
                assert(sorted[i] == out[i]);
            }
        }
    } else {
        let front = sorted.drop_last();
        let last = sorted.last();
        lemma_insert_ranked_ids(front, h);
        let mid = insert_ranked(front, h);
        assert(out == mid.push(last));
        assert(hit_chunk_ids(out) =~= hit_chunk_ids(mid).push(last.chunk_id));
        assert(ids =~= hit_chunk_ids(front).push(last.chunk_id));
        lemma_push_ids(hit_chunk_ids(mid), last.chunk_id);
        lemma_push_ids(hit_chunk_ids(front), last.chunk_id);
        assert forall|x: i64| hit_chunk_ids(out).contains(x) <==> (ids.contains(x) || x
            == h.chunk_id) by {
            let in_mid = hit_chunk_ids(mid).contains(x);
            let in_front = hit_chunk_ids(front).contains(x);
            assert(hit_chunk_ids(mid).push(last.chunk_id).contains(x) <==> (in_mid || x
                == last.chunk_id));
            assert(hit_chunk_ids(out).contains(x) <==> (in_mid || x == last.chunk_id));
            assert(in_mid <==> (in_front || x == h.chunk_id));
            assert(hit_chunk_ids(front).push(last.chunk_id).contains(x) <==> (in_front || x
                == last.chunk_id));
            assert(ids.contains(x) <==> (in_front || x == last.chunk_id));
        }
        if ids.no_duplicates() && !ids.contains(h.chunk_id) {
            assert(hit_chunk_ids(front).no_duplicates()) by {
                assert forall|i: int, j: int|
                    0 <= i < front.len() && 0 <= j < front.len() && i != j implies hit_chunk_ids(
                    front,
                )[i] != hit_chunk_ids(front)[j] by {
                    assert(ids[i] != ids[j]);
                }
            }
            assert(!hit_chunk_ids(front).contains(h.chunk_id));
            assert(!hit_chunk_ids(front).contains(last.chunk_id)) by {
                if hit_chunk_ids(front).contains(last.chunk_id) {
                    let k = choose|k: int|
                        0 <= k < front.len() && hit_chunk_ids(front)[k] == last.chunk_id;
                    assert(ids[k] == ids[sorted.len() - 1]);
                }
            }
            assert(last.chunk_id != h.chunk_id) by {
                assert(ids[sorted.len() - 1] == last.chunk_id);
            }
            assert(!hit_chunk_ids(mid).contains(last.chunk_id));
        }
        assert forall|i: int| 0 <= i < out.len() implies #[trigger] out[i] == h || exists|j: int|
            0 <= j < sorted.len() && sorted[j] == out[i] by {
            if i < mid.len() {
                assert(out[i] == mid[i]);
                if mid[i] != h {
                    let j = choose|j: int| 0 <= j < front.len() && front[j] == mid[i];
                    assert(sorted[j] == out[i]);
                }
            } else {
                assert(sorted[sorted.len() - 1] == out[i]);
            }
        }
    }
}

proof fn lemma_push_ids(ids: Seq<i64>, x: i64)
    ensures
        forall|y: i64| ids.push(x).contains(y) <==> (ids.contains(y) || y == x),
        ids.no_duplicates() && !ids.contains(x) ==> ids.push(x).no_duplicates(),
{
    let p = ids.push(x);
    assert forall|y: i64| p.contains(y) <==> (ids.contains(y) || y == x) by {
        if p.contains(y) {
            let k = choose|k: int| 0 <= k < p.len() && p[k] == y;
            if k < ids.len() {
                assert(ids[k] == y);
            }
        }
        if ids.contains(y) {
            let k = choose|k: int| 0 <= k < ids.len() && ids[k] == y;
            assert(p[k] == y);
        }
        if y == x {
            assert(p[ids.len() as int] == y);
        }
    }
    if ids.no_duplicates() && !ids.contains(x) {
        assert forall|i: int, j: int| 0 <= i < p.len() && 0 <= j < p.len() && i != j implies p[i]
            != p[j] by {
            if i < ids.len() && j < ids.len() {
            } else if i < ids.len() {
                assert(ids.contains(ids[i]));
            } else {
                assert(ids.contains(ids[j]));
            }
        }
    }
}

proof fn lemma_ranked_hits_ids(vector: Seq<i64>, fts: Seq<i64>, ids: Seq<i64>, n: int)
    requires
        0 <= n <= ids.len(),
        ids.no_duplicates(),
    ensures
        hit_chunk_ids(ranked_hits(vector, fts, ids, n)).no_duplicates(),
        forall|x: i64|
            hit_chunk_ids(ranked_hits(vector, fts, ids, n)).contains(x) <==> exists|j: int|
                0 <= j < n && ids[j] == x,
        hits_are_fused(ranked_hits(vector, fts, ids, n), vector, fts),
    decreases n,
{
    let out = ranked_hits(vector, fts, ids, n);
    if n > 0 {
        lemma_ranked_hits_ids(vector, fts, ids, n - 1);
        let prev = ranked_hits(vector, fts, ids, n - 1);
        let h = hit_of(vector, fts, ids[n - 1]);
        lemma_insert_ranked_ids(prev, h);
        assert(!hit_chunk_ids(prev).contains(h.chunk_id)) by {
            if hit_chunk_ids(prev).contains(h.chunk_id) {
                let j = choose|j: int| 0 <= j < n - 1 && ids[j] == h.chunk_id;
                assert(ids[j] == ids[n - 1]);
            }
        }
        assert forall|x: i64| hit_chunk_ids(out).contains(x) <==> exists|j: int|
            0 <= j < n && ids[j] == x by {
            let in_prev = hit_chunk_ids(prev).contains(x);
            assert(hit_chunk_ids(out).contains(x) <==> (in_prev || x == h.chunk_id));
            assert(in_prev <==> exists|j: int| 0 <= j < n - 1 && ids[j] == x);
            if hit_chunk_ids(out).contains(x) {
                if x == h.chunk_id {
                    assert(ids[n - 1] == x);
                } else {
                    assert(in_prev);
                    let j = choose|j: int| 0 <= j < n - 1 && ids[j] == x;
                    assert(0 <= j < n && ids[j] == x);
                }
            }
            if exists|j: int| 0 <= j < n && ids[j] == x {
                let j = choose|j: int| 0 <= j < n && ids[j] == x;
                if j < n - 1 {
                    assert(0 <= j < n - 1 && ids[j] == x);
                    assert(in_prev);
                } else {
                    assert(x == h.chunk_id);
                }
            }
        }
        assert forall|i: int| 0 <= i < out.len() implies #[trigger] out[i] == hit_of(
            vector,
            fts,
            out[i].chunk_id,
        ) by {
            if out[i] != h {
                let j = choose|j: int| 0 <= j < prev.len() && prev[j] == out[i];
                assert(prev[j] == hit_of(vector, fts, prev[j].chunk_id));
            }
        }
    } else {
        assert forall|x: i64| !hit_chunk_ids(out).contains(x) by {}
    }
}

/// What the fusion of two result lists holds: one hit for each chunk
/// that is in either list, and no other; the hit of a chunk is the one
/// that its places in the two lists give; and the hits stand by falling
/// score.
pub proof fn lemma_fused_is_complete(vector: Seq<i64>, fts: Seq<i64>)
    ensures
        hit_chunk_ids(fused(vector, fts)).no_duplicates(),
        forall|x: i64|
            hit_chunk_ids(fused(vector, fts)).contains(x) <==> (vector.contains(x) || fts.contains(
                x,
            )),
        hits_are_fused(fused(vector, fts), vector, fts),
        by_falling_score(fused(vector, fts)),
{
    let all = vector + fts;
    let ids = distinct_ids(all, all.len() as int);
    lemma_distinct_ids(all, all.len() as int);
    lemma_ranked_hits_ids(vector, fts, ids, ids.len() as int);
    lemma_ranked_hits_sorted(vector, fts, ids, ids.len() as int);
    assert forall|x: i64| hit_chunk_ids(fused(vector, fts)).contains(x) <==> (vector.contains(x)
        || fts.contains(x)) by {
        if hit_chunk_ids(fused(vector, fts)).contains(x) {
            let j = choose|j: int| 0 <= j < ids.len() && ids[j] == x;
            assert(ids.contains(x));
            let k = choose|k: int| 0 <= k < all.len() && all[k] == x;
            if k < vector.len() {
                assert(vector[k] == x);
            } else {
                assert(fts[k - vector.len()] == x);
            }
        }
        if vector.contains(x) {
            let k = choose|k: int| 0 <= k < vector.len() && vector[k] == x;
            assert(all[k] == x);
            assert(ids.contains(x));
            let j = choose|j: int| 0 <= j < ids.len() && ids[j] == x;
        }
        if fts.contains(x) {
            let k = choose|k: int| 0 <= k < fts.len() && fts[k] == x;
            assert(all[vector.len() + k] == x);
            assert(ids.contains(x));
            let j = choose|j: int| 0 <= j < ids.len() && ids[j] == x;
        }
    }
}

proof fn lemma_list_score_nonnegative(ids: Seq<i64>, id: i64, n: int)
    ensures
        list_score(ids, id, n) >= 0,
    decreases n,
{
    if n <= 0 || n > ids.len() {
    } else {
        lemma_list_score_nonnegative(ids, id, n - 1);
        assert(rank_term(n) >= 0) by (nonlinear_arith)
            requires
                n > 0,
                rank_term(n) == 1_000_000_000_000int / (60 + n),
        ;
    }
}

/// The hit that the sparse list alone gives for its place `i`, counted
/// from 0: found by the full-text leg, with the score of its rank.
pub open spec fn sparse_hit(fts: Seq<i64>, i: int) -> FusedHit {
    FusedHit {
        chunk_id: fts[i],
        score: stored_score(rank_term(i + 1)),
        search_type: SearchType::Fts,
    }
}

proof fn lemma_rank_term_falls(n: int)
    requires
        n >= 1,
    ensures
        0 <= rank_term(n + 1) <= rank_term(n),
{
    vstd::arithmetic::div_mod::lemma_div_is_ordered_by_denominator(
        SCORE_SCALE as int,
        RRF_K as int + n,
        RRF_K as int + n + 1,
    );
    vstd::arithmetic::div_mod::lemma_div_pos_is_pos(SCORE_SCALE as int, RRF_K as int + n + 1);
}

proof fn lemma_distinct_prefix(ids: Seq<i64>, n: int)
    requires
        ids.no_duplicates(),
        0 <= n <= ids.len(),
    ensures
        distinct_ids(ids, n) == ids.take(n),
    decreases n,
{
    if n > 0 {
        lemma_distinct_prefix(ids, n - 1);
        let d = ids.take(n - 1);
        if d.contains(ids[n - 1]) {
            let k = choose|k: int| 0 <= k < d.len() && d[k] == ids[n - 1];
            assert(ids[k] == ids[n - 1]);
        }
        assert(d.push(ids[n - 1]) =~= ids.take(n));
    } else {
        assert(ids.take(0) =~= Seq::<i64>::empty());
    }
}

proof fn lemma_score_of_place(ids: Seq<i64>, i: int, n: int)
    requires
        ids.no_duplicates(),
        0 <= i < ids.len(),
        0 <= n <= ids.len(),
    ensures
        list_score(ids, ids[i], n) == if i < n {
            rank_term(i + 1)
        } else {
            0
        },
    decreases n,
{
    if n > 0 {
        lemma_score_of_place(ids, i, n - 1);
    }
}

proof fn lemma_sparse_ranked(fts: Seq<i64>, n: int)
    requires
        fts.no_duplicates(),
        0 <= n <= fts.len(),
    ensures
        ranked_hits(Seq::empty(), fts, fts, n) == Seq::new(
            n as nat,
            |i: int| sparse_hit(fts, i),
        ),
    decreases n,
{
    let want = Seq::new(n as nat, |i: int| sparse_hit(fts, i));
    if n > 0 {
        lemma_sparse_ranked(fts, n - 1);
        let before = Seq::new((n - 1) as nat, |i: int| sparse_hit(fts, i));
        let id = fts[n - 1];
        let h = hit_of(Seq::empty(), fts, id);
        lemma_score_of_place(fts, n - 1, fts.len() as int);
        assert(fts.contains(id));
        assert(!Seq::<i64>::empty().contains(id));
        assert(h == sparse_hit(fts, n - 1));
        if n > 1 {
            lemma_rank_term_falls(n - 1);
            assert(before.last() == sparse_hit(fts, n - 2));
            assert(before.last().score >= h.score);
        }
        assert(insert_ranked(before, h) == before.push(h));
        assert(before.push(h) =~= want);
    } else {
        assert(ranked_hits(Seq::empty(), fts, fts, n) =~= want);
    }
}

/// Where the dense list is empty and no chunk stands twice in the sparse
/// list, the fusion is the sparse list in its own order: each chunk is
/// one hit, found by the full-text leg, with the score of its rank.
pub proof fn lemma_sparse_alone_keeps_order(fts: Seq<i64>)
    requires
        fts.no_duplicates(),
    ensures
        fused(Seq::empty(), fts).len() == fts.len(),
        forall|i: int|
            0 <= i < fts.len() ==> #[trigger] fused(Seq::empty(), fts)[i] == sparse_hit(fts, i),
{
    let all = Seq::<i64>::empty() + fts;
    assert(all =~= fts);
    lemma_distinct_prefix(fts, fts.len() as int);
    assert(fts.take(fts.len() as int) =~= fts);
    lemma_sparse_ranked(fts, fts.len() as int);
}

/// Whether `id` is among `ids`.
pub fn contains_id(ids: &Vec<i64>, id: i64) -> (r: bool)
    ensures
        r == ids@.contains(id),
{
    let mut i: usize = 0;
    while i < ids.len()
        invariant
            i <= ids.len(),
            forall|j: int| 0 <= j < i ==> ids@[j] != id,
        decreases ids.len() - i,
    {
        if ids[i] == id {
            return true;
        }
        i += 1;
    }
    false
}

/// The score for the place `rank`, counted from 1, in one list.
pub fn rank_score(rank: usize) -> (r: u64)
    requires
        rank >= 1,
    ensures
        r == rank_term(rank as int),
        r <= SCORE_SCALE,
{
    let d: u128 = RRF_K as u128 + rank as u128;
    let q: u128 = SCORE_SCALE as u128 / d;
    assert(q <= SCORE_SCALE) by (nonlinear_arith)
        requires
            q == SCORE_SCALE as u128 / d,
            d >= 1,
    ;
    q as u64
}

fn add_scores(a: u64, b: u64) -> (r: u64)
    ensures
        r == stored_score(a + b),
{
    if a > u64::MAX - b {
        u64::MAX
    } else {
        a + b
    }
}

/// What one result list gives to `id`, as stored.
pub fn leg_score(ids: &Vec<i64>, id: i64) -> (r: u64)
    ensures
        r == stored_score(list_score(ids@, id, ids@.len() as int)),
{
    let mut acc: u64 = 0;
    let mut n: usize = 0;
    while n < ids.len()
        invariant
            n <= ids.len(),
            acc == stored_score(list_score(ids@, id, n as int)),
        decreases ids.len() - n,
    {
        proof {
            lemma_list_score_nonnegative(ids@, id, n as int);
        }
        if ids[n] == id {
            let t = rank_score(n + 1);
            acc = add_scores(acc, t);
        }
        n += 1;
    }
    acc
}

/// The hit for `id`: its fused score and the legs that found it.
pub fn fuse_one(vector: &Vec<i64>, fts: &Vec<i64>, id: i64) -> (h: FusedHit)
    ensures
        h == hit_of(vector@, fts@, id),
{
    proof {
        lemma_list_score_nonnegative(vector@, id, vector@.len() as int);
        lemma_list_score_nonnegative(fts@, id, fts@.len() as int);
    }
    let score = add_scores(leg_score(vector, id), leg_score(fts, id));
    let search_type = if !contains_id(fts, id) {
        SearchType::Vector
    } else if contains_id(vector, id) {
        SearchType::Hybrid
    } else {
        SearchType::Fts
    };
    FusedHit { chunk_id: id, score, search_type }
}

fn first_occurrences(vector: &Vec<i64>, fts: &Vec<i64>) -> (r: Vec<i64>)
    ensures
        r@ == distinct_ids(vector@ + fts@, (vector@ + fts@).len() as int),
{
    let ghost all = vector@ + fts@;
    let mut r: Vec<i64> = Vec::new();
    let mut i: usize = 0;
    while i < vector.len()
        invariant
            i <= vector.len(),
            all == vector@ + fts@,
            r@ == distinct_ids(all, i as int),
        decreases vector.len() - i,
    {
        assert(all[i as int] == vector@[i as int]);
        if !contains_id(&r, vector[i]) {
            r.push(vector[i]);
        }
        i += 1;
    }
    let mut j: usize = 0;
    while j < fts.len()
        invariant
            j <= fts.len(),
            all == vector@ + fts@,
            r@ == distinct_ids(all, vector@.len() + j),
        decreases fts.len() - j,
    {
        assert(all[vector@.len() + j] == fts@[j as int]);
        if !contains_id(&r, fts[j]) {
            r.push(fts[j]);
        }
        j += 1;
    }
    r
}

/// Fuses the dense and the sparse result list, each given by its chunk
/// ids in order of rank.
///
/// The result depends on the two lists alone. It holds one hit per chunk
/// id, with the sum of the chunk's reciprocal-rank scores, ordered by
/// falling score; chunks with the same score stand in the order in which
/// they first occur, the dense list first. A chunk of both lists is
/// tagged hybrid.
pub fn reciprocal_rank_fusion(vector: &Vec<i64>, fts: &Vec<i64>) -> (r: Vec<FusedHit>)
    ensures
        r@ == fused(vector@, fts@),
        by_falling_score(r@),
        vector@.len() == 0 && fts@.len() == 0 ==> r@.len() == 0,
{
    let ids = first_occurrences(vector, fts);
    let mut r: Vec<FusedHit> = Vec::new();
    let mut n: usize = 0;
    while n < ids.len()
        invariant
            n <= ids.len(),
            r@ == ranked_hits(vector@, fts@, ids@, n as int),
        decreases ids.len() - n,
    {
        let h = fuse_one(vector, fts, ids[n]);
        let mut p: usize = r.len();
        while p > 0 && r[p - 1].score < h.score
            invariant
                p <= r.len(),
                forall|j: int| p <= j < r.len() ==> r@[j].score < h.score,
            decreases p,
        {
            p -= 1;
        }
        proof {
            lemma_insert_ranked_at(r@, h, p as int);
        }
        r.insert(p, h);
        n += 1;
    }
    proof {
        lemma_ranked_hits_sorted(vector@, fts@, ids@, ids@.len() as int);
    }
    r
}

} // verus!
