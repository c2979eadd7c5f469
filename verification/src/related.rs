//! Documents related to a document: those whose chunks lie nearest to
//! its first chunks in the vector index.
//!
//! The searches in the index and the loading of documents are the
//! caller's part.

use vstd::prelude::*;
use crate::models::SCORE_SCALE;
use crate::retriever::{capped_product, similarity, similarity_of};
use crate::text::str_eq;

verus! {

/// The chunks of a document that are searched from.
pub const RELATED_PROBES: usize = 3;

/// The related documents that are reported after an ingestion, at most.
pub const RELATED_LIMIT: usize = 5;

/// The least similarity of a related document that is reported after an
/// ingestion: three tenths.
pub const RELATED_MIN_SIMILARITY: u64 = 300_000_000_000;

/// A document that shares content with another.
#[derive(Debug, Clone)]
pub struct RelatedDocument {
    pub id: String,
    pub title: String,
    /// In units of `1 / SCORE_SCALE`.
    pub similarity: u64,
}

/// A chunk found near a chunk of the source document, with the document
/// it belongs to.
#[derive(Debug, Clone)]
pub struct RelatedCandidate {
    pub document_id: String,
    pub title: String,
    /// In units of `1 / SCORE_SCALE`.
    pub distance: u64,
}

/// What is reported of a related document.
pub struct RelatedOutline {
    pub id: Seq<char>,
    pub title: Seq<char>,
    pub similarity: u64,
}

/// The outline of a related document.
pub open spec fn outline_of(d: RelatedDocument) -> RelatedOutline {
    RelatedOutline { id: d.id@, title: d.title@, similarity: d.similarity }
}

/// The outlines of a list of related documents.
pub open spec fn outlines_of(docs: Seq<RelatedDocument>) -> Seq<RelatedOutline> {
    docs.map_values(|d: RelatedDocument| outline_of(d))
}

/// The place of the first of the first `n` outlines that is of document
/// `id`, or -1.
pub open spec fn outline_index(found: Seq<RelatedOutline>, id: Seq<char>, n: int) -> int
    decreases n,
{
    if n <= 0 || n > found.len() {
        -1
    } else {
        let before = outline_index(found, id, n - 1);
        if before >= 0 {
            before
        } else if found[n - 1].id == id {
            n - 1
        } else {
            -1
        }
    }
}

/// Whether a candidate counts: it belongs to another document than the
/// source, and is at least as similar as asked for.
pub open spec fn counts(c: RelatedCandidate, source: Seq<char>, min_similarity: u64) -> bool {
    c.document_id@ != source && similarity_of(c.distance) >= min_similarity
}

/// The documents of the first `n` candidates that count, in the order in
/// which they first occur, each with its title where it first occurs and
/// the greatest similarity of its candidates.
pub open spec fn gathered(
    candidates: Seq<RelatedCandidate>,
    source: Seq<char>,
    min_similarity: u64,
    n: int,
) -> Seq<RelatedOutline>
    decreases n,
{
    if n <= 0 || n > candidates.len() {
        Seq::empty()
    } else {
        let prev = gathered(candidates, source, min_similarity, n - 1);
        let c = candidates[n - 1];
        if !counts(c, source, min_similarity) {
            prev
        } else {
            let i = outline_index(prev, c.document_id@, prev.len() as int);
            if 0 <= i < prev.len() {
                if similarity_of(c.distance) > prev[i].similarity {
                    prev.update(
                        i,
                        RelatedOutline {
                            id: prev[i].id,
                            title: prev[i].title,
                            similarity: similarity_of(c.distance),
                        },
                    )
                } else {
                    prev
                }
            } else {
                prev.push(
                    RelatedOutline {
                        id: c.document_id@,
                        title: c.title@,
                        similarity: similarity_of(c.distance),
                    },
                )
            }
        }
    }
}

/// `d` put into a list that is ordered by falling similarity, behind
/// every document that is at least as similar.
pub open spec fn insert_related(sorted: Seq<RelatedOutline>, d: RelatedOutline) -> Seq<
    RelatedOutline,
>
    decreases sorted.len(),
{
    if sorted.len() == 0 {
        seq![d]
    } else if sorted.last().similarity >= d.similarity {
        sorted.push(d)
    } else {
        insert_related(sorted.drop_last(), d).push(sorted.last())
    }
}

/// The first `n` documents ordered by falling similarity; documents of
/// the same similarity keep their order.
pub open spec fn ranked_related(docs: Seq<RelatedOutline>, n: int) -> Seq<RelatedOutline>
    decreases n,
{
    if n <= 0 || n > docs.len() {
        Seq::empty()
    } else {
        insert_related(ranked_related(docs, n - 1), docs[n - 1])
    }
}

/// The documents related to `source`, given the candidates found near
/// its first chunks: the `limit` most similar of the documents that
/// count.
pub open spec fn related_to(
    candidates: Seq<RelatedCandidate>,
    source: Seq<char>,
    limit: int,
    min_similarity: u64,
) -> Seq<RelatedOutline> {
    let found = gathered(candidates, source, min_similarity, candidates.len() as int);
    let ranked = ranked_related(found, found.len() as int);
    if ranked.len() <= limit {
        ranked
    } else if limit <= 0 {
        Seq::empty()
    } else {
        ranked.subrange(0, limit)
    }
}

proof fn lemma_insert_related_at(sorted: Seq<RelatedOutline>, d: RelatedOutline, p: int)
    requires
        0 <= p <= sorted.len(),
        forall|j: int| p <= j < sorted.len() ==> sorted[j].similarity < d.similarity,
        p > 0 ==> sorted[p - 1].similarity >= d.similarity,
    ensures
        insert_related(sorted, d) == sorted.insert(p, d),
    decreases sorted.len(),
{
    if sorted.len() == 0 {
        assert(seq![d] =~= sorted.insert(p, d));
    } else if p == sorted.len() {
        assert(sorted.push(d) =~= sorted.insert(p, d));
    } else {
        let front = sorted.drop_last();
        lemma_insert_related_at(front, d, p);
        assert(front.insert(p, d).push(sorted.last()) =~= sorted.insert(p, d));
    }
}

proof fn lemma_outline_index_found(found: Seq<RelatedOutline>, id: Seq<char>, k: int, n: int)
    requires
        0 <= k < n <= found.len(),
        outline_index(found, id, k) == -1,
        found[k].id == id,
    ensures
        outline_index(found, id, n) == k,
    decreases n,
{
    if n > k + 1 {
        lemma_outline_index_found(found, id, k, n - 1);
    }
}

/// The chunks of a document that are searched from: its first three.
pub fn probe_chunks(chunk_ids: &Vec<i64>) -> (r: Vec<i64>)
    ensures
        r@ == if chunk_ids@.len() <= RELATED_PROBES {
            chunk_ids@
        } else {
            chunk_ids@.subrange(0, RELATED_PROBES as int)
        },
{
    let n = if chunk_ids.len() <= RELATED_PROBES {
        chunk_ids.len()
    } else {
        RELATED_PROBES
    };
    let mut r: Vec<i64> = Vec::new();
    let mut i: usize = 0;
    while i < n
        invariant
            i <= n <= chunk_ids.len(),
            r@ == chunk_ids@.subrange(0, i as int),
        decreases n - i,
    {
        r.push(chunk_ids[i]);
        proof {
            assert(chunk_ids@.subrange(0, i + 1) =~= chunk_ids@.subrange(0, i as int).push(
                chunk_ids@[i as int],
            ));
        }
        i += 1;
    }
    proof {
        assert(chunk_ids@.subrange(0, chunk_ids@.len() as int) =~= chunk_ids@);
    }
    r
}

/// The neighbours that are asked for of each chunk that is searched
/// from: twice the limit.
pub fn probe_width(limit: usize) -> (k: usize)
    ensures
        k == capped_product(limit, 2),
{
    match limit.checked_mul(2) {
        Some(k) => k,
        None => usize::MAX,
    }
}

fn find_outline(found: &Vec<RelatedDocument>, id: &str) -> (r: Option<usize>)
    ensures
        match r {
            Some(i) => i == outline_index(outlines_of(found@), id@, found@.len() as int) && i
                < found@.len(),
            None => outline_index(outlines_of(found@), id@, found@.len() as int) == -1,
        },
{
    let mut n: usize = 0;
    while n < found.len()
        invariant
            n <= found.len(),
            outline_index(outlines_of(found@), id@, n as int) == -1,
        decreases found.len() - n,
    {
        if str_eq(found[n].id.as_str(), id) {
            proof {
                assert(outlines_of(found@)[n as int].id == id@);
                lemma_outline_index_found(
                    outlines_of(found@),
                    id@,
                    n as int,
                    found@.len() as int,
                );
            }
            return Some(n);
        }
        n += 1;
    }
    None
}

fn gather(candidates: &Vec<RelatedCandidate>, source: &str, min_similarity: u64) -> (r: Vec<
    RelatedDocument,
>)
    ensures
        outlines_of(r@) == gathered(
            candidates@,
            source@,
            min_similarity,
            candidates@.len() as int,
        ),
{
    let mut found: Vec<RelatedDocument> = Vec::new();
    let mut n: usize = 0;
    proof {
        assert(outlines_of(found@) =~= gathered(candidates@, source@, min_similarity, 0));
    }
    while n < candidates.len()
        invariant
            n <= candidates.len(),
            outlines_of(found@) == gathered(candidates@, source@, min_similarity, n as int),
        decreases candidates.len() - n,
    {
        let c = &candidates[n];
        let ghost before = found@;
        let sim = similarity(c.distance);
        if !str_eq(c.document_id.as_str(), source) && sim >= min_similarity {
            match find_outline(&found, c.document_id.as_str()) {
                Some(i) => {
                    if sim > found[i].similarity {
                        let updated = RelatedDocument {
                            id: found[i].id.clone(),
                            title: found[i].title.clone(),
                            similarity: sim,
                        };
                        found.set(i, updated);
                        proof {
                            assert(outlines_of(found@) =~= outlines_of(before).update(
                                i as int,
                                RelatedOutline {
                                    id: before[i as int].id@,
                                    title: before[i as int].title@,
                                    similarity: sim,
                                },
                            ));
                        }
                    }
                },
                None => {
                    found.push(
                        RelatedDocument {
                            id: c.document_id.clone(),
                            title: c.title.clone(),
                            similarity: sim,
                        },
                    );
                    proof {
                        assert(outlines_of(found@) =~= outlines_of(before).push(
                            RelatedOutline {
                                id: c.document_id@,
                                title: c.title@,
                                similarity: sim,
                            },
                        ));
                    }
                },
            }
        }
        n += 1;
    }
    found
}

/// Finds the documents related to document `source`, given the chunks
/// found near its first chunks, each with its document.
///
/// Chunks of the source itself do not count, nor chunks less similar
/// than `min_similarity`. A document counts with the greatest similarity
/// of its chunks. The `limit` most similar documents are returned, the
/// most similar first.
pub fn find_related_documents(
    source: &str,
    candidates: &Vec<RelatedCandidate>,
    limit: usize,
    min_similarity: u64,
) -> (r: Vec<RelatedDocument>)
    ensures
        outlines_of(r@) == related_to(candidates@, source@, limit as int, min_similarity),
        r@.len() <= limit,
        candidates@.len() == 0 ==> r@.len() == 0,
{
    let found = gather(candidates, source, min_similarity);
    let ghost outlines = outlines_of(found@);
    let mut ranked: Vec<RelatedDocument> = Vec::new();
    let mut n: usize = 0;
    proof {
        assert(outlines_of(ranked@) =~= ranked_related(outlines, 0));
    }
    while n < found.len()
        invariant
            n <= found.len(),
            outlines == outlines_of(found@),
            outlines_of(ranked@) == ranked_related(outlines, n as int),
        decreases found.len() - n,
    {
        let d = RelatedDocument {
            id: found[n].id.clone(),
            title: found[n].title.clone(),
            similarity: found[n].similarity,
        };
        let ghost before = ranked@;
        let mut p: usize = ranked.len();
        while p > 0 && ranked[p - 1].similarity < d.similarity
            invariant
                p <= ranked.len(),
                forall|j: int| p <= j < ranked.len() ==> ranked@[j].similarity < d.similarity,
            decreases p,
        {
            p -= 1;
        }
        proof {
            assert(outline_of(d) == outlines[n as int]);
            assert forall|j: int| p <= j < before.len() implies outlines_of(before)[j].similarity
                < outline_of(d).similarity by {
                assert(outlines_of(before)[j].similarity == before[j].similarity);
            }
            if p > 0 {
                assert(outlines_of(before)[p - 1].similarity == before[p - 1].similarity);
            }
            lemma_insert_related_at(outlines_of(before), outline_of(d), p as int);
        }
        ranked.insert(p, d);
        proof {
            assert(outlines_of(ranked@) =~= outlines_of(before).insert(p as int, outline_of(d)));
        }
        n += 1;
    }
    if ranked.len() > limit {
        ranked.truncate(limit);
        proof {
            assert(outlines_of(ranked@) =~= ranked_related(
                outlines,
                outlines.len() as int,
            ).subrange(0, limit as int));
        }
    }
    ranked
}

} // verus!
