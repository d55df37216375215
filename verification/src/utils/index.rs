//! The semantic index: an immutable collection of embedded documents,
//! queried by exact cosine-similarity ranking.
//!
//! `top_n` returns the `n` best matches for a query vector, ordered by
//! descending similarity with ties broken by corpus insertion order. The
//! contract pins the result completely: the hits are mutually ordered by
//! [`SemanticIndex::ranks_before`], a strict total order, and every
//! document left out ranks after every hit.

use vstd::prelude::*;

use super::similarity::{
    compare_sim, dot, lemma_sim_ge_trans, lemma_sim_total, sim_eq, sim_ge, sim_gt, sim_wf,
    vector_ok, SimOrder, Similarity, MAX_ACCUM, MAX_COMPONENT, MAX_DIM,
};
use crate::num::mag;
use crate::tools::InitError;

verus! {

/// One corpus entry with its embedding: an identifier, a human label, the
/// source text entries, and the quantized embedding vector.
pub struct EmbeddedDocument {
    pub id: String,
    pub label: String,
    pub entries: Vec<String>,
    pub vector: Vec<i64>,
}

/// The mathematical content of a document: every field as a sequence.
pub struct DocView {
    pub id: Seq<char>,
    pub label: Seq<char>,
    pub entries: Seq<Seq<char>>,
    pub vector: Seq<i64>,
}

impl DeepView for EmbeddedDocument {
    type V = DocView;

    open spec fn deep_view(&self) -> DocView {
        DocView {
            id: self.id@,
            label: self.label@,
            entries: self.entries.deep_view(),
            vector: self.vector@,
        }
    }
}

/// Copies a vector of strings, entry for entry.
fn clone_strings(v: &Vec<String>) -> (r: Vec<String>)
    ensures
        r.deep_view() == v.deep_view(),
{
    let mut r: Vec<String> = Vec::new();
    let mut i: usize = 0;
    while i < v.len()
        invariant
            i <= v@.len(),
            r@.len() == i,
            forall|k: int| 0 <= k < i ==> (#[trigger] r@[k])@ == v@[k]@,
        decreases v@.len() - i,
    {
        r.push(v[i].clone());
        i += 1;
    }
    proof {
        assert(r.deep_view() =~= v.deep_view());
    }
    r
}

/// Copies a quantized vector, component for component.
fn clone_components(v: &Vec<i64>) -> (r: Vec<i64>)
    ensures
        r@ == v@,
{
    let mut r: Vec<i64> = Vec::new();
    let mut i: usize = 0;
    while i < v.len()
        invariant
            i <= v@.len(),
            r@ =~= v@.take(i as int),
        decreases v@.len() - i,
    {
        r.push(v[i]);
        i += 1;
    }
    proof {
        assert(r@ =~= v@);
    }
    r
}

impl Clone for EmbeddedDocument {
    /// The copy carries exactly the same content.
    fn clone(&self) -> (res: Self)
        ensures
            res.deep_view() == self.deep_view(),
    {
        EmbeddedDocument {
            id: self.id.clone(),
            label: self.label.clone(),
            entries: clone_strings(&self.entries),
            vector: clone_components(&self.vector),
        }
    }
}

/// The dot product of bounded prefixes stays within `n` products of the
/// largest components.
proof fn lemma_dot_prefix_bound(a: Seq<i64>, b: Seq<i64>, n: int)
    requires
        0 <= n <= a.len(),
        n <= b.len(),
        vector_ok(a),
        vector_ok(b),
    ensures
        mag(dot_prefix_of(a, b, n)) <= n * (MAX_COMPONENT * MAX_COMPONENT),
    decreases n,
{
    if n > 0 {
        lemma_dot_prefix_bound(a, b, n - 1);
        assert(mag(a[n - 1] * b[n - 1]) <= MAX_COMPONENT * MAX_COMPONENT) by (nonlinear_arith)
            requires
                -MAX_COMPONENT <= a[n - 1] <= MAX_COMPONENT,
                -MAX_COMPONENT <= b[n - 1] <= MAX_COMPONENT,
        ;
    }
}

/// Short local name for the similarity module's prefix dot product.
spec fn dot_prefix_of(a: Seq<i64>, b: Seq<i64>, n: int) -> int {
    super::similarity::dot_prefix(a, b, n)
}

/// A vector dotted with itself is nonnegative.
proof fn lemma_dot_self_nonneg(v: Seq<i64>, n: int)
    requires
        0 <= n <= v.len(),
    ensures
        dot_prefix_of(v, v, n) >= 0,
    decreases n,
{
    if n > 0 {
        lemma_dot_self_nonneg(v, n - 1);
        assert(v[n - 1] * v[n - 1] >= 0) by (nonlinear_arith);
    }
}

/// Computes the exact dot product of two equal-length in-range vectors.
pub fn dot_product(a: &Vec<i64>, b: &Vec<i64>) -> (r: i64)
    requires
        a@.len() == b@.len(),
        a@.len() <= MAX_DIM,
        vector_ok(a@),
        vector_ok(b@),
    ensures
        r as int == dot(a@, b@),
        mag(r as int) <= MAX_ACCUM,
{
    let mut acc: i64 = 0;
    let mut i: usize = 0;
    let n = a.len();
    while i < n
        invariant
            i <= n,
            n == a@.len(),
            a@.len() == b@.len(),
            n <= MAX_DIM,
            vector_ok(a@),
            vector_ok(b@),
            acc as int == dot_prefix_of(a@, b@, i as int),
            mag(acc as int) <= i * (MAX_COMPONENT * MAX_COMPONENT),
        decreases n - i,
    {
        proof {
            assert(mag(a@[i as int] * b@[i as int]) <= MAX_COMPONENT * MAX_COMPONENT)
                by (nonlinear_arith)
                requires
                    -MAX_COMPONENT <= a@[i as int] <= MAX_COMPONENT,
                    -MAX_COMPONENT <= b@[i as int] <= MAX_COMPONENT,
            ;
            assert(i * (MAX_COMPONENT * MAX_COMPONENT) + (MAX_COMPONENT * MAX_COMPONENT) <= MAX_DIM
                * (MAX_COMPONENT * MAX_COMPONENT)) by (nonlinear_arith)
                requires
                    i < MAX_DIM,
            ;
            assert((i + 1) * (MAX_COMPONENT * MAX_COMPONENT) == i * (MAX_COMPONENT * MAX_COMPONENT)
                + (MAX_COMPONENT * MAX_COMPONENT)) by (nonlinear_arith);
            assert(MAX_DIM * (MAX_COMPONENT * MAX_COMPONENT) == MAX_ACCUM) by (nonlinear_arith);
        }
        acc = acc + a[i] * b[i];
        i += 1;
    }
    proof {
        assert(i * (MAX_COMPONENT * MAX_COMPONENT) <= MAX_DIM * (MAX_COMPONENT * MAX_COMPONENT))
            by (nonlinear_arith)
            requires
                i <= MAX_DIM,
        ;
        assert(MAX_DIM * (MAX_COMPONENT * MAX_COMPONENT) == MAX_ACCUM) by (nonlinear_arith);
    }
    acc
}

/// The exact similarity score of a stored vector against a query.
pub open spec fn score_of(q: Seq<i64>, v: Seq<i64>) -> Similarity {
    Similarity { dot: dot(q, v) as i64, qnorm2: dot(q, q) as i64, dnorm2: dot(v, v) as i64 }
}

/// Computes the similarity score of one stored vector against the query.
pub fn score_against(q: &Vec<i64>, v: &Vec<i64>) -> (s: Similarity)
    requires
        q@.len() == v@.len(),
        q@.len() <= MAX_DIM,
        vector_ok(q@),
        vector_ok(v@),
    ensures
        s == score_of(q@, v@),
        sim_wf(s),
{
    let d = dot_product(q, v);
    let qq = dot_product(q, q);
    let vv = dot_product(v, v);
    proof {
        lemma_dot_self_nonneg(q@, q@.len() as int);
        lemma_dot_self_nonneg(v@, v@.len() as int);
    }
    Similarity { dot: d, qnorm2: qq, dnorm2: vv }
}

/// One `top_n` match: the position of the document in the corpus, its exact
/// similarity score, its label and the document itself as payload.
pub struct SearchHit {
    pub doc_index: usize,
    pub score: Similarity,
    pub label: String,
    pub doc: EmbeddedDocument,
}

/// A hit faithfully reports one document of the index.
pub open spec fn hit_ok(idx: SemanticIndex, q: Seq<i64>, h: SearchHit) -> bool {
    &&& 0 <= h.doc_index < idx.docs@.len()
    &&& h.score == idx.score_at(q, h.doc_index as int)
    &&& h.label@ == idx.docs@[h.doc_index as int].label@
    &&& h.doc.deep_view() == idx.docs@[h.doc_index as int].deep_view()
}

/// The document at position `i` ranks before every other document: it is
/// the single best match for the query.
pub open spec fn is_best_match(idx: SemanticIndex, q: Seq<i64>, i: int) -> bool {
    &&& 0 <= i < idx.docs@.len()
    &&& forall|j: int|
        0 <= j < idx.docs@.len() && j != i ==> idx.ranks_before(q, i, j)
}

/// Whether some hit reports the document at position `j`.
pub open spec fn appears(hits: Seq<SearchHit>, j: int) -> bool {
    exists|k: int| 0 <= k < hits.len() && (#[trigger] hits[k]).doc_index == j
}

/// Whether a position occurs in a sequence of candidate positions.
pub open spec fn holds_index(s: Seq<usize>, j: int) -> bool {
    exists|p: int| 0 <= p < s.len() && (#[trigger] s[p]) as int == j
}

/// Candidate positions in strictly ascending order.
pub open spec fn ascending(s: Seq<usize>) -> bool {
    forall|p1: int, p2: int| 0 <= p1 < p2 < s.len() ==> s[p1] < s[p2]
}

/// The candidates are exactly the positions no hit reports yet.
spec fn tracks(cands: Seq<usize>, hits: Seq<SearchHit>, len: int) -> bool {
    forall|j: int| 0 <= j < len ==> (holds_index(cands, j) <==> !appears(hits, j))
}

/// The immutable semantic index: the embedded corpus in insertion order,
/// all vectors sharing one dimensionality.
pub struct SemanticIndex {
    pub docs: Vec<EmbeddedDocument>,
    pub dim: usize,
}

impl SemanticIndex {
    /// Every stored vector has the shared dimensionality and in-range
    /// components, and the dimensionality is within the supported bound.
    pub open spec fn wf(&self) -> bool {
        &&& self.dim <= MAX_DIM
        &&& forall|i: int|
            0 <= i < self.docs@.len() ==> {
                &&& (#[trigger] self.docs@[i]).vector@.len() == self.dim
                &&& vector_ok(self.docs@[i].vector@)
            }
    }

    /// A query vector matches the index dimensionality and is in range.
    pub open spec fn query_ok(&self, q: Seq<i64>) -> bool {
        q.len() == self.dim && vector_ok(q)
    }

    /// The score of the document at position `i` against query `q`.
    pub open spec fn score_at(&self, q: Seq<i64>, i: int) -> Similarity {
        score_of(q, self.docs@[i].vector@)
    }

    /// The strict total order in which `top_n` ranks documents: strictly
    /// greater similarity first, insertion order on ties.
    pub open spec fn ranks_before(&self, q: Seq<i64>, i: int, j: int) -> bool {
        ||| sim_gt(self.score_at(q, i), self.score_at(q, j))
        ||| (sim_eq(self.score_at(q, i), self.score_at(q, j)) && i < j)
    }

    /// Scores of a well-formed index are well-formed.
    pub proof fn lemma_score_at_wf(&self, q: Seq<i64>, i: int)
        requires
            self.wf(),
            self.query_ok(q),
            0 <= i < self.docs@.len(),
        ensures
            sim_wf(self.score_at(q, i)),
    {
        let v = self.docs@[i].vector@;
        lemma_dot_prefix_bound(q, v, q.len() as int);
        lemma_dot_prefix_bound(q, q, q.len() as int);
        lemma_dot_prefix_bound(v, v, v.len() as int);
        lemma_dot_self_nonneg(q, q.len() as int);
        lemma_dot_self_nonneg(v, v.len() as int);
        assert(q.len() * (MAX_COMPONENT * MAX_COMPONENT) <= MAX_DIM * (MAX_COMPONENT
            * MAX_COMPONENT)) by (nonlinear_arith)
            requires
                q.len() <= MAX_DIM,
        ;
    }

    /// The ranking order is total over distinct positions.
    pub proof fn lemma_ranks_total(&self, q: Seq<i64>, i: int, j: int)
        requires
            self.wf(),
            self.query_ok(q),
            0 <= i < self.docs@.len(),
            0 <= j < self.docs@.len(),
            i != j,
        ensures
            self.ranks_before(q, i, j) || self.ranks_before(q, j, i),
    {
        lemma_sim_total(self.score_at(q, i), self.score_at(q, j));
    }

    /// The ranking order is transitive.
    pub proof fn lemma_ranks_trans(&self, q: Seq<i64>, i: int, j: int, k: int)
        requires
            self.wf(),
            self.query_ok(q),
            0 <= i < self.docs@.len(),
            0 <= j < self.docs@.len(),
            0 <= k < self.docs@.len(),
            self.ranks_before(q, i, j),
            self.ranks_before(q, j, k),
        ensures
            self.ranks_before(q, i, k),
    {
        let si = self.score_at(q, i);
        let sj = self.score_at(q, j);
        let sk = self.score_at(q, k);
        self.lemma_score_at_wf(q, i);
        self.lemma_score_at_wf(q, j);
        self.lemma_score_at_wf(q, k);
        lemma_sim_ge_trans(si, sj, sk);
        if sim_eq(si, sj) && sim_eq(sj, sk) {
            lemma_sim_ge_trans(sk, sj, si);
        } else {
            if sim_ge(sk, si) {
                if !sim_ge(sj, si) {
                    lemma_sim_ge_trans(sj, sk, si);
                } else {
                    lemma_sim_ge_trans(sk, si, sj);
                }
            }
        }
    }

    /// The `n` best matches for the query: scored against every document,
    /// ordered by descending similarity, ties by insertion order, and every
    /// document left out ranks after every returned hit.
    pub fn top_n(&self, query: &Vec<i64>, n: usize) -> (hits: Vec<SearchHit>)
        requires
            self.wf(),
            self.query_ok(query@),
        ensures
            hits@.len() == if n <= self.docs@.len() {
                n as int
            } else {
                self.docs@.len() as int
            },
            forall|k: int| 0 <= k < hits@.len() ==> hit_ok(*self, query@, #[trigger] hits@[k]),
            forall|k1: int, k2: int|
                0 <= k1 < k2 < hits@.len() ==> self.ranks_before(
                    query@,
                    hits@[k1].doc_index as int,
                    hits@[k2].doc_index as int,
                ),
            forall|k: int, j: int|
                0 <= k < hits@.len() && 0 <= j < self.docs@.len() && !appears(hits@, j)
                    ==> self.ranks_before(query@, hits@[k].doc_index as int, j),
    {
        let ghost q = query@;
        let len = self.docs.len();
        // Score every document once.
        let mut scores: Vec<Similarity> = Vec::new();
        let mut i: usize = 0;
        while i < len
            invariant
                i <= len,
                len == self.docs@.len(),
                self.wf(),
                self.query_ok(q),
                q == query@,
                scores@.len() == i,
                forall|k: int|
                    0 <= k < i ==> #[trigger] scores@[k] == self.score_at(q, k) && sim_wf(
                        scores@[k],
                    ),
            decreases len - i,
        {
            let s = score_against(query, &self.docs[i].vector);
            scores.push(s);
            i += 1;
        }
        // Positions still in the running, in insertion order.
        let mut candidates: Vec<usize> = Vec::new();
        let mut i: usize = 0;
        while i < len
            invariant
                i <= len,
                candidates@.len() == i,
                forall|p: int| 0 <= p < i ==> (#[trigger] candidates@[p]) as int == p,
            decreases len - i,
        {
            candidates.push(i);
            i += 1;
        }
        proof {
            assert forall|j: int| 0 <= j < len implies holds_index(candidates@, j) by {
                assert(candidates@[j] as int == j);
            }
        }
        let m: usize = if n <= len {
            n
        } else {
            len
        };
        let mut hits: Vec<SearchHit> = Vec::new();
        let mut t: usize = 0;
        while t < m
            invariant
                t <= m <= len,
                len == self.docs@.len(),
                self.wf(),
                self.query_ok(q),
                q == query@,
                scores@.len() == len,
                forall|k: int|
                    0 <= k < len ==> #[trigger] scores@[k] == self.score_at(q, k) && sim_wf(
                        scores@[k],
                    ),
                hits@.len() == t,
                candidates@.len() == len - t,
                ascending(candidates@),
                forall|p: int|
                    0 <= p < candidates@.len() ==> ((#[trigger] candidates@[p]) as int) < len,
                tracks(candidates@, hits@, len as int),
                forall|k: int| 0 <= k < t ==> hit_ok(*self, q, #[trigger] hits@[k]),
                forall|k1: int, k2: int|
                    0 <= k1 < k2 < t ==> self.ranks_before(
                        q,
                        hits@[k1].doc_index as int,
                        hits@[k2].doc_index as int,
                    ),
                forall|k: int, j: int|
                    0 <= k < t && 0 <= j < len && holds_index(candidates@, j)
                        ==> self.ranks_before(q, hits@[k].doc_index as int, j),
            decreases m - t,
        {
            // Select the best remaining candidate; scanning in position
            // order and replacing only on strict improvement keeps the
            // earliest of equals, which is the insertion-order tie-break.
            let mut best_pos: usize = 0;
            let mut p: usize = 1;
            while p < candidates.len()
                invariant
                    candidates@.len() == len - t,
                    t < m <= len,
                    len == self.docs@.len(),
                    self.wf(),
                    self.query_ok(q),
                    q == query@,
                    scores@.len() == len,
                    forall|k: int|
                        0 <= k < len ==> #[trigger] scores@[k] == self.score_at(q, k) && sim_wf(
                            scores@[k],
                        ),
                    ascending(candidates@),
                    forall|pp: int|
                        0 <= pp < candidates@.len() ==> ((#[trigger] candidates@[pp]) as int) < len,
                    best_pos < p <= candidates@.len(),
                    forall|pp: int|
                        0 <= pp < p && pp != best_pos ==> self.ranks_before(
                            q,
                            candidates@[best_pos as int] as int,
                            (#[trigger] candidates@[pp]) as int,
                        ),
                decreases candidates@.len() - p,
            {
                let cp = candidates[p];
                let cb = candidates[best_pos];
                let verdict = compare_sim(&scores[cp], &scores[cb]);
                if matches!(verdict, SimOrder::Greater) {
                    proof {
                        // The new best strictly beats the old best, hence by
                        // transitivity everything the old best beat.
                        assert forall|pp: int| 0 <= pp < p implies self.ranks_before(
                            q,
                            cp as int,
                            (#[trigger] candidates@[pp]) as int,
                        ) by {
                            if pp != best_pos {
                                self.lemma_ranks_trans(
                                    q,
                                    cp as int,
                                    cb as int,
                                    candidates@[pp] as int,
                                );
                            }
                        }
                    }
                    best_pos = p;
                } else {
                    proof {
                        // The old best stays ahead of the scanned candidate:
                        // strictly better, or equal and earlier in insertion
                        // order since positions ascend.
                        assert((candidates@[best_pos as int] as int) < (candidates@[p as int] as int));
                    }
                }
                p += 1;
            }
            let best = candidates[best_pos];
            let hit = SearchHit {
                doc_index: best,
                score: scores[best],
                label: self.docs[best].label.clone(),
                doc: self.docs[best].clone(),
            };
            let ghost old_hits = hits@;
            let ghost old_cands = candidates@;
            hits.push(hit);
            let _removed = candidates.remove(best_pos);
            proof {
                old_cands.remove_ensures(best_pos as int);
                assert(holds_index(old_cands, best as int)) by {
                    assert(old_cands[best_pos as int] == best);
                }
                assert(ascending(candidates@)) by {
                    assert forall|p1: int, p2: int| 0 <= p1 < p2 < candidates@.len() implies
                        candidates@[p1] < candidates@[p2] by {
                        if p2 < best_pos {
                            assert(old_cands[p1] < old_cands[p2]);
                        } else if p1 >= best_pos {
                            assert(old_cands[p1 + 1] < old_cands[p2 + 1]);
                        } else {
                            assert(old_cands[p1] < old_cands[p2 + 1]);
                        }
                    }
                }
                assert forall|j: int| 0 <= j < len implies (holds_index(candidates@, j) <==> !appears(
                    hits@,
                    j,
                )) by {
                    if j == best as int {
                        assert(appears(hits@, j)) by {
                            assert(hits@[t as int].doc_index == best);
                        }
                        if holds_index(candidates@, j) {
                            let p2 = choose|p2: int|
                                0 <= p2 < candidates@.len() && (#[trigger] candidates@[p2]) as int
                                    == j;
                            if p2 < best_pos {
                                assert(old_cands[p2] as int == j);
                                assert(old_cands[p2] < old_cands[best_pos as int]);
                            } else {
                                assert(old_cands[p2 + 1] as int == j);
                                assert(old_cands[best_pos as int] < old_cands[p2 + 1]);
                            }
                        }
                    } else {
                        assert(appears(hits@, j) <==> appears(old_hits, j)) by {
                            if appears(hits@, j) {
                                let k = choose|k: int|
                                    0 <= k < hits@.len() && (#[trigger] hits@[k]).doc_index == j;
                                assert(k < old_hits.len() && old_hits[k].doc_index as int == j);
                            }
                            if appears(old_hits, j) {
                                let k = choose|k: int|
                                    0 <= k < old_hits.len() && (#[trigger] old_hits[k]).doc_index
                                        == j;
                                assert(hits@[k].doc_index as int == j);
                            }
                        }
                        assert(holds_index(candidates@, j) <==> holds_index(old_cands, j)) by {
                            if holds_index(candidates@, j) {
                                let p2 = choose|p2: int|
                                    0 <= p2 < candidates@.len() && (#[trigger] candidates@[p2])
                                        as int == j;
                                if p2 < best_pos {
                                    assert(old_cands[p2] as int == j);
                                } else {
                                    assert(old_cands[p2 + 1] as int == j);
                                }
                            }
                            if holds_index(old_cands, j) {
                                let p2 = choose|p2: int|
                                    0 <= p2 < old_cands.len() && (#[trigger] old_cands[p2]) as int
                                        == j;
                                if p2 < best_pos {
                                    assert(candidates@[p2] as int == j);
                                } else if p2 > best_pos {
                                    assert(candidates@[p2 - 1] as int == j);
                                }
                            }
                        }
                    }
                }
                assert(tracks(candidates@, hits@, len as int));
                // Every candidate left ranks after the new hit.
                assert forall|j: int| 0 <= j < len && holds_index(candidates@, j) implies
                    self.ranks_before(q, best as int, j) by {
                    let p2 = choose|p2: int|
                        0 <= p2 < candidates@.len() && (#[trigger] candidates@[p2]) as int == j;
                    if p2 < best_pos {
                        assert(old_cands[p2] as int == j);
                    } else {
                        assert(old_cands[p2 + 1] as int == j);
                    }
                }
            }
            t += 1;
        }
        hits
    }
}

/// Holds the embedded corpus before it is sealed into a queryable index.
pub struct VectorStore {
    pub docs: Vec<EmbeddedDocument>,
    pub dim: usize,
}

impl VectorStore {
    /// Wraps an embedded corpus with its declared dimensionality.
    pub fn new(docs: Vec<EmbeddedDocument>, dim: usize) -> (s: VectorStore)
        ensures
            s.docs == docs,
            s.dim == dim,
    {
        VectorStore { docs, dim }
    }

    /// Seals the store into the immutable semantic index, validating that
    /// every vector has the declared dimensionality and in-range
    /// components; a corpus that cannot form a coherent index is an
    /// initialization error.
    pub fn index(self) -> (r: Result<SemanticIndex, InitError>)
        ensures
            r is Ok <==> {
                &&& self.dim <= MAX_DIM
                &&& forall|i: int|
                    0 <= i < self.docs@.len() ==> {
                        &&& (#[trigger] self.docs@[i]).vector@.len() == self.dim
                        &&& vector_ok(self.docs@[i].vector@)
                    }
            },
            r matches Ok(ix) ==> ix.docs@ == self.docs@ && ix.dim == self.dim && ix.wf(),
    {
        if self.dim > MAX_DIM {
            return Err(InitError);
        }
        let mut i: usize = 0;
        while i < self.docs.len()
            invariant
                i <= self.docs@.len(),
                self.dim <= MAX_DIM,
                forall|k: int|
                    0 <= k < i ==> {
                        &&& (#[trigger] self.docs@[k]).vector@.len() == self.dim
                        &&& vector_ok(self.docs@[k].vector@)
                    },
            decreases self.docs@.len() - i,
        {
            let v = &self.docs[i].vector;
            if v.len() != self.dim {
                proof {
                    assert(self.docs@[i as int].vector@.len() != self.dim);
                }
                return Err(InitError);
            }
            let mut j: usize = 0;
            while j < v.len()
                invariant
                    j <= v@.len(),
                    i < self.docs@.len(),
                    v@ == self.docs@[i as int].vector@,
                    forall|k: int| 0 <= k < j ==> -MAX_COMPONENT <= #[trigger] v@[k] <= MAX_COMPONENT,
                decreases v@.len() - j,
            {
                if v[j] < -MAX_COMPONENT || v[j] > MAX_COMPONENT {
                    proof {
                        assert(self.docs@[i as int].vector@[j as int] == v@[j as int]);
                        assert(!vector_ok(self.docs@[i as int].vector@));
                    }
                    return Err(InitError);
                }
                j += 1;
            }
            i += 1;
        }
        Ok(SemanticIndex { docs: self.docs, dim: self.dim })
    }
}

} // verus!
