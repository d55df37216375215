//! Exact cosine-similarity scores.
//!
//! Embedding vectors are quantized to bounded integer components, so the
//! cosine similarity `dot / sqrt(qnorm2 * dnorm2)` of a stored vector
//! against a query can be carried exactly as the three integers and never
//! as an inexact quotient. Two scores against the same query are compared
//! by sign and then by cross-multiplied squares: for positive scores,
//! `dot_a / sqrt(n_a) >= dot_b / sqrt(n_b)` exactly when
//! `dot_a^2 * n_b >= dot_b^2 * n_a`. A score whose own norm (or whose
//! query norm) is zero is treated as zero similarity.

use vstd::prelude::*;

use crate::num::mag;

verus! {

/// Largest magnitude of a quantized vector component.
pub const MAX_COMPONENT: i64 = 10000;

/// Largest dimensionality the index accepts.
pub const MAX_DIM: usize = 4096;

/// Largest magnitude a dot product of two in-range vectors can reach:
/// `MAX_DIM * MAX_COMPONENT * MAX_COMPONENT`.
pub const MAX_ACCUM: i64 = 409600000000;

/// All components of a quantized vector are within range.
pub open spec fn vector_ok(v: Seq<i64>) -> bool {
    forall|i: int| 0 <= i < v.len() ==> -MAX_COMPONENT <= #[trigger] v[i] <= MAX_COMPONENT
}

/// Dot product of the first `n` components.
pub open spec fn dot_prefix(a: Seq<i64>, b: Seq<i64>, n: int) -> int
    decreases n,
{
    if n <= 0 {
        0
    } else {
        dot_prefix(a, b, n - 1) + a[n - 1] * b[n - 1]
    }
}

/// Dot product of two equal-length vectors.
pub open spec fn dot(a: Seq<i64>, b: Seq<i64>) -> int {
    dot_prefix(a, b, a.len() as int)
}

/// The exact cosine-similarity data of one stored vector scored against one
/// query: the cosine is `dot / sqrt(qnorm2 * dnorm2)`.
#[derive(Clone, Copy, Debug, PartialEq, Eq, Structural)]
pub struct Similarity {
    /// Dot product of query and stored vector.
    pub dot: i64,
    /// Squared norm of the query.
    pub qnorm2: i64,
    /// Squared norm of the stored vector.
    pub dnorm2: i64,
}

/// The field bounds every score built from in-range vectors satisfies.
pub open spec fn sim_wf(s: Similarity) -> bool {
    &&& mag(s.dot as int) <= MAX_ACCUM
    &&& 0 <= s.qnorm2 <= MAX_ACCUM
    &&& 0 <= s.dnorm2 <= MAX_ACCUM
}

/// Sign of the cosine: zero when either norm vanishes.
pub open spec fn sim_sign(s: Similarity) -> int {
    if s.qnorm2 <= 0 || s.dnorm2 <= 0 || s.dot == 0 {
        0
    } else if s.dot > 0 {
        1
    } else {
        -1
    }
}

/// `a`'s cosine is at least `b`'s, for two scores against the same query.
pub open spec fn sim_ge(a: Similarity, b: Similarity) -> bool {
    if sim_sign(a) != sim_sign(b) {
        sim_sign(a) > sim_sign(b)
    } else if sim_sign(a) == 0 {
        true
    } else if sim_sign(a) > 0 {
        a.dot * a.dot * b.dnorm2 >= b.dot * b.dot * a.dnorm2
    } else {
        a.dot * a.dot * b.dnorm2 <= b.dot * b.dot * a.dnorm2
    }
}

/// The two cosines are equal.
pub open spec fn sim_eq(a: Similarity, b: Similarity) -> bool {
    sim_ge(a, b) && sim_ge(b, a)
}

/// `a`'s cosine is strictly greater than `b`'s.
pub open spec fn sim_gt(a: Similarity, b: Similarity) -> bool {
    sim_ge(a, b) && !sim_ge(b, a)
}

/// The comparison is total.
pub proof fn lemma_sim_total(a: Similarity, b: Similarity)
    ensures
        sim_ge(a, b) || sim_ge(b, a),
{
}

/// The comparison is transitive.
pub proof fn lemma_sim_ge_trans(a: Similarity, b: Similarity, c: Similarity)
    requires
        sim_wf(a),
        sim_wf(b),
        sim_wf(c),
        sim_ge(a, b),
        sim_ge(b, c),
    ensures
        sim_ge(a, c),
{
    if sim_sign(a) == 1 && sim_sign(b) == 1 && sim_sign(c) == 1 {
        assert(a.dot * a.dot * c.dnorm2 >= c.dot * c.dot * a.dnorm2) by (nonlinear_arith)
            requires
                a.dot * a.dot * b.dnorm2 >= b.dot * b.dot * a.dnorm2,
                b.dot * b.dot * c.dnorm2 >= c.dot * c.dot * b.dnorm2,
                b.dnorm2 > 0,
                a.dnorm2 > 0,
                c.dnorm2 > 0,
                b.dot > 0,
        ;
    } else if sim_sign(a) == -1 && sim_sign(b) == -1 && sim_sign(c) == -1 {
        assert(a.dot * a.dot * c.dnorm2 <= c.dot * c.dot * a.dnorm2) by (nonlinear_arith)
            requires
                a.dot * a.dot * b.dnorm2 <= b.dot * b.dot * a.dnorm2,
                b.dot * b.dot * c.dnorm2 <= c.dot * c.dot * b.dnorm2,
                b.dnorm2 > 0,
                a.dnorm2 > 0,
                c.dnorm2 > 0,
                b.dot < 0,
        ;
    }
}

/// The cross-multiplied squares of two well-formed scores stay well inside
/// the 128-bit range.
proof fn lemma_sim_product_bounds(a: Similarity, b: Similarity)
    requires
        sim_wf(a),
        sim_wf(b),
    ensures
        0 <= a.dot * a.dot <= MAX_ACCUM * MAX_ACCUM,
        0 <= a.dot * a.dot * b.dnorm2 <= MAX_ACCUM * MAX_ACCUM * MAX_ACCUM,
{
    assert(0 <= a.dot * a.dot <= MAX_ACCUM * MAX_ACCUM) by (nonlinear_arith)
        requires
            mag(a.dot as int) <= MAX_ACCUM,
    ;
    assert(a.dot * a.dot * b.dnorm2 <= MAX_ACCUM * MAX_ACCUM * MAX_ACCUM) by (nonlinear_arith)
        requires
            0 <= a.dot * a.dot <= MAX_ACCUM * MAX_ACCUM,
            0 <= b.dnorm2 <= MAX_ACCUM,
    ;
    assert(0 <= a.dot * a.dot * b.dnorm2) by (nonlinear_arith)
        requires
            0 <= a.dot * a.dot,
            0 <= b.dnorm2,
    ;
}

/// Ordering verdict of one score against another.
#[derive(Clone, Copy, Debug, PartialEq, Eq, Structural)]
pub enum SimOrder {
    Less,
    Equal,
    Greater,
}

/// Compares two scores taken against the same query.
pub fn compare_sim(a: &Similarity, b: &Similarity) -> (o: SimOrder)
    requires
        sim_wf(*a),
        sim_wf(*b),
    ensures
        o == SimOrder::Greater <==> sim_gt(*a, *b),
        o == SimOrder::Less <==> sim_gt(*b, *a),
        o == SimOrder::Equal <==> sim_eq(*a, *b),
{
    let sa: i64 = if a.qnorm2 <= 0 || a.dnorm2 <= 0 || a.dot == 0 {
        0
    } else if a.dot > 0 {
        1
    } else {
        -1
    };
    let sb: i64 = if b.qnorm2 <= 0 || b.dnorm2 <= 0 || b.dot == 0 {
        0
    } else if b.dot > 0 {
        1
    } else {
        -1
    };
    if sa != sb {
        if sa > sb {
            SimOrder::Greater
        } else {
            SimOrder::Less
        }
    } else if sa == 0 {
        SimOrder::Equal
    } else {
        proof {
            lemma_sim_product_bounds(*a, *b);
            lemma_sim_product_bounds(*b, *a);
        }
        let lhs: i128 = a.dot as i128 * a.dot as i128 * b.dnorm2 as i128;
        let rhs: i128 = b.dot as i128 * b.dot as i128 * a.dnorm2 as i128;
        if sa > 0 {
            if lhs > rhs {
                SimOrder::Greater
            } else if lhs < rhs {
                SimOrder::Less
            } else {
                SimOrder::Equal
            }
        } else {
            if lhs < rhs {
                SimOrder::Greater
            } else if lhs > rhs {
                SimOrder::Less
            } else {
                SimOrder::Equal
            }
        }
    }
}

} // verus!
