//! Two-decimal fixed-point numbers.
//!
//! Every arithmetic tool normalizes its result to two decimal places, so the
//! library carries numbers as an integer count of hundredths. The rounding
//! rule is round-half-away-from-zero, applied through the single spec
//! function [`rounded_div`]; [`round2`] states what "normalized to two
//! decimal places" means for an exact rational value.

use vstd::arithmetic::div_mod::{
    lemma_div_denominator, lemma_div_multiples_vanish, lemma_fundamental_div_mod,
    lemma_fundamental_div_mod_converse, lemma_mod_bound,
};
use vstd::prelude::*;

verus! {

/// A decimal number carried to exactly two fractional digits: the value is
/// `hundredths / 100`.
#[derive(Clone, Copy, Debug, PartialEq, Eq, Structural)]
pub struct Num {
    pub hundredths: i64,
}

impl View for Num {
    type V = int;

    open spec fn view(&self) -> int {
        self.hundredths as int
    }
}

/// Magnitude of an integer.
pub open spec fn mag(n: int) -> int {
    if n >= 0 {
        n
    } else {
        -n
    }
}

/// Magnitude small enough (at most `2^126`) for the rounding helper to work
/// without overflowing its 128-bit intermediates.
pub open spec fn rounding_arg_ok(n: int) -> bool {
    mag(n) <= 0x40000000000000000000000000000000
}

/// `n / d` rounded to the nearest integer, ties away from zero (`d != 0`).
pub open spec fn rounded_div(n: int, d: int) -> int
    recommends
        d != 0,
{
    let m = (2 * mag(n) + mag(d)) / (2 * mag(d));
    if (n >= 0) == (d > 0) {
        m
    } else {
        -m
    }
}

/// The value `n / d` normalized to two decimal places, returned in
/// hundredths: this is the two-decimal value nearest to `n / d`, ties
/// rounded away from zero.
pub open spec fn round2(n: int, d: int) -> int
    recommends
        d != 0,
{
    rounded_div(100 * n, d)
}

/// Whether an exact hundredths count is representable in a `Num`.
pub open spec fn fits_i64(n: int) -> bool {
    i64::MIN <= n <= i64::MAX
}

/// Rounding a nonnegative quotient is truncation plus a carry on a half or
/// larger remainder.
proof fn lemma_rounded_div_from_parts(a: int, b: int, q: int, r: int)
    requires
        a >= 0,
        b > 0,
        a == q * b + r,
        0 <= r < b,
    ensures
        rounded_div(a, b) == q + if 2 * r >= b {
            1int
        } else {
            0int
        },
{
    assert(2 * a + b == q * (2 * b) + (2 * r + b)) by (nonlinear_arith)
        requires
            a == q * b + r,
    ;
    if 2 * r >= b {
        assert(2 * a + b == (q + 1) * (2 * b) + (2 * r - b)) by (nonlinear_arith)
            requires
                a == q * b + r,
        ;
        lemma_fundamental_div_mod_converse(2 * a + b, 2 * b, q + 1, 2 * r - b);
    } else {
        lemma_fundamental_div_mod_converse(2 * a + b, 2 * b, q, 2 * r + b);
    }
}

/// An exact two-decimal value passes through `round2` unchanged.
pub proof fn lemma_round2_exact(h: int)
    ensures
        round2(h, 100) == h,
{
    if h >= 0 {
        lemma_rounded_div_from_parts(100 * h, 100, h, 0);
    } else {
        assert(mag(100 * h) == 100 * (-h));
        lemma_rounded_div_from_parts(100 * (-h), 100, -h, 0);
        assert(rounded_div(100 * h, 100) == -rounded_div(100 * (-h), 100));
    }
}

/// Law: normalizing to two decimal places is idempotent. For any exact
/// rational `n / d`, rounding the already-rounded value changes nothing.
pub proof fn lemma_round2_idempotent(n: int, d: int)
    requires
        d != 0,
    ensures
        round2(round2(n, d), 100) == round2(n, d),
{
    lemma_round2_exact(round2(n, d));
}

/// Scaling numerator and denominator by a positive factor does not change
/// the rounded quotient.
proof fn lemma_rounded_div_scale(n: int, d: int, k: int)
    requires
        d != 0,
        k > 0,
    ensures
        rounded_div(k * n, k * d) == rounded_div(n, d),
{
    let a = mag(n);
    let b = mag(d);
    assert(mag(k * n) == k * a) by (nonlinear_arith)
        requires
            k > 0,
            a == mag(n),
    ;
    assert(mag(k * d) == k * b) by (nonlinear_arith)
        requires
            k > 0,
            b == mag(d),
    ;
    let t = 2 * a + b;
    assert(2 * (k * a) + (k * b) == k * t) by (nonlinear_arith)
        requires
            t == 2 * a + b,
    ;
    assert(2 * (k * b) == k * (2 * b)) by (nonlinear_arith);
    lemma_div_denominator(k * t, k, 2 * b);
    lemma_div_multiples_vanish(t, k);
    assert((k * t) / (k * (2 * b)) == t / (2 * b));
    assert((k * n >= 0) == (n >= 0)) by (nonlinear_arith)
        requires
            k > 0,
    ;
    assert((k * d > 0) == (d > 0)) by (nonlinear_arith)
        requires
            k > 0,
    ;
}

/// Rounds `n / d` to the nearest integer, ties away from zero, reporting
/// `None` when the rounded value does not fit an `i64`.
pub(crate) fn div_rounded(n: i128, d: i128) -> (r: Option<i64>)
    requires
        d != 0,
        rounding_arg_ok(n as int),
        rounding_arg_ok(d as int),
    ensures
        r is Some <==> fits_i64(rounded_div(n as int, d as int)),
        r matches Some(v) ==> v as int == rounded_div(n as int, d as int),
{
    let a: u128 = if n < 0 {
        (-n) as u128
    } else {
        n as u128
    };
    let b: u128 = if d < 0 {
        (-d) as u128
    } else {
        d as u128
    };
    let q: u128 = a / b;
    let rem: u128 = a % b;
    proof {
        lemma_fundamental_div_mod(a as int, b as int);
        lemma_mod_bound(a as int, b as int);
        assert((a as int / b as int) * (b as int) == (b as int) * (a as int / b as int))
            by (nonlinear_arith);
        lemma_rounded_div_from_parts(a as int, b as int, q as int, rem as int);
    }
    let m: u128 = if 2 * rem >= b {
        q + 1
    } else {
        q
    };
    let v: i128 = if (n < 0) != (d < 0) {
        -(m as i128)
    } else {
        m as i128
    };
    proof {
        assert(v as int == rounded_div(n as int, d as int));
    }
    if i64::MIN as i128 <= v && v <= i64::MAX as i128 {
        Some(v as i64)
    } else {
        None
    }
}

impl Num {
    /// The two-decimal number with the given count of hundredths.
    pub fn new(hundredths: i64) -> (r: Num)
        ensures
            r@ == hundredths as int,
    {
        Num { hundredths }
    }

    /// Exact sum, normalized to two decimal places; a sum whose hundredths
    /// count exceeds the representable range is reported as `None`.
    pub fn add(self, other: Num) -> (r: Option<Num>)
        ensures
            r is Some <==> fits_i64(self@ + other@),
            r matches Some(v) ==> v@ == round2(self@ + other@, 100),
    {
        proof {
            lemma_round2_exact(self@ + other@);
        }
        let s: i128 = self.hundredths as i128 + other.hundredths as i128;
        if i64::MIN as i128 <= s && s <= i64::MAX as i128 {
            Some(Num { hundredths: s as i64 })
        } else {
            None
        }
    }

    /// Exact difference, normalized to two decimal places.
    pub fn sub(self, other: Num) -> (r: Option<Num>)
        ensures
            r is Some <==> fits_i64(self@ - other@),
            r matches Some(v) ==> v@ == round2(self@ - other@, 100),
    {
        proof {
            lemma_round2_exact(self@ - other@);
        }
        let s: i128 = self.hundredths as i128 - other.hundredths as i128;
        if i64::MIN as i128 <= s && s <= i64::MAX as i128 {
            Some(Num { hundredths: s as i64 })
        } else {
            None
        }
    }

    /// Product rounded to two decimal places, half away from zero.
    pub fn mul(self, other: Num) -> (r: Option<Num>)
        ensures
            r is Some <==> fits_i64(round2(self@ * other@, 10000)),
            r matches Some(v) ==> v@ == round2(self@ * other@, 10000),
    {
        proof {
            assert(rounding_arg_ok(self@ * other@)) by (nonlinear_arith)
                requires
                    i64::MIN <= self@ <= i64::MAX,
                    i64::MIN <= other@ <= i64::MAX,
            ;
        }
        let p: i128 = self.hundredths as i128 * other.hundredths as i128;
        proof {
            lemma_rounded_div_scale(self@ * other@, 100, 100);
            assert(round2(self@ * other@, 10000) == rounded_div(p as int, 100));
        }
        match div_rounded(p, 100) {
            Some(h) => Some(Num { hundredths: h }),
            None => None,
        }
    }

    /// Quotient rounded to two decimal places, half away from zero; `None`
    /// when the divisor is zero or the result is out of range.
    pub fn div(self, other: Num) -> (r: Option<Num>)
        ensures
            r is Some <==> other@ != 0 && fits_i64(round2(self@, other@)),
            r matches Some(v) ==> v@ == round2(self@, other@),
    {
        if other.hundredths == 0 {
            return None;
        }
        let p: i128 = 100 * self.hundredths as i128;
        match div_rounded(p, other.hundredths as i128) {
            Some(h) => Some(Num { hundredths: h }),
            None => None,
        }
    }
}

} // verus!
