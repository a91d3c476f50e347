//! Truncating integer division, the rounding used both by the mono mixdown
//! (averaging a frame's channels) and by the linear resampler (quantizing an
//! interpolated value), together with the bound lemmas those proofs need.

use vstd::arithmetic::div_mod::{
    lemma_div_is_ordered, lemma_div_multiples_vanish, lemma_div_nonincreasing,
    lemma_div_pos_is_pos,
};
use vstd::arithmetic::mul::{lemma_mul_inequality, lemma_mul_is_commutative, lemma_mul_nonnegative};
use vstd::prelude::*;

verus! {

/// Division rounded toward zero, the meaning of `/` on Rust's signed
/// integers (the mathematical `/` on `int` rounds toward negative infinity).
pub open spec fn trunc_div(p: int, q: int) -> int
    recommends
        q >= 1,
{
    if p >= 0 {
        p / q
    } else {
        -((-p) / q)
    }
}

/// Runs `trunc_div` on machine integers.
pub fn trunc_div_i64(p: i64, q: i64) -> (r: i64)
    requires
        1 <= q,
        i64::MIN < p,
    ensures
        r as int == trunc_div(p as int, q as int),
{
    if p >= 0 {
        let m: u64 = (p as u64) / (q as u64);
        proof {
            lemma_div_nonincreasing(p as int, q as int);
        }
        m as i64
    } else {
        let neg: u64 = (-p) as u64;
        let m: u64 = neg / (q as u64);
        proof {
            lemma_div_nonincreasing(neg as int, q as int);
        }
        -(m as i64)
    }
}

/// A quotient lies between `lo` and `hi` whenever the dividend lies between
/// `lo * q` and `hi * q`; truncation cannot escape the interval.
pub proof fn lemma_trunc_div_bounds(lo: int, hi: int, n: int, q: int)
    requires
        q >= 1,
        lo * q <= n,
        n <= hi * q,
    ensures
        lo <= trunc_div(n, q) <= hi,
{
    if n >= 0 {
        // trunc_div(n, q) == n / q, the floor.
        if hi < 0 {
            lemma_mul_inequality(hi, -1, q);
            assert(hi * q <= -1 * q);
            assert(false);
        }
        assert(n / q <= hi) by {
            lemma_div_is_ordered(n, hi * q, q);
            lemma_mul_is_commutative(hi, q);
            lemma_div_multiples_vanish(hi, q);
        };
        if lo >= 0 {
            assert(lo <= n / q) by {
                lemma_div_is_ordered(lo * q, n, q);
                lemma_mul_is_commutative(lo, q);
                lemma_div_multiples_vanish(lo, q);
            };
        } else {
            lemma_div_pos_is_pos(n, q);
        }
    } else {
        // trunc_div(n, q) == -((-n) / q).
        assert(lo < 0) by {
            if lo >= 0 {
                lemma_mul_nonnegative(lo, q);
            }
        };
        assert((-n) / q <= -lo) by {
            lemma_mul_inequality(lo, lo, q);
            assert((-lo) * q == -(lo * q)) by (nonlinear_arith);
            lemma_div_is_ordered(-n, (-lo) * q, q);
            lemma_mul_is_commutative(-lo, q);
            lemma_div_multiples_vanish(-lo, q);
        };
        if hi >= 0 {
            lemma_div_pos_is_pos(-n, q);
        } else {
            assert(-hi <= (-n) / q) by {
                assert((-hi) * q == -(hi * q)) by (nonlinear_arith);
                lemma_div_is_ordered((-hi) * q, -n, q);
                lemma_mul_is_commutative(-hi, q);
                lemma_div_multiples_vanish(-hi, q);
            };
        }
    }
}

/// Linear interpolation between two values, quantized by truncation, stays
/// between those values.
pub proof fn lemma_interp_bounds(s1: int, s2: int, rem: int, q: int)
    requires
        q >= 1,
        0 <= rem < q,
    ensures
        s1 <= s2 ==> s1 <= trunc_div(s1 * q + (s2 - s1) * rem, q) <= s2,
        s2 <= s1 ==> s2 <= trunc_div(s1 * q + (s2 - s1) * rem, q) <= s1,
{
    let n = s1 * q + (s2 - s1) * rem;
    if s1 <= s2 {
        assert(0 <= (s2 - s1) * rem) by {
            lemma_mul_nonnegative(s2 - s1, rem);
        };
        assert((s2 - s1) * rem <= (s2 - s1) * q) by {
            lemma_mul_is_commutative(s2 - s1, rem);
            lemma_mul_is_commutative(s2 - s1, q);
            lemma_mul_inequality(rem, q, s2 - s1);
        };
        assert(s2 * q == s1 * q + (s2 - s1) * q) by (nonlinear_arith);
        lemma_trunc_div_bounds(s1, s2, n, q);
    } else {
        assert((s2 - s1) * rem <= 0) by {
            lemma_mul_nonnegative(s1 - s2, rem);
            assert((s1 - s2) * rem == -((s2 - s1) * rem)) by (nonlinear_arith);
        };
        assert((s2 - s1) * q <= (s2 - s1) * rem) by {
            lemma_mul_is_commutative(s2 - s1, rem);
            lemma_mul_is_commutative(s2 - s1, q);
            assert(q * (s2 - s1) <= rem * (s2 - s1)) by (nonlinear_arith)
                requires
                    rem < q,
                    s2 - s1 < 0,
            ;
        };
        assert(s2 * q == s1 * q + (s2 - s1) * q) by (nonlinear_arith);
        lemma_trunc_div_bounds(s2, s1, n, q);
    }
}

} // verus!
