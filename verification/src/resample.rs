//! Sample-rate conversion: a linear resampler from the device's native rate
//! to the fixed target rate the transcription collaborator expects.
//!
//! For each output index `i` the fractional source position is `i * from / to`
//! (a rational, handled exactly): the integer part picks the two bracketing
//! input samples, the remainder is the interpolation weight, and the result is
//! quantized by truncation toward zero. Where no right-hand neighbour exists
//! the left one is copied. Equal rates pass the input through unchanged.

use crate::num::{lemma_interp_bounds, trunc_div, trunc_div_i64};
use vstd::arithmetic::div_mod::{
    lemma_fundamental_div_mod, lemma_mod_division_less_than_divisor, lemma_multiply_divide_lt,
};
use vstd::arithmetic::mul::{
    lemma_mul_inequality, lemma_mul_is_commutative, lemma_mul_is_distributive_sub_other_way,
};
use vstd::prelude::*;
use vstd::slice::slice_to_vec;

verus! {

/// The rate every encoded artifact uses, demanded by the transcription
/// collaborator.
pub const TARGET_SAMPLE_RATE: u32 = 16000;

/// How many samples resampling a sequence of length `len` from rate `from`
/// to rate `to` yields.
pub open spec fn resample_len(len: int, from: int, to: int) -> int
    recommends
        from >= 1,
        to >= 1,
{
    if from == to {
        len
    } else {
        (len * to) / from
    }
}

/// The resampled value for the fractional source position `num / to`:
/// linear interpolation between the bracketing samples, truncated toward
/// zero, or a plain copy at the right edge.
pub open spec fn sample_at(s: Seq<i16>, num: int, to: int) -> int
    recommends
        to >= 1,
        0 <= num,
        num / to < s.len(),
{
    let idx = num / to;
    let rem = num % to;
    if idx + 1 < s.len() {
        trunc_div((s[idx] as int) * to + ((s[idx + 1] as int) - (s[idx] as int)) * rem, to)
    } else {
        s[idx] as int
    }
}

/// The whole resampled sequence.
pub open spec fn downsampled(s: Seq<i16>, from: int, to: int) -> Seq<i16>
    recommends
        from >= 1,
        to >= 1,
{
    if from == to {
        s
    } else {
        Seq::new(((s.len() * to) / from) as nat, |i: int| sample_at(s, i * from, to) as i16)
    }
}

/// Every output index addresses a source sample strictly inside the input,
/// and the interpolated value fits a 16-bit sample.
proof fn lemma_source_index_in_range(len: int, from: int, to: int, i: int)
    requires
        from >= 1,
        to >= 1,
        from != to,
        0 <= i < resample_len(len, from, to),
    ensures
        i * from < len * to,
        (i * from) / to < len,
        0 <= (i * from) / to,
        0 <= (i * from) % to < to,
{
    let tl = (len * to) / from;
    lemma_fundamental_div_mod(len * to, from);
    lemma_mod_division_less_than_divisor(len * to, from);
    assert(from * tl <= len * to);
    lemma_mul_inequality(i, tl - 1, from);
    lemma_mul_is_distributive_sub_other_way(from, tl, 1);
    assert((tl - 1) * from == tl * from - from);
    lemma_mul_is_commutative(tl, from);
    assert(i * from <= len * to - from);
    lemma_mul_is_commutative(len, to);
    lemma_multiply_divide_lt(i * from, to, len);
    assert(0 <= (i * from) / to) by {
        vstd::arithmetic::div_mod::lemma_div_pos_is_pos(i * from, to);
        vstd::arithmetic::mul::lemma_mul_nonnegative(i, from);
    };
    lemma_mod_division_less_than_divisor(i * from, to);
    vstd::arithmetic::mul::lemma_mul_nonnegative(i, from);
}

/// The interpolated value lies between the two bracketing samples, so it is
/// a representable 16-bit value.
proof fn lemma_sample_at_in_i16(s: Seq<i16>, num: int, to: int)
    requires
        to >= 1,
        0 <= num,
        num / to < s.len(),
    ensures
        i16::MIN <= sample_at(s, num, to) <= i16::MAX,
{
    let idx = num / to;
    let rem = num % to;
    lemma_mod_division_less_than_divisor(num, to);
    vstd::arithmetic::div_mod::lemma_div_pos_is_pos(num, to);
    if idx + 1 < s.len() {
        lemma_interp_bounds(s[idx] as int, s[idx + 1] as int, rem, to);
    }
}

/// Converts `samples`, captured at rate `from`, to rate `to`.
pub fn downsample(samples: &[i16], from: u32, to: u32) -> (out: Vec<i16>)
    requires
        from >= 1,
        to >= 1,
        resample_len(samples@.len() as int, from as int, to as int) <= usize::MAX,
    ensures
        out@ == downsampled(samples@, from as int, to as int),
{
    if from == to {
        return slice_to_vec(samples);
    }
    let len = samples.len();
    proof {
        assert((len as int) * (to as int) <= 0xFFFF_FFFF_FFFF_FFFF
            * 0xFFFF_FFFF) by (nonlinear_arith)
            requires
                0 <= (len as int) <= 0xFFFF_FFFF_FFFF_FFFF,
                0 <= (to as int) <= 0xFFFF_FFFF,
        ;
    }
    let target_wide: u128 = ((len as u128) * (to as u128)) / (from as u128);
    proof {
        assert(target_wide as int == resample_len(len as int, from as int, to as int));
    }
    let target_len: usize = target_wide as usize;
    let mut out: Vec<i16> = Vec::new();
    let mut i: usize = 0;
    while i < target_len
        invariant
            1 <= from,
            1 <= to,
            from != to,
            len == samples@.len(),
            target_len as int == resample_len(len as int, from as int, to as int),
            i <= target_len,
            out@.len() == i as int,
            forall|j: int|
                0 <= j < i as int ==> out@[j] == downsampled(
                    samples@,
                    from as int,
                    to as int,
                )[j],
        decreases target_len - i,
    {
        proof {
            lemma_source_index_in_range(len as int, from as int, to as int, i as int);
            assert((i as int) * (from as int) <= 0xFFFF_FFFF_FFFF_FFFF
                * 0xFFFF_FFFF) by (nonlinear_arith)
                requires
                    0 <= (i as int) <= 0xFFFF_FFFF_FFFF_FFFF,
                    0 <= (from as int) <= 0xFFFF_FFFF,
            ;
        }
        let num: u128 = (i as u128) * (from as u128);
        let idx: usize = (num / (to as u128)) as usize;
        let rem: i64 = (num % (to as u128)) as i64;
        let s1: i64 = samples[idx] as i64;
        proof {
            lemma_sample_at_in_i16(samples@, num as int, to as int);
        }
        let val: i64 = if idx + 1 < len {
            let s2: i64 = samples[idx + 1] as i64;
            proof {
                assert(-32768 * 0x1_0000_0000 <= (s1 as int) * (to as int) <= 32768
                    * 0x1_0000_0000) by (nonlinear_arith)
                    requires
                        -32768 <= (s1 as int) <= 32767,
                        1 <= (to as int) < 0x1_0000_0000,
                ;
                assert(-65536 * 0x1_0000_0000 <= ((s2 as int) - (s1 as int)) * (rem as int)
                    <= 65536 * 0x1_0000_0000) by (nonlinear_arith)
                    requires
                        -65536 <= (s2 as int) - (s1 as int) <= 65536,
                        0 <= (rem as int) < 0x1_0000_0000,
                ;
            }
            let n: i64 = s1 * (to as i64) + (s2 - s1) * rem;
            trunc_div_i64(n, to as i64)
        } else {
            s1
        };
        out.push(val as i16);
        proof {
            assert(out@[i as int] == downsampled(samples@, from as int, to as int)[i as int]);
        }
        i += 1;
    }
    proof {
        assert(out@ =~= downsampled(samples@, from as int, to as int));
    }
    out
}

/// Resampling at the source's own rate is the identity, and the output
/// length of a genuine conversion is exactly `len * to / from` (so within
/// one sample of `len * to / from` however the rational part falls).
pub proof fn lemma_resample_identity_and_len(s: Seq<i16>, from: int, to: int)
    requires
        from >= 1,
        to >= 1,
    ensures
        downsampled(s, from, from) == s,
        downsampled(s, from, to).len() == resample_len(s.len() as int, from, to),
        from == to ==> downsampled(s, from, to) == s,
{
    if from != to {
        vstd::arithmetic::div_mod::lemma_div_pos_is_pos(s.len() * to, from);
        vstd::arithmetic::mul::lemma_mul_nonnegative(s.len() as int, to);
    }
}

} // verus!
