//! The WAV artifact format: a standard RIFF/WAVE container holding mono,
//! 16-bit signed PCM. The byte layout is specified here and the encoder and
//! decoder are verified against it; decoding an encoded sequence returns the
//! samples unchanged.

use vstd::arithmetic::div_mod::{
    lemma_div_denominator, lemma_div_multiples_vanish, lemma_div_pos_is_pos,
    lemma_fundamental_div_mod, lemma_mod_division_less_than_divisor, lemma_mod_multiples_basic,
    lemma_multiply_divide_lt, lemma_small_mod,
};
use vstd::prelude::*;

verus! {

/// A 16-bit sample reinterpreted as its unsigned two's-complement value.
pub open spec fn u16_of_i16(s: i16) -> int {
    if s >= 0 {
        s as int
    } else {
        s as int + 65536
    }
}

/// The 16-bit sample carried by a little-endian byte pair.
pub open spec fn decode_i16(lo: u8, hi: u8) -> i16 {
    let v = (lo as int) + 256 * (hi as int);
    if v < 32768 {
        v as i16
    } else {
        (v - 65536) as i16
    }
}

/// The little-endian 32-bit value starting at `off`.
pub open spec fn read_le32(b: Seq<u8>, off: int) -> int
    recommends
        0 <= off,
        off + 4 <= b.len(),
{
    (b[off] as int) + 256 * (b[off + 1] as int) + 65536 * (b[off + 2] as int) + 16777216 * (b[off
        + 3] as int)
}

/// Byte `i` of the 44-byte RIFF/WAVE header for `n` mono 16-bit samples at
/// `rate` Hz: the RIFF tag and chunk size, the WAVE and fmt tags, the fixed
/// PCM format fields, and the data tag with its size.
pub open spec fn wav_header_byte(i: int, n: int, rate: int) -> u8
    recommends
        0 <= i < 44,
{
    let sz = 36 + 2 * n;
    let br = 2 * rate;
    let data = 2 * n;
    if i == 0 {
        0x52u8  // 'R'
    } else if i == 1 {
        0x49u8  // 'I'
    } else if i == 2 {
        0x46u8  // 'F'
    } else if i == 3 {
        0x46u8  // 'F'
    } else if i == 4 {
        (sz % 256) as u8
    } else if i == 5 {
        ((sz / 256) % 256) as u8
    } else if i == 6 {
        ((sz / 65536) % 256) as u8
    } else if i == 7 {
        ((sz / 16777216) % 256) as u8
    } else if i == 8 {
        0x57u8  // 'W'
    } else if i == 9 {
        0x41u8  // 'A'
    } else if i == 10 {
        0x56u8  // 'V'
    } else if i == 11 {
        0x45u8  // 'E'
    } else if i == 12 {
        0x66u8  // 'f'
    } else if i == 13 {
        0x6du8  // 'm'
    } else if i == 14 {
        0x74u8  // 't'
    } else if i == 15 {
        0x20u8  // ' '
    } else if i == 16 {
        16u8  // fmt chunk size
    } else if i == 17 {
        0u8
    } else if i == 18 {
        0u8
    } else if i == 19 {
        0u8
    } else if i == 20 {
        1u8  // PCM
    } else if i == 21 {
        0u8
    } else if i == 22 {
        1u8  // mono
    } else if i == 23 {
        0u8
    } else if i == 24 {
        (rate % 256) as u8
    } else if i == 25 {
        ((rate / 256) % 256) as u8
    } else if i == 26 {
        ((rate / 65536) % 256) as u8
    } else if i == 27 {
        ((rate / 16777216) % 256) as u8
    } else if i == 28 {
        (br % 256) as u8
    } else if i == 29 {
        ((br / 256) % 256) as u8
    } else if i == 30 {
        ((br / 65536) % 256) as u8
    } else if i == 31 {
        ((br / 16777216) % 256) as u8
    } else if i == 32 {
        2u8  // block align
    } else if i == 33 {
        0u8
    } else if i == 34 {
        16u8  // bits per sample
    } else if i == 35 {
        0u8
    } else if i == 36 {
        0x64u8  // 'd'
    } else if i == 37 {
        0x61u8  // 'a'
    } else if i == 38 {
        0x74u8  // 't'
    } else if i == 39 {
        0x61u8  // 'a'
    } else if i == 40 {
        (data % 256) as u8
    } else if i == 41 {
        ((data / 256) % 256) as u8
    } else if i == 42 {
        ((data / 65536) % 256) as u8
    } else {
        ((data / 16777216) % 256) as u8
    }
}

/// The whole header.
pub open spec fn wav_header(n: int, rate: int) -> Seq<u8> {
    Seq::new(44, |i: int| wav_header_byte(i, n, rate))
}

/// The PCM payload: each sample as a little-endian byte pair.
pub open spec fn sample_bytes(s: Seq<i16>) -> Seq<u8> {
    Seq::new(
        2 * s.len(),
        |j: int|
            if j % 2 == 0 {
                (u16_of_i16(s[j / 2]) % 256) as u8
            } else {
                ((u16_of_i16(s[j / 2]) / 256) % 256) as u8
            },
    )
}

/// A complete artifact: header then payload.
pub open spec fn wav_bytes(s: Seq<i16>, rate: int) -> Seq<u8> {
    wav_header(s.len() as int, rate) + sample_bytes(s)
}

/// What decoding yields: the payload samples, provided the bytes carry
/// exactly the header this module writes (mono 16-bit PCM at the rate the
/// header names) and a whole number of sample pairs.
pub open spec fn wav_parse(b: Seq<u8>) -> Option<Seq<i16>> {
    if b.len() < 44 || (b.len() - 44) % 2 != 0 {
        None
    } else {
        let rate = read_le32(b, 24);
        let n = (b.len() - 44) / 2;
        if rate < 1 || rate > 0x7FFF_FFFF || 36 + 2 * n > 0xFFFF_FFFF {
            None
        } else if b.subrange(0, 44) == wav_header(n, rate) {
            Some(Seq::new(n as nat, |i: int| decode_i16(b[44 + 2 * i], b[44 + 2 * i + 1])))
        } else {
            None
        }
    }
}

/// Computes one header byte.
fn header_byte(i: usize, n: u32, rate: u32) -> (b: u8)
    requires
        i < 44,
        36 + 2 * (n as int) <= 0xFFFF_FFFF,
        1 <= rate <= 0x7FFF_FFFF,
    ensures
        b == wav_header_byte(i as int, n as int, rate as int),
{
    let sz: u32 = 36 + 2 * n;
    let br: u32 = 2 * rate;
    let data: u32 = 2 * n;
    if i == 0 {
        0x52u8
    } else if i == 1 {
        0x49u8
    } else if i == 2 {
        0x46u8
    } else if i == 3 {
        0x46u8
    } else if i == 4 {
        (sz % 256) as u8
    } else if i == 5 {
        ((sz / 256) % 256) as u8
    } else if i == 6 {
        ((sz / 65536) % 256) as u8
    } else if i == 7 {
        ((sz / 16777216) % 256) as u8
    } else if i == 8 {
        0x57u8
    } else if i == 9 {
        0x41u8
    } else if i == 10 {
        0x56u8
    } else if i == 11 {
        0x45u8
    } else if i == 12 {
        0x66u8
    } else if i == 13 {
        0x6du8
    } else if i == 14 {
        0x74u8
    } else if i == 15 {
        0x20u8
    } else if i == 16 {
        16u8
    } else if i == 17 {
        0u8
    } else if i == 18 {
        0u8
    } else if i == 19 {
        0u8
    } else if i == 20 {
        1u8
    } else if i == 21 {
        0u8
    } else if i == 22 {
        1u8
    } else if i == 23 {
        0u8
    } else if i == 24 {
        (rate % 256) as u8
    } else if i == 25 {
        ((rate / 256) % 256) as u8
    } else if i == 26 {
        ((rate / 65536) % 256) as u8
    } else if i == 27 {
        ((rate / 16777216) % 256) as u8
    } else if i == 28 {
        (br % 256) as u8
    } else if i == 29 {
        ((br / 256) % 256) as u8
    } else if i == 30 {
        ((br / 65536) % 256) as u8
    } else if i == 31 {
        ((br / 16777216) % 256) as u8
    } else if i == 32 {
        2u8
    } else if i == 33 {
        0u8
    } else if i == 34 {
        16u8
    } else if i == 35 {
        0u8
    } else if i == 36 {
        0x64u8
    } else if i == 37 {
        0x61u8
    } else if i == 38 {
        0x74u8
    } else if i == 39 {
        0x61u8
    } else if i == 40 {
        (data % 256) as u8
    } else if i == 41 {
        ((data / 256) % 256) as u8
    } else if i == 42 {
        ((data / 65536) % 256) as u8
    } else {
        ((data / 16777216) % 256) as u8
    }
}

/// Serializes `samples` into a WAV container at `sample_rate` Hz.
pub fn wav_encode(samples: &[i16], sample_rate: u32) -> (out: Vec<u8>)
    requires
        1 <= sample_rate <= 0x7FFF_FFFF,
        36 + 2 * samples@.len() <= 0xFFFF_FFFF,
    ensures
        out@ == wav_bytes(samples@, sample_rate as int),
{
    let ghost target = wav_bytes(samples@, sample_rate as int);
    let n: u32 = samples.len() as u32;
    let mut out: Vec<u8> = Vec::new();
    let mut j: usize = 0;
    while j < 44
        invariant
            1 <= sample_rate <= 0x7FFF_FFFF,
            36 + 2 * samples@.len() <= 0xFFFF_FFFF,
            n as int == samples@.len(),
            target == wav_bytes(samples@, sample_rate as int),
            j <= 44,
            out@.len() == j as int,
            forall|t: int| 0 <= t < j as int ==> out@[t] == target[t],
        decreases 44 - j,
    {
        out.push(header_byte(j, n, sample_rate));
        j += 1;
    }
    let mut k: usize = 0;
    while k < samples.len()
        invariant
            1 <= sample_rate <= 0x7FFF_FFFF,
            36 + 2 * samples@.len() <= 0xFFFF_FFFF,
            target == wav_bytes(samples@, sample_rate as int),
            k <= samples@.len(),
            out@.len() == 44 + 2 * (k as int),
            forall|t: int| 0 <= t < out@.len() ==> out@[t] == target[t],
        decreases samples@.len() - k as int,
    {
        let s: i16 = samples[k];
        let u: u32 = if s >= 0 {
            s as u32
        } else {
            ((s as i32) + 65536) as u32
        };
        proof {
            assert(u as int == u16_of_i16(samples@[k as int]));
            assert(0 <= (u as int) < 65536);
            assert((u as int / 256) % 256 == u as int / 256) by {
                lemma_multiply_divide_lt(u as int, 256, 256);
                lemma_div_pos_is_pos(u as int, 256);
                lemma_small_mod((u as int / 256) as nat, 256);
            };
            assert(target[44 + 2 * (k as int)] == sample_bytes(samples@)[2 * (k as int)]);
            assert(target[44 + 2 * (k as int) + 1] == sample_bytes(samples@)[2 * (k as int) + 1]);
            assert((2 * (k as int)) % 2 == 0 && (2 * (k as int)) / 2 == k as int) by {
                lemma_mod_multiples_basic(k as int, 2);
                lemma_div_multiples_vanish(k as int, 2);
            };
            assert((2 * (k as int) + 1) % 2 == 1 && (2 * (k as int) + 1) / 2 == k as int) by {
                lemma_fundamental_div_mod(2 * (k as int) + 1, 2);
                lemma_div_multiples_vanish(k as int, 2);
            };
        }
        out.push((u % 256) as u8);
        out.push((u / 256) as u8);
        k += 1;
    }
    proof {
        assert(out@ =~= target);
    }
    out
}

/// Parses a WAV container produced by `wav_encode`, returning its samples;
/// any other byte sequence is rejected.
pub fn wav_decode(bytes: &[u8]) -> (r: Option<Vec<i16>>)
    ensures
        r matches Some(v) ==> wav_parse(bytes@) == Some(v@),
        r is None ==> wav_parse(bytes@) is None,
{
    if bytes.len() < 44 {
        return None;
    }
    if (bytes.len() - 44) % 2 != 0 {
        return None;
    }
    let rate: u32 = (bytes[24] as u32) + 256 * (bytes[25] as u32) + 65536 * (bytes[26] as u32)
        + 16777216 * (bytes[27] as u32);
    proof {
        assert(rate as int == read_le32(bytes@, 24));
    }
    if rate < 1 || rate > 0x7FFF_FFFF {
        return None;
    }
    let n: usize = (bytes.len() - 44) / 2;
    proof {
        lemma_fundamental_div_mod(bytes@.len() - 44, 2);
        assert(bytes@.len() == 44 + 2 * (n as int));
    }
    if 2 * (n as u64) + 36 > 0xFFFF_FFFF {
        return None;
    }
    let mut j: usize = 0;
    while j < 44
        invariant
            bytes@.len() == 44 + 2 * (n as int),
            1 <= rate <= 0x7FFF_FFFF,
            rate as int == read_le32(bytes@, 24),
            n as int == (bytes@.len() - 44) / 2,
            36 + 2 * (n as int) <= 0xFFFF_FFFF,
            j <= 44,
            forall|t: int|
                0 <= t < j as int ==> bytes@[t] == wav_header_byte(t, n as int, rate as int),
        decreases 44 - j,
    {
        if bytes[j] != header_byte(j, n as u32, rate) {
            proof {
                assert(bytes@.subrange(0, 44)[j as int] != wav_header(n as int, rate as int)[
                j as int]);
            }
            return None;
        }
        j += 1;
    }
    proof {
        assert(bytes@.subrange(0, 44) =~= wav_header(n as int, rate as int));
    }
    let mut v: Vec<i16> = Vec::new();
    let ghost parsed = Seq::new(
        n as nat,
        |i: int| decode_i16(bytes@[44 + 2 * i], bytes@[44 + 2 * i + 1]),
    );
    let mut k: usize = 0;
    while k < n
        invariant
            bytes@.len() == 44 + 2 * (n as int),
            44 + 2 * (n as int) <= usize::MAX as int,
            k <= n,
            v@.len() == k as int,
            parsed == Seq::new(
                n as nat,
                |i: int| decode_i16(bytes@[44 + 2 * i], bytes@[44 + 2 * i + 1]),
            ),
            forall|t: int| 0 <= t < k as int ==> v@[t] == parsed[t],
        decreases n - k,
    {
        let lo: u32 = bytes[44 + 2 * k] as u32;
        let hi: u32 = bytes[44 + 2 * k + 1] as u32;
        let val: u32 = lo + 256 * hi;
        let s: i16 = if val < 32768 {
            val as i16
        } else {
            ((val as i32) - 65536) as i16
        };
        v.push(s);
        k += 1;
    }
    proof {
        assert(v@ =~= parsed);
    }
    Some(v)
}

/// Reassembling a value from its four little-endian digit bytes gives the
/// value back.
proof fn lemma_le32_digits(v: int)
    requires
        0 <= v < 0x1_0000_0000,
    ensures
        (v % 256) + 256 * ((v / 256) % 256) + 65536 * ((v / 65536) % 256) + 16777216 * ((v
            / 16777216) % 256) == v,
{
    let q1 = v / 256;
    let q2 = v / 65536;
    let q3 = v / 16777216;
    lemma_fundamental_div_mod(v, 256);
    lemma_fundamental_div_mod(q1, 256);
    lemma_fundamental_div_mod(q2, 256);
    lemma_div_pos_is_pos(v, 256);
    lemma_div_pos_is_pos(q1, 256);
    lemma_div_pos_is_pos(q2, 256);
    lemma_mod_division_less_than_divisor(v, 256);
    lemma_mod_division_less_than_divisor(q1, 256);
    lemma_mod_division_less_than_divisor(q2, 256);
    assert(q1 / 256 == q2) by {
        lemma_div_denominator(v, 256, 256);
    };
    assert(q2 / 256 == q3) by {
        lemma_div_denominator(v, 65536, 256);
    };
    assert(q3 < 256) by {
        lemma_multiply_divide_lt(v, 16777216, 256);
    };
    assert(q3 % 256 == q3) by {
        lemma_div_pos_is_pos(v, 16777216);
        lemma_small_mod(q3 as nat, 256);
    };
    assert(v == v % 256 + 256 * (q1 % 256) + 65536 * (q2 % 256) + 16777216 * q3) by (nonlinear_arith)
        requires
            v == 256 * q1 + v % 256,
            q1 == 256 * q2 + q1 % 256,
            q2 == 256 * q3 + q2 % 256,
    ;
}

/// Decoding the two little-endian bytes of a sample returns the sample.
proof fn lemma_sample_byte_round_trip(s: i16)
    ensures
        decode_i16((u16_of_i16(s) % 256) as u8, ((u16_of_i16(s) / 256) % 256) as u8) == s,
{
    let u = u16_of_i16(s);
    lemma_fundamental_div_mod(u, 256);
    lemma_div_pos_is_pos(u, 256);
    lemma_mod_division_less_than_divisor(u, 256);
    assert(u / 256 < 256) by {
        lemma_multiply_divide_lt(u, 256, 256);
    };
    assert((u / 256) % 256 == u / 256) by {
        lemma_small_mod((u / 256) as nat, 256);
    };
}

/// Round trip: parsing an encoded sample sequence returns it exactly.
pub proof fn lemma_wav_round_trip(s: Seq<i16>, rate: int)
    requires
        1 <= rate <= 0x7FFF_FFFF,
        36 + 2 * s.len() <= 0xFFFF_FFFF,
    ensures
        wav_parse(wav_bytes(s, rate)) == Some(s),
{
    let b = wav_bytes(s, rate);
    let n = s.len() as int;
    assert(b.len() == 44 + 2 * n);
    assert((b.len() - 44) % 2 == 0) by {
        lemma_mod_multiples_basic(n, 2);
    };
    assert((b.len() - 44) / 2 == n) by {
        lemma_div_multiples_vanish(n, 2);
    };
    assert(forall|i: int| 0 <= i < 44 ==> b[i] == wav_header_byte(i, n, rate));
    assert(read_le32(b, 24) == rate) by {
        assert(b[24] == wav_header_byte(24, n, rate));
        assert(b[25] == wav_header_byte(25, n, rate));
        assert(b[26] == wav_header_byte(26, n, rate));
        assert(b[27] == wav_header_byte(27, n, rate));
        lemma_le32_digits(rate);
    };
    assert(b.subrange(0, 44) =~= wav_header(n, rate));
    let parsed = Seq::new(n as nat, |i: int| decode_i16(b[44 + 2 * i], b[44 + 2 * i + 1]));
    assert forall|i: int| 0 <= i < n implies parsed[i] == s[i] by {
        assert(b[44 + 2 * i] == sample_bytes(s)[2 * i]);
        assert(b[44 + 2 * i + 1] == sample_bytes(s)[2 * i + 1]);
        assert((2 * i) % 2 == 0 && (2 * i) / 2 == i) by {
            lemma_mod_multiples_basic(i, 2);
            lemma_div_multiples_vanish(i, 2);
        };
        assert((2 * i + 1) % 2 == 1 && (2 * i + 1) / 2 == i) by {
            lemma_fundamental_div_mod(2 * i + 1, 2);
            lemma_div_multiples_vanish(i, 2);
        };
        lemma_sample_byte_round_trip(s[i]);
    };
    assert(parsed =~= s);
}

} // verus!
