//! Quantization of per-pixel coverage values to bytes.
//!
//! The rasterizer reports the coverage of each pixel as an IEEE 754 single
//! precision fraction; a bitmap stores it as an unsigned byte, the fraction
//! multiplied by 255 and truncated.  The library never computes with the
//! floating-point value itself: it receives the 32-bit encoding and derives
//! the byte from the sign, exponent and significand fields with integer
//! arithmetic alone.  Out-of-range encodings are mapped the way Rust's
//! saturating float-to-integer cast maps their values: everything at or above
//! one gives 255, everything at or below zero (and NaN) gives 0.

use vstd::arithmetic::div_mod::{lemma_div_is_ordered, lemma_div_is_ordered_by_denominator};
use vstd::arithmetic::power2::{lemma2_to64, pow2};
use vstd::bits::lemma_u64_shr_is_div;
use vstd::prelude::*;

verus! {

/// The coverage byte encoded by the IEEE 754 single `bits`: the value
/// multiplied by 255 and truncated toward zero, saturated to `[0, 255]`.
///
/// A single with sign `s`, biased exponent `e` and significand field `m`
/// denotes `(-1)^s * (1 + m / 2^23) * 2^(e - 127)` when `0 < e < 255`, so for
/// those the truncated multiple is `255 * (2^23 + m) / 2^(150 - e)`.
pub open spec fn coverage_level(bits: u32) -> int {
    let e = ((bits >> 23u32) & 0xFF) as int;
    let m = (bits & 0x7FFFFF) as int;
    if bits >= 0x80000000 {
        0  // sign bit set: the value is negative or negative zero
    } else if e == 255 {
        if m == 0 {
            255  // positive infinity
        } else {
            0  // NaN
        }
    } else if e >= 127 {
        255  // the value is at least one
    } else if e == 0 {
        0  // zero or subnormal: 255 times the value is below one
    } else {
        255 * (0x800000 + m) / pow2((150 - e) as nat) as int
    }
}

/// Every quantized coverage value is a byte: it lies in `[0, 255]`.
pub proof fn lemma_coverage_level_bounds(bits: u32)
    ensures
        0 <= coverage_level(bits) <= 255,
{
    let e = ((bits >> 23u32) & 0xFF) as int;
    let m = (bits & 0x7FFFFF) as int;
    assert((bits >> 23u32) & 0xFF <= 255) by (bit_vector);
    assert(bits & 0x7FFFFF <= 0x7FFFFF) by (bit_vector);
    if !(bits >= 0x80000000) && e != 255 && e < 127 && e != 0 {
        let num = 255 * (0x800000 + m);
        let shift = (150 - e) as nat;
        lemma2_to64();
        assert(pow2(24) == 0x1000000);
        vstd::arithmetic::power2::lemma_pow2_pos(shift);
        lemma_div_is_ordered(0, num, pow2(shift) as int);
        if shift > 24 {
            vstd::arithmetic::power2::lemma_pow2_strictly_increases(24, shift);
        }
        lemma_div_is_ordered_by_denominator(num, pow2(24) as int, pow2(shift) as int);
        lemma_div_is_ordered(num, 255int * 0xFFFFFF, pow2(24) as int);
        assert(255int * 0xFFFFFF / (pow2(24) as int) == 254);
    }
}

/// The coverage byte for the single-precision encoding `bits`, computed with
/// integer arithmetic on the encoding's fields.
pub fn quantize(bits: u32) -> (r: u8)
    ensures
        r as int == coverage_level(bits),
{
    proof {
        lemma_coverage_level_bounds(bits);
    }
    let e: u32 = (bits >> 23u32) & 0xFF;
    let m: u32 = bits & 0x7FFFFF;
    assert((bits >> 23u32) & 0xFF <= 255) by (bit_vector);
    assert(bits & 0x7FFFFF <= 0x7FFFFF) by (bit_vector);
    if bits >= 0x80000000 {
        0
    } else if e == 255 {
        if m == 0 {
            255
        } else {
            0
        }
    } else if e >= 127 {
        255
    } else if e == 0 {
        0
    } else {
        let shift: u32 = 150 - e;
        let num: u64 = 255u64 * (0x800000u64 + m as u64);
        proof {
            lemma2_to64();
            assert(pow2(32) == 0x100000000);
        }
        if shift >= 32 {
            proof {
                if shift > 32 {
                    vstd::arithmetic::power2::lemma_pow2_strictly_increases(
                        32,
                        shift as nat,
                    );
                }
                vstd::arithmetic::div_mod::lemma_basic_div(
                    num as int,
                    pow2(shift as nat) as int,
                );
            }
            0
        } else {
            proof {
                lemma_u64_shr_is_div(num, shift as u64);
            }
            (num >> (shift as u64)) as u8
        }
    }
}

} // verus!
