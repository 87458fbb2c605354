//! Reading IEEE-754 single-precision bit patterns.
//!
//! Clients describe a movement direction with two single-precision
//! components; the transport hands them to the core as raw bit patterns.
//! The core classifies each pattern (finite or not) and converts finite
//! ones to fixed-point millis, rounding the magnitude down and clamping it
//! to `DIR_LIMIT_MILLI` -- normalization erases the clamp for every
//! direction a well-behaved client sends.

use vstd::prelude::*;
use crate::vector::DIR_LIMIT_MILLI;
use vstd::arithmetic::power2::{pow2, lemma_pow2_strictly_increases, lemma2_to64, lemma2_to64_rest};
use vstd::arithmetic::div_mod::lemma_basic_div;
use vstd::bits::lemma_u64_shr_is_div;

verus! {

/// Exponent field of a single-precision bit pattern.
pub open spec fn exp_bits(bits: u32) -> u32 {
    (bits >> 23) & 0xff
}

/// Fraction field of a single-precision bit pattern.
pub open spec fn frac_bits(bits: u32) -> u32 {
    bits & 0x7f_ffff
}

/// Sign bit of a single-precision bit pattern.
pub open spec fn sign_bit(bits: u32) -> bool {
    (bits >> 31) == 1
}

/// The pattern encodes a finite number: neither an infinity nor a NaN.
pub open spec fn is_finite_bits(bits: u32) -> bool {
    exp_bits(bits) != 0xff
}

/// Whether the pattern encodes a finite number.
pub fn finite_bits(bits: u32) -> (r: bool)
    ensures
        r == is_finite_bits(bits),
{
    ((bits >> 23) & 0xff) != 0xff
}

/// Magnitude, in millis, of the finite number the pattern encodes, rounded
/// down and clamped to `DIR_LIMIT_MILLI`.  The pattern encodes a magnitude
/// of `mant * 2^(e - 150)` units, where `mant` is the 24-bit significand
/// (23 fraction bits plus the implicit leading bit of a normal number) and
/// `e` the exponent field, read as 1 for a subnormal number.  Whenever
/// `e >= 150` that magnitude is at least 2^23 units, far beyond the clamp.
pub open spec fn milli_mag_of_bits(bits: u32) -> int {
    let e = exp_bits(bits) as int;
    let mant = frac_bits(bits) + if e == 0 { 0int } else { 0x80_0000int };
    if e >= 150 {
        DIR_LIMIT_MILLI as int
    } else {
        let k = (150 - if e == 0 { 1int } else { e }) as nat;
        let m = mant * 1000 / (pow2(k) as int);
        if m < DIR_LIMIT_MILLI as int {
            m
        } else {
            DIR_LIMIT_MILLI as int
        }
    }
}

/// Signed value, in millis, of the finite number the pattern encodes.
pub open spec fn milli_of_bits(bits: u32) -> int {
    if sign_bit(bits) {
        -milli_mag_of_bits(bits)
    } else {
        milli_mag_of_bits(bits)
    }
}

/// Converts a finite single-precision bit pattern to millis.
pub fn decode_component(bits: u32) -> (r: i64)
    requires
        is_finite_bits(bits),
    ensures
        r as int == milli_of_bits(bits),
        -DIR_LIMIT_MILLI <= r <= DIR_LIMIT_MILLI,
{
    let e: u32 = (bits >> 23) & 0xff;
    let frac: u32 = bits & 0x7f_ffff;
    let neg: bool = (bits >> 31) == 1;
    proof {
        assert(bits & 0x7f_ffff <= 0x7f_ffff) by (bit_vector);
    }
    let mag: i64;
    if e >= 150 {
        mag = DIR_LIMIT_MILLI;
    } else {
        let mant: u64 = if e == 0 {
            frac as u64
        } else {
            (frac as u64) + 0x80_0000
        };
        let k: u64 = 150 - (if e == 0 { 1 } else { e as u64 });
        let num: u64 = mant * 1000;
        if k >= 34 {
            proof {
                lemma2_to64_rest();
                if k > 34 {
                    lemma_pow2_strictly_increases(34, k as nat);
                }
                lemma_basic_div(num as int, pow2(k as nat) as int);
            }
            mag = 0;
        } else {
            let q: u64 = num >> k;
            proof {
                lemma_u64_shr_is_div(num, k);
            }
            mag = if q < (DIR_LIMIT_MILLI as u64) {
                q as i64
            } else {
                DIR_LIMIT_MILLI
            };
        }
    }
    if neg { -mag } else { mag }
}

} // verus!
