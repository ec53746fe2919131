//! Scalars as IEEE 754 single-precision bit patterns.
//!
//! The kernel stores every scalar as the bit pattern of a single-precision
//! value in a `u32`. Comparison, absolute value and negation are pure bit
//! manipulation and are implemented and verified here; the rounded
//! arithmetic is reached through trusted wrappers around a software
//! floating-point library, each result named by an uninterpreted spec
//! function so that every contract in the crate can state exactly which
//! arithmetic a function performs.

use vstd::prelude::*;
use rustc_apfloat::Float;
use rustc_apfloat::Round;
use rustc_apfloat::ieee::Single;

verus! {

/// Bit pattern of positive zero.
pub const BITS_ZERO: u32 = 0x0000_0000;

/// Bit pattern of one.
pub const BITS_ONE: u32 = 0x3F80_0000;

/// Bit pattern of two.
pub const BITS_TWO: u32 = 0x4000_0000;

/// Bit pattern of four.
pub const BITS_FOUR: u32 = 0x4080_0000;

/// Bit pattern of the machine epsilon of single precision (2^-23), the
/// tolerance of approximate scalar equality.
pub const BITS_EPSILON: u32 = 0x3400_0000;

/// The bit pattern with the sign bit cleared: the scalar's magnitude.
pub open spec fn abs_bits(a: u32) -> u32 {
    a & 0x7FFF_FFFF
}

/// The bit pattern with the sign bit flipped: the negated scalar.
pub open spec fn neg_bits(a: u32) -> u32 {
    a ^ 0x8000_0000
}

/// A NaN: magnitude strictly above that of infinity.
pub open spec fn is_nan_bits(a: u32) -> bool {
    abs_bits(a) > 0x7F80_0000
}

/// Numeric order key of a non-NaN scalar: sign-magnitude read of the bit
/// pattern, under which the two zeros coincide and greater keys are
/// greater scalars.
pub open spec fn key_bits(a: u32) -> int {
    if a >= 0x8000_0000 {
        -(abs_bits(a) as int)
    } else {
        abs_bits(a) as int
    }
}

/// IEEE `<=`: false whenever an operand is NaN, the key order otherwise.
pub open spec fn le_bits(a: u32, b: u32) -> bool {
    !is_nan_bits(a) && !is_nan_bits(b) && key_bits(a) <= key_bits(b)
}

/// IEEE `<`: false whenever an operand is NaN, the key order otherwise.
pub open spec fn lt_bits(a: u32, b: u32) -> bool {
    !is_nan_bits(a) && !is_nan_bits(b) && key_bits(a) < key_bits(b)
}

/// IEEE `==`: false whenever an operand is NaN; identifies the two zeros.
pub open spec fn eq_bits(a: u32, b: u32) -> bool {
    !is_nan_bits(a) && !is_nan_bits(b) && key_bits(a) == key_bits(b)
}

pub uninterp spec fn add_bits(a: u32, b: u32) -> u32;

pub uninterp spec fn sub_bits(a: u32, b: u32) -> u32;

pub uninterp spec fn mul_bits(a: u32, b: u32) -> u32;

pub uninterp spec fn div_bits(a: u32, b: u32) -> u32;

/// Approximate scalar equality: `|a - b| <= EPSILON`, the tolerance used
/// by every equality of tuples, colours and matrices.
pub open spec fn approx_eq_bits(a: u32, b: u32) -> bool {
    le_bits(abs_bits(sub_bits(a, b)), BITS_EPSILON)
}

/// Relies on `rustc_apfloat::ieee::Single::add_r`: IEEE binary32 addition
/// rounded to nearest, ties to even — deterministic software arithmetic,
/// one result for each pair of operand bit patterns.
#[verifier::external_body]
pub fn float_add(a: u32, b: u32) -> (r: u32)
    ensures
        r == add_bits(a, b),
{
    let x = Single::from_bits(a as u128);
    let y = Single::from_bits(b as u128);
    x.add_r(y, Round::NearestTiesToEven).value.to_bits() as u32
}

/// Relies on `rustc_apfloat::ieee::Single::sub_r`: IEEE binary32
/// subtraction rounded to nearest, ties to even — deterministic, one
/// result for each pair of operand bit patterns.
#[verifier::external_body]
pub fn float_sub(a: u32, b: u32) -> (r: u32)
    ensures
        r == sub_bits(a, b),
{
    let x = Single::from_bits(a as u128);
    let y = Single::from_bits(b as u128);
    x.sub_r(y, Round::NearestTiesToEven).value.to_bits() as u32
}

/// Relies on `rustc_apfloat::ieee::Single::mul_r`: IEEE binary32
/// multiplication rounded to nearest, ties to even — deterministic, one
/// result for each pair of operand bit patterns.
#[verifier::external_body]
pub fn float_mul(a: u32, b: u32) -> (r: u32)
    ensures
        r == mul_bits(a, b),
{
    let x = Single::from_bits(a as u128);
    let y = Single::from_bits(b as u128);
    x.mul_r(y, Round::NearestTiesToEven).value.to_bits() as u32
}

/// Relies on `rustc_apfloat::ieee::Single::div_r`: IEEE binary32 division
/// rounded to nearest, ties to even — deterministic, one result for each
/// pair of operand bit patterns.
#[verifier::external_body]
pub fn float_div(a: u32, b: u32) -> (r: u32)
    ensures
        r == div_bits(a, b),
{
    let x = Single::from_bits(a as u128);
    let y = Single::from_bits(b as u128);
    x.div_r(y, Round::NearestTiesToEven).value.to_bits() as u32
}

/// Bit pattern of 255, the largest channel value of the image format.
pub const BITS_255: u32 = 0x437F_0000;

pub uninterp spec fn round_bits(a: u32) -> u32;

pub uninterp spec fn u32_of_bits(a: u32) -> u32;

/// Relies on `rustc_apfloat::ieee::Single::round_to_integral` with ties
/// away from zero, the rounding of single-precision `round` —
/// deterministic, one result for each operand bit pattern.
#[verifier::external_body]
pub fn float_round(a: u32) -> (r: u32)
    ensures
        r == round_bits(a),
{
    let x = Single::from_bits(a as u128);
    x.round_to_integral(Round::NearestTiesToAway).value.to_bits() as u32
}

/// Relies on `rustc_apfloat::ieee::Single::to_u128` with a 32-bit
/// width: conversion toward zero, clamped to the range, zero for NaN —
/// deterministic, one result for each operand bit pattern.
#[verifier::external_body]
pub fn float_to_u32(a: u32) -> (r: u32)
    ensures
        r == u32_of_bits(a),
{
    let x = Single::from_bits(a as u128);
    x.to_u128(32).value as u32
}

/// Magnitude of a scalar: clears the sign bit, as single-precision
/// absolute value does.
pub fn float_abs(a: u32) -> (r: u32)
    ensures
        r == abs_bits(a),
{
    a & 0x7FFF_FFFF
}

/// Negation of a scalar: flips the sign bit, as single-precision negation
/// does.
pub fn float_neg(a: u32) -> (r: u32)
    ensures
        r == neg_bits(a),
{
    a ^ 0x8000_0000
}

/// IEEE `<=` on two scalar bit patterns.
pub fn float_le(a: u32, b: u32) -> (r: bool)
    ensures
        r == le_bits(a, b),
{
    let ma = a & 0x7FFF_FFFF;
    let mb = b & 0x7FFF_FFFF;
    assert(ma == abs_bits(a) && mb == abs_bits(b)) by (bit_vector)
        requires
            ma == a & 0x7FFF_FFFF && mb == b & 0x7FFF_FFFF,
    ;
    if ma > 0x7F80_0000 || mb > 0x7F80_0000 {
        false
    } else {
        let neg_a = a >= 0x8000_0000;
        let neg_b = b >= 0x8000_0000;
        if neg_a && neg_b {
            mb <= ma
        } else if neg_a {
            true
        } else if neg_b {
            ma == 0 && mb == 0
        } else {
            ma <= mb
        }
    }
}

/// IEEE `<` on two scalar bit patterns.
pub fn float_lt(a: u32, b: u32) -> (r: bool)
    ensures
        r == lt_bits(a, b),
{
    let ma = a & 0x7FFF_FFFF;
    let mb = b & 0x7FFF_FFFF;
    assert(ma == abs_bits(a) && mb == abs_bits(b)) by (bit_vector)
        requires
            ma == a & 0x7FFF_FFFF && mb == b & 0x7FFF_FFFF,
    ;
    if ma > 0x7F80_0000 || mb > 0x7F80_0000 {
        false
    } else {
        let neg_a = a >= 0x8000_0000;
        let neg_b = b >= 0x8000_0000;
        if neg_a && neg_b {
            mb < ma
        } else if neg_a {
            !(ma == 0 && mb == 0)
        } else if neg_b {
            false
        } else {
            ma < mb
        }
    }
}

/// IEEE `==` on two scalar bit patterns.
pub fn float_eq(a: u32, b: u32) -> (r: bool)
    ensures
        r == eq_bits(a, b),
{
    let ma = a & 0x7FFF_FFFF;
    let mb = b & 0x7FFF_FFFF;
    assert(ma == abs_bits(a) && mb == abs_bits(b)) by (bit_vector)
        requires
            ma == a & 0x7FFF_FFFF && mb == b & 0x7FFF_FFFF,
    ;
    proof {
        assert((a < 0x8000_0000u32 ==> a == ma) && (a >= 0x8000_0000u32 ==> a == ma
            + 0x8000_0000u32) && (b < 0x8000_0000u32 ==> b == mb) && (b >= 0x8000_0000u32 ==> b
            == mb + 0x8000_0000u32)) by (bit_vector)
            requires
                ma == a & 0x7FFF_FFFF && mb == b & 0x7FFF_FFFF,
        ;
    }
    if ma > 0x7F80_0000 || mb > 0x7F80_0000 {
        false
    } else if ma == 0 && mb == 0 {
        true
    } else {
        a == b
    }
}

} // verus!
