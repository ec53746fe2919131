//! Approximate scalar comparison used by every equality in the kernel.

use vstd::prelude::*;
use crate::scalar::{approx_eq_bits, float_abs, float_le, float_sub, BITS_EPSILON};

verus! {

/// Approximate equality of two scalars: `|a - b| <= f32::EPSILON`.
///
/// Componentwise application of this predicate is what `==` means on
/// tuples, colours and matrices.
pub fn float_equality(a: u32, b: u32) -> (r: bool)
    ensures
        r == approx_eq_bits(a, b),
{
    let diff = float_sub(a, b);
    let mag = float_abs(diff);
    float_le(mag, BITS_EPSILON)
}

} // verus!
