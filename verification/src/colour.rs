//! Colours: red, green and blue channels with componentwise arithmetic
//! and approximate equality. The canvas consumes these; the geometric
//! kernel never reads them.

use vstd::prelude::*;
use crate::scalar::{add_bits, approx_eq_bits, mul_bits, sub_bits, float_add, float_mul, float_sub};
use crate::util::float_equality;

verus! {

/// A colour; each channel is a scalar bit pattern.
#[derive(Clone, Copy, Debug)]
pub struct Colour {
    pub r: u32,
    pub g: u32,
    pub b: u32,
}

/// Approximate colour equality: every channel within epsilon.
pub open spec fn colour_approx_eq(a: Colour, b: Colour) -> bool {
    approx_eq_bits(a.r, b.r) && approx_eq_bits(a.g, b.g) && approx_eq_bits(a.b, b.b)
}

impl Colour {
    /// A colour from its three channels.
    pub fn new(r: u32, g: u32, b: u32) -> (c: Colour)
        ensures
            c == (Colour { r, g, b }),
    {
        Colour { r, g, b }
    }

    /// Channelwise sum.
    pub fn add(self, rhs: Colour) -> (c: Colour)
        ensures
            c.r == add_bits(self.r, rhs.r),
            c.g == add_bits(self.g, rhs.g),
            c.b == add_bits(self.b, rhs.b),
    {
        Colour {
            r: float_add(self.r, rhs.r),
            g: float_add(self.g, rhs.g),
            b: float_add(self.b, rhs.b),
        }
    }

    /// Channelwise difference.
    pub fn sub(self, rhs: Colour) -> (c: Colour)
        ensures
            c.r == sub_bits(self.r, rhs.r),
            c.g == sub_bits(self.g, rhs.g),
            c.b == sub_bits(self.b, rhs.b),
    {
        Colour {
            r: float_sub(self.r, rhs.r),
            g: float_sub(self.g, rhs.g),
            b: float_sub(self.b, rhs.b),
        }
    }

    /// Every channel scaled by one scalar.
    pub fn mul_scalar(self, rhs: u32) -> (c: Colour)
        ensures
            c.r == mul_bits(self.r, rhs),
            c.g == mul_bits(self.g, rhs),
            c.b == mul_bits(self.b, rhs),
    {
        Colour { r: float_mul(self.r, rhs), g: float_mul(self.g, rhs), b: float_mul(self.b, rhs) }
    }

    /// Channelwise product of two colours.
    pub fn mul_colour(self, rhs: Colour) -> (c: Colour)
        ensures
            c.r == mul_bits(self.r, rhs.r),
            c.g == mul_bits(self.g, rhs.g),
            c.b == mul_bits(self.b, rhs.b),
    {
        Colour {
            r: float_mul(self.r, rhs.r),
            g: float_mul(self.g, rhs.g),
            b: float_mul(self.b, rhs.b),
        }
    }
}

impl PartialEq for Colour {
    /// Channelwise approximate equality.
    fn eq(&self, other: &Colour) -> (r: bool) {
        float_equality(self.r, other.r) && float_equality(self.g, other.g) && float_equality(
            self.b,
            other.b,
        )
    }
}

impl vstd::std_specs::cmp::PartialEqSpecImpl for Colour {
    open spec fn obeys_eq_spec() -> bool {
        true
    }

    open spec fn eq_spec(&self, other: &Colour) -> bool {
        colour_approx_eq(*self, *other)
    }
}

} // verus!
