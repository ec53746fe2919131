//! Homogeneous four-component tuples: points (`w` = 1) and vectors
//! (`w` = 0), with componentwise arithmetic, dot and cross products,
//! magnitude and normalisation.

use vstd::prelude::*;
use crate::scalar::{
    abs_bits, add_bits, approx_eq_bits, div_bits, eq_bits, lt_bits, mul_bits, sub_bits, float_add,
    float_div, float_eq, float_lt, float_mul, float_abs, float_sub, BITS_EPSILON, BITS_ONE,
    BITS_ZERO,
};
use crate::sqrt::{float_sqrt, sqrt_bits};

verus! {

/// A homogeneous tuple. Every component is a single-precision bit
/// pattern; `w` distinguishes points from vectors.
#[derive(Clone, Copy, Debug)]
pub struct Tuple {
    pub x: u32,
    pub y: u32,
    pub z: u32,
    pub w: u32,
}

/// The tuple with every component zero.
pub open spec fn spec_zero_tuple() -> Tuple {
    Tuple { x: BITS_ZERO, y: BITS_ZERO, z: BITS_ZERO, w: BITS_ZERO }
}

/// Componentwise sum.
pub open spec fn spec_add(a: Tuple, b: Tuple) -> Tuple {
    Tuple {
        x: add_bits(a.x, b.x),
        y: add_bits(a.y, b.y),
        z: add_bits(a.z, b.z),
        w: add_bits(a.w, b.w),
    }
}

/// Componentwise difference.
pub open spec fn spec_sub(a: Tuple, b: Tuple) -> Tuple {
    Tuple {
        x: sub_bits(a.x, b.x),
        y: sub_bits(a.y, b.y),
        z: sub_bits(a.z, b.z),
        w: sub_bits(a.w, b.w),
    }
}

/// Componentwise product with one scalar.
pub open spec fn spec_mul_scalar(a: Tuple, s: u32) -> Tuple {
    Tuple {
        x: mul_bits(a.x, s),
        y: mul_bits(a.y, s),
        z: mul_bits(a.z, s),
        w: mul_bits(a.w, s),
    }
}

/// Componentwise quotient by one scalar.
pub open spec fn spec_div_scalar(a: Tuple, s: u32) -> Tuple {
    Tuple {
        x: div_bits(a.x, s),
        y: div_bits(a.y, s),
        z: div_bits(a.z, s),
        w: div_bits(a.w, s),
    }
}

/// Dot product over all four components, summed left to right.
pub open spec fn spec_dot(a: Tuple, b: Tuple) -> u32 {
    add_bits(
        add_bits(add_bits(mul_bits(a.x, b.x), mul_bits(a.y, b.y)), mul_bits(a.z, b.z)),
        mul_bits(a.w, b.w),
    )
}

/// Cross product over the x/y/z triple; always a vector.
pub open spec fn spec_cross(a: Tuple, b: Tuple) -> Tuple {
    Tuple {
        x: sub_bits(mul_bits(a.y, b.z), mul_bits(a.z, b.y)),
        y: sub_bits(mul_bits(a.z, b.x), mul_bits(a.x, b.z)),
        z: sub_bits(mul_bits(a.x, b.y), mul_bits(a.y, b.x)),
        w: BITS_ZERO,
    }
}

/// Euclidean length: square root of the dot product with itself.
pub open spec fn spec_magnitude(a: Tuple) -> u32 {
    sqrt_bits(spec_dot(a, a))
}

/// Approximate tuple equality: every component within epsilon.
pub open spec fn tuple_approx_eq(a: Tuple, b: Tuple) -> bool {
    approx_eq_bits(a.x, b.x) && approx_eq_bits(a.y, b.y) && approx_eq_bits(a.z, b.z)
        && approx_eq_bits(a.w, b.w)
}

impl Tuple {
    /// A point: `w` is one.
    pub fn point(x: u32, y: u32, z: u32) -> (r: Tuple)
        ensures
            r == (Tuple { x, y, z, w: BITS_ONE }),
    {
        Tuple { x, y, z, w: BITS_ONE }
    }

    /// A vector: `w` is zero.
    pub fn vector(x: u32, y: u32, z: u32) -> (r: Tuple)
        ensures
            r == (Tuple { x, y, z, w: BITS_ZERO }),
    {
        Tuple { x, y, z, w: BITS_ZERO }
    }

    /// A tuple with all four components given.
    pub fn raw(x: u32, y: u32, z: u32, w: u32) -> (r: Tuple)
        ensures
            r == (Tuple { x, y, z, w }),
    {
        Tuple { x, y, z, w }
    }

    /// Whether `w` is within epsilon of one. The tolerance here is
    /// deliberately different from the exact test of `is_vector`.
    pub fn is_point(&self) -> (r: bool)
        ensures
            r == lt_bits(abs_bits(sub_bits(self.w, BITS_ONE)), BITS_EPSILON),
    {
        let diff = float_sub(self.w, BITS_ONE);
        let mag = float_abs(diff);
        float_lt(mag, BITS_EPSILON)
    }

    /// Whether `w` equals zero exactly.
    pub fn is_vector(&self) -> (r: bool)
        ensures
            r == eq_bits(self.w, BITS_ZERO),
    {
        float_eq(self.w, BITS_ZERO)
    }

    /// Euclidean length of the tuple, all four components included.
    pub fn magnitude(&self) -> (r: u32)
        ensures
            r == spec_magnitude(*self),
    {
        let xx = float_mul(self.x, self.x);
        let yy = float_mul(self.y, self.y);
        let zz = float_mul(self.z, self.z);
        let ww = float_mul(self.w, self.w);
        let sum = float_add(float_add(float_add(xx, yy), zz), ww);
        float_sqrt(sum)
    }

    /// The tuple scaled to length one by dividing every component by the
    /// magnitude. A zero tuple yields NaN components, not an error; such
    /// calls are the caller's misuse, as division by zero is in `f32`.
    pub fn normalise(&self) -> (r: Tuple)
        ensures
            r == spec_div_scalar(*self, spec_magnitude(*self)),
    {
        let magnitude = self.magnitude();
        Tuple {
            x: float_div(self.x, magnitude),
            y: float_div(self.y, magnitude),
            z: float_div(self.z, magnitude),
            w: float_div(self.w, magnitude),
        }
    }

    /// Dot product of two tuples, `w` included.
    pub fn dot(a: &Tuple, b: &Tuple) -> (r: u32)
        ensures
            r == spec_dot(*a, *b),
    {
        let xx = float_mul(a.x, b.x);
        let yy = float_mul(a.y, b.y);
        let zz = float_mul(a.z, b.z);
        let ww = float_mul(a.w, b.w);
        float_add(float_add(float_add(xx, yy), zz), ww)
    }

    /// Cross product over x/y/z; the result is always a vector.
    pub fn cross(a: &Tuple, b: &Tuple) -> (r: Tuple)
        ensures
            r == spec_cross(*a, *b),
    {
        Tuple {
            x: float_sub(float_mul(a.y, b.z), float_mul(a.z, b.y)),
            y: float_sub(float_mul(a.z, b.x), float_mul(a.x, b.z)),
            z: float_sub(float_mul(a.x, b.y), float_mul(a.y, b.x)),
            w: BITS_ZERO,
        }
    }

    /// Componentwise sum.
    pub fn add(self, rhs: Tuple) -> (r: Tuple)
        ensures
            r == spec_add(self, rhs),
    {
        Tuple {
            x: float_add(self.x, rhs.x),
            y: float_add(self.y, rhs.y),
            z: float_add(self.z, rhs.z),
            w: float_add(self.w, rhs.w),
        }
    }

    /// Componentwise difference.
    pub fn sub(self, rhs: Tuple) -> (r: Tuple)
        ensures
            r == spec_sub(self, rhs),
    {
        Tuple {
            x: float_sub(self.x, rhs.x),
            y: float_sub(self.y, rhs.y),
            z: float_sub(self.z, rhs.z),
            w: float_sub(self.w, rhs.w),
        }
    }

    /// Negation, computed as zero minus the tuple.
    pub fn neg(self) -> (r: Tuple)
        ensures
            r == spec_sub(spec_zero_tuple(), self),
    {
        let zero = Tuple { x: BITS_ZERO, y: BITS_ZERO, z: BITS_ZERO, w: BITS_ZERO };
        zero.sub(self)
    }

    /// Componentwise product with one scalar.
    pub fn mul_scalar(self, rhs: u32) -> (r: Tuple)
        ensures
            r == spec_mul_scalar(self, rhs),
    {
        Tuple {
            x: float_mul(self.x, rhs),
            y: float_mul(self.y, rhs),
            z: float_mul(self.z, rhs),
            w: float_mul(self.w, rhs),
        }
    }

    /// Componentwise quotient by one scalar.
    pub fn div_scalar(self, rhs: u32) -> (r: Tuple)
        ensures
            r == spec_div_scalar(self, rhs),
    {
        Tuple {
            x: float_div(self.x, rhs),
            y: float_div(self.y, rhs),
            z: float_div(self.z, rhs),
            w: float_div(self.w, rhs),
        }
    }
}

impl PartialEq for Tuple {
    /// Componentwise approximate equality, each component within epsilon.
    fn eq(&self, other: &Tuple) -> (r: bool) {
        crate::util::float_equality(self.x, other.x) && crate::util::float_equality(
            self.y,
            other.y,
        ) && crate::util::float_equality(self.z, other.z) && crate::util::float_equality(
            self.w,
            other.w,
        )
    }
}

impl vstd::std_specs::cmp::PartialEqSpecImpl for Tuple {
    open spec fn obeys_eq_spec() -> bool {
        true
    }

    open spec fn eq_spec(&self, other: &Tuple) -> bool {
        tuple_approx_eq(*self, *other)
    }
}

} // verus!
