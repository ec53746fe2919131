//! Rays: an origin point and a direction vector, and the transform that
//! maps a ray through a matrix.

use vstd::prelude::*;
use crate::matrix::{spec_mul_tuple4, Matrix};
use crate::tuple::Tuple;

verus! {

/// A ray: origin (a point) and direction (a vector). Transforming never
/// touches the original, so rays are plain copyable values.
#[derive(Clone, Copy, Debug)]
pub struct Ray {
    pub origin: Tuple,
    pub direction: Tuple,
}

impl Ray {
    /// A ray from its origin and direction.
    pub fn new(origin: Tuple, direction: Tuple) -> (r: Ray)
        ensures
            r.origin == origin,
            r.direction == direction,
    {
        Ray { origin, direction }
    }

    /// A new ray with origin and direction both taken through `m`.
    /// Translation drops out of the direction on its own, since a
    /// vector's `w` is zero.
    pub fn transform(&self, m: Matrix) -> (r: Ray)
        requires
            m.wf(),
            m.rows == 4,
        ensures
            r.origin == spec_mul_tuple4(m.data@, self.origin),
            r.direction == spec_mul_tuple4(m.data@, self.direction),
    {
        Ray { origin: m.mul_tuple(&self.origin), direction: m.mul_tuple(&self.direction) }
    }
}

} // verus!
