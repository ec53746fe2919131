//! Geometric kernel of a ray tracer: homogeneous tuples, square matrices
//! with cofactor inverses, affine transforms, and ray-sphere intersection.
//!
//! Every scalar is an IEEE 754 single-precision value carried as its bit
//! pattern in a `u32`, so that the arithmetic itself stays outside the
//! verified logic while everything built on top of it is proved exact.

pub mod canvas;
pub mod colour;
pub mod matrix;
pub mod ray;
pub mod scalar;
pub mod sphere;
pub mod sqrt;
pub mod tuple;
pub mod util;

pub use crate::canvas::{combine_numbers, ppm_header, Canvas};
pub use crate::colour::Colour;
pub use crate::matrix::Matrix;
pub use crate::ray::Ray;
pub use crate::sphere::{hit, Intersection, Sphere, SphereRegistry};
pub use crate::tuple::Tuple;
pub use crate::util::float_equality;
