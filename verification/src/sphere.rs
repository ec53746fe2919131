//! The unit sphere, ray-sphere intersection, and nearest-hit selection.
//!
//! A sphere is the implicit unit sphere at the object-space origin; it
//! carries an identity token and an affine transform into world space.
//! Intersection takes the incoming ray into object space through the
//! inverse transform and solves the quadratic there.

use vstd::prelude::*;
use crate::matrix::{
    spec_cof_seq, spec_det_seq, spec_identity_seq, spec_mul_tuple4, matrix_approx_eq, Matrix,
};
use crate::ray::Ray;
use crate::scalar::{
    add_bits, div_bits, eq_bits, le_bits, lt_bits, mul_bits, neg_bits, sub_bits, float_eq,
    float_le, float_lt, BITS_FOUR, BITS_ONE, BITS_TWO, BITS_ZERO,
};
use crate::sqrt::sqrt_bits;
use crate::tuple::{spec_dot, spec_sub, Tuple};

verus! {

/// A unit sphere with an identity token and a world transform. The
/// transform stays mutable after construction; the token does not
/// change.
#[derive(Debug)]
pub struct Sphere {
    pub id: u32,
    pub transform: Matrix,
}

/// Hands out spheres with identity tokens that rise by one per sphere,
/// so that any two spheres from one registry are distinguishable.
#[derive(Debug)]
pub struct SphereRegistry {
    pub next_id: u32,
}

/// Spheres are the same when their tokens agree and their transforms
/// are approximately equal.
pub open spec fn sphere_approx_eq(a: Sphere, b: Sphere) -> bool {
    a.id == b.id && matrix_approx_eq(a.transform, b.transform)
}

/// Storage of the inverse of a 4x4 matrix with storage `d`: cell
/// `(i, j)` is the cofactor at `(j, i)` over the determinant.
pub open spec fn spec_inverse4_seq(d: Seq<u32>) -> Seq<u32> {
    Seq::new(16, |k: int| div_bits(spec_cof_seq(4, d, k % 4, k / 4), spec_det_seq(4, d)))
}

/// The incoming ray taken into the sphere's object space by the inverse
/// of its transform.
pub open spec fn spec_local_ray(s: Sphere, r: Ray) -> Ray {
    Ray {
        origin: spec_mul_tuple4(spec_inverse4_seq(s.transform.data@), r.origin),
        direction: spec_mul_tuple4(spec_inverse4_seq(s.transform.data@), r.direction),
    }
}

/// The vector from the sphere's centre to the local ray origin.
pub open spec fn spec_sphere_to_ray(s: Sphere, r: Ray) -> Tuple {
    spec_sub(spec_local_ray(s, r).origin, Tuple { x: BITS_ZERO, y: BITS_ZERO, z: BITS_ZERO, w: BITS_ONE })
}

/// Coefficient `a` of the ray-sphere quadratic: direction dot itself.
pub open spec fn spec_quad_a(s: Sphere, r: Ray) -> u32 {
    spec_dot(spec_local_ray(s, r).direction, spec_local_ray(s, r).direction)
}

/// Coefficient `b`: twice the direction dotted with centre-to-origin.
pub open spec fn spec_quad_b(s: Sphere, r: Ray) -> u32 {
    mul_bits(BITS_TWO, spec_dot(spec_local_ray(s, r).direction, spec_sphere_to_ray(s, r)))
}

/// Coefficient `c`: centre-to-origin dotted with itself, minus one.
pub open spec fn spec_quad_c(s: Sphere, r: Ray) -> u32 {
    sub_bits(spec_dot(spec_sphere_to_ray(s, r), spec_sphere_to_ray(s, r)), BITS_ONE)
}

/// The discriminant `b*b - (4*a)*c` of the ray-sphere quadratic.
pub open spec fn spec_discriminant(s: Sphere, r: Ray) -> u32 {
    sub_bits(
        mul_bits(spec_quad_b(s, r), spec_quad_b(s, r)),
        mul_bits(mul_bits(BITS_FOUR, spec_quad_a(s, r)), spec_quad_c(s, r)),
    )
}

/// The nearer root `(-b - sqrt(disc)) / (2*a)`.
pub open spec fn spec_t1(s: Sphere, r: Ray) -> u32 {
    div_bits(
        sub_bits(neg_bits(spec_quad_b(s, r)), sqrt_bits(spec_discriminant(s, r))),
        mul_bits(BITS_TWO, spec_quad_a(s, r)),
    )
}

/// The farther root `(-b + sqrt(disc)) / (2*a)`.
pub open spec fn spec_t2(s: Sphere, r: Ray) -> u32 {
    div_bits(
        add_bits(neg_bits(spec_quad_b(s, r)), sqrt_bits(spec_discriminant(s, r))),
        mul_bits(BITS_TWO, spec_quad_a(s, r)),
    )
}

impl SphereRegistry {
    /// A registry whose first sphere gets token zero.
    pub fn new() -> (r: SphereRegistry)
        ensures
            r.next_id == 0,
    {
        SphereRegistry { next_id: 0 }
    }

    /// A fresh sphere: it takes the next token and the identity
    /// transform.
    pub fn new_sphere(&mut self) -> (s: Sphere)
        requires
            old(self).next_id < u32::MAX,
        ensures
            final(self).next_id == old(self).next_id + 1,
            s.id == old(self).next_id,
            s.transform.wf(),
            s.transform.rows == 4,
            s.transform.cols == 4,
            s.transform.data@ == spec_identity_seq(),
    {
        let s = Sphere::new(self.next_id);
        self.next_id = self.next_id + 1;
        s
    }
}

impl Sphere {
    /// A unit sphere under the identity transform, carrying the given
    /// identity token.
    pub fn new(id: u32) -> (s: Sphere)
        ensures
            s.id == id,
            s.transform.wf(),
            s.transform.rows == 4,
            s.transform.cols == 4,
            s.transform.data@ == spec_identity_seq(),
    {
        Sphere { id, transform: Matrix::identity() }
    }

    /// Intersections of a world-space ray with this sphere: none where
    /// the discriminant is negative, else exactly the two roots in
    /// formula order (`t1` before `t2`), each tagged with this sphere.
    /// A tangent ray yields two equal roots. A singular transform is
    /// the caller's fault and is excluded here; `try_intersect` makes
    /// the check.
    pub fn intersect<'a>(&'a self, orig_ray: &Ray) -> (r: Vec<Intersection<'a>>)
        requires
            self.transform.wf(),
            self.transform.rows == 4,
            !eq_bits(self.transform.spec_determinant(), BITS_ZERO),
        ensures
            lt_bits(spec_discriminant(*self, *orig_ray), BITS_ZERO) ==> r@.len() == 0,
            !lt_bits(spec_discriminant(*self, *orig_ray), BITS_ZERO) ==> r@.len() == 2
                && r@[0].t == spec_t1(*self, *orig_ray) && r@[1].t == spec_t2(*self, *orig_ray)
                && r@[0].object == self && r@[1].object == self,
    {
        let inv = self.transform.invert();
        proof {
            assert(self.transform.data@.len() == 16);
            assert(inv.data@.len() == 16);
            assert forall|k: int| 0 <= k < 16 implies inv.data@[k] == spec_inverse4_seq(
                self.transform.data@,
            )[k] by {
                let i = k / 4;
                let j = k % 4;
                assert(inv.cell(i, j) == inv.data@[i * 4 + j]);
            }
            assert(inv.data@ =~= spec_inverse4_seq(self.transform.data@));
        }
        let ray = orig_ray.transform(inv);
        let sphere_to_ray = ray.origin.sub(Tuple::point(BITS_ZERO, BITS_ZERO, BITS_ZERO));
        let a = Tuple::dot(&ray.direction, &ray.direction);
        let b = crate::scalar::float_mul(BITS_TWO, Tuple::dot(&ray.direction, &sphere_to_ray));
        let c = crate::scalar::float_sub(
            Tuple::dot(&sphere_to_ray, &sphere_to_ray),
            BITS_ONE,
        );
        let discriminant = crate::scalar::float_sub(
            crate::scalar::float_mul(b, b),
            crate::scalar::float_mul(crate::scalar::float_mul(BITS_FOUR, a), c),
        );
        if float_lt(discriminant, BITS_ZERO) {
            Vec::new()
        } else {
            let sq = crate::sqrt::float_sqrt(discriminant);
            let neg_b = crate::scalar::float_neg(b);
            let two_a = crate::scalar::float_mul(BITS_TWO, a);
            let t1 = crate::scalar::float_div(crate::scalar::float_sub(neg_b, sq), two_a);
            let t2 = crate::scalar::float_div(crate::scalar::float_add(neg_b, sq), two_a);
            let mut out: Vec<Intersection<'a>> = Vec::new();
            out.push(Intersection::new(t1, self));
            out.push(Intersection::new(t2, self));
            out
        }
    }

    /// Intersections where the transform is invertible, `None` where
    /// its determinant equals zero.
    pub fn try_intersect<'a>(&'a self, orig_ray: &Ray) -> (r: Option<Vec<Intersection<'a>>>)
        requires
            self.transform.wf(),
            self.transform.rows == 4,
        ensures
            match r {
                Some(v) => !eq_bits(self.transform.spec_determinant(), BITS_ZERO) && (lt_bits(
                    spec_discriminant(*self, *orig_ray),
                    BITS_ZERO,
                ) ==> v@.len() == 0) && (!lt_bits(spec_discriminant(*self, *orig_ray), BITS_ZERO)
                    ==> v@.len() == 2 && v@[0].t == spec_t1(*self, *orig_ray) && v@[1].t
                    == spec_t2(*self, *orig_ray) && v@[0].object == self && v@[1].object == self),
                None => eq_bits(self.transform.spec_determinant(), BITS_ZERO),
            },
    {
        let det = self.transform.determinant();
        if float_eq(det, BITS_ZERO) {
            None
        } else {
            Some(self.intersect(orig_ray))
        }
    }
}

impl PartialEq for Sphere {
    /// Same identity token and approximately equal transforms.
    fn eq(&self, other: &Sphere) -> (r: bool) {
        self.id == other.id && self.transform == other.transform
    }
}

impl vstd::std_specs::cmp::PartialEqSpecImpl for Sphere {
    open spec fn obeys_eq_spec() -> bool {
        true
    }

    open spec fn eq_spec(&self, other: &Sphere) -> bool {
        sphere_approx_eq(*self, *other)
    }
}

/// One intersection: the parametric distance along the ray, and the
/// sphere that was hit. It never outlives that sphere.
#[derive(Clone, Copy, Debug)]
pub struct Intersection<'a> {
    pub t: u32,
    pub object: &'a Sphere,
}

impl<'a> Intersection<'a> {
    /// An intersection from its distance and its sphere.
    pub fn new(t: u32, object: &'a Sphere) -> (r: Intersection<'a>)
        ensures
            r.t == t,
            r.object == object,
    {
        Intersection { t, object }
    }
}

impl<'a> PartialEq for Intersection<'a> {
    /// Exact scalar equality on the distance, sphere equality on the
    /// object.
    fn eq(&self, other: &Intersection<'a>) -> (r: bool) {
        float_eq(self.t, other.t) && self.object.eq(other.object)
    }
}

impl<'a> vstd::std_specs::cmp::PartialEqSpecImpl for Intersection<'a> {
    open spec fn obeys_eq_spec() -> bool {
        true
    }

    open spec fn eq_spec(&self, other: &Intersection<'a>) -> bool {
        eq_bits(self.t, other.t) && sphere_approx_eq(*self.object, *other.object)
    }
}

/// The nearest visible intersection: among those with `t` at least
/// zero, the one with the smallest `t`; `None` where no `t` qualifies.
/// Of equal smallest distances the last in the collection is returned,
/// as the two final clauses pin down.
pub fn hit<'a, 'b>(intersections: &'b Vec<Intersection<'a>>) -> (r: Option<
    &'b Intersection<'a>,
>)
    ensures
        match r {
            Some(x) => exists|k: int|
                0 <= k < intersections@.len() && *x == intersections@[k] && le_bits(
                    BITS_ZERO,
                    x.t,
                ) && (forall|j: int|
                    0 <= j < intersections@.len() && le_bits(BITS_ZERO, intersections@[j].t)
                        ==> le_bits(x.t, intersections@[j].t)) && (forall|j: int|
                    k < j < intersections@.len() && le_bits(BITS_ZERO, intersections@[j].t)
                        ==> !le_bits(intersections@[j].t, x.t)),
            None => forall|j: int|
                0 <= j < intersections@.len() ==> !le_bits(BITS_ZERO, intersections@[j].t),
        },
{
    let mut best: Option<usize> = None;
    let mut k: usize = 0;
    while k < intersections.len()
        invariant
            k <= intersections@.len(),
            match best {
                Some(bk) => bk < k && le_bits(BITS_ZERO, intersections@[bk as int].t) && (forall|
                    j: int,
                |
                    0 <= j < k && le_bits(BITS_ZERO, intersections@[j].t) ==> le_bits(
                        intersections@[bk as int].t,
                        intersections@[j].t,
                    )) && (forall|j: int|
                    bk < j < k && le_bits(BITS_ZERO, intersections@[j].t) ==> !le_bits(
                        intersections@[j].t,
                        intersections@[bk as int].t,
                    )),
                None => forall|j: int|
                    0 <= j < k ==> !le_bits(BITS_ZERO, intersections@[j].t),
            },
        decreases intersections@.len() - k,
    {
        let t = intersections[k].t;
        if float_le(BITS_ZERO, t) {
            match best {
                None => {
                    best = Some(k);
                },
                Some(bk) => {
                    if float_le(t, intersections[bk].t) {
                        best = Some(k);
                    }
                },
            }
        }
        k = k + 1;
    }
    match best {
        None => None,
        Some(bk) => Some(&intersections[bk]),
    }
}

} // verus!
