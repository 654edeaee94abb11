//! Parallelograms.

use crate::aabb::AABB;
use crate::hittable::{Bounded, HitRecord, Hittable, HittableList};
use std::sync::Arc;
use crate::interval::Interval;
use crate::ray::Ray;
use crate::scalar::{Arithmetic, Scalar};
use crate::vector::{Point3, Vector3, NEAR_ZERO_BITS};
use vstd::prelude::*;

verus! {

/// The parallelogram with the corner `q` and the sides `u` and `v`.
#[derive(Clone, Copy, Debug)]
pub struct Quad {
    pub q: Point3,
    pub u: Vector3,
    pub v: Vector3,
    /// `n / dot(n, n)` for the normal `n = cross(u, v)`: with it the
    /// coordinates of a point of the plane along `u` and `v` are found.
    pub w: Vector3,
    /// The material of the scene that covers the parallelogram.
    pub mat: Option<usize>,
    pub bbox: AABB,
    /// The normal of the plane, of length one.
    pub normal: Vector3,
    /// The plane is where `dot(normal, p)` is `d`.
    pub d: Scalar,
}

/// Whether the coordinates `(a, b)` of a point of the plane, along the two
/// sides, lie in the parallelogram: both from 0 to 1.
pub open spec fn interior(a: Scalar, b: Scalar) -> bool {
    let unit = Interval { min: Scalar { bits: 0 }, max: Scalar { bits: 0x3FF0_0000_0000_0000 } };
    unit.holds(a) && unit.holds(b)
}

impl Quad {
    /// The box around the four corners.
    pub open spec fn bounds<A: Arithmetic>(q: Point3, u: Vector3, v: Vector3, fpu: &A) -> AABB {
        AABB::union_of(
            AABB::spanning(q, Vector3::sum(Vector3::sum(q, u, fpu), v, fpu), fpu),
            AABB::spanning(Vector3::sum(q, u, fpu), Vector3::sum(q, v, fpu), fpu),
        )
    }

    /// The parameter at which the ray meets the plane.
    pub open spec fn meeting<A: Arithmetic>(&self, ray: Ray, fpu: &A) -> Scalar {
        fpu.quotient(
            fpu.difference(self.d, Vector3::dot_product(self.normal, ray.origin, fpu)),
            Vector3::dot_product(self.normal, ray.direction, fpu),
        )
    }

    /// The coordinates along the two sides of the point where the ray meets
    /// the plane.
    pub open spec fn planar<A: Arithmetic>(&self, ray: Ray, fpu: &A) -> (Scalar, Scalar) {
        let hitpt = Vector3::difference(ray.point_at(self.meeting(ray, fpu), fpu), self.q, fpu);
        (
            Vector3::dot_product(self.w, Vector3::cross_product(hitpt, self.v, fpu), fpu),
            Vector3::dot_product(self.w, Vector3::cross_product(self.u, hitpt, fpu), fpu),
        )
    }

    /// Where the ray hits the parallelogram within `t`. It does not where it
    /// runs all but along the plane, where it meets the plane outside `t`,
    /// or outside the parallelogram.
    pub open spec fn struck<A: Arithmetic>(&self, ray: Ray, t: Interval, fpu: &A) -> Option<HitRecord> {
        let denom = Vector3::dot_product(self.normal, ray.direction, fpu);
        let t_hit = self.meeting(ray, fpu);
        let (alpha, beta) = self.planar(ray, fpu);
        if denom.absolute().below(Scalar { bits: NEAR_ZERO_BITS }) {
            None
        } else if !t.holds(t_hit) {
            None
        } else if !interior(alpha, beta) {
            None
        } else {
            let front_face = Vector3::dot_product(ray.direction, self.normal, fpu).below(Scalar { bits: 0 });
            Some(
                HitRecord {
                    p: ray.point_at(t_hit, fpu),
                    normal: if front_face {
                        self.normal
                    } else {
                        self.normal.negated()
                    },
                    t: t_hit,
                    u: alpha,
                    v: beta,
                    front_face,
                    mat: self.mat,
                },
            )
        }
    }

    /// The parallelogram with the corner `q` and the sides `u` and `v`.
    pub open spec fn made<A: Arithmetic>(q: Point3, u: Vector3, v: Vector3, mat: Option<usize>, fpu: &A) -> Quad {
        let n = Vector3::cross_product(u, v, fpu);
        Quad {
            q,
            u,
            v,
            w: Vector3::shrunk(n, n.norm_squared(fpu), fpu),
            mat,
            bbox: Quad::bounds(q, u, v, fpu),
            normal: n.normalized(fpu),
            d: Vector3::dot_product(n.normalized(fpu), q, fpu),
        }
    }

    pub fn new<A: Arithmetic>(q: Point3, u: Vector3, v: Vector3, mat: Option<usize>, fpu: &A) -> (r: Self)
        ensures
            r == Quad::made(q, u, v, mat, fpu),
    {
        let n = Vector3::cross(&u, &v, fpu);
        let normal = n.unit_vector(fpu);
        let d = Vector3::dot(&normal, &q, fpu);
        let w = n.over(Vector3::dot(&n, &n, fpu), fpu);
        let zero = Interval::new(Scalar::zero(), Scalar::zero());
        let mut quad = Self { q, u, v, w, mat, bbox: AABB { x: zero, y: zero, z: zero }, normal, d };
        quad.set_bounding_box(fpu);
        quad
    }

    fn set_bounding_box<A: Arithmetic>(&mut self, fpu: &A)
        ensures
            final(self).bbox == Quad::bounds(old(self).q, old(self).u, old(self).v, fpu),
            final(self).q == old(self).q,
            final(self).u == old(self).u,
            final(self).v == old(self).v,
            final(self).w == old(self).w,
            final(self).mat == old(self).mat,
            final(self).normal == old(self).normal,
            final(self).d == old(self).d,
    {
        let bbox_diagonal1 = AABB::new_points(self.q, self.q.plus(&self.u, fpu).plus(&self.v, fpu), fpu);
        let bbox_diagonal2 = AABB::new_points(self.q.plus(&self.u, fpu), self.q.plus(&self.v, fpu), fpu);
        self.bbox = AABB::new_from_aabbs(&bbox_diagonal1, &bbox_diagonal2);
    }

    /// Whether the coordinates `(a, b)` along the two sides lie in the
    /// parallelogram.
    pub fn is_interior(a: Scalar, b: Scalar) -> (r: bool)
        ensures
            r == interior(a, b),
    {
        let unit_interval = Interval::new(Scalar::zero(), Scalar::one());
        unit_interval.contains(a) && unit_interval.contains(b)
    }
}

impl<A: Arithmetic> Hittable<A> for Quad {
    fn hit(&self, ray: &Ray, t: Interval, fpu: &A) -> (out: Option<HitRecord>)
        ensures
            out == self.struck(*ray, t, fpu),
    {
        let denom = Vector3::dot(&self.normal, &ray.get_direction(), fpu);
        if denom.abs().lt(Scalar::from_bits(NEAR_ZERO_BITS)) {
            return None;
        }
        let t_hit = fpu.over(fpu.minus(self.d, Vector3::dot(&self.normal, &ray.get_origin(), fpu)), denom);
        if !t.contains(t_hit) {
            return None;
        }
        let intersection = ray.at(t_hit, fpu);
        let planar_hitpt_vector = intersection.minus(&self.q, fpu);
        let alpha = Vector3::dot(&self.w, &Vector3::cross(&planar_hitpt_vector, &self.v, fpu), fpu);
        let beta = Vector3::dot(&self.w, &Vector3::cross(&self.u, &planar_hitpt_vector, fpu), fpu);
        if !Quad::is_interior(alpha, beta) {
            return None;
        }
        let mut rec = HitRecord::new();
        rec.u = alpha;
        rec.v = beta;
        rec.t = t_hit;
        rec.p = intersection;
        rec.mat = self.mat;
        rec.set_face_normal(ray, &self.normal, fpu);
        Some(rec)
    }
}

impl Bounded for Quad {
    fn bbox(&self) -> (r: &AABB)
        ensures
            *r == self.bbox,
    {
        &self.bbox
    }
}

/// The six sides of the box between the corners `a` and `b`: front, right,
/// back, left, top and bottom.
pub open spec fn box_sides<A: Arithmetic>(a: Point3, b: Point3, mat: Option<usize>, fpu: &A) -> Seq<Quad> {
    let min = Vector3 { x: a.x.least(b.x), y: a.y.least(b.y), z: a.z.least(b.z) };
    let max = Vector3 { x: a.x.greatest(b.x), y: a.y.greatest(b.y), z: a.z.greatest(b.z) };
    let zero = Scalar { bits: 0 };
    let dx = Vector3 { x: fpu.difference(max.x, min.x), y: zero, z: zero };
    let dy = Vector3 { x: zero, y: fpu.difference(max.y, min.y), z: zero };
    let dz = Vector3 { x: zero, y: zero, z: fpu.difference(max.z, min.z) };
    seq![
        Quad::made(Vector3 { x: min.x, y: min.y, z: max.z }, dx, dy, mat, fpu),
        Quad::made(Vector3 { x: max.x, y: min.y, z: max.z }, dz.negated(), dy, mat, fpu),
        Quad::made(Vector3 { x: max.x, y: min.y, z: min.z }, dx.negated(), dy, mat, fpu),
        Quad::made(Vector3 { x: min.x, y: min.y, z: min.z }, dz, dy, mat, fpu),
        Quad::made(Vector3 { x: min.x, y: max.y, z: max.z }, dx, dz.negated(), mat, fpu),
        Quad::made(Vector3 { x: min.x, y: min.y, z: min.z }, dx, dz, mat, fpu),
    ]
}

/// The box between two opposite corners, as a list of its six sides.
pub fn create_box<A: Arithmetic>(a: Point3, b: Point3, mat: Option<usize>, fpu: &A) -> (sides: HittableList<Quad>)
    ensures
        sides.objects@.len() == 6,
        forall|i: int| 0 <= i < 6 ==> *#[trigger] sides.objects@[i] == box_sides(a, b, mat, fpu)[i],
{
    let mut sides: HittableList<Quad> = HittableList::new();
    let min = Vector3::new(a.x().min(b.x()), a.y().min(b.y()), a.z().min(b.z()));
    let max = Vector3::new(a.x().max(b.x()), a.y().max(b.y()), a.z().max(b.z()));
    let dx = Vector3::new(fpu.minus(max.x(), min.x()), Scalar::zero(), Scalar::zero());
    let dy = Vector3::new(Scalar::zero(), fpu.minus(max.y(), min.y()), Scalar::zero());
    let dz = Vector3::new(Scalar::zero(), Scalar::zero(), fpu.minus(max.z(), min.z()));
    sides.add(Arc::new(Quad::new(Vector3::new(min.x(), min.y(), max.z()), dx, dy, mat, fpu)));
    sides.add(Arc::new(Quad::new(Vector3::new(max.x(), min.y(), max.z()), dz.neg(), dy, mat, fpu)));
    sides.add(Arc::new(Quad::new(Vector3::new(max.x(), min.y(), min.z()), dx.neg(), dy, mat, fpu)));
    sides.add(Arc::new(Quad::new(Vector3::new(min.x(), min.y(), min.z()), dz, dy, mat, fpu)));
    sides.add(Arc::new(Quad::new(Vector3::new(min.x(), max.y(), max.z()), dx, dz.neg(), mat, fpu)));
    sides.add(Arc::new(Quad::new(Vector3::new(min.x(), min.y(), min.z()), dx, dz, mat, fpu)));
    sides
}

} // verus!
