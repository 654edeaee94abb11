//! Spheres.

use crate::aabb::AABB;
use crate::hittable::{Bounded, HitRecord, Hittable};
use crate::interval::Interval;
use crate::ray::Ray;
use crate::scalar::{arc_cosines, arc_tangents, Arithmetic, Functions, Scalar, PI_BITS, TWO_PI_BITS};
use crate::vector::{Point3, Vector3};
use vstd::prelude::*;

verus! {

/// The sphere about `center`.
#[derive(Clone, Copy, Debug)]
pub struct Sphere {
    pub center: Point3,
    pub radius: Scalar,
    /// The material of the scene that covers the sphere.
    pub mat: Option<usize>,
    pub bbox: AABB,
}

/// Of the two parameters at which a ray meets a sphere, the nearer one that
/// lies inside `t`; none where the ray misses the sphere or meets it outside
/// `t` only.
pub open spec fn chosen_root(discriminant: Scalar, near: Scalar, far: Scalar, t: Interval) -> Option<Scalar> {
    if discriminant.below(Scalar { bits: 0 }) {
        None
    } else if t.holds_inside(near) {
        Some(near)
    } else if t.holds_inside(far) {
        Some(far)
    } else {
        None
    }
}

impl Sphere {
    /// The square of the direction of the ray, half of what the offset of
    /// its origin from the centre has along it, and the discriminant of the
    /// equation for the parameters at which the ray meets the sphere.
    pub open spec fn equation<A: Arithmetic>(&self, ray: Ray, fpu: &A) -> (Scalar, Scalar, Scalar) {
        let oc = Vector3::difference(ray.origin, self.center, fpu);
        let a = ray.direction.norm_squared(fpu);
        let half_b = Vector3::dot_product(oc, ray.direction, fpu);
        let c = fpu.difference(oc.norm_squared(fpu), fpu.product(self.radius, self.radius));
        (a, half_b, fpu.difference(fpu.product(half_b, half_b), fpu.product(a, c)))
    }

    /// The two solutions of the equation: the parameters at which the ray
    /// meets the sphere, the one that is meant to be nearer first.
    pub open spec fn roots<A: Arithmetic>(&self, ray: Ray, fpu: &A) -> (Scalar, Scalar) {
        let (a, half_b, discriminant) = self.equation(ray, fpu);
        let sqrtd = fpu.square_root(discriminant);
        (
            fpu.quotient(fpu.difference(half_b.negated(), sqrtd), a),
            fpu.quotient(fpu.sum(half_b.negated(), sqrtd), a),
        )
    }

    /// The second solution is not less than the first.
    pub open spec fn roots_in_order<A: Arithmetic>(&self, ray: Ray, fpu: &A) -> bool {
        !self.roots(ray, fpu).1.below(self.roots(ray, fpu).0)
    }

    /// The parameter at which the ray hits the sphere within `t`.
    pub open spec fn root<A: Arithmetic>(&self, ray: Ray, t: Interval, fpu: &A) -> Option<Scalar> {
        chosen_root(self.equation(ray, fpu).2, self.roots(ray, fpu).0, self.roots(ray, fpu).1, t)
    }

    /// The normal of the sphere at the point `p`, pointing outwards.
    pub open spec fn outward<A: Arithmetic>(&self, p: Point3, fpu: &A) -> Vector3 {
        Vector3::shrunk(Vector3::difference(p, self.center, fpu), self.radius, fpu)
    }

    /// Where the ray hits the sphere within `t`: the record of the hit,
    /// without texture coordinates, and the outward normal there.
    pub open spec fn struck<A: Arithmetic>(&self, ray: Ray, t: Interval, fpu: &A) -> Option<(HitRecord, Vector3)> {
        match self.root(ray, t, fpu) {
            None => None,
            Some(root) => {
                let p = ray.point_at(root, fpu);
                let outward_normal = self.outward(p, fpu);
                let front_face = Vector3::dot_product(ray.direction, outward_normal, fpu).below(
                    Scalar { bits: 0 },
                );
                Some(
                    (
                        HitRecord {
                            p,
                            normal: if front_face {
                                outward_normal
                            } else {
                                outward_normal.negated()
                            },
                            t: root,
                            u: Scalar { bits: 0 },
                            v: Scalar { bits: 0 },
                            front_face,
                            mat: self.mat,
                        },
                        outward_normal,
                    ),
                )
            },
        }
    }

    /// The sphere, with the box from `center - radius` to `center + radius`.
    pub fn new<A: Arithmetic>(center: Point3, radius: Scalar, mat: Option<usize>, fpu: &A) -> (r: Sphere)
        ensures
            r.center == center,
            r.radius == radius,
            r.mat == mat,
            r.bbox == AABB::spanning(
                Vector3::difference(center, Vector3 { x: radius, y: radius, z: radius }, fpu),
                Vector3::sum(center, Vector3 { x: radius, y: radius, z: radius }, fpu),
                fpu,
            ),
    {
        let rvec = Vector3::new(radius, radius, radius);
        Sphere { center, radius, mat, bbox: AABB::new_points(center.minus(&rvec, fpu), center.plus(&rvec, fpu), fpu) }
    }

    /// `out` may be the texture coordinates of the point `p` of the unit
    /// sphere: how far round the sphere the point lies, from the negative x
    /// axis, and how far up from the bottom, both as fractions.
    pub open spec fn sphere_uv<A: Arithmetic + Functions>(p: Point3, fpu: &A, out: (Scalar, Scalar)) -> bool {
        exists|theta: Scalar, angle: Scalar|
            #![trigger arc_cosines(fpu, p.y.negated(), theta), arc_tangents(fpu, p.z.negated(), p.x, angle)]
            {
                &&& arc_cosines(fpu, p.y.negated(), theta)
                &&& arc_tangents(fpu, p.z.negated(), p.x, angle)
                &&& out.0 == fpu.quotient(fpu.sum(angle, Scalar { bits: PI_BITS }), Scalar { bits: TWO_PI_BITS })
                &&& out.1 == fpu.quotient(theta, Scalar { bits: PI_BITS })
            }
    }

    /// `out` is what the sphere may answer: where the ray strikes it, with
    /// the texture coordinates of the outward normal there.
    pub open spec fn outcome<A: Arithmetic + Functions>(
        &self,
        ray: &Ray,
        t: Interval,
        fpu: &A,
        out: Option<HitRecord>,
    ) -> bool {
        match self.struck(*ray, t, fpu) {
            None => out is None,
            Some((rec, outward_normal)) => exists|uv: (Scalar, Scalar)|
                #![trigger Sphere::sphere_uv(outward_normal, fpu, uv)]
                Sphere::sphere_uv(outward_normal, fpu, uv) && out == Some(HitRecord { u: uv.0, v: uv.1, ..rec }),
        }
    }

    /// The texture coordinates of the point `p` of the unit sphere.
    pub fn get_sphere_uv<A: Arithmetic + Functions>(p: &Point3, fpu: &A) -> (out: (Scalar, Scalar))
        ensures
            Sphere::sphere_uv(*p, fpu, out),
    {
        let theta = fpu.acos(p.y().neg());
        let angle = fpu.atan2(p.z().neg(), p.x());
        assert(arc_cosines(fpu, p.y.negated(), theta));
        assert(arc_tangents(fpu, p.z.negated(), p.x, angle));
        let phi = fpu.plus(angle, Scalar::from_bits(PI_BITS));
        (fpu.over(phi, Scalar::from_bits(TWO_PI_BITS)), fpu.over(theta, Scalar::from_bits(PI_BITS)))
    }

    /// Picks the parameter of the hit among the two solutions.
    pub fn choose_root(discriminant: Scalar, near: Scalar, far: Scalar, t: &Interval) -> (r: Option<Scalar>)
        ensures
            r == chosen_root(discriminant, near, far, *t),
    {
        if discriminant.lt(Scalar::zero()) {
            None
        } else if t.surrounds(near) {
            Some(near)
        } else if t.surrounds(far) {
            Some(far)
        } else {
            None
        }
    }

    /// Asks the sphere for a hit of the ray within `t`. The record comes
    /// without texture coordinates, which are angles of the outward normal
    /// that comes with it.
    pub fn intersect<A: Arithmetic>(&self, ray: &Ray, t: Interval, fpu: &A) -> (out: Option<(HitRecord, Vector3)>)
        ensures
            out == self.struck(*ray, t, fpu),
    {
        let oc = ray.get_origin().minus(&self.center, fpu);
        let a = ray.get_direction().length_squared(fpu);
        let half_b = Vector3::dot(&oc, &ray.get_direction(), fpu);
        let c = fpu.minus(oc.length_squared(fpu), fpu.times(self.radius, self.radius));
        let discriminant = fpu.minus(fpu.times(half_b, half_b), fpu.times(a, c));
        let sqrtd = fpu.root(discriminant);
        let near = fpu.over(fpu.minus(half_b.neg(), sqrtd), a);
        let far = fpu.over(fpu.plus(half_b.neg(), sqrtd), a);
        let root = match Sphere::choose_root(discriminant, near, far, &t) {
            None => {
                return None;
            },
            Some(root) => root,
        };
        let mut rec = HitRecord::new();
        rec.t = root;
        rec.p = ray.at(rec.t, fpu);
        let outward_normal = rec.p.minus(&self.center, fpu).over(self.radius, fpu);
        rec.set_face_normal(ray, &outward_normal, fpu);
        rec.mat = self.mat;
        Some((rec, outward_normal))
    }
}

impl<A: Arithmetic + Functions> Hittable<A> for Sphere {
    fn hit(&self, ray: &Ray, t: Interval, fpu: &A) -> (out: Option<HitRecord>)
        ensures
            self.outcome(ray, t, fpu, out),
    {
        match self.intersect(ray, t, fpu) {
            None => None,
            Some((rec, outward_normal)) => {
                let uv = Sphere::get_sphere_uv(&outward_normal, fpu);
                let mut rec = rec;
                rec.u = uv.0;
                rec.v = uv.1;
                Some(rec)
            },
        }
    }
}

impl Bounded for Sphere {
    fn bbox(&self) -> (r: &AABB)
        ensures
            *r == self.bbox,
    {
        &self.bbox
    }
}

} // verus!
