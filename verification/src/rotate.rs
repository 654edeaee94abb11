//! A surface turned about an axis.

use crate::aabb::AABB;
use crate::hittable::{answers, Bounded, HitRecord, Hittable};
use crate::interval::Interval;
use crate::ray::Ray;
use crate::scalar::{Arithmetic, Functions, Scalar, INFINITY_BITS};
use crate::transform::{Rotation, RotationAxis};
use crate::vector::{Point3, Vector3};
use vstd::prelude::*;

verus! {

/// The surface `object`, turned by `rotation`, and the box around it.
pub struct Rotate<P> {
    pub object: P,
    pub rotation: Rotation,
    pub bbox: AABB,
}

/// A surface turned about the x axis.
pub struct RotateX<P> {
    pub turned: Rotate<P>,
}

/// A surface turned about the y axis.
pub struct RotateY<P> {
    pub turned: Rotate<P>,
}

/// A surface turned about the z axis.
pub struct RotateZ<P> {
    pub turned: Rotate<P>,
}

/// `1.0` for the far side of a box and `0.0` for the near side.
pub open spec fn side(far: bool) -> Scalar {
    if far {
        Scalar { bits: 0x3FF0_0000_0000_0000 }
    } else {
        Scalar { bits: 0 }
    }
}

/// The coordinate of a corner of a box: `far * max + (1 - far) * min`.
pub open spec fn mixed<A: Arithmetic>(far: bool, min: Scalar, max: Scalar, fpu: &A) -> Scalar {
    fpu.sum(fpu.product(side(far), max), fpu.product(side(!far), min))
}

/// The corner with the number `n` of the box, from 0 to 7, where the third
/// coordinate changes fastest.
pub open spec fn corner<A: Arithmetic>(b: AABB, n: int, fpu: &A) -> Point3 {
    Vector3 {
        x: mixed(n / 4 == 1, b.x.min, b.x.max, fpu),
        y: mixed((n / 2) % 2 == 1, b.y.min, b.y.max, fpu),
        z: mixed(n % 2 == 1, b.z.min, b.z.max, fpu),
    }
}

/// The least and the greatest coordinates among the first `n` corners of
/// the box, each turned by the rotation.
pub open spec fn swept<A: Arithmetic>(b: AABB, rotation: Rotation, n: int, fpu: &A) -> (Vector3, Vector3)
    decreases n,
{
    if n <= 0 {
        let inf = Scalar { bits: INFINITY_BITS };
        let ninf = Scalar { bits: 0xFFF0_0000_0000_0000 };
        (Vector3 { x: inf, y: inf, z: inf }, Vector3 { x: ninf, y: ninf, z: ninf })
    } else {
        let (lo, hi) = swept(b, rotation, n - 1, fpu);
        let tester = rotation.turned(corner(b, n - 1, fpu), fpu);
        (
            Vector3 { x: lo.x.least(tester.x), y: lo.y.least(tester.y), z: lo.z.least(tester.z) },
            Vector3 { x: hi.x.greatest(tester.x), y: hi.y.greatest(tester.y), z: hi.z.greatest(tester.z) },
        )
    }
}

impl<P> Rotate<P> {
    /// The ray as the surface sees it: turned back.
    pub open spec fn seen<A: Arithmetic>(&self, ray: Ray, fpu: &A) -> Ray {
        Ray {
            origin: self.rotation.turned_back(ray.origin, fpu),
            direction: self.rotation.turned_back(ray.direction, fpu),
        }
    }

    /// The hit of the surface as the world sees it: its point and its
    /// normal turned.
    pub open spec fn shown<A: Arithmetic>(&self, inner: Option<HitRecord>, fpu: &A) -> Option<HitRecord> {
        match inner {
            None => None,
            Some(rec) => Some(
                HitRecord {
                    p: self.rotation.turned(rec.p, fpu),
                    normal: self.rotation.turned(rec.normal, fpu),
                    t: rec.t,
                    u: rec.u,
                    v: rec.v,
                    front_face: rec.front_face,
                    mat: rec.mat,
                },
            ),
        }
    }

    /// `out` is what the turned surface may answer: what the surface
    /// answers to the ray turned back, turned.
    pub open spec fn outcome<A: Arithmetic>(
        &self,
        ray: &Ray,
        t: Interval,
        fpu: &A,
        out: Option<HitRecord>,
    ) -> bool where P: Hittable<A> {
        exists|inner: Option<HitRecord>|
            #![trigger self.shown(inner, fpu)]
            answers(&self.object, &self.seen(*ray, fpu), t, fpu, inner) && out == self.shown(inner, fpu)
    }

    /// The surface turned by the rotation. Its box is the box around the
    /// eight corners of the box of the surface, each turned.
    pub fn new<A: Arithmetic>(object: P, rotation: Rotation, fpu: &A) -> (r: Self) where P: Bounded
        ensures
            r.object == object,
            r.rotation == rotation,
            exists|b: AABB| #[trigger]
                crate::hittable::boxes::<P>(&object, b) && r.bbox == AABB::spanning(
                    swept(b, rotation, 8, fpu).0,
                    swept(b, rotation, 8, fpu).1,
                    fpu,
                ),
    {
        let bbox: AABB = *object.bbox();
        assert(crate::hittable::boxes::<P>(&object, bbox));
        let min = bbox.min();
        let max = bbox.max();
        let mut new_min = Vector3::new(Scalar::infinity(), Scalar::infinity(), Scalar::infinity());
        let mut new_max = Vector3::new(Scalar::neg_infinity(), Scalar::neg_infinity(), Scalar::neg_infinity());
        let mut n: usize = 0;
        while n < 8
            invariant
                n <= 8,
                min == bbox.low(),
                max == bbox.high(),
                (new_min, new_max) == swept(bbox, rotation, n as int, fpu),
            decreases 8 - n,
        {
            let far_x = n / 4 == 1;
            let far_y = (n / 2) % 2 == 1;
            let far_z = n % 2 == 1;
            let x = fpu.plus(fpu.times(Self::flag(far_x), max.x()), fpu.times(Self::flag(!far_x), min.x()));
            let y = fpu.plus(fpu.times(Self::flag(far_y), max.y()), fpu.times(Self::flag(!far_y), min.y()));
            let z = fpu.plus(fpu.times(Self::flag(far_z), max.z()), fpu.times(Self::flag(!far_z), min.z()));
            let tester = rotation.transform_point(&Vector3::new(x, y, z), fpu);
            new_min = Vector3::new(
                new_min.x().min(tester.x()),
                new_min.y().min(tester.y()),
                new_min.z().min(tester.z()),
            );
            new_max = Vector3::new(
                new_max.x().max(tester.x()),
                new_max.y().max(tester.y()),
                new_max.z().max(tester.z()),
            );
            n = n + 1;
        }
        let new_bbox = AABB::new_points(new_min, new_max, fpu);
        Self { object, rotation, bbox: new_bbox }
    }

    fn flag(far: bool) -> (r: Scalar)
        ensures
            r == side(far),
    {
        if far {
            Scalar::one()
        } else {
            Scalar::zero()
        }
    }
}

impl<A: Arithmetic, P: Hittable<A>> Hittable<A> for Rotate<P> {
    fn hit(&self, ray: &Ray, t: Interval, fpu: &A) -> (out: Option<HitRecord>)
        ensures
            self.outcome(ray, t, fpu, out),
    {
        let origin = self.rotation.inverse_transform_point(&ray.get_origin(), fpu);
        let direction = self.rotation.inverse_transform_vector(&ray.get_direction(), fpu);
        let rotated_ray = Ray::new(origin, direction);
        let inner = self.object.hit(&rotated_ray, t, fpu);
        let out = match inner {
            None => None,
            Some(rec) => {
                let mut rec = rec;
                rec.p = self.rotation.transform_point(&rec.p, fpu);
                rec.normal = self.rotation.transform_vector(&rec.normal, fpu);
                Some(rec)
            },
        };
        assert(out == self.shown(inner, fpu));
        out
    }
}

impl<P> Bounded for Rotate<P> {
    fn bbox(&self) -> (r: &AABB)
        ensures
            *r == self.bbox,
    {
        &self.bbox
    }
}

impl<P> RotateX<P> {
    /// The surface turned about the x axis by an angle in degrees.
    pub fn new<A: Arithmetic + Functions>(object: P, angle_degrees: Scalar, fpu: &A) -> (r: Self) where P: Bounded
        ensures
            r.turned.object == object,
            Rotation::turns(RotationAxis::X, angle_degrees, fpu, r.turned.rotation),
            exists|b: AABB| #[trigger]
                crate::hittable::boxes::<P>(&object, b) && r.turned.bbox == AABB::spanning(
                    swept(b, r.turned.rotation, 8, fpu).0,
                    swept(b, r.turned.rotation, 8, fpu).1,
                    fpu,
                ),
    {
        Self { turned: Rotate::new(object, Rotation::rotate_x(angle_degrees, fpu), fpu) }
    }
}

impl<A: Arithmetic, P: Hittable<A>> Hittable<A> for RotateX<P> {
    fn hit(&self, ray: &Ray, t: Interval, fpu: &A) -> (out: Option<HitRecord>)
        ensures
            self.turned.outcome(ray, t, fpu, out),
    {
        self.turned.hit(ray, t, fpu)
    }
}

impl<P> Bounded for RotateX<P> {
    fn bbox(&self) -> (r: &AABB)
        ensures
            *r == self.turned.bbox,
    {
        &self.turned.bbox
    }
}

impl<P> RotateY<P> {
    /// The surface turned about the y axis by an angle in degrees.
    pub fn new<A: Arithmetic + Functions>(object: P, angle_degrees: Scalar, fpu: &A) -> (r: Self) where P: Bounded
        ensures
            r.turned.object == object,
            Rotation::turns(RotationAxis::Y, angle_degrees, fpu, r.turned.rotation),
            exists|b: AABB| #[trigger]
                crate::hittable::boxes::<P>(&object, b) && r.turned.bbox == AABB::spanning(
                    swept(b, r.turned.rotation, 8, fpu).0,
                    swept(b, r.turned.rotation, 8, fpu).1,
                    fpu,
                ),
    {
        Self { turned: Rotate::new(object, Rotation::rotate_y(angle_degrees, fpu), fpu) }
    }
}

impl<A: Arithmetic, P: Hittable<A>> Hittable<A> for RotateY<P> {
    fn hit(&self, ray: &Ray, t: Interval, fpu: &A) -> (out: Option<HitRecord>)
        ensures
            self.turned.outcome(ray, t, fpu, out),
    {
        self.turned.hit(ray, t, fpu)
    }
}

impl<P> Bounded for RotateY<P> {
    fn bbox(&self) -> (r: &AABB)
        ensures
            *r == self.turned.bbox,
    {
        &self.turned.bbox
    }
}

impl<P> RotateZ<P> {
    /// The surface turned about the z axis by an angle in degrees.
    pub fn new<A: Arithmetic + Functions>(object: P, angle_degrees: Scalar, fpu: &A) -> (r: Self) where P: Bounded
        ensures
            r.turned.object == object,
            Rotation::turns(RotationAxis::Z, angle_degrees, fpu, r.turned.rotation),
            exists|b: AABB| #[trigger]
                crate::hittable::boxes::<P>(&object, b) && r.turned.bbox == AABB::spanning(
                    swept(b, r.turned.rotation, 8, fpu).0,
                    swept(b, r.turned.rotation, 8, fpu).1,
                    fpu,
                ),
    {
        Self { turned: Rotate::new(object, Rotation::rotate_z(angle_degrees, fpu), fpu) }
    }
}

impl<A: Arithmetic, P: Hittable<A>> Hittable<A> for RotateZ<P> {
    fn hit(&self, ray: &Ray, t: Interval, fpu: &A) -> (out: Option<HitRecord>)
        ensures
            self.turned.outcome(ray, t, fpu, out),
    {
        self.turned.hit(ray, t, fpu)
    }
}

impl<P> Bounded for RotateZ<P> {
    fn bbox(&self) -> (r: &AABB)
        ensures
            *r == self.turned.bbox,
    {
        &self.turned.bbox
    }
}

} // verus!
