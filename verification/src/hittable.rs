//! Surfaces that a ray can hit, the record of a hit, and the plain list of
//! surfaces.

use crate::aabb::AABB;
use crate::interval::Interval;
use crate::ray::Ray;
use crate::scalar::{Arithmetic, Scalar};
use crate::vector::{Point3, Vector3};
use std::sync::Arc;
use vstd::prelude::*;

verus! {

/// What has a box around it.
pub trait Bounded {
    fn bbox(&self) -> &AABB;
}

/// A surface: it can say where a ray hits it, and it has a box around it.
///
/// `hit` looks for a hit at a parameter within `t` and returns its record.
/// The library supposes nothing of an implementation. What it proves of a
/// list or a tree of surfaces, it proves of whatever their `hit` and `bbox`
/// returned.
pub trait Hittable<A: Arithmetic>: Bounded {
    fn hit(&self, ray: &Ray, t: Interval, fpu: &A) -> Option<HitRecord>;
}

/// What is known of the point where a ray hit a surface.
#[derive(Clone, Copy, Debug)]
pub struct HitRecord {
    /// The point that was hit.
    pub p: Point3,
    /// The normal of the surface there, turned against the ray.
    pub normal: Vector3,
    /// The parameter of the ray at the point.
    pub t: Scalar,
    /// The texture coordinates of the point.
    pub u: Scalar,
    pub v: Scalar,
    /// Whether the ray came from outside the surface.
    pub front_face: bool,
    /// Which material of the scene covers the point; `None` for the
    /// material that neither scatters nor glows.
    pub mat: Option<usize>,
}

/// `hit` of the surface `p`, asked with these arguments, may return `out`.
pub open spec fn answers<A: Arithmetic, P: Hittable<A>>(
    p: &P,
    ray: &Ray,
    t: Interval,
    fpu: &A,
    out: Option<HitRecord>,
) -> bool {
    call_ensures(P::hit, (p, ray, t, fpu), out)
}

/// `bbox` of the surface `p` may return `b`.
pub open spec fn boxes<P: Bounded>(p: &P, b: AABB) -> bool {
    call_ensures(P::bbox, (p,), &b)
}

/// The search interval once `best` is the nearest hit so far: it ends at
/// that hit.
pub open spec fn window(t: Interval, best: Option<HitRecord>) -> Interval {
    match best {
        Some(h) => t.up_to(h.t),
        None => t,
    }
}

/// The last hit among the first `k` answers.
pub open spec fn last_hit(trace: Seq<Option<HitRecord>>, k: int) -> Option<HitRecord>
    decreases k,
{
    if k <= 0 {
        None
    } else if trace[k - 1] is Some {
        trace[k - 1]
    } else {
        last_hit(trace, k - 1)
    }
}

impl HitRecord {
    /// The record with every number zero and no material.
    pub open spec fn blank() -> HitRecord {
        HitRecord {
            p: Vector3::origin(),
            normal: Vector3::origin(),
            t: Scalar { bits: 0 },
            u: Scalar { bits: 0 },
            v: Scalar { bits: 0 },
            front_face: false,
            mat: None,
        }
    }

    pub fn new() -> (r: HitRecord)
        ensures
            r == HitRecord::blank(),
    {
        HitRecord {
            p: Vector3::zero(),
            normal: Vector3::zero(),
            t: Scalar::zero(),
            u: Scalar::zero(),
            v: Scalar::zero(),
            front_face: false,
            mat: None,
        }
    }

    /// Turns the normal against the ray: the ray comes from the front
    /// where it runs against the outward normal, and the record then keeps
    /// that normal; otherwise it keeps the opposite one.
    pub fn set_face_normal<A: Arithmetic>(&mut self, ray: &Ray, outward_normal: &Vector3, fpu: &A)
        ensures
            final(self).front_face == Vector3::dot_product(ray.direction, *outward_normal, fpu).below(
                Scalar { bits: 0 },
            ),
            final(self).normal == if final(self).front_face {
                *outward_normal
            } else {
                outward_normal.negated()
            },
            final(self).p == old(self).p,
            final(self).t == old(self).t,
            final(self).u == old(self).u,
            final(self).v == old(self).v,
            final(self).mat == old(self).mat,
    {
        let direction = ray.get_direction();
        self.front_face = Vector3::dot(&direction, outward_normal, fpu).lt(Scalar::zero());
        self.normal = if self.front_face {
            *outward_normal
        } else {
            outward_normal.neg()
        };
    }
}

/// Surfaces in the order in which they were added, and the box that
/// encloses them all.
pub struct HittableList<P> {
    pub objects: Vec<Arc<P>>,
    pub bbox: AABB,
}

impl<P> HittableList<P> {
    /// `trace` holds what the surfaces answered, one after the other, when
    /// each was asked for a hit nearer than the last hit before it.
    pub open spec fn scanned<A: Arithmetic>(
        &self,
        ray: &Ray,
        t: Interval,
        fpu: &A,
        trace: Seq<Option<HitRecord>>,
    ) -> bool where P: Hittable<A> {
        &&& trace.len() == self.objects@.len()
        &&& forall|i: int|
            0 <= i < trace.len() ==> answers(
                &*self.objects@[i],
                ray,
                window(t, last_hit(trace, i)),
                fpu,
                #[trigger] trace[i],
            )
    }

    /// `out` is what a scan of the list gives: the last hit that a surface
    /// answered, where each surface was asked for a hit nearer than the one
    /// before.
    pub open spec fn outcome<A: Arithmetic>(
        &self,
        ray: &Ray,
        t: Interval,
        fpu: &A,
        out: Option<HitRecord>,
    ) -> bool where P: Hittable<A> {
        exists|trace: Seq<Option<HitRecord>>|
            #[trigger] self.scanned(ray, t, fpu, trace) && out == last_hit(trace, trace.len() as int)
    }

    /// The list of no surfaces, with the empty box.
    pub fn new() -> (r: Self)
        ensures
            r.objects@.len() == 0,
            r.bbox == AABB::nothing(),
    {
        Self { objects: Vec::new(), bbox: AABB::new_empty() }
    }

    /// Adds a surface at the end, and grows the box of the list to enclose
    /// the box of the surface.
    pub fn add(&mut self, object: Arc<P>) where P: Bounded
        ensures
            final(self).objects@ == old(self).objects@.push(object),
            exists|b: AABB| #[trigger]
                boxes::<P>(&*object, b) && final(self).bbox == AABB::union_of(old(self).bbox, b),
    {
        let b: AABB = *object.bbox();
        assert(boxes::<P>(&*object, b));
        self.bbox = AABB::new_from_aabbs(&self.bbox, &b);
        self.objects.push(object);
    }

    /// Takes every surface out of the list. The box stays as it was.
    pub fn clear(&mut self)
        ensures
            final(self).objects@.len() == 0,
            final(self).bbox == old(self).bbox,
    {
        self.objects.clear();
    }
}

/// The last hit among the first `k` answers does not depend on the answers
/// after them.
pub proof fn lemma_last_hit_prefix(a: Seq<Option<HitRecord>>, b: Seq<Option<HitRecord>>, k: int)
    requires
        0 <= k <= a.len(),
        k <= b.len(),
        forall|i: int| 0 <= i < k ==> a[i] == b[i],
    ensures
        last_hit(a, k) == last_hit(b, k),
    decreases k,
{
    if k > 0 {
        lemma_last_hit_prefix(a, b, k - 1);
    }
}

impl<A: Arithmetic, P: Hittable<A>> Hittable<A> for HittableList<P> {
    /// Asks one surface after the other for a hit nearer than the nearest
    /// so far, and returns the last hit found.
    fn hit(&self, ray: &Ray, t: Interval, fpu: &A) -> (out: Option<HitRecord>)
        ensures
            self.outcome(ray, t, fpu, out),
    {
        let mut best: Option<HitRecord> = None;
        let mut closest_so_far = t.max;
        let ghost mut trace: Seq<Option<HitRecord>> = Seq::empty();
        let mut i: usize = 0;
        while i < self.objects.len()
            invariant
                i <= self.objects@.len(),
                trace.len() == i,
                best == last_hit(trace, i as int),
                t.up_to(closest_so_far) == window(t, best),
                forall|j: int|
                    0 <= j < i ==> answers(
                        &*self.objects@[j],
                        ray,
                        window(t, last_hit(trace, j)),
                        fpu,
                        #[trigger] trace[j],
                    ),
            decreases self.objects@.len() - i,
        {
            let temp_interval = Interval::new(t.min, closest_so_far);
            let found = self.objects[i].hit(ray, temp_interval, fpu);
            proof {
                let longer = trace.push(found);
                assert forall|j: int| 0 <= j <= i implies last_hit(longer, j) == last_hit(trace, j) by {
                    lemma_last_hit_prefix(longer, trace, j);
                }
                trace = longer;
            }
            match found {
                Some(rec) => {
                    closest_so_far = rec.t;
                    best = found;
                },
                None => {},
            }
            i = i + 1;
        }
        proof {
            assert(self.scanned(ray, t, fpu, trace));
        }
        best
    }
}

impl<P> Bounded for HittableList<P> {
    fn bbox(&self) -> (r: &AABB)
        ensures
            *r == self.bbox,
    {
        &self.bbox
    }
}

} // verus!
