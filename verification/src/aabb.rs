//! Axis-aligned bounding boxes.

use crate::interval::Interval;
use crate::ray::Ray;
use crate::scalar::{Arithmetic, Scalar};
use crate::vector::{Point3, Vector3};
use vstd::prelude::*;

verus! {

/// The bits of 0.0001: the least thickness of a box made by [`AABB::new`].
pub const MIN_THICKNESS_BITS: u64 = 0x3F1A_36E2_EB1C_432D;

/// A box with faces parallel to the axes: one interval per axis.
#[derive(Clone, Copy, Debug, PartialEq, Eq, Structural)]
pub struct AABB {
    pub x: Interval,
    pub y: Interval,
    pub z: Interval,
}

/// An interval thinner than 0.0001, grown by that much; any other, itself.
pub open spec fn padded<A: Arithmetic>(i: Interval, fpu: &A) -> Interval {
    let delta = Scalar { bits: MIN_THICKNESS_BITS };
    if i.width(fpu).below(delta) {
        i.widened(delta, fpu)
    } else {
        i
    }
}

/// What is left of the search interval `t` once it is cut down to the part
/// of the ray between the parameters `t0` and `t1`, in either order.
pub open spec fn clipped(t: Interval, t0: Scalar, t1: Scalar) -> Interval {
    if t0.below(t1) {
        Interval {
            min: if t.min.below(t0) { t0 } else { t.min },
            max: if t1.below(t.max) { t1 } else { t.max },
        }
    } else {
        Interval {
            min: if t.min.below(t1) { t1 } else { t.min },
            max: if t0.below(t.max) { t0 } else { t.max },
        }
    }
}

/// Which axis is the longest, given the three lengths: 0 for x, 1 for y,
/// 2 for z. Among equal lengths z wins over y, and y over x.
pub open spec fn longest_of(x_len: Scalar, y_len: Scalar, z_len: Scalar) -> int {
    if y_len.below(x_len) && z_len.below(x_len) {
        0
    } else if z_len.below(y_len) {
        1
    } else {
        2
    }
}

impl AABB {
    /// No bound of the box is NaN.
    pub open spec fn wf(self) -> bool {
        self.x.wf() && self.y.wf() && self.z.wf()
    }

    /// The interval of the box on an axis: y for 1, z for 2, x for any other.
    pub open spec fn axis(self, axis: int) -> Interval {
        if axis == 1 {
            self.y
        } else if axis == 2 {
            self.z
        } else {
            self.x
        }
    }

    /// `outer` encloses `self` on every axis.
    pub open spec fn inside(self, outer: AABB) -> bool {
        self.x.within(outer.x) && self.y.within(outer.y) && self.z.within(outer.z)
    }

    /// The two boxes have the same bounds as numbers on every axis.
    pub open spec fn coincides(self, other: AABB) -> bool {
        self.x.coincides(other.x) && self.y.coincides(other.y) && self.z.coincides(other.z)
    }

    /// The least box that encloses both `a` and `b`.
    pub open spec fn union_of(a: AABB, b: AABB) -> AABB {
        AABB {
            x: Interval::hull(a.x, b.x),
            y: Interval::hull(a.y, b.y),
            z: Interval::hull(a.z, b.z),
        }
    }

    /// The box that holds nothing.
    pub open spec fn nothing() -> AABB {
        let i = Interval {
            min: Scalar { bits: crate::scalar::INFINITY_BITS },
            max: Scalar { bits: 0xFFF0_0000_0000_0000 },
        };
        AABB { x: i, y: i, z: i }
    }

    /// The interval between two numbers, in either order.
    pub open spec fn between(a: Scalar, b: Scalar) -> Interval {
        if a.below(b) {
            Interval { min: a, max: b }
        } else {
            Interval { min: b, max: a }
        }
    }

    /// The box with the corners `a` and `b`, in either order, grown to the
    /// least thickness where it is thinner.
    pub open spec fn spanning<A: Arithmetic>(a: Point3, b: Point3, fpu: &A) -> AABB {
        AABB {
            x: padded(AABB::between(a.x, b.x), fpu),
            y: padded(AABB::between(a.y, b.y), fpu),
            z: padded(AABB::between(a.z, b.z), fpu),
        }
    }

    /// The corner of the box with the least coordinates.
    pub open spec fn low(self) -> Point3 {
        Vector3 { x: self.x.min, y: self.y.min, z: self.z.min }
    }

    /// The corner of the box with the greatest coordinates.
    pub open spec fn high(self) -> Point3 {
        Vector3 { x: self.x.max, y: self.y.max, z: self.z.max }
    }

    /// The parameters at which the ray meets the two faces of the box that
    /// are normal to the axis: `(face - origin) * (1 / direction)`.
    pub open spec fn slab<A: Arithmetic>(self, ray: Ray, axis: int, fpu: &A) -> (Scalar, Scalar) {
        let interval = self.axis(axis);
        let adinv = fpu.quotient(
            Scalar { bits: 0x3FF0_0000_0000_0000 },
            ray.direction.component(axis),
        );
        let from = ray.origin.component(axis);
        (
            fpu.product(fpu.difference(interval.min, from), adinv),
            fpu.product(fpu.difference(interval.max, from), adinv),
        )
    }

    /// The search interval after it is clipped by the slabs of the first
    /// `axes` axes.
    pub open spec fn clip_through<A: Arithmetic>(self, ray: Ray, t: Interval, axes: int, fpu: &A) -> Interval
        decreases axes,
    {
        if axes <= 0 {
            t
        } else {
            let (t0, t1) = self.slab(ray, axes - 1, fpu);
            clipped(self.clip_through(ray, t, axes - 1, fpu), t0, t1)
        }
    }

    /// The slab test: clipped by one axis after the other, the search
    /// interval keeps `min < max`.
    pub open spec fn crossed_by<A: Arithmetic>(self, ray: Ray, t: Interval, fpu: &A) -> bool {
        forall|axes: int| 1 <= axes <= 3 ==> !(#[trigger] self.clip_through(ray, t, axes, fpu)).max.at_most(
            self.clip_through(ray, t, axes, fpu).min,
        )
    }

    /// Which axis of the box is the longest.
    pub open spec fn widest<A: Arithmetic>(self, fpu: &A) -> int {
        longest_of(self.x.width(fpu), self.y.width(fpu), self.z.width(fpu))
    }

    /// The box of three intervals, each grown to the least thickness where it
    /// is thinner, so that a flat shape still has a box that a ray can cross.
    pub fn new<A: Arithmetic>(x: Interval, y: Interval, z: Interval, fpu: &A) -> (r: AABB)
        ensures
            r.x == padded(x, fpu),
            r.y == padded(y, fpu),
            r.z == padded(z, fpu),
    {
        let mut x = x;
        let mut y = y;
        let mut z = z;
        Self::pad_to_minimums(&mut x, &mut y, &mut z, fpu);
        AABB { x, y, z }
    }

    /// The box with the corners `a` and `b`, in either order. Like every
    /// box that is made from bounds, it is grown to the least thickness
    /// where it is thinner.
    pub fn new_points<A: Arithmetic>(a: Point3, b: Point3, fpu: &A) -> (r: AABB)
        ensures
            r == AABB::spanning(a, b, fpu),
    {
        let x = if a.x().lt(b.x()) {
            Interval::new(a.x(), b.x())
        } else {
            Interval::new(b.x(), a.x())
        };
        let y = if a.y().lt(b.y()) {
            Interval::new(a.y(), b.y())
        } else {
            Interval::new(b.y(), a.y())
        };
        let z = if a.z().lt(b.z()) {
            Interval::new(a.z(), b.z())
        } else {
            Interval::new(b.z(), a.z())
        };
        AABB::new(x, y, z, fpu)
    }

    /// The corner of the box with the least coordinates.
    pub fn min(&self) -> (r: Point3)
        ensures
            r == self.low(),
    {
        Vector3::new(self.x.min, self.y.min, self.z.min)
    }

    /// The corner of the box with the greatest coordinates.
    pub fn max(&self) -> (r: Point3)
        ensures
            r == self.high(),
    {
        Vector3::new(self.x.max, self.y.max, self.z.max)
    }

    /// The least box that encloses both boxes.
    pub fn new_from_aabbs(box0: &AABB, box1: &AABB) -> (r: AABB)
        ensures
            r == AABB::union_of(*box0, *box1),
            box0.wf() && box1.wf() ==> r.wf() && box0.inside(r) && box1.inside(r),
    {
        let x = Interval::new_enclosing_intervals(&box0.x, &box1.x);
        let y = Interval::new_enclosing_intervals(&box0.y, &box1.y);
        let z = Interval::new_enclosing_intervals(&box0.z, &box1.z);
        AABB { x, y, z }
    }

    /// The box that holds nothing: in a union it leaves the other box as it is.
    pub fn new_empty() -> (r: AABB)
        ensures
            r == AABB::nothing(),
            r.wf(),
            forall|b: AABB| b.wf() ==> #[trigger] AABB::union_of(r, b) == b,
            forall|b: AABB| b.wf() ==> #[trigger] AABB::union_of(b, r) == b,
    {
        let inf = Scalar::infinity();
        let ninf = Scalar::neg_infinity();
        AABB {
            x: Interval::new(inf, ninf),
            y: Interval::new(inf, ninf),
            z: Interval::new(inf, ninf),
        }
    }

    pub fn axis_interval(&self, axis: i32) -> (r: &Interval)
        ensures
            *r == self.axis(axis as int),
    {
        match axis {
            1 => &self.y,
            2 => &self.z,
            _ => &self.x,
        }
    }

    /// The slab test: whether the ray crosses the box at parameters strictly
    /// inside the search interval `t`.
    pub fn hit<A: Arithmetic>(&self, ray: &Ray, t: Interval, fpu: &A) -> (r: bool)
        ensures
            r == self.crossed_by(*ray, t, fpu),
    {
        let origin = ray.get_origin();
        let direction = ray.get_direction();
        let mut cur = t;
        let mut axis: i32 = 0;
        while axis < 3
            invariant
                0 <= axis <= 3,
                origin == ray.origin,
                direction == ray.direction,
                cur == self.clip_through(*ray, t, axis as int, fpu),
                forall|k: int|
                    1 <= k <= axis ==> !(#[trigger] self.clip_through(*ray, t, k, fpu)).max.at_most(
                        self.clip_through(*ray, t, k, fpu).min,
                    ),
            decreases 3 - axis,
        {
            let interval = self.axis_interval(axis);
            let adinv = fpu.over(Scalar::one(), direction.get(axis as usize));
            let t0 = fpu.times(fpu.minus(interval.min, origin.get(axis as usize)), adinv);
            let t1 = fpu.times(fpu.minus(interval.max, origin.get(axis as usize)), adinv);
            cur = AABB::clip(cur, t0, t1);
            assert(cur == self.clip_through(*ray, t, axis + 1, fpu));
            if cur.max.le(cur.min) {
                return false;
            }
            axis = axis + 1;
        }
        true
    }

    /// Cuts the search interval `t` down to the part of the ray between the
    /// parameters `t0` and `t1`, in either order: where all are numbers, to
    /// the intersection of the two stretches.
    pub fn clip(t: Interval, t0: Scalar, t1: Scalar) -> (r: Interval)
        ensures
            r == clipped(t, t0, t1),
            t.wf() && !t0.nan() && !t1.nan() ==> r.wf() && r.min.ord() == vstd::math::max(
                t.min.ord(),
                vstd::math::min(t0.ord(), t1.ord()),
            ) && r.max.ord() == vstd::math::min(t.max.ord(), vstd::math::max(t0.ord(), t1.ord())),
    {
        let mut cur = t;
        if t0.lt(t1) {
            if t0.gt(cur.min) {
                cur.min = t0;
            }
            if t1.lt(cur.max) {
                cur.max = t1;
            }
        } else {
            if t1.gt(cur.min) {
                cur.min = t1;
            }
            if t0.lt(cur.max) {
                cur.max = t0;
            }
        }
        cur
    }

    /// The longest axis of the box: 0 for x, 1 for y, 2 for z.
    pub fn longest_axis<A: Arithmetic>(&self, fpu: &A) -> (r: i32)
        ensures
            r == self.widest(fpu),
            0 <= r <= 2,
            !self.x.width(fpu).nan() && !self.y.width(fpu).nan() && !self.z.width(fpu).nan() ==> {
                let longest = self.axis(r as int).width(fpu);
                self.x.width(fpu).at_most(longest) && self.y.width(fpu).at_most(longest) && self.z.width(
                    fpu,
                ).at_most(longest)
            },
    {
        let x_len = self.x.size(fpu);
        let y_len = self.y.size(fpu);
        let z_len = self.z.size(fpu);
        if x_len.gt(y_len) && x_len.gt(z_len) {
            0
        } else if y_len.gt(z_len) {
            1
        } else {
            2
        }
    }

    /// The box moved by `offset`, and padded anew.
    pub fn translate<A: Arithmetic>(&self, offset: &Vector3, fpu: &A) -> (r: AABB)
        ensures
            r.x == padded(self.x.shifted(offset.x, fpu), fpu),
            r.y == padded(self.y.shifted(offset.y, fpu), fpu),
            r.z == padded(self.z.shifted(offset.z, fpu), fpu),
    {
        AABB::new(
            self.x.translate(offset.x(), fpu),
            self.y.translate(offset.y(), fpu),
            self.z.translate(offset.z(), fpu),
            fpu,
        )
    }

    fn pad_to_minimums<A: Arithmetic>(x: &mut Interval, y: &mut Interval, z: &mut Interval, fpu: &A)
        ensures
            *final(x) == padded(*old(x), fpu),
            *final(y) == padded(*old(y), fpu),
            *final(z) == padded(*old(z), fpu),
    {
        let delta = Scalar::from_bits(MIN_THICKNESS_BITS);
        if x.size(fpu).lt(delta) {
            *x = x.expand(delta, fpu);
        }
        if y.size(fpu).lt(delta) {
            *y = y.expand(delta, fpu);
        }
        if z.size(fpu).lt(delta) {
            *z = z.expand(delta, fpu);
        }
    }
}

/// The union of two boxes encloses both of them on every axis, and every box
/// that encloses both encloses the union.
pub proof fn lemma_union_encloses(a: AABB, b: AABB)
    requires
        a.wf(),
        b.wf(),
    ensures
        AABB::union_of(a, b).wf(),
        a.inside(AABB::union_of(a, b)),
        b.inside(AABB::union_of(a, b)),
        forall|c: AABB| a.inside(c) && b.inside(c) ==> #[trigger] AABB::union_of(a, b).inside(c),
{
}

/// Two boxes that enclose each other have the same bounds as numbers.
pub proof fn lemma_inside_both_ways(a: AABB, b: AABB)
    requires
        a.inside(b),
        b.inside(a),
    ensures
        a.coincides(b),
{
}

/// One box inside a second, and that inside a third: the first is inside
/// the third.
pub proof fn lemma_inside_transitive(a: AABB, b: AABB, c: AABB)
    requires
        a.inside(b),
        b.inside(c),
    ensures
        a.inside(c),
{
}

} // verus!
