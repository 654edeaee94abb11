//! Closed intervals of binary64 numbers.

use crate::scalar::{Arithmetic, Scalar};
use vstd::prelude::*;

verus! {

/// The interval from `min` to `max`. With `min` above `max` it holds nothing.
#[derive(Clone, Copy, Debug, PartialEq, Eq, Structural)]
pub struct Interval {
    pub min: Scalar,
    pub max: Scalar,
}

/// The smaller of two numbers; `b` where they do not compare.
pub open spec fn lesser(a: Scalar, b: Scalar) -> Scalar {
    if a.at_most(b) {
        a
    } else {
        b
    }
}

/// The larger of two numbers; `b` where they do not compare.
pub open spec fn greater(a: Scalar, b: Scalar) -> Scalar {
    if b.at_most(a) {
        a
    } else {
        b
    }
}

impl Interval {
    /// Neither bound is NaN.
    pub open spec fn wf(self) -> bool {
        !self.min.nan() && !self.max.nan()
    }

    /// `outer` reaches at least as far as `self` on both sides.
    pub open spec fn within(self, outer: Interval) -> bool {
        outer.min.at_most(self.min) && self.max.at_most(outer.max)
    }

    /// The two intervals have the same bounds as numbers, neither of them
    /// NaN: a zero bound of one may have the other sign in the other.
    pub open spec fn coincides(self, other: Interval) -> bool {
        &&& self.wf() && other.wf()
        &&& self.min.ord() == other.min.ord()
        &&& self.max.ord() == other.max.ord()
    }

    /// `min <= x <= max`
    pub open spec fn holds(self, x: Scalar) -> bool {
        self.min.at_most(x) && x.at_most(self.max)
    }

    /// `min < x < max`
    pub open spec fn holds_inside(self, x: Scalar) -> bool {
        self.min.below(x) && x.below(self.max)
    }

    /// The least interval that holds both `a` and `b`.
    pub open spec fn hull(a: Interval, b: Interval) -> Interval {
        Interval { min: lesser(a.min, b.min), max: greater(a.max, b.max) }
    }

    /// `x` moved to the nearest bound where it lies outside.
    pub open spec fn clamped(self, x: Scalar) -> Scalar {
        if x.below(self.min) {
            self.min
        } else if self.max.below(x) {
            self.max
        } else {
            x
        }
    }

    /// The interval with `max` replaced.
    pub open spec fn up_to(self, max: Scalar) -> Interval {
        Interval { min: self.min, max }
    }

    /// `max - min`
    pub open spec fn width<A: Arithmetic>(self, fpu: &A) -> Scalar {
        fpu.difference(self.max, self.min)
    }

    /// The interval grown by `delta / 2` on each side.
    pub open spec fn widened<A: Arithmetic>(self, delta: Scalar, fpu: &A) -> Interval {
        let padding = fpu.quotient(delta, Scalar { bits: 0x4000_0000_0000_0000 });
        Interval {
            min: fpu.difference(self.min, padding),
            max: fpu.sum(self.max, padding),
        }
    }

    /// The interval moved by `offset`.
    pub open spec fn shifted<A: Arithmetic>(self, offset: Scalar, fpu: &A) -> Interval {
        Interval { min: fpu.sum(self.min, offset), max: fpu.sum(self.max, offset) }
    }

    pub fn new(min: Scalar, max: Scalar) -> (r: Interval)
        ensures
            r.min == min,
            r.max == max,
    {
        Interval { min, max }
    }

    /// The interval that holds nothing: from positive to negative infinity.
    pub fn empty() -> (r: Interval)
        ensures
            r.min.bits == crate::scalar::INFINITY_BITS,
            r.max.bits == crate::scalar::INFINITY_BITS + crate::scalar::SIGN_BIT,
            r.wf(),
    {
        Interval { min: Scalar::infinity(), max: Scalar::neg_infinity() }
    }

    /// The interval that holds every number.
    pub fn universe() -> (r: Interval)
        ensures
            r.min.bits == crate::scalar::INFINITY_BITS + crate::scalar::SIGN_BIT,
            r.max.bits == crate::scalar::INFINITY_BITS,
            r.wf(),
    {
        Interval { min: Scalar::neg_infinity(), max: Scalar::infinity() }
    }

    /// The least interval that holds both `a` and `b`.
    pub fn new_enclosing_intervals(a: &Interval, b: &Interval) -> (r: Interval)
        ensures
            r == Interval::hull(*a, *b),
            a.wf() && b.wf() ==> r.wf() && a.within(r) && b.within(r),
    {
        Interval {
            min: if a.min.le(b.min) { a.min } else { b.min },
            max: if a.max.ge(b.max) { a.max } else { b.max },
        }
    }

    pub fn size<A: Arithmetic>(&self, fpu: &A) -> (r: Scalar)
        ensures
            r == self.width(fpu),
    {
        fpu.minus(self.max, self.min)
    }

    pub fn contains(&self, x: Scalar) -> (r: bool)
        ensures
            r == self.holds(x),
    {
        self.min.le(x) && x.le(self.max)
    }

    pub fn surrounds(&self, x: Scalar) -> (r: bool)
        ensures
            r == self.holds_inside(x),
    {
        self.min.lt(x) && x.lt(self.max)
    }

    pub fn clamp(&self, x: Scalar) -> (r: Scalar)
        ensures
            r == self.clamped(x),
            self.wf() && !x.nan() && self.min.at_most(self.max) ==> self.holds(r),
            self.holds(x) ==> r == x,
    {
        if x.lt(self.min) {
            self.min
        } else if x.gt(self.max) {
            self.max
        } else {
            x
        }
    }

    pub fn expand<A: Arithmetic>(&self, delta: Scalar, fpu: &A) -> (r: Interval)
        ensures
            r == self.widened(delta, fpu),
    {
        let padding = fpu.over(delta, Scalar::two());
        Interval { min: fpu.minus(self.min, padding), max: fpu.plus(self.max, padding) }
    }

    /// The interval moved by `offset`.
    pub fn translate<A: Arithmetic>(&self, offset: Scalar, fpu: &A) -> (r: Interval)
        ensures
            r == self.shifted(offset, fpu),
    {
        Interval { min: fpu.plus(self.min, offset), max: fpu.plus(self.max, offset) }
    }
}

} // verus!
