//! Rays: half-lines from an origin along a direction.

use crate::scalar::{Arithmetic, Scalar};
use crate::vector::{Point3, Vector3};
use vstd::prelude::*;

verus! {

/// The points `origin + t * direction`.
#[derive(Clone, Copy, Debug, PartialEq, Eq, Structural)]
pub struct Ray {
    pub origin: Point3,
    pub direction: Vector3,
}

impl Ray {
    /// The point of the ray at parameter `t`.
    pub open spec fn point_at<A: Arithmetic>(self, t: Scalar, fpu: &A) -> Point3 {
        Vector3 {
            x: fpu.sum(self.origin.x, fpu.product(t, self.direction.x)),
            y: fpu.sum(self.origin.y, fpu.product(t, self.direction.y)),
            z: fpu.sum(self.origin.z, fpu.product(t, self.direction.z)),
        }
    }

    pub fn new(origin: Vector3, direction: Vector3) -> (r: Ray)
        ensures
            r.origin == origin,
            r.direction == direction,
    {
        Ray { origin, direction }
    }

    pub fn get_origin(&self) -> (r: Vector3)
        ensures
            r == self.origin,
    {
        self.origin
    }

    pub fn get_direction(&self) -> (r: Vector3)
        ensures
            r == self.direction,
    {
        self.direction
    }

    pub fn at<A: Arithmetic>(&self, t: Scalar, fpu: &A) -> (r: Vector3)
        ensures
            r == self.point_at(t, fpu),
    {
        Vector3 {
            x: fpu.plus(self.origin.x, fpu.times(t, self.direction.x)),
            y: fpu.plus(self.origin.y, fpu.times(t, self.direction.y)),
            z: fpu.plus(self.origin.z, fpu.times(t, self.direction.z)),
        }
    }
}

} // verus!
