//! Rotations about the axes.

use crate::scalar::{cosines, sines, Arithmetic, Functions, Scalar, HALF_TURN_BITS, PI_BITS};
use crate::vector::{Point3, Vector3};
use vstd::prelude::*;

verus! {

/// The axis of a rotation.
#[derive(Clone, Copy, Debug, PartialEq, Eq, Structural)]
pub enum RotationAxis {
    X,
    Y,
    Z,
}

/// The rotation about an axis by an angle, of which the cosine and the sine
/// are kept.
#[derive(Clone, Copy, Debug)]
pub struct Rotation {
    pub angle_radians: Scalar,
    pub cos_theta: Scalar,
    pub sin_theta: Scalar,
    pub axis: RotationAxis,
}

impl Rotation {
    /// The point turned by the rotation.
    pub open spec fn turned<A: Arithmetic>(&self, point: Point3, fpu: &A) -> Point3 {
        let c = self.cos_theta;
        let s = self.sin_theta;
        match self.axis {
            RotationAxis::X => Vector3 {
                x: point.x,
                y: fpu.difference(fpu.product(c, point.y), fpu.product(s, point.z)),
                z: fpu.sum(fpu.product(s, point.y), fpu.product(c, point.z)),
            },
            RotationAxis::Y => Vector3 {
                x: fpu.sum(fpu.product(c, point.x), fpu.product(s, point.z)),
                y: point.y,
                z: fpu.sum(fpu.product(s.negated(), point.x), fpu.product(c, point.z)),
            },
            RotationAxis::Z => Vector3 {
                x: fpu.difference(fpu.product(c, point.x), fpu.product(s, point.y)),
                y: fpu.sum(fpu.product(s, point.x), fpu.product(c, point.y)),
                z: point.z,
            },
        }
    }

    /// The point turned back.
    pub open spec fn turned_back<A: Arithmetic>(&self, point: Point3, fpu: &A) -> Point3 {
        let c = self.cos_theta;
        let s = self.sin_theta;
        match self.axis {
            RotationAxis::X => Vector3 {
                x: point.x,
                y: fpu.sum(fpu.product(c, point.y), fpu.product(s, point.z)),
                z: fpu.sum(fpu.product(s.negated(), point.y), fpu.product(c, point.z)),
            },
            RotationAxis::Y => Vector3 {
                x: fpu.difference(fpu.product(c, point.x), fpu.product(s, point.z)),
                y: point.y,
                z: fpu.sum(fpu.product(s, point.x), fpu.product(c, point.z)),
            },
            RotationAxis::Z => Vector3 {
                x: fpu.sum(fpu.product(c, point.x), fpu.product(s, point.y)),
                y: fpu.sum(fpu.product(s.negated(), point.x), fpu.product(c, point.y)),
                z: point.z,
            },
        }
    }

    /// The angle in radians: the angle in degrees times pi, over 180.
    pub open spec fn radians<A: Arithmetic>(angle_degrees: Scalar, fpu: &A) -> Scalar {
        fpu.quotient(fpu.product(angle_degrees, Scalar { bits: PI_BITS }), Scalar { bits: HALF_TURN_BITS })
    }

    /// `r` may be the rotation about the axis by the angle: it holds the
    /// angle in radians, and what `cos` and `sin` gave for it.
    pub open spec fn turns<A: Arithmetic + Functions>(axis: RotationAxis, angle_degrees: Scalar, fpu: &A, r: Rotation) -> bool {
        &&& r.axis == axis
        &&& r.angle_radians == Rotation::radians(angle_degrees, fpu)
        &&& cosines(fpu, r.angle_radians, r.cos_theta)
        &&& sines(fpu, r.angle_radians, r.sin_theta)
    }

    /// The rotation about an axis by the angle with this cosine and sine.
    pub fn new(axis: RotationAxis, angle_radians: Scalar, cos_theta: Scalar, sin_theta: Scalar) -> (r: Self)
        ensures
            r.angle_radians == angle_radians,
            r.cos_theta == cos_theta,
            r.sin_theta == sin_theta,
            r.axis == axis,
    {
        Self { angle_radians, cos_theta, sin_theta, axis }
    }

    fn about<A: Arithmetic + Functions>(axis: RotationAxis, angle_degrees: Scalar, fpu: &A) -> (r: Self)
        ensures
            Rotation::turns(axis, angle_degrees, fpu, r),
    {
        let angle_radians = fpu.over(
            fpu.times(angle_degrees, Scalar::from_bits(PI_BITS)),
            Scalar::from_bits(HALF_TURN_BITS),
        );
        let cos_theta = fpu.cos(angle_radians);
        let sin_theta = fpu.sin(angle_radians);
        Self { angle_radians, cos_theta, sin_theta, axis }
    }

    /// The rotation about the x axis by an angle in degrees.
    pub fn rotate_x<A: Arithmetic + Functions>(angle_degrees: Scalar, fpu: &A) -> (r: Self)
        ensures
            Rotation::turns(RotationAxis::X, angle_degrees, fpu, r),
    {
        Self::about(RotationAxis::X, angle_degrees, fpu)
    }

    /// The rotation about the y axis by an angle in degrees.
    pub fn rotate_y<A: Arithmetic + Functions>(angle_degrees: Scalar, fpu: &A) -> (r: Self)
        ensures
            Rotation::turns(RotationAxis::Y, angle_degrees, fpu, r),
    {
        Self::about(RotationAxis::Y, angle_degrees, fpu)
    }

    /// The rotation about the z axis by an angle in degrees.
    pub fn rotate_z<A: Arithmetic + Functions>(angle_degrees: Scalar, fpu: &A) -> (r: Self)
        ensures
            Rotation::turns(RotationAxis::Z, angle_degrees, fpu, r),
    {
        Self::about(RotationAxis::Z, angle_degrees, fpu)
    }

    pub fn transform_point<A: Arithmetic>(&self, point: &Point3, fpu: &A) -> (r: Point3)
        ensures
            r == self.turned(*point, fpu),
    {
        let c = self.cos_theta;
        let s = self.sin_theta;
        match self.axis {
            RotationAxis::X => Vector3::new(
                point.x(),
                fpu.minus(fpu.times(c, point.y()), fpu.times(s, point.z())),
                fpu.plus(fpu.times(s, point.y()), fpu.times(c, point.z())),
            ),
            RotationAxis::Y => Vector3::new(
                fpu.plus(fpu.times(c, point.x()), fpu.times(s, point.z())),
                point.y(),
                fpu.plus(fpu.times(s.neg(), point.x()), fpu.times(c, point.z())),
            ),
            RotationAxis::Z => Vector3::new(
                fpu.minus(fpu.times(c, point.x()), fpu.times(s, point.y())),
                fpu.plus(fpu.times(s, point.x()), fpu.times(c, point.y())),
                point.z(),
            ),
        }
    }

    pub fn transform_vector<A: Arithmetic>(&self, vector: &Vector3, fpu: &A) -> (r: Vector3)
        ensures
            r == self.turned(*vector, fpu),
    {
        self.transform_point(vector, fpu)
    }

    pub fn inverse_transform_point<A: Arithmetic>(&self, point: &Point3, fpu: &A) -> (r: Point3)
        ensures
            r == self.turned_back(*point, fpu),
    {
        let c = self.cos_theta;
        let s = self.sin_theta;
        match self.axis {
            RotationAxis::X => Vector3::new(
                point.x(),
                fpu.plus(fpu.times(c, point.y()), fpu.times(s, point.z())),
                fpu.plus(fpu.times(s.neg(), point.y()), fpu.times(c, point.z())),
            ),
            RotationAxis::Y => Vector3::new(
                fpu.minus(fpu.times(c, point.x()), fpu.times(s, point.z())),
                point.y(),
                fpu.plus(fpu.times(s, point.x()), fpu.times(c, point.z())),
            ),
            RotationAxis::Z => Vector3::new(
                fpu.plus(fpu.times(c, point.x()), fpu.times(s, point.y())),
                fpu.plus(fpu.times(s.neg(), point.x()), fpu.times(c, point.y())),
                point.z(),
            ),
        }
    }

    pub fn inverse_transform_vector<A: Arithmetic>(&self, vector: &Vector3, fpu: &A) -> (r: Vector3)
        ensures
            r == self.turned_back(*vector, fpu),
    {
        self.inverse_transform_point(vector, fpu)
    }
}

/// Rotations, one after the other.
pub struct CompositeRotation {
    pub rotations: Vec<Rotation>,
}

/// The point turned by the first `k` rotations, one after the other.
pub open spec fn turned_by<A: Arithmetic>(rotations: Seq<Rotation>, k: int, point: Point3, fpu: &A) -> Point3
    decreases k,
{
    if k <= 0 {
        point
    } else {
        rotations[k - 1].turned(turned_by(rotations, k - 1, point, fpu), fpu)
    }
}

/// The point turned back by the rotations from the last down to the one
/// with the index `k`.
pub open spec fn turned_back_by<A: Arithmetic>(rotations: Seq<Rotation>, k: int, point: Point3, fpu: &A) -> Point3
    decreases rotations.len() - k,
{
    if k >= rotations.len() {
        point
    } else {
        rotations[k].turned_back(turned_back_by(rotations, k + 1, point, fpu), fpu)
    }
}

impl CompositeRotation {
    pub fn new() -> (r: Self)
        ensures
            r.rotations@.len() == 0,
    {
        Self { rotations: Vec::new() }
    }

    /// The same rotations, and then one about the x axis by an angle in
    /// degrees.
    pub fn rotate_x<A: Arithmetic + Functions>(self, angle_degrees: Scalar, fpu: &A) -> (r: Self)
        ensures
            r.rotations@.len() == self.rotations@.len() + 1,
            r.rotations@.subrange(0, self.rotations@.len() as int) == self.rotations@,
            Rotation::turns(RotationAxis::X, angle_degrees, fpu, r.rotations@[self.rotations@.len() as int]),
    {
        let mut rotations = self.rotations;
        rotations.push(Rotation::rotate_x(angle_degrees, fpu));
        Self { rotations }
    }

    /// The same rotations, and then one about the y axis by an angle in
    /// degrees.
    pub fn rotate_y<A: Arithmetic + Functions>(self, angle_degrees: Scalar, fpu: &A) -> (r: Self)
        ensures
            r.rotations@.len() == self.rotations@.len() + 1,
            r.rotations@.subrange(0, self.rotations@.len() as int) == self.rotations@,
            Rotation::turns(RotationAxis::Y, angle_degrees, fpu, r.rotations@[self.rotations@.len() as int]),
    {
        let mut rotations = self.rotations;
        rotations.push(Rotation::rotate_y(angle_degrees, fpu));
        Self { rotations }
    }

    /// The same rotations, and then one about the z axis by an angle in
    /// degrees.
    pub fn rotate_z<A: Arithmetic + Functions>(self, angle_degrees: Scalar, fpu: &A) -> (r: Self)
        ensures
            r.rotations@.len() == self.rotations@.len() + 1,
            r.rotations@.subrange(0, self.rotations@.len() as int) == self.rotations@,
            Rotation::turns(RotationAxis::Z, angle_degrees, fpu, r.rotations@[self.rotations@.len() as int]),
    {
        let mut rotations = self.rotations;
        rotations.push(Rotation::rotate_z(angle_degrees, fpu));
        Self { rotations }
    }

    /// The point turned by every rotation, from the first to the last.
    pub fn transform_point<A: Arithmetic>(&self, point: &Point3, fpu: &A) -> (r: Point3)
        ensures
            r == turned_by(self.rotations@, self.rotations@.len() as int, *point, fpu),
    {
        let mut p = *point;
        let mut k: usize = 0;
        while k < self.rotations.len()
            invariant
                k <= self.rotations@.len(),
                p == turned_by(self.rotations@, k as int, *point, fpu),
            decreases self.rotations@.len() - k,
        {
            p = self.rotations[k].transform_point(&p, fpu);
            k = k + 1;
        }
        p
    }

    pub fn transform_vector<A: Arithmetic>(&self, vector: &Vector3, fpu: &A) -> (r: Vector3)
        ensures
            r == turned_by(self.rotations@, self.rotations@.len() as int, *vector, fpu),
    {
        self.transform_point(vector, fpu)
    }

    /// The point turned back by every rotation, from the last to the first.
    pub fn inverse_transform_point<A: Arithmetic>(&self, point: &Point3, fpu: &A) -> (r: Point3)
        ensures
            r == turned_back_by(self.rotations@, 0, *point, fpu),
    {
        let mut p = *point;
        let mut k: usize = self.rotations.len();
        while k > 0
            invariant
                k <= self.rotations@.len(),
                p == turned_back_by(self.rotations@, k as int, *point, fpu),
            decreases k,
        {
            k = k - 1;
            p = self.rotations[k].inverse_transform_point(&p, fpu);
        }
        p
    }

    pub fn inverse_transform_vector<A: Arithmetic>(&self, vector: &Vector3, fpu: &A) -> (r: Vector3)
        ensures
            r == turned_back_by(self.rotations@, 0, *vector, fpu),
    {
        self.inverse_transform_point(vector, fpu)
    }
}

} // verus!
