//! Triples of binary64 numbers: vectors, points and colours.

use crate::scalar::{draws, Arithmetic, Chance, Scalar};
use vstd::prelude::*;

verus! {

/// Three numbers. The library carries them and compares them; it leaves
/// their sums and products to the caller.
#[derive(Clone, Copy, Debug, PartialEq, Eq, Structural)]
pub struct Vector3 {
    pub x: Scalar,
    pub y: Scalar,
    pub z: Scalar,
}

/// A place in space.
pub type Point3 = Vector3;

/// Radiance, one number per channel: red, green, blue.
pub type Color = Vector3;

/// The bits of 1e-160: a vector whose length has no greater square is too
/// short to be divided by its length.
pub const TINY_SQUARE_BITS: u64 = 0x1EB6_7E9C_127B_6E74;

/// The bits of 1e-8, under which a component counts as zero.
pub const NEAR_ZERO_BITS: u64 = 0x3E45_798E_E230_8C3A;

impl Vector3 {
    /// The component with the given index: 0, 1 or 2.
    pub open spec fn component(self, i: int) -> Scalar {
        if i == 0 {
            self.x
        } else if i == 1 {
            self.y
        } else {
            self.z
        }
    }

    /// The vector with every component negated.
    pub open spec fn negated(self) -> Vector3 {
        Vector3 { x: self.x.negated(), y: self.y.negated(), z: self.z.negated() }
    }

    /// Every component is smaller than 1e-8 in magnitude.
    pub open spec fn tiny(self) -> bool {
        let s = Scalar { bits: NEAR_ZERO_BITS };
        self.x.absolute().below(s) && self.y.absolute().below(s) && self.z.absolute().below(s)
    }

    pub fn new(x: Scalar, y: Scalar, z: Scalar) -> (r: Vector3)
        ensures
            r.x == x,
            r.y == y,
            r.z == z,
    {
        Vector3 { x, y, z }
    }

    /// The vector of three zeros: no radiance, or the origin.
    pub fn zero() -> (r: Vector3)
        ensures
            r == Vector3::origin(),
    {
        Vector3 { x: Scalar::zero(), y: Scalar::zero(), z: Scalar::zero() }
    }

    /// The vector whose components are all 1: light that nothing dims.
    pub open spec fn white() -> Vector3 {
        Vector3 {
            x: Scalar { bits: 0x3FF0_0000_0000_0000 },
            y: Scalar { bits: 0x3FF0_0000_0000_0000 },
            z: Scalar { bits: 0x3FF0_0000_0000_0000 },
        }
    }

    /// The vector whose components are all `+0.0`.
    pub open spec fn origin() -> Vector3 {
        Vector3 { x: Scalar { bits: 0 }, y: Scalar { bits: 0 }, z: Scalar { bits: 0 } }
    }

    pub fn x(&self) -> (r: Scalar)
        ensures
            r == self.x,
    {
        self.x
    }

    pub fn y(&self) -> (r: Scalar)
        ensures
            r == self.y,
    {
        self.y
    }

    pub fn z(&self) -> (r: Scalar)
        ensures
            r == self.z,
    {
        self.z
    }

    pub fn get(&self, i: usize) -> (r: Scalar)
        requires
            i < 3,
        ensures
            r == self.component(i as int),
    {
        if i == 0 {
            self.x
        } else if i == 1 {
            self.y
        } else {
            self.z
        }
    }

    /// The component with the given index, to be changed.
    pub fn get_mut(&mut self, i: usize) -> (r: &mut Scalar)
        requires
            i < 3,
        ensures
            *r == old(self).component(i as int),
            final(self).component(i as int) == *final(r),
            forall|j: int| 0 <= j < 3 && j != i ==> final(self).component(j) == old(self).component(j),
    {
        if i == 0 {
            &mut self.x
        } else if i == 1 {
            &mut self.y
        } else {
            &mut self.z
        }
    }

    pub fn neg(&self) -> (r: Vector3)
        ensures
            r == self.negated(),
    {
        Vector3 { x: self.x.neg(), y: self.y.neg(), z: self.z.neg() }
    }

    pub fn near_zero(&self) -> (r: bool)
        ensures
            r == self.tiny(),
    {
        let s = Scalar::from_bits(NEAR_ZERO_BITS);
        self.x.abs().lt(s) && self.y.abs().lt(s) && self.z.abs().lt(s)
    }
}

impl Vector3 {
    /// `u + v`, component by component.
    pub open spec fn sum<A: Arithmetic>(u: Vector3, v: Vector3, fpu: &A) -> Vector3 {
        Vector3 { x: fpu.sum(u.x, v.x), y: fpu.sum(u.y, v.y), z: fpu.sum(u.z, v.z) }
    }

    /// `u - v`, component by component.
    pub open spec fn difference<A: Arithmetic>(u: Vector3, v: Vector3, fpu: &A) -> Vector3 {
        Vector3 {
            x: fpu.difference(u.x, v.x),
            y: fpu.difference(u.y, v.y),
            z: fpu.difference(u.z, v.z),
        }
    }

    /// `u * v`, component by component.
    pub open spec fn product<A: Arithmetic>(u: Vector3, v: Vector3, fpu: &A) -> Vector3 {
        Vector3 { x: fpu.product(u.x, v.x), y: fpu.product(u.y, v.y), z: fpu.product(u.z, v.z) }
    }

    /// `t * v`: every component of `v` multiplied by `t` from the left.
    pub open spec fn scaled<A: Arithmetic>(t: Scalar, v: Vector3, fpu: &A) -> Vector3 {
        Vector3 { x: fpu.product(t, v.x), y: fpu.product(t, v.y), z: fpu.product(t, v.z) }
    }

    /// `v * t`: every component of `v` multiplied by `t` from the right.
    pub open spec fn stretched<A: Arithmetic>(v: Vector3, t: Scalar, fpu: &A) -> Vector3 {
        Vector3 { x: fpu.product(v.x, t), y: fpu.product(v.y, t), z: fpu.product(v.z, t) }
    }

    /// `v / t`: every component of `v` multiplied by `1 / t`.
    pub open spec fn shrunk<A: Arithmetic>(v: Vector3, t: Scalar, fpu: &A) -> Vector3 {
        Vector3::scaled(fpu.quotient(Scalar { bits: 0x3FF0_0000_0000_0000 }, t), v, fpu)
    }

    /// The dot product `u.x * v.x + u.y * v.y + u.z * v.z`, summed from the
    /// left.
    pub open spec fn dot_product<A: Arithmetic>(u: Vector3, v: Vector3, fpu: &A) -> Scalar {
        fpu.sum(fpu.sum(fpu.product(u.x, v.x), fpu.product(u.y, v.y)), fpu.product(u.z, v.z))
    }

    /// The cross product of `u` and `v`.
    pub open spec fn cross_product<A: Arithmetic>(u: Vector3, v: Vector3, fpu: &A) -> Vector3 {
        Vector3 {
            x: fpu.difference(fpu.product(u.y, v.z), fpu.product(u.z, v.y)),
            y: fpu.difference(fpu.product(u.z, v.x), fpu.product(u.x, v.z)),
            z: fpu.difference(fpu.product(u.x, v.y), fpu.product(u.y, v.x)),
        }
    }

    /// The square of the length of the vector.
    pub open spec fn norm_squared<A: Arithmetic>(self, fpu: &A) -> Scalar {
        Vector3::dot_product(self, self, fpu)
    }

    /// The length of the vector.
    pub open spec fn norm<A: Arithmetic>(self, fpu: &A) -> Scalar {
        fpu.square_root(self.norm_squared(fpu))
    }

    /// The vector divided by its length.
    pub open spec fn normalized<A: Arithmetic>(self, fpu: &A) -> Vector3 {
        Vector3::shrunk(self, self.norm(fpu), fpu)
    }

    /// `v` mirrored at the plane with the normal `n`: `v - 2 * dot(v, n) * n`.
    pub open spec fn reflected<A: Arithmetic>(v: Vector3, n: Vector3, fpu: &A) -> Vector3 {
        Vector3::difference(
            v,
            Vector3::scaled(
                fpu.product(Scalar { bits: 0x4000_0000_0000_0000 }, Vector3::dot_product(v, n, fpu)),
                n,
                fpu,
            ),
            fpu,
        )
    }

    /// The unit vector `uv` bent at the plane with the normal `n`, as
    /// Snell's law has it for the ratio `etai_over_etat` of the two
    /// refractive indices.
    pub open spec fn refracted<A: Arithmetic>(uv: Vector3, n: Vector3, etai_over_etat: Scalar, fpu: &A) -> Vector3 {
        let one = Scalar { bits: 0x3FF0_0000_0000_0000 };
        let cos_theta = Vector3::dot_product(uv.negated(), n, fpu).least(one);
        let r_out_perp = Vector3::scaled(
            etai_over_etat,
            Vector3::sum(uv, Vector3::scaled(cos_theta, n, fpu), fpu),
            fpu,
        );
        let r_out_parallel = Vector3::scaled(
            fpu.square_root(fpu.difference(one, r_out_perp.norm_squared(fpu)).absolute()).negated(),
            n,
            fpu,
        );
        Vector3::sum(r_out_perp, r_out_parallel, fpu)
    }

    /// `self + other`
    pub fn plus<A: Arithmetic>(&self, other: &Vector3, fpu: &A) -> (r: Vector3)
        ensures
            r == Vector3::sum(*self, *other, fpu),
    {
        Vector3 { x: fpu.plus(self.x, other.x), y: fpu.plus(self.y, other.y), z: fpu.plus(self.z, other.z) }
    }

    /// `self - other`
    pub fn minus<A: Arithmetic>(&self, other: &Vector3, fpu: &A) -> (r: Vector3)
        ensures
            r == Vector3::difference(*self, *other, fpu),
    {
        Vector3 {
            x: fpu.minus(self.x, other.x),
            y: fpu.minus(self.y, other.y),
            z: fpu.minus(self.z, other.z),
        }
    }

    /// `self * other`, component by component.
    pub fn times<A: Arithmetic>(&self, other: &Vector3, fpu: &A) -> (r: Vector3)
        ensures
            r == Vector3::product(*self, *other, fpu),
    {
        Vector3 {
            x: fpu.times(self.x, other.x),
            y: fpu.times(self.y, other.y),
            z: fpu.times(self.z, other.z),
        }
    }

    /// `t * v`
    pub fn scale<A: Arithmetic>(t: Scalar, v: &Vector3, fpu: &A) -> (r: Vector3)
        ensures
            r == Vector3::scaled(t, *v, fpu),
    {
        Vector3 { x: fpu.times(t, v.x), y: fpu.times(t, v.y), z: fpu.times(t, v.z) }
    }

    /// `self / t`
    pub fn over<A: Arithmetic>(&self, t: Scalar, fpu: &A) -> (r: Vector3)
        ensures
            r == Vector3::shrunk(*self, t, fpu),
    {
        Vector3::scale(fpu.over(Scalar::one(), t), self, fpu)
    }

    /// `self += other`
    pub fn add_assign<A: Arithmetic>(&mut self, other: &Vector3, fpu: &A)
        ensures
            *final(self) == Vector3::sum(*old(self), *other, fpu),
    {
        self.x = fpu.plus(self.x, other.x);
        self.y = fpu.plus(self.y, other.y);
        self.z = fpu.plus(self.z, other.z);
    }

    /// `self *= t`
    pub fn mul_assign<A: Arithmetic>(&mut self, t: Scalar, fpu: &A)
        ensures
            *final(self) == Vector3::stretched(*old(self), t, fpu),
    {
        self.x = fpu.times(self.x, t);
        self.y = fpu.times(self.y, t);
        self.z = fpu.times(self.z, t);
    }

    /// `self /= t`
    pub fn div_assign<A: Arithmetic>(&mut self, t: Scalar, fpu: &A)
        ensures
            *final(self) == Vector3::stretched(
                *old(self),
                fpu.quotient(Scalar { bits: 0x3FF0_0000_0000_0000 }, t),
                fpu,
            ),
    {
        let inv = fpu.over(Scalar::one(), t);
        self.mul_assign(inv, fpu);
    }

    pub fn length<A: Arithmetic>(&self, fpu: &A) -> (r: Scalar)
        ensures
            r == self.norm(fpu),
    {
        fpu.root(self.length_squared(fpu))
    }

    pub fn length_squared<A: Arithmetic>(&self, fpu: &A) -> (r: Scalar)
        ensures
            r == self.norm_squared(fpu),
    {
        fpu.plus(fpu.plus(fpu.times(self.x, self.x), fpu.times(self.y, self.y)), fpu.times(self.z, self.z))
    }

    pub fn dot<A: Arithmetic>(u: &Vector3, v: &Vector3, fpu: &A) -> (r: Scalar)
        ensures
            r == Vector3::dot_product(*u, *v, fpu),
    {
        fpu.plus(fpu.plus(fpu.times(u.x, v.x), fpu.times(u.y, v.y)), fpu.times(u.z, v.z))
    }

    pub fn cross<A: Arithmetic>(u: &Vector3, v: &Vector3, fpu: &A) -> (r: Vector3)
        ensures
            r == Vector3::cross_product(*u, *v, fpu),
    {
        Vector3 {
            x: fpu.minus(fpu.times(u.y, v.z), fpu.times(u.z, v.y)),
            y: fpu.minus(fpu.times(u.z, v.x), fpu.times(u.x, v.z)),
            z: fpu.minus(fpu.times(u.x, v.y), fpu.times(u.y, v.x)),
        }
    }

    pub fn unit_vector<A: Arithmetic>(&self, fpu: &A) -> (r: Vector3)
        ensures
            r == self.normalized(fpu),
    {
        self.over(self.length(fpu), fpu)
    }

    /// Each component of `v` may be a random number from `min` up to `max`.
    pub open spec fn sampled<A: Chance>(fpu: &A, min: Scalar, max: Scalar, v: Vector3) -> bool {
        draws(fpu, min, max, v.x) && draws(fpu, min, max, v.y) && draws(fpu, min, max, v.z)
    }

    /// The vector is neither too short to be divided by its length nor
    /// longer than 1: the square of its length lies above 1e-160 and is at
    /// most 1.
    pub open spec fn fits_unit_ball<A: Arithmetic>(self, fpu: &A) -> bool {
        (Scalar { bits: TINY_SQUARE_BITS }).below(self.norm_squared(fpu)) && self.norm_squared(fpu).at_most(
            Scalar { bits: 0x3FF0_0000_0000_0000 },
        )
    }

    /// `r` may be a random unit vector: a random vector of the cube
    /// from -1 to 1 that lies in the unit ball, divided by its length. Were
    /// there no such vector in more draws than a `u64` can count, `r` would
    /// be the x axis.
    pub open spec fn unit_vectors<A: Arithmetic + Chance>(fpu: &A, r: Vector3) -> bool {
        exists|p: Vector3|
            #![trigger p.fits_unit_ball(fpu)]
            Vector3::sampled(fpu, Scalar { bits: 0xBFF0_0000_0000_0000 }, Scalar { bits: 0x3FF0_0000_0000_0000 }, p)
                && r == if p.fits_unit_ball(fpu) {
                Vector3::shrunk(p, fpu.square_root(p.norm_squared(fpu)), fpu)
            } else {
                Vector3 { x: Scalar { bits: 0x3FF0_0000_0000_0000 }, y: Scalar { bits: 0 }, z: Scalar { bits: 0 } }
            }
    }

    /// `r` may be a random point of the unit disk: a random point of the
    /// square from -1 to 1 that lies less than 1 from its middle. Were there
    /// no such point in more draws than a `u64` can count, `r` would be the
    /// middle.
    pub open spec fn disk_points<A: Arithmetic + Chance>(fpu: &A, r: Vector3) -> bool {
        let low = Scalar { bits: 0xBFF0_0000_0000_0000 };
        let high = Scalar { bits: 0x3FF0_0000_0000_0000 };
        exists|x: Scalar, y: Scalar|
            #![trigger draws(fpu, low, high, x), draws(fpu, low, high, y)]
            draws(fpu, low, high, x) && draws(fpu, low, high, y) && r == if (Vector3 {
                x,
                y,
                z: Scalar { bits: 0 },
            }).norm_squared(fpu).below(high) {
                Vector3 { x, y, z: Scalar { bits: 0 } }
            } else {
                Vector3::origin()
            }
    }

    /// The unit vector `on_unit_sphere`, turned to the side of the normal.
    pub open spec fn turned_to<A: Arithmetic>(normal: Vector3, on_unit_sphere: Vector3, fpu: &A) -> Vector3 {
        if (Scalar { bits: 0 }).below(Vector3::dot_product(on_unit_sphere, normal, fpu)) {
            on_unit_sphere
        } else {
            on_unit_sphere.negated()
        }
    }

    /// A vector of three random numbers from 0 up to 1.
    pub fn random<A: Chance>(fpu: &A) -> (r: Vector3)
        ensures
            Vector3::sampled(fpu, Scalar { bits: 0 }, Scalar { bits: 0x3FF0_0000_0000_0000 }, r),
    {
        Vector3::random_range(Scalar::zero(), Scalar::one(), fpu)
    }

    /// A vector of three random numbers from `min` up to `max`.
    pub fn random_range<A: Chance>(min: Scalar, max: Scalar, fpu: &A) -> (r: Vector3)
        ensures
            Vector3::sampled(fpu, min, max, r),
    {
        let x = fpu.random_range(min, max);
        let y = fpu.random_range(min, max);
        let z = fpu.random_range(min, max);
        Vector3 { x, y, z }
    }

    /// A random vector of length 1: random vectors of the cube from -1 to 1
    /// are drawn until one lies in the unit ball, and that one is divided by
    /// its length.
    pub fn random_unit_vector<A: Arithmetic + Chance>(fpu: &A) -> (r: Vector3)
        ensures
            Vector3::unit_vectors(fpu, r),
    {
        let mut tries: u64 = 0xFFFF_FFFF_FFFF_FFFF;
        let mut p = Vector3::random_range(Scalar::one().neg(), Scalar::one(), fpu);
        while tries > 0
            invariant
                Vector3::sampled(
                    fpu,
                    Scalar { bits: 0xBFF0_0000_0000_0000 },
                    Scalar { bits: 0x3FF0_0000_0000_0000 },
                    p,
                ),
            decreases tries,
        {
            let lensq = p.length_squared(fpu);
            if Scalar::from_bits(TINY_SQUARE_BITS).lt(lensq) && lensq.le(Scalar::one()) {
                assert(p.fits_unit_ball(fpu));
                return p.over(fpu.root(lensq), fpu);
            }
            p = Vector3::random_range(Scalar::one().neg(), Scalar::one(), fpu);
            tries = tries - 1;
        }
        let lensq = p.length_squared(fpu);
        if Scalar::from_bits(TINY_SQUARE_BITS).lt(lensq) && lensq.le(Scalar::one()) {
            assert(p.fits_unit_ball(fpu));
            p.over(fpu.root(lensq), fpu)
        } else {
            assert(!p.fits_unit_ball(fpu));
            Vector3::new(Scalar::one(), Scalar::zero(), Scalar::zero())
        }
    }

    /// A random unit vector on the side of the normal.
    pub fn random_on_hemisphere<A: Arithmetic + Chance>(normal: &Vector3, fpu: &A) -> (r: Vector3)
        ensures
            exists|on_unit_sphere: Vector3|
                #![trigger Vector3::turned_to(*normal, on_unit_sphere, fpu)]
                Vector3::unit_vectors(fpu, on_unit_sphere) && r == Vector3::turned_to(*normal, on_unit_sphere, fpu),
    {
        let on_unit_sphere = Vector3::random_unit_vector(fpu);
        let r = if Vector3::dot(&on_unit_sphere, normal, fpu).gt(Scalar::zero()) {
            on_unit_sphere
        } else {
            on_unit_sphere.neg()
        };
        assert(r == Vector3::turned_to(*normal, on_unit_sphere, fpu));
        r
    }

    /// A random point of the unit disk in the plane of x and y: random
    /// points of the square from -1 to 1 are drawn until one lies in the
    /// disk.
    pub fn random_in_unit_disk<A: Arithmetic + Chance>(fpu: &A) -> (r: Vector3)
        ensures
            Vector3::disk_points(fpu, r),
    {
        let minus_one = Scalar::one().neg();
        let mut tries: u64 = 0xFFFF_FFFF_FFFF_FFFF;
        let mut x = fpu.random_range(minus_one, Scalar::one());
        let mut y = fpu.random_range(minus_one, Scalar::one());
        while tries > 0
            invariant
                minus_one == (Scalar { bits: 0xBFF0_0000_0000_0000 }),
                draws(fpu, Scalar { bits: 0xBFF0_0000_0000_0000 }, Scalar { bits: 0x3FF0_0000_0000_0000 }, x),
                draws(fpu, Scalar { bits: 0xBFF0_0000_0000_0000 }, Scalar { bits: 0x3FF0_0000_0000_0000 }, y),
            decreases tries,
        {
            let p = Vector3::new(x, y, Scalar::zero());
            if p.length_squared(fpu).lt(Scalar::one()) {
                return p;
            }
            x = fpu.random_range(minus_one, Scalar::one());
            y = fpu.random_range(minus_one, Scalar::one());
            tries = tries - 1;
        }
        let p = Vector3::new(x, y, Scalar::zero());
        if p.length_squared(fpu).lt(Scalar::one()) {
            p
        } else {
            Vector3::zero()
        }
    }

    pub fn reflect<A: Arithmetic>(v: &Vector3, n: &Vector3, fpu: &A) -> (r: Vector3)
        ensures
            r == Vector3::reflected(*v, *n, fpu),
    {
        v.minus(&Vector3::scale(fpu.times(Scalar::two(), Vector3::dot(v, n, fpu)), n, fpu), fpu)
    }

    pub fn refract<A: Arithmetic>(uv: &Vector3, n: &Vector3, etai_over_etat: Scalar, fpu: &A) -> (r: Vector3)
        ensures
            r == Vector3::refracted(*uv, *n, etai_over_etat, fpu),
    {
        let cos_theta = Vector3::dot(&uv.neg(), n, fpu).min(Scalar::one());
        let r_out_perp = Vector3::scale(etai_over_etat, &uv.plus(&Vector3::scale(cos_theta, n, fpu), fpu), fpu);
        let r_out_parallel = Vector3::scale(
            fpu.root(fpu.minus(Scalar::one(), r_out_perp.length_squared(fpu)).abs()).neg(),
            n,
            fpu,
        );
        r_out_perp.plus(&r_out_parallel, fpu)
    }
}

} // verus!
