//! A medium of constant density, such as smoke, that fills a boundary and
//! scatters a ray somewhere along its way through.

use crate::aabb::AABB;
use crate::hittable::{answers, boxes, Bounded, HitRecord, Hittable};
use crate::interval::Interval;
use crate::ray::Ray;
use crate::scalar::{draws, logs, Arithmetic, Chance, Functions, Scalar, INFINITY_BITS};
use crate::vector::Vector3;
use vstd::prelude::*;

verus! {

/// The bits of 0.0001: the way out of the boundary is looked for this far
/// behind the way in.
pub const STEP_OVER_BITS: u64 = 0x3F1A_36E2_EB1C_432D;

/// The bits of -1.0.
pub const MINUS_ONE_BITS: u64 = 0xBFF0_0000_0000_0000;

/// The medium inside `boundary`.
pub struct ConstantMedium<B> {
    pub boundary: B,
    /// Minus one over the density.
    pub neg_inv_density: Scalar,
    /// The material of the scene that scatters in every direction.
    pub phase_function: Option<usize>,
}

/// The interval that holds every number.
pub open spec fn everywhere() -> Interval {
    Interval { min: Scalar { bits: 0xFFF0_0000_0000_0000 }, max: Scalar { bits: INFINITY_BITS } }
}

/// The interval from just behind the parameter `t` to infinity.
pub open spec fn beyond<A: Arithmetic>(t: Scalar, fpu: &A) -> Interval {
    Interval { min: fpu.sum(t, Scalar { bits: STEP_OVER_BITS }), max: Scalar { bits: INFINITY_BITS } }
}

/// The stretch of the ray inside the boundary, cut down to the search
/// interval `t`: from the way in, `entry`, or the start of `t` where that is
/// later, to the way out, `exit`, or the end of `t` where that is earlier.
/// There is none where the stretch is empty. A stretch that starts behind
/// the origin of the ray is cut at the origin.
pub open spec fn stretch(t: Interval, entry: Scalar, exit: Scalar) -> Option<(Scalar, Scalar)> {
    let from = if entry.below(t.min) { t.min } else { entry };
    let to = if t.max.below(exit) { t.max } else { exit };
    if to.at_most(from) {
        None
    } else if from.below(Scalar { bits: 0 }) {
        Some((Scalar { bits: 0 }, to))
    } else {
        Some((from, to))
    }
}

/// The length of the direction of the ray.
pub open spec fn ray_length<A: Arithmetic>(ray: Ray, fpu: &A) -> Scalar {
    ray.direction.norm(fpu)
}

impl<B> ConstantMedium<B> {
    /// How far into the medium the ray is scattered: minus the logarithm of
    /// a random number, over the density.
    pub open spec fn reach<A: Arithmetic>(&self, log_of_draw: Scalar, fpu: &A) -> Scalar {
        fpu.product(self.neg_inv_density, log_of_draw)
    }

    /// What the medium does to a ray on its stretch from `from` to `to`: it
    /// lets the ray through where the stretch is shorter than the ray
    /// reaches; elsewhere it scatters the ray where its reach ends.
    pub open spec fn scattering_within<A: Arithmetic>(
        &self,
        ray: Ray,
        from: Scalar,
        to: Scalar,
        log_of_draw: Scalar,
        fpu: &A,
    ) -> Option<HitRecord> {
        let length = ray_length(ray, fpu);
        let inside = fpu.product(fpu.difference(to, from), length);
        let reach = self.reach(log_of_draw, fpu);
        if inside.below(reach) {
            None
        } else {
            let at = fpu.sum(from, fpu.quotient(reach, length));
            Some(
                HitRecord {
                    p: ray.point_at(at, fpu),
                    normal: Vector3 {
                        x: Scalar { bits: 0x3FF0_0000_0000_0000 },
                        y: Scalar { bits: 0 },
                        z: Scalar { bits: 0 },
                    },
                    t: at,
                    u: Scalar { bits: 0 },
                    v: Scalar { bits: 0 },
                    front_face: true,
                    mat: self.phase_function,
                },
            )
        }
    }

    /// What the medium does to a ray whose stretch inside the boundary runs
    /// from `entry` to `exit`: it lets the ray through where the stretch
    /// within `t` is empty, or shorter than the ray reaches; elsewhere it
    /// scatters the ray where its reach ends.
    pub open spec fn scattering<A: Arithmetic>(
        &self,
        ray: Ray,
        t: Interval,
        entry: Scalar,
        exit: Scalar,
        log_of_draw: Scalar,
        fpu: &A,
    ) -> Option<HitRecord> {
        match stretch(t, entry, exit) {
            None => None,
            Some((from, to)) => self.scattering_within(ray, from, to, log_of_draw, fpu),
        }
    }

    /// `out` is what the medium may do to a ray on its stretch from `from`
    /// to `to`, whatever it draws: a random number between 0 and 1 is drawn,
    /// and its logarithm says how far the ray reaches.
    pub open spec fn fate<A: Arithmetic + Functions + Chance>(
        &self,
        ray: &Ray,
        from: Scalar,
        to: Scalar,
        fpu: &A,
        out: Option<HitRecord>,
    ) -> bool {
        exists|draw: Scalar, log_of_draw: Scalar|
            #![trigger logs(fpu, draw, log_of_draw)]
            {
                &&& draws(fpu, Scalar { bits: 0 }, Scalar { bits: 0x3FF0_0000_0000_0000 }, draw)
                &&& logs(fpu, draw, log_of_draw)
                &&& out == self.scattering_within(*ray, from, to, log_of_draw, fpu)
            }
    }

    /// `out` is what the medium may do to the ray, given what the boundary
    /// answered: nothing where the boundary gave no way in or no way out,
    /// or where the stretch between them and within `t` is empty.
    pub open spec fn crossing<A: Arithmetic + Functions + Chance>(
        &self,
        ray: &Ray,
        t: Interval,
        fpu: &A,
        first: Option<HitRecord>,
        second: Option<HitRecord>,
        out: Option<HitRecord>,
    ) -> bool {
        match (first, second) {
            (Some(rec1), Some(rec2)) => match stretch(t, rec1.t, rec2.t) {
                None => out is None,
                Some((from, to)) => self.fate(ray, from, to, fpu, out),
            },
            _ => out is None,
        }
    }

    /// `out` is what the medium may do to the ray, whatever it draws: the
    /// boundary is asked for the way in, anywhere along the ray, and then
    /// for the way out behind it.
    pub open spec fn chance<A: Arithmetic + Functions + Chance>(
        &self,
        ray: &Ray,
        t: Interval,
        fpu: &A,
        out: Option<HitRecord>,
    ) -> bool where B: Hittable<A> {
        exists|first: Option<HitRecord>, second: Option<HitRecord>|
            #![trigger self.crossing(ray, t, fpu, first, second, out)]
            {
                &&& answers(&self.boundary, ray, everywhere(), fpu, first)
                &&& first matches Some(rec1) ==> answers(&self.boundary, ray, beyond(rec1.t, fpu), fpu, second)
                &&& self.crossing(ray, t, fpu, first, second, out)
            }
    }

    /// `out` is what the medium may do to the ray: the boundary is asked for
    /// the way in, anywhere along the ray, and then for the way out behind
    /// it. Where it gives either none, the ray passes.
    pub open spec fn outcome<A: Arithmetic>(
        &self,
        ray: &Ray,
        t: Interval,
        log_of_draw: Scalar,
        fpu: &A,
        out: Option<HitRecord>,
    ) -> bool where B: Hittable<A> {
        exists|first: Option<HitRecord>, second: Option<HitRecord>|
            #![trigger answers(&self.boundary, ray, everywhere(), fpu, first), self.passage(ray, t, log_of_draw, fpu, first, second)]
            {
                &&& answers(&self.boundary, ray, everywhere(), fpu, first)
                &&& first matches Some(rec1) ==> answers(&self.boundary, ray, beyond(rec1.t, fpu), fpu, second)
                &&& out == self.passage(ray, t, log_of_draw, fpu, first, second)
            }
    }

    /// What the medium does, given what the boundary answered.
    pub open spec fn passage<A: Arithmetic>(
        &self,
        ray: &Ray,
        t: Interval,
        log_of_draw: Scalar,
        fpu: &A,
        first: Option<HitRecord>,
        second: Option<HitRecord>,
    ) -> Option<HitRecord> {
        match (first, second) {
            (Some(rec1), Some(rec2)) => self.scattering(*ray, t, rec1.t, rec2.t, log_of_draw, fpu),
            _ => None,
        }
    }

    /// The medium of the given density inside the boundary.
    pub fn new<A: Arithmetic>(boundary: B, density: Scalar, phase_function: Option<usize>, fpu: &A) -> (r:
        Self)
        ensures
            r.boundary == boundary,
            r.neg_inv_density == fpu.quotient(Scalar { bits: MINUS_ONE_BITS }, density),
            r.phase_function == phase_function,
    {
        Self {
            boundary,
            neg_inv_density: fpu.over(Scalar::from_bits(MINUS_ONE_BITS), density),
            phase_function,
        }
    }

    /// The stretch of the ray inside the boundary and within `t`.
    pub fn stretch_of(t: Interval, entry: Scalar, exit: Scalar) -> (r: Option<(Scalar, Scalar)>)
        ensures
            r == stretch(t, entry, exit),
    {
        let mut from = entry;
        let mut to = exit;
        if from.lt(t.min) {
            from = t.min;
        }
        if to.gt(t.max) {
            to = t.max;
        }
        if from.ge(to) {
            return None;
        }
        if from.lt(Scalar::zero()) {
            from = Scalar::zero();
        }
        Some((from, to))
    }

    /// What the medium does to a ray on its stretch from `from` to `to`,
    /// for a given draw.
    pub fn scatter_within<A: Arithmetic>(&self, ray: &Ray, from: Scalar, to: Scalar, log_of_draw: Scalar, fpu: &A) -> (out:
        Option<HitRecord>)
        ensures
            out == self.scattering_within(*ray, from, to, log_of_draw, fpu),
    {
        let direction = ray.get_direction();
        let length = direction.length(fpu);
        let distance_inside_boundary = fpu.times(fpu.minus(to, from), length);
        let hit_distance = fpu.times(self.neg_inv_density, log_of_draw);
        if hit_distance.gt(distance_inside_boundary) {
            return None;
        }
        let at = fpu.plus(from, fpu.over(hit_distance, length));
        Some(
            HitRecord {
                p: ray.at(at, fpu),
                normal: Vector3::new(Scalar::one(), Scalar::zero(), Scalar::zero()),
                t: at,
                u: Scalar::zero(),
                v: Scalar::zero(),
                front_face: true,
                mat: self.phase_function,
            },
        )
    }

    /// What the medium does to a ray that enters the boundary at `entry`
    /// and leaves it at `exit`, for a given draw: `log_of_draw` is the
    /// natural logarithm of a random number between 0 and 1.
    pub fn scatter_between<A: Arithmetic>(
        &self,
        ray: &Ray,
        t: Interval,
        entry: Scalar,
        exit: Scalar,
        log_of_draw: Scalar,
        fpu: &A,
    ) -> (out: Option<HitRecord>)
        ensures
            out == self.scattering(*ray, t, entry, exit, log_of_draw, fpu),
    {
        match Self::stretch_of(t, entry, exit) {
            None => None,
            Some((from, to)) => self.scatter_within(ray, from, to, log_of_draw, fpu),
        }
    }

    /// Asks the medium for a hit of the ray within `t`, for a given draw:
    /// `log_of_draw` is the natural logarithm of a random number between 0
    /// and 1.
    pub fn hit_with<A: Arithmetic>(&self, ray: &Ray, t: Interval, log_of_draw: Scalar, fpu: &A) -> (out: Option<
        HitRecord,
    >) where B: Hittable<A>
        ensures
            self.outcome(ray, t, log_of_draw, fpu, out),
    {
        let first = self.boundary.hit(ray, Interval::universe(), fpu);
        assert(answers(&self.boundary, ray, everywhere(), fpu, first));
        let rec1 = match first {
            None => {
                assert(self.passage(ray, t, log_of_draw, fpu, first, None) is None);
                return None;
            },
            Some(rec1) => rec1,
        };
        let after = Interval::new(fpu.plus(rec1.t, Scalar::from_bits(STEP_OVER_BITS)), Scalar::infinity());
        let second = self.boundary.hit(ray, after, fpu);
        let out = match second {
            None => None,
            Some(rec2) => self.scatter_between(ray, t, rec1.t, rec2.t, log_of_draw, fpu),
        };
        assert(out == self.passage(ray, t, log_of_draw, fpu, first, second));
        out
    }

}

impl<A: Arithmetic + Functions + Chance, B: Hittable<A>> Hittable<A> for ConstantMedium<B> {
    /// Asks the medium for a hit of the ray within `t`, and draws for it
    /// where the ray has a stretch in the medium.
    fn hit(&self, ray: &Ray, t: Interval, fpu: &A) -> (out: Option<HitRecord>)
        ensures
            self.chance(ray, t, fpu, out),
    {
        let first = self.boundary.hit(ray, Interval::universe(), fpu);
        let rec1 = match first {
            None => {
                assert(self.crossing(ray, t, fpu, first, None, None));
                return None;
            },
            Some(rec1) => rec1,
        };
        let after = Interval::new(fpu.plus(rec1.t, Scalar::from_bits(STEP_OVER_BITS)), Scalar::infinity());
        let second = self.boundary.hit(ray, after, fpu);
        let rec2 = match second {
            None => {
                assert(self.crossing(ray, t, fpu, first, second, None));
                return None;
            },
            Some(rec2) => rec2,
        };
        let (from, to) = match Self::stretch_of(t, rec1.t, rec2.t) {
            None => {
                assert(self.crossing(ray, t, fpu, first, second, None));
                return None;
            },
            Some(ends) => ends,
        };
        let draw = fpu.random_range(Scalar::zero(), Scalar::one());
        let log_of_draw = fpu.ln(draw);
        assert(logs(fpu, draw, log_of_draw));
        let out = self.scatter_within(ray, from, to, log_of_draw, fpu);
        assert(self.crossing(ray, t, fpu, first, second, out));
        out
    }
}

impl<B: Bounded> Bounded for ConstantMedium<B> {
    /// The box of the medium: that of its boundary.
    fn bbox(&self) -> (r: &AABB)
        ensures
            boxes::<B>(&self.boundary, *r),
    {
        self.boundary.bbox()
    }
}

} // verus!
