//! Materials: what becomes of a ray at a surface, and what light the surface
//! gives off itself.

use crate::hittable::HitRecord;
use crate::ray::Ray;
use crate::scalar::{draws, powers, Arithmetic, Chance, Functions, Scalar};
use crate::texture::{colours, SolidTexture, Texture};
use crate::vector::{Color, Point3, Vector3};
use vstd::prelude::*;

verus! {

/// A material scatters a ray that hit it, or absorbs it.
///
/// `scatter` returns the attenuation and the ray that goes on, or `None`
/// where the ray is absorbed. `emitted` returns the radiance that the
/// material gives off; one that does not say otherwise gives off none.
pub trait Material<A: Arithmetic> {
    fn scatter(&self, ray_in: &Ray, hit_record: &HitRecord, fpu: &A) -> Option<(Color, Ray)>;

    fn emitted(&self, u: Scalar, v: Scalar, p: &Point3, fpu: &A) -> (out: Color)
        default_ensures
            out == Vector3::origin(),
    {
        Vector3::zero()
    }
}

/// `scatter` of the material, asked with these arguments, may return `out`.
pub open spec fn scatters<A: Arithmetic, M: Material<A>>(
    material: &M,
    ray_in: &Ray,
    hit_record: &HitRecord,
    fpu: &A,
    out: Option<(Color, Ray)>,
) -> bool {
    call_ensures(M::scatter, (material, ray_in, hit_record, fpu), out)
}

/// `emitted` of the material, asked with these arguments, may return `out`.
pub open spec fn emits<A: Arithmetic, M: Material<A>>(
    material: &M,
    u: Scalar,
    v: Scalar,
    p: &Point3,
    fpu: &A,
    out: Color,
) -> bool {
    call_ensures(M::emitted, (material, u, v, p, fpu), out)
}

/// The material of a hit record that no surface has filled in: it absorbs
/// every ray and gives off no light.
pub struct DefaultMaterial;

impl DefaultMaterial {
    pub fn new() -> Self {
        Self {  }
    }
}

impl<A: Arithmetic> Material<A> for DefaultMaterial {
    fn scatter(&self, ray_in: &Ray, hit_record: &HitRecord, fpu: &A) -> (out: Option<(Color, Ray)>)
        ensures
            out is None,
    {
        None
    }

    fn emitted(&self, u: Scalar, v: Scalar, p: &Point3, fpu: &A) -> (out: Color)
        ensures
            out == Vector3::origin(),
    {
        Vector3::zero()
    }
}

/// A light: it absorbs every ray and gives off the colour of its texture.
pub struct DiffuseLight<T> {
    pub texture: T,
}

impl<T> DiffuseLight<T> {
    pub fn new(texture: T) -> (r: Self)
        ensures
            r.texture == texture,
    {
        Self { texture }
    }
}

impl DiffuseLight<SolidTexture> {
    /// The light of one colour.
    pub fn from_color(color: Color) -> (r: Self)
        ensures
            r.texture.albedo == color,
    {
        Self { texture: SolidTexture::new(color) }
    }
}

impl<A: Arithmetic, T: Texture<A>> Material<A> for DiffuseLight<T> {
    fn scatter(&self, ray_in: &Ray, hit_record: &HitRecord, fpu: &A) -> (out: Option<(Color, Ray)>)
        ensures
            out is None,
    {
        None
    }

    fn emitted(&self, u: Scalar, v: Scalar, p: &Point3, fpu: &A) -> (out: Color)
        ensures
            colours(&self.texture, u, v, p, fpu, out),
    {
        self.texture.value(u, v, p, fpu)
    }
}

/// A matt surface: it scatters a ray into a direction near its normal.
pub struct Lambertian<T> {
    pub tex: T,
}

impl Lambertian<SolidTexture> {
    /// The matt surface of one colour.
    pub fn new(albedo: Color) -> (r: Self)
        ensures
            r.tex.albedo == albedo,
    {
        Self { tex: SolidTexture::new(albedo) }
    }
}

impl<T> Lambertian<T> {
    pub fn new_texture(tex: T) -> (r: Self)
        ensures
            r.tex == tex,
    {
        Self { tex }
    }

    /// The direction into which the surface scatters: the normal plus a
    /// random unit vector, or the normal alone where the two all but cancel.
    pub open spec fn direction<A: Arithmetic>(normal: Vector3, unit: Vector3, fpu: &A) -> Vector3 {
        if Vector3::sum(normal, unit, fpu).tiny() {
            normal
        } else {
            Vector3::sum(normal, unit, fpu)
        }
    }

    /// Scatters a ray at the hit, given a random unit vector: the ray goes
    /// on from the point of the hit, attenuated by the colour of the
    /// texture there.
    pub fn scatter_with<A: Arithmetic>(&self, hit_record: &HitRecord, unit: &Vector3, fpu: &A) -> (out: (
        Color,
        Ray,
    )) where T: Texture<A>
        ensures
            out.1.origin == hit_record.p,
            out.1.direction == Self::direction(hit_record.normal, *unit, fpu),
            colours(&self.tex, hit_record.u, hit_record.v, &hit_record.p, fpu, out.0),
    {
        let mut scatter_direction = hit_record.normal.plus(unit, fpu);
        if scatter_direction.near_zero() {
            scatter_direction = hit_record.normal;
        }
        let scattered = Ray::new(hit_record.p, scatter_direction);
        let attenuation = self.tex.value(hit_record.u, hit_record.v, &hit_record.p, fpu);
        (attenuation, scattered)
    }
}

impl<A: Arithmetic + Chance, T: Texture<A>> Material<A> for Lambertian<T> {
    /// Scatters the ray about the normal, with a random unit vector.
    fn scatter(&self, ray_in: &Ray, hit_record: &HitRecord, fpu: &A) -> (out: Option<(Color, Ray)>)
        ensures
            out is Some,
            out->Some_0.1.origin == hit_record.p,
            colours(&self.tex, hit_record.u, hit_record.v, &hit_record.p, fpu, out->Some_0.0),
            exists|unit: Vector3|
                #![trigger Self::direction(hit_record.normal, unit, fpu)]
                Vector3::unit_vectors(fpu, unit) && out->Some_0.1.direction == Self::direction(
                    hit_record.normal,
                    unit,
                    fpu,
                ),
    {
        let unit = Vector3::random_unit_vector(fpu);
        let out = self.scatter_with(hit_record, &unit, fpu);
        Some(out)
    }
}

/// A mirror, more or less rough.
pub struct Metal {
    pub albedo: Color,
    /// How far a reflected ray may stray.
    pub fuzz: Scalar,
}

impl Metal {
    pub fn new(albedo: Color, fuzz: Scalar) -> (r: Self)
        ensures
            r.albedo == albedo,
            r.fuzz == fuzz,
    {
        Self { albedo, fuzz }
    }

    /// The direction of the reflected ray: the mirrored direction, of
    /// length one, plus the random unit vector times the roughness.
    pub open spec fn direction<A: Arithmetic>(&self, incoming: Vector3, normal: Vector3, unit: Vector3, fpu: &A) -> Vector3 {
        Vector3::sum(
            Vector3::reflected(incoming, normal, fpu).normalized(fpu),
            Vector3::scaled(self.fuzz, unit, fpu),
            fpu,
        )
    }

    /// Reflects a ray at the hit, given a random unit vector. A ray that
    /// would go on into the surface is absorbed.
    pub fn scatter_with<A: Arithmetic>(&self, ray_in: &Ray, hit_record: &HitRecord, unit: &Vector3, fpu: &A) -> (out:
        Option<(Color, Ray)>)
        ensures
            out is Some <==> (Scalar { bits: 0 }).below(
                Vector3::dot_product(
                    self.direction(ray_in.direction, hit_record.normal, *unit, fpu),
                    hit_record.normal,
                    fpu,
                ),
            ),
            out matches Some((attenuation, scattered)) ==> attenuation == self.albedo && scattered.origin
                == hit_record.p && scattered.direction == self.direction(
                ray_in.direction,
                hit_record.normal,
                *unit,
                fpu,
            ),
    {
        let mut reflected = Vector3::reflect(&ray_in.get_direction(), &hit_record.normal, fpu);
        reflected = reflected.unit_vector(fpu).plus(&Vector3::scale(self.fuzz, unit, fpu), fpu);
        let scattered = Ray::new(hit_record.p, reflected);
        if Vector3::dot(&reflected, &hit_record.normal, fpu).gt(Scalar::zero()) {
            Some((self.albedo, scattered))
        } else {
            None
        }
    }
}

impl<A: Arithmetic + Chance> Material<A> for Metal {
    /// Reflects the ray, with a random unit vector for its roughness.
    fn scatter(&self, ray_in: &Ray, hit_record: &HitRecord, fpu: &A) -> (out: Option<(Color, Ray)>)
        ensures
            exists|unit: Vector3|
                #![trigger self.direction(ray_in.direction, hit_record.normal, unit, fpu)]
                {
                    &&& Vector3::unit_vectors(fpu, unit)
                    &&& out is Some <==> (Scalar { bits: 0 }).below(
                        Vector3::dot_product(
                            self.direction(ray_in.direction, hit_record.normal, unit, fpu),
                            hit_record.normal,
                            fpu,
                        ),
                    )
                    &&& out matches Some((attenuation, scattered)) ==> attenuation == self.albedo
                        && scattered.origin == hit_record.p && scattered.direction == self.direction(
                        ray_in.direction,
                        hit_record.normal,
                        unit,
                        fpu,
                    )
                },
    {
        let unit = Vector3::random_unit_vector(fpu);
        let out = self.scatter_with(ray_in, hit_record, &unit, fpu);
        assert(out is Some <==> (Scalar { bits: 0 }).below(
            Vector3::dot_product(
                self.direction(ray_in.direction, hit_record.normal, unit, fpu),
                hit_record.normal,
                fpu,
            ),
        ));
        out
    }
}

/// The bits of 5.0.
pub const FIVE_BITS: u64 = 0x4014_0000_0000_0000;

/// Glass and the like: a surface that lets light through and bends it.
pub struct Dielectric {
    /// The refractive index.
    pub ir: Scalar,
}

impl Dielectric {
    pub fn new(index_of_refraction: Scalar) -> (r: Self)
        ensures
            r.ir == index_of_refraction,
    {
        Self { ir: index_of_refraction }
    }

    /// How much of the light is reflected, after Schlick:
    /// `r0 + (1 - r0) * (1 - cosine)^5` with `r0 = ((1 - n) / (1 + n))^2`,
    /// where `fifth` is the fifth power.
    pub open spec fn schlick<A: Arithmetic>(refraction_index: Scalar, fifth: Scalar, fpu: &A) -> Scalar {
        let one = Scalar { bits: 0x3FF0_0000_0000_0000 };
        let root = fpu.quotient(fpu.difference(one, refraction_index), fpu.sum(one, refraction_index));
        let r0 = fpu.product(root, root);
        fpu.sum(r0, fpu.product(fpu.difference(one, r0), fifth))
    }

    /// The ratio of the refractive indices on the two sides of the surface,
    /// as the ray crosses it.
    pub open spec fn ratio<A: Arithmetic>(&self, front_face: bool, fpu: &A) -> Scalar {
        if front_face {
            fpu.quotient(Scalar { bits: 0x3FF0_0000_0000_0000 }, self.ir)
        } else {
            self.ir
        }
    }

    /// The cosine of the angle between the ray and the normal, at most 1.
    pub open spec fn cosine<A: Arithmetic>(incoming: Vector3, rec: HitRecord, fpu: &A) -> Scalar {
        Vector3::dot_product(incoming.normalized(fpu).negated(), rec.normal, fpu).least(
            Scalar { bits: 0x3FF0_0000_0000_0000 },
        )
    }

    /// Whether Snell's law has no solution, so that the ray can only be
    /// reflected: the ratio of the indices times the sine of the angle is
    /// greater than 1.
    pub open spec fn cannot_refract<A: Arithmetic>(&self, incoming: Vector3, rec: HitRecord, fpu: &A) -> bool {
        let one = Scalar { bits: 0x3FF0_0000_0000_0000 };
        let cos_theta = Self::cosine(incoming, rec, fpu);
        let sin_theta = fpu.square_root(fpu.difference(one, fpu.product(cos_theta, cos_theta)));
        one.below(fpu.product(self.ratio(rec.front_face, fpu), sin_theta))
    }

    /// The direction in which a ray goes on that is reflected.
    pub open spec fn mirrored<A: Arithmetic>(incoming: Vector3, rec: HitRecord, fpu: &A) -> Vector3 {
        Vector3::reflected(incoming.normalized(fpu), rec.normal, fpu)
    }

    /// The direction in which a ray goes on that passes the surface.
    pub open spec fn bent<A: Arithmetic>(&self, incoming: Vector3, rec: HitRecord, fpu: &A) -> Vector3 {
        Vector3::refracted(incoming.normalized(fpu), rec.normal, self.ratio(rec.front_face, fpu), fpu)
    }

    /// The direction in which the ray goes on, where Snell's law has a
    /// solution and `fifth` is the fifth power of one minus the cosine: the
    /// ray is reflected where the share of light that is reflected is
    /// greater than the random number `draw`, and bent otherwise.
    pub open spec fn direction<A: Arithmetic>(
        &self,
        incoming: Vector3,
        rec: HitRecord,
        draw: Scalar,
        fifth: Scalar,
        fpu: &A,
    ) -> Vector3 {
        if draw.below(Self::schlick(self.ratio(rec.front_face, fpu), fifth, fpu)) {
            Self::mirrored(incoming, rec, fpu)
        } else {
            self.bent(incoming, rec, fpu)
        }
    }

    /// `out` is a direction in which the ray may go on, for the random
    /// number `draw`: mirrored where Snell's law has no solution, and
    /// else mirrored or bent, as the share of light that is reflected and
    /// `draw` have it.
    pub open spec fn onward<A: Arithmetic + Functions>(
        &self,
        incoming: Vector3,
        rec: HitRecord,
        draw: Scalar,
        fpu: &A,
        out: Vector3,
    ) -> bool {
        if self.cannot_refract(incoming, rec, fpu) {
            out == Self::mirrored(incoming, rec, fpu)
        } else {
            exists|fifth: Scalar|
                #![trigger self.direction(incoming, rec, draw, fifth, fpu)]
                powers(
                    fpu,
                    fpu.difference(Scalar { bits: 0x3FF0_0000_0000_0000 }, Self::cosine(incoming, rec, fpu)),
                    Scalar { bits: FIVE_BITS },
                    fifth,
                ) && out == self.direction(incoming, rec, draw, fifth, fpu)
        }
    }

    fn reflectance<A: Arithmetic + Functions>(cosine: Scalar, refraction_index: Scalar, fpu: &A) -> (r: (
        Scalar,
        Ghost<Scalar>,
    ))
        ensures
            powers(
                fpu,
                fpu.difference(Scalar { bits: 0x3FF0_0000_0000_0000 }, cosine),
                Scalar { bits: FIVE_BITS },
                r.1@,
            ),
            r.0 == Self::schlick(refraction_index, r.1@, fpu),
    {
        let r0 = fpu.over(fpu.minus(Scalar::one(), refraction_index), fpu.plus(Scalar::one(), refraction_index));
        let r0 = fpu.times(r0, r0);
        let fifth = fpu.powf(fpu.minus(Scalar::one(), cosine), Scalar::from_bits(FIVE_BITS));
        (fpu.plus(r0, fpu.times(fpu.minus(Scalar::one(), r0), fifth)), Ghost(fifth))
    }

    /// Whether Snell's law has no solution for the ray at the hit.
    fn stopped<A: Arithmetic>(&self, ray_in: &Ray, hit_record: &HitRecord, fpu: &A) -> (r: (bool, Scalar, Scalar, Vector3))
        ensures
            r.0 == self.cannot_refract(ray_in.direction, *hit_record, fpu),
            r.1 == Self::cosine(ray_in.direction, *hit_record, fpu),
            r.2 == self.ratio(hit_record.front_face, fpu),
            r.3 == ray_in.direction.normalized(fpu),
    {
        let ir = if hit_record.front_face {
            fpu.over(Scalar::one(), self.ir)
        } else {
            self.ir
        };
        let unit_direction = ray_in.get_direction().unit_vector(fpu);
        let cos_theta = Vector3::dot(&unit_direction.neg(), &hit_record.normal, fpu).min(Scalar::one());
        let sin_theta = fpu.root(fpu.minus(Scalar::one(), fpu.times(cos_theta, cos_theta)));
        (fpu.times(ir, sin_theta).gt(Scalar::one()), cos_theta, ir, unit_direction)
    }

    /// Sends a ray on through the surface or back from it, given a random
    /// number `draw` between 0 and 1. No light is lost.
    pub fn scatter_with<A: Arithmetic + Functions>(&self, ray_in: &Ray, hit_record: &HitRecord, draw: Scalar, fpu: &A) -> (out: (
        Color,
        Ray,
    ))
        ensures
            out.0 == Vector3::white(),
            out.1.origin == hit_record.p,
            self.onward(ray_in.direction, *hit_record, draw, fpu, out.1.direction),
    {
        let attenuation = Vector3::new(Scalar::one(), Scalar::one(), Scalar::one());
        let (cannot_refract, cos_theta, ir, unit_direction) = self.stopped(ray_in, hit_record, fpu);
        let direction = if cannot_refract {
            Vector3::reflect(&unit_direction, &hit_record.normal, fpu)
        } else {
            let (reflectance, Ghost(fifth)) = Dielectric::reflectance(cos_theta, ir, fpu);
            let direction = if reflectance.gt(draw) {
                Vector3::reflect(&unit_direction, &hit_record.normal, fpu)
            } else {
                Vector3::refract(&unit_direction, &hit_record.normal, ir, fpu)
            };
            assert(direction == self.direction(ray_in.direction, *hit_record, draw, fifth, fpu));
            direction
        };
        (attenuation, Ray::new(hit_record.p, direction))
    }
}

impl<A: Arithmetic + Functions + Chance> Material<A> for Dielectric {
    /// Sends the ray on through the surface or back from it. A random
    /// number between 0 and 1 is drawn where Snell's law has a solution.
    fn scatter(&self, ray_in: &Ray, hit_record: &HitRecord, fpu: &A) -> (out: Option<(Color, Ray)>)
        ensures
            out is Some,
            out->Some_0.0 == Vector3::white(),
            out->Some_0.1.origin == hit_record.p,
            exists|draw: Scalar|
                #![trigger self.onward(ray_in.direction, *hit_record, draw, fpu, out->Some_0.1.direction)]
                (self.cannot_refract(ray_in.direction, *hit_record, fpu) || draws(
                    fpu,
                    Scalar { bits: 0 },
                    Scalar { bits: 0x3FF0_0000_0000_0000 },
                    draw,
                )) && self.onward(ray_in.direction, *hit_record, draw, fpu, out->Some_0.1.direction),
    {
        let attenuation = Vector3::new(Scalar::one(), Scalar::one(), Scalar::one());
        let (cannot_refract, cos_theta, ir, unit_direction) = self.stopped(ray_in, hit_record, fpu);
        let direction = if cannot_refract {
            let direction = Vector3::reflect(&unit_direction, &hit_record.normal, fpu);
            assert(self.onward(ray_in.direction, *hit_record, Scalar { bits: 0 }, fpu, direction));
            direction
        } else {
            let (reflectance, Ghost(fifth)) = Dielectric::reflectance(cos_theta, ir, fpu);
            let draw = fpu.random_range(Scalar::zero(), Scalar::one());
            let direction = if reflectance.gt(draw) {
                Vector3::reflect(&unit_direction, &hit_record.normal, fpu)
            } else {
                Vector3::refract(&unit_direction, &hit_record.normal, ir, fpu)
            };
            assert(direction == self.direction(ray_in.direction, *hit_record, draw, fifth, fpu));
            assert(self.onward(ray_in.direction, *hit_record, draw, fpu, direction));
            direction
        };
        let out = Some((attenuation, Ray::new(hit_record.p, direction)));
        assert(out->Some_0.1.direction == direction);
        out
    }
}

/// The material of a medium: it scatters a ray into any direction.
pub struct Isotropic<T> {
    pub texture: T,
}

impl Isotropic<SolidTexture> {
    /// The medium of one colour.
    pub fn from_color(albedo: Color) -> (r: Self)
        ensures
            r.texture.albedo == albedo,
    {
        Self { texture: SolidTexture::new(albedo) }
    }
}

impl<T> Isotropic<T> {
    pub fn new(texture: T) -> (r: Self)
        ensures
            r.texture == texture,
    {
        Self { texture }
    }

    /// Scatters a ray at the hit into the direction of a random unit
    /// vector, attenuated by the colour of the texture there.
    pub fn scatter_with<A: Arithmetic>(&self, hit_record: &HitRecord, unit: &Vector3, fpu: &A) -> (out: (
        Color,
        Ray,
    )) where T: Texture<A>
        ensures
            out.1.origin == hit_record.p,
            out.1.direction == *unit,
            colours(&self.texture, hit_record.u, hit_record.v, &hit_record.p, fpu, out.0),
    {
        let scattered = Ray::new(hit_record.p, *unit);
        let attenuation = self.texture.value(hit_record.u, hit_record.v, &hit_record.p, fpu);
        (attenuation, scattered)
    }
}

impl<A: Arithmetic + Chance, T: Texture<A>> Material<A> for Isotropic<T> {
    /// Scatters the ray into the direction of a random unit vector.
    fn scatter(&self, ray_in: &Ray, hit_record: &HitRecord, fpu: &A) -> (out: Option<(Color, Ray)>)
        ensures
            out is Some,
            out->Some_0.1.origin == hit_record.p,
            Vector3::unit_vectors(fpu, out->Some_0.1.direction),
            colours(&self.texture, hit_record.u, hit_record.v, &hit_record.p, fpu, out->Some_0.0),
    {
        let unit = Vector3::random_unit_vector(fpu);
        Some(self.scatter_with(hit_record, &unit, fpu))
    }
}

} // verus!
