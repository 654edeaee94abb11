//! The camera: how much light comes back along a ray.

use crate::hittable::{answers, HitRecord, Hittable};
use crate::interval::Interval;
use crate::material::{emits, scatters, Material};
use crate::ray::Ray;
use crate::scalar::{
    draws, saturated, tangents, Arithmetic, Chance, Functions, Scalar, INFINITY_BITS, RADIANS_PER_DEGREE_BITS,
};
use crate::vector::{Color, Point3, Vector3};
use crate::scheduler::{lemma_ranges_are_contiguous, place_slice, task_ranges};
use vstd::prelude::*;

verus! {

/// The bits of 0.001: a ray is searched from this parameter on, so that it
/// does not hit again the surface that it starts on.
pub const NEAR_BITS: u64 = 0x3F50_624D_D2F1_A9FC;

/// What a worker needs to know of the camera: a copy for each of them.
#[derive(Clone, Copy, Debug)]
pub struct CameraData {
    /// The width of the image in pixels.
    pub image_width: i32,
    /// The height of the image in pixels.
    pub image_height: i32,
    /// How many rays are sent through each pixel.
    pub samples_per_pixel: i32,
    /// After how many bounces a ray is given up.
    pub max_depth: i32,
    /// One over the number of rays through each pixel.
    pub pixel_samples_scale: Scalar,
    /// Where the camera stands.
    pub center: Point3,
    /// The middle of the pixel in the top left corner.
    pub pixel00_loc: Point3,
    /// From one pixel to the next in its row.
    pub pixel_delta_u: Vector3,
    /// From one pixel to the next in its column.
    pub pixel_delta_v: Vector3,
    /// The angle of the cone of rays through a pixel; none is blurred
    /// where it is zero or less.
    pub defocus_angle: Scalar,
    /// The two radii of the disk from which rays start.
    pub defocus_disk_u: Vector3,
    pub defocus_disk_v: Vector3,
    /// The radiance that comes from where no surface is.
    pub background: Color,
}

/// What became of a ray, followed from the eye.
pub enum Light {
    /// The ray was given up: the bounces ran out.
    Cut,
    /// The ray hit nothing.
    Escaped,
    /// The ray hit a surface that gave off this radiance and absorbed
    /// the ray.
    Absorbed(HitRecord, Color),
    /// The ray hit a surface that gave off the first radiance and
    /// scattered the ray, with the attenuation that follows, into the ray
    /// that follows; then comes what became of that ray.
    Scattered(HitRecord, Color, Color, Ray, Box<Light>),
}

/// The interval in which a ray is searched: from 0.001 to infinity.
pub open spec fn ahead() -> Interval {
    Interval { min: Scalar { bits: NEAR_BITS }, max: Scalar { bits: INFINITY_BITS } }
}

/// `emission + attenuation * incoming`, channel by channel.
pub open spec fn blend<A: Arithmetic>(emission: Color, attenuation: Color, incoming: Color, fpu: &A) -> Color {
    Vector3 {
        x: fpu.sum(emission.x, fpu.product(attenuation.x, incoming.x)),
        y: fpu.sum(emission.y, fpu.product(attenuation.y, incoming.y)),
        z: fpu.sum(emission.z, fpu.product(attenuation.z, incoming.z)),
    }
}

/// The material of the hit may give off `out`. A hit without a material of
/// the scene gives off nothing.
pub open spec fn glows<A: Arithmetic, M: Material<A>>(
    materials: Seq<M>,
    rec: HitRecord,
    fpu: &A,
    out: Color,
) -> bool {
    match rec.mat {
        Some(i) => if i < materials.len() {
            emits(&materials[i as int], rec.u, rec.v, &rec.p, fpu, out)
        } else {
            out == Vector3::origin()
        },
        None => out == Vector3::origin(),
    }
}

/// The material of the hit may do `out` to the ray. A hit without a material
/// of the scene absorbs it.
pub open spec fn bounces<A: Arithmetic, M: Material<A>>(
    materials: Seq<M>,
    ray: &Ray,
    rec: HitRecord,
    fpu: &A,
    out: Option<(Color, Ray)>,
) -> bool {
    match rec.mat {
        Some(i) => if i < materials.len() {
            scatters(&materials[i as int], ray, &rec, fpu, out)
        } else {
            out is None
        },
        None => out is None,
    }
}

impl Light {
    /// The radiance that comes back along the ray: none where the ray was
    /// given up, the background where it hit nothing, and else what the
    /// surface gives off, and what comes back along the scattered ray,
    /// attenuated.
    pub open spec fn radiance<A: Arithmetic>(self, background: Color, fpu: &A) -> Color
        decreases self,
    {
        match self {
            Light::Cut => Vector3::origin(),
            Light::Escaped => background,
            Light::Absorbed(_, emission) => emission,
            Light::Scattered(_, emission, attenuation, _, rest) => blend(
                emission,
                attenuation,
                rest.radiance(background, fpu),
                fpu,
            ),
        }
    }

    /// This is what may become of the ray `r` in the world, with `depth`
    /// bounces left.
    pub open spec fn traced<A: Arithmetic, W: Hittable<A>, M: Material<A>>(
        self,
        r: &Ray,
        world: &W,
        materials: Seq<M>,
        depth: int,
        fpu: &A,
    ) -> bool
        decreases self,
    {
        match self {
            Light::Cut => depth <= 0,
            Light::Escaped => depth > 0 && answers(world, r, ahead(), fpu, None),
            Light::Absorbed(rec, emission) => {
                &&& depth > 0
                &&& answers(world, r, ahead(), fpu, Some(rec))
                &&& glows(materials, rec, fpu, emission)
                &&& bounces(materials, r, rec, fpu, None)
            },
            Light::Scattered(rec, emission, attenuation, onward, rest) => {
                &&& depth > 0
                &&& answers(world, r, ahead(), fpu, Some(rec))
                &&& glows(materials, rec, fpu, emission)
                &&& bounces(materials, r, rec, fpu, Some((attenuation, onward)))
                &&& rest.traced(&onward, world, materials, depth - 1, fpu)
            },
        }
    }
}

impl CameraData {
    /// Where a ray through the pixel starts: at the camera, or, where rays
    /// are blurred, at the point `disk` of the unit disk, laid out on the
    /// defocus disk.
    pub open spec fn ray_origin<A: Arithmetic>(&self, disk: Vector3, fpu: &A) -> Point3 {
        if self.defocus_angle.at_most(Scalar { bits: 0 }) {
            self.center
        } else {
            Vector3::sum(
                Vector3::sum(self.center, Vector3::scaled(disk.x, self.defocus_disk_u, fpu), fpu),
                Vector3::scaled(disk.y, self.defocus_disk_v, fpu),
                fpu,
            )
        }
    }

    /// The point of the pixel in column `i` of row `j` that a ray is sent
    /// through: its middle, moved by `offset`.
    pub open spec fn pixel_sample<A: Arithmetic>(&self, i: Scalar, j: Scalar, offset: Vector3, fpu: &A) -> Point3 {
        Vector3::sum(
            Vector3::sum(
                self.pixel00_loc,
                Vector3::scaled(fpu.sum(i, offset.x), self.pixel_delta_u, fpu),
                fpu,
            ),
            Vector3::scaled(fpu.sum(j, offset.y), self.pixel_delta_v, fpu),
            fpu,
        )
    }

    /// The ray through the pixel in column `i` of row `j`, given where in
    /// the pixel it goes through and where on the defocus disk it starts:
    /// `offset` is a point of the square from -0.5 to 0.5, and `disk` a
    /// point of the unit disk.
    pub open spec fn ray_through<A: Arithmetic>(&self, i: Scalar, j: Scalar, offset: Vector3, disk: Vector3, fpu: &A) -> Ray {
        Ray {
            origin: self.ray_origin(disk, fpu),
            direction: Vector3::difference(
                self.pixel_sample(i, j, offset, fpu),
                self.ray_origin(disk, fpu),
                fpu,
            ),
        }
    }

    /// `offset` may be the vector from the middle of a pixel to a random
    /// point of it.
    pub open spec fn squares<A: Arithmetic + Chance>(fpu: &A, offset: Vector3) -> bool {
        let half = Scalar { bits: 0x3FE0_0000_0000_0000 };
        exists|first: Scalar, second: Scalar|
            #![trigger fpu.difference(first, half), fpu.difference(second, half)]
            {
                &&& draws(fpu, Scalar { bits: 0 }, Scalar { bits: 0x3FF0_0000_0000_0000 }, first)
                &&& draws(fpu, Scalar { bits: 0 }, Scalar { bits: 0x3FF0_0000_0000_0000 }, second)
                &&& offset == Vector3 {
                    x: fpu.difference(first, half),
                    y: fpu.difference(second, half),
                    z: Scalar { bits: 0 },
                }
            }
    }

    /// `out` may be a ray through the pixel in column `i` of row `j`: it goes
    /// through a random point of the pixel, and starts at the camera, or,
    /// where the camera blurs, at a random point of the defocus disk.
    pub open spec fn rays<A: Arithmetic + Chance>(&self, i: Scalar, j: Scalar, fpu: &A, out: Ray) -> bool {
        exists|offset: Vector3, disk: Vector3|
            #![trigger self.ray_through(i, j, offset, disk, fpu)]
            {
                &&& Self::squares(fpu, offset)
                &&& self.defocus_angle.at_most(Scalar { bits: 0 }) || Vector3::disk_points(fpu, disk)
                &&& out == self.ray_through(i, j, offset, disk, fpu)
            }
    }

    /// The ray through the pixel in column `i` of row `j` that goes through
    /// the point `offset` of the pixel and starts at the point `disk` of the
    /// defocus disk.
    pub fn get_ray_with<A: Arithmetic>(&self, i: Scalar, j: Scalar, offset: &Vector3, disk: &Vector3, fpu: &A) -> (r:
        Ray)
        ensures
            r == self.ray_through(i, j, *offset, *disk, fpu),
    {
        let pixel_sample = self.pixel00_loc.plus(
            &Vector3::scale(fpu.plus(i, offset.x()), &self.pixel_delta_u, fpu),
            fpu,
        ).plus(&Vector3::scale(fpu.plus(j, offset.y()), &self.pixel_delta_v, fpu), fpu);
        let ray_origin = if self.defocus_angle.le(Scalar::zero()) {
            self.center
        } else {
            self.defocus_disk_sample_with(disk, fpu)
        };
        let ray_direction = pixel_sample.minus(&ray_origin, fpu);
        Ray::new(ray_origin, ray_direction)
    }

    /// A ray through a random point of the pixel in column `i` of row `j`.
    pub fn get_ray<A: Arithmetic + Chance>(&self, i: Scalar, j: Scalar, fpu: &A) -> (r: Ray)
        ensures
            self.rays(i, j, fpu, r),
    {
        let offset = Self::sample_square(fpu);
        let disk = if self.defocus_angle.le(Scalar::zero()) {
            Vector3::zero()
        } else {
            Vector3::random_in_unit_disk(fpu)
        };
        let r = self.get_ray_with(i, j, &offset, &disk, fpu);
        r
    }

    /// The point of the defocus disk that the point `p` of the unit disk
    /// stands for.
    pub fn defocus_disk_sample_with<A: Arithmetic>(&self, p: &Vector3, fpu: &A) -> (r: Point3)
        ensures
            r == Vector3::sum(
                Vector3::sum(self.center, Vector3::scaled(p.x, self.defocus_disk_u, fpu), fpu),
                Vector3::scaled(p.y, self.defocus_disk_v, fpu),
                fpu,
            ),
    {
        self.center.plus(&Vector3::scale(p.x(), &self.defocus_disk_u, fpu), fpu).plus(
            &Vector3::scale(p.y(), &self.defocus_disk_v, fpu),
            fpu,
        )
    }

    /// A random point of the defocus disk.
    pub fn defocus_disk_sample<A: Arithmetic + Chance>(&self, fpu: &A) -> (r: Point3)
        ensures
            exists|p: Vector3|
                #![trigger Vector3::disk_points(fpu, p)]
                Vector3::disk_points(fpu, p) && r == Vector3::sum(
                    Vector3::sum(self.center, Vector3::scaled(p.x, self.defocus_disk_u, fpu), fpu),
                    Vector3::scaled(p.y, self.defocus_disk_v, fpu),
                    fpu,
                ),
    {
        let p = Vector3::random_in_unit_disk(fpu);
        self.defocus_disk_sample_with(&p, fpu)
    }

    /// The vector from the middle of a pixel to a random point of it.
    pub fn sample_square<A: Arithmetic + Chance>(fpu: &A) -> (r: Vector3)
        ensures
            Self::squares(fpu, r),
    {
        let half = Scalar::from_bits(0x3FE0_0000_0000_0000);
        let first = fpu.random_range(Scalar::zero(), Scalar::one());
        let x = fpu.minus(first, half);
        let second = fpu.random_range(Scalar::zero(), Scalar::one());
        let y = fpu.minus(second, half);
        assert(draws(fpu, Scalar { bits: 0 }, Scalar { bits: 0x3FF0_0000_0000_0000 }, first));
        Vector3::new(x, y, Scalar::zero())
    }

    /// `out` is a radiance that may come back along the ray `r`.
    pub open spec fn sees<A: Arithmetic, W: Hittable<A>, M: Material<A>>(
        &self,
        r: &Ray,
        world: &W,
        materials: Seq<M>,
        depth: int,
        fpu: &A,
        out: Color,
    ) -> bool {
        exists|light: Light| #[trigger]
            light.traced(r, world, materials, depth, fpu) && out == light.radiance(self.background, fpu)
    }

    /// The radiance that comes back along the ray `r`, followed through at
    /// most `depth` bounces.
    ///
    /// With no bounce left there is none. A ray that hits nothing brings the
    /// background. At a hit, the surface gives off its own radiance; where
    /// it scatters the ray, the radiance that comes back along the scattered
    /// ray is attenuated and added.
    pub fn color<A: Arithmetic, W: Hittable<A>, M: Material<A>>(
        &self,
        r: &Ray,
        world: &W,
        materials: &Vec<M>,
        depth: i32,
        fpu: &A,
    ) -> (c: Color)
        ensures
            self.sees(r, world, materials@, depth as int, fpu, c),
            depth <= 0 ==> c == Vector3::origin(),
            depth > 0 && (forall|out: Option<HitRecord>| #[trigger]
                answers(world, r, ahead(), fpu, out) ==> out is None) ==> c == self.background,
    {
        let (c, Ghost(light)) = self.follow(r, world, materials, depth, fpu);
        c
    }

    fn follow<A: Arithmetic, W: Hittable<A>, M: Material<A>>(
        &self,
        r: &Ray,
        world: &W,
        materials: &Vec<M>,
        depth: i32,
        fpu: &A,
    ) -> (out: (Color, Ghost<Light>))
        ensures
            out.1@.traced(r, world, materials@, depth as int, fpu),
            out.0 == out.1@.radiance(self.background, fpu),
            depth <= 0 ==> out.1@ is Cut,
            depth > 0 && (forall|found: Option<HitRecord>| #[trigger]
                answers(world, r, ahead(), fpu, found) ==> found is None) ==> out.1@ is Escaped,
        decreases depth,
    {
        if depth <= 0 {
            return (Vector3::zero(), Ghost(Light::Cut));
        }
        let search = Interval::new(Scalar::from_bits(NEAR_BITS), Scalar::infinity());
        let found = world.hit(r, search, fpu);
        assert(answers(world, r, ahead(), fpu, found));
        let rec = match found {
            None => {
                return (self.background, Ghost(Light::Escaped));
            },
            Some(rec) => rec,
        };
        let known = match rec.mat {
            Some(i) => i < materials.len(),
            None => false,
        };
        if !known {
            return (Vector3::zero(), Ghost(Light::Absorbed(rec, Vector3::origin())));
        }
        let material = &materials[rec.mat.unwrap()];
        let color_from_emission = material.emitted(rec.u, rec.v, &rec.p, fpu);
        match material.scatter(r, &rec, fpu) {
            None => (color_from_emission, Ghost(Light::Absorbed(rec, color_from_emission))),
            Some((attenuation, scattered)) => {
                let (incoming, Ghost(rest)) = self.follow(&scattered, world, materials, depth - 1, fpu);
                let c = Vector3 {
                    x: fpu.plus(color_from_emission.x, fpu.times(attenuation.x, incoming.x)),
                    y: fpu.plus(color_from_emission.y, fpu.times(attenuation.y, incoming.y)),
                    z: fpu.plus(color_from_emission.z, fpu.times(attenuation.z, incoming.z)),
                };
                let ghost light = Light::Scattered(
                    rec,
                    color_from_emission,
                    attenuation,
                    scattered,
                    Box::new(rest),
                );
                proof {
                    assert(light.radiance(self.background, fpu) == blend(
                        color_from_emission,
                        attenuation,
                        rest.radiance(self.background, fpu),
                        fpu,
                    ));
                }
                (c, Ghost(light))
            },
        }
    }
}

/// Whatever the first world may answer to a ray that is sent ahead, the
/// second may answer too.
pub open spec fn answers_as<A: Arithmetic, V: Hittable<A>, W: Hittable<A>>(first: &V, second: &W, fpu: &A) -> bool {
    forall|ray: Ray, out: Option<HitRecord>| #[trigger]
        answers(first, &ray, ahead(), fpu, out) ==> answers(second, &ray, ahead(), fpu, out)
}

/// The world has an answer to the ray, sent ahead.
pub open spec fn has_answer<A: Arithmetic, W: Hittable<A>>(world: &W, ray: Ray, fpu: &A) -> bool {
    exists|out: Option<HitRecord>| #[trigger] answers(world, &ray, ahead(), fpu, out)
}

/// What may become of a ray in one world may become of it in every world
/// that answers as that one does.
pub proof fn lemma_traced_in_a_like_world<A: Arithmetic, V: Hittable<A>, W: Hittable<A>, M: Material<A>>(
    light: Light,
    r: &Ray,
    first: &V,
    second: &W,
    materials: Seq<M>,
    depth: int,
    fpu: &A,
)
    requires
        answers_as(first, second, fpu),
        light.traced(r, first, materials, depth, fpu),
    ensures
        light.traced(r, second, materials, depth, fpu),
    decreases light,
{
    match light {
        Light::Cut => {},
        Light::Escaped => {
            assert(answers(first, &*r, ahead(), fpu, None));
        },
        Light::Absorbed(rec, _) => {
            assert(answers(first, &*r, ahead(), fpu, Some(rec)));
        },
        Light::Scattered(rec, _, _, onward, rest) => {
            assert(answers(first, &*r, ahead(), fpu, Some(rec)));
            lemma_traced_in_a_like_world(*rest, &onward, first, second, materials, depth - 1, fpu);
        },
    }
}

/// A colour that a pixel may get in one world it may get in every world
/// that answers as that one does: the image depends on the world through
/// its answers alone.
pub proof fn lemma_exposed_in_a_like_world<A: Arithmetic + Chance, V: Hittable<A>, W: Hittable<A>, M: Material<A>>(
    camera: &CameraData,
    first: &V,
    second: &W,
    materials: Seq<M>,
    i: i32,
    j: i32,
    fpu: &A,
    out: Color,
)
    requires
        answers_as(first, second, fpu),
        camera.exposes(first, materials, i, j, fpu, out),
    ensures
        camera.exposes(second, materials, i, j, fpu, out),
{
    let (rays, colors) = choose|rays: Seq<Ray>, colors: Seq<Color>| #[trigger]
        camera.sampled(first, materials, i, j, fpu, rays, colors) && out == scaled(
            camera.pixel_samples_scale,
            total(colors, colors.len() as int, fpu),
            fpu,
        );
    assert forall|k: int| 0 <= k < rays.len() implies camera.sees(
        &#[trigger] rays[k],
        second,
        materials,
        camera.max_depth as int,
        fpu,
        colors[k],
    ) by {
        let light = choose|light: Light| #[trigger]
            light.traced(&rays[k], first, materials, camera.max_depth as int, fpu) && colors[k] == light.radiance(
                camera.background,
                fpu,
            );
        lemma_traced_in_a_like_world(light, &rays[k], first, second, materials, camera.max_depth as int, fpu);
    }
    assert(camera.sampled(second, materials, i, j, fpu, rays, colors));
}

/// The sum of the first `k` colours, added one after the other to black.
pub open spec fn total<A: Arithmetic>(colors: Seq<Color>, k: int, fpu: &A) -> Color
    decreases k,
{
    if k <= 0 {
        Vector3::origin()
    } else {
        let before = total(colors, k - 1, fpu);
        Vector3 {
            x: fpu.sum(before.x, colors[k - 1].x),
            y: fpu.sum(before.y, colors[k - 1].y),
            z: fpu.sum(before.z, colors[k - 1].z),
        }
    }
}

/// The colour with every channel multiplied by `scale`.
pub open spec fn scaled<A: Arithmetic>(scale: Scalar, c: Color, fpu: &A) -> Color {
    Vector3 { x: fpu.product(scale, c.x), y: fpu.product(scale, c.y), z: fpu.product(scale, c.z) }
}

/// The sum of the first `k` colours does not depend on the colours after
/// them.
pub proof fn lemma_total_prefix<A: Arithmetic>(a: Seq<Color>, b: Seq<Color>, k: int, fpu: &A)
    requires
        0 <= k <= a.len(),
        k <= b.len(),
        forall|i: int| 0 <= i < k ==> a[i] == b[i],
    ensures
        total(a, k, fpu) == total(b, k, fpu),
    decreases k,
{
    if k > 0 {
        lemma_total_prefix(a, b, k - 1, fpu);
    }
}

impl CameraData {
    /// How many rays go through each pixel: none where the number is
    /// negative.
    pub open spec fn samples(&self) -> int {
        if self.samples_per_pixel < 0 {
            0
        } else {
            self.samples_per_pixel as int
        }
    }

    /// `colors` are radiances that may come back along rays that `get_ray`
    /// may send through the pixel in column `i` of row `j`, one for each
    /// sample.
    pub open spec fn sampled<A: Arithmetic + Chance, W: Hittable<A>, M: Material<A>>(
        &self,
        world: &W,
        materials: Seq<M>,
        i: i32,
        j: i32,
        fpu: &A,
        rays: Seq<Ray>,
        colors: Seq<Color>,
    ) -> bool {
        &&& rays.len() == self.samples()
        &&& colors.len() == self.samples()
        &&& forall|k: int|
            0 <= k < rays.len() ==> self.rays(Scalar::whole(i as int), Scalar::whole(j as int), fpu, #[trigger] rays[k])
                && self.sees(
                &rays[k],
                world,
                materials,
                self.max_depth as int,
                fpu,
                colors[k],
            )
    }

    /// `out` is a colour that the pixel may get: the mean of its samples.
    pub open spec fn exposes<A: Arithmetic + Chance, W: Hittable<A>, M: Material<A>>(
        &self,
        world: &W,
        materials: Seq<M>,
        i: i32,
        j: i32,
        fpu: &A,
        out: Color,
    ) -> bool {
        exists|rays: Seq<Ray>, colors: Seq<Color>| #[trigger]
            self.sampled(world, materials, i, j, fpu, rays, colors) && out == scaled(
                self.pixel_samples_scale,
                total(colors, colors.len() as int, fpu),
                fpu,
            )
    }

    /// The colour of the pixel in column `i` of row `j`: the mean of the
    /// radiances that come back along `samples_per_pixel` rays through it.
    pub fn sample_pixel<A: Arithmetic + Chance, W: Hittable<A>, M: Material<A>>(
        &self,
        world: &W,
        materials: &Vec<M>,
        i: i32,
        j: i32,
        fpu: &A,
    ) -> (out: Color)
        ensures
            self.exposes(world, materials@, i, j, fpu, out),
    {
        let mut pixel_color = Vector3::zero();
        let ghost mut rays: Seq<Ray> = Seq::empty();
        let ghost mut colors: Seq<Color> = Seq::empty();
        let mut k: i32 = 0;
        while k < self.samples_per_pixel
            invariant
                0 <= k,
                k <= self.samples(),
                rays.len() == k,
                colors.len() == k,
                pixel_color == total(colors, k as int, fpu),
                forall|n: int|
                    0 <= n < k ==> self.rays(
                        Scalar::whole(i as int),
                        Scalar::whole(j as int),
                        fpu,
                        #[trigger] rays[n],
                    ) && self.sees(
                        &rays[n],
                        world,
                        materials@,
                        self.max_depth as int,
                        fpu,
                        colors[n],
                    ),
            decreases self.samples_per_pixel - k,
        {
            let r = self.get_ray(Scalar::from_i32(i), Scalar::from_i32(j), fpu);
            let c = self.color(&r, world, materials, self.max_depth, fpu);
            proof {
                lemma_total_prefix(colors.push(c), colors, k as int, fpu);
                rays = rays.push(r);
                colors = colors.push(c);
            }
            pixel_color = Vector3 {
                x: fpu.plus(pixel_color.x, c.x),
                y: fpu.plus(pixel_color.y, c.y),
                z: fpu.plus(pixel_color.z, c.z),
            };
            k = k + 1;
        }
        assert(self.sampled(world, materials@, i, j, fpu, rays, colors));
        Vector3 {
            x: fpu.times(self.pixel_samples_scale, pixel_color.x),
            y: fpu.times(self.pixel_samples_scale, pixel_color.y),
            z: fpu.times(self.pixel_samples_scale, pixel_color.z),
        }
    }

    /// The pixels of the rows from `start_row` up to `end_row`, row by row,
    /// and the count that `report` was told last. After every tenth pixel,
    /// and once more at the end, `report` is told how many pixels are done;
    /// it is told no other count, and at the end the count of all the
    /// pixels of the rows.
    pub fn render_slice<A: Arithmetic + Chance, W: Hittable<A>, M: Material<A>, R: Fn(usize) -> ()>(
        &self,
        world: &W,
        materials: &Vec<M>,
        start_row: i32,
        end_row: i32,
        report: &R,
        fpu: &A,
    ) -> (out: (Vec<Color>, usize))
        requires
            0 <= start_row <= end_row,
            0 <= self.image_width,
            (end_row - start_row) * self.image_width <= usize::MAX,
            forall|done: usize|
                told(done as int, (end_row - start_row) * self.image_width) ==> #[trigger] call_requires(
                    *report,
                    (done,),
                ),
        ensures
            out.0@.len() == (end_row - start_row) * self.image_width,
            out.1 == out.0@.len(),
            forall|done: usize|
                told(done as int, out.0@.len() as int) ==> #[trigger] call_ensures(*report, (done,), ()),
            forall|i: i32, j: i32|
                0 <= i < self.image_width && start_row <= j < end_row ==> self.exposes(
                    world,
                    materials@,
                    i,
                    j,
                    fpu,
                    #[trigger] out.0@[slot(self.image_width as int, start_row as int, i as int, j as int)],
                ),
    {
        let ghost total = (end_row - start_row) * self.image_width;
        let mut pixels: Vec<Color> = Vec::new();
        let mut pixels_completed: usize = 0;
        let width = self.image_width;
        let mut j: i32 = start_row;
        while j < end_row
            invariant
                0 <= start_row <= j <= end_row,
                width == self.image_width,
                0 <= width,
                (end_row - start_row) * width <= usize::MAX,
                total == (end_row - start_row) * width,
                forall|done: usize| told(done as int, total) ==> #[trigger] call_requires(*report, (done,)),
                forall|done: usize|
                    told_so_far(done as int, pixels_completed as int) ==> #[trigger] call_ensures(
                        *report,
                        (done,),
                        (),
                    ),
                pixels_completed == pixels@.len(),
                pixels@.len() == (j - start_row) * width,
                forall|i: i32, row: i32|
                    0 <= i < width && start_row <= row < j ==> self.exposes(
                        world,
                        materials@,
                        i,
                        row,
                        fpu,
                        #[trigger] pixels@[slot(width as int, start_row as int, i as int, row as int)],
                    ),
            decreases end_row - j,
        {
            let mut i: i32 = 0;
            while i < width
                invariant
                    0 <= start_row <= j < end_row,
                    width == self.image_width,
                    0 <= i <= width,
                    (end_row - start_row) * width <= usize::MAX,
                    total == (end_row - start_row) * width,
                    forall|done: usize| told(done as int, total) ==> #[trigger] call_requires(*report, (done,)),
                    forall|done: usize|
                        told_so_far(done as int, pixels_completed as int) ==> #[trigger] call_ensures(
                        *report,
                        (done,),
                        (),
                    ),
                    pixels_completed == pixels@.len(),
                    pixels@.len() == (j - start_row) * width + i,
                    forall|col: i32, row: i32|
                        0 <= col < width && start_row <= row < j ==> self.exposes(
                            world,
                            materials@,
                            col,
                            row,
                            fpu,
                            #[trigger] pixels@[slot(width as int, start_row as int, col as int, row as int)],
                        ),
                    forall|col: i32|
                        0 <= col < i ==> self.exposes(
                            world,
                            materials@,
                            col,
                            j,
                            fpu,
                            #[trigger] pixels@[slot(width as int, start_row as int, col as int, j as int)],
                        ),
                decreases width - i,
            {
                let final_color = self.sample_pixel(world, materials, i, j, fpu);
                proof {
                    lemma_slot_bounds(
                        width as int,
                        start_row as int,
                        end_row as int,
                        i as int,
                        j as int,
                    );
                    assert forall|col: i32, row: i32|
                        0 <= col < width && start_row <= row <= j && (row < j || col < i) implies slot(
                        width as int,
                        start_row as int,
                        col as int,
                        row as int,
                    ) < pixels@.len() by {
                        lemma_slot_order(
                            width as int,
                            start_row as int,
                            col as int,
                            row as int,
                            i as int,
                            j as int,
                        );
                    }
                }
                pixels.push(final_color);
                pixels_completed = pixels_completed + 1;
                assert(pixels_completed <= total);
                if pixels_completed % 10 == 0 {
                    report(pixels_completed);
                }
                i = i + 1;
            }
            proof {
                assert((j + 1 - start_row) * width == (j - start_row) * width + width) by (nonlinear_arith);
            }
            j = j + 1;
        }
        report(pixels_completed);
        (pixels, pixels_completed)
    }
}

/// `done` is a count that a worker with `total` pixels to render makes
/// known: every tenth pixel from the tenth on, and the count of them all.
pub open spec fn told(done: int, total: int) -> bool {
    told_so_far(done, total) || done == total
}

/// `done` is a count that a worker has made known by the time it has
/// rendered `completed` pixels: every tenth pixel from the tenth on.
pub open spec fn told_so_far(done: int, completed: int) -> bool {
    10 <= done <= completed && done % 10 == 0
}

/// The place that a slice of rows gives the pixel in column `i` of row `j`:
/// the slice begins with the row `start_row`.
pub open spec fn slot(width: int, start_row: int, i: int, j: int) -> int {
    (j - start_row) * width + i
}

/// Every pixel of a slice has a place in it.
pub proof fn lemma_slot_bounds(width: int, start_row: int, end_row: int, i: int, j: int)
    requires
        0 <= i < width,
        start_row <= j < end_row,
    ensures
        0 <= slot(width, start_row, i, j) < (end_row - start_row) * width,
{
    assert((j - start_row) * width + width <= (end_row - start_row) * width) by (nonlinear_arith)
        requires
            0 <= j - start_row,
            j - start_row + 1 <= end_row - start_row,
            width > 0,
    ;
    assert(0 <= (j - start_row) * width) by (nonlinear_arith)
        requires
            0 <= j - start_row,
            width > 0,
    ;
}

/// A pixel that comes earlier in the order of rows and columns has an
/// earlier place.
pub proof fn lemma_slot_order(width: int, start_row: int, i1: int, j1: int, i2: int, j2: int)
    requires
        0 <= i1 < width,
        0 <= i2 < width,
        start_row <= j1 <= j2,
        j1 < j2 || i1 < i2,
    ensures
        0 <= slot(width, start_row, i1, j1) < slot(width, start_row, i2, j2),
{
    assert(0 <= (j1 - start_row) * width) by (nonlinear_arith)
        requires
            0 <= j1 - start_row,
            width > 0,
    ;
    if j1 < j2 {
        assert((j1 - start_row) * width + width <= (j2 - start_row) * width) by (nonlinear_arith)
            requires
                j1 - start_row + 1 <= j2 - start_row,
                width > 0,
        ;
    }
}

/// The camera: where it stands, where it looks, and what image it takes.
#[derive(Clone, Copy, Debug)]
pub struct Camera {
    /// The width of the image over its height.
    pub aspect_ratio: Scalar,
    /// The width of the image in pixels.
    pub image_width: i32,
    /// How many rays are sent through each pixel.
    pub samples_per_pixel: i32,
    /// After how many bounces a ray is given up.
    pub max_depth: i32,
    /// The vertical field of view in degrees.
    pub vfov: Scalar,
    /// The point that the camera looks from.
    pub lookfrom: Point3,
    /// The point that the camera looks at.
    pub lookat: Point3,
    /// The direction that is up for the camera.
    pub vup: Vector3,
    /// The angle of the cone of rays through a pixel, in degrees.
    pub defocus_angle: Scalar,
    /// How far from the camera everything is in focus.
    pub focus_dist: Scalar,
    /// The radiance that comes from where no surface is.
    pub background: Color,
    /// What follows is worked out by `initialize`.
    pub image_height: i32,
    pub pixel_samples_scale: Scalar,
    pub center: Point3,
    pub pixel00_loc: Point3,
    pub pixel_delta_u: Vector3,
    pub pixel_delta_v: Vector3,
    /// The three directions of the camera: to its right, up, and against
    /// its view.
    pub u: Vector3,
    pub v: Vector3,
    pub w: Vector3,
    pub defocus_u: Vector3,
    pub defocus_v: Vector3,
}

impl Camera {
    /// The height of the image in pixels: the width over the aspect ratio,
    /// without its fraction, and at least 1.
    pub open spec fn height<A: Arithmetic>(&self, fpu: &A) -> int {
        let h = saturated(fpu.quotient(Scalar::whole(self.image_width as int), self.aspect_ratio).truncation());
        if h < 1 {
            1
        } else {
            h
        }
    }

    /// The camera with everything worked out that a render needs, given the
    /// tangents of half the field of view and of half the defocus angle.
    pub open spec fn initialized<A: Arithmetic>(
        self,
        tan_half_vfov: Scalar,
        tan_half_defocus: Scalar,
        fpu: &A,
    ) -> Camera {
        let one = Scalar { bits: 0x3FF0_0000_0000_0000 };
        let two = Scalar { bits: 0x4000_0000_0000_0000 };
        let half = Scalar { bits: 0x3FE0_0000_0000_0000 };
        let image_height = self.height(fpu);
        let width = Scalar::whole(self.image_width as int);
        let height = Scalar::whole(image_height);
        let viewport_height = fpu.product(fpu.product(two, tan_half_vfov), self.focus_dist);
        let viewport_width = fpu.product(viewport_height, fpu.quotient(width, height));
        let w = Vector3::difference(self.lookfrom, self.lookat, fpu).normalized(fpu);
        let u = Vector3::cross_product(self.vup, w, fpu).normalized(fpu);
        let v = Vector3::cross_product(w, u, fpu);
        let viewport_u = Vector3::scaled(viewport_width, u, fpu);
        let viewport_v = Vector3::scaled(viewport_height, v.negated(), fpu);
        let pixel_delta_u = Vector3::shrunk(viewport_u, width, fpu);
        let pixel_delta_v = Vector3::shrunk(viewport_v, height, fpu);
        let viewport_upper_left = Vector3::difference(
            Vector3::difference(
                Vector3::difference(self.lookfrom, Vector3::scaled(self.focus_dist, w, fpu), fpu),
                Vector3::shrunk(viewport_u, two, fpu),
                fpu,
            ),
            Vector3::shrunk(viewport_v, two, fpu),
            fpu,
        );
        let defocus_radius = fpu.product(self.focus_dist, tan_half_defocus);
        Camera {
            image_height: image_height as i32,
            pixel_samples_scale: fpu.quotient(one, Scalar::whole(self.samples_per_pixel as int)),
            center: self.lookfrom,
            pixel00_loc: Vector3::sum(
                viewport_upper_left,
                Vector3::scaled(half, Vector3::sum(pixel_delta_u, pixel_delta_v, fpu), fpu),
                fpu,
            ),
            pixel_delta_u,
            pixel_delta_v,
            u,
            v,
            w,
            defocus_u: Vector3::stretched(u, defocus_radius, fpu),
            defocus_v: Vector3::stretched(v, defocus_radius, fpu),
            ..self
        }
    }

    /// What a worker needs of the camera.
    pub open spec fn snapshot(&self) -> CameraData {
        CameraData {
            image_width: self.image_width,
            image_height: self.image_height,
            samples_per_pixel: self.samples_per_pixel,
            max_depth: self.max_depth,
            pixel_samples_scale: self.pixel_samples_scale,
            center: self.center,
            pixel00_loc: self.pixel00_loc,
            pixel_delta_u: self.pixel_delta_u,
            pixel_delta_v: self.pixel_delta_v,
            defocus_angle: self.defocus_angle,
            defocus_disk_u: self.defocus_u,
            defocus_disk_v: self.defocus_v,
            background: self.background,
        }
    }

    /// The camera at the origin that looks down the negative z axis, with a
    /// field of view of 90 degrees, a square image 100 pixels wide, 10 rays
    /// through each pixel, 10 bounces, no blur and a white background.
    pub fn new() -> (r: Self)
        ensures
            r.aspect_ratio.bits == 0x3FF0_0000_0000_0000,
            r.image_width == 100,
            r.samples_per_pixel == 10,
            r.max_depth == 10,
            r.vfov.bits == 0x4056_8000_0000_0000,
            r.lookfrom == Vector3::origin(),
            r.lookat == (Vector3 {
                x: Scalar { bits: 0 },
                y: Scalar { bits: 0 },
                z: Scalar { bits: 0xBFF0_0000_0000_0000 },
            }),
            r.vup == (Vector3 {
                x: Scalar { bits: 0 },
                y: Scalar { bits: 0x3FF0_0000_0000_0000 },
                z: Scalar { bits: 0 },
            }),
            r.defocus_angle.bits == 0,
            r.focus_dist.bits == 0x4024_0000_0000_0000,
            r.background == (Vector3 {
                x: Scalar { bits: 0x3FF0_0000_0000_0000 },
                y: Scalar { bits: 0x3FF0_0000_0000_0000 },
                z: Scalar { bits: 0x3FF0_0000_0000_0000 },
            }),
            r.image_height == 0,
            r.pixel_samples_scale.bits == 0,
            r.center == Vector3::origin(),
            r.pixel00_loc == Vector3::origin(),
            r.pixel_delta_u == Vector3::origin(),
            r.pixel_delta_v == Vector3::origin(),
            r.u == Vector3::origin(),
            r.v == Vector3::origin(),
            r.w == Vector3::origin(),
            r.defocus_u == Vector3::origin(),
            r.defocus_v == Vector3::origin(),
    {
        Self {
            aspect_ratio: Scalar::one(),
            image_width: 100,
            samples_per_pixel: 10,
            max_depth: 10,
            vfov: Scalar::from_bits(0x4056_8000_0000_0000),
            lookfrom: Vector3::zero(),
            lookat: Vector3::new(Scalar::zero(), Scalar::zero(), Scalar::from_bits(0xBFF0_0000_0000_0000)),
            vup: Vector3::new(Scalar::zero(), Scalar::one(), Scalar::zero()),
            defocus_angle: Scalar::zero(),
            focus_dist: Scalar::from_bits(0x4024_0000_0000_0000),
            background: Vector3::new(Scalar::one(), Scalar::one(), Scalar::one()),
            image_height: 0,
            pixel_samples_scale: Scalar::zero(),
            center: Vector3::zero(),
            pixel00_loc: Vector3::zero(),
            pixel_delta_u: Vector3::zero(),
            pixel_delta_v: Vector3::zero(),
            u: Vector3::zero(),
            v: Vector3::zero(),
            w: Vector3::zero(),
            defocus_u: Vector3::zero(),
            defocus_v: Vector3::zero(),
        }
    }

    /// Half of an angle that is given in degrees, in radians.
    pub open spec fn half_angle<A: Arithmetic>(degrees: Scalar, fpu: &A) -> Scalar {
        fpu.quotient(
            fpu.product(degrees, Scalar { bits: RADIANS_PER_DEGREE_BITS }),
            Scalar { bits: 0x4000_0000_0000_0000 },
        )
    }

    /// Works out what a render needs: the height of the image, the three
    /// directions of the camera, the pixels of the viewport, and the defocus
    /// disk.
    pub fn initialize<A: Arithmetic + Functions>(&mut self, fpu: &A)
        ensures
            exists|tan_half_vfov: Scalar, tan_half_defocus: Scalar|
                #![trigger old(self).initialized(tan_half_vfov, tan_half_defocus, fpu)]
                {
                    &&& tangents(fpu, Self::half_angle(old(self).vfov, fpu), tan_half_vfov)
                    &&& tangents(fpu, Self::half_angle(old(self).defocus_angle, fpu), tan_half_defocus)
                    &&& *final(self) == old(self).initialized(tan_half_vfov, tan_half_defocus, fpu)
                },
    {
        let radians_per_degree = Scalar::from_bits(RADIANS_PER_DEGREE_BITS);
        let tan_half_vfov = fpu.tan(fpu.over(fpu.times(self.vfov, radians_per_degree), Scalar::two()));
        let tan_half_defocus = fpu.tan(fpu.over(fpu.times(self.defocus_angle, radians_per_degree), Scalar::two()));
        self.initialize_with(tan_half_vfov, tan_half_defocus, fpu);
    }

    /// Works out what a render needs, given the tangents of half the field
    /// of view and of half the defocus angle.
    pub fn initialize_with<A: Arithmetic>(&mut self, tan_half_vfov: Scalar, tan_half_defocus: Scalar, fpu: &A)
        ensures
            *final(self) == old(self).initialized(tan_half_vfov, tan_half_defocus, fpu),
    {
        self.image_height = fpu.over(Scalar::from_i32(self.image_width), self.aspect_ratio).to_i32();
        self.image_height = if self.image_height < 1 {
            1
        } else {
            self.image_height
        };

        self.pixel_samples_scale = fpu.over(Scalar::one(), Scalar::from_i32(self.samples_per_pixel));

        self.center = self.lookfrom;

        let width = Scalar::from_i32(self.image_width);
        let height = Scalar::from_i32(self.image_height);
        let viewport_height = fpu.times(fpu.times(Scalar::two(), tan_half_vfov), self.focus_dist);
        let viewport_width = fpu.times(viewport_height, fpu.over(width, height));

        self.w = self.lookfrom.minus(&self.lookat, fpu).unit_vector(fpu);
        self.u = Vector3::cross(&self.vup, &self.w, fpu).unit_vector(fpu);
        self.v = Vector3::cross(&self.w, &self.u, fpu);

        let viewport_u = Vector3::scale(viewport_width, &self.u, fpu);
        let viewport_v = Vector3::scale(viewport_height, &self.v.neg(), fpu);

        self.pixel_delta_u = viewport_u.over(width, fpu);
        self.pixel_delta_v = viewport_v.over(height, fpu);

        let viewport_upper_left = self.center.minus(&Vector3::scale(self.focus_dist, &self.w, fpu), fpu).minus(
            &viewport_u.over(Scalar::two(), fpu),
            fpu,
        ).minus(&viewport_v.over(Scalar::two(), fpu), fpu);
        self.pixel00_loc = viewport_upper_left.plus(
            &Vector3::scale(
                Scalar::from_bits(0x3FE0_0000_0000_0000),
                &self.pixel_delta_u.plus(&self.pixel_delta_v, fpu),
                fpu,
            ),
            fpu,
        );

        let defocus_radius = fpu.times(self.focus_dist, tan_half_defocus);
        let mut defocus_u = self.u;
        defocus_u.mul_assign(defocus_radius, fpu);
        let mut defocus_v = self.v;
        defocus_v.mul_assign(defocus_radius, fpu);
        self.defocus_u = defocus_u;
        self.defocus_v = defocus_v;
    }

    /// What a worker needs of the camera.
    pub fn data(&self) -> (r: CameraData)
        ensures
            r == self.snapshot(),
    {
        CameraData {
            image_width: self.image_width,
            image_height: self.image_height,
            samples_per_pixel: self.samples_per_pixel,
            max_depth: self.max_depth,
            pixel_samples_scale: self.pixel_samples_scale,
            center: self.center,
            pixel00_loc: self.pixel00_loc,
            pixel_delta_u: self.pixel_delta_u,
            pixel_delta_v: self.pixel_delta_v,
            defocus_angle: self.defocus_angle,
            defocus_disk_u: self.defocus_u,
            defocus_disk_v: self.defocus_v,
            background: self.background,
        }
    }

    /// Renders the image, one task after the other: the camera works out
    /// what it needs, the rows are shared among `cores` tasks, and every task
    /// renders its rows and puts them at their places. What comes back are
    /// the pixels of the image, row by row from the top; each of them has
    /// been written once.
    pub fn render<A: Arithmetic + Functions + Chance, W: Hittable<A>, M: Material<A>>(
        &mut self,
        world: &W,
        materials: &Vec<M>,
        cores: i32,
        fpu: &A,
    ) -> (pixels: Vec<Color>)
        requires
            cores > 0,
            0 <= old(self).image_width,
            old(self).image_width * old(self).height(fpu) <= usize::MAX,
        ensures
            exists|tan_half_vfov: Scalar, tan_half_defocus: Scalar|
                #![trigger old(self).initialized(tan_half_vfov, tan_half_defocus, fpu)]
                {
                    &&& tangents(fpu, Self::half_angle(old(self).vfov, fpu), tan_half_vfov)
                    &&& tangents(fpu, Self::half_angle(old(self).defocus_angle, fpu), tan_half_defocus)
                    &&& *final(self) == old(self).initialized(tan_half_vfov, tan_half_defocus, fpu)
                },
            pixels@.len() == final(self).image_width * final(self).image_height,
            final(self).snapshot().rendered_above(
                world,
                materials@,
                fpu,
                pixels@,
                final(self).image_height as int,
            ),
    {
        self.initialize(fpu);
        let camera_data = self.data();
        let width = self.image_width;
        let height = self.image_height;
        assert(0 <= width * height) by (nonlinear_arith)
            requires
                0 <= width,
                1 <= height,
        ;
        let pixel_count: usize = (width as usize) * (height as usize);
        let mut pixels: Vec<Color> = Vec::new();
        let mut n: usize = 0;
        while n < pixel_count
            invariant
                n <= pixel_count,
                pixels@.len() == n,
            decreases pixel_count - n,
        {
            pixels.push(Vector3::zero());
            n = n + 1;
        }
        let ranges = task_ranges(height, cores);
        proof {
            lemma_ranges_are_contiguous(ranges@, height as int, cores as int);
        }
        let mut k: usize = 0;
        while k < ranges.len()
            invariant
                camera_data == self.snapshot(),
                width == self.image_width,
                height == self.image_height,
                0 <= width,
                1 <= height,
                pixel_count == width * height,
                pixels@.len() == pixel_count,
                k <= ranges@.len(),
                ranges@.len() >= 1,
                ranges@[0].0 == 0,
                ranges@[ranges@.len() - 1].1 == height,
                forall|m: int| 0 <= m < ranges@.len() ==> (#[trigger] ranges@[m]).0 < ranges@[m].1,
                forall|m: int| 0 < m < ranges@.len() ==> (#[trigger] ranges@[m]).0 == ranges@[m - 1].1,
                camera_data.rendered_above(
                    world,
                    materials@,
                    fpu,
                    pixels@,
                    if k == 0 {
                        0
                    } else {
                        ranges@[k - 1].1 as int
                    },
                ),
            decreases ranges@.len() - k,
        {
            let (start_row, end_row) = ranges[k];
            proof {
                lemma_rows_stay_in_the_image(ranges@, height as int, k as int);
                assert(end_row * width <= height * width) by (nonlinear_arith)
                    requires
                        0 <= end_row <= height,
                        0 <= width,
                ;
                assert(height * width == width * height) by (nonlinear_arith);
            }
            camera_data.render_task(world, materials, &mut pixels, start_row, end_row, fpu);
            k = k + 1;
        }
        pixels
    }
}

impl CameraData {
    /// Every pixel of the rows above the row `rows` is a colour that the
    /// pixel may get.
    pub open spec fn rendered_above<A: Arithmetic + Chance, W: Hittable<A>, M: Material<A>>(
        &self,
        world: &W,
        materials: Seq<M>,
        fpu: &A,
        pixels: Seq<Color>,
        rows: int,
    ) -> bool {
        forall|i: i32, j: i32|
            0 <= i < self.image_width && 0 <= j < rows ==> self.exposes(
                world,
                materials,
                i,
                j,
                fpu,
                #[trigger] pixels[slot(self.image_width as int, 0, i as int, j as int)],
            )
    }

    /// Renders the rows of a task and puts them at their places in the
    /// image. The rows above them stay as they are.
    pub fn render_task<A: Arithmetic + Chance, W: Hittable<A>, M: Material<A>>(
        &self,
        world: &W,
        materials: &Vec<M>,
        pixels: &mut Vec<Color>,
        start_row: i32,
        end_row: i32,
        fpu: &A,
    )
        requires
            0 <= self.image_width,
            0 <= start_row <= end_row,
            end_row * self.image_width <= old(pixels)@.len(),
            self.rendered_above(world, materials@, fpu, old(pixels)@, start_row as int),
        ensures
            final(pixels)@.len() == old(pixels)@.len(),
            self.rendered_above(world, materials@, fpu, final(pixels)@, end_row as int),
    {
        let width = self.image_width;
        let total = pixels.len();
        proof {
            assert(end_row * width <= total);
            assert((end_row - start_row) * width <= end_row * width && start_row * width + (end_row
                - start_row) * width == end_row * width && 0 <= start_row * width) by (nonlinear_arith)
                requires
                    0 <= start_row <= end_row,
                    0 <= width,
            ;
        }
        let report = |done: usize| {  };
        let (slice, _) = self.render_slice(world, materials, start_row, end_row, &report, fpu);
        let ghost before = pixels@;
        place_slice(pixels, width, start_row, &slice);
        proof {
            assert forall|i: i32, j: i32| 0 <= i < width && 0 <= j < end_row implies self.exposes(
                world,
                materials@,
                i,
                j,
                fpu,
                #[trigger] pixels@[slot(width as int, 0, i as int, j as int)],
            ) by {
                if j < start_row {
                    lemma_slot_order(width as int, 0, i as int, j as int, 0, start_row as int);
                    assert(pixels@[slot(width as int, 0, i as int, j as int)] == before[slot(
                        width as int,
                        0,
                        i as int,
                        j as int,
                    )]);
                } else {
                    let at = slot(width as int, start_row as int, i as int, j as int);
                    lemma_slot_bounds(width as int, start_row as int, end_row as int, i as int, j as int);
                    assert(start_row * width + at == slot(width as int, 0, i as int, j as int))
                        by (nonlinear_arith)
                        requires
                            at == (j - start_row) * width + i,
                            slot(width as int, 0, i as int, j as int) == (j - 0) * width + i,
                    ;
                }
            }
        }
    }
}

/// The rows of every range of a partition lie in the image.
pub proof fn lemma_rows_stay_in_the_image(ranges: Seq<(i32, i32)>, height: int, k: int)
    requires
        0 <= k < ranges.len(),
        ranges[0].0 == 0,
        ranges[ranges.len() - 1].1 == height,
        forall|m: int| 0 <= m < ranges.len() ==> (#[trigger] ranges[m]).0 < ranges[m].1,
        forall|m: int| 0 < m < ranges.len() ==> (#[trigger] ranges[m]).0 == ranges[m - 1].1,
    ensures
        0 <= ranges[k].0 < ranges[k].1 <= height,
{
    lemma_rows_ascend(ranges, 0, k);
    lemma_rows_ascend(ranges, k, ranges.len() - 1);
}

/// The ranges of a partition begin and end later and later.
pub proof fn lemma_rows_ascend(ranges: Seq<(i32, i32)>, a: int, b: int)
    requires
        0 <= a <= b < ranges.len(),
        forall|m: int| 0 <= m < ranges.len() ==> (#[trigger] ranges[m]).0 < ranges[m].1,
        forall|m: int| 0 < m < ranges.len() ==> (#[trigger] ranges[m]).0 == ranges[m - 1].1,
    ensures
        ranges[a].0 <= ranges[b].0,
        ranges[a].1 <= ranges[b].1,
    decreases b - a,
{
    if a < b {
        lemma_rows_ascend(ranges, a, b - 1);
    }
}

} // verus!
