//! Textures: the colour of a surface at a point.

use crate::image::Image;
use crate::interval::Interval;
use crate::perlin::Perlin;
use crate::scalar::{saturated, Arithmetic, Chance, Scalar};
use crate::vector::{Color, Point3, Vector3};
use vstd::prelude::*;

verus! {

/// The bits of 1.0.
pub const ONE_BITS: u64 = 0x3FF0_0000_0000_0000;

/// The bits of one over 255: the step from one value of a byte to the
/// next, where 255 is full intensity.
pub const BYTE_STEP_BITS: u64 = 0x3F70_1010_1010_1010;

/// A texture gives the colour at the texture coordinates `(u, v)` of the
/// point `p`. One that does not say otherwise is black everywhere.
pub trait Texture<A: Arithmetic> {
    fn value(&self, u: Scalar, v: Scalar, p: &Point3, fpu: &A) -> (out: Color)
        default_ensures
            out == Vector3::origin(),
    {
        Vector3::zero()
    }
}

/// `value` of the texture, asked with these arguments, may return `out`.
pub open spec fn colours<A: Arithmetic, T: Texture<A>>(
    texture: &T,
    u: Scalar,
    v: Scalar,
    p: &Point3,
    fpu: &A,
    out: Color,
) -> bool {
    call_ensures(T::value, (texture, u, v, p, fpu), out)
}

/// One colour everywhere.
pub struct SolidTexture {
    pub albedo: Color,
}

impl SolidTexture {
    pub fn new(albedo: Color) -> (r: Self)
        ensures
            r.albedo == albedo,
    {
        Self { albedo }
    }
}

impl<A: Arithmetic> Texture<A> for SolidTexture {
    fn value(&self, _u: Scalar, _v: Scalar, _p: &Point3, _fpu: &A) -> (out: Color)
        ensures
            out == self.albedo,
    {
        self.albedo
    }
}

/// The sides of the cells of a checker board, and which of its two textures
/// covers a cell.
pub struct CheckerTexture<E, O> {
    pub inv_scale: Scalar,
    pub even: E,
    pub odd: O,
}

/// Whether the cell with these three indices takes the even texture of a
/// checker board: its indices add up to an even number.
pub open spec fn even_cell(x: int, y: int, z: int) -> bool {
    (x + y + z) % 2 == 0
}

impl CheckerTexture<SolidTexture, SolidTexture> {
    /// The board of two colours whose cells have sides of `scale`.
    pub fn new_colors<A: Arithmetic>(scale: Scalar, even: Color, odd: Color, fpu: &A) -> (r: Self)
        ensures
            r.inv_scale == fpu.quotient(Scalar { bits: 0x3FF0_0000_0000_0000 }, scale),
            r.even.albedo == even,
            r.odd.albedo == odd,
    {
        Self {
            inv_scale: fpu.over(Scalar::one(), scale),
            even: SolidTexture::new(even),
            odd: SolidTexture::new(odd),
        }
    }
}

impl<E, O> CheckerTexture<E, O> {
    /// The board whose cells have sides of `scale`.
    pub fn new<A: Arithmetic>(scale: Scalar, even: E, odd: O, fpu: &A) -> (r: Self)
        ensures
            r.inv_scale == fpu.quotient(Scalar { bits: 0x3FF0_0000_0000_0000 }, scale),
            r.even == even,
            r.odd == odd,
    {
        Self { inv_scale: fpu.over(Scalar::one(), scale), even, odd }
    }

    /// The coordinates of the point `p` in cells, before they are rounded
    /// down.
    pub fn cell_coordinates<A: Arithmetic>(&self, p: &Point3, fpu: &A) -> (r: Vector3)
        ensures
            r == Vector3::stretched(*p, self.inv_scale, fpu),
    {
        Vector3::new(
            fpu.times(p.x(), self.inv_scale),
            fpu.times(p.y(), self.inv_scale),
            fpu.times(p.z(), self.inv_scale),
        )
    }

    /// The cell in which the point `p` lies: its coordinates in cells,
    /// rounded down.
    pub open spec fn cell<A: Arithmetic>(&self, p: Point3, fpu: &A) -> (int, int, int) {
        (
            saturated(fpu.product(p.x, self.inv_scale).floored().truncation()),
            saturated(fpu.product(p.y, self.inv_scale).floored().truncation()),
            saturated(fpu.product(p.z, self.inv_scale).floored().truncation()),
        )
    }

    /// The colour of the cell with the indices `(x, y, z)`: that of the even
    /// texture where the indices add up to an even number, else that of the
    /// odd one.
    pub fn value_in_cell<A: Arithmetic>(&self, x: i32, y: i32, z: i32, u: Scalar, v: Scalar, p: &Point3, fpu: &A) -> (out:
        Color) where E: Texture<A>, O: Texture<A>
        ensures
            even_cell(x as int, y as int, z as int) ==> colours(&self.even, u, v, p, fpu, out),
            !even_cell(x as int, y as int, z as int) ==> colours(&self.odd, u, v, p, fpu, out),
    {
        let sum: i64 = x as i64 + y as i64 + z as i64;
        if sum % 2 == 0 {
            self.even.value(u, v, p, fpu)
        } else {
            self.odd.value(u, v, p, fpu)
        }
    }
}

impl<A: Arithmetic, E: Texture<A>, O: Texture<A>> Texture<A> for CheckerTexture<E, O> {
    /// The colour of the cell in which `p` lies.
    fn value(&self, u: Scalar, v: Scalar, p: &Point3, fpu: &A) -> (out: Color)
        ensures
            ({
                let (x, y, z) = self.cell(*p, fpu);
                if even_cell(x, y, z) {
                    colours(&self.even, u, v, p, fpu, out)
                } else {
                    colours(&self.odd, u, v, p, fpu, out)
                }
            }),
    {
        let cell = self.cell_coordinates(p, fpu);
        let x = cell.x().floor().to_i32();
        let y = cell.y().floor().to_i32();
        let z = cell.z().floor().to_i32();
        self.value_in_cell(x, y, z, u, v, p, fpu)
    }
}

/// A texture that is read off an image.
pub struct ImageTexture {
    pub image: Image,
}

impl ImageTexture {
    pub fn new(image: Image) -> (r: Self)
        ensures
            r.image == image,
    {
        Self { image }
    }

    /// Whether there is an image to read: where there is none, the texture
    /// is magenta all over.
    pub fn has_image(&self) -> (r: bool)
        ensures
            r == (self.image.spec_height() > 0),
    {
        self.image.height() > 0
    }

    /// The place in the image, as fractions of its sides, that the texture
    /// coordinates `(u, v)` stand for: `u` clamped to the interval from 0 to
    /// 1, and 1 minus `v` clamped likewise, as the rows of an image are
    /// counted from the top.
    pub fn image_coordinates<A: Arithmetic>(u: Scalar, v: Scalar, fpu: &A) -> (r: (Scalar, Scalar))
        ensures
            r.0 == (Interval { min: Scalar { bits: 0 }, max: Scalar { bits: 0x3FF0_0000_0000_0000 } }).clamped(u),
            r.1 == fpu.difference(
                Scalar { bits: 0x3FF0_0000_0000_0000 },
                (Interval { min: Scalar { bits: 0 }, max: Scalar { bits: 0x3FF0_0000_0000_0000 } }).clamped(v),
            ),
    {
        let unit = Interval::new(Scalar::zero(), Scalar::one());
        (unit.clamp(u), fpu.minus(Scalar::one(), unit.clamp(v)))
    }

    /// The colour of the image at the texture coordinates `(u, v)`: that of
    /// the pixel that lies the fractions `u` of the width from the left and
    /// `1 - v` of the height from the top, each byte of it over 255. Without
    /// an image it is magenta, the colour that stands for a missing image.
    pub open spec fn read<A: Arithmetic>(&self, u: Scalar, v: Scalar, fpu: &A) -> Color {
        if self.image.spec_height() <= 0 {
            Vector3 { x: Scalar { bits: ONE_BITS }, y: Scalar { bits: 0 }, z: Scalar { bits: ONE_BITS } }
        } else {
            let unit = Interval { min: Scalar { bits: 0 }, max: Scalar { bits: ONE_BITS } };
            let across = unit.clamped(u);
            let down = fpu.difference(Scalar { bits: ONE_BITS }, unit.clamped(v));
            let i = saturated(fpu.product(across, Scalar::whole(self.image.spec_width() as int)).truncation());
            let j = saturated(fpu.product(down, Scalar::whole(self.image.spec_height() as int)).truncation());
            let pixel = self.image.texel(i, j);
            let color_scale = Scalar { bits: BYTE_STEP_BITS };
            Vector3 {
                x: fpu.product(color_scale, Scalar::whole(pixel[0] as int)),
                y: fpu.product(color_scale, Scalar::whole(pixel[1] as int)),
                z: fpu.product(color_scale, Scalar::whole(pixel[2] as int)),
            }
        }
    }

    /// The three bytes of the pixel in column `i` and row `j`, both moved
    /// into the image where they lie outside.
    pub fn texel(&self, i: i32, j: i32) -> (r: [u8; 3])
        ensures
            r == self.image.texel(i as int, j as int),
    {
        self.image.pixel_data(i, j)
    }
}

impl<A: Arithmetic> Texture<A> for ImageTexture {
    fn value(&self, u: Scalar, v: Scalar, p: &Point3, fpu: &A) -> (out: Color)
        ensures
            out == self.read(u, v, fpu),
    {
        if !self.has_image() {
            return Vector3::new(Scalar::one(), Scalar::zero(), Scalar::one());
        }
        let (u, v) = ImageTexture::image_coordinates(u, v, fpu);
        let i = fpu.times(u, Scalar::from_i32(self.image.width() as i32)).to_i32();
        let j = fpu.times(v, Scalar::from_i32(self.image.height() as i32)).to_i32();
        let pixel = self.texel(i, j);
        let color_scale = Scalar::from_bits(BYTE_STEP_BITS);
        Vector3::new(
            fpu.times(color_scale, Scalar::from_i32(pixel[0] as i32)),
            fpu.times(color_scale, Scalar::from_i32(pixel[1] as i32)),
            fpu.times(color_scale, Scalar::from_i32(pixel[2] as i32)),
        )
    }
}

/// A texture of noise: shades of grey.
pub struct NoiseTexture {
    /// How many cells of the lattice there are to a unit of length.
    pub scale: Scalar,
    pub noise: Perlin,
}

impl NoiseTexture {
    /// The texture of new noise.
    pub fn new<A: Chance>(scale: Scalar, fpu: &A) -> (r: Self)
        ensures
            r.scale == scale,
    {
        Self { scale, noise: Perlin::new(fpu) }
    }

    /// The texture of the given noise.
    pub fn with_noise(scale: Scalar, noise: Perlin) -> (r: Self)
        ensures
            r.scale == scale,
            r.noise == noise,
    {
        Self { scale, noise }
    }

    /// The grey of the noise at the point `p`, with the point scaled.
    pub open spec fn grey<A: Arithmetic>(&self, p: Point3, fpu: &A) -> Color {
        let noise = self.noise.at(Vector3::stretched(p, self.scale, fpu), fpu);
        Vector3::stretched(
            Vector3::stretched(
                Vector3 { x: Scalar { bits: ONE_BITS }, y: Scalar { bits: ONE_BITS }, z: Scalar { bits: ONE_BITS } },
                Scalar { bits: 0x3FE0_0000_0000_0000 },
                fpu,
            ),
            fpu.sum(Scalar { bits: ONE_BITS }, noise),
            fpu,
        )
    }

    /// The point at which the noise is read for the point `p`.
    pub fn noise_point<A: Arithmetic>(&self, p: &Point3, fpu: &A) -> (r: Point3)
        ensures
            r == Vector3::stretched(*p, self.scale, fpu),
    {
        Vector3::new(fpu.times(p.x(), self.scale), fpu.times(p.y(), self.scale), fpu.times(p.z(), self.scale))
    }

    /// The grey for a value of the noise: `0.5 * (1 + noise)` in every
    /// channel.
    pub fn shade<A: Arithmetic>(noise: Scalar, fpu: &A) -> (r: Color)
        ensures
            r == Vector3::stretched(
                Vector3::stretched(
                    Vector3 {
                        x: Scalar { bits: 0x3FF0_0000_0000_0000 },
                        y: Scalar { bits: 0x3FF0_0000_0000_0000 },
                        z: Scalar { bits: 0x3FF0_0000_0000_0000 },
                    },
                    Scalar { bits: 0x3FE0_0000_0000_0000 },
                    fpu,
                ),
                fpu.sum(Scalar { bits: 0x3FF0_0000_0000_0000 }, noise),
                fpu,
            ),
    {
        let mut c = Vector3::new(Scalar::one(), Scalar::one(), Scalar::one());
        c.mul_assign(Scalar::from_bits(0x3FE0_0000_0000_0000), fpu);
        c.mul_assign(fpu.plus(Scalar::one(), noise), fpu);
        c
    }
}

impl<A: Arithmetic> Texture<A> for NoiseTexture {
    fn value(&self, _u: Scalar, _v: Scalar, p: &Point3, fpu: &A) -> (out: Color)
        ensures
            out == self.grey(*p, fpu),
    {
        NoiseTexture::shade(self.noise.noise(&self.noise_point(p, fpu), fpu), fpu)
    }
}

} // verus!
