//! From radiance to the bytes of an image file.
//!
//! A channel of a pixel is written as the square root of its radiance,
//! clamped to the interval from 0 to 0.999, times 256, without its fraction.
//! The file is a plain PPM in ASCII: a line with the magic number, the width
//! and the height, the line `255`, and then one line of three numbers for
//! each pixel, row by row from the top.

use crate::interval::Interval;
use crate::scalar::{Arithmetic, Scalar, HIDDEN_BIT, SIGN_BIT};
use crate::text::{decimal, push_decimal, push_signed, signed_decimal};
use crate::vector::{Color, Vector3};
use vstd::prelude::*;

verus! {

/// The bits of 0.999, the brightest that a channel is written as.
pub const BRIGHTEST_BITS: u64 = 0x3FEF_F7CE_D916_872B;

/// The bits of 1.0.
pub const ONE_BITS: u64 = 0x3FF0_0000_0000_0000;

/// The bits of 1/256: 256 times a smaller number has no whole part.
pub const STEP_BITS: u64 = 0x3F70_0000_0000_0000;

/// Two to the power of 45.
pub const LOW_BITS: u64 = 0x2000_0000_0000;

/// `x` divided by two `n` times, without the remainders.
pub open spec fn halved(x: int, n: int) -> int
    decreases n,
{
    if n <= 0 {
        x
    } else {
        halved(x / 2, n - 1)
    }
}

/// The whole part of 256 times the number `c`, for a `c` from 0 up to 1; 0
/// for a NaN or a negative number, and 255 for 1 and more.
///
/// A number from 1/256 up to 1 has the value
/// `(2^52 + mantissa) / 2^(1075 - exponent)` with an exponent from 1015 to
/// 1022, so that 256 times the number is `(2^52 + mantissa) / 2^45`, halved
/// once for each step of the exponent below 1022.
pub open spec fn byte_of(c: Scalar) -> int {
    if c.nan() || c.bits >= SIGN_BIT || c.bits < STEP_BITS {
        0
    } else if c.bits >= ONE_BITS {
        255
    } else {
        let exponent = c.bits / HIDDEN_BIT;
        let mantissa = c.bits % HIDDEN_BIT;
        halved((HIDDEN_BIT + mantissa) / (LOW_BITS as int), 1022 - exponent)
    }
}

/// The square root of a radiance above zero; zero for any other.
pub open spec fn gamma<A: Arithmetic>(linear: Scalar, fpu: &A) -> Scalar {
    if (Scalar { bits: 0 }).below(linear) {
        fpu.square_root(linear)
    } else {
        Scalar { bits: 0 }
    }
}

/// The number that a channel of the radiance `linear` is written as.
pub open spec fn channel<A: Arithmetic>(linear: Scalar, fpu: &A) -> int {
    byte_of(
        (Interval { min: Scalar { bits: 0 }, max: Scalar { bits: BRIGHTEST_BITS } }).clamped(
            gamma(linear, fpu),
        ),
    )
}

/// The line of a pixel: its three channels, with a space between them and
/// a line feed at the end.
pub open spec fn pixel_line<A: Arithmetic>(color: Color, fpu: &A) -> Seq<u8> {
    decimal(channel(color.x, fpu) as nat).push(32u8) + decimal(channel(color.y, fpu) as nat).push(32u8)
        + decimal(channel(color.z, fpu) as nat).push(10u8)
}

/// The head of the file: the magic number of the plain PPM format, the
/// width and the height, and `255`, each on its line.
pub open spec fn ppm_head(width: int, height: int) -> Seq<u8> {
    seq![80u8, 51u8, 10u8] + signed_decimal(width).push(32u8) + signed_decimal(height).push(10u8)
        + seq![50u8, 53u8, 53u8, 10u8]
}

/// The lines of the first `k` pixels.
pub open spec fn pixel_lines<A: Arithmetic>(pixels: Seq<Color>, k: int, fpu: &A) -> Seq<u8>
    decreases k,
{
    if k <= 0 {
        Seq::empty()
    } else {
        pixel_lines(pixels, k - 1, fpu) + pixel_line(pixels[k - 1], fpu)
    }
}

/// Halving does not make a number greater, nor a number that is not
/// negative less than zero.
pub proof fn lemma_halved_bounds(x: int, n: int)
    requires
        0 <= x,
    ensures
        0 <= halved(x, n) <= x,
    decreases n,
{
    if n > 0 {
        lemma_halved_bounds(x / 2, n - 1);
    }
}

/// The whole part of 256 times `c`.
pub fn to_byte(c: Scalar) -> (r: u8)
    ensures
        r == byte_of(c),
{
    if c.is_nan() || c.bits >= SIGN_BIT || c.bits < STEP_BITS {
        return 0;
    }
    if c.bits >= ONE_BITS {
        return 255;
    }
    let exponent: u64 = c.bits / HIDDEN_BIT;
    let mantissa: u64 = c.bits % HIDDEN_BIT;
    let mut top: u64 = (HIDDEN_BIT + mantissa) / LOW_BITS;
    let mut steps: u64 = 1022 - exponent;
    let ghost whole = top as int;
    let ghost all = steps as int;
    proof {
        lemma_halved_bounds(whole, all);
    }
    while steps > 0
        invariant
            0 <= top <= 255,
            halved(top as int, steps as int) == halved(whole, all),
        decreases steps,
    {
        top = top / 2;
        steps = steps - 1;
    }
    top as u8
}

impl Vector3 {
    /// The square root of a radiance above zero; zero for any other.
    pub fn linear_to_gamma<A: Arithmetic>(linear: Scalar, fpu: &A) -> (r: Scalar)
        ensures
            r == gamma(linear, fpu),
    {
        if linear.gt(Scalar::zero()) {
            fpu.root(linear)
        } else {
            Scalar::zero()
        }
    }

    /// The three numbers that the colour is written as.
    pub fn to_rgb<A: Arithmetic>(&self, fpu: &A) -> (rgb: [u8; 3])
        ensures
            rgb[0] == channel(self.x, fpu),
            rgb[1] == channel(self.y, fpu),
            rgb[2] == channel(self.z, fpu),
    {
        let intensity = Interval::new(Scalar::zero(), Scalar::from_bits(BRIGHTEST_BITS));
        let r = Vector3::linear_to_gamma(self.x, fpu);
        let g = Vector3::linear_to_gamma(self.y, fpu);
        let b = Vector3::linear_to_gamma(self.z, fpu);
        [to_byte(intensity.clamp(r)), to_byte(intensity.clamp(g)), to_byte(intensity.clamp(b))]
    }

    /// Appends the line of the colour to the bytes of a file.
    pub fn write_color<A: Arithmetic>(&self, file: &mut Vec<u8>, fpu: &A)
        ensures
            final(file)@ == old(file)@ + pixel_line(*self, fpu),
    {
        let rgb = self.to_rgb(fpu);
        push_decimal(file, rgb[0] as u128);
        file.push(32);
        push_decimal(file, rgb[1] as u128);
        file.push(32);
        push_decimal(file, rgb[2] as u128);
        file.push(10);
    }
}

/// The bytes of the image file for `width` times `height` pixels, given
/// row by row from the top.
pub fn encode_ppm<A: Arithmetic>(width: i32, height: i32, pixels: &Vec<Color>, fpu: &A) -> (file: Vec<u8>)
    ensures
        file@ == ppm_head(width as int, height as int) + pixel_lines(pixels@, pixels@.len() as int, fpu),
{
    let mut file: Vec<u8> = Vec::new();
    file.push(80);
    file.push(51);
    file.push(10);
    push_signed(&mut file, width);
    file.push(32);
    push_signed(&mut file, height);
    file.push(10);
    file.push(50);
    file.push(53);
    file.push(53);
    file.push(10);
    let mut k: usize = 0;
    while k < pixels.len()
        invariant
            k <= pixels@.len(),
            file@ == ppm_head(width as int, height as int) + pixel_lines(pixels@, k as int, fpu),
        decreases pixels@.len() - k,
    {
        pixels[k].write_color(&mut file, fpu);
        k = k + 1;
    }
    file
}

} // verus!
