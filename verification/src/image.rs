//! Decoded images: rows of RGB pixels, eight bits a channel.

use vstd::prelude::*;

verus! {

/// An image, or none yet. The pixels lie row by row from the top left, three
/// bytes each.
pub struct Image {
    data: Option<Vec<u8>>,
    width: u32,
    height: u32,
}

/// Whether `width * height` pixels of three bytes make up exactly `len`
/// bytes, the image is not empty, and both sides can be held in an `i32`.
pub open spec fn fits(width: u32, height: u32, len: nat) -> bool {
    &&& 0 < width <= i32::MAX
    &&& 0 < height <= i32::MAX
    &&& len == 3 * width * height
}

/// `x` moved into the range from `low` up to, but not including, `high`.
pub open spec fn clamped(x: int, low: int, high: int) -> int {
    if x < low {
        low
    } else if x < high {
        x
    } else {
        high - 1
    }
}

impl Image {
    #[verifier::type_invariant]
    spec fn inv(self) -> bool {
        match self.data {
            Some(d) => fits(self.width, self.height, d@.len()),
            None => self.width == 0 && self.height == 0,
        }
    }

    /// The bytes of the image, where one is loaded.
    pub closed spec fn pixels(&self) -> Option<Seq<u8>> {
        match self.data {
            Some(d) => Some(d@),
            None => None,
        }
    }

    /// The width in pixels; 0 where no image is loaded.
    pub closed spec fn spec_width(&self) -> u32 {
        self.width
    }

    /// The height in pixels; 0 where no image is loaded.
    pub closed spec fn spec_height(&self) -> u32 {
        self.height
    }

    /// The colour at column `x` and row `y`, once both are clamped to the
    /// image; magenta where no image is loaded.
    pub open spec fn texel(&self, x: int, y: int) -> [u8; 3] {
        match self.pixels() {
            None => [255u8, 0u8, 255u8],
            Some(d) => {
                let at = 3 * (clamped(y, 0, self.spec_height() as int) * self.spec_width() + clamped(
                    x,
                    0,
                    self.spec_width() as int,
                ));
                [d[at], d[at + 1], d[at + 2]]
            },
        }
    }

    /// An image with nothing loaded.
    pub fn new() -> (r: Image)
        ensures
            r.pixels() is None,
            r.spec_width() == 0,
            r.spec_height() == 0,
    {
        Image { data: None, width: 0, height: 0 }
    }

    /// Takes the decoded pixels of an image. They are kept where they make
    /// up an image of the given sides; otherwise the image stays as it was.
    pub fn load(&mut self, width: u32, height: u32, data: Vec<u8>) -> (r: bool)
        ensures
            r == fits(width, height, data@.len()),
            r ==> final(self).pixels() == Some(data@) && final(self).spec_width() == width
                && final(self).spec_height() == height,
            !r ==> final(self).pixels() == old(self).pixels() && final(self).spec_width() == old(
                self,
            ).spec_width() && final(self).spec_height() == old(self).spec_height(),
    {
        proof {
            use_type_invariant(&*self);
        }
        if width == 0 || height == 0 || width > 0x7FFF_FFFF || height > 0x7FFF_FFFF {
            return false;
        }
        assert(width * height <= 0x7FFF_FFFF * 0x7FFF_FFFF && 3 * width * height == 3 * (width
            * height)) by (nonlinear_arith)
            requires
                width <= 0x7FFF_FFFF,
                height <= 0x7FFF_FFFF,
        ;
        let area: u64 = (width as u64) * (height as u64);
        let bytes: u64 = 3 * area;
        if data.len() as u64 != bytes {
            return false;
        }
        *self = Image { data: Some(data), width, height };
        true
    }

    pub fn width(&self) -> (r: u32)
        ensures
            r == self.spec_width(),
            r <= i32::MAX,
    {
        proof {
            use_type_invariant(self);
        }
        self.width
    }

    pub fn height(&self) -> (r: u32)
        ensures
            r == self.spec_height(),
            r <= i32::MAX,
    {
        proof {
            use_type_invariant(self);
        }
        self.height
    }

    /// The colour at column `x` and row `y`. Coordinates outside the image
    /// are moved to its nearest edge, and an image that was never loaded is
    /// magenta all over.
    pub fn pixel_data(&self, x: i32, y: i32) -> (r: [u8; 3])
        ensures
            r == self.texel(x as int, y as int),
    {
        proof {
            use_type_invariant(self);
        }
        match &self.data {
            None => [255, 0, 255],
            Some(data) => {
                let col = Self::clamp(x, 0, self.width as i32) as usize;
                let row = Self::clamp(y, 0, self.height as i32) as usize;
                let w = self.width as usize;
                let h = self.height as usize;
                assert(row * w + w <= h * w && 3 * (h * w) == 3 * w * h) by (nonlinear_arith)
                    requires
                        0 <= row < h,
                        0 <= w,
                ;
                let len = data.len();
                assert(3 * (row * w + col) + 2 < len);
                let at: usize = 3 * (row * w + col);
                [data[at], data[at + 1], data[at + 2]]
            },
        }
    }

    fn clamp(x: i32, low: i32, high: i32) -> (r: i32)
        requires
            high > i32::MIN,
        ensures
            r == clamped(x as int, low as int, high as int),
            low < high ==> low <= r < high,
    {
        if x < low {
            low
        } else if x < high {
            x
        } else {
            high - 1
        }
    }
}

impl Default for Image {
    fn default() -> (r: Image)
        ensures
            r.pixels() is None,
            r.spec_width() == 0,
            r.spec_height() == 0,
    {
        Self::new()
    }
}

} // verus!
