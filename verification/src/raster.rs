//! Images as grids of RGBA pixels.

use vstd::prelude::*;

verus! {

/// One pixel: its red, green, blue and alpha channel.
#[derive(Clone, Copy, Debug, PartialEq, Eq, Structural)]
pub struct Pixel {
    pub r: u8,
    pub g: u8,
    pub b: u8,
    pub a: u8,
}

impl Pixel {
    /// The colour channels, without alpha.
    pub open spec fn rgb(self) -> (u8, u8, u8) {
        (self.r, self.g, self.b)
    }
}

/// Number of channel samples in a grid of `width` by `height` pixels.
pub open spec fn sample_count(width: nat, height: nat) -> nat {
    4 * (width * height)
}

/// What an image is: its size and its channel samples, four per pixel, the
/// pixels row after row from the top, each row from the left.
pub struct Raster {
    pub width: nat,
    pub height: nat,
    pub samples: Seq<u8>,
}

impl Raster {
    /// The samples fill the grid exactly, and both sides fit in a `u32`.
    pub open spec fn wf(self) -> bool {
        &&& self.width <= u32::MAX
        &&& self.height <= u32::MAX
        &&& self.samples.len() == sample_count(self.width, self.height)
    }

    /// `(x, y)` names a pixel of the grid.
    pub open spec fn contains(self, x: int, y: int) -> bool {
        0 <= x < self.width && 0 <= y < self.height
    }

    /// Where the samples of the pixel at `(x, y)` start.
    pub open spec fn offset(self, x: int, y: int) -> int {
        4 * (y * self.width + x)
    }

    /// The pixel in column `x` of row `y`.
    pub open spec fn pixel(self, x: int, y: int) -> Pixel {
        let at = self.offset(x, y);
        Pixel {
            r: self.samples[at],
            g: self.samples[at + 1],
            b: self.samples[at + 2],
            a: self.samples[at + 3],
        }
    }
}

/// The samples of every pixel of a well-formed raster lie inside it.
pub proof fn lemma_offset_in_samples(raster: Raster, x: int, y: int)
    requires
        raster.wf(),
        raster.contains(x, y),
    ensures
        0 <= raster.offset(x, y),
        raster.offset(x, y) + 4 <= raster.samples.len(),
{
    let w = raster.width as int;
    let h = raster.height as int;
    assert(0 <= y * w && y * w + w <= w * h) by (nonlinear_arith)
        requires
            0 <= y < h,
            0 <= w,
    ;
}

/// A decoded image. Its samples always fill its grid exactly.
#[derive(Debug)]
pub struct Image {
    width: u32,
    height: u32,
    samples: Vec<u8>,
}

impl View for Image {
    type V = Raster;

    closed spec fn view(&self) -> Raster {
        Raster { width: self.width as nat, height: self.height as nat, samples: self.samples@ }
    }
}

impl Image {
    #[verifier::type_invariant]
    closed spec fn filled(&self) -> bool {
        self.samples.len() == sample_count(self.width as nat, self.height as nat)
    }

    /// Makes an image of `width` by `height` pixels from its RGBA samples.
    /// There is no image where the number of samples is not four per pixel.
    pub fn from_rgba8(width: u32, height: u32, samples: Vec<u8>) -> (image: Option<Image>)
        ensures
            image is Some <==> samples.len() == sample_count(width as nat, height as nat),
            image matches Some(made) ==> made@ == (Raster {
                width: width as nat,
                height: height as nat,
                samples: samples@,
            }) && made@.wf(),
    {
        assert(0 <= width * height <= 0xffff_ffff * 0xffff_ffff) by (nonlinear_arith)
            requires
                0 <= width <= 0xffff_ffff,
                0 <= height <= 0xffff_ffff,
        ;
        let pixels: u128 = width as u128 * height as u128;
        if samples.len() as u128 == 4 * pixels {
            Some(Image { width, height, samples })
        } else {
            None
        }
    }

    /// Width in pixels.
    pub fn width(&self) -> (width: u32)
        ensures
            width == self@.width,
            self@.wf(),
    {
        proof {
            use_type_invariant(self);
        }
        self.width
    }

    /// Height in pixels.
    pub fn height(&self) -> (height: u32)
        ensures
            height == self@.height,
            self@.wf(),
    {
        proof {
            use_type_invariant(self);
        }
        self.height
    }

    /// The samples, four per pixel.
    pub fn samples(&self) -> (samples: &Vec<u8>)
        ensures
            samples@ == self@.samples,
            self@.wf(),
    {
        proof {
            use_type_invariant(self);
        }
        &self.samples
    }

    /// The pixel in column `x` of row `y`.
    pub fn get_pixel(&self, x: u32, y: u32) -> (pixel: Pixel)
        requires
            self@.contains(x as int, y as int),
        ensures
            pixel == self@.pixel(x as int, y as int),
            self@.wf(),
    {
        proof {
            use_type_invariant(self);
            lemma_offset_in_samples(self@, x as int, y as int);
        }
        let at: usize = 4 * (y as usize * self.width as usize + x as usize);
        Pixel {
            r: self.samples[at],
            g: self.samples[at + 1],
            b: self.samples[at + 2],
            a: self.samples[at + 3],
        }
    }
}

} // verus!
