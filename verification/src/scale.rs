//! Reducing an image by an integer factor.

use crate::raster::{sample_count, Image, Raster};
use vstd::prelude::*;

verus! {

/// One side of the reduced image: the side divided by the factor, rounded
/// down. The factor zero leaves nothing.
pub open spec fn target_dimension(side: nat, scale: nat) -> nat {
    if scale == 0 {
        0
    } else {
        side / scale
    }
}

/// The RGBA samples that `image::imageops::resize` returns, with the filter
/// `Nearest`, for an image of `width` by `height` pixels with the given
/// samples and the new size `new_width` by `new_height`.
pub uninterp spec fn nearest_resized(
    width: nat,
    height: nat,
    samples: Seq<u8>,
    new_width: nat,
    new_height: nat,
) -> Seq<u8>;

/// The reduced raster: both sides divided by the factor, and the samples
/// that nearest-neighbour resampling picks. Where a side becomes zero, no
/// sample is left.
pub open spec fn resized(raster: Raster, scale: nat) -> Raster {
    let width = target_dimension(raster.width, scale);
    let height = target_dimension(raster.height, scale);
    Raster {
        width,
        height,
        samples: if width == 0 || height == 0 {
            Seq::empty()
        } else {
            nearest_resized(raster.width, raster.height, raster.samples, width, height)
        },
    }
}

/// For a factor of at least one, the reduced raster has the sides of the
/// raster divided by the factor, rounded down.
pub proof fn lemma_resized_dimensions(raster: Raster, scale: nat)
    requires
        scale >= 1,
    ensures
        resized(raster, scale).width == raster.width / scale,
        resized(raster, scale).height == raster.height / scale,
{
}

/// Calls `image::imageops::resize` with the filter `Nearest` on the samples
/// taken as an RGBA image of `width` by `height` pixels.
///
/// Believed, not proved: `ImageBuffer::from_raw` accepts a buffer of exactly
/// four samples per pixel, so there is a result; the result holds four
/// samples for each pixel of the new size; and it depends on nothing but the
/// arguments. Both sizes are positive and the new one is no larger, so that
/// no buffer of the outside function outgrows the given one.
#[verifier::external_body]
fn resize_nearest(
    width: u32,
    height: u32,
    samples: &Vec<u8>,
    new_width: u32,
    new_height: u32,
) -> (reduced: Option<Vec<u8>>)
    requires
        samples.len() == sample_count(width as nat, height as nat),
        0 < new_width <= width,
        0 < new_height <= height,
    ensures
        reduced is Some,
        reduced matches Some(out) ==> out@ == nearest_resized(
            width as nat,
            height as nat,
            samples@,
            new_width as nat,
            new_height as nat,
        ),
        reduced matches Some(out) ==> out.len() == sample_count(new_width as nat, new_height as nat),
{
    let source = image::ImageBuffer::<image::Rgba<u8>, &[u8]>::from_raw(
        width,
        height,
        samples.as_slice(),
    )?;
    let filter = image::imageops::FilterType::Nearest;
    Some(image::imageops::resize(&source, new_width, new_height, filter).into_raw())
}

/// Computes one side of the reduced image.
pub fn target_side(side: u32, scale: u32) -> (target: u32)
    ensures
        target == target_dimension(side as nat, scale as nat),
{
    if scale == 0 {
        0
    } else {
        side / scale
    }
}

/// Reduces an image by an integer factor with nearest-neighbour resampling.
/// The image itself is left as it is.
pub fn resize_image(image: &Image, scale: u32) -> (reduced: Image)
    ensures
        reduced@ == resized(image@, scale as nat),
        reduced@.wf(),
        scale >= 1 ==> reduced@.width == image@.width / (scale as nat) && reduced@.height
            == image@.height / (scale as nat),
{
    let width: u32 = target_side(image.width(), scale);
    let height: u32 = target_side(image.height(), scale);
    let samples: Vec<u8> = if width == 0 || height == 0 {
        assert(sample_count(width as nat, height as nat) == 0) by (nonlinear_arith)
            requires
                width == 0 || height == 0,
        ;
        Vec::new()
    } else {
        resize_nearest(image.width(), image.height(), image.samples(), width, height).unwrap()
    };
    Image::from_rgba8(width, height, samples).unwrap()
}

} // verus!
