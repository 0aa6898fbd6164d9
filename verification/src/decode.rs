//! Decoding the bytes of an image file.

use crate::raster::{sample_count, Image, Raster};
use vstd::prelude::*;

verus! {

/// The error type of the `image` crate.
#[verifier::external_type_specification]
#[verifier::external_body]
pub struct OutsideImageError(image::ImageError);

/// The file formats that the `image` crate knows.
#[verifier::external_type_specification]
#[verifier::external_body]
pub struct OutsideImageFormat(image::ImageFormat);

/// Why the bytes of a file gave no image.
#[derive(Debug)]
pub enum DecodeError {
    /// The extension of the path names no format; with the decoder's account.
    UnknownFormat(String),
    /// The bytes are no image of the format that the path names; with the
    /// decoder's account.
    Malformed(String),
    /// The decoder's samples do not fill the size that it reported.
    Incomplete,
}

impl DecodeError {
    /// The decoder's account of the failure; empty where it gave none.
    pub fn cause(&self) -> (cause: String)
        ensures
            self matches DecodeError::UnknownFormat(account) ==> cause@ == account@,
            self matches DecodeError::Malformed(account) ==> cause@ == account@,
            self is Incomplete ==> cause@ == Seq::<char>::empty(),
    {
        match self {
            DecodeError::UnknownFormat(account) => account.clone(),
            DecodeError::Malformed(account) => account.clone(),
            DecodeError::Incomplete => String::new(),
        }
    }
}

/// Calls `image::ImageFormat::from_path`, which goes by the extension of the
/// path. Nothing is claimed of its result.
#[verifier::external_body]
fn format_of_path(path: &str) -> Result<image::ImageFormat, image::ImageError> {
    image::ImageFormat::from_path(path)
}

/// Calls `image::load_from_memory_with_format` and hands back the decoded
/// image as RGBA samples of eight bits (`DynamicImage::into_rgba8`), with its
/// width and height. Nothing is claimed of its result.
#[verifier::external_body]
fn decode_rgba8(bytes: &[u8], format: image::ImageFormat) -> Result<
    (u32, u32, Vec<u8>),
    image::ImageError,
> {
    let decoded = image::load_from_memory_with_format(bytes, format)?.into_rgba8();
    Ok((decoded.width(), decoded.height(), decoded.into_raw()))
}

/// The `Debug` text of an error of the `image` crate. Nothing is claimed of it.
#[verifier::external_body]
fn describe(error: &image::ImageError) -> String {
    format!("{:?}", error)
}

/// The image that a decoder's answer stands for: an image of `width` by
/// `height` pixels with the given RGBA samples, where they are four for each
/// pixel, and no image where they are not.
pub fn image_of_samples(width: u32, height: u32, samples: Vec<u8>) -> (decoded: Result<
    Image,
    DecodeError,
>)
    ensures
        decoded is Ok <==> samples.len() == sample_count(width as nat, height as nat),
        decoded matches Ok(image) ==> image@ == (Raster {
            width: width as nat,
            height: height as nat,
            samples: samples@,
        }) && image@.wf(),
        decoded matches Err(error) ==> error is Incomplete,
{
    match Image::from_rgba8(width, height, samples) {
        Some(image) => Ok(image),
        None => Err(DecodeError::Incomplete),
    }
}

/// Decodes the bytes of the file at `path`. The format is the one that the
/// extension of the path names; the file itself is not touched.
///
/// Whether there is an image is for the decoder to say: it may refuse the
/// path (`UnknownFormat`) or the bytes (`Malformed`), and [`image_of_samples`]
/// says what becomes of its answer. An image that comes back has samples that
/// fill its size.
pub fn decode_image(path: &str, bytes: &[u8]) -> (decoded: Result<Image, DecodeError>)
    ensures
        decoded matches Ok(image) ==> image@.wf(),
{
    let format = match format_of_path(path) {
        Ok(format) => format,
        Err(error) => {
            return Err(DecodeError::UnknownFormat(describe(&error)));
        },
    };
    match decode_rgba8(bytes, format) {
        Ok((width, height, samples)) => image_of_samples(width, height, samples),
        Err(error) => Err(DecodeError::Malformed(describe(&error))),
    }
}

} // verus!
