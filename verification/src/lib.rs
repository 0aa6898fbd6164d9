//! Renders raster images as text: an image is reduced by an integer factor,
//! and every pixel that is left becomes the palette glyph whose position
//! matches the pixel's brightness.

pub mod brightness;
pub mod raster;
pub mod palette;
pub mod art;
pub mod scale;
pub mod decode;
pub mod render;
