//! Brightness of a pixel and its position on a palette.

use vstd::prelude::*;

verus! {

/// Brightness of a pixel: the mean of its red, green and blue channels,
/// rounded down. It lies between 0 and 255.
pub open spec fn mean_brightness(pixel: (u8, u8, u8)) -> int {
    (pixel.0 + pixel.1 + pixel.2) / 3
}

/// Position, on a palette of `palette_len` glyphs, of the glyph for a
/// brightness: the integer nearest to `brightness / 255 * (palette_len - 1)`.
///
/// The quotient is never halfway between two integers, because twice the
/// numerator is even and 255 is odd; [`lemma_palette_index_nearest`] and
/// [`lemma_palette_index_unique`] show that this is the nearest integer.
pub open spec fn palette_index(brightness: int, palette_len: int) -> int {
    (2 * (brightness * (palette_len - 1)) + 255) / 510
}

/// Computes the brightness of a pixel given as `(red, green, blue)`.
pub fn brightness(pixel: (u8, u8, u8)) -> (level: u8)
    ensures
        level == mean_brightness(pixel),
{
    let sum: u32 = pixel.0 as u32 + pixel.1 as u32 + pixel.2 as u32;
    (sum / 3) as u8
}

/// Computes the palette position for a pixel given as `(red, green, blue)`,
/// on a palette of `palette_len` glyphs.
pub fn brightness_index(pixel: (u8, u8, u8), palette_len: usize) -> (index: usize)
    requires
        palette_len >= 1,
    ensures
        index == palette_index(mean_brightness(pixel), palette_len as int),
        index < palette_len,
{
    let level: u8 = brightness(pixel);
    let span: u128 = (palette_len - 1) as u128;
    proof {
        lemma_palette_index_bounds(level as int, palette_len as int);
        assert(0 <= level * span <= 255 * span) by (nonlinear_arith)
            requires
                0 <= level <= 255,
                0 <= span,
        ;
    }
    let scaled: u128 = 2 * (level as u128 * span) + 255;
    (scaled / 510) as usize
}

/// Every brightness has a position inside the palette.
pub proof fn lemma_palette_index_bounds(brightness: int, palette_len: int)
    requires
        0 <= brightness <= 255,
        palette_len >= 1,
    ensures
        0 <= palette_index(brightness, palette_len) < palette_len,
{
    assert(0 <= brightness * (palette_len - 1) <= 255 * (palette_len - 1)) by (nonlinear_arith)
        requires
            0 <= brightness <= 255,
            palette_len >= 1,
    ;
}

/// The position of a pixel lies inside every non-empty palette.
pub proof fn lemma_pixel_index_in_palette(pixel: (u8, u8, u8), palette_len: int)
    requires
        palette_len >= 1,
    ensures
        0 <= palette_index(mean_brightness(pixel), palette_len) < palette_len,
{
    lemma_palette_index_bounds(mean_brightness(pixel), palette_len);
}

/// The darkest brightness takes the first glyph and the brightest the last.
pub proof fn lemma_palette_index_ends(palette_len: int)
    requires
        palette_len >= 1,
    ensures
        palette_index(0, palette_len) == 0,
        palette_index(255, palette_len) == palette_len - 1,
{
}

/// The position is within half a step of the exact quotient: with both sides
/// multiplied by 510, `index * 255` and `brightness * (palette_len - 1)` differ
/// by less than 255.
pub proof fn lemma_palette_index_nearest(brightness: int, palette_len: int)
    requires
        0 <= brightness <= 255,
        palette_len >= 1,
    ensures
        -255 < 2 * (255 * palette_index(brightness, palette_len) - brightness * (palette_len - 1))
            < 255,
{
}

/// No other integer is within half a step of the exact quotient.
pub proof fn lemma_palette_index_unique(brightness: int, palette_len: int, index: int)
    requires
        -255 <= 2 * (255 * index - brightness * (palette_len - 1)) <= 255,
    ensures
        index == palette_index(brightness, palette_len),
{
}

/// A brightness that is not lower has a position that is not lower.
pub proof fn lemma_palette_index_monotonic(darker: int, brighter: int, palette_len: int)
    requires
        0 <= darker <= brighter,
        palette_len >= 1,
    ensures
        palette_index(darker, palette_len) <= palette_index(brighter, palette_len),
{
    assert(darker * (palette_len - 1) <= brighter * (palette_len - 1)) by (nonlinear_arith)
        requires
            0 <= darker <= brighter,
            palette_len >= 1,
    ;
}

/// Of two pixels, the one with the lower mean brightness never gets the
/// higher position.
pub proof fn lemma_brighter_pixel_not_lower(
    darker: (u8, u8, u8),
    brighter: (u8, u8, u8),
    palette_len: int,
)
    requires
        mean_brightness(darker) <= mean_brightness(brighter),
        palette_len >= 1,
    ensures
        palette_index(mean_brightness(darker), palette_len) <= palette_index(
            mean_brightness(brighter),
            palette_len,
        ),
{
    lemma_palette_index_monotonic(mean_brightness(darker), mean_brightness(brighter), palette_len);
}

} // verus!
