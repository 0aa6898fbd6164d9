//! From an image to its text in one step.

use crate::art::{
    art_text, generate_ascii_art, lemma_art_line_breaks, lemma_art_rows, lemma_row_glyphs,
    line_breaks, row_start, row_text,
};
use crate::palette::{
    lemma_selected_glyphs_are_no_line_breaks, lemma_unknown_selector_is_shade, selected_glyphs,
    Palette,
};
use crate::raster::{Image, Raster};
use crate::scale::{resize_image, resized, target_dimension};
use vstd::prelude::*;

verus! {

/// The factor by which the program reduces every image.
pub const SCALE: u32 = 4;

/// The text of a raster that is first reduced by `scale` and then written
/// with the palette that `selector` stands for.
pub open spec fn rendered(raster: Raster, scale: nat, selector: Seq<char>) -> Seq<char> {
    art_text(resized(raster, scale), selected_glyphs(selector))
}

/// Reduces the image by `scale` and writes what is left with the palette that
/// `selector` stands for.
pub fn render(image: &Image, scale: u32, selector: &str) -> (art: String)
    ensures
        art@ == rendered(image@, scale as nat, selector@),
{
    let reduced = resize_image(image, scale);
    let palette = Palette::from_selector(selector);
    generate_ascii_art(&reduced, &palette)
}

/// Rendering is a function of the image, the factor and the selector: two
/// texts that were rendered from the same three are the same text.
pub proof fn lemma_render_deterministic(
    raster: Raster,
    scale: nat,
    selector: Seq<char>,
    first: Seq<char>,
    second: Seq<char>,
)
    requires
        first == rendered(raster, scale, selector),
        second == rendered(raster, scale, selector),
    ensures
        first == second,
{
}

/// A selector that is neither `short` nor `long` renders every image as
/// `shade` does.
pub proof fn lemma_unknown_selector_renders_as_shade(
    raster: Raster,
    scale: nat,
    selector: Seq<char>,
)
    requires
        selector != "short"@,
        selector != "long"@,
    ensures
        rendered(raster, scale, selector) == rendered(raster, scale, "shade"@),
{
    lemma_unknown_selector_is_shade(selector);
}

/// The rendered text holds one line break less than the reduced image has
/// rows. Where a side of the reduced image is zero, it holds none.
pub proof fn lemma_rendered_line_breaks(raster: Raster, scale: nat, selector: Seq<char>)
    ensures
        line_breaks(rendered(raster, scale, selector)) == if target_dimension(raster.width, scale)
            == 0 || target_dimension(raster.height, scale) == 0 {
            0
        } else {
            target_dimension(raster.height, scale) - 1
        },
{
    lemma_selected_glyphs_are_no_line_breaks(selector);
    lemma_art_line_breaks(resized(raster, scale), selected_glyphs(selector));
}

/// Every row of the rendered text holds as many glyphs as the reduced image
/// is wide: row `y` starts at `y * (width + 1)`, holds the glyphs of the
/// pixels of row `y` of the reduced image and no line break, and a line break
/// follows it unless it is the last row.
pub proof fn lemma_rendered_rows(raster: Raster, scale: nat, selector: Seq<char>, y: int)
    requires
        target_dimension(raster.width, scale) > 0,
        0 <= y < target_dimension(raster.height, scale),
    ensures
        ({
            let width = target_dimension(raster.width, scale);
            let height = target_dimension(raster.height, scale);
            let text = rendered(raster, scale, selector);
            let row = row_text(resized(raster, scale), selected_glyphs(selector), y);
            &&& row.len() == width
            &&& text.subrange(row_start(width, y), row_start(width, y) + width) == row
            &&& forall|x: int| 0 <= x < width ==> #[trigger] row[x] != '\n'
            &&& y + 1 < height ==> text[row_start(width, y) + width] == '\n'
        }),
{
    let glyphs = selected_glyphs(selector);
    lemma_selected_glyphs_are_no_line_breaks(selector);
    lemma_art_rows(resized(raster, scale), glyphs, y);
    lemma_row_glyphs(resized(raster, scale), glyphs, y);
}

} // verus!
