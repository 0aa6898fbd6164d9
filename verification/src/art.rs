//! The text of an image: one glyph for each pixel, row after row, with a
//! line break between two rows.

use crate::brightness::{lemma_palette_index_bounds, mean_brightness};
use crate::palette::{glyph_of, Palette};
use crate::raster::{Image, Raster};
use vstd::prelude::*;

verus! {

/// `String::push` appends the character to the end of the string.
pub assume_specification[ String::push ](string: &mut String, ch: char)
    ensures
        final(string)@ == old(string)@.push(ch),
;

/// The glyphs of row `y`, from the left: one for each pixel.
pub open spec fn row_text(raster: Raster, glyphs: Seq<char>, y: int) -> Seq<char> {
    Seq::new(raster.width, |x: int| glyph_of(glyphs, raster.pixel(x, y)))
}

/// The first `rows` rows, from the top, with one line break between every
/// two of them: none before the first row and none after the last.
pub open spec fn rows_text(raster: Raster, glyphs: Seq<char>, rows: nat) -> Seq<char>
    decreases rows,
{
    if rows == 0 {
        Seq::empty()
    } else if rows == 1 {
        row_text(raster, glyphs, 0)
    } else {
        rows_text(raster, glyphs, (rows - 1) as nat).push('\n') + row_text(
            raster,
            glyphs,
            rows - 1,
        )
    }
}

/// The text of a whole raster. A raster without pixels has the empty text,
/// whatever its height.
pub open spec fn art_text(raster: Raster, glyphs: Seq<char>) -> Seq<char> {
    if raster.width == 0 {
        Seq::empty()
    } else {
        rows_text(raster, glyphs, raster.height)
    }
}

/// Number of line breaks in a text.
pub open spec fn line_breaks(text: Seq<char>) -> nat
    decreases text.len(),
{
    if text.len() == 0 {
        0
    } else {
        line_breaks(text.drop_last()) + if text.last() == '\n' {
            1nat
        } else {
            0nat
        }
    }
}

/// Where row `y` starts in the text of a raster that is `width` pixels wide.
pub open spec fn row_start(width: nat, y: int) -> int {
    y * (width + 1)
}

proof fn lemma_line_breaks_concat(left: Seq<char>, right: Seq<char>)
    ensures
        line_breaks(left + right) == line_breaks(left) + line_breaks(right),
    decreases right.len(),
{
    if right.len() == 0 {
        assert(left + right =~= left);
    } else {
        assert((left + right).drop_last() =~= left + right.drop_last());
        lemma_line_breaks_concat(left, right.drop_last());
    }
}

proof fn lemma_line_breaks_none(text: Seq<char>)
    requires
        forall|i: int| 0 <= i < text.len() ==> text[i] != '\n',
    ensures
        line_breaks(text) == 0,
    decreases text.len(),
{
    if text.len() > 0 {
        lemma_line_breaks_none(text.drop_last());
    }
}

proof fn lemma_row_start_step(width: nat, y: int)
    ensures
        row_start(width, y + 1) == row_start(width, y) + width + 1,
{
    assert((y + 1) * (width + 1) == y * (width + 1) + width + 1) by (nonlinear_arith);
}

proof fn lemma_row_start_ordered(width: nat, upper: int, lower: int)
    requires
        0 <= upper <= lower,
    ensures
        0 <= row_start(width, upper) <= row_start(width, lower),
{
    assert(0 <= upper * (width + 1) <= lower * (width + 1)) by (nonlinear_arith)
        requires
            0 <= upper <= lower,
            0 <= width,
    ;
}

/// A row holds one glyph for each pixel, and each is a glyph of the palette.
pub proof fn lemma_row_glyphs(raster: Raster, glyphs: Seq<char>, y: int)
    requires
        glyphs.len() >= 1,
    ensures
        row_text(raster, glyphs, y).len() == raster.width,
        forall|x: int|
            0 <= x < raster.width ==> glyphs.contains(#[trigger] row_text(raster, glyphs, y)[x]),
{
    assert forall|x: int| 0 <= x < raster.width implies glyphs.contains(
        #[trigger] row_text(raster, glyphs, y)[x],
    ) by {
        let pixel = raster.pixel(x, y);
        lemma_palette_index_bounds(mean_brightness(pixel.rgb()), glyphs.len() as int);
    }
}

/// The rows and the line breaks between them make up the whole text:
/// `rows` rows of `width` glyphs hold `rows * (width + 1) - 1` characters.
pub proof fn lemma_rows_text_len(raster: Raster, glyphs: Seq<char>, rows: nat)
    ensures
        rows_text(raster, glyphs, rows).len() == if rows == 0 {
            0
        } else {
            row_start(raster.width, rows as int) - 1
        },
    decreases rows,
{
    if rows == 1 {
        lemma_row_start_step(raster.width, 0);
    } else if rows >= 2 {
        lemma_rows_text_len(raster, glyphs, (rows - 1) as nat);
        lemma_row_start_step(raster.width, rows - 1);
    }
}

/// Row `y` of the first `rows` rows stands at its place in their text, and a
/// line break follows it unless it is the last of them.
pub proof fn lemma_row_of_rows(raster: Raster, glyphs: Seq<char>, rows: nat, y: int)
    requires
        0 <= y < rows,
    ensures
        row_start(raster.width, y) + raster.width <= rows_text(raster, glyphs, rows).len(),
        rows_text(raster, glyphs, rows).subrange(
            row_start(raster.width, y),
            row_start(raster.width, y) + raster.width,
        ) == row_text(raster, glyphs, y),
        y + 1 < rows ==> rows_text(raster, glyphs, rows)[row_start(raster.width, y)
            + raster.width] == '\n',
    decreases rows,
{
    let width = raster.width;
    let text = rows_text(raster, glyphs, rows);
    let start = row_start(width, y);
    lemma_rows_text_len(raster, glyphs, rows);
    lemma_row_start_step(width, y);
    lemma_row_start_ordered(width, y + 1, rows as int);
    lemma_row_start_ordered(width, 0, y);
    if rows == 1 {
        assert(text.subrange(start, start + width) =~= row_text(raster, glyphs, y));
    } else {
        let above = rows_text(raster, glyphs, (rows - 1) as nat);
        lemma_rows_text_len(raster, glyphs, (rows - 1) as nat);
        lemma_row_start_step(width, rows - 1);
        if y == rows - 1 {
            assert(text.subrange(start, start + width) =~= row_text(raster, glyphs, y));
        } else {
            lemma_row_of_rows(raster, glyphs, (rows - 1) as nat, y);
            assert(text.subrange(start, start + width) =~= above.subrange(start, start + width));
            if y + 1 < rows - 1 {
                lemma_row_start_ordered(width, y + 2, rows - 1);
                lemma_row_start_step(width, y + 1);
            }
        }
    }
}

/// Every row of the text of a raster holds as many glyphs as the raster is
/// wide: row `y` is the glyphs of the pixels of row `y`, and a line break
/// follows it unless it is the last row.
pub proof fn lemma_art_rows(raster: Raster, glyphs: Seq<char>, y: int)
    requires
        raster.width > 0,
        0 <= y < raster.height,
    ensures
        row_text(raster, glyphs, y).len() == raster.width,
        art_text(raster, glyphs).subrange(
            row_start(raster.width, y),
            row_start(raster.width, y) + raster.width,
        ) == row_text(raster, glyphs, y),
        y + 1 < raster.height ==> art_text(raster, glyphs)[row_start(raster.width, y)
            + raster.width] == '\n',
{
    lemma_row_of_rows(raster, glyphs, raster.height, y);
}

/// The text of a raster with pixels holds `height * (width + 1) - 1`
/// characters; that of a raster without pixels holds none.
pub proof fn lemma_art_len(raster: Raster, glyphs: Seq<char>)
    ensures
        art_text(raster, glyphs).len() == if raster.width == 0 || raster.height == 0 {
            0
        } else {
            raster.height * (raster.width + 1) - 1
        },
{
    lemma_rows_text_len(raster, glyphs, raster.height);
}

proof fn lemma_rows_line_breaks(raster: Raster, glyphs: Seq<char>, rows: nat)
    requires
        glyphs.len() >= 1,
        !glyphs.contains('\n'),
    ensures
        line_breaks(rows_text(raster, glyphs, rows)) == if rows == 0 {
            0
        } else {
            rows - 1
        },
    decreases rows,
{
    if rows >= 1 {
        let row = row_text(raster, glyphs, rows - 1);
        lemma_row_glyphs(raster, glyphs, rows - 1);
        lemma_line_breaks_none(row);
        if rows >= 2 {
            let above = rows_text(raster, glyphs, (rows - 1) as nat);
            lemma_rows_line_breaks(raster, glyphs, (rows - 1) as nat);
            assert(above.push('\n').drop_last() =~= above);
            lemma_line_breaks_concat(above.push('\n'), row);
        }
    }
}

/// The text of a raster with pixels holds one line break less than the
/// raster has rows, and that of a raster without pixels holds none, as long
/// as the line break is no glyph of the palette.
pub proof fn lemma_art_line_breaks(raster: Raster, glyphs: Seq<char>)
    requires
        glyphs.len() >= 1,
        !glyphs.contains('\n'),
    ensures
        line_breaks(art_text(raster, glyphs)) == if raster.width == 0 || raster.height == 0 {
            0
        } else {
            raster.height - 1
        },
{
    lemma_rows_line_breaks(raster, glyphs, raster.height);
}

/// The text once the rows above `y` are written and `x` glyphs of row `y`.
spec fn written(raster: Raster, glyphs: Seq<char>, x: int, y: int) -> Seq<char> {
    if x == 0 {
        if raster.width == 0 {
            Seq::empty()
        } else {
            rows_text(raster, glyphs, y as nat)
        }
    } else if y == 0 {
        row_text(raster, glyphs, 0).take(x)
    } else {
        rows_text(raster, glyphs, y as nat).push('\n') + row_text(raster, glyphs, y).take(x)
    }
}

/// The row in which the last glyph was written, once the rows above `y` are
/// written and `x` glyphs of row `y`.
spec fn row_of_last_glyph(raster: Raster, x: int, y: int) -> int {
    if x > 0 {
        y
    } else if y == 0 || raster.width == 0 {
        0
    } else {
        y - 1
    }
}

/// Writes the text of an image: the pixels are visited row after row from the
/// top, each row from the left; every pixel adds its glyph, and a line break
/// goes before the first glyph of every row but the first.
pub fn generate_ascii_art(image: &Image, palette: &Palette) -> (art: String)
    ensures
        art@ == art_text(image@, palette@),
{
    let width: u32 = image.width();
    let height: u32 = image.height();
    let mut art = String::new();
    let mut last_y: u32 = 0;
    let mut y: u32 = 0;
    while y < height
        invariant
            width == image@.width,
            height == image@.height,
            y <= height,
            art@ == written(image@, palette@, 0, y as int),
            last_y == row_of_last_glyph(image@, 0, y as int),
        decreases height - y,
    {
        let mut x: u32 = 0;
        while x < width
            invariant
                width == image@.width,
                height == image@.height,
                y < height,
                x <= width,
                art@ == written(image@, palette@, x as int, y as int),
                last_y == row_of_last_glyph(image@, x as int, y as int),
            decreases width - x,
        {
            if last_y != y {
                art.push('\n');
                last_y = y;
            }
            let glyph: char = palette.glyph_for(image.get_pixel(x, y));
            art.push(glyph);
            x = x + 1;
            proof {
                let row = row_text(image@, palette@, y as int);
                assert(row.take(x as int) =~= row.take(x - 1).push(glyph));
                assert(art@ =~= written(image@, palette@, x as int, y as int));
            }
        }
        proof {
            let row = row_text(image@, palette@, y as int);
            assert(row.take(width as int) =~= row);
            assert(written(image@, palette@, 0, y + 1) =~= written(
                image@,
                palette@,
                width as int,
                y as int,
            ));
        }
        y = y + 1;
    }
    art
}

} // verus!
