//! Palettes: the glyphs that stand for brightness, from the first, for the
//! lowest brightness, to the last, for the highest.

use crate::brightness::{brightness_index, mean_brightness, palette_index};
use crate::raster::Pixel;
use vstd::prelude::*;

verus! {

/// The `short` palette: eleven glyphs from a space to `@`.
pub open spec fn short_glyphs() -> Seq<char> {
    seq![' ', '\'', ',', '.', ':', ';', 'L', 'O', '0', '#', '@']
}

/// The `long` palette: the printable ASCII characters from a space to `~`,
/// by rising code point.
pub open spec fn long_glyphs() -> Seq<char> {
    Seq::new(95, |i: int| ((i + 32) as u8) as char)
}

/// The `shade` palette: a space and four block elements.
pub open spec fn shade_glyphs() -> Seq<char> {
    seq![' ', '░', '█', '▄', '▀']
}

/// The glyphs that a selector stands for. Whatever is neither `short` nor
/// `long` selects the `shade` palette.
pub open spec fn selected_glyphs(selector: Seq<char>) -> Seq<char> {
    if selector == "short"@ {
        short_glyphs()
    } else if selector == "long"@ {
        long_glyphs()
    } else {
        shade_glyphs()
    }
}

/// The glyph that a palette gives a pixel.
pub open spec fn glyph_of(glyphs: Seq<char>, pixel: Pixel) -> char {
    glyphs[palette_index(mean_brightness(pixel.rgb()), glyphs.len() as int)]
}

/// `shade` selects the `shade` palette, and so does every selector that is
/// neither `short` nor `long`.
pub proof fn lemma_unknown_selector_is_shade(selector: Seq<char>)
    requires
        selector != "short"@,
        selector != "long"@,
    ensures
        selected_glyphs(selector) == shade_glyphs(),
        selected_glyphs(selector) == selected_glyphs("shade"@),
{
    reveal_strlit("short");
    reveal_strlit("long");
    reveal_strlit("shade");
    assert("shade"@.len() != "long"@.len());
    assert("shade"@[2] != "short"@[2]);
}

/// Whatever the selector, the palette that it stands for is not empty and
/// the line break is none of its glyphs.
pub proof fn lemma_selected_glyphs_are_no_line_breaks(selector: Seq<char>)
    ensures
        selected_glyphs(selector).len() >= 1,
        !selected_glyphs(selector).contains('\n'),
{
    let glyphs = selected_glyphs(selector);
    assert forall|i: int| 0 <= i < glyphs.len() implies glyphs[i] != '\n' by {
        if glyphs == long_glyphs() {
            assert(glyphs[i] == ((i + 32) as u8) as char);
        }
    }
}

/// An ordered, non-empty sequence of glyphs.
#[derive(Debug)]
pub struct Palette {
    glyphs: Vec<char>,
}

impl View for Palette {
    type V = Seq<char>;

    closed spec fn view(&self) -> Seq<char> {
        self.glyphs@
    }
}

fn same_text(left: &str, right: &str) -> (same: bool)
    ensures
        same == (left@ == right@),
{
    left.to_owned() == right.to_owned()
}

impl Palette {
    #[verifier::type_invariant]
    closed spec fn non_empty(&self) -> bool {
        self.glyphs.len() >= 1
    }

    /// Makes a palette of the given glyphs. There is no empty palette.
    pub fn new(glyphs: Vec<char>) -> (palette: Option<Palette>)
        ensures
            palette is Some <==> glyphs.len() >= 1,
            palette matches Some(made) ==> made@ == glyphs@,
    {
        if glyphs.len() >= 1 {
            Some(Palette { glyphs })
        } else {
            None
        }
    }

    /// The `short` palette.
    pub fn short() -> (palette: Palette)
        ensures
            palette@ == short_glyphs(),
    {
        let glyphs: Vec<char> = vec![' ', '\'', ',', '.', ':', ';', 'L', 'O', '0', '#', '@'];
        assert(glyphs@ =~= short_glyphs());
        Palette { glyphs }
    }

    /// The `long` palette.
    pub fn long() -> (palette: Palette)
        ensures
            palette@ == long_glyphs(),
    {
        let mut glyphs: Vec<char> = Vec::new();
        let mut code: u8 = 32;
        while code < 127
            invariant
                32 <= code <= 127,
                glyphs@.len() == code - 32,
                forall|i: int| 0 <= i < glyphs@.len() ==> glyphs@[i] == ((i + 32) as u8) as char,
            decreases 127 - code,
        {
            glyphs.push(code as char);
            code = code + 1;
        }
        assert(glyphs@ =~= long_glyphs());
        Palette { glyphs }
    }

    /// The `shade` palette.
    pub fn shade() -> (palette: Palette)
        ensures
            palette@ == shade_glyphs(),
    {
        let glyphs: Vec<char> = vec![' ', '░', '█', '▄', '▀'];
        assert(glyphs@ =~= shade_glyphs());
        Palette { glyphs }
    }

    /// The palette that a selector stands for: `short`, `long`, or, for
    /// every other selector, `shade`.
    pub fn from_selector(selector: &str) -> (palette: Palette)
        ensures
            palette@ == selected_glyphs(selector@),
    {
        if same_text(selector, "short") {
            Palette::short()
        } else if same_text(selector, "long") {
            Palette::long()
        } else {
            Palette::shade()
        }
    }

    /// Number of glyphs; at least one.
    pub fn len(&self) -> (len: usize)
        ensures
            len == self@.len(),
            len >= 1,
    {
        proof {
            use_type_invariant(self);
        }
        self.glyphs.len()
    }

    /// The glyph at a position.
    pub fn glyph(&self, index: usize) -> (glyph: char)
        requires
            index < self@.len(),
        ensures
            glyph == self@[index as int],
    {
        self.glyphs[index]
    }

    /// The glyph for a pixel: the one at the position of the pixel's
    /// brightness.
    pub fn glyph_for(&self, pixel: Pixel) -> (glyph: char)
        ensures
            glyph == glyph_of(self@, pixel),
    {
        let index: usize = brightness_index((pixel.r, pixel.g, pixel.b), self.len());
        self.glyphs[index]
    }
}

} // verus!
