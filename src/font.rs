use vstd::prelude::*;

verus! {

/// Width of a glyph in pixels: one bit of a row byte per pixel.
pub const FONT_WIDTH: u32 = 8;

/// Height of a glyph in pixels: one byte per row.
pub const FONT_HEIGHT: u32 = 16;

/// Whether the glyph of `c` lies wholly inside a font of `font_len` bytes
/// with `height` row bytes per character.
pub open spec fn glyph_in_font(font_len: int, c: char, height: int) -> bool {
    (c as int) * height + height <= font_len
}

/// Row `row` of the glyph of `c` in a font with `height` row bytes per character;
/// a character whose glyph runs past the end of the font reads as blank.
pub open spec fn glyph_row(font: Seq<u8>, c: char, height: int, row: int) -> u8 {
    if glyph_in_font(font.len() as int, c, height) {
        font[(c as int) * height + row]
    } else {
        0
    }
}

/// Whether pixel `col` (0 = leftmost) of a row `width` bits wide is inked:
/// the most significant of the row's used bits is the leftmost pixel.
pub open spec fn ink(row: u8, width: int, col: int) -> bool {
    row & (1u8 << ((width - 1 - col) as u8)) != 0
}

/// The `height` row masks of the glyph of `c` in a font with `height` row bytes
/// per character, top row first; all zero where the glyph would run past the end
/// of `font`.
pub fn glyph_rows(font: &[u8], c: char, height: u32) -> (r: Vec<u8>)
    ensures
        r@.len() == height,
        forall|row: int| 0 <= row < height ==> r@[row] == glyph_row(font@, c, height as int, row),
{
    let code: u64 = c as u32 as u64;
    assert(code * (height as int) <= 0x10FFFF * 0xFFFF_FFFF) by (nonlinear_arith)
        requires
            code <= 0x10FFFF,
            height <= 0xFFFF_FFFF,
    ;
    let font_len: usize = font.len();
    let fits: bool = code * (height as u64) + (height as u64) <= font_len as u64;
    let base: usize = if fits {
        (code * (height as u64)) as usize
    } else {
        0
    };
    let mut r: Vec<u8> = Vec::new();
    for row in 0..height
        invariant
            r@.len() == row,
            font_len == font@.len(),
            fits <==> glyph_in_font(font@.len() as int, c, height as int),
            fits ==> base == (c as int) * (height as int),
            fits ==> base + height <= font_len,
            forall|k: int| 0 <= k < row ==> r@[k] == glyph_row(font@, c, height as int, k),
    {
        if fits {
            r.push(font[base + row as usize]);
        } else {
            r.push(0);
        }
    }
    r
}

/// The `FONT_HEIGHT` row masks of the glyph of `c`, top row first; all zero where the
/// glyph would run past the end of `font`.
pub fn glyph_mask(font: &[u8], c: char) -> (r: Vec<u8>)
    ensures
        r@.len() == FONT_HEIGHT,
        forall|row: int| 0 <= row < FONT_HEIGHT ==> r@[row] == glyph_row(font@, c, FONT_HEIGHT as int, row),
        !glyph_in_font(font@.len() as int, c, FONT_HEIGHT as int) ==> forall|row: int|
            0 <= row < FONT_HEIGHT ==> r@[row] == 0,
{
    glyph_rows(font, c, FONT_HEIGHT)
}

} // verus!
