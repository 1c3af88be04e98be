use vstd::prelude::*;

use crate::raster::{
    gray_dimensions, gray_dims, gray_get, gray_pixels, rgb_dimensions, rgb_dims, rgb_get,
    grid, rgb_pixels, GrayRaster, Rgb8, RgbRaster,
};

verus! {

/// The brightness and colour read from one source pixel. A cell without a colour
/// is drawn in monochrome.
#[derive(Debug, Clone, Copy, PartialEq, Eq)]
pub struct SampledCell {
    pub brightness: u8,
    pub color: Option<Rgb8>,
}

/// Perceived brightness of an RGB colour: `0.299 r + 0.587 g + 0.114 b`,
/// rounded to the nearest integer (halves up).
pub open spec fn spec_luma(c: Rgb8) -> int {
    (299 * c.0 + 587 * c.1 + 114 * c.2 + 500) / 1000
}

/// The cell a grayscale pixel of luma `v` gives: brightness `v`, no colour.
pub open spec fn gray_cell(v: u8) -> SampledCell {
    SampledCell { brightness: v, color: None }
}

/// The cell an RGB pixel gives: its luma as brightness, and the colour itself.
pub open spec fn color_cell(c: Rgb8) -> SampledCell {
    SampledCell { brightness: spec_luma(c) as u8, color: Some(c) }
}

/// The cells of a `width` x `height` grayscale image, row by row.
pub open spec fn gray_cells(pixels: Map<(int, int), u8>, width: int, height: int) -> Seq<SampledCell> {
    Seq::new((width * height) as nat, |k: int| gray_cell(pixels[(k % width, k / width)]))
}

/// The cells of a `width` x `height` RGB image, row by row.
pub open spec fn color_cells(pixels: Map<(int, int), Rgb8>, width: int, height: int) -> Seq<SampledCell> {
    Seq::new((width * height) as nat, |k: int| color_cell(pixels[(k % width, k / width)]))
}

/// Resize height that keeps the aspect ratio of an `orig_width` x `orig_height`
/// image at `width` cells, halved because a glyph is twice as tall as wide:
/// `round(width * orig_height / orig_width * 0.5)`, capped at `u32::MAX`;
/// zero for an image without columns.
pub open spec fn spec_height(orig_width: int, orig_height: int, width: int) -> int {
    if orig_width == 0 {
        0
    } else {
        let h = (width * orig_height + orig_width) / (2 * orig_width);
        if h > u32::MAX {
            u32::MAX as int
        } else {
            h
        }
    }
}

/// Brightness of an RGB colour, weighted 0.299 / 0.587 / 0.114 and rounded.
pub fn luma(c: Rgb8) -> (r: u8)
    ensures
        r == spec_luma(c),
{
    let sum: u32 = 299 * c.0 as u32 + 587 * c.1 as u32 + 114 * c.2 as u32 + 500;
    (sum / 1000) as u8
}

/// Samples a grayscale pixel: its luma, drawn in monochrome.
pub fn sample_gray_pixel(v: u8) -> (r: SampledCell)
    ensures
        r == gray_cell(v),
{
    SampledCell { brightness: v, color: None }
}

/// Samples an RGB pixel: its luma, drawn in its own colour.
pub fn sample_color_pixel(c: Rgb8) -> (r: SampledCell)
    ensures
        r == color_cell(c),
{
    SampledCell { brightness: luma(c), color: Some(c) }
}

/// Height, in cells, to resize an image of `dims` (width, height) to when it is
/// `width` cells wide.
pub fn get_height(dims: (u32, u32), width: u32) -> (r: u32)
    ensures
        r == spec_height(dims.0 as int, dims.1 as int, width as int),
{
    let (orig_width, orig_height) = dims;
    if orig_width == 0 {
        return 0;
    }
    assert(width as int * orig_height as int <= 0xFFFF_FFFF * 0xFFFF_FFFF) by (nonlinear_arith)
        requires
            width <= 0xFFFF_FFFF,
            orig_height <= 0xFFFF_FFFF,
    ;
    let num: u128 = width as u128 * orig_height as u128 + orig_width as u128;
    let h: u128 = num / (2 * orig_width as u128);
    if h > u32::MAX as u128 {
        u32::MAX
    } else {
        h as u32
    }
}

/// Position `k` of a row-major grid `width` wide lies at column `k % width`,
/// row `k / width`.
pub proof fn lemma_flat_index(x: int, y: int, width: int)
    requires
        0 <= x < width,
    ensures
        (y * width + x) % width == x,
        (y * width + x) / width == y,
{
    vstd::arithmetic::div_mod::lemma_fundamental_div_mod_converse(y * width + x, width, y, x);
}

/// The cells of a grayscale image, row by row: cell `k` comes from the pixel at
/// column `k % width`, row `k / width`.
pub fn sample_gray(img: &GrayRaster) -> (r: Vec<SampledCell>)
    ensures
        r@ == gray_cells(gray_pixels(*img), gray_dims(*img).0 as int, gray_dims(*img).1 as int),
{
    let (w, h) = gray_dimensions(img);
    let mut r: Vec<SampledCell> = Vec::new();
    let mut y: u32 = 0;
    while y < h
        invariant
            y <= h,
            (w, h) == gray_dims(*img),
            gray_pixels(*img).dom() == grid(w as int, h as int),
            r@.len() == y as int * w as int,
            forall|k: int|
                0 <= k < r@.len() ==> #[trigger] r@[k] == gray_cell(
                    gray_pixels(*img)[(k % w as int, k / w as int)],
                ),
        decreases h - y,
    {
        for x in 0..w
            invariant
                (w, h) == gray_dims(*img),
                gray_pixels(*img).dom() == grid(w as int, h as int),
                y < h,
                r@.len() == y as int * w as int + x as int,
                forall|k: int|
                    0 <= k < r@.len() ==> #[trigger] r@[k] == gray_cell(
                        gray_pixels(*img)[(k % w as int, k / w as int)],
                    ),
        {
            let v = gray_get(img, x, y);
            proof {
                lemma_flat_index(x as int, y as int, w as int);
            }
            r.push(sample_gray_pixel(v));
        }
        assert(r@.len() == (y + 1) as int * w as int) by (nonlinear_arith)
            requires
                r@.len() == y as int * w as int + w as int,
        ;
        y = y + 1;
    }
    assert(r@.len() == w as int * h as int) by (nonlinear_arith)
        requires
            r@.len() == h as int * w as int,
    ;
    assert(r@ =~= gray_cells(gray_pixels(*img), w as int, h as int));
    r
}

/// The cells of an RGB image, row by row: cell `k` comes from the pixel at
/// column `k % width`, row `k / width`.
pub fn sample_color(img: &RgbRaster) -> (r: Vec<SampledCell>)
    ensures
        r@ == color_cells(rgb_pixels(*img), rgb_dims(*img).0 as int, rgb_dims(*img).1 as int),
{
    let (w, h) = rgb_dimensions(img);
    let mut r: Vec<SampledCell> = Vec::new();
    let mut y: u32 = 0;
    while y < h
        invariant
            y <= h,
            (w, h) == rgb_dims(*img),
            rgb_pixels(*img).dom() == grid(w as int, h as int),
            r@.len() == y as int * w as int,
            forall|k: int|
                0 <= k < r@.len() ==> #[trigger] r@[k] == color_cell(
                    rgb_pixels(*img)[(k % w as int, k / w as int)],
                ),
        decreases h - y,
    {
        for x in 0..w
            invariant
                (w, h) == rgb_dims(*img),
                rgb_pixels(*img).dom() == grid(w as int, h as int),
                y < h,
                r@.len() == y as int * w as int + x as int,
                forall|k: int|
                    0 <= k < r@.len() ==> #[trigger] r@[k] == color_cell(
                        rgb_pixels(*img)[(k % w as int, k / w as int)],
                    ),
        {
            let c = rgb_get(img, x, y);
            proof {
                lemma_flat_index(x as int, y as int, w as int);
            }
            r.push(sample_color_pixel(c));
        }
        assert(r@.len() == (y + 1) as int * w as int) by (nonlinear_arith)
            requires
                r@.len() == y as int * w as int + w as int,
        ;
        y = y + 1;
    }
    assert(r@.len() == w as int * h as int) by (nonlinear_arith)
        requires
            r@.len() == h as int * w as int,
    ;
    assert(r@ =~= color_cells(rgb_pixels(*img), w as int, h as int));
    r
}

/// Grayscale sampling leaves every cell without a colour: all glyphs come out
/// in monochrome.
pub proof fn lemma_gray_cells_monochrome(pixels: Map<(int, int), u8>, width: int, height: int)
    ensures
        forall|k: int|
            0 <= k < gray_cells(pixels, width, height).len() ==> (#[trigger] gray_cells(
                pixels,
                width,
                height,
            )[k]).color is None,
{
}

} // verus!
