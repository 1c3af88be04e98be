use vstd::prelude::*;

use crate::font::{glyph_row, glyph_rows, ink, FONT_HEIGHT, FONT_WIDTH};
use crate::ramp::{
    brightness_slot, lemma_brightness_ends, lemma_slot_monotonic, map_brightness,
    spec_map_brightness, DensityRamp,
};
use crate::raster::{
    gray_dimensions, gray_dims, gray_pixels, gray_resize, grid,
    resize_fits, rgb_dimensions, rgb_dims, rgb_new, rgb_pixels, rgb_put, rgb_resize, GrayRaster,
    Rgb8, RgbRaster,
};
use crate::sampler::{
    color_cells, get_height, gray_cells, sample_color, sample_gray, spec_height, SampledCell,
};

verus! {

/// The colour of pixel `(col, row)` of the glyph of `c`: ink in `color` where
/// `colored`, else black; white where the glyph bit is clear.
pub open spec fn glyph_pixel(
    font: Seq<u8>,
    c: char,
    font_width: int,
    font_height: int,
    col: int,
    row: int,
    colored: bool,
    color: Rgb8,
) -> Rgb8 {
    if ink(glyph_row(font, c, font_height, row), font_width, col) {
        if colored {
            color
        } else {
            (0u8, 0u8, 0u8)
        }
    } else {
        (255u8, 255u8, 255u8)
    }
}

/// Whether `p` lies in a glyph block at `(x_offset, y_offset)` among its first `rows`
/// rows, or in the first `cols` pixels of row `rows`.
pub open spec fn in_painted(
    p: (int, int),
    x_offset: int,
    y_offset: int,
    font_width: int,
    rows: int,
    cols: int,
) -> bool {
    let i = p.0 - x_offset;
    let j = p.1 - y_offset;
    &&& 0 <= i < font_width
    &&& 0 <= j
    &&& (j < rows || (j == rows && i < cols))
}

/// `m` with the glyph of `c` drawn at `(x_offset, y_offset)` over its first `rows`
/// rows and the first `cols` pixels of row `rows`.
pub open spec fn paint_glyph(
    m: Map<(int, int), Rgb8>,
    font: Seq<u8>,
    c: char,
    font_width: int,
    font_height: int,
    x_offset: int,
    y_offset: int,
    colored: bool,
    color: Rgb8,
    rows: int,
    cols: int,
) -> Map<(int, int), Rgb8> {
    Map::new(
        |p: (int, int)| m.dom().contains(p),
        |p: (int, int)|
            if in_painted(p, x_offset, y_offset, font_width, rows, cols) {
                glyph_pixel(
                    font,
                    c,
                    font_width,
                    font_height,
                    p.0 - x_offset,
                    p.1 - y_offset,
                    colored,
                    color,
                )
            } else {
                m[p]
            },
    )
}

/// `m` with the whole `font_width` x `font_height` glyph of `c` drawn at
/// `(x_offset, y_offset)`.
pub open spec fn spec_draw(
    m: Map<(int, int), Rgb8>,
    font: Seq<u8>,
    c: char,
    font_width: int,
    font_height: int,
    x_offset: int,
    y_offset: int,
    colored: bool,
    color: Rgb8,
) -> Map<(int, int), Rgb8> {
    paint_glyph(
        m,
        font,
        c,
        font_width,
        font_height,
        x_offset,
        y_offset,
        colored,
        color,
        font_height,
        0,
    )
}

/// Draws the glyph of `character`, `font_width` x `font_height` pixels, with its
/// top-left corner at `(x_offset, y_offset)`. A set bit (most significant first)
/// becomes `color` where `colored`, else black; a clear bit becomes white. A
/// character whose glyph runs past the end of `font` is drawn blank.
pub fn draw_character(
    image: &mut RgbRaster,
    character: char,
    font: &[u8],
    font_width: u32,
    font_height: u32,
    x_offset: u32,
    y_offset: u32,
    colored: bool,
    color: Rgb8,
)
    requires
        font_width <= 8,
        x_offset + font_width <= rgb_dims(*old(image)).0,
        y_offset + font_height <= rgb_dims(*old(image)).1,
    ensures
        rgb_dims(*final(image)) == rgb_dims(*old(image)),
        rgb_pixels(*final(image)) == spec_draw(
            rgb_pixels(*old(image)),
            font@,
            character,
            font_width as int,
            font_height as int,
            x_offset as int,
            y_offset as int,
            colored,
            color,
        ),
{
    let ghost m0 = rgb_pixels(*image);
    let dims = rgb_dimensions(image);
    let rows = glyph_rows(font, character, font_height);
    proof {
        assert(paint_glyph(m0, font@, character, font_width as int, font_height as int, x_offset as int, y_offset as int, colored, color, 0, 0) =~= m0);
    }
    for y in 0..font_height
        invariant
            dims == rgb_dims(*image),
            rgb_pixels(*image).dom() == grid(dims.0 as int, dims.1 as int),
            m0.dom() == rgb_pixels(*image).dom(),
            font_width <= 8,
            x_offset + font_width <= dims.0,
            y_offset + font_height <= dims.1,
            rows@.len() == font_height,
            forall|k: int|
                0 <= k < font_height ==> rows@[k] == glyph_row(font@, character, font_height as int, k),
            rgb_pixels(*image) == paint_glyph(
                m0,
                font@,
                character,
                font_width as int,
                font_height as int,
                x_offset as int,
                y_offset as int,
                colored,
                color,
                y as int,
                0,
            ),
    {
        let row: u8 = rows[y as usize];
        for x in 0..font_width
            invariant
                dims == rgb_dims(*image),
                rgb_pixels(*image).dom() == grid(dims.0 as int, dims.1 as int),
                m0.dom() == rgb_pixels(*image).dom(),
                font_width <= 8,
                y < font_height,
                x_offset + font_width <= dims.0,
                y_offset + font_height <= dims.1,
                row == glyph_row(font@, character, font_height as int, y as int),
                rgb_pixels(*image) == paint_glyph(
                    m0,
                    font@,
                    character,
                    font_width as int,
                    font_height as int,
                    x_offset as int,
                    y_offset as int,
                    colored,
                    color,
                    y as int,
                    x as int,
                ),
        {
            let bit: u8 = row & (1u8 << ((font_width - 1 - x) as u8));
            let px: Rgb8 = if bit != 0 {
                if colored {
                    color
                } else {
                    (0u8, 0u8, 0u8)
                }
            } else {
                (255u8, 255u8, 255u8)
            };
            assert(px == glyph_pixel(font@, character, font_width as int, font_height as int, x as int, y as int, colored, color));
            rgb_put(image, x_offset + x, y_offset + y, px);
            assert(rgb_pixels(*image) =~= paint_glyph(
                m0,
                font@,
                character,
                font_width as int,
                font_height as int,
                x_offset as int,
                y_offset as int,
                colored,
                color,
                y as int,
                x + 1,
            ));
        }
        assert(rgb_pixels(*image) =~= paint_glyph(
            m0,
            font@,
            character,
            font_width as int,
            font_height as int,
            x_offset as int,
            y_offset as int,
            colored,
            color,
            y + 1,
            0,
        ));
    }
}

/// Whether a canvas for `width` x `height` cells fits: its pixel dimensions in
/// `u32`, its three bytes per pixel in `usize`.
pub open spec fn canvas_fits(width: int, height: int) -> bool {
    &&& width * FONT_WIDTH <= u32::MAX
    &&& height * FONT_HEIGHT <= u32::MAX
    &&& 3 * (width * FONT_WIDTH) * (height * FONT_HEIGHT) <= usize::MAX
}

/// The colour a cell's ink is drawn in; black for a cell without a colour.
pub open spec fn ink_color(color: Option<Rgb8>) -> Rgb8 {
    match color {
        Some(c) => c,
        None => (0u8, 0u8, 0u8),
    }
}

/// The cell, of a grid `width` cells wide, whose glyph covers canvas pixel `p`.
pub open spec fn cell_at(cells: Seq<SampledCell>, width: int, p: (int, int)) -> SampledCell {
    cells[(p.1 / FONT_HEIGHT as int) * width + p.0 / FONT_WIDTH as int]
}

/// The colour of canvas pixel `p`: the pixel of the glyph that its cell's
/// brightness selects, inked in the cell's colour if it has one.
pub open spec fn canvas_pixel(
    cells: Seq<SampledCell>,
    width: int,
    ramp: Seq<char>,
    font: Seq<u8>,
    p: (int, int),
) -> Rgb8 {
    let cell = cell_at(cells, width, p);
    glyph_pixel(
        font,
        spec_map_brightness(ramp, cell.brightness as int),
        FONT_WIDTH as int,
        FONT_HEIGHT as int,
        p.0 % FONT_WIDTH as int,
        p.1 % FONT_HEIGHT as int,
        cell.color is Some,
        ink_color(cell.color),
    )
}

/// The rendering of `width` x `height` cells: one glyph per cell, on a canvas
/// `width * FONT_WIDTH` by `height * FONT_HEIGHT` pixels.
pub open spec fn spec_canvas(
    cells: Seq<SampledCell>,
    width: int,
    height: int,
    ramp: Seq<char>,
    font: Seq<u8>,
) -> Map<(int, int), Rgb8> {
    Map::new(
        |p: (int, int)| grid(width * FONT_WIDTH, height * FONT_HEIGHT).contains(p),
        |p: (int, int)| canvas_pixel(cells, width, ramp, font, p),
    )
}

/// The canvas after the cells before `(x, y)` in row order are drawn; the rest is
/// still black.
pub open spec fn partial_canvas(
    cells: Seq<SampledCell>,
    width: int,
    height: int,
    ramp: Seq<char>,
    font: Seq<u8>,
    y: int,
    x: int,
) -> Map<(int, int), Rgb8> {
    Map::new(
        |p: (int, int)| grid(width * FONT_WIDTH, height * FONT_HEIGHT).contains(p),
        |p: (int, int)|
            if (p.1 / (FONT_HEIGHT as int)) < y || (p.1 / (FONT_HEIGHT as int) == y && (p.0 / (
                FONT_WIDTH as int)) < x) {
                canvas_pixel(cells, width, ramp, font, p)
            } else {
                (0u8, 0u8, 0u8)
            },
    )
}

/// Canvas pixel `p` lies in the glyph block of cell `(x, y)` exactly when its
/// coordinates divided by the glyph size are `(x, y)`; its place in the block is
/// then the remainder.
proof fn lemma_block_of(p: (int, int), x: int, y: int)
    requires
        p.0 >= 0,
        p.1 >= 0,
    ensures
        in_painted(p, x * FONT_WIDTH, y * FONT_HEIGHT, FONT_WIDTH as int, FONT_HEIGHT as int, 0)
            <==> (p.0 / FONT_WIDTH as int == x && p.1 / FONT_HEIGHT as int == y),
        p.0 / FONT_WIDTH as int == x ==> p.0 % FONT_WIDTH as int == p.0 - x * FONT_WIDTH,
        p.1 / FONT_HEIGHT as int == y ==> p.1 % FONT_HEIGHT as int == p.1 - y * FONT_HEIGHT,
{
    vstd::arithmetic::div_mod::lemma_fundamental_div_mod(p.0, FONT_WIDTH as int);
    vstd::arithmetic::div_mod::lemma_fundamental_div_mod(p.1, FONT_HEIGHT as int);
    if x * FONT_WIDTH <= p.0 < x * FONT_WIDTH + FONT_WIDTH {
        vstd::arithmetic::div_mod::lemma_fundamental_div_mod_converse(
            p.0,
            FONT_WIDTH as int,
            x,
            p.0 - x * FONT_WIDTH,
        );
    }
    if y * FONT_HEIGHT <= p.1 < y * FONT_HEIGHT + FONT_HEIGHT {
        vstd::arithmetic::div_mod::lemma_fundamental_div_mod_converse(
            p.1,
            FONT_HEIGHT as int,
            y,
            p.1 - y * FONT_HEIGHT,
        );
    }
}

/// Renders `width` x `height` sampled cells, given row by row, into a new canvas
/// of `width * FONT_WIDTH` x `height * FONT_HEIGHT` pixels: each cell becomes the
/// glyph that its brightness selects from `ramp`, drawn from `font`.
pub fn ascii_image(
    height: u32,
    width: u32,
    ramp: &DensityRamp,
    cells: &Vec<SampledCell>,
    font: &[u8],
) -> (r: RgbRaster)
    requires
        cells@.len() == width as int * height as int,
        canvas_fits(width as int, height as int),
    ensures
        rgb_dims(r).0 == width * FONT_WIDTH,
        rgb_dims(r).1 == height * FONT_HEIGHT,
        rgb_pixels(r) == spec_canvas(cells@, width as int, height as int, ramp@, font@),
{
    let n_cells: usize = cells.len();
    let mut canvas = rgb_new(width * FONT_WIDTH, height * FONT_HEIGHT);
    assert(rgb_pixels(canvas) =~= partial_canvas(cells@, width as int, height as int, ramp@, font@, 0, 0));
    for y in 0..height
        invariant
            cells@.len() == width as int * height as int,
            n_cells == cells@.len(),
            canvas_fits(width as int, height as int),
            rgb_dims(canvas).0 == width * FONT_WIDTH,
                rgb_dims(canvas).1 == height * FONT_HEIGHT,
            rgb_pixels(canvas) == partial_canvas(cells@, width as int, height as int, ramp@, font@, y as int, 0),
    {
        for x in 0..width
            invariant
                cells@.len() == width as int * height as int,
                n_cells == cells@.len(),
                canvas_fits(width as int, height as int),
                y < height,
                rgb_dims(canvas).0 == width * FONT_WIDTH,
                rgb_dims(canvas).1 == height * FONT_HEIGHT,
                rgb_pixels(canvas) == partial_canvas(
                    cells@,
                    width as int,
                    height as int,
                    ramp@,
                    font@,
                    y as int,
                    x as int,
                ),
        {
            assert(y as int * width as int + x < width as int * height as int) by (nonlinear_arith)
                requires
                    x < width,
                    y < height,
            ;
            let cell: SampledCell = cells[y as usize * width as usize + x as usize];
            let character = map_brightness(ramp, cell.brightness);
            let color: Rgb8 = match cell.color {
                Some(c) => c,
                None => (0u8, 0u8, 0u8),
            };
            draw_character(
                &mut canvas,
                character,
                font,
                FONT_WIDTH,
                FONT_HEIGHT,
                x * FONT_WIDTH,
                y * FONT_HEIGHT,
                cell.color.is_some(),
                color,
            );
            assert forall|p: (int, int)| #[trigger]
                rgb_pixels(canvas).dom().contains(p) implies rgb_pixels(canvas)[p]
                == partial_canvas(
                cells@,
                width as int,
                height as int,
                ramp@,
                font@,
                y as int,
                x + 1,
            )[p] by {
                lemma_block_of(p, x as int, y as int);
            }
            assert(rgb_pixels(canvas) =~= partial_canvas(
                cells@,
                width as int,
                height as int,
                ramp@,
                font@,
                y as int,
                x + 1,
            ));
        }
        assert(rgb_pixels(canvas) =~= partial_canvas(
            cells@,
            width as int,
            height as int,
            ramp@,
            font@,
            y + 1,
            0,
        ));
    }
    assert(rgb_pixels(canvas) =~= spec_canvas(cells@, width as int, height as int, ramp@, font@));
    canvas
}

/// Whether the pipeline can resize an image `src_width` wide to `width` x `height`
/// cells and render them: every buffer it allocates fits.
pub open spec fn pipeline_fits(src_width: u32, width: u32, height: int) -> bool {
    &&& height <= u32::MAX
    &&& resize_fits(src_width, width, height as u32)
    &&& canvas_fits(width as int, height)
}

/// Tests `pipeline_fits` on machine integers.
fn check_pipeline_fits(src_width: u32, width: u32, height: u32) -> (r: bool)
    ensures
        r == pipeline_fits(src_width, width, height as int),
{
    let max: u128 = usize::MAX as u128;
    let w: u128 = width as u128;
    let h: u128 = height as u128;
    let cw: u128 = w * FONT_WIDTH as u128;
    let ch: u128 = h * FONT_HEIGHT as u128;
    assert(3 * cw * ch <= 3 * 0x1_0000_0000 * 8 * 0x1_0000_0000 * 16) by (nonlinear_arith)
        requires
            cw == w * 8,
            ch == h * 16,
            w < 0x1_0000_0000,
            h < 0x1_0000_0000,
    ;
    assert(4 * (src_width as int) * h <= 4 * 0x1_0000_0000 * 0x1_0000_0000) by (nonlinear_arith)
        requires
            src_width < 0x1_0000_0000,
            h < 0x1_0000_0000,
    ;
    assert(4 * w * h <= 4 * 0x1_0000_0000 * 0x1_0000_0000) by (nonlinear_arith)
        requires
            w < 0x1_0000_0000,
            h < 0x1_0000_0000,
    ;
    4 * w * h <= max && 4 * (src_width as u128) * h <= max && cw <= u32::MAX as u128 && ch
        <= u32::MAX as u128 && 3 * cw * ch <= max
}

/// Grayscale ASCII art of `img` at `width` cells: resizes the image to `width`
/// x `get_height` cells (Lanczos3), samples each pixel's luma, and renders
/// monochrome glyphs. Returns the resized image and the art, or `None` where a
/// buffer would not fit in memory.
pub fn ascii_black_and_white(img: &GrayRaster, width: u32, ramp: &DensityRamp, font: &[u8]) -> (r:
    Option<(GrayRaster, RgbRaster)>)
    ensures
        ({
            let h = spec_height(gray_dims(*img).0 as int, gray_dims(*img).1 as int, width as int);
            &&& r is Some <==> pipeline_fits(gray_dims(*img).0, width, h)
            &&& r matches Some((small, art)) ==> {
                &&& gray_dims(small) == (width, h as u32)
                &&& rgb_dims(art).0 == width * FONT_WIDTH
                &&& rgb_dims(art).1 == h * FONT_HEIGHT
                &&& rgb_pixels(art) == spec_canvas(
                    gray_cells(gray_pixels(small), width as int, h),
                    width as int,
                    h,
                    ramp@,
                    font@,
                )
            }
        }),
{
    let dims = gray_dimensions(img);
    let height = get_height(dims, width);
    if !check_pipeline_fits(dims.0, width, height) {
        return None;
    }
    let small = gray_resize(img, width, height);
    let cells = sample_gray(&small);
    let art = ascii_image(height, width, ramp, &cells, font);
    Some((small, art))
}

/// Colour ASCII art of `img` at `width` cells: resizes the image to `width`
/// x `get_height` cells (Lanczos3), samples each pixel's luma and colour, and
/// renders glyphs inked in the pixel's colour. Returns the resized image and the
/// art, or `None` where a buffer would not fit in memory.
pub fn ascii_color(img: &RgbRaster, width: u32, ramp: &DensityRamp, font: &[u8]) -> (r: Option<
    (RgbRaster, RgbRaster),
>)
    ensures
        ({
            let h = spec_height(rgb_dims(*img).0 as int, rgb_dims(*img).1 as int, width as int);
            &&& r is Some <==> pipeline_fits(rgb_dims(*img).0, width, h)
            &&& r matches Some((small, art)) ==> {
                &&& rgb_dims(small) == (width, h as u32)
                &&& rgb_dims(art).0 == width * FONT_WIDTH
                &&& rgb_dims(art).1 == h * FONT_HEIGHT
                &&& rgb_pixels(art) == spec_canvas(
                    color_cells(rgb_pixels(small), width as int, h),
                    width as int,
                    h,
                    ramp@,
                    font@,
                )
            }
        }),
{
    let dims = rgb_dimensions(img);
    let height = get_height(dims, width);
    if !check_pipeline_fits(dims.0, width, height) {
        return None;
    }
    let small = rgb_resize(img, width, height);
    let cells = sample_color(&small);
    let art = ascii_image(height, width, ramp, &cells, font);
    Some((small, art))
}

/// Rendering has no hidden state: two canvases rendered from the same cells,
/// ramp and font are the same size and agree on every pixel.
pub proof fn lemma_render_deterministic(
    cells: Seq<SampledCell>,
    width: u32,
    height: u32,
    ramp: Seq<char>,
    font: Seq<u8>,
    a: RgbRaster,
    b: RgbRaster,
)
    requires
        rgb_dims(a).0 == width * FONT_WIDTH && rgb_dims(a).1 == height * FONT_HEIGHT,
        rgb_dims(b).0 == width * FONT_WIDTH && rgb_dims(b).1 == height * FONT_HEIGHT,
        rgb_pixels(a) == spec_canvas(cells, width as int, height as int, ramp, font),
        rgb_pixels(b) == spec_canvas(cells, width as int, height as int, ramp, font),
    ensures
        rgb_dims(a) == rgb_dims(b),
        rgb_pixels(a) == rgb_pixels(b),
{
}

/// Pixel `(i, j)` of the glyph block of cell `(x, y)` shows pixel `(i, j)` of the
/// glyph that the cell's brightness selects, inked in the cell's colour if any.
pub proof fn lemma_cell_block(
    cells: Seq<SampledCell>,
    width: int,
    height: int,
    ramp: Seq<char>,
    font: Seq<u8>,
    x: int,
    y: int,
    i: int,
    j: int,
)
    requires
        0 <= x < width,
        0 <= y < height,
        0 <= i < FONT_WIDTH,
        0 <= j < FONT_HEIGHT,
    ensures
        ({
            let cell = cells[y * width + x];
            let p = (x * FONT_WIDTH + i, y * FONT_HEIGHT + j);
            &&& spec_canvas(cells, width, height, ramp, font).dom().contains(p)
            &&& spec_canvas(cells, width, height, ramp, font)[p] == glyph_pixel(
                font,
                spec_map_brightness(ramp, cell.brightness as int),
                FONT_WIDTH as int,
                FONT_HEIGHT as int,
                i,
                j,
                cell.color is Some,
                ink_color(cell.color),
            )
        }),
{
    let p = (x * FONT_WIDTH + i, y * FONT_HEIGHT + j);
    vstd::arithmetic::div_mod::lemma_fundamental_div_mod_converse(p.0, FONT_WIDTH as int, x, i);
    vstd::arithmetic::div_mod::lemma_fundamental_div_mod_converse(p.1, FONT_HEIGHT as int, y, j);
    assert(p.0 < width * FONT_WIDTH) by (nonlinear_arith)
        requires
            p.0 == x * 8 + i,
            x < width,
            i < 8,
    ;
    assert(p.1 < height * FONT_HEIGHT) by (nonlinear_arith)
        requires
            p.1 == y * 16 + j,
            y < height,
            j < 16,
    ;
}

/// Every brightness selects a slot inside a non-empty ramp.
proof fn lemma_slot_in_ramp(n: int, b: int)
    requires
        n >= 1,
        0 <= b <= 255,
    ensures
        0 <= brightness_slot(n, b) < n,
{
    assert(0 <= (b * n) / 256 < n) by (nonlinear_arith)
        requires
            n >= 1,
            0 <= b <= 255,
    ;
}

/// In a rendered canvas, a darker cell's glyph comes from a ramp slot at or after
/// a brighter cell's: for cells of brightness `b1 < b2` the glyphs drawn are
/// `ramp[s1]` and `ramp[s2]` with `s1 >= s2`.
pub proof fn lemma_canvas_monotonic(
    cells: Seq<SampledCell>,
    width: int,
    height: int,
    ramp: Seq<char>,
    font: Seq<u8>,
    art: RgbRaster,
    x1: int,
    y1: int,
    x2: int,
    y2: int,
    i: int,
    j: int,
)
    requires
        rgb_pixels(art) == spec_canvas(cells, width, height, ramp, font),
        ramp.len() >= 1,
        0 <= x1 < width && 0 <= y1 < height,
        0 <= x2 < width && 0 <= y2 < height,
        0 <= i < FONT_WIDTH && 0 <= j < FONT_HEIGHT,
        cells[y1 * width + x1].brightness < cells[y2 * width + x2].brightness,
    ensures
        ({
            let n = ramp.len() as int;
            let c1 = cells[y1 * width + x1];
            let c2 = cells[y2 * width + x2];
            let s1 = brightness_slot(n, c1.brightness as int);
            let s2 = brightness_slot(n, c2.brightness as int);
            &&& 0 <= s2 <= s1 < n
            &&& rgb_pixels(art)[(x1 * FONT_WIDTH + i, y1 * FONT_HEIGHT + j)] == glyph_pixel(
                font,
                ramp[s1],
                FONT_WIDTH as int,
                FONT_HEIGHT as int,
                i,
                j,
                c1.color is Some,
                ink_color(c1.color),
            )
            &&& rgb_pixels(art)[(x2 * FONT_WIDTH + i, y2 * FONT_HEIGHT + j)] == glyph_pixel(
                font,
                ramp[s2],
                FONT_WIDTH as int,
                FONT_HEIGHT as int,
                i,
                j,
                c2.color is Some,
                ink_color(c2.color),
            )
        }),
{
    let n = ramp.len() as int;
    let b1 = cells[y1 * width + x1].brightness as int;
    let b2 = cells[y2 * width + x2].brightness as int;
    lemma_cell_block(cells, width, height, ramp, font, x1, y1, i, j);
    lemma_cell_block(cells, width, height, ramp, font, x2, y2, i, j);
    lemma_slot_in_ramp(n, b1);
    lemma_slot_in_ramp(n, b2);
    lemma_slot_monotonic(n, b1, b2);
}

/// In a rendered canvas, a cell of brightness 0 shows the ramp's last character,
/// and a cell of brightness 255 its first, for ramps of 1 to 256 characters.
pub proof fn lemma_canvas_ends(
    cells: Seq<SampledCell>,
    width: int,
    height: int,
    ramp: Seq<char>,
    font: Seq<u8>,
    art: RgbRaster,
    x: int,
    y: int,
    i: int,
    j: int,
)
    requires
        rgb_pixels(art) == spec_canvas(cells, width, height, ramp, font),
        1 <= ramp.len() <= 256,
        0 <= x < width && 0 <= y < height,
        0 <= i < FONT_WIDTH && 0 <= j < FONT_HEIGHT,
    ensures
        ({
            let c = cells[y * width + x];
            let px = rgb_pixels(art)[(x * FONT_WIDTH + i, y * FONT_HEIGHT + j)];
            &&& c.brightness == 0 ==> px == glyph_pixel(
                font,
                ramp[ramp.len() - 1],
                FONT_WIDTH as int,
                FONT_HEIGHT as int,
                i,
                j,
                c.color is Some,
                ink_color(c.color),
            )
            &&& c.brightness == 255 ==> px == glyph_pixel(
                font,
                ramp[0],
                FONT_WIDTH as int,
                FONT_HEIGHT as int,
                i,
                j,
                c.color is Some,
                ink_color(c.color),
            )
        }),
{
    lemma_cell_block(cells, width, height, ramp, font, x, y, i, j);
    lemma_brightness_ends(ramp);
}

/// In a rendered canvas, every pixel whose glyph bit is clear is white, in
/// monochrome and in colour alike.
pub proof fn lemma_background_white(
    cells: Seq<SampledCell>,
    width: int,
    height: int,
    ramp: Seq<char>,
    font: Seq<u8>,
    art: RgbRaster,
    x: int,
    y: int,
    i: int,
    j: int,
)
    requires
        rgb_pixels(art) == spec_canvas(cells, width, height, ramp, font),
        0 <= x < width && 0 <= y < height,
        0 <= i < FONT_WIDTH && 0 <= j < FONT_HEIGHT,
        !ink(
            glyph_row(
                font,
                spec_map_brightness(ramp, cells[y * width + x].brightness as int),
                FONT_HEIGHT as int,
                j,
            ),
            FONT_WIDTH as int,
            i,
        ),
    ensures
        rgb_pixels(art)[(x * FONT_WIDTH + i, y * FONT_HEIGHT + j)] == (255u8, 255u8, 255u8),
{
    lemma_cell_block(cells, width, height, ramp, font, x, y, i, j);
}

} // verus!
