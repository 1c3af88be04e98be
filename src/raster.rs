use vstd::prelude::*;

use image::{GrayImage, ImageBuffer, Rgb, RgbImage};

verus! {

/// An RGB colour, one byte per channel: red, green, blue.
pub type Rgb8 = (u8, u8, u8);

/// The positions `(x, y)` with `0 <= x < width` and `0 <= y < height`.
pub open spec fn grid(width: int, height: int) -> Set<(int, int)> {
    Set::new(|p: (int, int)| 0 <= p.0 < width && 0 <= p.1 < height)
}

/// Offset of the first byte of pixel `(x, y)` in a row-major buffer `width` pixels
/// wide with `channels` bytes per pixel.
pub open spec fn pixel_offset(width: int, channels: int, x: int, y: int) -> int {
    (y * width + x) * channels
}

/// An 8-bit RGB image, held by the image crate's `RgbImage`.
#[verifier::external_body]
pub struct RgbRaster {
    img: RgbImage,
}

/// An 8-bit grayscale image, held by the image crate's `GrayImage`.
#[verifier::external_body]
pub struct GrayRaster {
    img: GrayImage,
}

/// What an RGB raster holds: the colour at each position `(x, y)` inside it.
pub uninterp spec fn rgb_pixels(img: RgbRaster) -> Map<(int, int), Rgb8>;

/// The width and height of an RGB raster.
pub uninterp spec fn rgb_dims(img: RgbRaster) -> (u32, u32);

/// What a grayscale raster holds: the luma at each position `(x, y)` inside it.
pub uninterp spec fn gray_pixels(img: GrayRaster) -> Map<(int, int), u8>;

/// The width and height of a grayscale raster.
pub uninterp spec fn gray_dims(img: GrayRaster) -> (u32, u32);

/// A well-formed RGB raster covers exactly the grid of its dimensions.
pub open spec fn rgb_wf(img: RgbRaster) -> bool {
    rgb_pixels(img).dom() == grid(rgb_dims(img).0 as int, rgb_dims(img).1 as int)
}

/// A well-formed grayscale raster covers exactly the grid of its dimensions.
pub open spec fn gray_wf(img: GrayRaster) -> bool {
    gray_pixels(img).dom() == grid(gray_dims(img).0 as int, gray_dims(img).1 as int)
}

/// Element counts that `imageops::resize` allocates, from a source `src_width` wide
/// to a `width` x `height` target, stay within `usize`: its vertical pass holds four
/// `f32` channels per pixel at the source width, its horizontal pass the target.
pub open spec fn resize_fits(src_width: u32, width: u32, height: u32) -> bool {
    &&& 4 * (width as int) * (height as int) <= usize::MAX
    &&& 4 * (src_width as int) * (height as int) <= usize::MAX
}

/// Relies on image::ImageBuffer::new: a `width` x `height` buffer whose every
/// channel is zero. It panics where the byte count overflows `usize`.
#[verifier::external_body]
pub(crate) fn rgb_new(width: u32, height: u32) -> (r: RgbRaster)
    requires
        3 * (width as int) * (height as int) <= usize::MAX,
    ensures
        rgb_dims(r) == (width, height),
        rgb_wf(r),
        forall|p: (int, int)| #[trigger]
            rgb_pixels(r).dom().contains(p) ==> rgb_pixels(r)[p] == (0u8, 0u8, 0u8),
{
    RgbRaster { img: ImageBuffer::new(width, height) }
}

/// Relies on image::ImageBuffer::put_pixel: the pixel at `(x, y)` becomes `c`,
/// nothing else changes. It panics outside the image.
#[verifier::external_body]
pub(crate) fn rgb_put(img: &mut RgbRaster, x: u32, y: u32, c: Rgb8)
    requires
        rgb_pixels(*old(img)).dom().contains((x as int, y as int)),
    ensures
        rgb_pixels(*final(img)) == rgb_pixels(*old(img)).insert((x as int, y as int), c),
        rgb_dims(*final(img)) == rgb_dims(*old(img)),
{
    img.img.put_pixel(x, y, Rgb([c.0, c.1, c.2]))
}

/// Relies on image::ImageBuffer::get_pixel: the colour at `(x, y)`. It panics
/// outside the image.
#[verifier::external_body]
pub(crate) fn rgb_get(img: &RgbRaster, x: u32, y: u32) -> (r: Rgb8)
    requires
        rgb_pixels(*img).dom().contains((x as int, y as int)),
    ensures
        r == rgb_pixels(*img)[(x as int, y as int)],
{
    let p = img.img.get_pixel(x, y);
    (p.0[0], p.0[1], p.0[2])
}

/// Relies on image::ImageBuffer::get_pixel: the luma at `(x, y)`. It panics
/// outside the image.
#[verifier::external_body]
pub(crate) fn gray_get(img: &GrayRaster, x: u32, y: u32) -> (r: u8)
    requires
        gray_pixels(*img).dom().contains((x as int, y as int)),
    ensures
        r == gray_pixels(*img)[(x as int, y as int)],
{
    img.img.get_pixel(x, y).0[0]
}

/// Relies on image::ImageBuffer::dimensions, on an RGB image: every position
/// below it is a pixel, and its three bytes per pixel were allocated.
#[verifier::external_body]
pub(crate) fn rgb_dimensions(img: &RgbRaster) -> (r: (u32, u32))
    ensures
        r == rgb_dims(*img),
        rgb_pixels(*img).dom() == grid(r.0 as int, r.1 as int),
        3 * (r.0 as int) * (r.1 as int) <= usize::MAX,
{
    img.img.dimensions()
}

/// Relies on image::ImageBuffer::dimensions, on a grayscale image: every position
/// below it is a pixel, and its byte per pixel was allocated.
#[verifier::external_body]
pub(crate) fn gray_dimensions(img: &GrayRaster) -> (r: (u32, u32))
    ensures
        r == gray_dims(*img),
        gray_pixels(*img).dom() == grid(r.0 as int, r.1 as int),
        (r.0 as int) * (r.1 as int) <= usize::MAX,
{
    img.img.dimensions()
}

/// Relies on image::imageops::resize with FilterType::Lanczos3: a new
/// `width` x `height` RGB image. Its pixels go through `f32::sin`, whose
/// precision std leaves open, so nothing is stated of them.
#[verifier::external_body]
pub(crate) fn rgb_resize(img: &RgbRaster, width: u32, height: u32) -> (r: RgbRaster)
    requires
        resize_fits(rgb_dims(*img).0, width, height),
    ensures
        rgb_dims(r) == (width, height),
        rgb_wf(r),
{
    RgbRaster {
        img: image::imageops::resize(&img.img, width, height, image::imageops::FilterType::Lanczos3),
    }
}

/// Relies on image::imageops::resize with FilterType::Lanczos3: a new
/// `width` x `height` grayscale image. Its pixels go through `f32::sin`, whose
/// precision std leaves open, so nothing is stated of them.
#[verifier::external_body]
pub(crate) fn gray_resize(img: &GrayRaster, width: u32, height: u32) -> (r: GrayRaster)
    requires
        resize_fits(gray_dims(*img).0, width, height),
    ensures
        gray_dims(r) == (width, height),
        gray_wf(r),
{
    GrayRaster {
        img: image::imageops::resize(&img.img, width, height, image::imageops::FilterType::Lanczos3),
    }
}

/// Relies on image::ImageBuffer::from_raw, on an RGB buffer: `None` where `data`
/// holds fewer than three bytes per pixel, else the pixels laid out row by row.
#[verifier::external_body]
pub(crate) fn rgb_from_raw(width: u32, height: u32, data: Vec<u8>) -> (r: Option<RgbRaster>)
    ensures
        r is None <==> data@.len() < 3 * (width as int) * (height as int),
        r matches Some(img) ==> {
            &&& rgb_dims(img) == (width, height)
            &&& rgb_wf(img)
            &&& forall|p: (int, int)| #[trigger]
                rgb_pixels(img).dom().contains(p) ==> rgb_pixels(img)[p] == (
                    data@[pixel_offset(width as int, 3, p.0, p.1)],
                    data@[pixel_offset(width as int, 3, p.0, p.1) + 1],
                    data@[pixel_offset(width as int, 3, p.0, p.1) + 2],
                )
        },
{
    ImageBuffer::from_raw(width, height, data).map(|img| RgbRaster { img })
}

/// Relies on image::ImageBuffer::from_raw, on a grayscale buffer: `None` where
/// `data` holds fewer bytes than pixels, else the pixels laid out row by row.
#[verifier::external_body]
pub(crate) fn gray_from_raw(width: u32, height: u32, data: Vec<u8>) -> (r: Option<GrayRaster>)
    ensures
        r is None <==> data@.len() < (width as int) * (height as int),
        r matches Some(img) ==> {
            &&& gray_dims(img) == (width, height)
            &&& gray_wf(img)
            &&& forall|p: (int, int)| #[trigger]
                gray_pixels(img).dom().contains(p) ==> gray_pixels(img)[p] == data@[pixel_offset(
                    width as int,
                    1,
                    p.0,
                    p.1,
                )]
        },
{
    ImageBuffer::from_raw(width, height, data).map(|img| GrayRaster { img })
}

/// Relies on image::ImageBuffer::into_raw, on an RGB image: its bytes, three per
/// pixel, row by row.
#[verifier::external_body]
pub(crate) fn rgb_into_raw(img: RgbRaster) -> (r: Vec<u8>)
    ensures
        r@.len() >= 3 * (rgb_dims(img).0 as int) * (rgb_dims(img).1 as int),
        forall|p: (int, int)| #[trigger]
            rgb_pixels(img).dom().contains(p) ==> rgb_pixels(img)[p] == (
                r@[pixel_offset(rgb_dims(img).0 as int, 3, p.0, p.1)],
                r@[pixel_offset(rgb_dims(img).0 as int, 3, p.0, p.1) + 1],
                r@[pixel_offset(rgb_dims(img).0 as int, 3, p.0, p.1) + 2],
            ),
{
    img.img.into_raw()
}

/// Relies on image::ImageBuffer::into_raw, on a grayscale image: its bytes, one
/// per pixel, row by row.
#[verifier::external_body]
pub(crate) fn gray_into_raw(img: GrayRaster) -> (r: Vec<u8>)
    ensures
        r@.len() >= (gray_dims(img).0 as int) * (gray_dims(img).1 as int),
        forall|p: (int, int)| #[trigger]
            gray_pixels(img).dom().contains(p) ==> gray_pixels(img)[p] == r@[pixel_offset(
                gray_dims(img).0 as int,
                1,
                p.0,
                p.1,
            )],
{
    img.img.into_raw()
}

impl RgbRaster {
    /// An image `width` x `height` pixels from `data`, three bytes (red, green,
    /// blue) per pixel, row by row; `None` where `data` is too short.
    pub fn from_raw(width: u32, height: u32, data: Vec<u8>) -> (r: Option<RgbRaster>)
        ensures
            r is None <==> data@.len() < 3 * (width as int) * (height as int),
            r matches Some(img) ==> {
                &&& rgb_dims(img) == (width, height)
                &&& rgb_wf(img)
                &&& forall|p: (int, int)| #[trigger]
                    rgb_pixels(img).dom().contains(p) ==> rgb_pixels(img)[p] == (
                        data@[pixel_offset(width as int, 3, p.0, p.1)],
                        data@[pixel_offset(width as int, 3, p.0, p.1) + 1],
                        data@[pixel_offset(width as int, 3, p.0, p.1) + 2],
                    )
            },
    {
        rgb_from_raw(width, height, data)
    }

    /// The image's bytes, three per pixel, row by row.
    pub fn into_raw(self) -> (r: Vec<u8>)
        ensures
            r@.len() >= 3 * (rgb_dims(self).0 as int) * (rgb_dims(self).1 as int),
            forall|p: (int, int)| #[trigger]
                rgb_pixels(self).dom().contains(p) ==> rgb_pixels(self)[p] == (
                    r@[pixel_offset(rgb_dims(self).0 as int, 3, p.0, p.1)],
                    r@[pixel_offset(rgb_dims(self).0 as int, 3, p.0, p.1) + 1],
                    r@[pixel_offset(rgb_dims(self).0 as int, 3, p.0, p.1) + 2],
                ),
    {
        rgb_into_raw(self)
    }

    /// Width and height in pixels.
    pub fn dimensions(&self) -> (r: (u32, u32))
        ensures
            r == rgb_dims(*self),
            rgb_pixels(*self).dom() == grid(r.0 as int, r.1 as int),
    {
        rgb_dimensions(self)
    }

    /// The colour at `(x, y)`; `None` outside the image.
    pub fn get_pixel(&self, x: u32, y: u32) -> (r: Option<Rgb8>)
        ensures
            r is Some <==> (x < rgb_dims(*self).0 && y < rgb_dims(*self).1),
            r matches Some(c) ==> c == rgb_pixels(*self)[(x as int, y as int)],
    {
        let (w, h) = rgb_dimensions(self);
        if x < w && y < h {
            Some(rgb_get(self, x, y))
        } else {
            None
        }
    }
}

impl GrayRaster {
    /// An image `width` x `height` pixels from `data`, one luma byte per pixel,
    /// row by row; `None` where `data` is too short.
    pub fn from_raw(width: u32, height: u32, data: Vec<u8>) -> (r: Option<GrayRaster>)
        ensures
            r is None <==> data@.len() < (width as int) * (height as int),
            r matches Some(img) ==> {
                &&& gray_dims(img) == (width, height)
                &&& gray_wf(img)
                &&& forall|p: (int, int)| #[trigger]
                    gray_pixels(img).dom().contains(p) ==> gray_pixels(img)[p] == data@[pixel_offset(
                        width as int,
                        1,
                        p.0,
                        p.1,
                    )]
            },
    {
        gray_from_raw(width, height, data)
    }

    /// The image's bytes, one per pixel, row by row.
    pub fn into_raw(self) -> (r: Vec<u8>)
        ensures
            r@.len() >= (gray_dims(self).0 as int) * (gray_dims(self).1 as int),
            forall|p: (int, int)| #[trigger]
                gray_pixels(self).dom().contains(p) ==> gray_pixels(self)[p] == r@[pixel_offset(
                    gray_dims(self).0 as int,
                    1,
                    p.0,
                    p.1,
                )],
    {
        gray_into_raw(self)
    }

    /// Width and height in pixels.
    pub fn dimensions(&self) -> (r: (u32, u32))
        ensures
            r == gray_dims(*self),
            gray_pixels(*self).dom() == grid(r.0 as int, r.1 as int),
    {
        gray_dimensions(self)
    }

    /// The luma at `(x, y)`; `None` outside the image.
    pub fn get_pixel(&self, x: u32, y: u32) -> (r: Option<u8>)
        ensures
            r is Some <==> (x < gray_dims(*self).0 && y < gray_dims(*self).1),
            r matches Some(v) ==> v == gray_pixels(*self)[(x as int, y as int)],
    {
        let (w, h) = gray_dimensions(self);
        if x < w && y < h {
            Some(gray_get(self, x, y))
        } else {
            None
        }
    }
}

} // verus!
