use ascii_image::ramp::{build_ramp, map_brightness, BASE_PALETTE};
use ascii_image::raster::{GrayRaster, RgbRaster};
use ascii_image::render::{ascii_black_and_white, ascii_color, ascii_image};
use ascii_image::sampler::{
    luma, sample_color, sample_color_pixel, sample_gray, sample_gray_pixel, SampledCell,
};

/// A font in which every printable ASCII glyph has its top-left pixel inked and
/// nothing else.
fn corner_font() -> Vec<u8> {
    let mut font = vec![0u8; 128 * 16];
    for c in 33..127usize {
        font[c * 16] = 0x80;
    }
    font
}

#[test]
fn luma_weights_and_rounds() {
    assert_eq!(luma((255, 0, 0)), 76);
    assert_eq!(luma((0, 255, 0)), 150);
    assert_eq!(luma((0, 0, 255)), 29);
    assert_eq!(luma((255, 255, 255)), 255);
    assert_eq!(luma((0, 0, 0)), 0);
}

#[test]
fn grayscale_cells_have_no_color() {
    assert_eq!(sample_gray_pixel(42), SampledCell { brightness: 42, color: None });
    let img = GrayRaster::from_raw(3, 2, vec![0, 50, 100, 150, 200, 250]).unwrap();
    let cells = sample_gray(&img);
    assert_eq!(cells.len(), 6);
    for (k, cell) in cells.iter().enumerate() {
        assert_eq!(cell.color, None);
        assert_eq!(cell.brightness, (k * 50) as u8);
    }
}

#[test]
fn color_cells_keep_their_color() {
    assert_eq!(sample_color_pixel((255, 0, 0)), SampledCell { brightness: 76, color: Some((255, 0, 0)) });
    let img = RgbRaster::from_raw(2, 1, vec![255, 0, 0, 0, 0, 0]).unwrap();
    let cells = sample_color(&img);
    assert_eq!(cells, vec![
        SampledCell { brightness: 76, color: Some((255, 0, 0)) },
        SampledCell { brightness: 0, color: Some((0, 0, 0)) },
    ]);
}

#[test]
fn ascii_image_draws_one_glyph_per_cell() {
    let ramp = build_ramp(BASE_PALETTE, 10).unwrap();
    let font = corner_font();
    let cells = vec![
        SampledCell { brightness: 0, color: None },
        SampledCell { brightness: 255, color: None },
        SampledCell { brightness: 0, color: Some((1, 2, 3)) },
        SampledCell { brightness: 255, color: Some((1, 2, 3)) },
    ];
    let art = ascii_image(2, 2, &ramp, &cells, &font);
    assert_eq!(art.dimensions(), (16, 32));
    // brightness 0 picks '@', whose corner is inked; 255 picks ' ', which is blank
    assert_eq!(map_brightness(&ramp, 0), '@');
    assert_eq!(art.get_pixel(0, 0), Some((0, 0, 0)));
    assert_eq!(art.get_pixel(8, 0), Some((255, 255, 255)));
    assert_eq!(art.get_pixel(0, 16), Some((1, 2, 3)));
    assert_eq!(art.get_pixel(8, 16), Some((255, 255, 255)));
    // everything off the corners is background
    assert_eq!(art.get_pixel(1, 0), Some((255, 255, 255)));
    assert_eq!(art.get_pixel(0, 1), Some((255, 255, 255)));
    assert_eq!(art.get_pixel(15, 31), Some((255, 255, 255)));
}

#[test]
fn rendering_twice_gives_identical_bytes() {
    let ramp = build_ramp(BASE_PALETTE, 3).unwrap();
    let font = corner_font();
    let data: Vec<u8> = (0..40u32 * 20).map(|i| (i * 7 % 256) as u8).collect();
    let img = GrayRaster::from_raw(40, 20, data).unwrap();
    let cells = sample_gray(&img);
    let a = ascii_image(20, 40, &ramp, &cells, &font);
    let b = ascii_image(20, 40, &ramp, &cells, &font);
    assert_eq!(a.dimensions(), b.dimensions());
    assert_eq!(a.into_raw(), b.into_raw());
}

#[test]
fn grayscale_pipeline_sizes_and_resizes() {
    let ramp = build_ramp(BASE_PALETTE, 10).unwrap();
    let font = corner_font();
    let img = GrayRaster::from_raw(200, 100, vec![255u8; 200 * 100]).unwrap();
    let (small, art) = ascii_black_and_white(&img, 100, &ramp, &font).unwrap();
    assert_eq!(small.dimensions(), (100, 25));
    assert_eq!(small.get_pixel(50, 10), Some(255));
    assert_eq!(art.dimensions(), (800, 400));
    // white everywhere: every cell is a space, so the canvas is all background
    let bytes = art.into_raw();
    assert_eq!(bytes.len(), 800 * 400 * 3);
    assert!(bytes.iter().all(|&b| b == 255));
}

#[test]
fn color_pipeline_inks_in_pixel_color() {
    let ramp = build_ramp(BASE_PALETTE, 10).unwrap();
    let font = corner_font();
    let data: Vec<u8> = std::iter::repeat([200u8, 0, 0]).take(40 * 20).flatten().collect();
    let img = RgbRaster::from_raw(40, 20, data).unwrap();
    let (small, art) = ascii_color(&img, 20, &ramp, &font).unwrap();
    assert_eq!(small.dimensions(), (20, 5));
    assert_eq!(small.get_pixel(3, 3), Some((200, 0, 0)));
    assert_eq!(art.dimensions(), (160, 80));
    // luma 60 selects a printable glyph, whose corner is inked in red
    assert_ne!(map_brightness(&ramp, luma((200, 0, 0))), ' ');
    assert_eq!(art.get_pixel(0, 0), Some((200, 0, 0)));
    assert_eq!(art.get_pixel(1, 0), Some((255, 255, 255)));
}

#[test]
fn background_is_white_in_both_modes() {
    let ramp = build_ramp(BASE_PALETTE, 10).unwrap();
    let font = corner_font();
    for color in [None, Some((255, 255, 0))] {
        let cells = vec![SampledCell { brightness: 10, color }];
        let art = ascii_image(1, 1, &ramp, &cells, &font);
        for y in 0..16 {
            for x in 0..8 {
                if (x, y) != (0, 0) {
                    assert_eq!(art.get_pixel(x, y), Some((255, 255, 255)));
                }
            }
        }
    }
}

#[test]
fn raw_buffers_round_trip() {
    let data: Vec<u8> = (0..2 * 2 * 3).map(|i| i as u8).collect();
    let img = RgbRaster::from_raw(2, 2, data.clone()).unwrap();
    assert_eq!(img.get_pixel(1, 1), Some((9, 10, 11)));
    assert_eq!(img.get_pixel(2, 0), None);
    assert_eq!(img.into_raw(), data);
    assert!(RgbRaster::from_raw(2, 2, vec![0; 11]).is_none());
    assert!(GrayRaster::from_raw(3, 3, vec![0; 8]).is_none());
}

#[test]
fn test_grayscale_ascii_generation() {
    let ramp = build_ramp(BASE_PALETTE, 10).unwrap();
    let font = corner_font();
    let data: Vec<u8> = (0..160u32 * 120).map(|i| (i % 251) as u8).collect();
    let img = GrayRaster::from_raw(160, 120, data).unwrap();
    let (small, art) = ascii_black_and_white(&img, 80, &ramp, &font).unwrap();
    assert_eq!(small.dimensions(), (80, 30));
    assert_eq!(art.dimensions(), (640, 480));
}

#[test]
fn test_color_ascii_generation() {
    let ramp = build_ramp(BASE_PALETTE, 10).unwrap();
    let font = corner_font();
    let data: Vec<u8> = (0..160u32 * 120 * 3).map(|i| (i % 253) as u8).collect();
    let img = RgbRaster::from_raw(160, 120, data).unwrap();
    let (small, art) = ascii_color(&img, 80, &ramp, &font).unwrap();
    assert_eq!(small.dimensions(), (80, 30));
    assert_eq!(art.dimensions(), (640, 480));
}
