use ascii_image::font::{FONT_HEIGHT, FONT_WIDTH};
use ascii_image::raster::RgbRaster;
use ascii_image::render::draw_character;
use ascii_image::sampler::get_height;

/// A 128-character font in which 'A' has a blank top row and a full middle row,
/// and every other glyph is blank.
fn sample_font() -> Vec<u8> {
    let mut font = vec![0u8; 128 * 16];
    let a = 'A' as usize * 16;
    let rows: [u8; 16] = [
        0x00, 0x00, 0x10, 0x38, 0x6c, 0xc6, 0xc6, 0xfe, 0xc6, 0xc6, 0xc6, 0xc6, 0x00, 0x00, 0x00,
        0x00,
    ];
    font[a..a + 16].copy_from_slice(&rows);
    font
}

fn blank_canvas(width: u32, height: u32) -> RgbRaster {
    RgbRaster::from_raw(width, height, vec![0u8; (width * height * 3) as usize]).unwrap()
}

#[test]
fn test_draw_character_bw() {
    let mut img = blank_canvas(8, 16);
    let font = sample_font();
    draw_character(&mut img, 'A', &font, 8, 16, 0, 0, false, (0, 0, 0));
    assert_eq!(img.get_pixel(0, 0).unwrap().0, 255);
}

#[test]
fn test_get_height_preserves_aspect_ratio() {
    let img = ascii_image::raster::GrayRaster::from_raw(200, 100, vec![255u8; 200 * 100]).unwrap();
    let width = 100;
    let height = get_height(img.dimensions(), width);
    assert_eq!(height, 25);
}

#[test]
fn draw_character_inks_set_bits_msb_first() {
    let mut img = blank_canvas(8, 16);
    let font = sample_font();
    draw_character(&mut img, 'A', &font, FONT_WIDTH, FONT_HEIGHT, 0, 0, false, (0, 0, 0));
    // row 2 of 'A' is 0x10: only column 3 is inked
    for x in 0..8 {
        let expected = if x == 3 { (0, 0, 0) } else { (255, 255, 255) };
        assert_eq!(img.get_pixel(x, 2), Some(expected));
    }
    // row 7 is 0xfe: columns 0..7 inked, column 7 clear
    for x in 0..7 {
        assert_eq!(img.get_pixel(x, 7), Some((0, 0, 0)));
    }
    assert_eq!(img.get_pixel(7, 7), Some((255, 255, 255)));
}

#[test]
fn draw_character_colored_uses_the_color_on_ink_only() {
    let mut img = blank_canvas(16, 16);
    let font = sample_font();
    draw_character(&mut img, 'A', &font, 8, 16, 8, 0, true, (10, 20, 30));
    assert_eq!(img.get_pixel(11, 2), Some((10, 20, 30)));
    assert_eq!(img.get_pixel(8, 2), Some((255, 255, 255)));
    // the block to the left is untouched
    assert_eq!(img.get_pixel(3, 2), Some((0, 0, 0)));
}

#[test]
fn draw_character_outside_the_font_is_blank() {
    let mut img = blank_canvas(8, 16);
    let font = sample_font();
    draw_character(&mut img, '\u{3000}', &font, 8, 16, 0, 0, false, (0, 0, 0));
    for y in 0..16 {
        for x in 0..8 {
            assert_eq!(img.get_pixel(x, y), Some((255, 255, 255)));
        }
    }
}

#[test]
fn get_height_rounds_and_handles_empty_images() {
    assert_eq!(get_height((3, 1), 10), 2);
    assert_eq!(get_height((4, 1), 10), 1);
    assert_eq!(get_height((0, 50), 10), 0);
    assert_eq!(get_height((1, u32::MAX), u32::MAX), u32::MAX);
}
