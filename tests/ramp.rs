use ascii_image::args::{check_contrast, check_width, UsageError};
use ascii_image::font::glyph_mask;
use ascii_image::ramp::{build_ramp, map_brightness, BASE_PALETTE, BASE_PALETTE_LEN};

#[test]
fn base_palette_has_77_characters() {
    assert_eq!(BASE_PALETTE.chars().count(), BASE_PALETTE_LEN);
    assert_eq!(BASE_PALETTE_LEN, 77);
}

#[test]
fn ramp_length_follows_contrast() {
    for contrast in -10..=10 {
        let ramp = build_ramp(BASE_PALETTE, contrast).unwrap();
        assert_eq!(ramp.len() as i32, 77 - 11 + contrast);
        assert!(ramp.len() >= 1);
    }
}

#[test]
fn ramp_is_the_reversed_palette_cut_short() {
    let ramp = build_ramp(BASE_PALETTE, 10).unwrap();
    let reversed: Vec<char> = BASE_PALETTE.chars().rev().collect();
    assert_eq!(ramp.chars()[..], reversed[..76]);
    assert_eq!(ramp.chars()[0], ' ');
    assert_eq!(ramp.chars()[75], '@');
    let short = build_ramp("abcdefghijklmnop", -1).unwrap();
    assert_eq!(short.chars().iter().collect::<String>(), "ponm");
}

#[test]
fn contrast_out_of_range_is_a_usage_error() {
    assert!(matches!(build_ramp(BASE_PALETTE, 11), Err(UsageError::ContrastOutOfRange)));
    assert!(matches!(build_ramp(BASE_PALETTE, -11), Err(UsageError::ContrastOutOfRange)));
    assert_eq!(check_contrast(11), Err(UsageError::ContrastOutOfRange));
    assert_eq!(check_contrast(-11), Err(UsageError::ContrastOutOfRange));
    assert_eq!(check_contrast(-10), Ok(-10));
    assert_eq!(check_contrast(10), Ok(10));
}

#[test]
fn width_out_of_range_is_a_usage_error() {
    assert_eq!(check_width(5), Err(UsageError::WidthOutOfRange));
    assert_eq!(check_width(2000), Err(UsageError::WidthOutOfRange));
    assert_eq!(check_width(9), Err(UsageError::WidthOutOfRange));
    assert_eq!(check_width(1001), Err(UsageError::WidthOutOfRange));
    assert_eq!(check_width(10), Ok(10));
    assert_eq!(check_width(1000), Ok(1000));
}

#[test]
fn brightness_ends_of_the_ramp() {
    let ramp = build_ramp(BASE_PALETTE, 10).unwrap();
    assert_eq!(map_brightness(&ramp, 0), '@');
    assert_eq!(map_brightness(&ramp, 255), ' ');
    let n = ramp.len();
    // brightness 128 in a ramp of 76: slot 76 - 1 - 38 = 37
    assert_eq!(map_brightness(&ramp, 128), ramp.chars()[n - 1 - 38]);
}

#[test]
fn brightness_slots_are_monotonic() {
    let ramp = build_ramp(BASE_PALETTE, 0).unwrap();
    let n = ramp.len();
    let slot = |b: u32| n - 1 - (b as usize * n) / 256;
    for b in 0..255u32 {
        assert!(slot(b) >= slot(b + 1));
        assert_eq!(map_brightness(&ramp, b as u8), ramp.chars()[slot(b)]);
    }
}

#[test]
fn empty_ramp_falls_back_to_space() {
    let ramp = build_ramp("abc", -10).unwrap();
    assert_eq!(ramp.len(), 0);
    assert_eq!(map_brightness(&ramp, 0), ' ');
    assert_eq!(map_brightness(&ramp, 255), ' ');
}

#[test]
fn glyph_mask_reads_sixteen_rows() {
    let mut font = vec![0u8; 128 * 16];
    for row in 0..16 {
        font['B' as usize * 16 + row] = row as u8 + 1;
    }
    let mask = glyph_mask(&font, 'B');
    assert_eq!(mask, (1..=16).collect::<Vec<u8>>());
}

#[test]
fn glyph_mask_past_the_font_is_blank() {
    let font = vec![0xffu8; 128 * 16];
    assert_eq!(glyph_mask(&font, '\u{80}'), vec![0u8; 16]);
    assert_eq!(glyph_mask(&font, '\u{7f}'), vec![0xffu8; 16]);
    assert_eq!(glyph_mask(&[], 'a'), vec![0u8; 16]);
}
