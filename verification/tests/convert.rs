use std::io::Cursor;

use aspix::AsciiConfig;
use aspix::AsciiConverter;
use aspix::AsciiError;

fn png_bytes(w: u32, h: u32, px: [u8; 4]) -> Vec<u8> {
    let img = image::RgbaImage::from_pixel(w, h, image::Rgba(px));
    let mut bytes: Vec<u8> = Vec::new();
    image::DynamicImage::ImageRgba8(img)
        .write_to(&mut Cursor::new(&mut bytes), image::ImageOutputFormat::Png)
        .unwrap();
    bytes
}

fn config(w: u32, h: u32, scale: u32) -> AsciiConfig {
    let mut c = AsciiConfig::default();
    c.width = w;
    c.height = h;
    c.scale = scale;
    c
}

const HTML_HEADER: &str = "<!DOCTYPE html>\n<html>\n<head>\n<style>\nbody { background-color: #000; margin: 0; padding: 10px; }\npre { font-family: monospace; font-size: 10px; line-height: 0.9; }\n</style>\n</head>\n<body>\n<pre>\n";
const HTML_FOOTER: &str = "</pre>\n</body>\n</html>";

#[test]
fn black_image_gives_darkest_glyph() {
    let bytes = png_bytes(2, 2, [0, 0, 0, 255]);
    let conv = AsciiConverter::with_config(config(1, 1, 2000));
    let out = conv.convert_from_bytes(&bytes).unwrap();
    assert_eq!(out, "@\n");
}

#[test]
fn white_image_gives_lightest_glyph() {
    let bytes = png_bytes(2, 2, [255, 255, 255, 255]);
    let conv = AsciiConverter::with_config(config(1, 1, 2000));
    let out = conv.convert_from_bytes(&bytes).unwrap();
    assert_eq!(out, " \n");
}

#[test]
fn mid_gray_selects_middle_high_density_glyph() {
    let bytes = png_bytes(2, 2, [128, 128, 128, 255]);
    let mut cfg = config(1, 1, 2000);
    cfg.use_high_density = true;
    let conv = AsciiConverter::with_config(cfg);
    let out = conv.convert_from_bytes(&bytes).unwrap();
    assert_eq!(out, "◉\n");
}

#[test]
fn full_saturation_keeps_pure_red() {
    let bytes = png_bytes(1, 1, [255, 0, 0, 255]);
    let mut cfg = config(1, 1, 1000);
    cfg.use_color = true;
    cfg.color_saturation = 1000;
    let conv = AsciiConverter::with_config(cfg);
    let out = conv.convert_from_bytes(&bytes).unwrap();
    let expected = format!(
        "{}<span style=\"color:rgb(255,0,0)\">#</span><br/>\n{}",
        HTML_HEADER, HTML_FOOTER
    );
    assert_eq!(out, expected);
}

#[test]
fn malformed_bytes_fail_with_decode_error() {
    let conv = AsciiConverter::new(10, 5);
    let r = conv.convert_from_bytes(b"definitely not an image");
    assert!(matches!(r, Err(AsciiError::DecodeError(_))));
}

#[test]
fn decode_error_carries_a_cause() {
    let conv = AsciiConverter::new(10, 5);
    let e = conv.convert_from_bytes(&[0u8, 1, 2, 3]).unwrap_err();
    assert!(e.cause().contains("failed to decode image"));
}

#[test]
fn neutral_tone_is_identity_on_all_channel_values() {
    for v in 0..=255u8 {
        assert_eq!(aspix::tone::adjust_channel(v, 1000, 1000), v);
    }
}

#[test]
fn high_contrast_saturates_bright_channels() {
    assert_eq!(aspix::tone::adjust_channel(200, 2000, 1000), 255);
    assert_eq!(aspix::tone::adjust_channel(55, 2000, 1000), 0);
}

#[test]
fn zero_brightness_darkens_everything() {
    for v in [0u8, 1, 127, 255] {
        assert_eq!(aspix::tone::adjust_channel(v, 1000, 0), 0);
    }
}

#[test]
fn glyph_index_endpoints_and_monotonicity() {
    assert_eq!(aspix::alphabet::select_glyph_index(0, 2550, 10), 0);
    assert_eq!(aspix::alphabet::select_glyph_index(2550, 2550, 10), 9);
    let mut last = 0;
    for num in 0..=2550u128 {
        let i = aspix::alphabet::select_glyph_index(num, 2550, 10);
        assert!(i >= last);
        last = i;
    }
    assert_eq!(aspix::alphabet::select_glyph_index(255, 510, 10), 4);
}

#[test]
fn empty_block_selects_first_glyph() {
    assert_eq!(aspix::alphabet::select_glyph_index(0, 0, 21), 0);
}

#[test]
fn invert_flips_black_to_lightest() {
    let bytes = png_bytes(2, 2, [0, 0, 0, 255]);
    let mut cfg = config(1, 1, 2000);
    cfg.invert = true;
    let conv = AsciiConverter::with_config(cfg);
    let out = conv.convert_from_bytes(&bytes).unwrap();
    assert_eq!(out, " \n");
}

#[test]
fn grayscale_red_uses_the_crate_luma_weights() {
    let bytes = png_bytes(2, 2, [255, 0, 0, 255]);
    let conv = AsciiConverter::with_config(config(1, 1, 2000));
    let out = conv.convert_from_bytes(&bytes).unwrap();
    assert_eq!(out, "%\n");
}

#[test]
fn upscaling_resize_covers_the_whole_grid() {
    let bytes = png_bytes(1, 1, [255, 255, 255, 255]);
    let conv = AsciiConverter::with_config(config(2, 2, 1000));
    let out = conv.convert_from_bytes(&bytes).unwrap();
    assert_eq!(out, "  \n  \n");
}

#[test]
fn degenerate_scale_degrades_to_darkest_glyphs() {
    let bytes = png_bytes(2, 2, [255, 255, 255, 255]);
    let conv = AsciiConverter::with_config(config(2, 1, 500));
    let out = conv.convert_from_bytes(&bytes).unwrap();
    assert_eq!(out, "@@\n");
}

#[test]
fn detailed_alphabet_starts_with_dollar() {
    let bytes = png_bytes(2, 2, [0, 0, 0, 255]);
    let mut cfg = config(1, 1, 2000);
    cfg.use_detailed_chars = true;
    let conv = AsciiConverter::with_config(cfg);
    let out = conv.convert_from_bytes(&bytes).unwrap();
    assert_eq!(out, "$\n");
}

#[test]
fn zero_saturation_blends_to_neutral_gray() {
    let bytes = png_bytes(1, 1, [0, 0, 255, 255]);
    let mut cfg = config(1, 1, 1000);
    cfg.use_color = true;
    cfg.color_saturation = 0;
    let conv = AsciiConverter::with_config(cfg);
    let out = conv.convert_from_bytes(&bytes).unwrap();
    assert!(out.contains("color:rgb(127,127,127)"));
}

#[test]
fn colored_high_density_picks_block_glyphs() {
    let bytes = png_bytes(1, 1, [255, 0, 0, 255]);
    let mut cfg = config(1, 1, 1000);
    cfg.use_color = true;
    cfg.color_saturation = 1000;
    cfg.use_high_density = true;
    let conv = AsciiConverter::with_config(cfg);
    let out = conv.convert_from_bytes(&bytes).unwrap();
    assert!(out.contains("<span style=\"color:rgb(255,0,0)\">■</span>"));
}

#[test]
fn colored_high_density_full_brightness_reaches_the_last_glyph() {
    let bytes = png_bytes(1, 1, [255, 255, 255, 255]);
    let mut cfg = config(1, 1, 1000);
    cfg.use_color = true;
    cfg.color_saturation = 1000;
    cfg.use_high_density = true;
    let conv = AsciiConverter::with_config(cfg);
    let out = conv.convert_from_bytes(&bytes).unwrap();
    assert!(out.contains("<span style=\"color:rgb(255,255,255)\"> </span>"));
}

#[test]
fn uncovered_colored_cells_default_to_a_neutral_span() {
    let bytes = png_bytes(2, 2, [255, 255, 255, 255]);
    let mut cfg = config(2, 1, 500);
    cfg.use_color = true;
    let conv = AsciiConverter::with_config(cfg);
    let out = conv.convert_from_bytes(&bytes).unwrap();
    let expected = format!(
        "{}{span}{span}<br/>\n{}",
        HTML_HEADER,
        HTML_FOOTER,
        span = "<span style=\"color:rgb(38,38,38)\">@</span>"
    );
    assert_eq!(out, expected);
}

#[test]
fn uncovered_colored_cells_invert_to_the_lightest_glyph() {
    let bytes = png_bytes(2, 2, [255, 255, 255, 255]);
    let mut cfg = config(2, 1, 500);
    cfg.use_color = true;
    cfg.invert = true;
    let conv = AsciiConverter::with_config(cfg);
    let out = conv.convert_from_bytes(&bytes).unwrap();
    assert_eq!(out.matches("<span style=\"color:rgb(38,38,38)\"> </span>").count(), 2);
}

#[test]
fn negative_contrast_flips_around_mid_gray() {
    assert_eq!(aspix::tone::adjust_channel(0, -1000, 1000), 255);
    assert_eq!(aspix::tone::adjust_channel(255, -1000, 1000), 0);
    assert_eq!(aspix::tone::adjust_channel(128, -1000, 1000), 127);
    assert_eq!(aspix::tone::adjust_channel(127, -1000, 1000), 128);
}

#[test]
fn colored_output_is_a_full_html_document() {
    let bytes = png_bytes(2, 2, [10, 200, 30, 255]);
    let mut cfg = config(2, 2, 1000);
    cfg.use_color = true;
    let conv = AsciiConverter::with_config(cfg);
    let out = conv.convert_from_bytes(&bytes).unwrap();
    assert!(out.starts_with(HTML_HEADER));
    assert!(out.ends_with(HTML_FOOTER));
    assert_eq!(out.matches("<br/>\n").count(), 2);
}

#[test]
fn grayscale_grid_has_exact_line_structure() {
    let bytes = png_bytes(8, 8, [90, 90, 90, 255]);
    let conv = AsciiConverter::with_config(config(5, 3, 1000));
    let out = conv.convert_from_bytes(&bytes).unwrap();
    let lines: Vec<&str> = out.split_terminator('\n').collect();
    assert_eq!(lines.len(), 3);
    for line in lines {
        assert_eq!(line.chars().count(), 5);
    }
    assert!(out.ends_with('\n'));
}

#[test]
fn write_error_carries_its_cause() {
    let e = AsciiError::WriteError(String::from("disk full"));
    assert_eq!(e.cause().as_str(), "disk full");
}

#[test]
fn inverted_and_plain_indices_are_symmetric_around_the_midpoint() {
    let den: u128 = 2550;
    for num in 0..=2550u128 {
        let plain = aspix::alphabet::select_glyph_index(num, den, 10);
        let flipped = aspix::alphabet::select_glyph_index(den - num, den, 10);
        let sum = plain + flipped;
        assert!(sum == 8 || sum == 9);
    }
}

#[test]
fn default_config_values() {
    let c = AsciiConfig::default();
    assert_eq!(c.width, 100);
    assert_eq!(c.height, 50);
    assert!(!c.use_detailed_chars);
    assert!(!c.use_high_density);
    assert!(!c.use_color);
    assert_eq!(c.color_saturation, 700);
    assert!(!c.invert);
    assert_eq!(c.contrast, 1000);
    assert_eq!(c.brightness, 1000);
    assert_eq!(c.scale, 1000);
}

#[test]
fn new_converter_takes_the_grid_size() {
    let conv = AsciiConverter::new(80, 40);
    assert_eq!(conv.config.width, 80);
    assert_eq!(conv.config.height, 40);
    assert_eq!(conv.config.scale, 1000);
}
