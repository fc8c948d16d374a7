//! Tests for color conversion, quantization and escape formatting.

use glyphgen::color::{
    ansi16_to_bg, ansi16_to_fg, ansi256_to_bg, ansi256_to_fg, ansi_reset, format_bg_color,
    format_fg_color, hue_to_rgb, interpolate_color, luminance_to_gray, quantize_to_ansi16,
    quantize_to_ansi256, rgb_to_ansi_bg, rgb_to_ansi_fg, rgb_to_luminance,
    rgb_to_luminance_bt601, Rgb, LUM_SCALE,
};
use glyphgen::capabilities::ColorSupport;

fn lum_unit(l: u32) -> f64 {
    l as f64 / LUM_SCALE as f64
}

#[test]
fn test_luminance_range() {
    // Black should be 0
    assert!((lum_unit(rgb_to_luminance(0, 0, 0)) - 0.0).abs() < 0.01);

    // White should be 1
    assert!((lum_unit(rgb_to_luminance(255, 255, 255)) - 1.0).abs() < 0.01);

    // Gray should be ~0.5
    let gray = lum_unit(rgb_to_luminance(128, 128, 128));
    assert!(gray > 0.2 && gray < 0.8);
}

#[test]
fn test_luminance_black() {
    let lum = lum_unit(rgb_to_luminance(0, 0, 0));
    assert!((lum - 0.0).abs() < 0.01);
}

#[test]
fn test_luminance_white() {
    let lum = lum_unit(rgb_to_luminance(255, 255, 255));
    assert!((lum - 1.0).abs() < 0.01);
}

#[test]
fn test_luminance_gray() {
    let lum = lum_unit(rgb_to_luminance(128, 128, 128));
    assert!(lum > 0.1 && lum < 0.9);
}

#[test]
fn test_luminance_bt601_white() {
    assert_eq!(rgb_to_luminance_bt601(255, 255, 255), LUM_SCALE);
}

#[test]
fn test_luminance_to_gray_exact() {
    assert_eq!(luminance_to_gray(0), 0);
    assert_eq!(luminance_to_gray(LUM_SCALE), 255);
    // round(127.5) rounds up
    assert_eq!(luminance_to_gray(1275000), 128);
}

#[test]
fn test_ansi256_grayscale() {
    let gray = Rgb::new(128, 128, 128);
    let code = quantize_to_ansi256(gray);
    // Should be in grayscale range 232-255
    assert!(code >= 232);
    // avg = 128, gray index = round(128 / 255 * 23) = 12
    assert_eq!(code, 244);
}

#[test]
fn test_ansi256_color() {
    let red = Rgb::new(255, 0, 0);
    let code = quantize_to_ansi256(red);
    // Should be in color cube range 16-231
    assert!(code >= 16 && code <= 231);
    // cube indices (5, 0, 0) give 16 + 36 * 5 = 196
    assert_eq!(code, 196);
}

#[test]
fn test_ansi256_colors() {
    // Pure red
    let red = Rgb::new(255, 0, 0);
    let code = quantize_to_ansi256(red);
    assert!(code >= 16 && code <= 231);

    // Gray
    let gray = Rgb::new(128, 128, 128);
    let gray_code = quantize_to_ansi256(gray);
    assert!(gray_code >= 232);
}

#[test]
fn test_ansi16_exact_values() {
    // Saturated red, below half luminance: red (1)
    assert_eq!(quantize_to_ansi16(Rgb::new(255, 0, 0)), 1);
    // Saturated green, above half luminance: bright green (2 + 8)
    assert_eq!(quantize_to_ansi16(Rgb::new(0, 255, 0)), 10);
    // Black is low saturation and dark
    assert_eq!(quantize_to_ansi16(Rgb::new(0, 0, 0)), 0);
    // White is low saturation and bright
    assert_eq!(quantize_to_ansi16(Rgb::new(255, 255, 255)), 15);
    // Everything stays in the 16-color palette
    for v in [0u8, 1, 63, 64, 127, 128, 200, 255] {
        assert!(quantize_to_ansi16(Rgb::new(v, 255 - v, 128)) <= 15);
    }
}

#[test]
fn test_color_interpolation() {
    let black = Rgb::new(0, 0, 0);
    let white = Rgb::new(255, 255, 255);

    let mid = interpolate_color(black, white, 1, 2);
    assert!((mid.r as i16 - 127).abs() <= 1);
    assert!((mid.g as i16 - 127).abs() <= 1);
    assert!((mid.b as i16 - 127).abs() <= 1);
}

#[test]
fn integration_tests_test_color_interpolation() {
    let start = Rgb::new(0, 0, 0);
    let end = Rgb::new(255, 255, 255);

    let mid = interpolate_color(start, end, 1, 2);
    assert!((mid.r as i16 - 127).abs() <= 1);
    assert!((mid.g as i16 - 127).abs() <= 1);
    assert!((mid.b as i16 - 127).abs() <= 1);
}

#[test]
fn test_interpolation_degenerate_fraction() {
    // A zero denominator stands for a fraction of zero: the start color.
    let start = Rgb::new(10, 20, 30);
    let end = Rgb::new(200, 210, 220);
    assert_eq!(interpolate_color(start, end, 0, 0), start);
    // A fraction of one yields the end color exactly.
    assert_eq!(interpolate_color(start, end, 5, 5), end);
}

#[test]
fn test_ansi_fg_format() {
    let red = Rgb::new(255, 0, 0);
    let code = rgb_to_ansi_fg(red);
    assert_eq!(code, "\x1b[38;2;255;0;0m");
}

#[test]
fn test_ansi_bg_format() {
    assert_eq!(rgb_to_ansi_bg(Rgb::new(1, 2, 3)), "\x1b[48;2;1;2;3m");
    assert_eq!(ansi256_to_fg(196), "\x1b[38;5;196m");
    assert_eq!(ansi256_to_bg(16), "\x1b[48;5;16m");
    assert_eq!(ansi16_to_fg(1), "\x1b[31m");
    assert_eq!(ansi16_to_fg(9), "\x1b[91m");
    assert_eq!(ansi16_to_bg(1), "\x1b[41m");
    assert_eq!(ansi16_to_bg(9), "\x1b[101m");
    assert_eq!(ansi_reset(), "\x1b[0m");
}

#[test]
fn test_format_color_levels() {
    let red = Rgb::new(255, 0, 0);
    assert_eq!(format_fg_color(red, ColorSupport::NoColor), "");
    assert_eq!(format_fg_color(red, ColorSupport::Color16), "\x1b[31m");
    assert_eq!(format_fg_color(red, ColorSupport::Color256), "\x1b[38;5;196m");
    assert_eq!(format_fg_color(red, ColorSupport::TrueColor), "\x1b[38;2;255;0;0m");
    assert_eq!(format_bg_color(red, ColorSupport::NoColor), "");
    assert_eq!(format_bg_color(red, ColorSupport::TrueColor), "\x1b[48;2;255;0;0m");
}

#[test]
fn test_hue_to_rgb() {
    let red = hue_to_rgb(0, 1);
    assert_eq!(red.r, 255);

    let green = hue_to_rgb(1, 3);
    assert_eq!(green.g, 255);

    let blue = hue_to_rgb(2, 3);
    assert_eq!(blue.b, 255);
}

#[test]
fn test_hue_to_rgb_exact_yellow() {
    // hue 60 degrees: sector 1 at its start, x at full value
    assert_eq!(hue_to_rgb(1, 6), Rgb::new(255, 255, 0));
}

#[test]
fn test_rgb_tuple_round_trip() {
    let c = Rgb::from_tuple((12, 34, 56));
    assert_eq!(c, Rgb::new(12, 34, 56));
    assert_eq!(c.to_tuple(), (12, 34, 56));
}
