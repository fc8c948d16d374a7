//! Tests for the ASCII and Unicode rendering engines.

use glyphgen::ascii_art::{
    calculate_dimensions, map_luminance_to_char, render_ascii, AsciiConfig, CharacterSet,
    RenderError,
};
use glyphgen::capabilities::ColorSupport;
use glyphgen::color::LUM_SCALE;
use glyphgen::raster::Raster;
use glyphgen::unicode_art::{render_unicode, UnicodeConfig, UnicodeMode};

fn solid_image(width: usize, height: usize, r: u8, g: u8, b: u8) -> Raster {
    let mut data = Vec::new();
    for _ in 0..width * height {
        data.push(r);
        data.push(g);
        data.push(b);
    }
    Raster::new(width, height, data).unwrap()
}

fn create_gradient_image(width: usize, height: usize) -> Raster {
    let mut data = Vec::new();
    for y in 0..height {
        for x in 0..width {
            let value = ((x + y) as f32 / (width + height) as f32 * 255.0) as u8;
            data.push(value);
            data.push(value);
            data.push(value);
        }
    }
    Raster::new(width, height, data).unwrap()
}

fn create_color_image(width: usize, height: usize) -> Raster {
    let mut data = Vec::new();
    for y in 0..height {
        for x in 0..width {
            data.push(((x as f32 / width as f32) * 255.0) as u8);
            data.push(((y as f32 / height as f32) * 255.0) as u8);
            data.push(128);
        }
    }
    Raster::new(width, height, data).unwrap()
}

#[test]
fn test_charset_cycling() {
    let charset = CharacterSet::Standard;
    assert_eq!(charset.next(), CharacterSet::Extended);
    assert_eq!(charset.prev(), CharacterSet::Blocks);
}

#[test]
fn test_luminance_mapping() {
    let charset = CharacterSet::Standard;

    // Dark (low luminance) should map to first char (space)
    assert_eq!(map_luminance_to_char(0, &charset), ' ');

    // Bright (high luminance) should map to last char (@)
    assert_eq!(map_luminance_to_char(LUM_SCALE, &charset), '@');
}

#[test]
fn test_luminance_mapping_all_charsets() {
    for charset in [CharacterSet::Standard, CharacterSet::Extended, CharacterSet::Blocks] {
        let ramp: Vec<char> = charset.chars().chars().collect();
        assert_eq!(map_luminance_to_char(0, &charset), ramp[0]);
        assert_eq!(map_luminance_to_char(LUM_SCALE, &charset), ramp[ramp.len() - 1]);
    }
    let custom = CharacterSet::Custom(String::from("xy"));
    assert_eq!(map_luminance_to_char(0, &custom), 'x');
    assert_eq!(map_luminance_to_char(LUM_SCALE, &custom), 'y');
}

#[test]
fn test_dimension_calculation() {
    // A 100x100 test image
    let img = solid_image(100, 100, 0, 0, 0);
    let (width, height) = calculate_dimensions(&img, 80);

    assert_eq!(width, 80);
    // Height should be roughly half of width due to char aspect ratio
    assert!(height >= 30 && height <= 50);
}

#[test]
fn test_render_basic() {
    // A simple gradient image
    let mut data = Vec::new();
    for y in 0..10u32 {
        for x in 0..10u32 {
            let value = ((x + y) * 12) as u8;
            data.push(value);
            data.push(value);
            data.push(value);
        }
    }
    let img = Raster::new(10, 10, data).unwrap();

    let config = AsciiConfig {
        target_width: 10,
        charset: CharacterSet::Standard,
        invert: false,
        edge_enhance: false,
    };

    let result = render_ascii(&img, &config).unwrap();
    assert!(!result.is_empty());
    assert!(result.contains('\n'));
}

#[test]
fn test_basic_ascii_render() {
    let image = create_gradient_image(100, 100);
    let config = AsciiConfig {
        target_width: 40,
        charset: CharacterSet::Standard,
        invert: false,
        edge_enhance: false,
    };

    let result = render_ascii(&image, &config).unwrap();

    // Verify basic properties
    assert!(!result.is_empty());
    assert!(result.contains('\n'));

    // Check dimensions
    let lines: Vec<&str> = result.lines().collect();
    assert!(lines.len() > 0);

    // First line should be target width
    assert_eq!(lines[0].chars().count(), 40);
}

#[test]
fn test_ascii_charsets() {
    let image = create_gradient_image(50, 50);

    for charset in [CharacterSet::Standard, CharacterSet::Extended, CharacterSet::Blocks] {
        let config = AsciiConfig {
            target_width: 20,
            charset: charset.clone(),
            invert: false,
            edge_enhance: false,
        };

        let result = render_ascii(&image, &config).unwrap();
        assert!(!result.is_empty(), "Failed for charset {:?}", charset);
    }
}

#[test]
fn test_ascii_invert() {
    let image = create_gradient_image(50, 50);

    let config_normal = AsciiConfig {
        target_width: 20,
        charset: CharacterSet::Standard,
        invert: false,
        edge_enhance: false,
    };

    let config_inverted = AsciiConfig {
        target_width: 20,
        charset: CharacterSet::Standard,
        invert: true,
        edge_enhance: false,
    };

    let result_normal = render_ascii(&image, &config_normal).unwrap();
    let result_inverted = render_ascii(&image, &config_inverted).unwrap();

    // Results should be different
    assert_ne!(result_normal, result_inverted);
}

#[test]
fn test_ascii_edge_enhance() {
    let image = create_gradient_image(50, 50);

    let config_normal = AsciiConfig {
        target_width: 20,
        charset: CharacterSet::Extended,
        invert: false,
        edge_enhance: false,
    };

    let config_enhanced = AsciiConfig {
        target_width: 20,
        charset: CharacterSet::Extended,
        invert: false,
        edge_enhance: true,
    };

    let result_normal = render_ascii(&image, &config_normal).unwrap();
    let result_enhanced = render_ascii(&image, &config_enhanced).unwrap();

    // Both should succeed
    assert!(!result_normal.is_empty());
    assert!(!result_enhanced.is_empty());
}

#[test]
fn test_ascii_various_widths() {
    let image = create_gradient_image(200, 200);

    for width in [20, 40, 80, 120, 200] {
        let config = AsciiConfig {
            target_width: width,
            charset: CharacterSet::Extended,
            invert: false,
            edge_enhance: false,
        };

        let result = render_ascii(&image, &config).unwrap();
        let first_line = result.lines().next().unwrap();
        assert_eq!(first_line.chars().count(), width, "Width mismatch for {}", width);
    }
}

#[test]
fn test_ascii_render_deterministic() {
    let image = create_gradient_image(60, 40);
    let config = AsciiConfig {
        target_width: 30,
        charset: CharacterSet::Extended,
        invert: false,
        edge_enhance: true,
    };
    let a = render_ascii(&image, &config).unwrap();
    let b = render_ascii(&image, &config).unwrap();
    assert_eq!(a, b);
}

#[test]
fn test_ascii_resample_blends() {
    // Two pixels, black and white, resampled to one column: the blended
    // glyph is neither the darkest nor the lightest of the ramp.
    let img = Raster::new(2, 2, vec![0, 0, 0, 255, 255, 255, 0, 0, 0, 255, 255, 255]).unwrap();
    let config = AsciiConfig {
        target_width: 1,
        charset: CharacterSet::Standard,
        invert: false,
        edge_enhance: false,
    };
    let result = render_ascii(&img, &config).unwrap();
    let first = result.chars().next().unwrap();
    assert_ne!(first, ' ');
    assert_ne!(first, '@');
}

#[test]
fn test_ascii_oversized_width_fails() {
    let img = solid_image(2, 2, 0, 0, 0);
    let config = AsciiConfig {
        target_width: usize::MAX,
        charset: CharacterSet::Standard,
        invert: false,
        edge_enhance: false,
    };
    assert_eq!(render_ascii(&img, &config), Err(RenderError::OutputTooLarge));
}

#[test]
fn test_mode_cycling() {
    let mode = UnicodeMode::Blocks;
    assert_eq!(mode.next(), UnicodeMode::HalfBlocks);
    assert_eq!(mode.prev(), UnicodeMode::Braille);
}

#[test]
fn test_render_blocks() {
    let img = solid_image(10, 10, 0, 0, 0);
    let config = UnicodeConfig {
        target_width: 10,
        mode: UnicodeMode::Blocks,
        color_mode: ColorSupport::NoColor,
    };

    let result = render_unicode(&img, &config).unwrap();
    assert!(!result.is_empty());
}

#[test]
fn test_render_half_blocks() {
    let img = solid_image(10, 10, 0, 0, 0);
    let config = UnicodeConfig {
        target_width: 10,
        mode: UnicodeMode::HalfBlocks,
        color_mode: ColorSupport::NoColor,
    };

    let result = render_unicode(&img, &config).unwrap();
    assert!(!result.is_empty());
    assert!(result.contains('▀') || result.chars().any(|c| c == ' ' || c == '\n'));
}

#[test]
fn test_render_braille() {
    let img = solid_image(10, 10, 0, 0, 0);
    let config = UnicodeConfig {
        target_width: 10,
        mode: UnicodeMode::Braille,
        color_mode: ColorSupport::NoColor,
    };

    let result = render_unicode(&img, &config).unwrap();
    assert!(!result.is_empty());
}

#[test]
fn test_with_color() {
    // A simple red pattern
    let img = solid_image(4, 4, 255, 0, 0);

    let config = UnicodeConfig {
        target_width: 4,
        mode: UnicodeMode::HalfBlocks,
        color_mode: ColorSupport::TrueColor,
    };

    let result = render_unicode(&img, &config).unwrap();
    // Should contain ANSI escape codes
    assert!(result.contains("\x1b["));
}

#[test]
fn test_basic_unicode_blocks() {
    let image = create_color_image(100, 100);
    let config = UnicodeConfig {
        target_width: 40,
        mode: UnicodeMode::Blocks,
        color_mode: ColorSupport::NoColor,
    };

    let result = render_unicode(&image, &config).unwrap();
    assert!(!result.is_empty());
}

#[test]
fn test_unicode_blocks_line_width() {
    let image = create_gradient_image(73, 31);
    let config = UnicodeConfig {
        target_width: 40,
        mode: UnicodeMode::Blocks,
        color_mode: ColorSupport::NoColor,
    };
    let result = render_unicode(&image, &config).unwrap();
    assert_eq!(result.lines().next().unwrap().chars().count(), 40);
}

#[test]
fn test_half_blocks() {
    let image = create_color_image(100, 100);
    let config = UnicodeConfig {
        target_width: 40,
        mode: UnicodeMode::HalfBlocks,
        color_mode: ColorSupport::NoColor,
    };

    let result = render_unicode(&image, &config).unwrap();
    // Should contain upper half block characters
    assert!(result.contains('▀') || result.chars().all(|c| c == ' ' || c == '\n'));
}

#[test]
fn test_braille() {
    let image = create_gradient_image(100, 100);
    let config = UnicodeConfig {
        target_width: 40,
        mode: UnicodeMode::Braille,
        color_mode: ColorSupport::NoColor,
    };

    let result = render_unicode(&image, &config).unwrap();
    assert!(!result.is_empty());
}

#[test]
fn test_braille_bright_image_fills_cells() {
    // Every pixel above the threshold sets all eight dots: U+28FF.
    let image = solid_image(8, 8, 255, 255, 255);
    let config = UnicodeConfig {
        target_width: 4,
        mode: UnicodeMode::Braille,
        color_mode: ColorSupport::NoColor,
    };
    let result = render_unicode(&image, &config).unwrap();
    assert!(result.contains('\u{28FF}'));
    assert!(!result.contains('\u{2800}'));
}

#[test]
fn test_unicode_with_colors() {
    let image = create_color_image(50, 50);

    for color_mode in [
        ColorSupport::NoColor,
        ColorSupport::Color16,
        ColorSupport::Color256,
        ColorSupport::TrueColor,
    ] {
        let config = UnicodeConfig {
            target_width: 20,
            mode: UnicodeMode::HalfBlocks,
            color_mode,
        };

        let result = render_unicode(&image, &config).unwrap();
        assert!(!result.is_empty(), "Failed for color mode {:?}", color_mode);

        // TrueColor should contain ANSI escape codes
        if color_mode == ColorSupport::TrueColor {
            assert!(result.contains("\x1b["));
        }
    }
}

#[test]
fn test_raster_rejects_mismatched_buffer() {
    assert!(Raster::new(2, 2, vec![0; 12]).is_some());
    assert!(Raster::new(2, 2, vec![0; 11]).is_none());
    assert!(Raster::new(0, 2, vec![]).is_none());
}
