//! Tests for the text stylizer.

use glyphgen::stylizer::{
    apply_horizontal_gradient, apply_rainbow_gradient, apply_unicode_style, stylize_text,
    GradientMode, UnicodeStyle,
};

#[test]
fn test_style_cycling() {
    let style = UnicodeStyle::Bold;
    assert_eq!(style.next(), UnicodeStyle::Italic);
    assert_eq!(style.prev(), UnicodeStyle::Squared);
}

#[test]
fn test_gradient_cycling() {
    let mode = GradientMode::NoGradient;
    assert_eq!(mode.next(), GradientMode::Horizontal);
    assert_eq!(mode.prev(), GradientMode::Rainbow);
}

#[test]
fn test_bold_transformation() {
    let styled = apply_unicode_style("ABC", UnicodeStyle::Bold);
    assert_eq!(styled, "𝐀𝐁𝐂");
}

#[test]
fn test_bold_lowercase() {
    let styled = apply_unicode_style("abc", UnicodeStyle::Bold);
    assert_eq!(styled, "𝐚𝐛𝐜");
}

#[test]
fn test_double_struck() {
    let styled = apply_unicode_style("CNQRZ", UnicodeStyle::DoubleStruck);
    // These should use the special characters
    assert!(styled.contains('ℂ'));
    assert!(styled.contains('ℕ'));
}

#[test]
fn test_script_exceptions() {
    let styled = apply_unicode_style("BEFHILMR", UnicodeStyle::Script);
    assert_eq!(styled, "ℬℰℱℋℐℒℳℛ");
    let lower = apply_unicode_style("ego", UnicodeStyle::Script);
    assert_eq!(lower, "ℯℊℴ");
}

#[test]
fn test_fraktur_exceptions() {
    let styled = apply_unicode_style("CHIRZ", UnicodeStyle::Fraktur);
    assert_eq!(styled, "ℭℌℑℜℨ");
}

#[test]
fn test_italic_planck_h() {
    let styled = apply_unicode_style("h", UnicodeStyle::Italic);
    assert_eq!(styled, "ℎ");
}

#[test]
fn test_circled() {
    let styled = apply_unicode_style("ABC", UnicodeStyle::Circled);
    assert_eq!(styled, "ⒶⒷⒸ");
}

#[test]
fn test_circled_digits() {
    let styled = apply_unicode_style("0123456789", UnicodeStyle::Circled);
    assert_eq!(styled, "⓪①②③④⑤⑥⑦⑧⑨");
}

#[test]
fn test_bold_digits() {
    let styled = apply_unicode_style("0123456789", UnicodeStyle::Bold);
    assert_eq!(styled, "𝟎𝟏𝟐𝟑𝟒𝟓𝟔𝟕𝟖𝟗");
}

#[test]
fn test_squared_falls_back_to_uppercase() {
    // Squared has no lowercase table: lowercase letters map through the
    // uppercase transform.
    let lower = apply_unicode_style("abc", UnicodeStyle::Squared);
    let upper = apply_unicode_style("ABC", UnicodeStyle::Squared);
    assert_eq!(lower, upper);
    assert_eq!(upper, "🄰🄱🄲");
}

#[test]
fn text_stylizer_test_preserves_spaces() {
    let styled = apply_unicode_style("A B C", UnicodeStyle::Bold);
    assert_eq!(styled, "𝐀 𝐁 𝐂");
}

#[test]
fn test_preserves_punctuation() {
    let styled = apply_unicode_style("Hello, World!", UnicodeStyle::Bold);
    assert!(styled.contains(','));
    assert!(styled.contains('!'));
}

#[test]
fn test_stylize_with_gradient() {
    let result = stylize_text(
        "Test",
        UnicodeStyle::Bold,
        GradientMode::Horizontal,
        (255, 0, 0),
        (0, 0, 255),
    )
    .unwrap();

    // Should contain ANSI escape codes
    assert!(result.contains("\x1b["));
    // Should contain styled text
    assert!(result.contains("𝐓"));
}

#[test]
fn test_basic_stylization() {
    let result = stylize_text(
        "Hello",
        UnicodeStyle::Bold,
        GradientMode::NoGradient,
        (255, 0, 0),
        (0, 0, 255),
    )
    .unwrap();

    assert!(!result.is_empty());
    assert!(result.contains('𝐇'));
}

#[test]
fn test_all_unicode_styles() {
    let text = "ABC abc 123";

    for style in UnicodeStyle::all() {
        let result = stylize_text(
            text,
            style,
            GradientMode::NoGradient,
            (255, 0, 0),
            (0, 0, 255),
        )
        .unwrap();

        assert!(!result.is_empty(), "Failed for style {:?}", style);
    }
}

#[test]
fn test_gradient_horizontal() {
    let result = stylize_text(
        "Rainbow",
        UnicodeStyle::Bold,
        GradientMode::Horizontal,
        (255, 0, 0),
        (0, 0, 255),
    )
    .unwrap();

    // Should contain ANSI escape codes
    assert!(result.contains("\x1b["));
}

#[test]
fn test_gradient_rainbow() {
    let result = stylize_text(
        "Rainbow",
        UnicodeStyle::Bold,
        GradientMode::Rainbow,
        (0, 0, 0),
        (0, 0, 0),
    )
    .unwrap();

    // Should contain ANSI escape codes
    assert!(result.contains("\x1b["));
}

#[test]
fn integration_tests_test_preserves_spaces() {
    let result = stylize_text(
        "A B C",
        UnicodeStyle::Bold,
        GradientMode::NoGradient,
        (255, 0, 0),
        (0, 0, 255),
    )
    .unwrap();

    assert!(result.contains(' '));
}

#[test]
fn test_empty_string() {
    let result = stylize_text(
        "",
        UnicodeStyle::Bold,
        GradientMode::NoGradient,
        (255, 0, 0),
        (0, 0, 255),
    )
    .unwrap();

    assert!(result.is_empty());
}

#[test]
fn test_empty_string_all_combinations() {
    for style in UnicodeStyle::all() {
        for gradient in [GradientMode::NoGradient, GradientMode::Horizontal, GradientMode::Rainbow]
        {
            let result = stylize_text("", style, gradient, (255, 0, 0), (0, 0, 255)).unwrap();
            assert!(result.is_empty(), "Failed for {:?}/{:?}", style, gradient);
        }
    }
}

#[test]
fn test_special_characters() {
    let result = stylize_text(
        "Hello, World! @#$%",
        UnicodeStyle::Bold,
        GradientMode::NoGradient,
        (255, 0, 0),
        (0, 0, 255),
    )
    .unwrap();

    // Punctuation should be preserved
    assert!(result.contains(','));
    assert!(result.contains('!'));
    assert!(result.contains('@'));
}

#[test]
fn test_single_grapheme_gradient() {
    // A one-cluster string takes the start color exactly (fraction zero).
    let result = apply_horizontal_gradient("X", (10, 20, 30), (200, 210, 220));
    assert_eq!(result, "\x1b[38;2;10;20;30mX\x1b[0m");
}

#[test]
fn test_horizontal_gradient_endpoints() {
    let result = apply_horizontal_gradient("ab", (255, 0, 0), (0, 0, 255));
    assert_eq!(result, "\x1b[38;2;255;0;0ma\x1b[0m\x1b[38;2;0;0;255mb\x1b[0m");
}

#[test]
fn test_gradient_skips_whitespace() {
    // Whitespace clusters are emitted without a color wrapper: two colored
    // clusters, one bare space.
    let result = apply_rainbow_gradient("a b");
    assert_eq!(result.matches("\x1b[38;2;").count(), 2);
    assert!(result.contains(" "));
}

#[test]
fn test_gradient_over_grapheme_clusters() {
    // A family emoji is a single grapheme cluster: one color wrapper.
    let family = "\u{1F468}\u{200D}\u{1F469}\u{200D}\u{1F467}\u{200D}\u{1F466}";
    let result = apply_rainbow_gradient(family);
    assert_eq!(result.matches("\x1b[38;2;").count(), 1);
}

#[test]
fn test_stylize_deterministic() {
    let a = stylize_text("Same", UnicodeStyle::Script, GradientMode::Rainbow, (1, 2, 3), (4, 5, 6))
        .unwrap();
    let b = stylize_text("Same", UnicodeStyle::Script, GradientMode::Rainbow, (1, 2, 3), (4, 5, 6))
        .unwrap();
    assert_eq!(a, b);
}
