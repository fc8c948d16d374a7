//! Tests for the ANSI parse, strip and HTML conversion layer.

use glyphgen::capabilities::ColorSupport;
use glyphgen::codec::{
    convert_ansi_to_html, indexed_to_css, parse_ansi_to_spans, parse_sgr_params, strip_ansi_codes,
    SpanColor,
};
use glyphgen::color::{ansi_reset, format_fg_color, Rgb};

#[test]
fn test_strip_ansi_codes() {
    let input = "\x1b[38;2;255;0;0mRed\x1b[0m";
    let output = strip_ansi_codes(input);
    assert_eq!(output, "Red");
}

#[test]
fn test_strip_ansi_preserves_text() {
    let input = "Hello, World!";
    let output = strip_ansi_codes(input);
    assert_eq!(output, "Hello, World!");
}

#[test]
fn test_strip_ansi_complex() {
    let input = "\x1b[38;5;196mR\x1b[38;5;208mA\x1b[38;5;226mI\x1b[38;5;46mN\x1b[38;5;21mB\x1b[38;5;129mO\x1b[38;5;196mW\x1b[0m";
    let output = strip_ansi_codes(input);
    assert_eq!(output, "RAINBOW");
}

#[test]
fn test_strip_unterminated_escape() {
    // An unterminated CSI sequence is consumed up to end of input without
    // affecting the surrounding text.
    assert_eq!(strip_ansi_codes("ok\x1b[38;2;1"), "ok");
    // A non-CSI escape is skipped through its terminator.
    assert_eq!(strip_ansi_codes("a\x1b]x b"), "a b");
    // A bare trailing escape disappears.
    assert_eq!(strip_ansi_codes("end\x1b"), "end");
}

#[test]
fn test_parse_spans_colors() {
    let spans = parse_ansi_to_spans("\x1b[38;2;255;0;0mRed\x1b[0mPlain");
    assert_eq!(spans.len(), 2);
    assert_eq!(spans[0].text, "Red");
    assert_eq!(spans[0].fg, Some(SpanColor::Rgb(255, 0, 0)));
    assert_eq!(spans[0].bg, None);
    assert_eq!(spans[1].text, "Plain");
    assert_eq!(spans[1].fg, None);
}

#[test]
fn test_parse_spans_named_and_indexed() {
    let spans = parse_ansi_to_spans("\x1b[31mR\x1b[48;5;21mB");
    assert_eq!(spans.len(), 2);
    assert_eq!(spans[0].fg, Some(SpanColor::Named(1)));
    assert_eq!(spans[1].fg, Some(SpanColor::Named(1)));
    assert_eq!(spans[1].bg, Some(SpanColor::Indexed(21)));
}

#[test]
fn test_parse_sgr_reset() {
    let mut fg = Some(SpanColor::Named(1));
    let mut bg = Some(SpanColor::Named(4));
    parse_sgr_params("0", &mut fg, &mut bg);
    assert_eq!(fg, None);
    assert_eq!(bg, None);
}

#[test]
fn test_parse_sgr_unknown_codes_ignored() {
    let mut fg = None;
    let mut bg = None;
    parse_sgr_params("1;4;58", &mut fg, &mut bg);
    assert_eq!(fg, None);
    assert_eq!(bg, None);
    parse_sgr_params("38;2;10;20;30", &mut fg, &mut bg);
    assert_eq!(fg, Some(SpanColor::Rgb(10, 20, 30)));
}

#[test]
fn test_convert_ansi_to_html_basic() {
    let input = "\x1b[38;2;255;0;0mRed\x1b[0m";
    let html = convert_ansi_to_html(input);
    assert!(html.contains("rgb(255,0,0)"));
    assert!(html.contains("Red"));
}

#[test]
fn test_convert_ansi_to_html_escapes_entities() {
    let html = convert_ansi_to_html("a<b & c>d");
    assert!(html.contains("a&lt;b &amp; c&gt;d"));
}

#[test]
fn test_convert_ansi_to_html_document_shape() {
    let html = convert_ansi_to_html("x");
    assert!(html.starts_with("<!doctype html>"));
    assert!(html.contains("<pre>"));
    assert!(html.ends_with("</pre></body></html>"));
}

#[test]
fn test_indexed_to_css_table() {
    // Basic colors map to fixed hex constants
    assert_eq!(indexed_to_css(0), "#000000");
    assert_eq!(indexed_to_css(15), "#ffffff");
    // The 6x6x6 cube formula: component = 0 at index 0, else 40*i + 55
    assert_eq!(indexed_to_css(196), "rgb(255,0,0)");
    assert_eq!(indexed_to_css(16), "rgb(0,0,0)");
    assert_eq!(indexed_to_css(110), "rgb(135,175,215)");
    // The grayscale ramp: shade = 8 + 10 * (code - 232)
    assert_eq!(indexed_to_css(232), "rgb(8,8,8)");
    assert_eq!(indexed_to_css(255), "rgb(238,238,238)");
}

#[test]
fn test_round_trip_strip_of_encoded() {
    for level in [
        ColorSupport::NoColor,
        ColorSupport::Color16,
        ColorSupport::Color256,
        ColorSupport::TrueColor,
    ] {
        let mut encoded = format_fg_color(Rgb::new(12, 200, 56), level);
        encoded.push_str("X");
        encoded.push_str(ansi_reset());
        assert_eq!(strip_ansi_codes(&encoded), "X", "failed at {:?}", level);
    }
}
