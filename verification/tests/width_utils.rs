//! Tests for Unicode width and grapheme utilities.

use glyphgen::widths::{
    char_width, display_width, grapheme_count, is_combining, pad_to_width, split_graphemes,
    truncate_to_width, validate_graphemes,
};

#[test]
fn test_display_width_ascii() {
    assert_eq!(display_width("Hello"), 5);
    assert_eq!(display_width("World"), 5);
}

#[test]
fn test_display_width_cjk() {
    assert_eq!(display_width("你好"), 4); // 2 chars × 2 width
    assert_eq!(display_width("日本語"), 6); // 3 chars × 2 width
}

#[test]
fn test_display_width_emoji() {
    assert_eq!(display_width("🎨"), 2);
    assert_eq!(display_width("👨\u{200D}👩\u{200D}👧\u{200D}👦"), 2); // Family emoji (single grapheme)
}

#[test]
fn test_truncate_to_width() {
    assert_eq!(truncate_to_width("Hello, World!", 5), "Hello");
    assert_eq!(truncate_to_width("你好世界", 4), "你好");
}

#[test]
fn test_pad_to_width() {
    assert_eq!(pad_to_width("Hi", 5, false), "Hi   ");
    assert_eq!(pad_to_width("Hi", 5, true), "   Hi");
}

#[test]
fn test_pad_truncates_wide_input() {
    assert_eq!(pad_to_width("Hello, World!", 5, false), "Hello");
}

#[test]
fn test_validate_graphemes() {
    assert!(validate_graphemes("Hello"));
    assert!(validate_graphemes("你好"));
    assert!(validate_graphemes("🎨"));
}

#[test]
fn test_grapheme_count() {
    assert_eq!(grapheme_count("Hello"), 5);
    assert_eq!(grapheme_count("你好"), 2);
    assert_eq!(grapheme_count("👨\u{200D}👩\u{200D}👧\u{200D}👦"), 1); // Family is one grapheme
}

#[test]
fn test_ascii_width() {
    assert_eq!(display_width("Hello"), 5);
    assert_eq!(display_width("World!"), 6);
}

#[test]
fn test_cjk_width() {
    assert_eq!(display_width("你好"), 4);
    assert_eq!(display_width("日本語"), 6);
}

#[test]
fn test_truncate() {
    assert_eq!(truncate_to_width("Hello, World!", 5), "Hello");
    assert_eq!(truncate_to_width("你好世界", 4), "你好");
}

#[test]
fn test_pad() {
    assert_eq!(pad_to_width("Hi", 5, false), "Hi   ");
    assert_eq!(pad_to_width("Hi", 5, true), "   Hi");
}

#[test]
fn test_truncate_does_not_split_wide_char() {
    // A width budget of 3 fits only one two-column CJK character.
    assert_eq!(truncate_to_width("你好", 3), "你");
}

#[test]
fn test_char_width_values() {
    assert_eq!(char_width('a'), 1);
    assert_eq!(char_width('你'), 2);
    assert_eq!(char_width('\u{0301}'), 0);
}

#[test]
fn test_split_graphemes_clusters() {
    let parts = split_graphemes("a\u{0301}b");
    assert_eq!(parts.len(), 2);
    assert_eq!(parts[0], "a\u{0301}");
    assert_eq!(parts[1], "b");
}

#[test]
fn test_is_combining() {
    assert!(is_combining('\u{0301}'));
    assert!(is_combining('\u{FE20}'));
    assert!(!is_combining('a'));
    assert!(!is_combining('你'));
}
