//! Tests for configuration defaults, state tables, capabilities and format
//! recognition.

use glyphgen::ascii_art::CharacterSet;
use glyphgen::capabilities::{ColorSupport, TerminalCapabilities, UnicodeSupport};
use glyphgen::loader::{is_supported_format, supported_extensions};
use glyphgen::settings::Config;
use glyphgen::state::{
    zoom_step, AsciiRenderState, FocusedWidget, OutputFormat, RenderMode, TextStylizeState,
    UnicodeRenderState,
};
use glyphgen::stylizer::{GradientMode, UnicodeStyle};
use glyphgen::unicode_art::UnicodeMode;

#[test]
fn test_default_config() {
    let config = Config::default();
    assert_eq!(config.ascii.default_width, 80);
    assert!(!config.ascii.edge_enhance);
}

#[test]
fn test_default_config_fields() {
    let config = Config::default();
    assert_eq!(config.ascii.default_charset, CharacterSet::Extended);
    assert_eq!(config.unicode.default_mode, UnicodeMode::HalfBlocks);
    assert_eq!(config.unicode.default_width, 80);
    assert_eq!(config.text.default_style, "Bold");
    assert_eq!(config.text.default_gradient, "None");
    assert!(!config.ui.show_line_numbers);
    assert!(!config.ui.word_wrap);
}

#[test]
fn test_supported_extensions() {
    let extensions = supported_extensions();
    assert!(extensions.contains(&"png"));
    assert!(extensions.contains(&"jpg"));
    assert!(extensions.contains(&"jpeg"));
}

#[test]
fn test_is_supported_format() {
    assert!(is_supported_format("test.png"));
    assert!(is_supported_format("test.PNG"));
    assert!(is_supported_format("test.jpg"));
    assert!(is_supported_format("test.JPEG"));
    assert!(!is_supported_format("test.txt"));
    assert!(!is_supported_format("test"));
}

#[test]
fn test_is_supported_format_paths() {
    assert!(is_supported_format("dir/photo.webp"));
    assert!(is_supported_format("a.b/c.tif"));
    assert!(!is_supported_format(".png"));
    assert!(!is_supported_format("dir.png/file"));
}

#[test]
fn test_zoom_step_behaviour() {
    assert_eq!(zoom_step(80, true), 64); // zoom in
    assert_eq!(zoom_step(80, false), 100); // zoom out
    assert_eq!(zoom_step(12, true), 10); // min clamp
    assert!(zoom_step(4000, false) <= 4000);
}

#[test]
fn test_color_support_cycling() {
    let support = ColorSupport::NoColor;
    assert_eq!(support.next(), ColorSupport::Color16);
    assert_eq!(support.prev(), ColorSupport::TrueColor);
}

#[test]
fn test_capabilities_default() {
    let caps = TerminalCapabilities::default();
    assert_eq!(caps.color_support, ColorSupport::TrueColor);
    assert_eq!(caps.unicode_support, UnicodeSupport::Full);
    assert!(caps.mouse_support);
}

#[test]
fn test_render_mode_table() {
    assert_eq!(RenderMode::default(), RenderMode::ImageToAscii);
    assert_eq!(RenderMode::ImageToAscii.name(), "ASCII Art");
    let all = RenderMode::all();
    assert_eq!(all.len(), 3);
    assert_eq!(all[2], RenderMode::TextStylizer);
}

#[test]
fn test_focus_cycling() {
    let f = FocusedWidget::ModeSelector;
    assert_eq!(f.next(), FocusedWidget::ControlPanel);
    assert_eq!(f.next().next().next(), FocusedWidget::ModeSelector);
    assert_eq!(f.prev(), FocusedWidget::Preview);
}

#[test]
fn test_output_format() {
    assert_eq!(OutputFormat::default(), OutputFormat::Ansi);
    assert_eq!(OutputFormat::Ansi.name(), "ANSI");
    assert_eq!(OutputFormat::Html.name(), "HTML");
}

#[test]
fn test_ascii_state_settings() {
    let st = AsciiRenderState::default();
    assert_eq!(AsciiRenderState::settings_count(), 5);
    assert_eq!(st.setting_name(0), "Width");
    assert_eq!(st.setting_name(9), "Unknown");
    assert_eq!(st.setting_value(0), "80");
    assert_eq!(st.setting_value(1), "Extended");
    assert_eq!(st.setting_value(2), "Off");
    assert_eq!(st.setting_value(9), "");
}

#[test]
fn test_unicode_state_settings() {
    let st = UnicodeRenderState::default();
    assert_eq!(UnicodeRenderState::settings_count(), 4);
    assert_eq!(st.setting_name(1), "Mode");
    assert_eq!(st.setting_value(0), "80");
    assert_eq!(st.setting_value(1), "Half-Blocks");
    assert_eq!(st.setting_value(2), "True Color");
}

#[test]
fn test_text_state_settings() {
    let mut st = TextStylizeState::default();
    assert_eq!(TextStylizeState::settings_count(), 6);
    assert_eq!(st.style, UnicodeStyle::Bold);
    assert_eq!(st.gradient, GradientMode::NoGradient);
    assert_eq!(st.setting_value(0), "Bold");
    assert_eq!(st.setting_value(1), "None");
    assert_eq!(st.setting_value(2), "#FF0000");
    assert_eq!(st.setting_value(3), "#0000FF");
    assert_eq!(st.setting_value(4), "[Type here...]");
    st.input_text = String::from("short");
    assert_eq!(st.setting_value(4), "short");
    st.input_text = String::from("abcdefghijklmnopqrstuvwxyz");
    assert_eq!(st.setting_value(4), "abcdefghijklmnopqrst...");
}
