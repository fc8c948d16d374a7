//! Per-mode render state and the small pure pieces of the interactive
//! surface: mode and focus cycling, the control-panel setting tables, the
//! preview output format, and the zoom step rule.  The interactive shell
//! that holds these states lives in the surrounding application.

use vstd::prelude::*;

use crate::ascii_art::{spec_charset_name, CharacterSet};
use crate::capabilities::{spec_color_support_name, ColorSupport};
use crate::stylizer::{spec_gradient_name, spec_style_name, GradientMode, UnicodeStyle};
use crate::text::{chars_of, dec_seq, hex_byte_seq, push_decimal_usize, push_hex_byte,
    string_from_chars};
use crate::unicode_art::{spec_unicode_mode_name, UnicodeMode};

verus! {

/// Main render mode selection.
#[derive(Debug, Clone, Copy, PartialEq, Eq, Structural)]
pub enum RenderMode {
    ImageToAscii,
    ImageToUnicode,
    TextStylizer,
}

impl Default for RenderMode {
    fn default() -> (r: Self)
        ensures
            r == RenderMode::ImageToAscii,
    {
        RenderMode::ImageToAscii
    }
}

pub open spec fn spec_render_mode_name(m: RenderMode) -> Seq<char> {
    match m {
        RenderMode::ImageToAscii => "ASCII Art"@,
        RenderMode::ImageToUnicode => "Unicode Art"@,
        RenderMode::TextStylizer => "Text Stylizer"@,
    }
}

pub open spec fn spec_all_render_modes() -> Seq<RenderMode> {
    seq![RenderMode::ImageToAscii, RenderMode::ImageToUnicode, RenderMode::TextStylizer]
}

impl RenderMode {
    pub fn name(&self) -> (r: &'static str)
        ensures
            r@ == spec_render_mode_name(*self),
    {
        match self {
            RenderMode::ImageToAscii => "ASCII Art",
            RenderMode::ImageToUnicode => "Unicode Art",
            RenderMode::TextStylizer => "Text Stylizer",
        }
    }

    /// Every render mode, in display order.
    pub fn all() -> (r: Vec<RenderMode>)
        ensures
            r@ == spec_all_render_modes(),
    {
        let mut v: Vec<RenderMode> = Vec::new();
        v.push(RenderMode::ImageToAscii);
        v.push(RenderMode::ImageToUnicode);
        v.push(RenderMode::TextStylizer);
        proof {
            assert(v@ =~= spec_all_render_modes());
        }
        v
    }
}

/// Which widget is currently focused.
#[derive(Debug, Clone, Copy, PartialEq, Eq, Structural)]
pub enum FocusedWidget {
    ModeSelector,
    ControlPanel,
    Preview,
}

impl Default for FocusedWidget {
    fn default() -> (r: Self)
        ensures
            r == FocusedWidget::ModeSelector,
    {
        FocusedWidget::ModeSelector
    }
}

pub open spec fn spec_focus_next(f: FocusedWidget) -> FocusedWidget {
    match f {
        FocusedWidget::ModeSelector => FocusedWidget::ControlPanel,
        FocusedWidget::ControlPanel => FocusedWidget::Preview,
        FocusedWidget::Preview => FocusedWidget::ModeSelector,
    }
}

pub open spec fn spec_focus_prev(f: FocusedWidget) -> FocusedWidget {
    match f {
        FocusedWidget::ModeSelector => FocusedWidget::Preview,
        FocusedWidget::ControlPanel => FocusedWidget::ModeSelector,
        FocusedWidget::Preview => FocusedWidget::ControlPanel,
    }
}

impl FocusedWidget {
    pub fn next(&self) -> (r: Self)
        ensures
            r == spec_focus_next(*self),
    {
        match self {
            FocusedWidget::ModeSelector => FocusedWidget::ControlPanel,
            FocusedWidget::ControlPanel => FocusedWidget::Preview,
            FocusedWidget::Preview => FocusedWidget::ModeSelector,
        }
    }

    pub fn prev(&self) -> (r: Self)
        ensures
            r == spec_focus_prev(*self),
            spec_focus_next(r) == *self,
    {
        match self {
            FocusedWidget::ModeSelector => FocusedWidget::Preview,
            FocusedWidget::ControlPanel => FocusedWidget::ModeSelector,
            FocusedWidget::Preview => FocusedWidget::ControlPanel,
        }
    }
}

/// Output format used when saving previews.
#[derive(Debug, Clone, Copy, PartialEq, Eq, Structural)]
pub enum OutputFormat {
    Ansi,
    Html,
}

impl Default for OutputFormat {
    fn default() -> (r: Self)
        ensures
            r == OutputFormat::Ansi,
    {
        OutputFormat::Ansi
    }
}

impl OutputFormat {
    pub fn name(&self) -> (r: &'static str)
        ensures
            *self is Ansi ==> r@ == "ANSI"@,
            *self is Html ==> r@ == "HTML"@,
    {
        match self {
            OutputFormat::Ansi => "ANSI",
            OutputFormat::Html => "HTML",
        }
    }
}

/// ASCII rendering state.
#[derive(Debug, Clone, PartialEq, Eq)]
pub struct AsciiRenderState {
    pub charset: CharacterSet,
    pub width: usize,
    pub invert: bool,
    pub edge_enhance: bool,
    pub selected_setting: usize,
}

impl Default for AsciiRenderState {
    fn default() -> (r: Self)
        ensures
            r == (AsciiRenderState {
                charset: CharacterSet::Extended,
                width: 80usize,
                invert: false,
                edge_enhance: false,
                selected_setting: 0usize,
            }),
    {
        Self {
            charset: CharacterSet::Extended,
            width: 80,
            invert: false,
            edge_enhance: false,
            selected_setting: 0,
        }
    }
}

pub open spec fn spec_on_off(b: bool) -> Seq<char> {
    if b {
        "On"@
    } else {
        "Off"@
    }
}

fn on_off(b: bool) -> (r: &'static str)
    ensures
        r@ == spec_on_off(b),
{
    if b {
        "On"
    } else {
        "Off"
    }
}

fn decimal_string(n: usize) -> (r: String)
    ensures
        r@ == dec_seq(n as int),
{
    let mut out: Vec<char> = Vec::new();
    push_decimal_usize(&mut out, n);
    proof {
        assert(out@ =~= dec_seq(n as int));
    }
    string_from_chars(&out)
}

impl AsciiRenderState {
    /// Width, charset, invert, edge enhance and output format.
    pub fn settings_count() -> (r: usize)
        ensures
            r == 5,
    {
        5
    }

    pub fn setting_name(&self, index: usize) -> (r: &'static str)
        ensures
            r@ == spec_ascii_setting_name(index as int),
    {
        match index {
            0 => "Width",
            1 => "Charset",
            2 => "Invert",
            3 => "Edge Enhance",
            _ => "Unknown",
        }
    }

    pub fn setting_value(&self, index: usize) -> (r: String)
        ensures
            r@ == spec_ascii_setting_value(self, index as int),
    {
        match index {
            0 => decimal_string(self.width),
            1 => String::from_str(self.charset.name()),
            2 => String::from_str(on_off(self.invert)),
            3 => String::from_str(on_off(self.edge_enhance)),
            _ => String::new(),
        }
    }
}

pub open spec fn spec_ascii_setting_name(index: int) -> Seq<char> {
    if index == 0 {
        "Width"@
    } else if index == 1 {
        "Charset"@
    } else if index == 2 {
        "Invert"@
    } else if index == 3 {
        "Edge Enhance"@
    } else {
        "Unknown"@
    }
}

pub open spec fn spec_ascii_setting_value(st: &AsciiRenderState, index: int) -> Seq<char> {
    if index == 0 {
        dec_seq(st.width as int)
    } else if index == 1 {
        spec_charset_name(&st.charset)
    } else if index == 2 {
        spec_on_off(st.invert)
    } else if index == 3 {
        spec_on_off(st.edge_enhance)
    } else {
        Seq::empty()
    }
}

/// Unicode rendering state.
#[derive(Debug, Clone, Copy, PartialEq, Eq)]
pub struct UnicodeRenderState {
    pub mode: UnicodeMode,
    pub width: usize,
    pub color_mode: ColorSupport,
    pub selected_setting: usize,
}

impl Default for UnicodeRenderState {
    fn default() -> (r: Self)
        ensures
            r == (UnicodeRenderState {
                mode: UnicodeMode::HalfBlocks,
                width: 80usize,
                color_mode: ColorSupport::TrueColor,
                selected_setting: 0usize,
            }),
    {
        Self {
            mode: UnicodeMode::HalfBlocks,
            width: 80,
            color_mode: ColorSupport::TrueColor,
            selected_setting: 0,
        }
    }
}

impl UnicodeRenderState {
    /// Width, mode, color and output format.
    pub fn settings_count() -> (r: usize)
        ensures
            r == 4,
    {
        4
    }

    pub fn setting_name(&self, index: usize) -> (r: &'static str)
        ensures
            r@ == spec_unicode_setting_name(index as int),
    {
        match index {
            0 => "Width",
            1 => "Mode",
            2 => "Color",
            _ => "Unknown",
        }
    }

    pub fn setting_value(&self, index: usize) -> (r: String)
        ensures
            r@ == spec_unicode_setting_value(self, index as int),
    {
        match index {
            0 => decimal_string(self.width),
            1 => String::from_str(self.mode.name()),
            2 => String::from_str(self.color_mode.name()),
            _ => String::new(),
        }
    }
}

pub open spec fn spec_unicode_setting_name(index: int) -> Seq<char> {
    if index == 0 {
        "Width"@
    } else if index == 1 {
        "Mode"@
    } else if index == 2 {
        "Color"@
    } else {
        "Unknown"@
    }
}

pub open spec fn spec_unicode_setting_value(st: &UnicodeRenderState, index: int) -> Seq<char> {
    if index == 0 {
        dec_seq(st.width as int)
    } else if index == 1 {
        spec_unicode_mode_name(st.mode)
    } else if index == 2 {
        spec_color_support_name(st.color_mode)
    } else {
        Seq::empty()
    }
}

/// Text stylizer state.
#[derive(Debug, PartialEq, Eq)]
pub struct TextStylizeState {
    pub style: UnicodeStyle,
    pub gradient: GradientMode,
    pub start_color: (u8, u8, u8),
    pub end_color: (u8, u8, u8),
    pub input_text: String,
    pub cursor_position: usize,
    pub selected_setting: usize,
    pub editing_text: bool,
}

impl Default for TextStylizeState {
    fn default() -> (r: Self)
        ensures
            r.style == UnicodeStyle::Bold,
            r.gradient == GradientMode::NoGradient,
            r.start_color == (255u8, 0u8, 0u8),
            r.end_color == (0u8, 0u8, 255u8),
            r.input_text@.len() == 0,
            r.cursor_position == 0,
            r.selected_setting == 0,
            r.editing_text == false,
    {
        Self {
            style: UnicodeStyle::Bold,
            gradient: GradientMode::NoGradient,
            start_color: (255, 0, 0),
            end_color: (0, 0, 255),
            input_text: String::new(),
            cursor_position: 0,
            selected_setting: 0,
            editing_text: false,
        }
    }
}

/// The `#RRGGBB` display form of a color triple.
pub open spec fn spec_hex_color(c: (u8, u8, u8)) -> Seq<char> {
    seq!['#'] + hex_byte_seq(c.0 as int) + hex_byte_seq(c.1 as int) + hex_byte_seq(c.2 as int)
}

fn hex_color(c: (u8, u8, u8)) -> (r: String)
    ensures
        r@ == spec_hex_color(c),
{
    let mut out: Vec<char> = Vec::new();
    out.push('#');
    push_hex_byte(&mut out, c.0);
    push_hex_byte(&mut out, c.1);
    push_hex_byte(&mut out, c.2);
    proof {
        assert(out@ =~= spec_hex_color(c));
    }
    string_from_chars(&out)
}

/// The input-text preview: a placeholder when empty, the first twenty
/// characters followed by an ellipsis when long, the text itself otherwise.
pub open spec fn spec_input_preview(text: Seq<char>) -> Seq<char> {
    if text.len() == 0 {
        "[Type here...]"@
    } else if text.len() > 20 {
        text.take(20) + "..."@
    } else {
        text
    }
}

impl TextStylizeState {
    /// Style, gradient, start color, end color, input and output format.
    pub fn settings_count() -> (r: usize)
        ensures
            r == 6,
    {
        6
    }

    pub fn setting_name(&self, index: usize) -> (r: &'static str)
        ensures
            r@ == spec_text_setting_name(index as int),
    {
        match index {
            0 => "Style",
            1 => "Gradient",
            2 => "Start Color",
            3 => "End Color",
            4 => "Input Text",
            _ => "Unknown",
        }
    }

    pub fn setting_value(&self, index: usize) -> (r: String)
        ensures
            r@ == spec_text_setting_value(self, index as int),
    {
        match index {
            0 => String::from_str(self.style.name()),
            1 => String::from_str(self.gradient.name()),
            2 => hex_color(self.start_color),
            3 => hex_color(self.end_color),
            4 => {
                let cs = chars_of(self.input_text.as_str());
                if cs.len() == 0 {
                    String::from_str("[Type here...]")
                } else if cs.len() > 20 {
                    let mut head: Vec<char> = Vec::new();
                    let mut i: usize = 0;
                    while i < 20
                        invariant
                            i <= 20,
                            cs@.len() > 20,
                            cs@ == self.input_text@,
                            head@ == cs@.take(i as int),
                        decreases 20 - i,
                    {
                        head.push(cs[i]);
                        proof {
                            assert(head@ =~= cs@.take(i as int + 1));
                        }
                        i = i + 1;
                    }
                    let mut out = string_from_chars(&head);
                    out.append("...");
                    out
                } else {
                    string_from_chars(&cs)
                }
            },
            _ => String::new(),
        }
    }
}

pub open spec fn spec_text_setting_name(index: int) -> Seq<char> {
    if index == 0 {
        "Style"@
    } else if index == 1 {
        "Gradient"@
    } else if index == 2 {
        "Start Color"@
    } else if index == 3 {
        "End Color"@
    } else if index == 4 {
        "Input Text"@
    } else {
        "Unknown"@
    }
}

pub open spec fn spec_text_setting_value(st: &TextStylizeState, index: int) -> Seq<char> {
    if index == 0 {
        spec_style_name(st.style)
    } else if index == 1 {
        spec_gradient_name(st.gradient)
    } else if index == 2 {
        spec_hex_color(st.start_color)
    } else if index == 3 {
        spec_hex_color(st.end_color)
    } else if index == 4 {
        spec_input_preview(st.input_text@)
    } else {
        Seq::empty()
    }
}

/// The zoomed render width: zooming in shrinks the width by about a fifth
/// (never below ten columns), zooming out grows it by about a quarter
/// (never above four thousand).
pub open spec fn spec_zoom_step(width: int, zoom_in: bool) -> int {
    if zoom_in {
        let w = (width * 4) / 5;
        if w >= 10 {
            w
        } else {
            10int
        }
    } else {
        let w = (width * 5) / 4;
        if w <= 4000 {
            w
        } else {
            4000int
        }
    }
}

/// Compute the next render width for a zoom step.
pub fn zoom_step(width: usize, zoom_in: bool) -> (r: usize)
    requires
        width <= usize::MAX / 5,
    ensures
        r as int == spec_zoom_step(width as int, zoom_in),
{
    if zoom_in {
        // Reduce width by about a fifth, but keep at least ten columns
        let w = (width * 4) / 5;
        if w >= 10 {
            w
        } else {
            10
        }
    } else {
        // Grow width by about a quarter, but stay within a sane maximum
        let w = (width * 5) / 4;
        if w <= 4000 {
            w
        } else {
            4000
        }
    }
}

} // verus!
