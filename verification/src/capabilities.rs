//! Terminal capability levels.
//!
//! The library only consumes these levels when encoding output; probing a
//! real terminal for them is left to the surrounding application.

use vstd::prelude::*;

verus! {

/// Level of color support in the terminal.
#[derive(Debug, Clone, Copy, PartialEq, Eq, Structural)]
pub enum ColorSupport {
    /// No color support
    NoColor,
    /// 16 basic colors
    Color16,
    /// 256 color palette
    Color256,
    /// Full 24-bit RGB (TrueColor)
    TrueColor,
}

impl Default for ColorSupport {
    fn default() -> (r: Self)
        ensures
            r == ColorSupport::TrueColor,
    {
        ColorSupport::TrueColor
    }
}

impl ColorSupport {
    pub fn name(&self) -> (r: &'static str)
        ensures
            r@ == spec_color_support_name(*self),
    {
        match self {
            ColorSupport::NoColor => "None",
            ColorSupport::Color16 => "16 Colors",
            ColorSupport::Color256 => "256 Colors",
            ColorSupport::TrueColor => "True Color",
        }
    }

    pub fn next(&self) -> (r: Self)
        ensures
            r == spec_color_support_next(*self),
    {
        match self {
            ColorSupport::NoColor => ColorSupport::Color16,
            ColorSupport::Color16 => ColorSupport::Color256,
            ColorSupport::Color256 => ColorSupport::TrueColor,
            ColorSupport::TrueColor => ColorSupport::NoColor,
        }
    }

    pub fn prev(&self) -> (r: Self)
        ensures
            r == spec_color_support_prev(*self),
            spec_color_support_next(r) == *self,
    {
        match self {
            ColorSupport::NoColor => ColorSupport::TrueColor,
            ColorSupport::Color16 => ColorSupport::NoColor,
            ColorSupport::Color256 => ColorSupport::Color16,
            ColorSupport::TrueColor => ColorSupport::Color256,
        }
    }
}

pub open spec fn spec_color_support_name(c: ColorSupport) -> Seq<char> {
    match c {
        ColorSupport::NoColor => "None"@,
        ColorSupport::Color16 => "16 Colors"@,
        ColorSupport::Color256 => "256 Colors"@,
        ColorSupport::TrueColor => "True Color"@,
    }
}

pub open spec fn spec_color_support_next(c: ColorSupport) -> ColorSupport {
    match c {
        ColorSupport::NoColor => ColorSupport::Color16,
        ColorSupport::Color16 => ColorSupport::Color256,
        ColorSupport::Color256 => ColorSupport::TrueColor,
        ColorSupport::TrueColor => ColorSupport::NoColor,
    }
}

pub open spec fn spec_color_support_prev(c: ColorSupport) -> ColorSupport {
    match c {
        ColorSupport::NoColor => ColorSupport::TrueColor,
        ColorSupport::Color16 => ColorSupport::NoColor,
        ColorSupport::Color256 => ColorSupport::Color16,
        ColorSupport::TrueColor => ColorSupport::Color256,
    }
}

/// Level of Unicode support.
#[derive(Debug, Clone, Copy, PartialEq, Eq, Structural)]
pub enum UnicodeSupport {
    /// ASCII only
    Ascii,
    /// Basic Unicode (Latin, symbols)
    Basic,
    /// Full Unicode (including CJK, emoji, mathematical symbols)
    Full,
}

/// Terminal capabilities as probed by the surrounding application.
#[derive(Debug, Clone, Copy, PartialEq, Eq)]
pub struct TerminalCapabilities {
    pub color_support: ColorSupport,
    pub unicode_support: UnicodeSupport,
    pub mouse_support: bool,
    pub size: (u16, u16),
}

impl Default for TerminalCapabilities {
    fn default() -> (r: Self)
        ensures
            r == (TerminalCapabilities {
                color_support: ColorSupport::TrueColor,
                unicode_support: UnicodeSupport::Full,
                mouse_support: true,
                size: (80u16, 24u16),
            }),
    {
        TerminalCapabilities {
            color_support: ColorSupport::TrueColor,
            unicode_support: UnicodeSupport::Full,
            mouse_support: true,
            size: (80, 24),
        }
    }
}

} // verus!
