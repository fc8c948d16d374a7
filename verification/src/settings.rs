//! User preference structures.
//!
//! The library holds the plain values; reading and writing them to a
//! configuration file is the surrounding application's job.

use vstd::prelude::*;

use crate::ascii_art::CharacterSet;
use crate::unicode_art::UnicodeMode;

verus! {

/// ASCII rendering preferences.
#[derive(Debug, Clone, PartialEq, Eq)]
pub struct AsciiPreferences {
    pub default_charset: CharacterSet,
    pub default_width: usize,
    pub edge_enhance: bool,
}

impl Default for AsciiPreferences {
    fn default() -> (r: Self)
        ensures
            r == (AsciiPreferences {
                default_charset: CharacterSet::Extended,
                default_width: 80usize,
                edge_enhance: false,
            }),
    {
        Self { default_charset: CharacterSet::Extended, default_width: 80, edge_enhance: false }
    }
}

/// Unicode rendering preferences.
#[derive(Debug, Clone, Copy, PartialEq, Eq, Structural)]
pub struct UnicodePreferences {
    pub default_mode: UnicodeMode,
    pub default_width: usize,
}

impl Default for UnicodePreferences {
    fn default() -> (r: Self)
        ensures
            r == (UnicodePreferences { default_mode: UnicodeMode::HalfBlocks, default_width: 80usize }),
    {
        Self { default_mode: UnicodeMode::HalfBlocks, default_width: 80 }
    }
}

/// Text stylizer preferences.
#[derive(Debug, Clone, PartialEq, Eq)]
pub struct TextPreferences {
    pub default_style: String,
    pub default_gradient: String,
}

impl Default for TextPreferences {
    fn default() -> (r: Self)
        ensures
            r.default_style@ == "Bold"@,
            r.default_gradient@ == "None"@,
    {
        Self {
            default_style: String::from_str("Bold"),
            default_gradient: String::from_str("None"),
        }
    }
}

/// UI preferences.
#[derive(Debug, Clone, Copy, PartialEq, Eq, Structural)]
pub struct UiPreferences {
    pub show_line_numbers: bool,
    pub word_wrap: bool,
}

impl Default for UiPreferences {
    fn default() -> (r: Self)
        ensures
            r == (UiPreferences { show_line_numbers: false, word_wrap: false }),
    {
        Self { show_line_numbers: false, word_wrap: false }
    }
}

/// Main configuration structure.
#[derive(Debug, Clone, PartialEq, Eq)]
pub struct Config {
    pub ascii: AsciiPreferences,
    pub unicode: UnicodePreferences,
    pub text: TextPreferences,
    pub ui: UiPreferences,
}

impl Default for Config {
    fn default() -> (r: Self)
        ensures
            r.ascii == (AsciiPreferences {
                default_charset: CharacterSet::Extended,
                default_width: 80usize,
                edge_enhance: false,
            }),
            r.unicode == (UnicodePreferences {
                default_mode: UnicodeMode::HalfBlocks,
                default_width: 80usize,
            }),
            r.text.default_style@ == "Bold"@,
            r.text.default_gradient@ == "None"@,
            r.ui == (UiPreferences { show_line_numbers: false, word_wrap: false }),
    {
        Self {
            ascii: AsciiPreferences::default(),
            unicode: UnicodePreferences::default(),
            text: TextPreferences::default(),
            ui: UiPreferences::default(),
        }
    }
}

} // verus!
