//! Text stylizer engine.
//!
//! Converts plain text to Unicode-styled text (Mathematical Alphanumeric
//! Symbols and related blocks) with optional gradient coloring.  The style
//! transform maps ASCII letters and digits through per-style base code
//! points with per-character exception overrides for code points that
//! predate the mathematical alphanumeric block; gradient coloring operates
//! over grapheme clusters, wrapping each non-whitespace cluster in a
//! foreground color escape and a reset.

use vstd::prelude::*;

use crate::capabilities::ColorSupport;
use crate::color::{
    fg_true_seq, format_fg_color, hue_to_rgb, interpolate_color, reset_seq, spec_hue_rgb,
    spec_interpolate, Rgb,
};
use crate::text::{chars_of, string_from_chars};
use crate::widths::{char_is_whitespace, graphemes_of, is_whitespace_char, split_graphemes};

verus! {

/// Unicode text styles using Mathematical Alphanumeric Symbols.
#[derive(Debug, Clone, Copy, PartialEq, Eq, Structural)]
pub enum UnicodeStyle {
    /// 𝐀𝐁𝐂 (U+1D400)
    Bold,
    /// 𝐴𝐵𝐶 (U+1D434)
    Italic,
    /// 𝑨𝑩𝑪 (U+1D468)
    BoldItalic,
    /// 𝒜ℬ𝒞 (U+1D49C)
    Script,
    /// 𝓐𝓑𝓒 (U+1D4D0)
    BoldScript,
    /// 𝔄𝔅ℭ (U+1D504)
    Fraktur,
    /// 𝔸𝔹ℂ (U+1D538)
    DoubleStruck,
    /// 𝖠𝖡𝖢 (U+1D5A0)
    SansSerif,
    /// 𝗔𝗕𝗖 (U+1D5D4)
    SansSerifBold,
    /// 𝙰𝙱𝙲 (U+1D670)
    Monospace,
    /// ＡＢＣ (U+FF21)
    Fullwidth,
    /// ⒶⒷⒸ (U+24B6)
    Circled,
    /// 🅐🅑🅒 (U+1F150)
    NegativeCircled,
    /// 🄰🄱🄲 (U+1F130)
    Squared,
}

impl Default for UnicodeStyle {
    fn default() -> (r: Self)
        ensures
            r == UnicodeStyle::Bold,
    {
        UnicodeStyle::Bold
    }
}

/// The cycling order of the styles.
pub open spec fn spec_all_styles() -> Seq<UnicodeStyle> {
    seq![
        UnicodeStyle::Bold,
        UnicodeStyle::Italic,
        UnicodeStyle::BoldItalic,
        UnicodeStyle::Script,
        UnicodeStyle::BoldScript,
        UnicodeStyle::Fraktur,
        UnicodeStyle::DoubleStruck,
        UnicodeStyle::SansSerif,
        UnicodeStyle::SansSerifBold,
        UnicodeStyle::Monospace,
        UnicodeStyle::Fullwidth,
        UnicodeStyle::Circled,
        UnicodeStyle::NegativeCircled,
        UnicodeStyle::Squared,
    ]
}

pub open spec fn spec_style_name(s: UnicodeStyle) -> Seq<char> {
    match s {
        UnicodeStyle::Bold => "Bold"@,
        UnicodeStyle::Italic => "Italic"@,
        UnicodeStyle::BoldItalic => "Bold Italic"@,
        UnicodeStyle::Script => "Script"@,
        UnicodeStyle::BoldScript => "Bold Script"@,
        UnicodeStyle::Fraktur => "Fraktur"@,
        UnicodeStyle::DoubleStruck => "Double-Struck"@,
        UnicodeStyle::SansSerif => "Sans-Serif"@,
        UnicodeStyle::SansSerifBold => "Sans-Serif Bold"@,
        UnicodeStyle::Monospace => "Monospace"@,
        UnicodeStyle::Fullwidth => "Fullwidth"@,
        UnicodeStyle::Circled => "Circled"@,
        UnicodeStyle::NegativeCircled => "Negative Circled"@,
        UnicodeStyle::Squared => "Squared"@,
    }
}

pub open spec fn spec_style_next(s: UnicodeStyle) -> UnicodeStyle {
    match s {
        UnicodeStyle::Bold => UnicodeStyle::Italic,
        UnicodeStyle::Italic => UnicodeStyle::BoldItalic,
        UnicodeStyle::BoldItalic => UnicodeStyle::Script,
        UnicodeStyle::Script => UnicodeStyle::BoldScript,
        UnicodeStyle::BoldScript => UnicodeStyle::Fraktur,
        UnicodeStyle::Fraktur => UnicodeStyle::DoubleStruck,
        UnicodeStyle::DoubleStruck => UnicodeStyle::SansSerif,
        UnicodeStyle::SansSerif => UnicodeStyle::SansSerifBold,
        UnicodeStyle::SansSerifBold => UnicodeStyle::Monospace,
        UnicodeStyle::Monospace => UnicodeStyle::Fullwidth,
        UnicodeStyle::Fullwidth => UnicodeStyle::Circled,
        UnicodeStyle::Circled => UnicodeStyle::NegativeCircled,
        UnicodeStyle::NegativeCircled => UnicodeStyle::Squared,
        UnicodeStyle::Squared => UnicodeStyle::Bold,
    }
}

pub open spec fn spec_style_prev(s: UnicodeStyle) -> UnicodeStyle {
    match s {
        UnicodeStyle::Bold => UnicodeStyle::Squared,
        UnicodeStyle::Italic => UnicodeStyle::Bold,
        UnicodeStyle::BoldItalic => UnicodeStyle::Italic,
        UnicodeStyle::Script => UnicodeStyle::BoldItalic,
        UnicodeStyle::BoldScript => UnicodeStyle::Script,
        UnicodeStyle::Fraktur => UnicodeStyle::BoldScript,
        UnicodeStyle::DoubleStruck => UnicodeStyle::Fraktur,
        UnicodeStyle::SansSerif => UnicodeStyle::DoubleStruck,
        UnicodeStyle::SansSerifBold => UnicodeStyle::SansSerif,
        UnicodeStyle::Monospace => UnicodeStyle::SansSerifBold,
        UnicodeStyle::Fullwidth => UnicodeStyle::Monospace,
        UnicodeStyle::Circled => UnicodeStyle::Fullwidth,
        UnicodeStyle::NegativeCircled => UnicodeStyle::Circled,
        UnicodeStyle::Squared => UnicodeStyle::NegativeCircled,
    }
}

impl UnicodeStyle {
    pub fn name(&self) -> (r: &'static str)
        ensures
            r@ == spec_style_name(*self),
    {
        match self {
            UnicodeStyle::Bold => "Bold",
            UnicodeStyle::Italic => "Italic",
            UnicodeStyle::BoldItalic => "Bold Italic",
            UnicodeStyle::Script => "Script",
            UnicodeStyle::BoldScript => "Bold Script",
            UnicodeStyle::Fraktur => "Fraktur",
            UnicodeStyle::DoubleStruck => "Double-Struck",
            UnicodeStyle::SansSerif => "Sans-Serif",
            UnicodeStyle::SansSerifBold => "Sans-Serif Bold",
            UnicodeStyle::Monospace => "Monospace",
            UnicodeStyle::Fullwidth => "Fullwidth",
            UnicodeStyle::Circled => "Circled",
            UnicodeStyle::NegativeCircled => "Negative Circled",
            UnicodeStyle::Squared => "Squared",
        }
    }

    /// Every style, in cycling order.
    pub fn all() -> (r: Vec<UnicodeStyle>)
        ensures
            r@ == spec_all_styles(),
    {
        let mut v: Vec<UnicodeStyle> = Vec::new();
        v.push(UnicodeStyle::Bold);
        v.push(UnicodeStyle::Italic);
        v.push(UnicodeStyle::BoldItalic);
        v.push(UnicodeStyle::Script);
        v.push(UnicodeStyle::BoldScript);
        v.push(UnicodeStyle::Fraktur);
        v.push(UnicodeStyle::DoubleStruck);
        v.push(UnicodeStyle::SansSerif);
        v.push(UnicodeStyle::SansSerifBold);
        v.push(UnicodeStyle::Monospace);
        v.push(UnicodeStyle::Fullwidth);
        v.push(UnicodeStyle::Circled);
        v.push(UnicodeStyle::NegativeCircled);
        v.push(UnicodeStyle::Squared);
        proof {
            assert(v@ =~= spec_all_styles());
        }
        v
    }

    pub fn next(&self) -> (r: Self)
        ensures
            r == spec_style_next(*self),
    {
        match self {
            UnicodeStyle::Bold => UnicodeStyle::Italic,
            UnicodeStyle::Italic => UnicodeStyle::BoldItalic,
            UnicodeStyle::BoldItalic => UnicodeStyle::Script,
            UnicodeStyle::Script => UnicodeStyle::BoldScript,
            UnicodeStyle::BoldScript => UnicodeStyle::Fraktur,
            UnicodeStyle::Fraktur => UnicodeStyle::DoubleStruck,
            UnicodeStyle::DoubleStruck => UnicodeStyle::SansSerif,
            UnicodeStyle::SansSerif => UnicodeStyle::SansSerifBold,
            UnicodeStyle::SansSerifBold => UnicodeStyle::Monospace,
            UnicodeStyle::Monospace => UnicodeStyle::Fullwidth,
            UnicodeStyle::Fullwidth => UnicodeStyle::Circled,
            UnicodeStyle::Circled => UnicodeStyle::NegativeCircled,
            UnicodeStyle::NegativeCircled => UnicodeStyle::Squared,
            UnicodeStyle::Squared => UnicodeStyle::Bold,
        }
    }

    pub fn prev(&self) -> (r: Self)
        ensures
            r == spec_style_prev(*self),
            spec_style_next(r) == *self,
    {
        match self {
            UnicodeStyle::Bold => UnicodeStyle::Squared,
            UnicodeStyle::Italic => UnicodeStyle::Bold,
            UnicodeStyle::BoldItalic => UnicodeStyle::Italic,
            UnicodeStyle::Script => UnicodeStyle::BoldItalic,
            UnicodeStyle::BoldScript => UnicodeStyle::Script,
            UnicodeStyle::Fraktur => UnicodeStyle::BoldScript,
            UnicodeStyle::DoubleStruck => UnicodeStyle::Fraktur,
            UnicodeStyle::SansSerif => UnicodeStyle::DoubleStruck,
            UnicodeStyle::SansSerifBold => UnicodeStyle::SansSerif,
            UnicodeStyle::Monospace => UnicodeStyle::SansSerifBold,
            UnicodeStyle::Fullwidth => UnicodeStyle::Monospace,
            UnicodeStyle::Circled => UnicodeStyle::Fullwidth,
            UnicodeStyle::NegativeCircled => UnicodeStyle::Circled,
            UnicodeStyle::Squared => UnicodeStyle::NegativeCircled,
        }
    }

    /// The base code point for styled uppercase letters.
    fn uppercase_base(&self) -> (r: u32)
        ensures
            r == spec_uppercase_base(*self),
    {
        match self {
            UnicodeStyle::Bold => 0x1D400,
            UnicodeStyle::Italic => 0x1D434,
            UnicodeStyle::BoldItalic => 0x1D468,
            UnicodeStyle::Script => 0x1D49C,
            UnicodeStyle::BoldScript => 0x1D4D0,
            UnicodeStyle::Fraktur => 0x1D504,
            UnicodeStyle::DoubleStruck => 0x1D538,
            UnicodeStyle::SansSerif => 0x1D5A0,
            UnicodeStyle::SansSerifBold => 0x1D5D4,
            UnicodeStyle::Monospace => 0x1D670,
            UnicodeStyle::Fullwidth => 0xFF21,
            UnicodeStyle::Circled => 0x24B6,
            UnicodeStyle::NegativeCircled => 0x1F150,
            UnicodeStyle::Squared => 0x1F130,
        }
    }

    /// The base code point for styled lowercase letters, where the style
    /// has a lowercase table.
    fn lowercase_base(&self) -> (r: Option<u32>)
        ensures
            r == spec_lowercase_base(*self),
    {
        match self {
            UnicodeStyle::Bold => Some(0x1D41A),
            UnicodeStyle::Italic => Some(0x1D44E),
            UnicodeStyle::BoldItalic => Some(0x1D482),
            UnicodeStyle::Script => Some(0x1D4B6),
            UnicodeStyle::BoldScript => Some(0x1D4EA),
            UnicodeStyle::Fraktur => Some(0x1D51E),
            UnicodeStyle::DoubleStruck => Some(0x1D552),
            UnicodeStyle::SansSerif => Some(0x1D5BA),
            UnicodeStyle::SansSerifBold => Some(0x1D5EE),
            UnicodeStyle::Monospace => Some(0x1D68A),
            UnicodeStyle::Fullwidth => Some(0xFF41),
            UnicodeStyle::Circled => Some(0x24D0),
            UnicodeStyle::NegativeCircled => None,  // No lowercase
            UnicodeStyle::Squared => None,  // No lowercase
        }
    }

    /// The base code point for styled digits, where the style has a digit
    /// table.
    fn digit_base(&self) -> (r: Option<u32>)
        ensures
            r == spec_digit_base(*self),
    {
        match self {
            UnicodeStyle::Bold => Some(0x1D7CE),
            UnicodeStyle::DoubleStruck => Some(0x1D7D8),
            UnicodeStyle::SansSerif => Some(0x1D7E2),
            UnicodeStyle::SansSerifBold => Some(0x1D7EC),
            UnicodeStyle::Monospace => Some(0x1D7F6),
            UnicodeStyle::Fullwidth => Some(0xFF10),
            UnicodeStyle::Circled => Some(0x2460),  // Circled digits (1-9 only)
            _ => None,
        }
    }
}

pub open spec fn spec_uppercase_base(s: UnicodeStyle) -> int {
    match s {
        UnicodeStyle::Bold => 0x1D400,
        UnicodeStyle::Italic => 0x1D434,
        UnicodeStyle::BoldItalic => 0x1D468,
        UnicodeStyle::Script => 0x1D49C,
        UnicodeStyle::BoldScript => 0x1D4D0,
        UnicodeStyle::Fraktur => 0x1D504,
        UnicodeStyle::DoubleStruck => 0x1D538,
        UnicodeStyle::SansSerif => 0x1D5A0,
        UnicodeStyle::SansSerifBold => 0x1D5D4,
        UnicodeStyle::Monospace => 0x1D670,
        UnicodeStyle::Fullwidth => 0xFF21,
        UnicodeStyle::Circled => 0x24B6,
        UnicodeStyle::NegativeCircled => 0x1F150,
        UnicodeStyle::Squared => 0x1F130,
    }
}

pub open spec fn spec_lowercase_base(s: UnicodeStyle) -> Option<u32> {
    match s {
        UnicodeStyle::Bold => Some(0x1D41Au32),
        UnicodeStyle::Italic => Some(0x1D44Eu32),
        UnicodeStyle::BoldItalic => Some(0x1D482u32),
        UnicodeStyle::Script => Some(0x1D4B6u32),
        UnicodeStyle::BoldScript => Some(0x1D4EAu32),
        UnicodeStyle::Fraktur => Some(0x1D51Eu32),
        UnicodeStyle::DoubleStruck => Some(0x1D552u32),
        UnicodeStyle::SansSerif => Some(0x1D5BAu32),
        UnicodeStyle::SansSerifBold => Some(0x1D5EEu32),
        UnicodeStyle::Monospace => Some(0x1D68Au32),
        UnicodeStyle::Fullwidth => Some(0xFF41u32),
        UnicodeStyle::Circled => Some(0x24D0u32),
        UnicodeStyle::NegativeCircled => None,
        UnicodeStyle::Squared => None,
    }
}

pub open spec fn spec_digit_base(s: UnicodeStyle) -> Option<u32> {
    match s {
        UnicodeStyle::Bold => Some(0x1D7CEu32),
        UnicodeStyle::DoubleStruck => Some(0x1D7D8u32),
        UnicodeStyle::SansSerif => Some(0x1D7E2u32),
        UnicodeStyle::SansSerifBold => Some(0x1D7ECu32),
        UnicodeStyle::Monospace => Some(0x1D7F6u32),
        UnicodeStyle::Fullwidth => Some(0xFF10u32),
        UnicodeStyle::Circled => Some(0x2460u32),
        _ => None,
    }
}

/// The styled code point of an ASCII uppercase letter: the style's base
/// plus the letter's ordinal, except for the code points that predate the
/// mathematical alphanumeric block (Script, Fraktur and Double-Struck
/// letters drawn from the Letterlike Symbols block).
pub open spec fn spec_upper_code(c: char, s: UnicodeStyle) -> int {
    let off = c as u32 - 65;
    match s {
        UnicodeStyle::Script => if c == 'B' {
            0x212C
        } else if c == 'E' {
            0x2130
        } else if c == 'F' {
            0x2131
        } else if c == 'H' {
            0x210B
        } else if c == 'I' {
            0x2110
        } else if c == 'L' {
            0x2112
        } else if c == 'M' {
            0x2133
        } else if c == 'R' {
            0x211B
        } else {
            0x1D49C + off
        },
        UnicodeStyle::Fraktur => if c == 'C' {
            0x212D
        } else if c == 'H' {
            0x210C
        } else if c == 'I' {
            0x2111
        } else if c == 'R' {
            0x211C
        } else if c == 'Z' {
            0x2128
        } else {
            0x1D504 + off
        },
        UnicodeStyle::DoubleStruck => if c == 'C' {
            0x2102
        } else if c == 'H' {
            0x210D
        } else if c == 'N' {
            0x2115
        } else if c == 'P' {
            0x2119
        } else if c == 'Q' {
            0x211A
        } else if c == 'R' {
            0x211D
        } else if c == 'Z' {
            0x2124
        } else {
            0x1D538 + off
        },
        _ => spec_uppercase_base(s) + off,
    }
}

/// The styled code point of an ASCII lowercase letter, where the style has
/// a lowercase table, with the Letterlike Symbols exceptions (Script e, g
/// and o, and the Planck-constant italic h).
pub open spec fn spec_lower_code(c: char, s: UnicodeStyle) -> Option<int> {
    let off = c as u32 - 97;
    match spec_lowercase_base(s) {
        None => None,
        Some(base) => Some(
            match s {
                UnicodeStyle::Script => if c == 'e' {
                    0x212Fint
                } else if c == 'g' {
                    0x210Aint
                } else if c == 'o' {
                    0x2134int
                } else {
                    base + off
                },
                UnicodeStyle::Italic => if c == 'h' {
                    0x210Eint
                } else {
                    base + off
                },
                _ => base + off,
            },
        ),
    }
}

/// The styled code point of an ASCII digit, where the style has a digit
/// table; Circled digits are special-cased (zero has its own code point
/// and one through nine start one below the base).
pub open spec fn spec_digit_code(c: char, s: UnicodeStyle) -> Option<int> {
    let off = c as u32 - 48;
    match spec_digit_base(s) {
        None => None,
        Some(base) => Some(
            if s is Circled {
                if c == '0' {
                    0x24EAint
                } else {
                    base + off - 1
                }
            } else {
                base + off
            },
        ),
    }
}

pub open spec fn is_ascii_upper_char(c: char) -> bool {
    65 <= c as u32 <= 90
}

pub open spec fn is_ascii_lower_char(c: char) -> bool {
    97 <= c as u32 <= 122
}

pub open spec fn is_ascii_digit_ch(c: char) -> bool {
    48 <= c as u32 <= 57
}

/// The styled variant of a single character: ASCII uppercase, lowercase and
/// digits map through the style's tables (lowercase falls back to the
/// uppercase transform where the style has no lowercase table); every other
/// character passes through unchanged.
pub open spec fn spec_transform_char(c: char, s: UnicodeStyle) -> char {
    if is_ascii_upper_char(c) {
        (spec_upper_code(c, s) as u32) as char
    } else if is_ascii_lower_char(c) {
        match spec_lower_code(c, s) {
            Some(code) => (code as u32) as char,
            None => (spec_upper_code(((c as u32 - 32) as u32) as char, s) as u32) as char,
        }
    } else if is_ascii_digit_ch(c) {
        match spec_digit_code(c, s) {
            Some(code) => (code as u32) as char,
            None => c,
        }
    } else {
        c
    }
}

/// Every styled code point is a Unicode scalar value.
proof fn lemma_upper_code_valid(c: char, s: UnicodeStyle)
    requires
        is_ascii_upper_char(c),
    ensures
        0x2102 <= spec_upper_code(c, s) <= 0x1F169,
        !(0xD800 <= spec_upper_code(c, s) < 0xE000),
{
}

fn styled_upper(c: char, style: UnicodeStyle) -> (r: char)
    requires
        is_ascii_upper_char(c),
    ensures
        r as u32 == spec_upper_code(c, style),
{
    let u = c as u32;
    let off = u - 65;
    let code: u32 = match style {
        UnicodeStyle::Script => {
            if u == 66 {
                0x212C  // B
            } else if u == 69 {
                0x2130  // E
            } else if u == 70 {
                0x2131  // F
            } else if u == 72 {
                0x210B  // H
            } else if u == 73 {
                0x2110  // I
            } else if u == 76 {
                0x2112  // L
            } else if u == 77 {
                0x2133  // M
            } else if u == 82 {
                0x211B  // R
            } else {
                0x1D49C + off
            }
        },
        UnicodeStyle::Fraktur => {
            if u == 67 {
                0x212D  // C
            } else if u == 72 {
                0x210C  // H
            } else if u == 73 {
                0x2111  // I
            } else if u == 82 {
                0x211C  // R
            } else if u == 90 {
                0x2128  // Z
            } else {
                0x1D504 + off
            }
        },
        UnicodeStyle::DoubleStruck => {
            if u == 67 {
                0x2102  // C
            } else if u == 72 {
                0x210D  // H
            } else if u == 78 {
                0x2115  // N
            } else if u == 80 {
                0x2119  // P
            } else if u == 81 {
                0x211A  // Q
            } else if u == 82 {
                0x211D  // R
            } else if u == 90 {
                0x2124  // Z
            } else {
                0x1D538 + off
            }
        },
        _ => style.uppercase_base() + off,
    };
    proof {
        lemma_upper_code_valid(c, style);
        assert(c == ((c as u32) as char)) by {
            vstd::utf8::char_u32_cast(c, c as u32);
        }
    }
    match char::from_u32(code) {
        Some(styled) => {
            proof {
                vstd::utf8::char_u32_cast(styled, code);
            }
            styled
        },
        None => c,
    }
}

/// Transform a single character to its styled version.
pub fn transform_char(c: char, style: UnicodeStyle) -> (r: char)
    ensures
        r == spec_transform_char(c, style),
{
    let u = c as u32;
    proof {
        vstd::utf8::char_u32_cast(c, c as u32);
    }
    if 65 <= u && u <= 90 {
        let styled = styled_upper(c, style);
        proof {
            vstd::utf8::char_u32_cast(styled, styled as u32);
        }
        styled
    } else if 97 <= u && u <= 122 {
        match style.lowercase_base() {
            Some(base) => {
                let off = u - 97;
                let code: u32 = match style {
                    UnicodeStyle::Script => {
                        if u == 101 {
                            0x212F  // e
                        } else if u == 103 {
                            0x210A  // g
                        } else if u == 111 {
                            0x2134  // o
                        } else {
                            base + off
                        }
                    },
                    UnicodeStyle::Italic => {
                        if u == 104 {
                            0x210E  // h (Planck constant)
                        } else {
                            base + off
                        }
                    },
                    _ => base + off,
                };
                match char::from_u32(code) {
                    Some(styled) => {
                        proof {
                            vstd::utf8::char_u32_cast(styled, code);
                        }
                        styled
                    },
                    None => c,
                }
            },
            None => {
                // For styles without lowercase, use the uppercase transform
                let upper: char = match char::from_u32(u - 32) {
                    Some(up) => up,
                    None => c,
                };
                proof {
                    vstd::utf8::char_u32_cast(upper, (u - 32) as u32);
                }
                let styled = styled_upper(upper, style);
                styled
            },
        }
    } else if 48 <= u && u <= 57 {
        match style.digit_base() {
            Some(base) => {
                let off = u - 48;
                let code: u32 = match style {
                    UnicodeStyle::Circled => {
                        if u == 48 {
                            0x24EA  // circled zero
                        } else {
                            base + off - 1  // circled one through nine start below the base
                        }
                    },
                    _ => base + off,
                };
                match char::from_u32(code) {
                    Some(styled) => {
                        proof {
                            vstd::utf8::char_u32_cast(styled, code);
                        }
                        styled
                    },
                    None => c,
                }
            },
            None => c,
        }
    } else {
        c
    }
}

/// The styled variant of a whole text, character by character.
pub open spec fn spec_apply_style(text: Seq<char>, s: UnicodeStyle) -> Seq<char> {
    text.map_values(|c: char| spec_transform_char(c, s))
}

/// Apply a Unicode style transformation to text.
pub fn apply_unicode_style(text: &str, style: UnicodeStyle) -> (r: String)
    ensures
        r@ == spec_apply_style(text@, style),
{
    let cs = chars_of(text);
    let n = cs.len();
    let mut out: Vec<char> = Vec::new();
    let mut i: usize = 0;
    while i < n
        invariant
            i <= n,
            cs@ == text@,
            cs@.len() == n,
            out@.len() == i,
            forall|k: int| 0 <= k < i ==> out@[k] == spec_transform_char(text@[k], style),
        decreases n - i,
    {
        out.push(transform_char(cs[i], style));
        i = i + 1;
    }
    proof {
        assert(out@ =~= spec_apply_style(text@, style));
    }
    string_from_chars(&out)
}

/// Cycling agrees with the display order: stepping forward from the style
/// at position `i` of the list yields the style at the next position,
/// wrapping at the end.
pub proof fn lemma_style_cycling_follows_order(i: int)
    requires
        0 <= i < spec_all_styles().len(),
    ensures
        spec_style_next(spec_all_styles()[i]) == spec_all_styles()[(i + 1) % (
        spec_all_styles().len() as int)],
        spec_style_prev(spec_all_styles()[(i + 1) % (spec_all_styles().len() as int)])
            == spec_all_styles()[i],
{
    let n = spec_all_styles().len() as int;
    assert(n == 14);
    if i == 0 {
        assert((i + 1) % n == 1) by (nonlinear_arith)
            requires
                n == 14,
                i == 0,
        ;
        assert(spec_style_next(spec_all_styles()[0]) == spec_all_styles()[1]);
        assert(spec_style_prev(spec_all_styles()[1]) == spec_all_styles()[0]);
    }     else if i == 1 {
        assert((i + 1) % n == 2) by (nonlinear_arith)
            requires
                n == 14,
                i == 1,
        ;
        assert(spec_style_next(spec_all_styles()[1]) == spec_all_styles()[2]);
        assert(spec_style_prev(spec_all_styles()[2]) == spec_all_styles()[1]);
    }     else if i == 2 {
        assert((i + 1) % n == 3) by (nonlinear_arith)
            requires
                n == 14,
                i == 2,
        ;
        assert(spec_style_next(spec_all_styles()[2]) == spec_all_styles()[3]);
        assert(spec_style_prev(spec_all_styles()[3]) == spec_all_styles()[2]);
    }     else if i == 3 {
        assert((i + 1) % n == 4) by (nonlinear_arith)
            requires
                n == 14,
                i == 3,
        ;
        assert(spec_style_next(spec_all_styles()[3]) == spec_all_styles()[4]);
        assert(spec_style_prev(spec_all_styles()[4]) == spec_all_styles()[3]);
    }     else if i == 4 {
        assert((i + 1) % n == 5) by (nonlinear_arith)
            requires
                n == 14,
                i == 4,
        ;
        assert(spec_style_next(spec_all_styles()[4]) == spec_all_styles()[5]);
        assert(spec_style_prev(spec_all_styles()[5]) == spec_all_styles()[4]);
    }     else if i == 5 {
        assert((i + 1) % n == 6) by (nonlinear_arith)
            requires
                n == 14,
                i == 5,
        ;
        assert(spec_style_next(spec_all_styles()[5]) == spec_all_styles()[6]);
        assert(spec_style_prev(spec_all_styles()[6]) == spec_all_styles()[5]);
    }     else if i == 6 {
        assert((i + 1) % n == 7) by (nonlinear_arith)
            requires
                n == 14,
                i == 6,
        ;
        assert(spec_style_next(spec_all_styles()[6]) == spec_all_styles()[7]);
        assert(spec_style_prev(spec_all_styles()[7]) == spec_all_styles()[6]);
    }     else if i == 7 {
        assert((i + 1) % n == 8) by (nonlinear_arith)
            requires
                n == 14,
                i == 7,
        ;
        assert(spec_style_next(spec_all_styles()[7]) == spec_all_styles()[8]);
        assert(spec_style_prev(spec_all_styles()[8]) == spec_all_styles()[7]);
    }     else if i == 8 {
        assert((i + 1) % n == 9) by (nonlinear_arith)
            requires
                n == 14,
                i == 8,
        ;
        assert(spec_style_next(spec_all_styles()[8]) == spec_all_styles()[9]);
        assert(spec_style_prev(spec_all_styles()[9]) == spec_all_styles()[8]);
    }     else if i == 9 {
        assert((i + 1) % n == 10) by (nonlinear_arith)
            requires
                n == 14,
                i == 9,
        ;
        assert(spec_style_next(spec_all_styles()[9]) == spec_all_styles()[10]);
        assert(spec_style_prev(spec_all_styles()[10]) == spec_all_styles()[9]);
    }     else if i == 10 {
        assert((i + 1) % n == 11) by (nonlinear_arith)
            requires
                n == 14,
                i == 10,
        ;
        assert(spec_style_next(spec_all_styles()[10]) == spec_all_styles()[11]);
        assert(spec_style_prev(spec_all_styles()[11]) == spec_all_styles()[10]);
    }     else if i == 11 {
        assert((i + 1) % n == 12) by (nonlinear_arith)
            requires
                n == 14,
                i == 11,
        ;
        assert(spec_style_next(spec_all_styles()[11]) == spec_all_styles()[12]);
        assert(spec_style_prev(spec_all_styles()[12]) == spec_all_styles()[11]);
    }     else if i == 12 {
        assert((i + 1) % n == 13) by (nonlinear_arith)
            requires
                n == 14,
                i == 12,
        ;
        assert(spec_style_next(spec_all_styles()[12]) == spec_all_styles()[13]);
        assert(spec_style_prev(spec_all_styles()[13]) == spec_all_styles()[12]);
    }     else if i == 13 {
        assert((i + 1) % n == 0) by (nonlinear_arith)
            requires
                n == 14,
                i == 13,
        ;
        assert(spec_style_next(spec_all_styles()[13]) == spec_all_styles()[0]);
        assert(spec_style_prev(spec_all_styles()[0]) == spec_all_styles()[13]);
    }
}

/// Gradient coloring mode.
#[derive(Debug, Clone, Copy, PartialEq, Eq, Structural)]
pub enum GradientMode {
    NoGradient,
    Horizontal,
    Rainbow,
}

impl Default for GradientMode {
    fn default() -> (r: Self)
        ensures
            r == GradientMode::NoGradient,
    {
        GradientMode::NoGradient
    }
}

pub open spec fn spec_gradient_name(m: GradientMode) -> Seq<char> {
    match m {
        GradientMode::NoGradient => "None"@,
        GradientMode::Horizontal => "Horizontal"@,
        GradientMode::Rainbow => "Rainbow"@,
    }
}

pub open spec fn spec_gradient_next(m: GradientMode) -> GradientMode {
    match m {
        GradientMode::NoGradient => GradientMode::Horizontal,
        GradientMode::Horizontal => GradientMode::Rainbow,
        GradientMode::Rainbow => GradientMode::NoGradient,
    }
}

pub open spec fn spec_gradient_prev(m: GradientMode) -> GradientMode {
    match m {
        GradientMode::NoGradient => GradientMode::Rainbow,
        GradientMode::Horizontal => GradientMode::NoGradient,
        GradientMode::Rainbow => GradientMode::Horizontal,
    }
}

impl GradientMode {
    pub fn name(&self) -> (r: &'static str)
        ensures
            r@ == spec_gradient_name(*self),
    {
        match self {
            GradientMode::NoGradient => "None",
            GradientMode::Horizontal => "Horizontal",
            GradientMode::Rainbow => "Rainbow",
        }
    }

    pub fn next(&self) -> (r: Self)
        ensures
            r == spec_gradient_next(*self),
    {
        match self {
            GradientMode::NoGradient => GradientMode::Horizontal,
            GradientMode::Horizontal => GradientMode::Rainbow,
            GradientMode::Rainbow => GradientMode::NoGradient,
        }
    }

    pub fn prev(&self) -> (r: Self)
        ensures
            r == spec_gradient_prev(*self),
            spec_gradient_next(r) == *self,
    {
        match self {
            GradientMode::NoGradient => GradientMode::Rainbow,
            GradientMode::Horizontal => GradientMode::NoGradient,
            GradientMode::Rainbow => GradientMode::Horizontal,
        }
    }
}

/// Whether a grapheme cluster consists of whitespace characters only.
pub open spec fn spec_cluster_is_whitespace(g: Seq<char>) -> bool {
    forall|j: int| 0 <= j < g.len() ==> is_whitespace_char(#[trigger] g[j])
}

fn cluster_is_whitespace(g: &str) -> (r: bool)
    ensures
        r == spec_cluster_is_whitespace(g@),
{
    let cs = chars_of(g);
    let n = cs.len();
    let mut i: usize = 0;
    while i < n
        invariant
            i <= n,
            cs@ == g@,
            cs@.len() == n,
            forall|j: int| 0 <= j < i ==> is_whitespace_char(#[trigger] g@[j]),
        decreases n - i,
    {
        if !char_is_whitespace(cs[i]) {
            return false;
        }
        i = i + 1;
    }
    true
}

/// A grapheme cluster with its gradient color applied: whitespace-only
/// clusters pass through bare, and all others are wrapped in a TrueColor
/// foreground escape and a reset.
pub open spec fn spec_colored_cluster(g: Seq<char>, color: Rgb) -> Seq<char> {
    if spec_cluster_is_whitespace(g) {
        g
    } else {
        fg_true_seq(color) + g + reset_seq()
    }
}

/// The first `i` clusters of the horizontal gradient over a grapheme
/// sequence: cluster `k` takes the start-to-end blend at fraction
/// `k / (n - 1)` (zero when there is only one cluster).
pub open spec fn spec_horizontal_gradient(gs: Seq<Seq<char>>, start: Rgb, end: Rgb, i: int) -> Seq<
    char,
>
    decreases i,
{
    if i <= 0 {
        Seq::empty()
    } else {
        spec_horizontal_gradient(gs, start, end, i - 1) + spec_colored_cluster(
            gs[i - 1],
            spec_interpolate(start, end, i - 1, gs.len() - 1),
        )
    }
}

/// The first `i` clusters of the rainbow gradient over a grapheme
/// sequence: cluster `k` takes the hue at `k / n` of the circle.
pub open spec fn spec_rainbow_gradient(gs: Seq<Seq<char>>, i: int) -> Seq<char>
    decreases i,
{
    if i <= 0 {
        Seq::empty()
    } else {
        spec_rainbow_gradient(gs, i - 1) + spec_colored_cluster(
            gs[i - 1],
            spec_hue_rgb(i - 1, gs.len() as int),
        )
    }
}

/// Apply a horizontal gradient: interpolate from the start to the end
/// color across the grapheme clusters.
pub fn apply_horizontal_gradient(text: &str, start: (u8, u8, u8), end: (u8, u8, u8)) -> (r: String)
    ensures
        r@ == spec_horizontal_gradient(
            graphemes_of(text@),
            Rgb { r: start.0, g: start.1, b: start.2 },
            Rgb { r: end.0, g: end.1, b: end.2 },
            graphemes_of(text@).len() as int,
        ),
        text@.len() == 0 ==> r@.len() == 0,
{
    let graphemes = split_graphemes(text);
    let ghost gs = graphemes_of(text@);
    let len = graphemes.len();
    let start_rgb = Rgb::from_tuple(start);
    let end_rgb = Rgb::from_tuple(end);
    let mut result = String::new();
    let mut i: usize = 0;
    while i < len
        invariant
            i <= len,
            graphemes.deep_view() == gs,
            graphemes@.len() == len,
            start_rgb == (Rgb { r: start.0, g: start.1, b: start.2 }),
            end_rgb == (Rgb { r: end.0, g: end.1, b: end.2 }),
            result@ == spec_horizontal_gradient(gs, start_rgb, end_rgb, i as int),
        decreases len - i,
    {
        proof {
            assert(graphemes@[i as int].deep_view() == gs[i as int]);
        }
        let g: &String = &graphemes[i];
        let color = interpolate_color(start_rgb, end_rgb, i, len - 1);
        if cluster_is_whitespace(g.as_str()) {
            result.append(g.as_str());
        } else {
            let fg = format_fg_color(color, ColorSupport::TrueColor);
            result.append(fg.as_str());
            result.append(g.as_str());
            result.append(crate::color::ansi_reset());
        }
        i = i + 1;
    }
    result
}

/// Apply a rainbow gradient: the hue advances around the circle across the
/// grapheme clusters.
pub fn apply_rainbow_gradient(text: &str) -> (r: String)
    ensures
        r@ == spec_rainbow_gradient(graphemes_of(text@), graphemes_of(text@).len() as int),
        text@.len() == 0 ==> r@.len() == 0,
{
    let graphemes = split_graphemes(text);
    let ghost gs = graphemes_of(text@);
    let len = graphemes.len();
    let mut result = String::new();
    let mut i: usize = 0;
    while i < len
        invariant
            i <= len,
            graphemes.deep_view() == gs,
            graphemes@.len() == len,
            result@ == spec_rainbow_gradient(gs, i as int),
        decreases len - i,
    {
        proof {
            assert(graphemes@[i as int].deep_view() == gs[i as int]);
        }
        let g: &String = &graphemes[i];
        let color = hue_to_rgb(i, len);
        if cluster_is_whitespace(g.as_str()) {
            result.append(g.as_str());
        } else {
            let fg = format_fg_color(color, ColorSupport::TrueColor);
            result.append(fg.as_str());
            result.append(g.as_str());
            result.append(crate::color::ansi_reset());
        }
        i = i + 1;
    }
    result
}

/// The gradient coloring of a text: the text itself with no gradient,
/// otherwise the chosen gradient over its grapheme clusters.
pub open spec fn spec_apply_gradient(
    text: Seq<char>,
    mode: GradientMode,
    start: Rgb,
    end: Rgb,
) -> Seq<char> {
    match mode {
        GradientMode::NoGradient => text,
        GradientMode::Horizontal => spec_horizontal_gradient(
            graphemes_of(text),
            start,
            end,
            graphemes_of(text).len() as int,
        ),
        GradientMode::Rainbow => spec_rainbow_gradient(
            graphemes_of(text),
            graphemes_of(text).len() as int,
        ),
    }
}

/// Apply gradient coloring to text.
pub fn apply_gradient(text: &str, mode: GradientMode, start: (u8, u8, u8), end: (u8, u8, u8)) -> (r:
    String)
    ensures
        r@ == spec_apply_gradient(
            text@,
            mode,
            Rgb { r: start.0, g: start.1, b: start.2 },
            Rgb { r: end.0, g: end.1, b: end.2 },
        ),
        text@.len() == 0 ==> r@.len() == 0,
{
    match mode {
        GradientMode::NoGradient => String::from_str(text),
        GradientMode::Horizontal => apply_horizontal_gradient(text, start, end),
        GradientMode::Rainbow => apply_rainbow_gradient(text),
    }
}

/// The stylized text: the style transform applied character by character,
/// then the gradient coloring over the result's grapheme clusters.
pub open spec fn spec_stylize(
    text: Seq<char>,
    style: UnicodeStyle,
    gradient: GradientMode,
    start: Rgb,
    end: Rgb,
) -> Seq<char> {
    spec_apply_gradient(spec_apply_style(text, style), gradient, start, end)
}

/// Stylize text with a Unicode style and an optional gradient.
///
/// The pipeline order is fixed: style transform first, gradient coloring
/// second.  Stylizing never fails, and empty input yields empty output.
pub fn stylize_text(
    text: &str,
    style: UnicodeStyle,
    gradient: GradientMode,
    start_color: (u8, u8, u8),
    end_color: (u8, u8, u8),
) -> (r: Result<String, crate::ascii_art::RenderError>)
    ensures
        r is Ok,
        r matches Ok(s) ==> s@ == spec_stylize(
            text@,
            style,
            gradient,
            Rgb { r: start_color.0, g: start_color.1, b: start_color.2 },
            Rgb { r: end_color.0, g: end_color.1, b: end_color.2 },
        ),
        text@.len() == 0 ==> (r matches Ok(s) && s@.len() == 0),
{
    // First apply the Unicode style
    let styled = apply_unicode_style(text, style);

    // Then apply the gradient if requested
    let colored = apply_gradient(styled.as_str(), gradient, start_color, end_color);

    Ok(colored)
}

/// Stylizing is deterministic: the same text, style, gradient and colors
/// always yield the same output.
pub proof fn lemma_stylize_deterministic(
    t1: Seq<char>,
    t2: Seq<char>,
    style: UnicodeStyle,
    gradient: GradientMode,
    start: Rgb,
    end: Rgb,
)
    requires
        t1 == t2,
    ensures
        spec_stylize(t1, style, gradient, start, end) == spec_stylize(t2, style, gradient, start, end),
{
}

} // verus!
