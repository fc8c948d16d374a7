//! Color space conversion and terminal-palette quantization.
//!
//! Luminance is held in fixed point: the unit interval [0, 1] is scaled by
//! `LUM_SCALE` (so `LUM_SCALE` stands for 1.0).  The scale is 10000 * 255, so
//! that the ITU-R BT.709 and BT.601 channel weights (four decimal digits) and
//! the conversion back to a byte are both exact integer arithmetic.

use vstd::prelude::*;

use crate::capabilities::ColorSupport;
use crate::text::{dec_seq, push_decimal, string_from_chars};

verus! {

/// Fixed-point representation of luminance 1.0 (10000 * 255).
pub const LUM_SCALE: u32 = 2550000;

/// RGB color type.
#[derive(Debug, Clone, Copy, PartialEq, Eq, Structural)]
pub struct Rgb {
    pub r: u8,
    pub g: u8,
    pub b: u8,
}

impl Rgb {
    pub fn new(r: u8, g: u8, b: u8) -> (c: Self)
        ensures
            c == (Rgb { r, g, b }),
    {
        Self { r, g, b }
    }

    pub fn from_tuple(tuple: (u8, u8, u8)) -> (c: Self)
        ensures
            c == (Rgb { r: tuple.0, g: tuple.1, b: tuple.2 }),
    {
        Self { r: tuple.0, g: tuple.1, b: tuple.2 }
    }

    pub fn to_tuple(&self) -> (t: (u8, u8, u8))
        ensures
            t == (self.r, self.g, self.b),
    {
        (self.r, self.g, self.b)
    }
}

/// Perceptual luminance of an RGB triple, ITU-R BT.709 weights
/// (0.2126 R + 0.7152 G + 0.0722 B) / 255, scaled by `LUM_SCALE`.
pub open spec fn spec_luminance(r: int, g: int, b: int) -> int {
    2126 * r + 7152 * g + 722 * b
}

/// Luminance with ITU-R BT.601 weights (0.299 / 0.587 / 0.114), same scale.
pub open spec fn spec_luminance_bt601(r: int, g: int, b: int) -> int {
    2990 * r + 5870 * g + 1140 * b
}

/// Luminance scaled by `LUM_SCALE`, clamped to [0, 1] and rounded to a byte.
pub open spec fn spec_gray(l: int) -> int {
    let c = if l > 2550000 {
        2550000int
    } else {
        l
    };
    (c + 5000) / 10000
}

/// Convert RGB to perceptual luminance, scaled by `LUM_SCALE`.
///
/// Uses ITU-R BT.709 (HDTV) coefficients for perceptually accurate grayscale.
pub fn rgb_to_luminance(r: u8, g: u8, b: u8) -> (l: u32)
    ensures
        l == spec_luminance(r as int, g as int, b as int),
        l <= LUM_SCALE,
{
    2126 * (r as u32) + 7152 * (g as u32) + 722 * (b as u32)
}

/// Alternative luminance calculation using BT.601 (SDTV) coefficients.
pub fn rgb_to_luminance_bt601(r: u8, g: u8, b: u8) -> (l: u32)
    ensures
        l == spec_luminance_bt601(r as int, g as int, b as int),
        l <= LUM_SCALE,
{
    2990 * (r as u32) + 5870 * (g as u32) + 1140 * (b as u32)
}

/// Convert scaled luminance to a grayscale byte (0 to 255).
pub fn luminance_to_gray(luminance: u32) -> (gray: u8)
    ensures
        gray == spec_gray(luminance as int),
{
    let clamped: u32 = if luminance > LUM_SCALE {
        LUM_SCALE
    } else {
        luminance
    };
    ((clamped + 5000) / 10000) as u8
}

/// The grayscale conversion stays within the byte range and is monotonic:
/// a brighter luminance never yields a darker byte.
pub proof fn lemma_luminance_to_gray_monotonic(l1: int, l2: int)
    requires
        0 <= l1 <= l2,
    ensures
        0 <= spec_gray(l1) <= 255,
        0 <= spec_gray(l2) <= 255,
        spec_gray(l1) <= spec_gray(l2),
{
    let c1 = if l1 > 2550000 {
        2550000int
    } else {
        l1
    };
    let c2 = if l2 > 2550000 {
        2550000int
    } else {
        l2
    };
    vstd::arithmetic::div_mod::lemma_div_is_ordered(c1 + 5000, c2 + 5000, 10000);
    vstd::arithmetic::div_mod::lemma_div_is_ordered(c1 + 5000, 2555000, 10000);
}

/// Rounded value of `n / d` for non-negative `n` and positive `d`.
pub open spec fn spec_round_div(n: int, d: int) -> int {
    (2 * n + d) / (2 * d)
}

/// ANSI 256-color code chosen for an RGB triple: near-gray colors map onto
/// the 24-step grayscale ramp (codes 232-255), the rest onto the 6x6x6 color
/// cube (codes 16-231).
pub open spec fn spec_quantize256(c: Rgb) -> int {
    let avg = (c.r + c.g + c.b) / 3;
    let dr = abs_int(c.r - avg);
    let dg = abs_int(c.g - avg);
    let db = abs_int(c.b - avg);
    let gray_diff = max3(dr, dg, db);
    if gray_diff < 10 {
        232 + spec_round_div(avg * 23, 255)
    } else {
        16 + 36 * spec_round_div(c.r * 5, 255) + 6 * spec_round_div(c.g * 5, 255)
            + spec_round_div(c.b * 5, 255)
    }
}

pub open spec fn abs_int(x: int) -> int {
    if x < 0 {
        -x
    } else {
        x
    }
}

pub open spec fn max3(a: int, b: int, c: int) -> int {
    if a >= b && a >= c {
        a
    } else if b >= c {
        b
    } else {
        c
    }
}

/// Quantize RGB to the ANSI 256-color palette.
pub fn quantize_to_ansi256(rgb: Rgb) -> (code: u8)
    ensures
        code == spec_quantize256(rgb),
        16 <= code,
{
    let r = rgb.r as u32;
    let g = rgb.g as u32;
    let b = rgb.b as u32;
    let avg: u32 = (r + g + b) / 3;
    let dr: u32 = if r >= avg {
        r - avg
    } else {
        avg - r
    };
    let dg: u32 = if g >= avg {
        g - avg
    } else {
        avg - g
    };
    let db: u32 = if b >= avg {
        b - avg
    } else {
        avg - b
    };
    let gray_diff: u32 = if dr >= dg && dr >= db {
        dr
    } else if dg >= db {
        dg
    } else {
        db
    };
    if gray_diff < 10 {
        let gray_index: u32 = (2 * (avg * 23) + 255) / 510;
        assert(gray_index == spec_round_div(avg as int * 23, 255));
        assert(gray_index <= 23) by {
            assert(2 * (avg * 23) + 255 <= 23 * 510 + 255);
            vstd::arithmetic::div_mod::lemma_div_is_ordered(
                2 * (avg as int * 23) + 255,
                23int * 510 + 255,
                510,
            );
        }
        (232 + gray_index) as u8
    } else {
        let ri: u32 = (2 * (r * 5) + 255) / 510;
        let gi: u32 = (2 * (g * 5) + 255) / 510;
        let bi: u32 = (2 * (b * 5) + 255) / 510;
        assert(ri <= 5 && gi <= 5 && bi <= 5) by {
            vstd::arithmetic::div_mod::lemma_div_is_ordered(2 * (r as int * 5) + 255, 2805, 510);
            vstd::arithmetic::div_mod::lemma_div_is_ordered(2 * (g as int * 5) + 255, 2805, 510);
            vstd::arithmetic::div_mod::lemma_div_is_ordered(2 * (b as int * 5) + 255, 2805, 510);
        }
        (16 + 36 * ri + 6 * gi + bi) as u8
    }
}

/// ANSI 16-color code chosen for an RGB triple: low-saturation colors pick a
/// grayscale tier by luminance, others pick one of six hue buckets by
/// dominant channel, with a bright offset above half luminance.
pub open spec fn spec_quantize16(c: Rgb) -> int {
    let lum = spec_luminance(c.r as int, c.g as int, c.b as int);
    let mx = max3(c.r as int, c.g as int, c.b as int);
    let mn = min3(c.r as int, c.g as int, c.b as int);
    let low_saturation = 5 * (mx - mn) < mx || mx == 0;
    if low_saturation {
        if lum > 1785000 {
            15int
        } else if lum > 765000 {
            7int
        } else {
            0int
        }
    } else {
        let base = if c.r >= c.g && c.r >= c.b {
            if c.g > c.b {
                3int
            } else {
                1int
            }
        } else if c.g >= c.r && c.g >= c.b {
            if c.b > c.r {
                6int
            } else {
                2int
            }
        } else {
            if c.r > c.g {
                5int
            } else {
                4int
            }
        };
        if lum > 1275000 {
            base + 8
        } else {
            base
        }
    }
}

pub open spec fn min3(a: int, b: int, c: int) -> int {
    if a <= b && a <= c {
        a
    } else if b <= c {
        b
    } else {
        c
    }
}

/// Quantize RGB to the ANSI 16-color palette.
pub fn quantize_to_ansi16(rgb: Rgb) -> (code: u8)
    ensures
        code == spec_quantize16(rgb),
        code <= 15,
{
    let luminance = rgb_to_luminance(rgb.r, rgb.g, rgb.b);
    let bright = luminance > 1275000;

    let mx: u8 = if rgb.r >= rgb.g && rgb.r >= rgb.b {
        rgb.r
    } else if rgb.g >= rgb.b {
        rgb.g
    } else {
        rgb.b
    };
    let mn: u8 = if rgb.r <= rgb.g && rgb.r <= rgb.b {
        rgb.r
    } else if rgb.g <= rgb.b {
        rgb.g
    } else {
        rgb.b
    };

    // saturation = (max - min) / max is below 0.2 iff 5 * (max - min) < max
    if mx == 0 || 5 * (mx as u32 - mn as u32) < mx as u32 {
        if luminance > 1785000 {
            15  // Bright white
        } else if luminance > 765000 {
            7  // White (light gray)
        } else {
            0  // Black
        }
    } else {
        let color_base: u8 = if rgb.r >= rgb.g && rgb.r >= rgb.b {
            if rgb.g > rgb.b {
                3  // Yellow
            } else {
                1  // Red
            }
        } else if rgb.g >= rgb.r && rgb.g >= rgb.b {
            if rgb.b > rgb.r {
                6  // Cyan
            } else {
                2  // Green
            }
        } else {
            if rgb.r > rgb.g {
                5  // Magenta
            } else {
                4  // Blue
            }
        };
        if bright {
            color_base + 8  // Bright variant
        } else {
            color_base
        }
    }
}

/// The text of the ANSI TrueColor foreground escape `ESC [ 38;2;R;G;B m`.
pub open spec fn fg_true_seq(c: Rgb) -> Seq<char> {
    seq!['\x1b', '[', '3', '8', ';', '2', ';'] + dec_seq(c.r as int) + seq![';'] + dec_seq(
        c.g as int,
    ) + seq![';'] + dec_seq(c.b as int) + seq!['m']
}

/// The text of the ANSI TrueColor background escape `ESC [ 48;2;R;G;B m`.
pub open spec fn bg_true_seq(c: Rgb) -> Seq<char> {
    seq!['\x1b', '[', '4', '8', ';', '2', ';'] + dec_seq(c.r as int) + seq![';'] + dec_seq(
        c.g as int,
    ) + seq![';'] + dec_seq(c.b as int) + seq!['m']
}

/// The text of the ANSI 256-color foreground escape `ESC [ 38;5;N m`.
pub open spec fn fg_256_seq(n: int) -> Seq<char> {
    seq!['\x1b', '[', '3', '8', ';', '5', ';'] + dec_seq(n) + seq!['m']
}

/// The text of the ANSI 256-color background escape `ESC [ 48;5;N m`.
pub open spec fn bg_256_seq(n: int) -> Seq<char> {
    seq!['\x1b', '[', '4', '8', ';', '5', ';'] + dec_seq(n) + seq!['m']
}

/// The text of the ANSI 16-color foreground escape: `ESC [ 3x m` for the
/// normal colors 0-7, `ESC [ 9x m` for the bright colors 8-15.
pub open spec fn fg_16_seq(n: int) -> Seq<char> {
    if n < 8 {
        seq!['\x1b', '['] + dec_seq(30 + n) + seq!['m']
    } else {
        seq!['\x1b', '['] + dec_seq(90 + (n - 8)) + seq!['m']
    }
}

/// The text of the ANSI 16-color background escape: `ESC [ 4x m` or
/// `ESC [ 10x m`.
pub open spec fn bg_16_seq(n: int) -> Seq<char> {
    if n < 8 {
        seq!['\x1b', '['] + dec_seq(40 + n) + seq!['m']
    } else {
        seq!['\x1b', '['] + dec_seq(100 + (n - 8)) + seq!['m']
    }
}

/// The text of the ANSI reset escape `ESC [ 0 m`.
pub open spec fn reset_seq() -> Seq<char> {
    seq!['\x1b', '[', '0', 'm']
}

/// Format RGB as an ANSI TrueColor escape sequence (foreground).
pub fn rgb_to_ansi_fg(rgb: Rgb) -> (s: String)
    ensures
        s@ == fg_true_seq(rgb),
{
    let mut out: Vec<char> = Vec::new();
    out.push('\x1b');
    out.push('[');
    out.push('3');
    out.push('8');
    out.push(';');
    out.push('2');
    out.push(';');
    push_decimal(&mut out, rgb.r);
    out.push(';');
    push_decimal(&mut out, rgb.g);
    out.push(';');
    push_decimal(&mut out, rgb.b);
    out.push('m');
    proof {
        assert(out@ =~= fg_true_seq(rgb));
    }
    string_from_chars(&out)
}

/// Format RGB as an ANSI TrueColor escape sequence (background).
pub fn rgb_to_ansi_bg(rgb: Rgb) -> (s: String)
    ensures
        s@ == bg_true_seq(rgb),
{
    let mut out: Vec<char> = Vec::new();
    out.push('\x1b');
    out.push('[');
    out.push('4');
    out.push('8');
    out.push(';');
    out.push('2');
    out.push(';');
    push_decimal(&mut out, rgb.r);
    out.push(';');
    push_decimal(&mut out, rgb.g);
    out.push(';');
    push_decimal(&mut out, rgb.b);
    out.push('m');
    proof {
        assert(out@ =~= bg_true_seq(rgb));
    }
    string_from_chars(&out)
}

/// Format an ANSI 256-color escape sequence (foreground).
pub fn ansi256_to_fg(color: u8) -> (s: String)
    ensures
        s@ == fg_256_seq(color as int),
{
    let mut out: Vec<char> = Vec::new();
    out.push('\x1b');
    out.push('[');
    out.push('3');
    out.push('8');
    out.push(';');
    out.push('5');
    out.push(';');
    push_decimal(&mut out, color);
    out.push('m');
    proof {
        assert(out@ =~= fg_256_seq(color as int));
    }
    string_from_chars(&out)
}

/// Format an ANSI 256-color escape sequence (background).
pub fn ansi256_to_bg(color: u8) -> (s: String)
    ensures
        s@ == bg_256_seq(color as int),
{
    let mut out: Vec<char> = Vec::new();
    out.push('\x1b');
    out.push('[');
    out.push('4');
    out.push('8');
    out.push(';');
    out.push('5');
    out.push(';');
    push_decimal(&mut out, color);
    out.push('m');
    proof {
        assert(out@ =~= bg_256_seq(color as int));
    }
    string_from_chars(&out)
}

/// Format an ANSI 16-color escape sequence (foreground).
pub fn ansi16_to_fg(color: u8) -> (s: String)
    requires
        color <= 15,
    ensures
        s@ == fg_16_seq(color as int),
{
    let mut out: Vec<char> = Vec::new();
    out.push('\x1b');
    out.push('[');
    if color < 8 {
        push_decimal(&mut out, 30 + color);
    } else {
        push_decimal(&mut out, 90 + (color - 8));
    }
    out.push('m');
    proof {
        assert(out@ =~= fg_16_seq(color as int));
    }
    string_from_chars(&out)
}

/// Format an ANSI 16-color escape sequence (background).
pub fn ansi16_to_bg(color: u8) -> (s: String)
    requires
        color <= 15,
    ensures
        s@ == bg_16_seq(color as int),
{
    let mut out: Vec<char> = Vec::new();
    out.push('\x1b');
    out.push('[');
    if color < 8 {
        push_decimal(&mut out, 40 + color);
    } else {
        push_decimal(&mut out, 100 + (color - 8));
    }
    out.push('m');
    proof {
        assert(out@ =~= bg_16_seq(color as int));
    }
    string_from_chars(&out)
}

/// The ANSI reset sequence `ESC [ 0 m`.
pub fn ansi_reset() -> (s: &'static str)
    ensures
        s@ == reset_seq(),
{
    let s = "\x1b[0m";
    proof {
        reveal_strlit("\x1b[0m");
        assert(s@ =~= reset_seq());
    }
    s
}

/// The foreground escape text chosen for a color at a support level: the
/// TrueColor, 256-color or 16-color escape of the (possibly quantized)
/// color, and no text at all when color is unsupported.
pub open spec fn spec_fg_color(c: Rgb, support: ColorSupport) -> Seq<char> {
    match support {
        ColorSupport::NoColor => Seq::<char>::empty(),
        ColorSupport::Color16 => fg_16_seq(spec_quantize16(c)),
        ColorSupport::Color256 => fg_256_seq(spec_quantize256(c)),
        ColorSupport::TrueColor => fg_true_seq(c),
    }
}

/// The background escape text chosen for a color at a support level.
pub open spec fn spec_bg_color(c: Rgb, support: ColorSupport) -> Seq<char> {
    match support {
        ColorSupport::NoColor => Seq::<char>::empty(),
        ColorSupport::Color16 => bg_16_seq(spec_quantize16(c)),
        ColorSupport::Color256 => bg_256_seq(spec_quantize256(c)),
        ColorSupport::TrueColor => bg_true_seq(c),
    }
}

/// Format a foreground color for the terminal based on color support level.
pub fn format_fg_color(rgb: Rgb, support: ColorSupport) -> (s: String)
    ensures
        s@ == spec_fg_color(rgb, support),
{
    match support {
        ColorSupport::NoColor => String::new(),
        ColorSupport::Color16 => ansi16_to_fg(quantize_to_ansi16(rgb)),
        ColorSupport::Color256 => ansi256_to_fg(quantize_to_ansi256(rgb)),
        ColorSupport::TrueColor => rgb_to_ansi_fg(rgb),
    }
}

/// Format a background color for the terminal based on color support level.
pub fn format_bg_color(rgb: Rgb, support: ColorSupport) -> (s: String)
    ensures
        s@ == spec_bg_color(rgb, support),
{
    match support {
        ColorSupport::NoColor => String::new(),
        ColorSupport::Color16 => ansi16_to_bg(quantize_to_ansi16(rgb)),
        ColorSupport::Color256 => ansi256_to_bg(quantize_to_ansi256(rgb)),
        ColorSupport::TrueColor => rgb_to_ansi_bg(rgb),
    }
}

/// One channel of the linear blend between `a` and `b` at the clamped
/// fraction `num / den`, rounded to the nearest byte.  A zero denominator
/// stands for a fraction of zero.
pub open spec fn spec_interp_channel(a: int, b: int, num: int, den: int) -> int {
    if den == 0 {
        a
    } else {
        let n = if num > den {
            den
        } else {
            num
        };
        spec_round_div((den - n) * a + n * b, den)
    }
}

/// The per-channel linear blend of two colors at fraction `num / den`.
pub open spec fn spec_interpolate(a: Rgb, b: Rgb, num: int, den: int) -> Rgb {
    Rgb {
        r: spec_interp_channel(a.r as int, b.r as int, num, den) as u8,
        g: spec_interp_channel(a.g as int, b.g as int, num, den) as u8,
        b: spec_interp_channel(a.b as int, b.b as int, num, den) as u8,
    }
}

/// The blended channel value is always a byte.
pub proof fn lemma_interp_channel_bound(a: int, b: int, num: int, den: int)
    requires
        0 <= a <= 255,
        0 <= b <= 255,
        0 <= num,
        0 <= den,
    ensures
        0 <= spec_interp_channel(a, b, num, den) <= 255,
{
    if den != 0 {
        let n = if num > den {
            den
        } else {
            num
        };
        let v = (den - n) * a + n * b;
        assert(0 <= v <= den * 255) by (nonlinear_arith)
            requires
                0 <= a <= 255,
                0 <= b <= 255,
                0 <= n <= den,
                v == (den - n) * a + n * b,
        ;
        assert(0 <= (2 * v + den) / (2 * den) <= 255) by (nonlinear_arith)
            requires
                0 <= v <= den * 255,
                den >= 1,
        ;
    }
}

fn interp_channel(a: u8, b: u8, num: usize, den: usize) -> (c: u8)
    ensures
        c == spec_interp_channel(a as int, b as int, num as int, den as int),
{
    if den == 0 {
        return a;
    }
    let n: u128 = if num > den {
        den as u128
    } else {
        num as u128
    };
    let d: u128 = den as u128;
    proof {
        assert((d - n) * (a as u128) + n * (b as u128) <= d * 255 && d * 255 < u128::MAX / 4)
            by (nonlinear_arith)
            requires
                a <= 255,
                b <= 255,
                0 < d <= u64::MAX,
                n <= d,
        ;
        lemma_interp_channel_bound(a as int, b as int, num as int, den as int);
    }
    let v: u128 = (d - n) * (a as u128) + n * (b as u128);
    let r: u128 = (2 * v + d) / (2 * d);
    proof {
        assert(r <= 255) by (nonlinear_arith)
            requires
                v <= d * 255,
                d >= 1,
                r == (2 * v + d) / (2 * d),
        ;
    }
    r as u8
}

/// Interpolate between two colors at the clamped fraction `t_num / t_den`
/// (zero when `t_den` is zero, so a degenerate range never divides by zero).
pub fn interpolate_color(start: Rgb, end: Rgb, t_num: usize, t_den: usize) -> (c: Rgb)
    ensures
        c == spec_interpolate(start, end, t_num as int, t_den as int),
        t_den == 0 ==> c == start,
{
    let c = Rgb {
        r: interp_channel(start.r, end.r, t_num, t_den),
        g: interp_channel(start.g, end.g, t_num, t_den),
        b: interp_channel(start.b, end.b, t_num, t_den),
    };
    c
}

/// The color of the rainbow at hue `num / den * 360` degrees: full-value,
/// full-saturation HSV converted to RGB by the six-sector formula.
pub open spec fn spec_hue_rgb(num: int, den: int) -> Rgb {
    let q = 6 * num;
    let sector = q / den;
    let m = q % (2 * den);
    let dist = den - abs_int(m - den);
    let x = (255 * dist) / den;
    if sector == 0 {
        Rgb { r: 255, g: x as u8, b: 0 }
    } else if sector == 1 {
        Rgb { r: x as u8, g: 255, b: 0 }
    } else if sector == 2 {
        Rgb { r: 0, g: 255, b: x as u8 }
    } else if sector == 3 {
        Rgb { r: 0, g: x as u8, b: 255 }
    } else if sector == 4 {
        Rgb { r: x as u8, g: 0, b: 255 }
    } else {
        Rgb { r: 255, g: 0, b: x as u8 }
    }
}

/// Convert a hue fraction `num / den` of the full 360-degree circle to RGB.
pub fn hue_to_rgb(hue_num: usize, hue_den: usize) -> (c: Rgb)
    requires
        hue_den >= 1,
        hue_num <= hue_den,
    ensures
        c == spec_hue_rgb(hue_num as int, hue_den as int),
{
    let q: u128 = 6 * (hue_num as u128);
    let d: u128 = hue_den as u128;
    let sector: u128 = q / d;
    let m: u128 = q % (2 * d);
    let dist: u128 = if m >= d {
        d - (m - d)
    } else {
        d - (d - m)
    };
    proof {
        assert(q as int % (2 * d as int) <= 2 * d) by {
            vstd::arithmetic::div_mod::lemma_mod_bound(q as int, 2 * d as int);
        }
        assert(dist == hue_den as int - abs_int(m as int - hue_den as int));
        assert(sector <= 6) by {
            vstd::arithmetic::div_mod::lemma_div_is_ordered(q as int, 6 * d as int, d as int);
            assert(6 * d as int / d as int == 6) by (nonlinear_arith)
                requires
                    d >= 1,
            ;
        }
    }
    let x128: u128 = (255 * dist) / d;
    proof {
        assert(x128 <= 255) by {
            assert(dist <= d);
            vstd::arithmetic::div_mod::lemma_div_is_ordered(
                255 * dist as int,
                255 * d as int,
                d as int,
            );
            assert(255 * d as int / d as int == 255) by (nonlinear_arith)
                requires
                    d >= 1,
            ;
        }
    }
    let x: u8 = x128 as u8;
    if sector == 0 {
        Rgb { r: 255, g: x, b: 0 }
    } else if sector == 1 {
        Rgb { r: x, g: 255, b: 0 }
    } else if sector == 2 {
        Rgb { r: 0, g: 255, b: x }
    } else if sector == 3 {
        Rgb { r: 0, g: x, b: 255 }
    } else if sector == 4 {
        Rgb { r: x, g: 0, b: 255 }
    } else {
        Rgb { r: 255, g: 0, b: x }
    }
}

} // verus!
