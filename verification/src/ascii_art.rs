//! ASCII art rendering engine.
//!
//! Converts images to ASCII art using luminance-based character mapping:
//! the image is resampled to the output grid, converted to grayscale, run
//! through an optional Sobel edge enhancement, and mapped onto an ordered
//! character ramp, darkest to lightest.

use vstd::prelude::*;

use crate::color::{
    spec_gray, spec_luminance, spec_round_div, luminance_to_gray, rgb_to_luminance, LUM_SCALE,
};
use crate::raster::{lanczos_resample, resize_rgb, Raster};
use crate::text::{chars_of, string_from_chars};

verus! {

/// Character set for ASCII rendering.
#[derive(Debug, Clone, PartialEq, Eq)]
pub enum CharacterSet {
    /// Simple 10-character set: " .:-=+*#%@"
    Standard,
    /// Extended 70-character set for more detail
    Extended,
    /// Unicode block elements: " ░▒▓█"
    Blocks,
    /// Custom user-defined character set (sorted dark to light)
    Custom(String),
}

/// The ordered glyph ramp of a character set, darkest to lightest.
pub open spec fn spec_charset_chars(cs: &CharacterSet) -> Seq<char> {
    match cs {
        CharacterSet::Standard => " .:-=+*#%@"@,
        CharacterSet::Extended => " .'`^\",:;Il!i><~+_-?][}{1)(|/tfjrxnuvczXYUJCLQ0OZmwqpdbkhao*#MW&8%B@$"@,
        CharacterSet::Blocks => " ░▒▓█"@,
        CharacterSet::Custom(chars) => chars@,
    }
}

/// A usable ramp holds at least one glyph.
pub open spec fn charset_wf(cs: &CharacterSet) -> bool {
    spec_charset_chars(cs).len() >= 1
}

/// The three built-in ramps are never empty.
pub proof fn lemma_builtin_charsets_wf(cs: &CharacterSet)
    requires
        !(cs matches CharacterSet::Custom(_)),
    ensures
        charset_wf(cs),
{
    reveal_strlit(" .:-=+*#%@");
    reveal_strlit(" .'`^\",:;Il!i><~+_-?][}{1)(|/tfjrxnuvczXYUJCLQ0OZmwqpdbkhao*#MW&8%B@$");
    reveal_strlit(" ░▒▓█");
}

impl Default for CharacterSet {
    fn default() -> (r: Self)
        ensures
            r == CharacterSet::Extended,
    {
        CharacterSet::Extended
    }
}

impl CharacterSet {
    pub fn name(&self) -> (r: &'static str)
        ensures
            r@ == spec_charset_name(self),
    {
        match self {
            CharacterSet::Standard => "Standard",
            CharacterSet::Extended => "Extended",
            CharacterSet::Blocks => "Blocks",
            CharacterSet::Custom(_) => "Custom",
        }
    }

    pub fn chars(&self) -> (r: &str)
        ensures
            r@ == spec_charset_chars(self),
    {
        match self {
            CharacterSet::Standard => " .:-=+*#%@",
            CharacterSet::Extended => {
                " .'`^\",:;Il!i><~+_-?][}{1)(|/tfjrxnuvczXYUJCLQ0OZmwqpdbkhao*#MW&8%B@$"
            },
            CharacterSet::Blocks => " ░▒▓█",
            CharacterSet::Custom(chars) => chars.as_str(),
        }
    }

    pub fn next(&self) -> (r: Self)
        ensures
            r == spec_charset_next(self),
    {
        match self {
            CharacterSet::Standard => CharacterSet::Extended,
            CharacterSet::Extended => CharacterSet::Blocks,
            CharacterSet::Blocks => CharacterSet::Standard,
            CharacterSet::Custom(_) => CharacterSet::Standard,
        }
    }

    pub fn prev(&self) -> (r: Self)
        ensures
            r == spec_charset_prev(self),
    {
        match self {
            CharacterSet::Standard => CharacterSet::Blocks,
            CharacterSet::Extended => CharacterSet::Standard,
            CharacterSet::Blocks => CharacterSet::Extended,
            CharacterSet::Custom(_) => CharacterSet::Standard,
        }
    }
}

pub open spec fn spec_charset_name(cs: &CharacterSet) -> Seq<char> {
    match cs {
        CharacterSet::Standard => "Standard"@,
        CharacterSet::Extended => "Extended"@,
        CharacterSet::Blocks => "Blocks"@,
        CharacterSet::Custom(_) => "Custom"@,
    }
}

pub open spec fn spec_charset_next(cs: &CharacterSet) -> CharacterSet {
    match cs {
        CharacterSet::Standard => CharacterSet::Extended,
        CharacterSet::Extended => CharacterSet::Blocks,
        CharacterSet::Blocks => CharacterSet::Standard,
        CharacterSet::Custom(_) => CharacterSet::Standard,
    }
}

pub open spec fn spec_charset_prev(cs: &CharacterSet) -> CharacterSet {
    match cs {
        CharacterSet::Standard => CharacterSet::Blocks,
        CharacterSet::Extended => CharacterSet::Standard,
        CharacterSet::Blocks => CharacterSet::Extended,
        CharacterSet::Custom(_) => CharacterSet::Standard,
    }
}

/// Configuration for ASCII rendering.
#[derive(Debug, Clone, PartialEq, Eq)]
pub struct AsciiConfig {
    pub target_width: usize,
    pub charset: CharacterSet,
    pub invert: bool,
    pub edge_enhance: bool,
}

impl Default for AsciiConfig {
    fn default() -> (r: Self)
        ensures
            r == (AsciiConfig {
                target_width: 80usize,
                charset: CharacterSet::Extended,
                invert: false,
                edge_enhance: false,
            }),
    {
        Self { target_width: 80, charset: CharacterSet::Extended, invert: false, edge_enhance: false }
    }
}

/// A render error: the computed output grid does not fit in memory.
#[derive(Debug, Clone, PartialEq, Eq, Structural)]
pub enum RenderError {
    /// The output dimensions overflow the address space.
    OutputTooLarge,
}

impl RenderError {
    /// A human-readable description of the error.
    pub fn message(&self) -> (r: &'static str)
        ensures
            r@ == "output dimensions too large"@,
    {
        match self {
            RenderError::OutputTooLarge => "output dimensions too large",
        }
    }
}

/// Output grid dimensions for a target width: the width as requested and the
/// height scaled by the image's aspect ratio and halved for the roughly 2:1
/// aspect ratio of terminal glyphs, both clamped to at least one (the height
/// also to the address space).
pub open spec fn spec_ascii_dims(img_w: int, img_h: int, target: int) -> (int, int) {
    let w = if target >= 1 {
        target
    } else {
        1int
    };
    let raw = spec_round_div(target * img_h, 2 * img_w);
    let clamped = if raw > usize::MAX {
        usize::MAX as int
    } else {
        raw
    };
    let h = if clamped >= 1 {
        clamped
    } else {
        1int
    };
    (w, h)
}

/// Calculate output dimensions maintaining aspect ratio.
pub fn calculate_dimensions(image: &Raster, target_width: usize) -> (dims: (usize, usize))
    requires
        image.wf(),
    ensures
        (dims.0 as int, dims.1 as int) == spec_ascii_dims(
            image.spec_width(),
            image.spec_height(),
            target_width as int,
        ),
        dims.0 >= 1,
        dims.1 >= 1,
{
    let iw = image.width();
    let ih = image.height();
    proof {
        image.lemma_wf();
        assert((target_width as int) * (ih as int) < u128::MAX / 8) by (nonlinear_arith)
            requires
                target_width <= u64::MAX,
                ih <= u32::MAX,
        ;
    }
    let num: u128 = (target_width as u128) * (ih as u128);
    let den: u128 = 2 * (iw as u128);
    let raw: u128 = (2 * num + den) / (2 * den);
    let clamped: usize = if raw > usize::MAX as u128 {
        usize::MAX
    } else {
        raw as usize
    };
    let w: usize = if target_width >= 1 {
        target_width
    } else {
        1
    };
    let h: usize = if clamped >= 1 {
        clamped
    } else {
        1
    };
    (w, h)
}

/// The grayscale bytes of an RGB pixel buffer: perceptual (BT.709) luminance
/// of each pixel, rounded to a byte.
pub open spec fn spec_gray_pixels(data: Seq<u8>, n: int) -> Seq<u8> {
    Seq::new(
        n as nat,
        |i: int|
            spec_gray(
                spec_luminance(data[3 * i] as int, data[3 * i + 1] as int, data[3 * i + 2] as int),
            ) as u8,
    )
}

/// Convert an RGB pixel buffer to grayscale bytes.
pub fn to_gray(data: &Vec<u8>, n: usize) -> (r: Vec<u8>)
    requires
        data@.len() == 3 * n,
    ensures
        r@ == spec_gray_pixels(data@, n as int),
{
    let dl = data.len();
    let mut out: Vec<u8> = Vec::new();
    let mut i: usize = 0;
    while i < n
        invariant
            i <= n,
            dl == 3 * n,
            data@.len() == 3 * n,
            out@.len() == i,
            forall|k: int|
                0 <= k < i ==> out@[k] == spec_gray_pixels(data@, n as int)[k],
        decreases n - i,
    {
        let g = luminance_to_gray(
            rgb_to_luminance(data[3 * i], data[3 * i + 1], data[3 * i + 2]),
        );
        out.push(g);
        i = i + 1;
    }
    proof {
        assert(out@ =~= spec_gray_pixels(data@, n as int));
    }
    out
}

/// The integer square root: the largest `r` with `r * r <= n`.
pub open spec fn spec_isqrt(n: int) -> int
    decreases n,
{
    if n < 1 {
        0
    } else {
        let r = spec_isqrt(n - 1);
        if (r + 1) * (r + 1) <= n {
            r + 1
        } else {
            r
        }
    }
}

pub proof fn lemma_isqrt_bounds(n: int)
    requires
        0 <= n,
    ensures
        spec_isqrt(n) * spec_isqrt(n) <= n,
        n < (spec_isqrt(n) + 1) * (spec_isqrt(n) + 1),
        0 <= spec_isqrt(n),
    decreases n,
{
    if n == 0 {
    } else {
        lemma_isqrt_bounds(n - 1);
        let r = spec_isqrt(n - 1);
        assert(spec_isqrt(n) == if (r + 1) * (r + 1) <= n {
            r + 1
        } else {
            r
        });
        if (r + 1) * (r + 1) <= n {
            assert(n < (r + 2) * (r + 2)) by (nonlinear_arith)
                requires
                    r >= 0,
                    n <= (r + 1) * (r + 1),
            ;
        } else {
            assert(r * r <= n - 1 < n);
        }
    }
}

pub proof fn lemma_isqrt_unique(n: int, r: int)
    requires
        0 <= n,
        0 <= r,
        r * r <= n,
        n < (r + 1) * (r + 1),
    ensures
        r == spec_isqrt(n),
{
    lemma_isqrt_bounds(n);
    let s = spec_isqrt(n);
    assert(r == s) by (nonlinear_arith)
        requires
            0 <= r,
            0 <= s,
            r * r <= n,
            n < (r + 1) * (r + 1),
            s * s <= n,
            n < (s + 1) * (s + 1),
    ;
}

/// Integer square root by linear search; the inputs stay small (Sobel
/// magnitudes), so the search is bounded.
fn isqrt(v: u32) -> (r: u32)
    requires
        v <= 3000000,
    ensures
        r as int == spec_isqrt(v as int),
        r <= 1732,
{
    let mut r: u32 = 0;
    loop
        invariant
            v <= 3000000,
            r <= 1732,
            (r as int) * (r as int) <= v as int,
        ensures
            r <= 1732,
            (r as int) * (r as int) <= v as int,
            (v as int) < (r as int + 1) * (r as int + 1),
        decreases 1733 - r,
    {
        let next = r + 1;
        match next.checked_mul(next) {
            Some(s) => {
                if s <= v {
                    r = next;
                    proof {
                        assert(r <= 1732) by (nonlinear_arith)
                            requires
                                (r as int) * (r as int) <= 3000000int,
                                r >= 0,
                        ;
                    }
                } else {
                    break ;
                }
            },
            None => {
                break ;
            },
        }
    }
    proof {
        lemma_isqrt_unique(v as int, r as int);
    }
    r
}

/// The horizontal Sobel response at an interior pixel.
pub open spec fn spec_sobel_gx(gray: Seq<u8>, w: int, x: int, y: int) -> int {
    -(gray[(y - 1) * w + (x - 1)] as int) + gray[(y - 1) * w + (x + 1)] as int - 2 * gray[y * w + (x
        - 1)] as int + 2 * gray[y * w + (x + 1)] as int - gray[(y + 1) * w + (x - 1)] as int
        + gray[(y + 1) * w + (x + 1)] as int
}

/// The vertical Sobel response at an interior pixel.
pub open spec fn spec_sobel_gy(gray: Seq<u8>, w: int, x: int, y: int) -> int {
    -(gray[(y - 1) * w + (x - 1)] as int) - 2 * gray[(y - 1) * w + x] as int - gray[(y - 1) * w + (x
        + 1)] as int + gray[(y + 1) * w + (x - 1)] as int + 2 * gray[(y + 1) * w + x] as int
        + gray[(y + 1) * w + (x + 1)] as int
}

/// Edge-enhanced grayscale: interior pixels blend 70% original intensity
/// with 30% Sobel gradient magnitude, clamped to the byte range; the
/// one-pixel border is copied unmodified.
pub open spec fn spec_sobel_enhance(gray: Seq<u8>, w: int, h: int) -> Seq<u8> {
    Seq::new(
        (w * h) as nat,
        |idx: int|
            {
                let x = idx % w;
                let y = idx / w;
                if 1 <= x && x < w - 1 && 1 <= y && y < h - 1 {
                    let gx = spec_sobel_gx(gray, w, x, y);
                    let gy = spec_sobel_gy(gray, w, x, y);
                    let mag = spec_isqrt(gx * gx + gy * gy);
                    let e = (7 * gray[idx] + 3 * mag) / 10;
                    if e > 255 {
                        255u8
                    } else {
                        e as u8
                    }
                } else {
                    gray[idx]
                }
            },
    )
}

/// Apply Sobel edge enhancement to a grayscale buffer.
pub fn apply_edge_enhancement(gray: &Vec<u8>, w: usize, h: usize) -> (r: Vec<u8>)
    requires
        gray@.len() == w * h,
        w >= 1,
        h >= 1,
    ensures
        r@ == spec_sobel_enhance(gray@, w as int, h as int),
{
    let total = gray.len();
    let mut out: Vec<u8> = Vec::new();
    let mut idx: usize = 0;
    proof {
        assert(spec_sobel_enhance(gray@, w as int, h as int).len() == w * h) by (nonlinear_arith)
            requires
                w >= 1,
                h >= 1,
        ;
    }
    while idx < total
        invariant
            idx <= total,
            total == w * h,
            gray@.len() == w * h,
            w >= 1,
            h >= 1,
            out@.len() == idx,
            forall|k: int|
                0 <= k < idx ==> out@[k] == spec_sobel_enhance(gray@, w as int, h as int)[k],
        decreases total - idx,
    {
        let x = idx % w;
        let y = idx / w;
        proof {
            vstd::arithmetic::div_mod::lemma_fundamental_div_mod(idx as int, w as int);
            assert(y < h) by (nonlinear_arith)
                requires
                    idx < w * h,
                    idx as int == (w as int) * (y as int) + (x as int),
                    0 <= x < w,
                    0 <= y,
                    h >= 1,
                    w >= 1,
            ;
        }
        let v: u8 = if 1 <= x && x + 1 < w && 1 <= y && y + 1 < h {
            proof {
                assert((y as int - 1) * w as int >= 0 && (y as int - 1) * w <= y as int * w && y
                    as int * w <= (y as int + 1) * w && (y as int + 1) * w as int + (x as int + 1)
                    < w * h) by (nonlinear_arith)
                    requires
                        1 <= (x as int),
                        (x as int) + 1 < w,
                        1 <= (y as int),
                        (y as int) + 1 < h,
                        w >= 1,
                        h >= 1,
                ;
            }
            let p00 = gray[(y - 1) * w + (x - 1)] as i32;
            let p01 = gray[(y - 1) * w + x] as i32;
            let p02 = gray[(y - 1) * w + (x + 1)] as i32;
            let p10 = gray[y * w + (x - 1)] as i32;
            let p12 = gray[y * w + (x + 1)] as i32;
            let p20 = gray[(y + 1) * w + (x - 1)] as i32;
            let p21 = gray[(y + 1) * w + x] as i32;
            let p22 = gray[(y + 1) * w + (x + 1)] as i32;
            let gx: i32 = -p00 + p02 - 2 * p10 + 2 * p12 - p20 + p22;
            let gy: i32 = -p00 - 2 * p01 - p02 + p20 + 2 * p21 + p22;
            proof {
                assert(0 <= gx * gx + gy * gy <= 3000000int && gx * gx <= 1100000int && gy * gy
                    <= 1100000int) by (nonlinear_arith)
                    requires
                        -1020 <= gx <= 1020,
                        -1020 <= gy <= 1020,
                ;
            }
            let mag2: u32 = (gx * gx + gy * gy) as u32;
            let mag = isqrt(mag2);
            let orig = gray[idx] as u32;
            let e: u32 = (7 * orig + 3 * mag) / 10;
            if e > 255 {
                255u8
            } else {
                e as u8
            }
        } else {
            gray[idx]
        };
        out.push(v);
        proof {
            assert(out@[idx as int] == spec_sobel_enhance(gray@, w as int, h as int)[idx as int]);
        }
        idx = idx + 1;
    }
    proof {
        assert(out@ =~= spec_sobel_enhance(gray@, w as int, h as int));
    }
    out
}

/// The ramp index for a grayscale byte: the byte (inverted if requested)
/// scaled onto the ramp and rounded to the nearest index.
pub open spec fn spec_ramp_index(gray: int, n: int, invert: bool) -> int {
    let g = if invert {
        255 - gray
    } else {
        gray
    };
    spec_round_div(g * (n - 1), 255)
}

/// The ramp index never leaves the ramp.
pub proof fn lemma_ramp_index_bound(gray: int, n: int, invert: bool)
    requires
        0 <= gray <= 255,
        n >= 1,
    ensures
        0 <= spec_ramp_index(gray, n, invert) < n,
{
    let g = if invert {
        255 - gray
    } else {
        gray
    };
    assert(0 <= (2 * (g * (n - 1)) + 255) / (2 * 255int) < n) by (nonlinear_arith)
        requires
            0 <= g <= 255,
            n >= 1,
    ;
}

fn ramp_index(gray: u8, n: usize, invert: bool) -> (i: usize)
    requires
        n >= 1,
    ensures
        i as int == spec_ramp_index(gray as int, n as int, invert),
        i < n,
{
    let g: u128 = if invert {
        255 - (gray as u128)
    } else {
        gray as u128
    };
    proof {
        lemma_ramp_index_bound(gray as int, n as int, invert);
        assert(g * ((n as int - 1)) <= 255 * (n as int - 1) && 255 * (n as int - 1) < u128::MAX
            / 4) by (nonlinear_arith)
            requires
                g <= 255,
                1 <= n <= u64::MAX,
        ;
    }
    let num: u128 = g * ((n - 1) as u128);
    let i128: u128 = (2 * num + 255) / 510;
    i128 as usize
}

/// The character grid of a grayscale buffer: `h` rows of `w` ramp glyphs,
/// each row terminated by a newline.
pub open spec fn spec_char_grid(
    gray: Seq<u8>,
    w: int,
    h: int,
    ramp: Seq<char>,
    invert: bool,
) -> Seq<char> {
    Seq::new(
        (h * (w + 1)) as nat,
        |k: int|
            {
                let row = k / (w + 1);
                let col = k % (w + 1);
                if col == w {
                    '\n'
                } else {
                    ramp[spec_ramp_index(gray[row * w + col] as int, ramp.len() as int, invert)]
                }
            },
    )
}

fn build_char_grid(gray: &Vec<u8>, w: usize, h: usize, ramp: &Vec<char>, invert: bool) -> (out:
    Vec<char>)
    requires
        gray@.len() == w * h,
        ramp@.len() >= 1,
        w >= 1,
        h >= 1,
        (w + 1) * h <= usize::MAX,
    ensures
        out@ == spec_char_grid(gray@, w as int, h as int, ramp@, invert),
{
    let ghost grid = spec_char_grid(gray@, w as int, h as int, ramp@, invert);
    let gl = gray.len();
    let n = ramp.len();
    let mut out: Vec<char> = Vec::new();
    let mut y: usize = 0;
    proof {
        assert(h as int * (w as int + 1) == (w as int + 1) * h as int) by (nonlinear_arith);
        assert(grid.len() == h as int * (w as int + 1));
    }
    while y < h
        invariant
            y <= h,
            gl == w * h,
            gray@.len() == w * h,
            grid.len() == h as int * (w as int + 1),
            h as int * (w as int + 1) == (w as int + 1) * h as int,
            ramp@.len() == n,
            n >= 1,
            w >= 1,
            h >= 1,
            (w + 1) * h <= usize::MAX,
            grid == spec_char_grid(gray@, w as int, h as int, ramp@, invert),
            out@.len() == y * (w + 1),
            forall|k: int| 0 <= k < out@.len() ==> out@[k] == grid[k],
        decreases h - y,
    {
        proof {
            assert((y as int + 1) * (w as int + 1) <= (w + 1) * h && y as int * (w as int + 1) + w
                < (w + 1) * h) by (nonlinear_arith)
                requires
                    0 <= (y as int) && (y as int) < h,
                    w >= 1,
                    h >= 1,
            ;
        }
        let mut x: usize = 0;
        while x < w
            invariant
                x <= w,
                y < h,
                gl == w * h,
                gray@.len() == w * h,
                grid.len() == h as int * (w as int + 1),
                h as int * (w as int + 1) == (w as int + 1) * h as int,
                ramp@.len() == n,
                n >= 1,
                w >= 1,
                h >= 1,
                (w + 1) * h <= usize::MAX,
                (y + 1) * (w + 1) <= (w + 1) * h,
                grid == spec_char_grid(gray@, w as int, h as int, ramp@, invert),
                out@.len() == y * (w + 1) + x,
                forall|k: int| 0 <= k < out@.len() ==> out@[k] == grid[k],
            decreases w - x,
        {
            proof {
                assert(y as int * w + x < w * h && y as int * (w as int + 1) + x < (w + 1) * h)
                    by (nonlinear_arith)
                    requires
                        0 <= (x as int) && (x as int) < w,
                        0 <= (y as int) && (y as int) < h,
                        w >= 1,
                        h >= 1,
                ;
            }
            let gidx: usize = y * w + x;
            let ci = ramp_index(gray[gidx], n, invert);
            out.push(ramp[ci]);
            proof {
                let k = y as int * (w as int + 1) + x as int;
                vstd::arithmetic::div_mod::lemma_fundamental_div_mod_converse(
                    k,
                    w as int + 1,
                    y as int,
                    x as int,
                );
                assert(out@[k] == grid[k]);
            }
            x = x + 1;
        }
        out.push('\n');
        proof {
            let k = y as int * (w as int + 1) + w as int;
            vstd::arithmetic::div_mod::lemma_fundamental_div_mod_converse(
                k,
                w as int + 1,
                y as int,
                w as int,
            );
            assert(out@[k] == grid[k]);
            assert((y as int + 1) * (w as int + 1) == y as int * (w as int + 1) + (w as int + 1))
                by (nonlinear_arith)
            ;
        }
        y = y + 1;
    }
    proof {
        assert(out@ =~= grid);
    }
    out
}

/// The rendered ASCII art of an image: the character grid of the resampled,
/// grayscaled and optionally edge-enhanced pixels.
pub open spec fn spec_render_ascii(image: &Raster, config: &AsciiConfig) -> Seq<char> {
    let dims = spec_ascii_dims(image.spec_width(), image.spec_height(), config.target_width as int);
    let w = dims.0;
    let h = dims.1;
    let resized = lanczos_resample(image.spec_data(), image.spec_width(), image.spec_height(), w, h);
    let gray = spec_gray_pixels(resized, w * h);
    let processed = if config.edge_enhance {
        spec_sobel_enhance(gray, w, h)
    } else {
        gray
    };
    spec_char_grid(processed, w, h, spec_charset_chars(&config.charset), config.invert)
}

/// Whether the output grid for this image and target width fits in memory.
pub open spec fn spec_ascii_fits(image: &Raster, target: int) -> bool {
    let dims = spec_ascii_dims(image.spec_width(), image.spec_height(), target);
    let w = dims.0;
    let h = dims.1;
    w <= u32::MAX && h <= u32::MAX && 3 * w * h <= usize::MAX && (w + 1) * h <= usize::MAX
}

/// Render an image as ASCII art.
///
/// The output is one line per grid row, newline-terminated.  Rendering only
/// fails when the computed output grid would not fit in the address space.
pub fn render_ascii(image: &Raster, config: &AsciiConfig) -> (r: Result<String, RenderError>)
    requires
        image.wf(),
        charset_wf(&config.charset),
    ensures
        r is Ok <==> spec_ascii_fits(image, config.target_width as int),
        r matches Ok(s) ==> s@ == spec_render_ascii(image, config),
{
    proof {
        image.lemma_wf();
    }
    let (w, h) = calculate_dimensions(image, config.target_width);
    if w > u32::MAX as usize || h > u32::MAX as usize {
        return Err(RenderError::OutputTooLarge);
    }
    let pixels = match w.checked_mul(h) {
        Some(p) => p,
        None => {
            proof {
                assert(3 * (w as int) * (h as int) > usize::MAX) by (nonlinear_arith)
                    requires
                        (w as int) * (h as int) > usize::MAX,
                        w >= 1,
                        h >= 1,
                ;
            }
            return Err(RenderError::OutputTooLarge);
        },
    };
    // These products are only computed to prove that the buffers fit.
    let _bytes = match pixels.checked_mul(3) {
        Some(b) => b,
        None => {
            proof {
                assert(3 * (w as int) * (h as int) == (w as int) * (h as int) * 3)
                    by (nonlinear_arith)
                ;
            }
            return Err(RenderError::OutputTooLarge);
        },
    };
    let wp1 = match w.checked_add(1) {
        Some(x) => x,
        None => {
            proof {
                assert((w as int + 1) * (h as int) > usize::MAX) by (nonlinear_arith)
                    requires
                        w as int + 1 > usize::MAX,
                        h >= 1,
                ;
            }
            return Err(RenderError::OutputTooLarge);
        },
    };
    let _cells = match wp1.checked_mul(h) {
        Some(c) => c,
        None => {
            return Err(RenderError::OutputTooLarge);
        },
    };
    proof {
        assert(3 * (w as int) * (h as int) == (w as int) * (h as int) * 3) by (nonlinear_arith);
    }
    let resized = resize_rgb(image.data(), image.width(), image.height(), w, h);
    let gray = to_gray(&resized, pixels);
    let processed = if config.edge_enhance {
        apply_edge_enhancement(&gray, w, h)
    } else {
        gray
    };
    let ramp = chars_of(config.charset.chars());
    let out = build_char_grid(&processed, w, h, &ramp, config.invert);
    Ok(string_from_chars(&out))
}

/// The glyph for a scaled luminance value: the luminance clamped to [0, 1],
/// scaled onto the ramp and rounded to the nearest index.
pub open spec fn spec_map_luminance(l: int, ramp: Seq<char>) -> char {
    let c = if l > LUM_SCALE {
        LUM_SCALE as int
    } else {
        l
    };
    ramp[spec_round_div(c * (ramp.len() - 1), LUM_SCALE as int)]
}

/// Map a scaled luminance value (0 to `LUM_SCALE`) to a ramp character.
pub fn map_luminance_to_char(luminance: u32, charset: &CharacterSet) -> (c: char)
    requires
        charset_wf(charset),
    ensures
        c == spec_map_luminance(luminance as int, spec_charset_chars(charset)),
{
    let ramp = chars_of(charset.chars());
    let n = ramp.len();
    let l: u64 = if luminance > LUM_SCALE {
        LUM_SCALE as u64
    } else {
        luminance as u64
    };
    proof {
        assert((l as int) * (n as int - 1) <= 2550000 * (n as int - 1) && 2550000 * (n as int - 1)
            < u128::MAX / 8) by (nonlinear_arith)
            requires
                l <= 2550000,
                1 <= n <= u64::MAX,
        ;
    }
    let num: u128 = (l as u128) * ((n - 1) as u128);
    let idx128: u128 = (2 * num + LUM_SCALE as u128) / (2 * LUM_SCALE as u128);
    proof {
        assert(0 <= (2 * ((l as int) * (n as int - 1)) + 2550000) / (2 * 2550000int) < n)
            by (nonlinear_arith)
            requires
                0 <= l <= 2550000,
                1 <= n <= u64::MAX,
        ;
    }
    let idx: usize = idx128 as usize;
    ramp[idx]
}

/// The ramp ends are hit exactly: zero luminance maps to the first (darkest)
/// glyph and full luminance to the last (lightest), for every ramp.
pub proof fn lemma_map_luminance_ends(ramp: Seq<char>)
    requires
        ramp.len() >= 1,
    ensures
        spec_map_luminance(0, ramp) == ramp[0],
        spec_map_luminance(LUM_SCALE as int, ramp) == ramp[ramp.len() - 1],
{
    let n = ramp.len() as int;
    assert((2 * (0 * (n - 1)) + 2550000) / (2 * 2550000int) == 0) by (nonlinear_arith);
    assert((2 * (2550000 * (n - 1)) + 2550000) / (2 * 2550000int) == n - 1) by (nonlinear_arith)
        requires
            n >= 1,
    ;
}

/// The ramp ends are hit exactly for every character set with a usable
/// ramp: zero luminance maps to its first glyph and full luminance to its
/// last.
pub proof fn lemma_map_luminance_charset_ends(cs: &CharacterSet)
    requires
        charset_wf(cs),
    ensures
        spec_map_luminance(0, spec_charset_chars(cs)) == spec_charset_chars(cs)[0],
        spec_map_luminance(LUM_SCALE as int, spec_charset_chars(cs)) == spec_charset_chars(cs)[
            spec_charset_chars(cs).len() - 1],
{
    lemma_map_luminance_ends(spec_charset_chars(cs));
}

/// Rendering is deterministic: the same image and configuration always
/// yield the same output text.
pub proof fn lemma_render_ascii_deterministic(
    image1: &Raster,
    config1: &AsciiConfig,
    image2: &Raster,
    config2: &AsciiConfig,
)
    requires
        image1 == image2,
        config1 == config2,
    ensures
        spec_render_ascii(image1, config1) == spec_render_ascii(image2, config2),
{
}

/// With a ramp that holds no newline, every output line is exactly the grid
/// width: the first newline of the output stands at index `w`.
pub proof fn lemma_char_grid_line_width(
    gray: Seq<u8>,
    w: int,
    h: int,
    ramp: Seq<char>,
    invert: bool,
)
    requires
        w >= 1,
        h >= 1,
        ramp.len() >= 1,
        forall|i: int| 0 <= i < ramp.len() ==> ramp[i] != '\n',
        gray.len() == w * h,
    ensures
        spec_char_grid(gray, w, h, ramp, invert).len() == h * (w + 1),
        spec_char_grid(gray, w, h, ramp, invert)[w] == '\n',
        forall|i: int| 0 <= i < w ==> spec_char_grid(gray, w, h, ramp, invert)[i] != '\n',
{
    let grid = spec_char_grid(gray, w, h, ramp, invert);
    assert(h * (w + 1) >= w + 1 && w <= gray.len()) by (nonlinear_arith)
        requires
            w >= 1,
            h >= 1,
            gray.len() == w * h,
    ;
    assert(grid[w] == '\n') by {
        vstd::arithmetic::div_mod::lemma_fundamental_div_mod_converse(w, w + 1, 0, w);
    }
    assert forall|i: int| 0 <= i < w implies grid[i] != '\n' by {
        vstd::arithmetic::div_mod::lemma_fundamental_div_mod_converse(i, w + 1, 0, i);
        lemma_ramp_index_bound(gray[i] as int, ramp.len() as int, invert);
    }
}

/// Line structure of the rendered ASCII art: with a ramp that holds no
/// newline glyph, the first output line is exactly the grid width computed
/// for the requested target width, whatever the input image.
pub proof fn lemma_render_ascii_line_width(image: &Raster, config: &AsciiConfig)
    requires
        image.wf(),
        charset_wf(&config.charset),
        forall|i: int|
            0 <= i < spec_charset_chars(&config.charset).len() ==> spec_charset_chars(
                &config.charset,
            )[i] != '\n',
    ensures
        ({
            let dims = spec_ascii_dims(
                image.spec_width(),
                image.spec_height(),
                config.target_width as int,
            );
            let out = spec_render_ascii(image, config);
            &&& out.len() == dims.1 * (dims.0 + 1)
            &&& out[dims.0] == '\n'
            &&& forall|i: int| 0 <= i < dims.0 ==> out[i] != '\n'
        }),
{
    let dims = spec_ascii_dims(
        image.spec_width(),
        image.spec_height(),
        config.target_width as int,
    );
    let w = dims.0;
    let h = dims.1;
    let resized = lanczos_resample(
        image.spec_data(),
        image.spec_width(),
        image.spec_height(),
        w,
        h,
    );
    let gray = spec_gray_pixels(resized, w * h);
    let processed = if config.edge_enhance {
        spec_sobel_enhance(gray, w, h)
    } else {
        gray
    };
    assert(processed.len() == w * h);
    lemma_char_grid_line_width(processed, w, h, spec_charset_chars(&config.charset), config.invert);
}

} // verus!
