//! Unicode art rendering engine.
//!
//! Converts images to Unicode art using block characters with color support:
//! whole blocks chosen by luminance, half blocks with independent foreground
//! and background colors for double vertical resolution, or Braille dot
//! patterns for a 2x4 monochrome grid per character cell.

use vstd::prelude::*;

use crate::capabilities::ColorSupport;
use crate::color::{
    format_bg_color, format_fg_color, reset_seq, rgb_to_luminance_bt601, spec_bg_color,
    spec_fg_color, spec_luminance_bt601, spec_round_div, Rgb, LUM_SCALE,
};
use crate::ascii_art::RenderError;
use crate::raster::{lanczos_resample, resize_rgb, Raster};
use crate::ascii_art::spec_gray_pixels;
use crate::ascii_art::to_gray;
use crate::text::string_from_chars;

verus! {

/// Unicode rendering mode.
#[derive(Debug, Clone, Copy, PartialEq, Eq, Structural)]
pub enum UnicodeMode {
    /// Simple block characters: " ░▒▓█" (5 levels)
    Blocks,
    /// Half-block optimization for 2x vertical resolution
    HalfBlocks,
    /// Braille patterns for 2x4 resolution
    Braille,
}

impl Default for UnicodeMode {
    fn default() -> (r: Self)
        ensures
            r == UnicodeMode::HalfBlocks,
    {
        UnicodeMode::HalfBlocks
    }
}

impl UnicodeMode {
    pub fn name(&self) -> (r: &'static str)
        ensures
            r@ == spec_unicode_mode_name(*self),
    {
        match self {
            UnicodeMode::Blocks => "Blocks",
            UnicodeMode::HalfBlocks => "Half-Blocks",
            UnicodeMode::Braille => "Braille",
        }
    }

    pub fn next(&self) -> (r: Self)
        ensures
            r == spec_unicode_mode_next(*self),
    {
        match self {
            UnicodeMode::Blocks => UnicodeMode::HalfBlocks,
            UnicodeMode::HalfBlocks => UnicodeMode::Braille,
            UnicodeMode::Braille => UnicodeMode::Blocks,
        }
    }

    pub fn prev(&self) -> (r: Self)
        ensures
            r == spec_unicode_mode_prev(*self),
            spec_unicode_mode_next(r) == *self,
    {
        match self {
            UnicodeMode::Blocks => UnicodeMode::Braille,
            UnicodeMode::HalfBlocks => UnicodeMode::Blocks,
            UnicodeMode::Braille => UnicodeMode::HalfBlocks,
        }
    }
}

pub open spec fn spec_unicode_mode_name(m: UnicodeMode) -> Seq<char> {
    match m {
        UnicodeMode::Blocks => "Blocks"@,
        UnicodeMode::HalfBlocks => "Half-Blocks"@,
        UnicodeMode::Braille => "Braille"@,
    }
}

pub open spec fn spec_unicode_mode_next(m: UnicodeMode) -> UnicodeMode {
    match m {
        UnicodeMode::Blocks => UnicodeMode::HalfBlocks,
        UnicodeMode::HalfBlocks => UnicodeMode::Braille,
        UnicodeMode::Braille => UnicodeMode::Blocks,
    }
}

pub open spec fn spec_unicode_mode_prev(m: UnicodeMode) -> UnicodeMode {
    match m {
        UnicodeMode::Blocks => UnicodeMode::Braille,
        UnicodeMode::HalfBlocks => UnicodeMode::Blocks,
        UnicodeMode::Braille => UnicodeMode::HalfBlocks,
    }
}

/// Configuration for Unicode rendering.
#[derive(Debug, Clone, Copy, PartialEq, Eq, Structural)]
pub struct UnicodeConfig {
    pub target_width: usize,
    pub mode: UnicodeMode,
    pub color_mode: ColorSupport,
}

impl Default for UnicodeConfig {
    fn default() -> (r: Self)
        ensures
            r == (UnicodeConfig {
                target_width: 80usize,
                mode: UnicodeMode::HalfBlocks,
                color_mode: ColorSupport::TrueColor,
            }),
    {
        Self { target_width: 80, mode: UnicodeMode::HalfBlocks, color_mode: ColorSupport::TrueColor }
    }
}

/// Output grid dimensions shared by the block modes: the requested width,
/// and the aspect-corrected height with the mode's vertical multiplier
/// folded into the 0.5 character-aspect factor; both clamped to at least
/// one, the height also to the address space.
pub open spec fn spec_unicode_dims(img_w: int, img_h: int, target: int, vm: int) -> (int, int) {
    let w = if target >= 1 {
        target
    } else {
        1int
    };
    let raw = spec_round_div(target * img_h * vm, 2 * img_w);
    let clamped = if raw > usize::MAX {
        usize::MAX as int
    } else {
        raw
    };
    let h = if clamped >= 1 {
        clamped
    } else {
        1int
    };
    (w, h)
}

fn unicode_dimensions(image: &Raster, target_width: usize, vm: usize) -> (dims: (usize, usize))
    requires
        image.wf(),
        1 <= vm <= 4,
    ensures
        (dims.0 as int, dims.1 as int) == spec_unicode_dims(
            image.spec_width(),
            image.spec_height(),
            target_width as int,
            vm as int,
        ),
        dims.0 >= 1,
        dims.1 >= 1,
{
    let iw = image.width();
    let ih = image.height();
    proof {
        image.lemma_wf();
        assert((target_width as int) * (ih as int) < u128::MAX / 64 && (target_width as int) * (
        ih as int) * (vm as int) < u128::MAX / 8 && 0 <= (target_width as int) * (ih as int))
            by (nonlinear_arith)
            requires
                target_width <= u64::MAX,
                ih <= u32::MAX,
                1 <= vm <= 4,
        ;
    }
    let num: u128 = (target_width as u128) * (ih as u128) * (vm as u128);
    let den: u128 = 2 * (iw as u128);
    let raw: u128 = (2 * num + den) / (2 * den);
    let clamped: usize = if raw > usize::MAX as u128 {
        usize::MAX
    } else {
        raw as usize
    };
    let w: usize = if target_width >= 1 {
        target_width
    } else {
        1
    };
    let h: usize = if clamped >= 1 {
        clamped
    } else {
        1
    };
    (w, h)
}

/// The block glyph for a luminance level: one of the five glyphs from blank
/// to full block, by the nearest of `luminance * 4`.
pub open spec fn spec_block_char(lum601: int) -> char {
    let idx = spec_round_div(lum601 * 4, LUM_SCALE as int);
    seq![' ', '░', '▒', '▓', '█'][idx]
}

/// The RGB triple of the pixel at (x, y) of a row-major RGB byte buffer.
pub open spec fn spec_buf_pixel(data: Seq<u8>, w: int, x: int, y: int) -> Rgb {
    Rgb { r: data[3 * (y * w + x)], g: data[3 * (y * w + x) + 1], b: data[3 * (y * w + x) + 2] }
}

fn buf_pixel(data: &Vec<u8>, w: usize, h: usize, x: usize, y: usize) -> (p: Rgb)
    requires
        data@.len() == 3 * w * h,
        x < w,
        y < h,
    ensures
        p == spec_buf_pixel(data@, w as int, x as int, y as int),
{
    let dl = data.len();
    proof {
        assert((y as int) * w + x < w * h && 0 <= (y as int) * w + x && 3 * ((y as int) * w + x)
            + 2 < 3 * w * h) by (nonlinear_arith)
            requires
                0 <= (x as int) && (x as int) < w,
                0 <= (y as int) && (y as int) < h,
        ;
    }
    let base: usize = 3 * (y * w + x);
    Rgb { r: data[base], g: data[base + 1], b: data[base + 2] }
}

/// One character cell of the Blocks rendering: the block glyph for the
/// pixel's BT.601 luminance, wrapped in a foreground escape and a reset when
/// color is enabled.
pub open spec fn spec_block_cell(data: Seq<u8>, w: int, x: int, y: int, color: ColorSupport) -> Seq<
    char,
> {
    let rgb = spec_buf_pixel(data, w, x, y);
    let ch = spec_block_char(spec_luminance_bt601(rgb.r as int, rgb.g as int, rgb.b as int));
    if color != ColorSupport::NoColor {
        spec_fg_color(rgb, color) + seq![ch] + reset_seq()
    } else {
        seq![ch]
    }
}

/// The first `x` cells of row `y` of the Blocks rendering.
pub open spec fn spec_blocks_row(data: Seq<u8>, w: int, y: int, color: ColorSupport, x: int) -> Seq<
    char,
>
    decreases x,
{
    if x <= 0 {
        Seq::empty()
    } else {
        spec_blocks_row(data, w, y, color, x - 1) + spec_block_cell(data, w, x - 1, y, color)
    }
}

/// The first `y` newline-terminated rows of the Blocks rendering.
pub open spec fn spec_blocks_rows(data: Seq<u8>, w: int, color: ColorSupport, y: int) -> Seq<char>
    decreases y,
{
    if y <= 0 {
        Seq::empty()
    } else {
        spec_blocks_rows(data, w, color, y - 1) + spec_blocks_row(data, w, y - 1, color, w)
            + seq!['\n']
    }
}

/// One character cell of the HalfBlocks rendering: the upper half block with
/// the top pixel as foreground and the pixel below it as background.
pub open spec fn spec_half_cell(data: Seq<u8>, w: int, x: int, y: int, color: ColorSupport) -> Seq<
    char,
> {
    let top = spec_buf_pixel(data, w, x, 2 * y);
    let bottom = spec_buf_pixel(data, w, x, 2 * y + 1);
    if color != ColorSupport::NoColor {
        spec_fg_color(top, color) + spec_bg_color(bottom, color) + seq!['▀'] + reset_seq()
    } else {
        seq!['▀']
    }
}

pub open spec fn spec_half_row(data: Seq<u8>, w: int, y: int, color: ColorSupport, x: int) -> Seq<
    char,
>
    decreases x,
{
    if x <= 0 {
        Seq::empty()
    } else {
        spec_half_row(data, w, y, color, x - 1) + spec_half_cell(data, w, x - 1, y, color)
    }
}

pub open spec fn spec_half_rows(data: Seq<u8>, w: int, color: ColorSupport, y: int) -> Seq<char>
    decreases y,
{
    if y <= 0 {
        Seq::empty()
    } else {
        spec_half_rows(data, w, color, y - 1) + spec_half_row(data, w, y - 1, color, w)
            + seq!['\n']
    }
}

/// One Braille dot: the dot's bit value when the grayscale pixel is above
/// the threshold of 128.
pub open spec fn spec_braille_dot(gray: Seq<u8>, pw: int, px: int, py: int, bit: int) -> int {
    if gray[py * pw + px] > 128 {
        bit
    } else {
        0
    }
}

/// The Braille pattern bits of the 2x4 pixel block of cell (cx, cy), with
/// the fixed dot-to-bit table of the Unicode Braille block.
pub open spec fn spec_braille_bits(gray: Seq<u8>, pw: int, cx: int, cy: int) -> int {
    spec_braille_dot(gray, pw, 2 * cx, 4 * cy, 0x01) + spec_braille_dot(
        gray,
        pw,
        2 * cx + 1,
        4 * cy,
        0x08,
    ) + spec_braille_dot(gray, pw, 2 * cx, 4 * cy + 1, 0x02) + spec_braille_dot(
        gray,
        pw,
        2 * cx + 1,
        4 * cy + 1,
        0x10,
    ) + spec_braille_dot(gray, pw, 2 * cx, 4 * cy + 2, 0x04) + spec_braille_dot(
        gray,
        pw,
        2 * cx + 1,
        4 * cy + 2,
        0x20,
    ) + spec_braille_dot(gray, pw, 2 * cx, 4 * cy + 3, 0x40) + spec_braille_dot(
        gray,
        pw,
        2 * cx + 1,
        4 * cy + 3,
        0x80,
    )
}

/// The Braille character of cell (cx, cy): the pattern bits added to the
/// base code point U+2800.
pub open spec fn spec_braille_char(gray: Seq<u8>, pw: int, cx: int, cy: int) -> char {
    ((0x2800 + spec_braille_bits(gray, pw, cx, cy)) as u32) as char
}

pub open spec fn spec_braille_row(gray: Seq<u8>, pw: int, cy: int, cx: int) -> Seq<char>
    decreases cx,
{
    if cx <= 0 {
        Seq::empty()
    } else {
        spec_braille_row(gray, pw, cy, cx - 1).push(spec_braille_char(gray, pw, cx - 1, cy))
    }
}

pub open spec fn spec_braille_rows(gray: Seq<u8>, pw: int, ow: int, cy: int) -> Seq<char>
    decreases cy,
{
    if cy <= 0 {
        Seq::empty()
    } else {
        spec_braille_rows(gray, pw, ow, cy - 1) + spec_braille_row(gray, pw, cy - 1, ow)
            + seq!['\n']
    }
}

/// Braille output grid dimensions: the requested width, and the height from
/// the image's aspect ratio over the 2x4 dot cell, both clamped to at least
/// one (the height also to the address space).
pub open spec fn spec_braille_dims(img_w: int, img_h: int, target: int) -> (int, int) {
    let ow = if target >= 1 {
        target
    } else {
        1int
    };
    let ph_raw = spec_round_div(2 * ow * img_h, img_w);
    let ph = if ph_raw > usize::MAX {
        usize::MAX as int
    } else {
        ph_raw
    };
    let oh_raw = (ph + 3) / 4;
    let oh = if oh_raw >= 1 {
        oh_raw
    } else {
        1int
    };
    (ow, oh)
}

/// Whether the Blocks output grid fits in memory.
pub open spec fn spec_blocks_fits(image: &Raster, target: int) -> bool {
    let dims = spec_unicode_dims(image.spec_width(), image.spec_height(), target, 1);
    dims.0 <= u32::MAX && dims.1 <= u32::MAX && 3 * dims.0 * dims.1 <= usize::MAX
}

/// The Blocks rendering of an image.
pub open spec fn spec_render_blocks(image: &Raster, target: int, color: ColorSupport) -> Seq<
    char,
> {
    let dims = spec_unicode_dims(image.spec_width(), image.spec_height(), target, 1);
    let resized = lanczos_resample(
        image.spec_data(),
        image.spec_width(),
        image.spec_height(),
        dims.0,
        dims.1,
    );
    spec_blocks_rows(resized, dims.0, color, dims.1)
}

fn block_char_str(lum601: u32) -> (r: &'static str)
    requires
        lum601 <= LUM_SCALE,
    ensures
        r@ == seq![spec_block_char(lum601 as int)],
{
    let idx: u32 = (2 * (lum601 * 4) + LUM_SCALE) / (2 * LUM_SCALE);
    proof {
        assert((2 * ((lum601 as int) * 4) + 2550000) / (2 * 2550000int) <= 4) by (nonlinear_arith)
            requires
                lum601 <= 2550000,
        ;
        reveal_strlit(" ");
        reveal_strlit("░");
        reveal_strlit("▒");
        reveal_strlit("▓");
        reveal_strlit("█");
    }
    let r = if idx == 0 {
        " "
    } else if idx == 1 {
        "░"
    } else if idx == 2 {
        "▒"
    } else if idx == 3 {
        "▓"
    } else {
        "█"
    };
    proof {
        assert(r@ =~= seq![spec_block_char(lum601 as int)]);
    }
    r
}

/// Render using simple block characters with color.
fn render_blocks(image: &Raster, config: &UnicodeConfig) -> (r: Result<String, RenderError>)
    requires
        image.wf(),
    ensures
        r is Ok <==> spec_blocks_fits(image, config.target_width as int),
        r matches Ok(s) ==> s@ == spec_render_blocks(
            image,
            config.target_width as int,
            config.color_mode,
        ),
{
    proof {
        image.lemma_wf();
    }
    let (w, h) = unicode_dimensions(image, config.target_width, 1);
    if w > u32::MAX as usize || h > u32::MAX as usize {
        return Err(RenderError::OutputTooLarge);
    }
    let pixels = match w.checked_mul(h) {
        Some(p) => p,
        None => {
            proof {
                assert(3 * (w as int) * (h as int) > usize::MAX) by (nonlinear_arith)
                    requires
                        (w as int) * (h as int) > usize::MAX,
                        w >= 1,
                        h >= 1,
                ;
            }
            return Err(RenderError::OutputTooLarge);
        },
    };
    if pixels > usize::MAX / 3 {
        proof {
            assert(3 * (w as int) * (h as int) == (w as int) * (h as int) * 3 && ((w as int) * (
            h as int) > usize::MAX / 3 ==> 3 * (w as int) * (h as int) > usize::MAX))
                by (nonlinear_arith)
            ;
        }
        return Err(RenderError::OutputTooLarge);
    }
    proof {
        assert(3 * (w as int) * (h as int) == (w as int) * (h as int) * 3 && ((w as int) * (
        h as int) <= usize::MAX / 3 ==> 3 * (w as int) * (h as int) <= usize::MAX))
            by (nonlinear_arith)
        ;
    }
    let resized = resize_rgb(image.data(), image.width(), image.height(), w, h);
    let ghost rdata = resized@;
    let color = config.color_mode;
    let no_color = match color {
        ColorSupport::NoColor => true,
        _ => false,
    };
    let mut out = String::new();
    let mut y: usize = 0;
    while y < h
        invariant
            y <= h,
            resized@ == rdata,
            rdata.len() == 3 * w * h,
            w >= 1,
            h >= 1,
            no_color == (color is NoColor),
            out@ == spec_blocks_rows(rdata, w as int, color, y as int),
        decreases h - y,
    {
        let mut x: usize = 0;
        while x < w
            invariant
                x <= w,
                y < h,
                resized@ == rdata,
                rdata.len() == 3 * w * h,
                w >= 1,
                h >= 1,
                no_color == (color is NoColor),
                out@ == spec_blocks_rows(rdata, w as int, color, y as int) + spec_blocks_row(
                    rdata,
                    w as int,
                    y as int,
                    color,
                    x as int,
                ),
            decreases w - x,
        {
            let rgb = buf_pixel(&resized, w, h, x, y);
            let lum = rgb_to_luminance_bt601(rgb.r, rgb.g, rgb.b);
            let glyph = block_char_str(lum);
            if no_color {
                out.append(glyph);
            } else {
                let fg = format_fg_color(rgb, color);
                out.append(fg.as_str());
                out.append(glyph);
                out.append(crate::color::ansi_reset());
            }
            proof {
                assert(spec_blocks_row(rdata, w as int, y as int, color, x as int + 1)
                    == spec_blocks_row(rdata, w as int, y as int, color, x as int)
                    + spec_block_cell(rdata, w as int, x as int, y as int, color));
            }
            x = x + 1;
        }
        out.append("\n");
        proof {
            reveal_strlit("\n");
            assert("\n"@ =~= seq!['\n']);
            assert(spec_blocks_rows(rdata, w as int, color, y as int + 1) == spec_blocks_rows(
                rdata,
                w as int,
                color,
                y as int,
            ) + spec_blocks_row(rdata, w as int, y as int, color, w as int) + seq!['\n']);
        }
        y = y + 1;
    }
    Ok(out)
}

/// Whether the HalfBlocks output grid fits in memory.
pub open spec fn spec_half_fits(image: &Raster, target: int) -> bool {
    let dims = spec_unicode_dims(image.spec_width(), image.spec_height(), target, 2);
    dims.0 <= u32::MAX && 2 * dims.1 <= u32::MAX && 3 * dims.0 * (2 * dims.1) <= usize::MAX
}

/// The HalfBlocks rendering of an image.
pub open spec fn spec_render_half_blocks(image: &Raster, target: int, color: ColorSupport) -> Seq<
    char,
> {
    let dims = spec_unicode_dims(image.spec_width(), image.spec_height(), target, 2);
    let resized = lanczos_resample(
        image.spec_data(),
        image.spec_width(),
        image.spec_height(),
        dims.0,
        2 * dims.1,
    );
    spec_half_rows(resized, dims.0, color, dims.1)
}

/// Render using half-block characters for 2x vertical resolution.
fn render_half_blocks(image: &Raster, config: &UnicodeConfig) -> (r: Result<String, RenderError>)
    requires
        image.wf(),
    ensures
        r is Ok <==> spec_half_fits(image, config.target_width as int),
        r matches Ok(s) ==> s@ == spec_render_half_blocks(
            image,
            config.target_width as int,
            config.color_mode,
        ),
{
    proof {
        image.lemma_wf();
    }
    let (w, h) = unicode_dimensions(image, config.target_width, 2);
    if w > u32::MAX as usize || h > u32::MAX as usize / 2 {
        return Err(RenderError::OutputTooLarge);
    }
    let actual_height: usize = 2 * h;
    let pixels = match w.checked_mul(actual_height) {
        Some(p) => p,
        None => {
            proof {
                assert(3 * (w as int) * (2 * (h as int)) > usize::MAX) by (nonlinear_arith)
                    requires
                        (w as int) * (2 * (h as int)) > usize::MAX,
                        w >= 1,
                        h >= 1,
                ;
            }
            return Err(RenderError::OutputTooLarge);
        },
    };
    if pixels > usize::MAX / 3 {
        proof {
            assert(3 * (w as int) * (2 * (h as int)) == (w as int) * (2 * (h as int)) * 3 && ((
            w as int) * (2 * (h as int)) > usize::MAX / 3 ==> 3 * (w as int) * (2 * (h as int))
                > usize::MAX)) by (nonlinear_arith)
            ;
        }
        return Err(RenderError::OutputTooLarge);
    }
    proof {
        assert(3 * (w as int) * (2 * (h as int)) == (w as int) * (2 * (h as int)) * 3 && ((
        w as int) * (2 * (h as int)) <= usize::MAX / 3 ==> 3 * (w as int) * (2 * (h as int))
            <= usize::MAX)) by (nonlinear_arith)
        ;
    }
    let resized = resize_rgb(image.data(), image.width(), image.height(), w, actual_height);
    let ghost rdata = resized@;
    let color = config.color_mode;
    let no_color = match color {
        ColorSupport::NoColor => true,
        _ => false,
    };
    let mut out = String::new();
    let mut y: usize = 0;
    while y < h
        invariant
            y <= h,
            resized@ == rdata,
            rdata.len() == 3 * w * (2 * h),
            w >= 1,
            h >= 1,
            2 * h <= usize::MAX,
            no_color == (color is NoColor),
            out@ == spec_half_rows(rdata, w as int, color, y as int),
        decreases h - y,
    {
        let mut x: usize = 0;
        while x < w
            invariant
                x <= w,
                y < h,
                resized@ == rdata,
                rdata.len() == 3 * w * (2 * h),
                w >= 1,
                h >= 1,
                2 * h <= usize::MAX,
                no_color == (color is NoColor),
                out@ == spec_half_rows(rdata, w as int, color, y as int) + spec_half_row(
                    rdata,
                    w as int,
                    y as int,
                    color,
                    x as int,
                ),
            decreases w - x,
        {
            proof {
                reveal_strlit("▀");
                assert("▀"@ =~= seq!['▀']);
            }
            if no_color {
                out.append("▀");
            } else {
                let top = buf_pixel(&resized, w, 2 * h, x, 2 * y);
                let bottom = buf_pixel(&resized, w, 2 * h, x, 2 * y + 1);
                let fg = format_fg_color(top, color);
                let bg = format_bg_color(bottom, color);
                out.append(fg.as_str());
                out.append(bg.as_str());
                out.append("▀");
                out.append(crate::color::ansi_reset());
            }
            proof {
                assert(spec_half_row(rdata, w as int, y as int, color, x as int + 1)
                    == spec_half_row(rdata, w as int, y as int, color, x as int) + spec_half_cell(
                    rdata,
                    w as int,
                    x as int,
                    y as int,
                    color,
                ));
            }
            x = x + 1;
        }
        out.append("\n");
        proof {
            reveal_strlit("\n");
            assert("\n"@ =~= seq!['\n']);
            assert(spec_half_rows(rdata, w as int, color, y as int + 1) == spec_half_rows(
                rdata,
                w as int,
                color,
                y as int,
            ) + spec_half_row(rdata, w as int, y as int, color, w as int) + seq!['\n']);
        }
        y = y + 1;
    }
    Ok(out)
}

/// Whether the Braille pixel grid fits in memory.
pub open spec fn spec_braille_fits(image: &Raster, target: int) -> bool {
    let dims = spec_braille_dims(image.spec_width(), image.spec_height(), target);
    2 * dims.0 <= u32::MAX && 4 * dims.1 <= u32::MAX && 3 * (2 * dims.0) * (4 * dims.1)
        <= usize::MAX
}

/// The Braille rendering of an image.
pub open spec fn spec_render_braille(image: &Raster, target: int) -> Seq<char> {
    let dims = spec_braille_dims(image.spec_width(), image.spec_height(), target);
    let pw = 2 * dims.0;
    let gh = 4 * dims.1;
    let resized = lanczos_resample(
        image.spec_data(),
        image.spec_width(),
        image.spec_height(),
        pw,
        gh,
    );
    let gray = spec_gray_pixels(resized, pw * gh);
    spec_braille_rows(gray, pw, dims.0, dims.1)
}

fn braille_dimensions(image: &Raster, target_width: usize) -> (dims: (usize, usize))
    requires
        image.wf(),
    ensures
        (dims.0 as int, dims.1 as int) == spec_braille_dims(
            image.spec_width(),
            image.spec_height(),
            target_width as int,
        ),
        dims.0 >= 1,
        dims.1 >= 1,
{
    let iw = image.width();
    let ih = image.height();
    let ow: usize = if target_width >= 1 {
        target_width
    } else {
        1
    };
    proof {
        image.lemma_wf();
        assert(0 <= 2 * (ow as int) * (ih as int) < u128::MAX / 8) by (nonlinear_arith)
            requires
                1 <= ow <= u64::MAX,
                1 <= ih <= u32::MAX,
        ;
    }
    let num: u128 = 2 * (ow as u128) * (ih as u128);
    let den: u128 = iw as u128;
    let raw: u128 = (2 * num + den) / (2 * den);
    let ph: u128 = if raw > usize::MAX as u128 {
        usize::MAX as u128
    } else {
        raw
    };
    let oh_raw: u128 = (ph + 3) / 4;
    let oh: usize = if oh_raw >= 1 {
        oh_raw as usize
    } else {
        1
    };
    (ow, oh)
}

fn braille_cell(gray: &Vec<u8>, pw: usize, gh: usize, cx: usize, cy: usize) -> (c: char)
    requires
        gray@.len() == pw * gh,
        2 * cx + 1 < pw,
        4 * cy + 3 < gh,
    ensures
        c == spec_braille_char(gray@, pw as int, cx as int, cy as int),
{
    let gl = gray.len();
    proof {
        assert((4 * (cy as int) + 3) * pw + 2 * (cx as int) + 1 < pw * gh && (4 * (cy as int))
            * pw >= 0 && (4 * (cy as int)) * pw <= (4 * (cy as int) + 1) * pw && (4 * (
        cy as int) + 1) * pw <= (4 * (cy as int) + 2) * pw && (4 * (cy as int) + 2) * pw <= (4
            * (cy as int) + 3) * pw) by (nonlinear_arith)
            requires
                0 <= (cx as int) && 2 * (cx as int) + 1 < pw,
                0 <= (cy as int) && 4 * (cy as int) + 3 < gh,
        ;
    }
    let px0: usize = 2 * cx;
    let px1: usize = 2 * cx + 1;
    let mut bits: u32 = 0;
    if gray[(4 * cy) * pw + px0] > 128 {
        bits = bits + 0x01;
    }
    if gray[(4 * cy) * pw + px1] > 128 {
        bits = bits + 0x08;
    }
    if gray[(4 * cy + 1) * pw + px0] > 128 {
        bits = bits + 0x02;
    }
    if gray[(4 * cy + 1) * pw + px1] > 128 {
        bits = bits + 0x10;
    }
    if gray[(4 * cy + 2) * pw + px0] > 128 {
        bits = bits + 0x04;
    }
    if gray[(4 * cy + 2) * pw + px1] > 128 {
        bits = bits + 0x20;
    }
    if gray[(4 * cy + 3) * pw + px0] > 128 {
        bits = bits + 0x40;
    }
    if gray[(4 * cy + 3) * pw + px1] > 128 {
        bits = bits + 0x80;
    }
    let code: u32 = 0x2800 + bits;
    match char::from_u32(code) {
        Some(c) => {
            proof {
                vstd::utf8::char_u32_cast(c, code);
            }
            c
        },
        None => ' ',
    }
}

/// Render using Braille patterns for 2x4 resolution.
fn render_braille(image: &Raster, config: &UnicodeConfig) -> (r: Result<String, RenderError>)
    requires
        image.wf(),
    ensures
        r is Ok <==> spec_braille_fits(image, config.target_width as int),
        r matches Ok(s) ==> s@ == spec_render_braille(image, config.target_width as int),
{
    proof {
        image.lemma_wf();
    }
    let (ow, oh) = braille_dimensions(image, config.target_width);
    if ow > u32::MAX as usize / 2 || oh > u32::MAX as usize / 4 {
        return Err(RenderError::OutputTooLarge);
    }
    let pw: usize = 2 * ow;
    let gh: usize = 4 * oh;
    let pixels = match pw.checked_mul(gh) {
        Some(p) => p,
        None => {
            proof {
                assert(3 * (pw as int) * (gh as int) > usize::MAX) by (nonlinear_arith)
                    requires
                        (pw as int) * (gh as int) > usize::MAX,
                        pw >= 1,
                        gh >= 1,
                ;
            }
            return Err(RenderError::OutputTooLarge);
        },
    };
    if pixels > usize::MAX / 3 {
        proof {
            assert(3 * (pw as int) * (gh as int) == (pw as int) * (gh as int) * 3 && ((pw as int)
                * (gh as int) > usize::MAX / 3 ==> 3 * (pw as int) * (gh as int) > usize::MAX))
                by (nonlinear_arith)
            ;
        }
        return Err(RenderError::OutputTooLarge);
    }
    proof {
        assert(3 * (pw as int) * (gh as int) == (pw as int) * (gh as int) * 3 && ((pw as int) * (
        gh as int) <= usize::MAX / 3 ==> 3 * (pw as int) * (gh as int) <= usize::MAX))
            by (nonlinear_arith)
        ;
    }
    let resized = resize_rgb(image.data(), image.width(), image.height(), pw, gh);
    let gray = to_gray(&resized, pixels);
    let ghost gdata = gray@;
    let mut out: Vec<char> = Vec::new();
    let mut cy: usize = 0;
    while cy < oh
        invariant
            cy <= oh,
            gray@ == gdata,
            gdata.len() == pw * gh,
            pw == 2 * ow,
            gh == 4 * oh,
            ow >= 1,
            oh >= 1,
            out@ == spec_braille_rows(gdata, pw as int, ow as int, cy as int),
        decreases oh - cy,
    {
        let mut cx: usize = 0;
        while cx < ow
            invariant
                cx <= ow,
                cy < oh,
                gray@ == gdata,
                gdata.len() == pw * gh,
                pw == 2 * ow,
                gh == 4 * oh,
                ow >= 1,
                oh >= 1,
                out@ == spec_braille_rows(gdata, pw as int, ow as int, cy as int)
                    + spec_braille_row(gdata, pw as int, cy as int, cx as int),
            decreases ow - cx,
        {
            let c = braille_cell(&gray, pw, gh, cx, cy);
            out.push(c);
            proof {
                assert(spec_braille_row(gdata, pw as int, cy as int, cx as int + 1)
                    == spec_braille_row(gdata, pw as int, cy as int, cx as int).push(
                    spec_braille_char(gdata, pw as int, cx as int, cy as int),
                ));
            }
            cx = cx + 1;
        }
        out.push('\n');
        proof {
            assert(spec_braille_rows(gdata, pw as int, ow as int, cy as int + 1)
                == spec_braille_rows(gdata, pw as int, ow as int, cy as int) + spec_braille_row(
                gdata,
                pw as int,
                cy as int,
                ow as int,
            ) + seq!['\n']);
            assert(out@ =~= spec_braille_rows(gdata, pw as int, ow as int, cy as int + 1));
        }
        cy = cy + 1;
    }
    Ok(string_from_chars(&out))
}

/// Whether the output grid for this image and configuration fits in memory.
pub open spec fn spec_unicode_fits(image: &Raster, config: &UnicodeConfig) -> bool {
    match config.mode {
        UnicodeMode::Blocks => spec_blocks_fits(image, config.target_width as int),
        UnicodeMode::HalfBlocks => spec_half_fits(image, config.target_width as int),
        UnicodeMode::Braille => spec_braille_fits(image, config.target_width as int),
    }
}

/// The Unicode art rendering of an image under a configuration.
pub open spec fn spec_render_unicode(image: &Raster, config: &UnicodeConfig) -> Seq<char> {
    match config.mode {
        UnicodeMode::Blocks => spec_render_blocks(
            image,
            config.target_width as int,
            config.color_mode,
        ),
        UnicodeMode::HalfBlocks => spec_render_half_blocks(
            image,
            config.target_width as int,
            config.color_mode,
        ),
        UnicodeMode::Braille => spec_render_braille(image, config.target_width as int),
    }
}

/// Render an image as Unicode art.
///
/// The output is one line per grid row, newline-terminated.  Rendering only
/// fails when the computed output grid would not fit in the address space.
pub fn render_unicode(image: &Raster, config: &UnicodeConfig) -> (r: Result<String, RenderError>)
    requires
        image.wf(),
    ensures
        r is Ok <==> spec_unicode_fits(image, config),
        r matches Ok(s) ==> s@ == spec_render_unicode(image, config),
{
    match config.mode {
        UnicodeMode::Blocks => render_blocks(image, config),
        UnicodeMode::HalfBlocks => render_half_blocks(image, config),
        UnicodeMode::Braille => render_braille(image, config),
    }
}

/// Rendering is deterministic: the same image and configuration always
/// yield the same output text.
pub proof fn lemma_render_unicode_deterministic(
    image1: &Raster,
    config1: &UnicodeConfig,
    image2: &Raster,
    config2: &UnicodeConfig,
)
    requires
        image1 == image2,
        config1 == config2,
    ensures
        spec_render_unicode(image1, config1) == spec_render_unicode(image2, config2),
{
}

/// Without color, every cell of the Blocks rendering is a single block
/// glyph, none of which is a newline, so each output line is exactly the
/// grid width.
pub proof fn lemma_blocks_row_width(data: Seq<u8>, w: int, y: int, x: int)
    requires
        0 <= x,
    ensures
        spec_blocks_row(data, w, y, ColorSupport::NoColor, x).len() == x,
        forall|i: int|
            0 <= i < x ==> #[trigger] spec_blocks_row(data, w, y, ColorSupport::NoColor, x)[i]
                != '\n',
    decreases x,
{
    if x > 0 {
        lemma_blocks_row_width(data, w, y, x - 1);
        let cell = spec_block_cell(data, w, x - 1, y, ColorSupport::NoColor);
        let lum = spec_luminance_bt601(
            spec_buf_pixel(data, w, x - 1, y).r as int,
            spec_buf_pixel(data, w, x - 1, y).g as int,
            spec_buf_pixel(data, w, x - 1, y).b as int,
        );
        assert(0 <= spec_round_div(lum * 4, LUM_SCALE as int) <= 4) by (nonlinear_arith)
            requires
                0 <= lum <= 2550000,
        ;
        assert(cell.len() == 1 && cell[0] != '\n');
    }
}

/// The first line of an uncolored Blocks rendering is exactly the grid
/// width: the first newline stands at index `w`.
pub proof fn lemma_blocks_first_line(data: Seq<u8>, w: int, h: int)
    requires
        w >= 1,
        h >= 1,
    ensures
        spec_blocks_rows(data, w, ColorSupport::NoColor, h)[w] == '\n',
        forall|i: int|
            0 <= i < w ==> #[trigger] spec_blocks_rows(data, w, ColorSupport::NoColor, h)[i]
                != '\n',
    decreases h,
{
    if h == 1 {
        lemma_blocks_row_width(data, w, 0, w);
        assert(spec_blocks_rows(data, w, ColorSupport::NoColor, 1) =~= spec_blocks_row(
            data,
            w,
            0,
            ColorSupport::NoColor,
            w,
        ) + seq!['\n']);
    } else {
        lemma_blocks_first_line(data, w, h - 1);
        lemma_blocks_rows_len(data, w, h - 1);
        lemma_blocks_row_width(data, w, h - 1, w);
        assert((h - 1) * (w + 1) > w) by (nonlinear_arith)
            requires
                h >= 2,
                w >= 1,
        ;
    }
}

/// The uncolored Blocks rendering of `y` rows holds `y * (w + 1)`
/// characters.
pub proof fn lemma_blocks_rows_len(data: Seq<u8>, w: int, y: int)
    requires
        0 <= y,
        0 <= w,
    ensures
        spec_blocks_rows(data, w, ColorSupport::NoColor, y).len() == y * (w + 1),
    decreases y,
{
    let color = ColorSupport::NoColor;
    if y > 0 {
        lemma_blocks_rows_len(data, w, y - 1);
        lemma_blocks_row_width(data, w, y - 1, w);
        assert(spec_blocks_rows(data, w, color, y) == spec_blocks_rows(data, w, color, y - 1)
            + spec_blocks_row(data, w, y - 1, color, w) + seq!['\n']);
        assert(y * (w + 1) == (y - 1) * (w + 1) + (w + 1)) by (nonlinear_arith);
    } else {
        assert(y * (w + 1) == 0) by (nonlinear_arith)
            requires
                y == 0,
        ;
    }
}

/// Line structure of the uncolored Blocks rendering: the first output line
/// is exactly the grid width computed for the requested target width,
/// whatever the input image.
pub proof fn lemma_render_blocks_line_width(image: &Raster, target: int)
    requires
        image.wf(),
    ensures
        ({
            let dims = spec_unicode_dims(image.spec_width(), image.spec_height(), target, 1);
            let out = spec_render_blocks(image, target, ColorSupport::NoColor);
            &&& out.len() == dims.1 * (dims.0 + 1)
            &&& out[dims.0] == '\n'
            &&& forall|i: int| 0 <= i < dims.0 ==> out[i] != '\n'
        }),
{
    let dims = spec_unicode_dims(image.spec_width(), image.spec_height(), target, 1);
    let resized = lanczos_resample(
        image.spec_data(),
        image.spec_width(),
        image.spec_height(),
        dims.0,
        dims.1,
    );
    lemma_blocks_rows_len(resized, dims.0, dims.1);
    lemma_blocks_first_line(resized, dims.0, dims.1);
}

} // verus!
