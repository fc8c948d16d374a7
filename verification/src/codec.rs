//! The ANSI encode/decode layer.
//!
//! Parses ANSI-coded strings into styled spans, strips escape sequences to
//! plain text, and converts ANSI-coded content into a self-contained HTML
//! document.  Malformed or unterminated escape sequences are consumed
//! without error and without affecting the surrounding text.

use vstd::prelude::*;

use crate::capabilities::ColorSupport;
use crate::color::{reset_seq, spec_fg_color, Rgb};
use crate::text::{
    chars_of, dec_seq, is_ascii_alpha_char, is_ascii_digit_char, lemma_dec_seq_digits,
    push_decimal, string_from_chars,
};

verus! {

/// A color carried by a styled span: a named 8-color palette entry (0-7),
/// an indexed 256-color palette entry, or a true color.
#[derive(Debug, Clone, Copy, PartialEq, Eq, Structural)]
pub enum SpanColor {
    /// One of the eight named ANSI colors, 0 (black) through 7 (white).
    Named(u8),
    /// An indexed color of the 256-color palette.
    Indexed(u8),
    /// A 24-bit color.
    Rgb(u8, u8, u8),
}

/// A run of text with its foreground and background colors, as decoded from
/// ANSI-coded input.
#[derive(Debug, Clone, PartialEq, Eq)]
pub struct StyledSpan {
    pub text: String,
    pub fg: Option<SpanColor>,
    pub bg: Option<SpanColor>,
}

/// The spec-level model of a styled span: its text as a character sequence
/// with the two colors.
pub open spec fn span_model(sp: StyledSpan) -> (Seq<char>, Option<SpanColor>, Option<SpanColor>) {
    (sp.text@, sp.fg, sp.bg)
}

pub open spec fn spans_model(v: Seq<StyledSpan>) -> Seq<
    (Seq<char>, Option<SpanColor>, Option<SpanColor>),
> {
    v.map_values(|sp: StyledSpan| span_model(sp))
}

/// The scanner state: plain text, inside a CSI sequence collecting
/// parameter characters, or skipping a non-CSI escape sequence.
#[derive(Debug, Clone, Copy, PartialEq, Eq, Structural)]
pub enum ScanMode {
    Text,
    Csi,
    Skip,
}

/// The numeric value of a digit sequence.
pub open spec fn spec_digits_value(t: Seq<char>) -> int
    decreases t.len(),
{
    if t.len() == 0 {
        0
    } else {
        spec_digits_value(t.drop_last()) * 10 + (t.last() as u32 - 48)
    }
}

pub open spec fn spec_all_digits(t: Seq<char>) -> bool {
    forall|i: int| 0 <= i < t.len() ==> is_ascii_digit_char(#[trigger] t[i])
}

/// The byte denoted by a decimal parameter token: defined exactly for a
/// non-empty all-digit token whose value fits in a byte.
pub open spec fn spec_parse_u8(t: Seq<char>) -> Option<u8> {
    if t.len() >= 1 && spec_all_digits(t) && spec_digits_value(t) < 256 {
        Some(spec_digits_value(t) as u8)
    } else {
        None
    }
}

/// A digit prefix never exceeds the value of the whole token.
proof fn lemma_digits_value_monotonic(t: Seq<char>, i: int)
    requires
        0 <= i <= t.len(),
        spec_all_digits(t),
    ensures
        spec_digits_value(t.take(i)) <= spec_digits_value(t),
        spec_digits_value(t) >= 0,
    decreases t.len() - i,
{
    if i == t.len() {
        assert(t.take(i) =~= t);
        lemma_digits_value_nonneg(t);
    } else {
        lemma_digits_value_monotonic(t, i + 1);
        lemma_digits_value_nonneg(t.take(i));
        assert(t.take(i + 1).drop_last() =~= t.take(i));
        assert(spec_digits_value(t.take(i + 1)) == spec_digits_value(t.take(i)) * 10 + (t[i] as u32
            - 48));
    }
}

proof fn lemma_digits_value_nonneg(t: Seq<char>)
    requires
        spec_all_digits(t),
    ensures
        spec_digits_value(t) >= 0,
    decreases t.len(),
{
    if t.len() > 0 {
        assert(spec_all_digits(t.drop_last())) by {
            assert(forall|i: int|
                0 <= i < t.drop_last().len() ==> t.drop_last()[i] == #[trigger] t[i]);
        }
        lemma_digits_value_nonneg(t.drop_last());
        assert(is_ascii_digit_char(t.last()));
    }
}

/// Parse a decimal parameter token as a byte.
pub fn parse_u8_token(t: &Vec<char>) -> (r: Option<u8>)
    ensures
        r == spec_parse_u8(t@),
{
    let n = t.len();
    if n == 0 {
        return None;
    }
    let mut acc: u32 = 0;
    let mut i: usize = 0;
    while i < n
        invariant
            i <= n,
            n == t@.len(),
            spec_all_digits(t@.take(i as int)),
            acc == spec_digits_value(t@.take(i as int)),
            acc <= 255,
        decreases n - i,
    {
        let c = t[i];
        let u = c as u32;
        if u < 48 || u > 57 {
            proof {
                assert(!is_ascii_digit_char(t@[i as int]));
            }
            return None;
        }
        let d = u - 48;
        proof {
            assert(t@.take(i as int + 1).drop_last() =~= t@.take(i as int));
            assert(spec_all_digits(t@.take(i as int + 1))) by {
                assert(forall|k: int|
                    0 <= k < i as int + 1 ==> t@.take(i as int + 1)[k] == #[trigger] t@[k]);
            }
        }
        acc = acc * 10 + d;
        i = i + 1;
        if acc > 255 {
            proof {
                assert(t@.take(i as int) =~= t@.take(i as int));
                if spec_all_digits(t@) {
                    lemma_digits_value_monotonic(t@, i as int);
                }
            }
            return None;
        }
    }
    proof {
        assert(t@.take(n as int) =~= t@);
    }
    Some(acc as u8)
}

/// The parameter string split on semicolons, each piece possibly empty.
pub open spec fn spec_split_semi(s: Seq<char>, i: int, cur: Seq<char>) -> Seq<Seq<char>>
    decreases s.len() - i,
{
    if i < 0 || i >= s.len() {
        seq![cur]
    } else if s[i] == ';' {
        seq![cur] + spec_split_semi(s, i + 1, Seq::empty())
    } else {
        spec_split_semi(s, i + 1, cur.push(s[i]))
    }
}

fn split_semi(s: &Vec<char>) -> (r: Vec<Vec<char>>)
    ensures
        r@.len() == spec_split_semi(s@, 0, Seq::<char>::empty()).len(),
        forall|k: int|
            0 <= k < r@.len() ==> #[trigger] r@[k]@ == spec_split_semi(s@, 0, Seq::<char>::empty())[k],
{
    let ghost total = spec_split_semi(s@, 0, Seq::<char>::empty());
    let n = s.len();
    let mut out: Vec<Vec<char>> = Vec::new();
    let mut cur: Vec<char> = Vec::new();
    let mut i: usize = 0;
    while i < n
        invariant
            i <= n,
            n == s@.len(),
            total == spec_split_semi(s@, 0, Seq::<char>::empty()),
            total.len() == out@.len() + spec_split_semi(s@, i as int, cur@).len(),
            forall|k: int| 0 <= k < out@.len() ==> #[trigger] out@[k]@ == total[k],
            forall|k: int|
                0 <= k < spec_split_semi(s@, i as int, cur@).len() ==> #[trigger] spec_split_semi(
                    s@,
                    i as int,
                    cur@,
                )[k] == total[out@.len() + k],
        decreases n - i,
    {
        let c = s[i];
        if c == ';' {
            let ghost prev_cur = cur@;
            let ghost prev_len = out@.len() as int;
            proof {
                let cur_split = spec_split_semi(s@, i as int, prev_cur);
                let rest = spec_split_semi(s@, i as int + 1, Seq::<char>::empty());
                assert(cur_split == seq![prev_cur] + rest);
                assert(cur_split[0] == prev_cur);
                assert(prev_cur == total[prev_len]);
                assert forall|k: int| 0 <= k < rest.len() implies #[trigger] rest[k] == total[prev_len + 1 + k] by {
                    assert(cur_split[k + 1] == total[prev_len + (k + 1)]);
                    assert(cur_split[k + 1] == rest[k]);
                }
            }
            out.push(cur);
            cur = Vec::new();
        } else {
            cur.push(c);
        }
        i = i + 1;
    }
    proof {
        assert(spec_split_semi(s@, n as int, cur@) == seq![cur@]);
        assert(spec_split_semi(s@, n as int, cur@)[0] == total[out@.len() as int]);
        assert(total[out@.len() as int] == cur@);
    }
    out.push(cur);
    out
}

/// The colors after interpreting one SGR parameter list, token by token:
/// `0` resets both colors, `30`-`37` and `40`-`47` set named colors,
/// `38`/`48` followed by `;5;N` or `;2;R;G;B` set indexed or true colors
/// (consuming the extra tokens), and unknown codes are ignored.
pub open spec fn spec_sgr_tokens(
    toks: Seq<Seq<char>>,
    i: int,
    fg: Option<SpanColor>,
    bg: Option<SpanColor>,
) -> (Option<SpanColor>, Option<SpanColor>)
    decreases toks.len() - i, toks.len(),
{
    if i < 0 || i >= toks.len() {
        (fg, bg)
    } else {
        let t = toks[i];
        if t == seq!['0'] {
            spec_sgr_tokens(toks, i + 1, Option::None, Option::None)
        } else if t == seq!['3', '8'] {
            if i + 1 < toks.len() && toks[i + 1] == seq!['2'] && i + 4 < toks.len() {
                let r = spec_parse_u8(toks[i + 2]);
                let g = spec_parse_u8(toks[i + 3]);
                let b = spec_parse_u8(toks[i + 4]);
                let nfg = if r is Some && g is Some && b is Some {
                    Option::Some(SpanColor::Rgb(r->0, g->0, b->0))
                } else {
                    fg
                };
                spec_sgr_tokens(toks, i + 5, nfg, bg)
            } else if i + 1 < toks.len() && toks[i + 1] == seq!['5'] && i + 2 < toks.len() {
                let n = spec_parse_u8(toks[i + 2]);
                let nfg = if n is Some {
                    Option::Some(SpanColor::Indexed(n->0))
                } else {
                    fg
                };
                spec_sgr_tokens(toks, i + 3, nfg, bg)
            } else {
                spec_sgr_tokens(toks, i + 1, fg, bg)
            }
        } else if t == seq!['4', '8'] {
            if i + 1 < toks.len() && toks[i + 1] == seq!['2'] && i + 4 < toks.len() {
                let r = spec_parse_u8(toks[i + 2]);
                let g = spec_parse_u8(toks[i + 3]);
                let b = spec_parse_u8(toks[i + 4]);
                let nbg = if r is Some && g is Some && b is Some {
                    Option::Some(SpanColor::Rgb(r->0, g->0, b->0))
                } else {
                    bg
                };
                spec_sgr_tokens(toks, i + 5, fg, nbg)
            } else if i + 1 < toks.len() && toks[i + 1] == seq!['5'] && i + 2 < toks.len() {
                let n = spec_parse_u8(toks[i + 2]);
                let nbg = if n is Some {
                    Option::Some(SpanColor::Indexed(n->0))
                } else {
                    bg
                };
                spec_sgr_tokens(toks, i + 3, fg, nbg)
            } else {
                spec_sgr_tokens(toks, i + 1, fg, bg)
            }
        } else if t.len() == 2 && t[0] == '3' && 48 <= t[1] as u32 <= 55 {
            spec_sgr_tokens(toks, i + 1, Option::Some(SpanColor::Named((t[1] as u32 - 48) as u8)), bg)
        } else if t.len() == 2 && t[0] == '4' && 48 <= t[1] as u32 <= 55 {
            spec_sgr_tokens(toks, i + 1, fg, Option::Some(SpanColor::Named((t[1] as u32 - 48) as u8)))
        } else {
            spec_sgr_tokens(toks, i + 1, fg, bg)
        }
    }
}

/// The colors after interpreting a whole SGR parameter string.
pub open spec fn spec_sgr_apply(
    params: Seq<char>,
    fg: Option<SpanColor>,
    bg: Option<SpanColor>,
) -> (Option<SpanColor>, Option<SpanColor>) {
    spec_sgr_tokens(spec_split_semi(params, 0, Seq::empty()), 0, fg, bg)
}

fn tok_is(t: &Vec<char>, a: char) -> (r: bool)
    ensures
        r == (t@ == seq![a]),
{
    let r = t.len() == 1 && t[0] == a;
    proof {
        if r {
            assert(t@ =~= seq![a]);
        }
        if t@ == seq![a] {
            assert(t@.len() == 1 && t@[0] == a);
        }
    }
    r
}

fn tok_is2(t: &Vec<char>, a: char, b: char) -> (r: bool)
    ensures
        r == (t@ == seq![a, b]),
{
    let r = t.len() == 2 && t[0] == a && t[1] == b;
    proof {
        if r {
            assert(t@ =~= seq![a, b]);
        }
        if t@ == seq![a, b] {
            assert(t@.len() == 2 && t@[0] == a && t@[1] == b);
        }
    }
    r
}

/// Parse SGR (Select Graphic Rendition) parameters, updating the current
/// foreground and background colors.
pub fn parse_sgr_params(params: &str, fg: &mut Option<SpanColor>, bg: &mut Option<SpanColor>)
    ensures
        (*final(fg), *final(bg)) == spec_sgr_apply(params@, *old(fg), *old(bg)),
{
    let cs = chars_of(params);
    let toks = split_semi(&cs);
    let ghost tseq = spec_split_semi(params@, 0, Seq::<char>::empty());
    let n = toks.len();
    let mut cfg: Option<SpanColor> = *fg;
    let mut cbg: Option<SpanColor> = *bg;
    let mut i: usize = 0;
    while i < n
        invariant
            i <= n,
            toks@.len() == n,
            tseq == spec_split_semi(params@, 0, Seq::<char>::empty()),
            n == tseq.len(),
            forall|k: int| 0 <= k < n ==> toks@[k]@ == tseq[k],
            spec_sgr_tokens(tseq, 0, *old(fg), *old(bg)) == spec_sgr_tokens(
                tseq,
                i as int,
                cfg,
                cbg,
            ),
        decreases n - i,
    {
        let ghost gi = i as int;
        let ghost gfg = cfg;
        let ghost gbg = cbg;
        let t: &Vec<char> = &toks[i];
        if tok_is(t, '0') {
            cfg = None;
            cbg = None;
            i = i + 1;
        } else if tok_is2(t, '3', '8') {
            if n - i > 1 && tok_is(&toks[i + 1], '2') && n - i > 4 {
                let r = parse_u8_token(&toks[i + 2]);
                let g = parse_u8_token(&toks[i + 3]);
                let b = parse_u8_token(&toks[i + 4]);
                match (r, g, b) {
                    (Some(rv), Some(gv), Some(bv)) => {
                        cfg = Some(SpanColor::Rgb(rv, gv, bv));
                    },
                    _ => {},
                }
                i = i + 5;
            } else if n - i > 1 && tok_is(&toks[i + 1], '5') && n - i > 2 {
                match parse_u8_token(&toks[i + 2]) {
                    Some(nv) => {
                        cfg = Some(SpanColor::Indexed(nv));
                    },
                    None => {},
                }
                i = i + 3;
            } else {
                i = i + 1;
            }
        } else if tok_is2(t, '4', '8') {
            if n - i > 1 && tok_is(&toks[i + 1], '2') && n - i > 4 {
                let r = parse_u8_token(&toks[i + 2]);
                let g = parse_u8_token(&toks[i + 3]);
                let b = parse_u8_token(&toks[i + 4]);
                match (r, g, b) {
                    (Some(rv), Some(gv), Some(bv)) => {
                        cbg = Some(SpanColor::Rgb(rv, gv, bv));
                    },
                    _ => {},
                }
                i = i + 5;
            } else if n - i > 1 && tok_is(&toks[i + 1], '5') && n - i > 2 {
                match parse_u8_token(&toks[i + 2]) {
                    Some(nv) => {
                        cbg = Some(SpanColor::Indexed(nv));
                    },
                    None => {},
                }
                i = i + 3;
            } else {
                i = i + 1;
            }
        } else {
            let two = t.len() == 2;
            let is_fg_named = two && t[0] == '3' && 48 <= t[1] as u32 && t[1] as u32 <= 55;
            let is_bg_named = two && t[0] == '4' && 48 <= t[1] as u32 && t[1] as u32 <= 55;
            if is_fg_named {
                cfg = Some(SpanColor::Named((t[1] as u32 - 48) as u8));
            } else if is_bg_named {
                cbg = Some(SpanColor::Named((t[1] as u32 - 48) as u8));
            }
            i = i + 1;
        }
        proof {
            assert(spec_sgr_tokens(tseq, gi, gfg, gbg) == spec_sgr_tokens(tseq, i as int, cfg, cbg));
        }
    }
    *fg = cfg;
    *bg = cbg;
}

/// The styled spans decoded from an ANSI-coded character sequence, by a
/// linear scan: text accumulates into the current span; an escape character
/// flushes it, a following `[` opens a CSI sequence whose parameter bytes
/// run to an ASCII letter (only an `m` terminator is interpreted, as SGR),
/// and any other escape is skipped up to a BEL or letter.
pub open spec fn spec_parse_rec(
    s: Seq<char>,
    i: int,
    mode: ScanMode,
    params: Seq<char>,
    cur: Seq<char>,
    fg: Option<SpanColor>,
    bg: Option<SpanColor>,
) -> Seq<(Seq<char>, Option<SpanColor>, Option<SpanColor>)>
    decreases s.len() - i,
{
    if i < 0 || i >= s.len() {
        if cur.len() > 0 {
            seq![(cur, fg, bg)]
        } else {
            Seq::empty()
        }
    } else {
        let c = s[i];
        match mode {
            ScanMode::Text => {
                if c == '\x1b' {
                    let flushed: Seq<(Seq<char>, Option<SpanColor>, Option<SpanColor>)> = if cur.len() > 0 {
                        seq![(cur, fg, bg)]
                    } else {
                        Seq::empty()
                    };
                    if i + 1 < s.len() && s[i + 1] == '[' {
                        flushed + spec_parse_rec(
                            s,
                            i + 2,
                            ScanMode::Csi,
                            Seq::empty(),
                            Seq::empty(),
                            fg,
                            bg,
                        )
                    } else {
                        flushed + spec_parse_rec(
                            s,
                            i + 1,
                            ScanMode::Skip,
                            Seq::empty(),
                            Seq::empty(),
                            fg,
                            bg,
                        )
                    }
                } else {
                    spec_parse_rec(s, i + 1, ScanMode::Text, params, cur.push(c), fg, bg)
                }
            },
            ScanMode::Csi => {
                if is_ascii_alpha_char(c) {
                    if c == 'm' {
                        let pair = spec_sgr_apply(params, fg, bg);
                        spec_parse_rec(s, i + 1, ScanMode::Text, Seq::empty(), cur, pair.0, pair.1)
                    } else {
                        spec_parse_rec(s, i + 1, ScanMode::Text, Seq::empty(), cur, fg, bg)
                    }
                } else {
                    spec_parse_rec(s, i + 1, ScanMode::Csi, params.push(c), cur, fg, bg)
                }
            },
            ScanMode::Skip => {
                if c == '\x07' || is_ascii_alpha_char(c) {
                    spec_parse_rec(s, i + 1, ScanMode::Text, Seq::empty(), cur, fg, bg)
                } else {
                    spec_parse_rec(s, i + 1, ScanMode::Skip, Seq::empty(), cur, fg, bg)
                }
            },
        }
    }
}

/// The styled spans of an ANSI-coded text.
pub open spec fn spec_parse_ansi(s: Seq<char>) -> Seq<
    (Seq<char>, Option<SpanColor>, Option<SpanColor>),
> {
    spec_parse_rec(
        s,
        0,
        ScanMode::Text,
        Seq::empty(),
        Seq::empty(),
        Option::None,
        Option::None,
    )
}

/// Parse ANSI color codes into styled spans.
pub fn parse_ansi_to_spans(text: &str) -> (r: Vec<StyledSpan>)
    ensures
        spans_model(r@) == spec_parse_ansi(text@),
{
    let cs = chars_of(text);
    let n = cs.len();
    let mut out: Vec<StyledSpan> = Vec::new();
    let mut cur: Vec<char> = Vec::new();
    let mut params: Vec<char> = Vec::new();
    let mut fg: Option<SpanColor> = None;
    let mut bg: Option<SpanColor> = None;
    let mut mode = ScanMode::Text;
    let mut i: usize = 0;
    while i < n
        invariant
            i <= n,
            cs@ == text@,
            n == text@.len(),
            spec_parse_ansi(text@) == spans_model(out@) + spec_parse_rec(
                text@,
                i as int,
                mode,
                params@,
                cur@,
                fg,
                bg,
            ),
        decreases n - i,
    {
        let ghost gi = i as int;
        let ghost gmode = mode;
        let ghost gparams = params@;
        let ghost gcur = cur@;
        let ghost gfg = fg;
        let ghost gbg = bg;
        let ghost gout = out@;
        let c = cs[i];
        match mode {
            ScanMode::Text => {
                if c == '\x1b' {
                    if cur.len() > 0 {
                        let sp = StyledSpan { text: string_from_chars(&cur), fg, bg };
                        out.push(sp);
                        proof {
                            assert(spans_model(out@) =~= spans_model(gout) + seq![
                                (gcur, gfg, gbg),
                            ]);
                        }
                    }
                    cur = Vec::new();
                    if i + 1 < n && cs[i + 1] == '[' {
                        mode = ScanMode::Csi;
                        params = Vec::new();
                        i = i + 2;
                    } else {
                        mode = ScanMode::Skip;
                        params = Vec::new();
                        i = i + 1;
                    }
                    proof {
                        let flushed: Seq<(Seq<char>, Option<SpanColor>, Option<SpanColor>)> = if gcur.len() > 0 {
                            seq![(gcur, gfg, gbg)]
                        } else {
                            Seq::empty()
                        };
                        assert(spec_parse_rec(text@, gi, gmode, gparams, gcur, gfg, gbg) == flushed
                            + spec_parse_rec(text@, i as int, mode, params@, cur@, fg, bg));
                    }
                } else {
                    cur.push(c);
                    i = i + 1;
                    proof {
                        assert(spec_parse_rec(text@, gi, gmode, gparams, gcur, gfg, gbg)
                            == spec_parse_rec(text@, i as int, mode, params@, cur@, fg, bg));
                    }
                }
            },
            ScanMode::Csi => {
                let u = c as u32;
                if (65 <= u && u <= 90) || (97 <= u && u <= 122) {
                    if c == 'm' {
                        let ps = string_from_chars(&params);
                        parse_sgr_params(ps.as_str(), &mut fg, &mut bg);
                        proof {
                            assert((fg, bg) == spec_sgr_apply(gparams, gfg, gbg));
                        }
                    }
                    params = Vec::new();
                    mode = ScanMode::Text;
                    i = i + 1;
                    proof {
                        assert(spec_parse_rec(text@, gi, gmode, gparams, gcur, gfg, gbg)
                            == spec_parse_rec(text@, i as int, mode, params@, cur@, fg, bg));
                    }
                } else {
                    params.push(c);
                    i = i + 1;
                    proof {
                        assert(spec_parse_rec(text@, gi, gmode, gparams, gcur, gfg, gbg)
                            == spec_parse_rec(text@, i as int, mode, params@, cur@, fg, bg));
                    }
                }
            },
            ScanMode::Skip => {
                let u = c as u32;
                if c == '\x07' || (65 <= u && u <= 90) || (97 <= u && u <= 122) {
                    mode = ScanMode::Text;
                    params = Vec::new();
                } else {
                    params = Vec::new();
                }
                i = i + 1;
            },
        }
        proof {
            assert(spans_model(gout) + spec_parse_rec(text@, gi, gmode, gparams, gcur, gfg, gbg)
                =~= spans_model(out@) + spec_parse_rec(
                text@,
                i as int,
                mode,
                params@,
                cur@,
                fg,
                bg,
            ));
        }
    }
    if cur.len() > 0 {
        let ghost gout = out@;
        let ghost gcur = cur@;
        let sp = StyledSpan { text: string_from_chars(&cur), fg, bg };
        out.push(sp);
        proof {
            assert(spans_model(out@) =~= spans_model(gout) + seq![(gcur, fg, bg)]);
        }
    }
    out
}

/// The plain text left after discarding the ANSI escape sequences of a
/// character sequence, by the same scan as the span parser.
pub open spec fn spec_strip_rec(s: Seq<char>, i: int, mode: ScanMode) -> Seq<char>
    decreases s.len() - i,
{
    if i < 0 || i >= s.len() {
        Seq::empty()
    } else {
        let c = s[i];
        match mode {
            ScanMode::Text => {
                if c == '\x1b' {
                    if i + 1 < s.len() && s[i + 1] == '[' {
                        spec_strip_rec(s, i + 2, ScanMode::Csi)
                    } else {
                        spec_strip_rec(s, i + 1, ScanMode::Skip)
                    }
                } else {
                    seq![c] + spec_strip_rec(s, i + 1, ScanMode::Text)
                }
            },
            ScanMode::Csi => {
                if is_ascii_alpha_char(c) {
                    spec_strip_rec(s, i + 1, ScanMode::Text)
                } else {
                    spec_strip_rec(s, i + 1, ScanMode::Csi)
                }
            },
            ScanMode::Skip => {
                if c == '\x07' || is_ascii_alpha_char(c) {
                    spec_strip_rec(s, i + 1, ScanMode::Text)
                } else {
                    spec_strip_rec(s, i + 1, ScanMode::Skip)
                }
            },
        }
    }
}

/// The plain text of an ANSI-coded text.
pub open spec fn spec_strip(s: Seq<char>) -> Seq<char> {
    spec_strip_rec(s, 0, ScanMode::Text)
}

/// Strip ANSI escape codes from text.
pub fn strip_ansi_codes(text: &str) -> (r: String)
    ensures
        r@ == spec_strip(text@),
{
    let cs = chars_of(text);
    let n = cs.len();
    let mut out: Vec<char> = Vec::new();
    let mut mode = ScanMode::Text;
    let mut i: usize = 0;
    while i < n
        invariant
            i <= n,
            cs@ == text@,
            n == text@.len(),
            spec_strip(text@) == out@ + spec_strip_rec(text@, i as int, mode),
        decreases n - i,
    {
        let ghost gi = i as int;
        let ghost gmode = mode;
        let ghost gout = out@;
        let c = cs[i];
        match mode {
            ScanMode::Text => {
                if c == '\x1b' {
                    if i + 1 < n && cs[i + 1] == '[' {
                        mode = ScanMode::Csi;
                        i = i + 2;
                        proof {
                            assert(spec_strip_rec(text@, gi, gmode) == spec_strip_rec(
                                text@,
                                i as int,
                                mode,
                            ));
                        }
                    } else {
                        mode = ScanMode::Skip;
                        i = i + 1;
                        proof {
                            assert(spec_strip_rec(text@, gi, gmode) == spec_strip_rec(
                                text@,
                                i as int,
                                mode,
                            ));
                        }
                    }
                } else {
                    out.push(c);
                    i = i + 1;
                    proof {
                        assert(spec_strip_rec(text@, gi, gmode) == seq![c] + spec_strip_rec(
                            text@,
                            i as int,
                            mode,
                        ));
                        assert(out@ =~= gout + seq![c]);
                    }
                }
            },
            ScanMode::Csi => {
                let u = c as u32;
                if (65 <= u && u <= 90) || (97 <= u && u <= 122) {
                    mode = ScanMode::Text;
                }
                i = i + 1;
                proof {
                    assert(spec_strip_rec(text@, gi, gmode) == spec_strip_rec(
                        text@,
                        i as int,
                        mode,
                    ));
                }
            },
            ScanMode::Skip => {
                let u = c as u32;
                if c == '\x07' || (65 <= u && u <= 90) || (97 <= u && u <= 122) {
                    mode = ScanMode::Text;
                }
                i = i + 1;
                proof {
                    assert(spec_strip_rec(text@, gi, gmode) == spec_strip_rec(
                        text@,
                        i as int,
                        mode,
                    ));
                }
            },
        }
        proof {
            assert(gout + spec_strip_rec(text@, gi, gmode) =~= out@ + spec_strip_rec(
                text@,
                i as int,
                mode,
            ));
        }
    }
    string_from_chars(&out)
}

/// Scanning a CSI body consumes every character through its terminating
/// letter and returns to plain text.
proof fn lemma_strip_csi_skips(s: Seq<char>, i: int, j: int)
    requires
        0 <= i <= j < s.len(),
        forall|k: int| i <= k < j ==> !is_ascii_alpha_char(#[trigger] s[k]),
        is_ascii_alpha_char(s[j]),
    ensures
        spec_strip_rec(s, i, ScanMode::Csi) == spec_strip_rec(s, j + 1, ScanMode::Text),
    decreases j - i,
{
    if i < j {
        lemma_strip_csi_skips(s, i + 1, j);
    }
}

/// Scanning a run of plain text (no escape character) copies it unchanged.
proof fn lemma_strip_plain(s: Seq<char>, i: int, j: int)
    requires
        0 <= i <= j <= s.len(),
        forall|k: int| i <= k < j ==> #[trigger] s[k] != '\x1b',
    ensures
        spec_strip_rec(s, i, ScanMode::Text) == s.subrange(i, j) + spec_strip_rec(
            s,
            j,
            ScanMode::Text,
        ),
    decreases j - i,
{
    if i < j {
        lemma_strip_plain(s, i + 1, j);
        assert(s.subrange(i, j) =~= seq![s[i]] + s.subrange(i + 1, j));
        assert(seq![s[i]] + (s.subrange(i + 1, j) + spec_strip_rec(s, j, ScanMode::Text))
            =~= s.subrange(i, j) + spec_strip_rec(s, j, ScanMode::Text));
    } else {
        assert(s.subrange(i, i) =~= Seq::<char>::empty());
        assert(Seq::<char>::empty() + spec_strip_rec(s, i, ScanMode::Text) =~= spec_strip_rec(
            s,
            i,
            ScanMode::Text,
        ));
    }
}

/// The shape shared by every foreground escape the encoders emit: it opens
/// with `ESC [`, closes with the letter `m`, and everything between is a
/// digit or a semicolon.
proof fn lemma_fg_escape_shape(c: Rgb, level: ColorSupport)
    requires
        !(level is NoColor),
    ensures
        spec_fg_color(c, level).len() >= 4,
        spec_fg_color(c, level)[0] == '\x1b',
        spec_fg_color(c, level)[1] == '[',
        spec_fg_color(c, level).last() == 'm',
        forall|k: int|
            2 <= k < spec_fg_color(c, level).len() - 1 ==> !is_ascii_alpha_char(
                #[trigger] spec_fg_color(c, level)[k],
            ),
{
    let e = spec_fg_color(c, level);
    lemma_dec_seq_digits(c.r as int);
    lemma_dec_seq_digits(c.g as int);
    lemma_dec_seq_digits(c.b as int);
    lemma_dec_seq_digits(crate::color::spec_quantize256(c));
    lemma_dec_seq_digits(30 + crate::color::spec_quantize16(c));
    lemma_dec_seq_digits(90 + (crate::color::spec_quantize16(c) - 8));
    assert(dec_seq(c.r as int).len() >= 1 && dec_seq(c.g as int).len() >= 1 && dec_seq(
        c.b as int,
    ).len() >= 1) by {
        lemma_dec_seq_len(c.r as int);
        lemma_dec_seq_len(c.g as int);
        lemma_dec_seq_len(c.b as int);
    }
    lemma_dec_seq_len(crate::color::spec_quantize256(c));
    lemma_dec_seq_len(30 + crate::color::spec_quantize16(c));
    lemma_dec_seq_len(90 + (crate::color::spec_quantize16(c) - 8));
    assert forall|k: int| 2 <= k < e.len() - 1 implies !is_ascii_alpha_char(#[trigger] e[k]) by {
        if is_ascii_digit_char(e[k]) {
        }
    }
}

/// A decimal digit sequence is never empty.
proof fn lemma_dec_seq_len(n: int)
    ensures
        dec_seq(n).len() >= 1,
    decreases n,
{
    if n >= 10 {
        lemma_dec_seq_len(n / 10);
    }
}

/// Round trip: stripping an encoded span returns its plain text exactly.
/// For any text free of the escape character, any color and any support
/// level, wrapping the text in the foreground escape and the reset and then
/// stripping yields the text again.
pub proof fn lemma_strip_round_trip(t: Seq<char>, color: Rgb, level: ColorSupport)
    requires
        forall|i: int| 0 <= i < t.len() ==> #[trigger] t[i] != '\x1b',
    ensures
        spec_strip(spec_fg_color(color, level) + t + reset_seq()) == t,
{
    let e = spec_fg_color(color, level);
    let s = e + t + reset_seq();
    let el = e.len() as int;
    let tl = t.len() as int;
    assert(s.len() == el + tl + 4);
    // the trailing reset
    assert(s[el + tl] == '\x1b' && s[el + tl + 1] == '[' && s[el + tl + 2] == '0' && s[el + tl
        + 3] == 'm');
    assert(!is_ascii_alpha_char('0') && is_ascii_alpha_char('m'));
    // past the text, the reset is consumed entirely
    lemma_strip_csi_skips(s, el + tl + 2, el + tl + 3);
    assert(spec_strip_rec(s, el + tl, ScanMode::Text) == spec_strip_rec(
        s,
        el + tl + 4,
        ScanMode::Text,
    ));
    assert(spec_strip_rec(s, el + tl + 4, ScanMode::Text) =~= Seq::<char>::empty());
    // the text itself is copied unchanged
    assert(forall|k: int| el <= k < el + tl ==> #[trigger] s[k] == t[k - el]);
    lemma_strip_plain(s, el, el + tl);
    assert(s.subrange(el, el + tl) =~= t);
    // the leading escape is consumed entirely
    if level is NoColor {
        assert(e =~= Seq::<char>::empty());
        assert(spec_strip(s) == spec_strip_rec(s, 0, ScanMode::Text));
        assert(spec_strip_rec(s, el, ScanMode::Text) =~= t + Seq::<char>::empty());
        assert(spec_strip(s) =~= t);
    } else {
        lemma_fg_escape_shape(color, level);
        assert(s[0] == '\x1b' && s[1] == '[');
        assert(forall|k: int| 2 <= k < el - 1 ==> !is_ascii_alpha_char(#[trigger] s[k]));
        assert(s[el - 1] == 'm' && is_ascii_alpha_char(s[el - 1]));
        lemma_strip_csi_skips(s, 2, el - 1);
        assert(spec_strip(s) == spec_strip_rec(s, el, ScanMode::Text));
        assert(spec_strip_rec(s, el, ScanMode::Text) =~= t + Seq::<char>::empty());
        assert(spec_strip(s) =~= t);
    }
}

/// The CSS `rgb(r,g,b)` text for three byte components.
pub open spec fn spec_rgb_css(r: int, g: int, b: int) -> Seq<char> {
    "rgb("@ + dec_seq(r) + seq![','] + dec_seq(g) + seq![','] + dec_seq(b) + seq![')']
}

fn rgb_css(r: u8, g: u8, b: u8) -> (s: String)
    ensures
        s@ == spec_rgb_css(r as int, g as int, b as int),
{
    let mut out: Vec<char> = Vec::new();
    out.push('r');
    out.push('g');
    out.push('b');
    out.push('(');
    push_decimal(&mut out, r);
    out.push(',');
    push_decimal(&mut out, g);
    out.push(',');
    push_decimal(&mut out, b);
    out.push(')');
    proof {
        reveal_strlit("rgb(");
        assert(out@ =~= spec_rgb_css(r as int, g as int, b as int));
    }
    string_from_chars(&out)
}

/// The CSS color of a 256-palette index: fixed hex constants for the
/// sixteen basic colors, the 6x6x6 cube formula for 16-231 (a component is
/// zero at index zero, otherwise forty times the index plus 55), and the
/// grayscale ramp (shade 8 + 10 * (code - 232)) above that.
pub open spec fn spec_indexed_css(n: int) -> Seq<char> {
    if n < 16 {
        if n == 0 { "#000000"@ }
        else if n == 1 { "#800000"@ }
        else if n == 2 { "#008000"@ }
        else if n == 3 { "#808000"@ }
        else if n == 4 { "#000080"@ }
        else if n == 5 { "#800080"@ }
        else if n == 6 { "#008080"@ }
        else if n == 7 { "#c0c0c0"@ }
        else if n == 8 { "#808080"@ }
        else if n == 9 { "#ff0000"@ }
        else if n == 10 { "#00ff00"@ }
        else if n == 11 { "#ffff00"@ }
        else if n == 12 { "#0000ff"@ }
        else if n == 13 { "#ff00ff"@ }
        else if n == 14 { "#00ffff"@ }
        else { "#ffffff"@ }
    } else if n <= 231 {
        let idx = n - 16;
        let b = idx % 6;
        let g = (idx / 6) % 6;
        let r = (idx / 36) % 6;
        let rr = if r == 0 { 0int } else { r * 40 + 55 };
        let gg = if g == 0 { 0int } else { g * 40 + 55 };
        let bb = if b == 0 { 0int } else { b * 40 + 55 };
        spec_rgb_css(rr, gg, bb)
    } else {
        let shade = 8 + (n - 232) * 10;
        spec_rgb_css(shade, shade, shade)
    }
}

/// Convert a 256-palette index to its CSS color.
pub fn indexed_to_css(n: u8) -> (s: String)
    ensures
        s@ == spec_indexed_css(n as int),
{
    if n < 16 {
        let lit: &str = if n == 0 { "#000000" }
        else if n == 1 { "#800000" }
        else if n == 2 { "#008000" }
        else if n == 3 { "#808000" }
        else if n == 4 { "#000080" }
        else if n == 5 { "#800080" }
        else if n == 6 { "#008080" }
        else if n == 7 { "#c0c0c0" }
        else if n == 8 { "#808080" }
        else if n == 9 { "#ff0000" }
        else if n == 10 { "#00ff00" }
        else if n == 11 { "#ffff00" }
        else if n == 12 { "#0000ff" }
        else if n == 13 { "#ff00ff" }
        else if n == 14 { "#00ffff" }
        else { "#ffffff" };
        String::from_str(lit)
    } else if n <= 231 {
        let idx = n - 16;
        let b = idx % 6;
        let g = (idx / 6) % 6;
        let r = (idx / 36) % 6;
        let rr: u8 = if r == 0 { 0 } else { r * 40 + 55 };
        let gg: u8 = if g == 0 { 0 } else { g * 40 + 55 };
        let bb: u8 = if b == 0 { 0 } else { b * 40 + 55 };
        rgb_css(rr, gg, bb)
    } else {
        let shade: u8 = 8 + (n - 232) * 10;
        rgb_css(shade, shade, shade)
    }
}

/// The CSS color text of a span color: `rgb(...)` for true colors, the
/// palette conversion for indexed colors, the color's name for the eight
/// named colors, and nothing otherwise.
pub open spec fn spec_css_color(c: Option<SpanColor>) -> Option<Seq<char>> {
    match c {
        Option::None => Option::None,
        Option::Some(SpanColor::Rgb(r, g, b)) => Option::Some(
            spec_rgb_css(r as int, g as int, b as int),
        ),
        Option::Some(SpanColor::Indexed(n)) => Option::Some(spec_indexed_css(n as int)),
        Option::Some(SpanColor::Named(k)) => {
            if k == 0 { Option::Some("black"@) }
            else if k == 1 { Option::Some("red"@) }
            else if k == 2 { Option::Some("green"@) }
            else if k == 3 { Option::Some("yellow"@) }
            else if k == 4 { Option::Some("blue"@) }
            else if k == 5 { Option::Some("magenta"@) }
            else if k == 6 { Option::Some("cyan"@) }
            else if k == 7 { Option::Some("white"@) }
            else { Option::None }
        },
    }
}

fn css_color(c: &Option<SpanColor>) -> (s: Option<String>)
    ensures
        (s is Some) == (spec_css_color(*c) is Some),
        s matches Some(t) ==> t@ == spec_css_color(*c)->0,
{
    match c {
        Option::None => Option::None,
        Option::Some(SpanColor::Rgb(r, g, b)) => Option::Some(rgb_css(*r, *g, *b)),
        Option::Some(SpanColor::Indexed(n)) => Option::Some(indexed_to_css(*n)),
        Option::Some(SpanColor::Named(k)) => {
            if *k == 0 { Option::Some(String::from_str("black")) }
            else if *k == 1 { Option::Some(String::from_str("red")) }
            else if *k == 2 { Option::Some(String::from_str("green")) }
            else if *k == 3 { Option::Some(String::from_str("yellow")) }
            else if *k == 4 { Option::Some(String::from_str("blue")) }
            else if *k == 5 { Option::Some(String::from_str("magenta")) }
            else if *k == 6 { Option::Some(String::from_str("cyan")) }
            else if *k == 7 { Option::Some(String::from_str("white")) }
            else { Option::None }
        },
    }
}

/// The HTML-escaped form of one character: the entities for `&`, `<` and
/// `>`, the character itself otherwise.
pub open spec fn spec_escape_char(c: char) -> Seq<char> {
    if c == '&' {
        "&amp;"@
    } else if c == '<' {
        "&lt;"@
    } else if c == '>' {
        "&gt;"@
    } else {
        seq![c]
    }
}

/// The HTML-escaped form of a text, from position `i` on.
pub open spec fn spec_escape_html(s: Seq<char>, i: int) -> Seq<char>
    decreases s.len() - i,
{
    if i < 0 || i >= s.len() {
        Seq::empty()
    } else {
        spec_escape_char(s[i]) + spec_escape_html(s, i + 1)
    }
}

fn escape_html(s: &str) -> (r: String)
    ensures
        r@ == spec_escape_html(s@, 0),
{
    let cs = chars_of(s);
    let n = cs.len();
    let mut out = String::new();
    let mut i: usize = 0;
    while i < n
        invariant
            i <= n,
            cs@ == s@,
            n == s@.len(),
            spec_escape_html(s@, 0) == out@ + spec_escape_html(s@, i as int),
        decreases n - i,
    {
        let ghost gout = out@;
        let c = cs[i];
        if c == '&' {
            out.append("&amp;");
        } else if c == '<' {
            out.append("&lt;");
        } else if c == '>' {
            out.append("&gt;");
        } else {
            let mut one: Vec<char> = Vec::new();
            one.push(c);
            let oc = string_from_chars(&one);
            out.append(oc.as_str());
            proof {
                assert(oc@ =~= seq![c]);
            }
        }
        i = i + 1;
        proof {
            assert(gout + spec_escape_html(s@, i - 1) =~= out@ + spec_escape_html(s@, i as int));
        }
    }
    out
}

/// The HTML of one styled span: the escaped text, wrapped in an
/// inline-styled `<span>` when it carries a foreground or background color.
pub open spec fn spec_span_html(
    text: Seq<char>,
    fg: Option<SpanColor>,
    bg: Option<SpanColor>,
) -> Seq<char> {
    let esc = spec_escape_html(text, 0);
    match (spec_css_color(fg), spec_css_color(bg)) {
        (Option::None, Option::None) => esc,
        (Option::Some(f), Option::None) => "<span style=\"color:"@ + f + "\">"@ + esc + "</span>"@,
        (Option::None, Option::Some(b)) => "<span style=\"background-color:"@ + b + "\">"@ + esc
            + "</span>"@,
        (Option::Some(f), Option::Some(b)) => "<span style=\"color:"@ + f + ";background-color:"@
            + b + "\">"@ + esc + "</span>"@,
    }
}

fn span_html_string(sp: &StyledSpan) -> (r: String)
    ensures
        r@ == spec_span_html(sp.text@, sp.fg, sp.bg),
{
    let esc = escape_html(sp.text.as_str());
    let fg_css = css_color(&sp.fg);
    let bg_css = css_color(&sp.bg);
    match (fg_css, bg_css) {
        (Option::None, Option::None) => esc,
        (Option::Some(f), Option::None) => {
            let mut out = String::from_str("<span style=\"color:");
            out.append(f.as_str());
            out.append("\">");
            out.append(esc.as_str());
            out.append("</span>");
            out
        },
        (Option::None, Option::Some(b)) => {
            let mut out = String::from_str("<span style=\"background-color:");
            out.append(b.as_str());
            out.append("\">");
            out.append(esc.as_str());
            out.append("</span>");
            out
        },
        (Option::Some(f), Option::Some(b)) => {
            let mut out = String::from_str("<span style=\"color:");
            out.append(f.as_str());
            out.append(";background-color:");
            out.append(b.as_str());
            out.append("\">");
            out.append(esc.as_str());
            out.append("</span>");
            out
        },
    }
}

/// The HTML of a parsed span sequence, from position `i` on.
pub open spec fn spec_spans_html(
    spans: Seq<(Seq<char>, Option<SpanColor>, Option<SpanColor>)>,
    i: int,
) -> Seq<char>
    decreases spans.len() - i,
{
    if i < 0 || i >= spans.len() {
        Seq::empty()
    } else {
        spec_span_html(spans[i].0, spans[i].1, spans[i].2) + spec_spans_html(spans, i + 1)
    }
}

/// A line of content with an optional trailing carriage return removed.
pub open spec fn spec_strip_cr(l: Seq<char>) -> Seq<char> {
    if l.len() > 0 && l.last() == '\r' {
        l.drop_last()
    } else {
        l
    }
}

/// The lines of a text: split at newlines, the final line ending optional,
/// each line's trailing carriage return removed.
pub open spec fn spec_lines_rec(s: Seq<char>, i: int, cur: Seq<char>) -> Seq<Seq<char>>
    decreases s.len() - i,
{
    if i < 0 || i >= s.len() {
        if cur.len() > 0 {
            seq![spec_strip_cr(cur)]
        } else {
            Seq::empty()
        }
    } else if s[i] == '\n' {
        seq![spec_strip_cr(cur)] + spec_lines_rec(s, i + 1, Seq::empty())
    } else {
        spec_lines_rec(s, i + 1, cur.push(s[i]))
    }
}

fn split_lines(s: &str) -> (r: Vec<String>)
    ensures
        r@.len() == spec_lines_rec(s@, 0, Seq::<char>::empty()).len(),
        forall|k: int|
            0 <= k < r@.len() ==> #[trigger] r@[k]@ == spec_lines_rec(s@, 0, Seq::<char>::empty())[k],
{
    let ghost total = spec_lines_rec(s@, 0, Seq::<char>::empty());
    let cs = chars_of(s);
    let n = cs.len();
    let mut out: Vec<String> = Vec::new();
    let mut cur: Vec<char> = Vec::new();
    let mut i: usize = 0;
    while i < n
        invariant
            i <= n,
            cs@ == s@,
            n == s@.len(),
            total == spec_lines_rec(s@, 0, Seq::<char>::empty()),
            total.len() == out@.len() + spec_lines_rec(s@, i as int, cur@).len(),
            forall|k: int| 0 <= k < out@.len() ==> #[trigger] out@[k]@ == total[k],
            forall|k: int|
                0 <= k < spec_lines_rec(s@, i as int, cur@).len() ==> #[trigger] spec_lines_rec(
                    s@,
                    i as int,
                    cur@,
                )[k] == total[out@.len() + k],
        decreases n - i,
    {
        let c = cs[i];
        if c == '\n' {
            let ghost prev_cur = cur@;
            let ghost prev_len = out@.len() as int;
            let line = if cur.len() > 0 && cur[cur.len() - 1] == '\r' {
                let _ = cur.pop();
                string_from_chars(&cur)
            } else {
                string_from_chars(&cur)
            };
            proof {
                assert(line@ =~= spec_strip_cr(prev_cur));
                let cur_split = spec_lines_rec(s@, i as int, prev_cur);
                let rest = spec_lines_rec(s@, i as int + 1, Seq::<char>::empty());
                assert(cur_split == seq![spec_strip_cr(prev_cur)] + rest);
                assert(cur_split[0] == spec_strip_cr(prev_cur));
                assert(spec_strip_cr(prev_cur) == total[prev_len]);
                assert forall|k: int| 0 <= k < rest.len() implies #[trigger] rest[k] == total[prev_len + 1 + k] by {
                    assert(cur_split[k + 1] == total[prev_len + (k + 1)]);
                    assert(cur_split[k + 1] == rest[k]);
                }
            }
            out.push(line);
            cur = Vec::new();
        } else {
            cur.push(c);
        }
        i = i + 1;
    }
    if cur.len() > 0 {
        let ghost prev_cur = cur@;
        proof {
            assert(spec_lines_rec(s@, n as int, prev_cur) == seq![spec_strip_cr(prev_cur)]);
            assert(spec_lines_rec(s@, n as int, prev_cur)[0] == total[out@.len() as int]);
        }
        let line = if cur[cur.len() - 1] == '\r' {
            let _ = cur.pop();
            string_from_chars(&cur)
        } else {
            string_from_chars(&cur)
        };
        proof {
            assert(line@ =~= spec_strip_cr(prev_cur));
        }
        out.push(line);
    }
    out
}

/// The HTML of the content's lines, from line `i` on: each line's parsed
/// spans followed by a newline.
pub open spec fn spec_lines_html(lines: Seq<Seq<char>>, i: int) -> Seq<char>
    decreases lines.len() - i,
{
    if i < 0 || i >= lines.len() {
        Seq::empty()
    } else {
        spec_spans_html(spec_parse_ansi(lines[i]), 0) + seq!['\n'] + spec_lines_html(lines, i + 1)
    }
}

/// The HTML document for ANSI-coded content: a fixed header, one line of
/// inline-styled spans per content line, and a fixed footer.
pub open spec fn spec_ansi_to_html(content: Seq<char>) -> Seq<char> {
    "<!doctype html>\n<html><head><meta charset=\"utf-8\"><style>pre{font-family:monospace;white-space:pre;}</style></head><body><pre>"@
        + spec_lines_html(spec_lines_rec(content, 0, Seq::empty()), 0) + "</pre></body></html>"@
}

/// Convert ANSI-coded content to a simple HTML document with inline styles.
pub fn convert_ansi_to_html(content: &str) -> (r: String)
    ensures
        r@ == spec_ansi_to_html(content@),
{
    let ghost lseq = spec_lines_rec(content@, 0, Seq::<char>::empty());
    let mut html = String::from_str(
        "<!doctype html>\n<html><head><meta charset=\"utf-8\"><style>pre{font-family:monospace;white-space:pre;}</style></head><body><pre>",
    );
    let ghost header = html@;
    let lines = split_lines(content);
    let nl = lines.len();
    let mut i: usize = 0;
    while i < nl
        invariant
            i <= nl,
            lseq == spec_lines_rec(content@, 0, Seq::<char>::empty()),
            lines@.len() == nl,
            nl == lseq.len(),
            forall|k: int| 0 <= k < nl ==> #[trigger] lines@[k]@ == lseq[k],
            header + spec_lines_html(lseq, 0) == html@ + spec_lines_html(lseq, i as int),
        decreases nl - i,
    {
        let ghost gout = html@;
        let line: &String = &lines[i];
        let spans = parse_ansi_to_spans(line.as_str());
        let ghost sseq = spec_parse_ansi(lseq[i as int]);
        let ns = spans.len();
        let mut j: usize = 0;
        while j < ns
            invariant
                j <= ns,
                spans_model(spans@) == sseq,
                spans@.len() == ns,
                ns == sseq.len(),
                gout + spec_spans_html(sseq, 0) == html@ + spec_spans_html(sseq, j as int),
            decreases ns - j,
        {
            let ghost ginner = html@;
            let piece = span_html_string(&spans[j]);
            html.append(piece.as_str());
            proof {
                assert(spans_model(spans@)[j as int] == span_model(spans@[j as int]));
                assert(spec_spans_html(sseq, j as int) == spec_span_html(
                    sseq[j as int].0,
                    sseq[j as int].1,
                    sseq[j as int].2,
                ) + spec_spans_html(sseq, j as int + 1));
            }
            j = j + 1;
        }
        html.append("\n");
        proof {
            reveal_strlit("\n");
            assert("\n"@ =~= seq!['\n']);
            assert(spec_lines_html(lseq, i as int) == spec_spans_html(sseq, 0) + seq!['\n']
                + spec_lines_html(lseq, i as int + 1));
        }
        i = i + 1;
    }
    html.append("</pre></body></html>");
    html
}

} // verus!
