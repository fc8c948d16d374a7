//! Unicode width and validation utilities.
//!
//! Grapheme-cluster segmentation and East Asian Width measurement are
//! delegated to the `unicode-segmentation` and `unicode-width` crates behind
//! trusted wrappers; truncation, padding and counting on top of them are
//! verified.

use unicode_segmentation::UnicodeSegmentation;
use unicode_width::UnicodeWidthChar;
use unicode_width::UnicodeWidthStr;
use vstd::prelude::*;

verus! {

/// The extended grapheme clusters of a character sequence, in order.
pub uninterp spec fn graphemes_of(s: Seq<char>) -> Seq<Seq<char>>;

/// Relies on unicode-segmentation's `graphemes(true)`: it yields the
/// extended grapheme clusters of the string, non-empty consecutive
/// substrings that cover it entirely, and they depend on the characters
/// alone.
#[verifier::external_body]
pub fn split_graphemes(s: &str) -> (r: Vec<String>)
    ensures
        r.deep_view() == graphemes_of(s@),
        r.deep_view().flatten() == s@,
        forall|i: int| 0 <= i < r.deep_view().len() ==> #[trigger] r.deep_view()[i].len() > 0,
        s@.len() == 0 ==> r.deep_view().len() == 0,
{
    s.graphemes(true).map(|g| g.to_owned()).collect()
}

/// The display width of a character sequence in terminal columns.
pub uninterp spec fn display_width_of(s: Seq<char>) -> nat;

/// Calculate the display width of a string.
///
/// Relies on unicode-width's `UnicodeWidthStr::width`: the column width
/// (accounting for East Asian Wide and Fullwidth characters) depends on the
/// characters alone, and an empty string has width zero.
#[verifier::external_body]
pub fn display_width(s: &str) -> (r: usize)
    ensures
        r as nat == display_width_of(s@),
        s@.len() == 0 ==> r == 0,
{
    s.width()
}

/// The display width of a single character in terminal columns (zero for
/// control characters).
pub uninterp spec fn char_display_width(c: char) -> nat;

/// Calculate the display width of a single character.
///
/// Relies on unicode-width's `UnicodeWidthChar::width`: the column width of
/// a character (zero where the crate reports none) depends on the character
/// alone.
#[verifier::external_body]
pub fn char_width(c: char) -> (r: usize)
    ensures
        r as nat == char_display_width(c),
{
    c.width().unwrap_or(0)
}

/// Whether a character has the Unicode White_Space property.
pub uninterp spec fn is_whitespace_char(c: char) -> bool;

/// Relies on `char::is_whitespace`: the White_Space property depends on the
/// character alone.
#[verifier::external_body]
pub fn char_is_whitespace(c: char) -> (r: bool)
    ensures
        r == is_whitespace_char(c),
{
    c.is_whitespace()
}

/// The greedy truncation of a grapheme sequence: clusters are taken in
/// order while their cumulative display width stays within the bound, and
/// taking stops at the first cluster that would exceed it.
pub open spec fn spec_truncate_graphemes(gs: Seq<Seq<char>>, max: int, i: int, used: int) -> Seq<
    char,
>
    decreases gs.len() - i,
{
    if i < 0 || i >= gs.len() {
        Seq::empty()
    } else if used + display_width_of(gs[i]) > max {
        Seq::empty()
    } else {
        gs[i] + spec_truncate_graphemes(gs, max, i + 1, used + display_width_of(gs[i]))
    }
}

/// The truncation of a string to a maximum display width.
pub open spec fn spec_truncate_to_width(s: Seq<char>, max: int) -> Seq<char> {
    spec_truncate_graphemes(graphemes_of(s), max, 0, 0)
}

/// Truncate a string to fit within a maximum display width, on grapheme
/// cluster boundaries.
pub fn truncate_to_width(s: &str, max_width: usize) -> (r: String)
    ensures
        r@ == spec_truncate_to_width(s@, max_width as int),
{
    let graphemes = split_graphemes(s);
    let ghost gs = graphemes_of(s@);
    let mut result = String::new();
    let mut current_width: usize = 0;
    let mut i: usize = 0;
    let n = graphemes.len();
    loop
        invariant
            i <= n,
            graphemes.deep_view() == gs,
            graphemes@.len() == n,
            current_width as int <= max_width,
            spec_truncate_graphemes(gs, max_width as int, 0, 0) == result@
                + spec_truncate_graphemes(gs, max_width as int, i as int, current_width as int),
        ensures
            result@ == spec_truncate_graphemes(gs, max_width as int, 0, 0),
        decreases n - i,
    {
        if i >= n {
            break ;
        }
        proof {
            assert(graphemes@[i as int].deep_view() == gs[i as int]);
        }
        let g: &String = &graphemes[i];
        let gw = display_width(g.as_str());
        match current_width.checked_add(gw) {
            Some(total) => {
                if total > max_width {
                    break ;
                }
                result.append(g.as_str());
                current_width = total;
            },
            None => {
                proof {
                    assert(current_width as int + gw as int > max_width);
                }
                break ;
            },
        }
        i = i + 1;
    }
    result
}

/// A sequence of `n` spaces.
pub open spec fn spec_spaces(n: int) -> Seq<char> {
    Seq::new(n as nat, |i: int| ' ')
}

fn spaces(n: usize) -> (r: String)
    ensures
        r@ == spec_spaces(n as int),
{
    let mut out: Vec<char> = Vec::new();
    let mut i: usize = 0;
    while i < n
        invariant
            i <= n,
            out@.len() == i,
            forall|k: int| 0 <= k < i ==> out@[k] == ' ',
        decreases n - i,
    {
        out.push(' ');
        i = i + 1;
    }
    proof {
        assert(out@ =~= spec_spaces(n as int));
    }
    crate::text::string_from_chars(&out)
}

/// A string padded (or truncated) to a target display width: too-wide input
/// is truncated, and otherwise spaces fill the difference, before the text
/// when right-aligned and after it otherwise.
pub open spec fn spec_pad_to_width(s: Seq<char>, target: int, align_right: bool) -> Seq<char> {
    let w = display_width_of(s) as int;
    if w >= target {
        spec_truncate_to_width(s, target)
    } else {
        if align_right {
            spec_spaces(target - w) + s
        } else {
            s + spec_spaces(target - w)
        }
    }
}

/// Pad a string to a specific display width.
pub fn pad_to_width(s: &str, target_width: usize, align_right: bool) -> (r: String)
    ensures
        r@ == spec_pad_to_width(s@, target_width as int, align_right),
{
    let current_width = display_width(s);
    if current_width >= target_width {
        return truncate_to_width(s, target_width);
    }
    let padding = spaces(target_width - current_width);
    if align_right {
        let mut out = padding;
        out.append(s);
        out
    } else {
        let mut out = String::new();
        out.append(s);
        out.append(padding.as_str());
        out
    }
}

/// Count grapheme clusters in a string.
pub fn grapheme_count(s: &str) -> (r: usize)
    ensures
        r as nat == graphemes_of(s@).len(),
{
    let graphemes = split_graphemes(s);
    proof {
        assert(graphemes.deep_view().len() == graphemes@.len());
    }
    graphemes.len()
}

/// Validate that a string contains only well-formed (non-empty) grapheme
/// clusters.
pub fn validate_graphemes(s: &str) -> (r: bool)
    ensures
        r == forall|i: int|
            0 <= i < graphemes_of(s@).len() ==> #[trigger] graphemes_of(s@)[i].len() > 0,
{
    let graphemes = split_graphemes(s);
    let ghost gs = graphemes_of(s@);
    let n = graphemes.len();
    let mut i: usize = 0;
    while i < n
        invariant
            i <= n,
            graphemes.deep_view() == gs,
            graphemes@.len() == n,
            forall|k: int| 0 <= k < gs.len() ==> #[trigger] gs[k].len() > 0,
        decreases n - i,
    {
        proof {
            assert(graphemes@[i as int].deep_view() == gs[i as int]);
            assert(graphemes.deep_view()[i as int].len() > 0);
        }
        if graphemes[i].as_str().is_empty() {
            return false;
        }
        i = i + 1;
    }
    true
}

/// Whether a character lies in one of the combining-mark blocks.
pub open spec fn spec_is_combining(c: char) -> bool {
    ||| 0x0300 <= c as u32 <= 0x036F
    ||| 0x1AB0 <= c as u32 <= 0x1AFF
    ||| 0x1DC0 <= c as u32 <= 0x1DFF
    ||| 0x20D0 <= c as u32 <= 0x20FF
    ||| 0xFE20 <= c as u32 <= 0xFE2F
}

/// Check if a character is a combining character.
pub fn is_combining(c: char) -> (r: bool)
    ensures
        r == spec_is_combining(c),
{
    let u = c as u32;
    (0x0300 <= u && u <= 0x036F)  // Combining Diacritical Marks
     || (0x1AB0 <= u && u <= 0x1AFF)  // Combining Diacritical Marks Extended
     || (0x1DC0 <= u && u <= 0x1DFF)  // Combining Diacritical Marks Supplement
     || (0x20D0 <= u && u <= 0x20FF)  // Combining Diacritical Marks for Symbols
     || (0xFE20 <= u && u <= 0xFE2F)  // Combining Half Marks

}

} // verus!
