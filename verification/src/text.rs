//! Character and string utilities shared by the rendering engines and codecs:
//! decimal and hexadecimal digit sequences, ASCII classification, and the
//! conversions between `&str`, `Vec<char>` and `String` that the rest of the
//! crate builds its output with.

use vstd::prelude::*;

verus! {

use vstd::std_specs::iter::IteratorSpec;

/// The spec-level decimal digit character for a value in 0..=9.
pub open spec fn digit_char(d: int) -> char {
    ((48 + d) as u8) as char
}

/// The decimal digit sequence of a non-negative integer, without leading
/// zeros (a single `'0'` for zero).
pub open spec fn dec_seq(n: int) -> Seq<char>
    decreases n,
{
    if n < 10 {
        seq![digit_char(n)]
    } else {
        dec_seq(n / 10).push(digit_char(n % 10))
    }
}

/// The spec-level uppercase hexadecimal digit character for a value in 0..=15.
pub open spec fn hex_char(d: int) -> char {
    if d < 10 {
        ((48 + d) as u8) as char
    } else {
        ((55 + d) as u8) as char
    }
}

/// The two-digit uppercase hexadecimal sequence of a byte.
pub open spec fn hex_byte_seq(n: int) -> Seq<char> {
    seq![hex_char(n / 16), hex_char(n % 16)]
}

pub open spec fn is_ascii_digit_char(c: char) -> bool {
    48 <= c as u32 <= 57
}

pub open spec fn is_ascii_alpha_char(c: char) -> bool {
    (65 <= c as u32 <= 90) || (97 <= c as u32 <= 122)
}

/// Appends the decimal digits of `n` (no leading zeros) to `out`.
pub fn push_decimal(out: &mut Vec<char>, n: u8)
    ensures
        final(out)@ == old(out)@ + dec_seq(n as int),
{
    let d0: u8 = n / 100;
    let d1: u8 = (n / 10) % 10;
    let d2: u8 = n % 10;
    if n >= 100 {
        out.push((48 + d0) as char);
        out.push((48 + d1) as char);
        out.push((48 + d2) as char);
        proof {
            assert(dec_seq(n as int) == dec_seq(n as int / 10).push(digit_char(n as int % 10)));
            assert(dec_seq(n as int / 10) == dec_seq(n as int / 100).push(
                digit_char((n as int / 10) % 10),
            ));
            assert(dec_seq(n as int / 100) == seq![digit_char(n as int / 100)]);
            assert(out@ =~= old(out)@ + dec_seq(n as int));
        }
    } else if n >= 10 {
        out.push((48 + d1) as char);
        out.push((48 + d2) as char);
        proof {
            assert(dec_seq(n as int) == dec_seq(n as int / 10).push(digit_char(n as int % 10)));
            assert(dec_seq(n as int / 10) == seq![digit_char(n as int / 10)]);
            assert(n as int / 10 == d1 as int);
            assert(out@ =~= old(out)@ + dec_seq(n as int));
        }
    } else {
        out.push((48 + d2) as char);
        proof {
            assert(dec_seq(n as int) == seq![digit_char(n as int)]);
            assert(out@ =~= old(out)@ + dec_seq(n as int));
        }
    }
}

/// Appends the two uppercase hexadecimal digits of `n` to `out`.
pub fn push_hex_byte(out: &mut Vec<char>, n: u8)
    ensures
        final(out)@ == old(out)@ + hex_byte_seq(n as int),
{
    let hi: u8 = n / 16;
    let lo: u8 = n % 16;
    let c_hi: char = if hi < 10 {
        (48 + hi) as char
    } else {
        (55 + hi) as char
    };
    let c_lo: char = if lo < 10 {
        (48 + lo) as char
    } else {
        (55 + lo) as char
    };
    out.push(c_hi);
    out.push(c_lo);
    proof {
        assert(out@ =~= old(out)@ + hex_byte_seq(n as int));
    }
}

/// Every character of a decimal digit sequence is an ASCII digit.
pub proof fn lemma_dec_seq_digits(n: int)
    requires
        0 <= n,
    ensures
        forall|i: int|
            0 <= i < dec_seq(n).len() ==> #[trigger] is_ascii_digit_char(dec_seq(n)[i]),
    decreases n,
{
    if n < 10 {
        assert(dec_seq(n) == seq![digit_char(n)]);
        assert(is_ascii_digit_char(digit_char(n)));
    } else {
        lemma_dec_seq_digits(n / 10);
        assert(dec_seq(n) == dec_seq(n / 10).push(digit_char(n % 10)));
        assert(is_ascii_digit_char(digit_char(n % 10)));
    }
}

/// Relies on `core::char::from_u32`: it returns the character with the given
/// code point exactly when the value is a Unicode scalar value (not a
/// surrogate, and at most `0x10FFFF`).
pub assume_specification[ char::from_u32 ](i: u32) -> (r: Option<char>)
    ensures
        r matches Some(c) ==> c as u32 == i,
        (r is Some) <==> (i < 0xD800 || (0xE000 <= i && i <= 0x10FFFF)),
;

/// Collects the characters of a string slice into a vector.
pub fn chars_of(s: &str) -> (r: Vec<char>)
    ensures
        r@ == s@,
{
    let mut it = s.chars();
    let mut v: Vec<char> = Vec::new();
    loop
        invariant
            it.obeys_prophetic_iter_laws(),
            IteratorSpec::decrease(&it) is Some,
            v@ + IteratorSpec::remaining(&it) == s@,
        ensures
            v@ == s@,
        decreases IteratorSpec::decrease(&it)->0,
    {
        broadcast use vstd::string::next_postcondition;

        match it.next() {
            Some(c) => {
                v.push(c);
            },
            None => {
                proof {
                    assert(v@ =~= s@);
                }
                break ;
            },
        }
    }
    v
}

/// Relies on `String`'s `FromIterator<char>` impl: collecting an iterator of
/// characters builds the string of exactly those characters in order.
#[verifier::external_body]
pub fn string_from_chars(v: &Vec<char>) -> (r: String)
    ensures
        r@ == v@,
{
    v.iter().collect()
}

/// Appends the decimal digits of `n` (no leading zeros) to `out`.
pub fn push_decimal_usize(out: &mut Vec<char>, n: usize)
    ensures
        final(out)@ == old(out)@ + dec_seq(n as int),
    decreases n,
{
    if n >= 10 {
        proof {
            assert(n as int / 10 < n as int) by (nonlinear_arith)
                requires
                    n >= 10,
            ;
        }
        push_decimal_usize(out, n / 10);
    }
    let d: u8 = (n % 10) as u8;
    out.push((48 + d) as char);
    proof {
        if n >= 10 {
            assert(dec_seq(n as int) == dec_seq(n as int / 10).push(digit_char(n as int % 10)));
            assert(out@ =~= old(out)@ + dec_seq(n as int));
        } else {
            assert(dec_seq(n as int) == seq![digit_char(n as int)]);
            assert(out@ =~= old(out)@ + dec_seq(n as int));
        }
    }
}

} // verus!
