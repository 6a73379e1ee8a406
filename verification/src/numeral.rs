//! Decimal numerals of fixed-point numbers, for text that people read.
//!
//! A number is written as its sign, the digits of its whole part, and, unless
//! the fraction is zero, a point and the digits of the fraction up to the last
//! one that is not zero: `-0.8487895`, `0.005529036`, `12`.

use vstd::prelude::*;
use crate::fixed::ONE;

verus! {

/// The character for a digit from 0 to 9.
pub open spec fn digit(d: int) -> char {
    if d == 0 {
        '0'
    } else if d == 1 {
        '1'
    } else if d == 2 {
        '2'
    } else if d == 3 {
        '3'
    } else if d == 4 {
        '4'
    } else if d == 5 {
        '5'
    } else if d == 6 {
        '6'
    } else if d == 7 {
        '7'
    } else if d == 8 {
        '8'
    } else {
        '9'
    }
}

/// The digits of a whole number, without leading zeros.
pub open spec fn whole_digits(n: int) -> Seq<char>
    decreases n,
{
    if n < 10 {
        seq![digit(n)]
    } else {
        whole_digits(n / 10).push(digit(n % 10))
    }
}

/// The digits of the fraction `f / (10 * scale)`, up to the last one that is
/// not zero. `scale` is the weight of the first digit: a power of ten.
pub open spec fn fraction_digits(f: int, scale: int) -> Seq<char>
    decreases scale,
{
    if f <= 0 || scale <= 0 {
        Seq::empty()
    } else {
        seq![digit(f / scale)] + fraction_digits(f % scale, scale / 10)
    }
}

/// The numeral of a magnitude in billionths.
pub open spec fn unsigned_numeral(m: int) -> Seq<char> {
    if m % (ONE as int) == 0 {
        whole_digits(m / (ONE as int))
    } else {
        whole_digits(m / (ONE as int)).push('.') + fraction_digits(m % (ONE as int), ONE / 10)
    }
}

/// The numeral of a fixed-point number.
pub open spec fn numeral(x: int) -> Seq<char> {
    if x < 0 {
        seq!['-'] + unsigned_numeral(-x)
    } else {
        unsigned_numeral(x)
    }
}

/// `String::push` of the standard library: the character is appended to
/// the text, and nothing else of the text changes.
#[verifier::external_body]
pub(crate) fn append_char(text: &mut String, c: char)
    ensures
        final(text)@ == old(text)@.push(c),
{
    text.push(c)
}

/// `String::push_str` of the standard library: the piece is appended to
/// the text, and nothing else of the text changes.
#[verifier::external_body]
pub(crate) fn append(text: &mut String, piece: &str)
    ensures
        final(text)@ == old(text)@ + piece@,
{
    text.push_str(piece)
}

/// Appends one digit.
fn append_digit(text: &mut String, d: u64)
    requires
        d < 10,
    ensures
        final(text)@ == old(text)@.push(digit(d as int)),
{
    let c = if d == 0 {
        '0'
    } else if d == 1 {
        '1'
    } else if d == 2 {
        '2'
    } else if d == 3 {
        '3'
    } else if d == 4 {
        '4'
    } else if d == 5 {
        '5'
    } else if d == 6 {
        '6'
    } else if d == 7 {
        '7'
    } else if d == 8 {
        '8'
    } else {
        '9'
    };
    append_char(text, c);
}

/// Appends the digits of a whole number.
fn append_whole(text: &mut String, n: u64)
    ensures
        final(text)@ == old(text)@ + whole_digits(n as int),
    decreases n,
{
    if n >= 10 {
        append_whole(text, n / 10);
    }
    append_digit(text, n % 10);
}

/// Whether `scale` is a power of ten that a fraction's digit can weigh.
pub open spec fn digit_weight(scale: int) -> bool {
    scale == 1 || scale == 10 || scale == 100 || scale == 1_000 || scale == 10_000 || scale
        == 100_000 || scale == 1_000_000 || scale == 10_000_000 || scale == 100_000_000
}

/// Appends the digits of a fraction, up to the last one that is not zero.
fn append_fraction(text: &mut String, f: u64, scale: u64)
    requires
        digit_weight(scale as int),
        f < 10 * scale,
    ensures
        final(text)@ == old(text)@ + fraction_digits(f as int, scale as int),
    decreases scale,
{
    if f == 0 {
        return;
    }
    append_digit(text, f / scale);
    if scale >= 10 {
        append_fraction(text, f % scale, scale / 10);
    }
    assert(text@ =~= old(text)@ + (seq![digit((f / scale) as int)] + fraction_digits(
        (f % scale) as int,
        (scale / 10) as int,
    )));
}

/// Appends the numeral of a fixed-point number.
pub fn append_numeral(text: &mut String, x: i64)
    ensures
        final(text)@ == old(text)@ + numeral(x as int),
{
    let m: u64 = if x < 0 {
        append_char(text, '-');
        ((-(x + 1)) as u64) + 1
    } else {
        x as u64
    };
    let whole = m / (ONE as u64);
    let f = m % (ONE as u64);
    append_whole(text, whole);
    if f != 0 {
        append_char(text, '.');
        append_fraction(text, f, (ONE as u64) / 10);
    }
}

} // verus!
