//! Decimal rendering of values held in thousandths.

use crate::numeric::abs_int;
use vstd::prelude::*;

verus! {

/// `String::push`: appends one character to the end of the string.
pub assume_specification[ String::push ](text: &mut String, ch: char)
    ensures
        final(text)@ == old(text)@.push(ch),
;

/// The character of a decimal digit.
pub open spec fn digit_char(digit: int) -> char {
    if digit == 0 {
        '0'
    } else if digit == 1 {
        '1'
    } else if digit == 2 {
        '2'
    } else if digit == 3 {
        '3'
    } else if digit == 4 {
        '4'
    } else if digit == 5 {
        '5'
    } else if digit == 6 {
        '6'
    } else if digit == 7 {
        '7'
    } else if digit == 8 {
        '8'
    } else {
        '9'
    }
}

/// The decimal digits of a natural number, most significant first, without
/// leading zeros.
pub open spec fn decimal(n: nat) -> Seq<char>
    decreases n,
{
    if n < 10 {
        seq![digit_char(n as int)]
    } else {
        decimal(n / 10).push(digit_char((n % 10) as int))
    }
}

/// A value in thousandths written as a decimal number with three places, with
/// a leading minus sign when it is negative: `-12345` reads `-12.345`.
pub open spec fn thousandths_text(value: int) -> Seq<char> {
    let size = abs_int(value);
    let sign = if value < 0 {
        seq!['-']
    } else {
        Seq::<char>::empty()
    };
    sign + decimal((size / 1000) as nat) + seq![
        '.',
        digit_char((size / 100) % 10),
        digit_char((size / 10) % 10),
        digit_char(size % 10),
    ]
}

/// A value in thousandths written with two places, the third rounded to
/// the nearest and a five rounded away from zero, with a leading minus sign
/// when the value is negative: `12345` reads `12.35`, `-4` reads `-0.00`.
pub open spec fn hundredths_text(value: int) -> Seq<char> {
    let cents = (abs_int(value) + 5) / 10;
    let sign = if value < 0 {
        seq!['-']
    } else {
        Seq::<char>::empty()
    };
    sign + decimal((cents / 100) as nat) + seq![
        '.',
        digit_char((cents / 10) % 10),
        digit_char(cents % 10),
    ]
}

/// A value in thousandths written with four places, the fourth being zero:
/// `-12345` reads `-12.3450`.
pub open spec fn ten_thousandths_text(value: int) -> Seq<char> {
    thousandths_text(value).push('0')
}

/// The character of a decimal digit.
pub fn digit(d: u8) -> (ch: char)
    requires
        d < 10,
    ensures
        ch == digit_char(d as int),
{
    if d == 0 {
        '0'
    } else if d == 1 {
        '1'
    } else if d == 2 {
        '2'
    } else if d == 3 {
        '3'
    } else if d == 4 {
        '4'
    } else if d == 5 {
        '5'
    } else if d == 6 {
        '6'
    } else if d == 7 {
        '7'
    } else if d == 8 {
        '8'
    } else {
        '9'
    }
}

/// Appends the decimal digits of `n` to `text`.
pub fn push_decimal(text: &mut String, n: u128)
    ensures
        final(text)@ == old(text)@ + decimal(n as nat),
    decreases n,
{
    if n >= 10 {
        push_decimal(text, n / 10);
    }
    text.push(digit((n % 10) as u8));
    assert(final(text)@ =~= old(text)@ + decimal(n as nat));
}

/// Appends `value`, read in thousandths, as a decimal number with three places.
pub fn push_thousandths(text: &mut String, value: i64)
    ensures
        final(text)@ == old(text)@ + thousandths_text(value as int),
{
    if value < 0 {
        text.push('-');
    }
    let size: u64 = magnitude(value);
    push_decimal(text, (size / 1000) as u128);
    text.push('.');
    text.push(digit(((size / 100) % 10) as u8));
    text.push(digit(((size / 10) % 10) as u8));
    text.push(digit((size % 10) as u8));
    assert(final(text)@ =~= old(text)@ + thousandths_text(value as int));
}

/// The size of a value: its distance from zero.
fn magnitude(value: i64) -> (size: u64)
    ensures
        size == abs_int(value as int),
{
    if value < 0 {
        ((-(value + 1)) as u64) + 1
    } else {
        value as u64
    }
}

/// Appends `value`, read in thousandths, as a decimal number with two
/// places, rounded to the nearest with a five rounded away from zero.
pub fn push_hundredths(text: &mut String, value: i64)
    ensures
        final(text)@ == old(text)@ + hundredths_text(value as int),
{
    if value < 0 {
        text.push('-');
    }
    let cents: u64 = (magnitude(value) + 5) / 10;
    push_decimal(text, (cents / 100) as u128);
    text.push('.');
    text.push(digit(((cents / 10) % 10) as u8));
    text.push(digit((cents % 10) as u8));
    assert(final(text)@ =~= old(text)@ + hundredths_text(value as int));
}

/// Appends `value`, read in thousandths, as a decimal number with four places.
pub fn push_ten_thousandths(text: &mut String, value: i64)
    ensures
        final(text)@ == old(text)@ + ten_thousandths_text(value as int),
{
    push_thousandths(text, value);
    text.push('0');
    assert(final(text)@ =~= old(text)@ + ten_thousandths_text(value as int));
}

} // verus!
