//! Fixed-point percentages.
//!
//! A usage percentage is held in fixed point: `milli` values count
//! thousandths of a percent (`93_500` is `93.5%`), the resolution at which
//! page text is read; `tenths` values count tenths of a percent (`935` is
//! `93.5%`), the resolution of emitted samples and of the warning threshold.

use crate::strutil::string_of_chars;
use vstd::prelude::*;

verus! {

/// Largest valid value in thousandths of a percent (`100%`).
pub const MAX_MILLI: u32 = 100_000;

/// Largest valid value in tenths of a percent (`100%`).
pub const MAX_TENTHS: u32 = 1000;

/// Rounding of a milli-percent value to the nearest tenth of a percent,
/// halves rounding up.
pub open spec fn spec_round_tenths(milli: nat) -> nat {
    (milli + 50) / 100
}

/// Absolute difference of two values in tenths of a percent.
pub open spec fn spec_tenths_diff(a: nat, b: nat) -> nat {
    if a >= b {
        (a - b) as nat
    } else {
        (b - a) as nat
    }
}

/// Rounds a milli-percent value to the nearest tenth of a percent.
pub fn round_tenths(milli: u32) -> (r: u32)
    requires
        milli <= MAX_MILLI,
    ensures
        r == spec_round_tenths(milli as nat),
        r <= MAX_TENTHS,
{
    (milli + 50) / 100
}

/// Absolute difference of two values in tenths of a percent.
pub fn tenths_diff(a: u32, b: u32) -> (r: u32)
    ensures
        r == spec_tenths_diff(a as nat, b as nat),
{
    if a >= b {
        a - b
    } else {
        b - a
    }
}

/// The character of one decimal digit.
pub open spec fn spec_digit_char(d: nat) -> char {
    if d == 0 {
        '0'
    } else if d == 1 {
        '1'
    } else if d == 2 {
        '2'
    } else if d == 3 {
        '3'
    } else if d == 4 {
        '4'
    } else if d == 5 {
        '5'
    } else if d == 6 {
        '6'
    } else if d == 7 {
        '7'
    } else if d == 8 {
        '8'
    } else {
        '9'
    }
}

/// Decimal representation of a natural number, most significant digit first,
/// without leading zeros (a single `'0'` for zero).
pub open spec fn spec_dec_rep(n: nat) -> Seq<char>
    decreases n,
{
    if n < 10 {
        seq![spec_digit_char(n)]
    } else {
        spec_dec_rep(n / 10).push(spec_digit_char(n % 10))
    }
}

/// Rendering of a tenths-of-a-percent value with one decimal place:
/// `935` renders as `93.5`.
pub open spec fn spec_tenths_rep(t: nat) -> Seq<char> {
    spec_dec_rep(t / 10) + seq!['.'] + seq![spec_digit_char(t % 10)]
}

/// The character of one decimal digit.
pub fn digit_char(d: u32) -> (c: char)
    requires
        d < 10,
    ensures
        c == spec_digit_char(d as nat),
{
    match d {
        0 => '0',
        1 => '1',
        2 => '2',
        3 => '3',
        4 => '4',
        5 => '5',
        6 => '6',
        7 => '7',
        8 => '8',
        _ => '9',
    }
}

/// Appends the decimal representation of `n`.
fn push_dec(n: u32, out: &mut Vec<char>)
    ensures
        final(out)@ == old(out)@ + spec_dec_rep(n as nat),
    decreases n,
{
    if n >= 10 {
        push_dec(n / 10, out);
    }
    out.push(digit_char(n % 10));
    assert(out@ =~= old(out)@ + spec_dec_rep(n as nat));
}

/// The decimal representation of `n` as a string.
pub fn dec_string(n: u32) -> (r: String)
    ensures
        r@ == spec_dec_rep(n as nat),
{
    let mut out: Vec<char> = Vec::new();
    push_dec(n, &mut out);
    string_of_chars(&out)
}

/// Renders a tenths-of-a-percent value with one decimal place:
/// `tenths_string(935)` is `"93.5"`.
pub fn tenths_string(t: u32) -> (r: String)
    ensures
        r@ == spec_tenths_rep(t as nat),
{
    let mut out: Vec<char> = Vec::new();
    push_dec(t / 10, &mut out);
    out.push('.');
    out.push(digit_char(t % 10));
    assert(out@ =~= spec_tenths_rep(t as nat));
    string_of_chars(&out)
}

} // verus!
