//! Decimal numerals as text: an optional sign, digits, and an optional point
//! with more digits. At least one digit must stand before or after the point.

use vstd::prelude::*;
use crate::decimal::Decimal;
use crate::decimal::SCALE;
use crate::decimal::decimal_of;
use crate::decimal::narrowed;

verus! {

/// One of the ten digits, as a byte of text.
pub open spec fn is_digit(byte: u8) -> bool {
    0x30 <= byte <= 0x39
}

pub open spec fn all_digits(text: Seq<u8>) -> bool {
    forall|i: int| 0 <= i < text.len() ==> is_digit(#[trigger] text[i])
}

/// The number that a run of digits writes.
pub open spec fn digits_value(digits: Seq<u8>) -> int
    decreases digits.len(),
{
    if digits.len() == 0 {
        0
    } else {
        digits_value(digits.drop_last()) * 10 + (digits.last() - 0x30)
    }
}

/// How many digits stand at the start of `text`.
pub open spec fn digit_run(text: Seq<u8>) -> nat
    decreases text.len(),
{
    if text.len() == 0 || !is_digit(text[0]) {
        0
    } else {
        1 + digit_run(text.skip(1))
    }
}

/// The digit at place `i` behind the point; zero where the digits have ended.
pub open spec fn fraction_digit(fraction: Seq<u8>, i: int) -> int {
    if 0 <= i < fraction.len() {
        fraction[i] - 0x30
    } else {
        0
    }
}

/// The millionths that the digits behind the point come to: the first six
/// digits, and one more millionth where the seventh digit is five or above.
pub open spec fn fraction_micros(fraction: Seq<u8>) -> int {
    fraction_digit(fraction, 0) * 100_000 + fraction_digit(fraction, 1) * 10_000 + fraction_digit(
        fraction,
        2,
    ) * 1_000 + fraction_digit(fraction, 3) * 100 + fraction_digit(fraction, 4) * 10
        + fraction_digit(fraction, 5) + if fraction_digit(fraction, 6) >= 5 {
        1int
    } else {
        0int
    }
}

/// The text starts with a plus or a minus sign.
pub open spec fn has_sign(text: Seq<u8>) -> bool {
    text.len() > 0 && (text[0] == 0x2d || text[0] == 0x2b)
}

/// The decimal that `text` writes, if it is a numeral. Digits beyond the sixth
/// behind the point are rounded off, halves away from zero; a numeral whose
/// value is out of range gives `NaN`.
pub open spec fn parsed(text: Seq<u8>) -> Option<Decimal> {
    let body = if has_sign(text) {
        text.skip(1)
    } else {
        text
    };
    let whole = body.take(digit_run(body) as int);
    let rest = body.skip(digit_run(body) as int);
    let fraction = if rest.len() > 0 {
        rest.skip(1)
    } else {
        rest
    };
    if (rest.len() == 0 || rest[0] == 0x2e) && all_digits(fraction) && whole.len() + fraction.len()
        > 0 {
        let magnitude = digits_value(whole) * SCALE + fraction_micros(fraction);
        Some(
            decimal_of(
                if has_sign(text) && text[0] == 0x2d {
                    -magnitude
                } else {
                    magnitude
                },
            ),
        )
    } else {
        None
    }
}

/// A run of digits that ends at the end of the text or before a byte that is
/// no digit is the whole run of digits at the start.
proof fn lemma_digit_run(text: Seq<u8>, n: int)
    requires
        0 <= n <= text.len(),
        forall|k: int| 0 <= k < n ==> is_digit(#[trigger] text[k]),
        n == text.len() || !is_digit(text[n]),
    ensures
        digit_run(text) == n,
    decreases n,
{
    if n > 0 {
        let tail = text.skip(1);
        assert forall|k: int| 0 <= k < n - 1 implies is_digit(#[trigger] tail[k]) by {
            assert(tail[k] == text[k + 1]);
        }
        lemma_digit_run(tail, n - 1);
    }
}

/// What a run of digits writes is not below zero.
proof fn lemma_digits_value_sign(digits: Seq<u8>)
    requires
        all_digits(digits),
    ensures
        digits_value(digits) >= 0,
    decreases digits.len(),
{
    if digits.len() > 0 {
        assert(is_digit(digits.last()));
        lemma_digits_value_sign(digits.drop_last());
    }
}

fn is_digit_byte(byte: u8) -> (b: bool)
    ensures
        b == is_digit(byte),
{
    0x30 <= byte && byte <= 0x39
}

/// The digit at place `i` behind the point, where the digits behind the point
/// begin at `from`.
fn digit_behind_point(text: &[u8], from: usize, i: usize) -> (digit: i128)
    requires
        from <= text@.len(),
        all_digits(text@.skip(from as int)),
    ensures
        digit == fraction_digit(text@.skip(from as int), i as int),
        0 <= digit <= 9,
{
    if i < text.len() - from {
        assert(text@.skip(from as int)[i as int] == text@[from + i]);
        assert(is_digit(text@.skip(from as int)[i as int]));
        (text[from + i] - 0x30) as i128
    } else {
        0
    }
}

/// The bound at which the digits before the point stop being counted: a
/// numeral with that many whole units is out of range whatever follows.
pub open spec fn capped(value: int) -> int {
    if value < 10_000_000_000_000 {
        value
    } else {
        10_000_000_000_000
    }
}

/// Reads the digits that stand at `start`: where they end, and what they
/// write, capped.
fn scan_digits(text: &[u8], start: usize) -> (r: (usize, i128))
    requires
        start <= text@.len(),
    ensures
        r.0 - start == digit_run(text@.skip(start as int)),
        start <= r.0 <= text@.len(),
        r.1 == capped(digits_value(text@.subrange(start as int, r.0 as int))),
        all_digits(text@.subrange(start as int, r.0 as int)),
        0 <= r.1,
{
    let len = text.len();
    let ghost body = text@.skip(start as int);
    let mut i: usize = start;
    let mut whole: i128 = 0;
    while i < len && is_digit_byte(text[i])
        invariant
            start <= i <= len,
            len == text@.len(),
            body == text@.skip(start as int),
            all_digits(text@.subrange(start as int, i as int)),
            0 <= whole <= 10_000_000_000_000,
            whole == capped(digits_value(text@.subrange(start as int, i as int))),
        decreases len - i,
    {
        proof {
            let shorter = text@.subrange(start as int, i as int);
            let longer = text@.subrange(start as int, i + 1);
            assert(longer.drop_last() =~= shorter);
            assert(longer.last() == text@[i as int]);
            lemma_digits_value_sign(shorter);
            assert forall|k: int| 0 <= k < longer.len() implies is_digit(#[trigger] longer[k]) by {
                if k < shorter.len() {
                    assert(longer[k] == shorter[k]);
                }
            }
        }
        let digit = (text[i] - 0x30) as i128;
        whole = whole * 10 + digit;
        if whole > 10_000_000_000_000 {
            whole = 10_000_000_000_000;
        }
        i = i + 1;
    }
    proof {
        assert forall|k: int| 0 <= k < i - start implies is_digit(#[trigger] body[k]) by {
            assert(body[k] == text@.subrange(start as int, i as int)[k]);
        }
        if i < len {
            assert(body[i - start] == text@[i as int]);
        }
        lemma_digit_run(body, i - start);
    }
    (i, whole)
}

/// Whether only digits stand from `from` on.
fn only_digits_from(text: &[u8], from: usize) -> (b: bool)
    requires
        from <= text@.len(),
    ensures
        b == all_digits(text@.skip(from as int)),
{
    let len = text.len();
    let ghost fraction = text@.skip(from as int);
    let mut j: usize = from;
    while j < len
        invariant
            from <= j <= len,
            len == text@.len(),
            fraction == text@.skip(from as int),
            forall|k: int| 0 <= k < j - from ==> is_digit(#[trigger] fraction[k]),
        decreases len - j,
    {
        assert(fraction[j - from] == text@[j as int]);
        if !is_digit_byte(text[j]) {
            return false;
        }
        j = j + 1;
    }
    true
}

/// The millionths that the digits from `from` on come to as digits behind the point.
fn millionths_behind_point(text: &[u8], from: usize) -> (micros: i128)
    requires
        from <= text@.len(),
        all_digits(text@.skip(from as int)),
    ensures
        micros == fraction_micros(text@.skip(from as int)),
        0 <= micros <= 1_000_000,
{
    let rounding: i128 = if digit_behind_point(text, from, 6) >= 5 {
        1
    } else {
        0
    };
    digit_behind_point(text, from, 0) * 100_000 + digit_behind_point(text, from, 1) * 10_000
        + digit_behind_point(text, from, 2) * 1_000 + digit_behind_point(text, from, 3) * 100
        + digit_behind_point(text, from, 4) * 10 + digit_behind_point(text, from, 5) + rounding
}

/// Reads a decimal numeral. There is no result where `text` is no numeral.
pub fn parse_decimal(text: &[u8]) -> (r: Option<Decimal>)
    ensures
        r == parsed(text@),
{
    let len = text.len();
    let signed = len > 0 && (text[0] == 0x2d || text[0] == 0x2b);
    let negative = signed && text[0] == 0x2d;
    let start: usize = if signed {
        1
    } else {
        0
    };
    let ghost body = text@.skip(start as int);
    assert(body =~= if has_sign(text@) {
        text@.skip(1)
    } else {
        text@
    });
    let (point, whole) = scan_digits(text, start);
    let ghost digits = body.take(digit_run(body) as int);
    let ghost rest = body.skip(digit_run(body) as int);
    assert(digits =~= text@.subrange(start as int, point as int));
    assert(rest =~= text@.skip(point as int));
    let mut from: usize = point;
    if point < len {
        if text[point] != 0x2e {
            return None;
        }
        from = point + 1;
    }
    let ghost fraction = text@.skip(from as int);
    assert(fraction =~= if rest.len() > 0 {
        rest.skip(1)
    } else {
        rest
    });
    if !only_digits_from(text, from) {
        return None;
    }
    if point - start == 0 && len - from == 0 {
        return None;
    }
    let magnitude: i128 = whole * 1_000_000 + millionths_behind_point(text, from);
    proof {
        lemma_digits_value_sign(digits);
        assert(digits_value(digits) >= 10_000_000_000_000 ==> digits_value(digits) * SCALE
            >= 10_000_000_000_000_000_000) by (nonlinear_arith)
            requires
                SCALE == 1_000_000,
        ;
    }
    Some(
        narrowed(
            if negative {
                -magnitude
            } else {
                magnitude
            },
        ),
    )
}

} // verus!
