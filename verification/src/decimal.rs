//! Decimal text of fixed-point numbers, as ASCII bytes.
//!
//! A number is given in thousandths. Its text is an optional minus sign, the
//! integer part without leading zeros, a point, and one to three fractional
//! digits: trailing zeros are dropped, but one fractional digit always stays.

use vstd::prelude::*;

verus! {

/// The byte `0`.
pub const ASCII_ZERO: u8 = 48;

/// The byte `-`.
pub const ASCII_MINUS: u8 = 45;

/// The byte `.`.
pub const ASCII_POINT: u8 = 46;

/// How many thousandths make one.
pub const THOUSAND: u64 = 1000;

/// The byte that shows the digit `d`.
pub open spec fn digit(d: int) -> u8
    recommends
        0 <= d < 10,
{
    (ASCII_ZERO + d) as u8
}

/// The decimal digits of `n`, most significant first, without leading zeros.
pub open spec fn digits(n: nat) -> Seq<u8>
    decreases n,
{
    if n < 10 {
        seq![digit(n as int)]
    } else {
        digits(n / 10).push(digit((n % 10) as int))
    }
}

/// The number that a sequence of digit bytes denotes, read most significant
/// digit first.
pub open spec fn digits_value(text: Seq<u8>) -> nat
    decreases text.len(),
{
    if text.len() == 0 {
        0
    } else {
        (digits_value(text.drop_last()) * 10 + (text.last() - ASCII_ZERO)) as nat
    }
}

/// The fractional digits of `m` thousandths, for `m` below a thousand.
pub open spec fn fraction_digits(m: nat) -> Seq<u8>
    recommends
        m < 1000,
{
    if m % 100 == 0 {
        seq![digit((m / 100) as int)]
    } else if m % 10 == 0 {
        seq![digit((m / 100) as int), digit((m / 10 % 10) as int)]
    } else {
        seq![digit((m / 100) as int), digit((m / 10 % 10) as int), digit((m % 10) as int)]
    }
}

/// The magnitude of `value`.
pub open spec fn magnitude(value: int) -> nat {
    if value < 0 {
        (-value) as nat
    } else {
        value as nat
    }
}

/// The decimal text of a number given in thousandths.
pub open spec fn decimal_text(thousandths: int) -> Seq<u8> {
    let sign = if thousandths < 0 {
        seq![ASCII_MINUS]
    } else {
        Seq::<u8>::empty()
    };
    sign + digits(magnitude(thousandths) / 1000).push(ASCII_POINT) + fraction_digits(
        magnitude(thousandths) % 1000,
    )
}

/// `numerator / denominator` rounded to the nearest integer, a half going
/// away from zero.
pub open spec fn round_half_away(numerator: int, denominator: int) -> int
    recommends
        denominator > 0,
{
    if numerator >= 0 {
        (2 * numerator + denominator) / (2 * denominator)
    } else {
        -((2 * (-numerator) + denominator) / (2 * denominator))
    }
}

/// Whether a byte is one of the ten digits.
pub open spec fn is_digit(byte: u8) -> bool {
    ASCII_ZERO <= byte <= ASCII_ZERO + 9
}

/// The place of the first `byte` in `text`, or the length of `text` if there
/// is none.
pub open spec fn first_index_of(text: Seq<u8>, byte: u8) -> int
    decreases text.len(),
{
    if text.len() == 0 || text[0] == byte {
        0
    } else {
        1 + first_index_of(text.skip(1), byte)
    }
}

/// The thousandths that one to three fractional digits denote.
pub open spec fn fraction_value(text: Seq<u8>) -> nat {
    if text.len() == 1 {
        digits_value(text) * 100
    } else if text.len() == 2 {
        digits_value(text) * 10
    } else {
        digits_value(text)
    }
}

/// The number, in thousandths, that a decimal text denotes: the digits
/// before the point count ones, those after it tenths, hundredths and
/// thousandths, and a leading minus sign negates.
pub open spec fn decimal_value(text: Seq<u8>) -> int {
    let negative = text.len() > 0 && text[0] == ASCII_MINUS;
    let unsigned = if negative {
        text.skip(1)
    } else {
        text
    };
    let point = first_index_of(unsigned, ASCII_POINT);
    let size = (digits_value(unsigned.take(point)) * 1000 + fraction_value(
        unsigned.skip(point + 1),
    )) as int;
    if negative {
        -size
    } else {
        size
    }
}

/// The digits of a number are ASCII digits, start with no zero unless the
/// number is below ten, and denote that number.
pub proof fn lemma_digits_denote(n: nat)
    ensures
        digits(n).len() >= 1,
        forall|i: int| 0 <= i < digits(n).len() ==> is_digit(#[trigger] digits(n)[i]),
        n >= 10 ==> digits(n)[0] != ASCII_ZERO,
        digits_value(digits(n)) == n,
    decreases n,
{
    if n < 10 {
        assert(digits(n).drop_last() =~= Seq::<u8>::empty());
        assert(digits_value(digits(n).drop_last()) == 0);
    } else {
        lemma_digits_denote(n / 10);
        assert(digits(n).drop_last() =~= digits(n / 10));
        assert(digits(n)[0] == digits(n / 10)[0]);
    }
}

/// The first `byte` of a text that has none before a given place is at that
/// place.
pub proof fn lemma_first_index_of(before: Seq<u8>, byte: u8, after: Seq<u8>)
    requires
        forall|i: int| 0 <= i < before.len() ==> #[trigger] before[i] != byte,
    ensures
        first_index_of(before.push(byte) + after, byte) == before.len(),
    decreases before.len(),
{
    let text = before.push(byte) + after;
    if before.len() == 0 {
        assert(text[0] == byte);
    } else {
        assert(text[0] == before[0]);
        assert(text.skip(1) =~= before.skip(1).push(byte) + after);
        assert forall|i: int| 0 <= i < before.skip(1).len() implies #[trigger] before.skip(1)[i]
            != byte by {
            assert(before.skip(1)[i] == before[i + 1]);
        }
        lemma_first_index_of(before.skip(1), byte, after);
    }
}

/// The fractional digits of a number below a thousand are one to three
/// digits, and denote that number of thousandths.
pub proof fn lemma_fraction_denotes(m: nat)
    requires
        m < 1000,
    ensures
        1 <= fraction_digits(m).len() <= 3,
        forall|i: int|
            0 <= i < fraction_digits(m).len() ==> is_digit(#[trigger] fraction_digits(m)[i]),
        fraction_value(fraction_digits(m)) == m,
{
    reveal_with_fuel(digits_value, 4);
    let text = fraction_digits(m);
    let a = digit((m / 100) as int);
    let b = digit((m / 10 % 10) as int);
    if m % 100 == 0 {
        assert(text.drop_last() =~= Seq::<u8>::empty());
    } else if m % 10 == 0 {
        assert(text.drop_last() =~= seq![a]);
        assert(seq![a].drop_last() =~= Seq::<u8>::empty());
    } else {
        assert(text.drop_last() =~= seq![a, b]);
        assert(seq![a, b].drop_last() =~= seq![a]);
        assert(seq![a].drop_last() =~= Seq::<u8>::empty());
    }
}

/// Every byte of a decimal text is a digit, a minus sign or a point.
pub proof fn lemma_decimal_text_bytes(thousandths: int)
    ensures
        decimal_text(thousandths).len() >= 3,
        forall|i: int|
            0 <= i < decimal_text(thousandths).len() ==> {
                let byte = #[trigger] decimal_text(thousandths)[i];
                is_digit(byte) || byte == ASCII_MINUS || byte == ASCII_POINT
            },
{
    let size = magnitude(thousandths);
    lemma_digits_denote(size / 1000);
    lemma_fraction_denotes(size % 1000);
    let whole = digits(size / 1000);
    let fraction = fraction_digits(size % 1000);
    let text = decimal_text(thousandths);
    let shift: int = if thousandths < 0 {
        1
    } else {
        0
    };
    assert forall|i: int| 0 <= i < text.len() implies {
        let byte = #[trigger] text[i];
        is_digit(byte) || byte == ASCII_MINUS || byte == ASCII_POINT
    } by {
        if shift <= i < shift + whole.len() {
            assert(text[i] == whole[i - shift]);
        } else if i > shift + whole.len() {
            assert(text[i] == fraction[i - shift - whole.len() - 1]);
        }
    }
}

/// A decimal text denotes the number it was written for: reading it back
/// loses nothing.
pub proof fn lemma_decimal_text_denotes(thousandths: int)
    ensures
        decimal_value(decimal_text(thousandths)) == thousandths,
{
    let size = magnitude(thousandths);
    lemma_digits_denote(size / 1000);
    lemma_fraction_denotes(size % 1000);
    let whole = digits(size / 1000);
    let fraction = fraction_digits(size % 1000);
    let text = decimal_text(thousandths);
    let unsigned = whole.push(ASCII_POINT) + fraction;
    if thousandths < 0 {
        assert(text[0] == ASCII_MINUS);
        assert(text.skip(1) =~= unsigned);
    } else {
        assert(text =~= unsigned);
        assert(is_digit(whole[0]));
        assert(text[0] != ASCII_MINUS);
    }
    assert forall|i: int| 0 <= i < whole.len() implies #[trigger] whole[i] != ASCII_POINT by {
        assert(is_digit(whole[i]));
    }
    lemma_first_index_of(whole, ASCII_POINT, fraction);
    assert(unsigned.take(whole.len() as int) =~= whole);
    assert(unsigned.skip(whole.len() as int + 1) =~= fraction);
}

/// Two numbers with the same decimal text are the same number.
pub proof fn lemma_decimal_text_is_injective(first: int, second: int)
    requires
        decimal_text(first) == decimal_text(second),
    ensures
        first == second,
{
    lemma_decimal_text_denotes(first);
    lemma_decimal_text_denotes(second);
}

/// Whether `rounded` is the integer nearest to `numerator / denominator`,
/// the farther from zero of the two where the quotient lies halfway between
/// two integers.
pub open spec fn is_nearest(rounded: int, numerator: int, denominator: int) -> bool {
    let excess = 2 * (rounded * denominator - numerator);
    if numerator >= 0 {
        -denominator < excess <= denominator
    } else {
        -denominator <= excess < denominator
    }
}

/// The rounded quotient is the integer nearest to the exact quotient, and
/// the only one: it is off by half of one at most, and where it is off by
/// just a half, it is the farther from zero.
pub proof fn lemma_round_is_nearest(numerator: int, denominator: int)
    requires
        denominator > 0,
    ensures
        is_nearest(round_half_away(numerator, denominator), numerator, denominator),
        -denominator <= 2 * (round_half_away(numerator, denominator) * denominator - numerator)
            <= denominator,
        forall|other: int| #[trigger]
            is_nearest(other, numerator, denominator) ==> other == round_half_away(
                numerator,
                denominator,
            ),
{
    let q = round_half_away(numerator, denominator);
    if numerator >= 0 {
        assert(-denominator < 2 * (q * denominator - numerator) <= denominator)
            by (nonlinear_arith)
            requires
                denominator > 0,
                q == (2 * numerator + denominator) / (2 * denominator),
        ;
    } else {
        let p = (2 * (-numerator) + denominator) / (2 * denominator);
        assert(-denominator < 2 * (p * denominator - (-numerator)) <= denominator)
            by (nonlinear_arith)
            requires
                denominator > 0,
                p == (2 * (-numerator) + denominator) / (2 * denominator),
        ;
        assert(q * denominator == -(p * denominator)) by (nonlinear_arith)
            requires
                q == -p,
        ;
    }
    assert forall|other: int| #[trigger]
        is_nearest(other, numerator, denominator) implies other == q by {
        assert(other == q) by (nonlinear_arith)
            requires
                denominator > 0,
                is_nearest(other, numerator, denominator),
                is_nearest(q, numerator, denominator),
        ;
    }
}

/// Where the denominator divides the numerator, rounding changes nothing.
pub proof fn lemma_round_of_multiple(quotient: int, denominator: int)
    requires
        denominator > 0,
    ensures
        round_half_away(quotient * denominator, denominator) == quotient,
{
    let n = quotient * denominator;
    lemma_round_is_nearest(n, denominator);
    let q = round_half_away(n, denominator);
    assert(q == quotient) by (nonlinear_arith)
        requires
            denominator > 0,
            n == quotient * denominator,
            -denominator <= 2 * (q * denominator - n) <= denominator,
    ;
}

/// The byte of one digit.
fn digit_byte(d: u64) -> (byte: u8)
    requires
        d < 10,
    ensures
        byte == digit(d as int),
{
    ASCII_ZERO + (d as u8)
}

/// Appends the decimal digits of `n` to `out`.
pub fn append_digits(out: &mut Vec<u8>, n: u64)
    ensures
        final(out)@ == old(out)@ + digits(n as nat),
    decreases n,
{
    if n >= 10 {
        append_digits(out, n / 10);
    }
    out.push(digit_byte(n % 10));
    assert(out@ =~= old(out)@ + digits(n as nat));
}

/// Appends the decimal text of a number given in thousandths to `out`.
pub fn append_decimal(out: &mut Vec<u8>, thousandths: i64)
    ensures
        final(out)@ == old(out)@ + decimal_text(thousandths as int),
{
    let wide: i128 = thousandths as i128;
    let size: u64 = if thousandths < 0 {
        out.push(ASCII_MINUS);
        (-wide) as u64
    } else {
        thousandths as u64
    };
    assert(size == magnitude(thousandths as int));
    append_digits(out, size / THOUSAND);
    out.push(ASCII_POINT);
    let m: u64 = size % THOUSAND;
    out.push(digit_byte(m / 100));
    if m % 100 != 0 {
        out.push(digit_byte(m / 10 % 10));
        if m % 10 != 0 {
            out.push(digit_byte(m % 10));
        }
    }
    assert(out@ =~= old(out)@ + decimal_text(thousandths as int));
}

} // verus!
