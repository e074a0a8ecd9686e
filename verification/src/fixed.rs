//! Decimal text of natural numbers and of nanosecond counts shown as
//! milliseconds with four fractional digits.
//!
//! The digits are those that binary64 arithmetic gives: the count divided by
//! one million as a number of 53 significant bits, and that number rounded to
//! four decimals. All of it is computed in whole numbers.

use vstd::prelude::*;
use vstd::string::*;
use vstd::arithmetic::div_mod::lemma_div_is_ordered_by_denominator;
use crate::binary::{
    held, held_is_near, hold, nearest, nearest_is_within_half, round_nearest, scaled,
    scaled_keeps_ratio, FULL_RANGE, HALF_RANGE, PER_MILLI, SCALED_FROM,
};

verus! {

/// The character of the decimal digit `d`.
pub open spec fn digit_char(d: nat) -> char
    recommends
        d < 10,
{
    if d == 0 {
        '0'
    } else if d == 1 {
        '1'
    } else if d == 2 {
        '2'
    } else if d == 3 {
        '3'
    } else if d == 4 {
        '4'
    } else if d == 5 {
        '5'
    } else if d == 6 {
        '6'
    } else if d == 7 {
        '7'
    } else if d == 8 {
        '8'
    } else {
        '9'
    }
}

/// The decimal numeral of `n`, without leading zeros (`0` is "0").
pub open spec fn decimal(n: nat) -> Seq<char>
    decreases n,
{
    if n < 10 {
        seq![digit_char(n)]
    } else {
        decimal(n / 10).push(digit_char(n % 10))
    }
}

/// The four decimal digits of `f`, leading zeros kept.
pub open spec fn fraction4(f: nat) -> Seq<char>
    recommends
        f < 10000,
{
    seq![
        digit_char(f / 1000),
        digit_char((f / 100) % 10),
        digit_char((f / 10) % 10),
        digit_char(f % 10),
    ]
}

/// `ns` nanoseconds in ten-thousandths of a millisecond, as binary floating
/// point with 53 significant bits (binary64) arrives at them. The count is
/// taken as such a number, divided by the nanoseconds in a millisecond, and
/// the quotient, itself rounded to 53 bits, is rounded to a whole number of
/// ten-thousandths. Each rounding goes to the nearest value and, between two
/// equally near, to the even one.
pub open spec fn ten_thousandths(ns: nat) -> nat {
    let (v, t) = scaled(held(ns), 1);
    let m = nearest(v, PER_MILLI as nat);
    nearest(m * 10_000, t)
}

/// `ns` nanoseconds written as milliseconds in fixed point: the whole
/// milliseconds, a point, and exactly four fractional digits.
pub open spec fn millis_text(ns: nat) -> Seq<char> {
    let q = ten_thousandths(ns);
    decimal(q / 10000) + seq!['.'] + fraction4(q % 10000)
}

/// The number that the decimal digit `c` stands for (0 for any other
/// character).
pub open spec fn digit_value(c: char) -> nat {
    if c == '1' {
        1
    } else if c == '2' {
        2
    } else if c == '3' {
        3
    } else if c == '4' {
        4
    } else if c == '5' {
        5
    } else if c == '6' {
        6
    } else if c == '7' {
        7
    } else if c == '8' {
        8
    } else if c == '9' {
        9
    } else {
        0
    }
}

/// Whether `c` is one of the ten decimal digits.
pub open spec fn is_digit(c: char) -> bool {
    digit_char(digit_value(c)) == c
}

/// The number that a text of decimal digits stands for.
pub open spec fn numeral_value(s: Seq<char>) -> nat
    decreases s.len(),
{
    if s.len() == 0 {
        0
    } else {
        numeral_value(s.drop_last()) * 10 + digit_value(s.last())
    }
}

/// Every digit's character is a digit and stands for that digit.
pub proof fn digit_char_is_digit(d: nat)
    requires
        d < 10,
    ensures
        is_digit(digit_char(d)),
        digit_value(digit_char(d)) == d,
{
}

/// The decimal numeral of `n` is made of digits only, stands for `n`, and
/// begins with a zero only where `n` is a single digit.
pub proof fn decimal_reads_back(n: nat)
    ensures
        decimal(n).len() >= 1,
        forall|i: int| 0 <= i < decimal(n).len() ==> is_digit(#[trigger] decimal(n)[i]),
        numeral_value(decimal(n)) == n,
        n >= 10 ==> decimal(n)[0] != '0',
    decreases n,
{
    if n < 10 {
        digit_char_is_digit(n);
        assert(decimal(n).drop_last() =~= Seq::<char>::empty());
        assert(numeral_value(decimal(n)) == n) by {
            reveal_with_fuel(numeral_value, 2);
        }
    } else {
        decimal_reads_back(n / 10);
        digit_char_is_digit(n % 10);
        let head = decimal(n / 10);
        assert(decimal(n).drop_last() =~= head);
        assert(decimal(n).last() == digit_char(n % 10));
        assert(decimal(n)[0] == head[0]);
        if n / 10 < 10 {
            assert(head[0] == digit_char(n / 10));
        }
        assert forall|i: int| 0 <= i < decimal(n).len() implies is_digit(
            #[trigger] decimal(n)[i],
        ) by {
            if i < head.len() {
                assert(decimal(n)[i] == head[i]);
            }
        }
    }
}

/// The four fractional digits are digits and stand for `f`.
pub proof fn fraction4_reads_back(f: nat)
    requires
        f < 10000,
    ensures
        fraction4(f).len() == 4,
        forall|i: int| 0 <= i < 4 ==> is_digit(#[trigger] fraction4(f)[i]),
        numeral_value(fraction4(f)) == f,
{
    let s = fraction4(f);
    digit_char_is_digit(f / 1000);
    digit_char_is_digit((f / 100) % 10);
    digit_char_is_digit((f / 10) % 10);
    digit_char_is_digit(f % 10);
    let s3 = s.drop_last();
    let s2 = s3.drop_last();
    let s1 = s2.drop_last();
    assert(s1.drop_last() =~= Seq::<char>::empty());
    assert(numeral_value(s1) == f / 1000) by {
        reveal_with_fuel(numeral_value, 2);
    }
    assert(numeral_value(s2) == numeral_value(s1) * 10 + (f / 100) % 10);
    assert(numeral_value(s3) == numeral_value(s2) * 10 + (f / 10) % 10);
    assert(numeral_value(s) == numeral_value(s3) * 10 + f % 10);
}

/// The quotient of a count that is not zero has 53 significant bits: scaled
/// by its power of two it lies from `HALF_RANGE` to `FULL_RANGE`, at most
/// half a unit from the scaled true quotient.
pub proof fn quotient_has_53_bits(ns: nat)
    requires
        0 < ns <= u64::MAX,
    ensures
        HALF_RANGE <= nearest(scaled(held(ns), 1).0, PER_MILLI as nat) <= FULL_RANGE,
        scaled(held(ns), 1).0 == held(ns) * scaled(held(ns), 1).1,
        2 * (nearest(scaled(held(ns), 1).0, PER_MILLI as nat) * PER_MILLI) <= 2 * scaled(
            held(ns),
            1,
        ).0 + PER_MILLI,
        2 * scaled(held(ns), 1).0 <= 2 * (nearest(scaled(held(ns), 1).0, PER_MILLI as nat)
            * PER_MILLI) + PER_MILLI,
{
    held_is_near(ns);
    scaled_keeps_ratio(held(ns), 1);
    nearest_is_within_half(scaled(held(ns), 1).0, PER_MILLI as nat);
}

/// A count that 53 bits hold exactly is shown as the nearest number of
/// ten-thousandths: the true quotient lies at most half a unit (50 ns) from
/// what is shown. So a count that is not exactly between two units is shown
/// as the nearer one, and one that is, as one of its two neighbours.
pub proof fn rounding_is_nearest(ns: nat)
    requires
        ns < FULL_RANGE,
    ensures
        ns <= 100 * ten_thousandths(ns) + 50,
        100 * ten_thousandths(ns) <= ns + 50,
        ns % 100 != 50 ==> ten_thousandths(ns) == nearest(ns, 100),
        ns % 100 == 50 ==> ten_thousandths(ns) == ns / 100 || ten_thousandths(ns) == ns / 100
            + 1,
{
    let q = ten_thousandths(ns);
    assert(held(ns) == ns);
    if ns == 0 {
        assert(scaled(0, 1) == (0nat, 1nat));
        assert(q == 0);
    } else {
        scaled_keeps_ratio(ns, 1);
        let (v, t) = scaled(ns, 1);
        let m = nearest(v, PER_MILLI as nat);
        nearest_is_within_half(v, PER_MILLI as nat);
        nearest_is_within_half(m * 10_000, t);
        assert(v == ns * t);
        assert(2 * t > PER_MILLI) by (nonlinear_arith)
            requires
                v == ns * t,
                v >= SCALED_FROM,
                ns < FULL_RANGE,
        {
        }
        assert(100 * q <= ns + 50 && ns <= 100 * q + 50) by (nonlinear_arith)
            requires
                v == ns * t,
                2 * t > 1_000_000,
                2 * (m * 1_000_000) <= 2 * v + 1_000_000,
                2 * v <= 2 * (m * 1_000_000) + 1_000_000,
                2 * (q * t) <= 2 * (m * 10_000) + t,
                2 * (m * 10_000) <= 2 * (q * t) + t,
        {
            assert(200 * (q * t) <= 2 * (ns * t) + 1_000_000 + 100 * t);
            assert(2 * (ns * t) <= 200 * (q * t) + 1_000_000 + 100 * t);
            assert(200 * (q * t) == (200 * q) * t);
            assert(2 * (ns * t) == (2 * ns) * t);
            assert((200 * q) * t < (2 * ns + 102) * t);
            assert((2 * ns) * t < (200 * q + 102) * t);
            assert(200 * q < 2 * ns + 102);
            assert(2 * ns < 200 * q + 102);
        }
    }
}

/// The milliseconds are written with exactly four fractional digits: the
/// text ends in a point and four digits, only digits stand before the point,
/// and the two numerals read back as the rounded count of ten-thousandths.
pub proof fn millis_text_shape(ns: nat)
    ensures
        millis_text(ns).len() >= 6,
        millis_text(ns)[millis_text(ns).len() - 5] == '.',
        forall|i: int|
            0 <= i < millis_text(ns).len() && i != millis_text(ns).len() - 5 ==> is_digit(
                #[trigger] millis_text(ns)[i],
            ),
        numeral_value(millis_text(ns).subrange(0, millis_text(ns).len() - 5)) * 10000
            + numeral_value(
            millis_text(ns).subrange(millis_text(ns).len() - 4, millis_text(ns).len() as int),
        ) == ten_thousandths(ns),
{
    let q = ten_thousandths(ns);
    let whole = decimal(q / 10000);
    let frac = fraction4(q % 10000);
    let text = millis_text(ns);
    decimal_reads_back(q / 10000);
    fraction4_reads_back(q % 10000);
    assert(text.len() == whole.len() + 5);
    assert(text.subrange(0, text.len() - 5) =~= whole);
    assert(text.subrange(text.len() - 4, text.len() as int) =~= frac);
    assert forall|i: int| 0 <= i < text.len() && i != text.len() - 5 implies is_digit(
        #[trigger] text[i],
    ) by {
        if i < whole.len() {
            assert(text[i] == whole[i]);
        } else {
            assert(text[i] == frac[i - whole.len() - 1]);
        }
    }
}

/// The one-character text of a decimal digit.
fn digit_str(d: u64) -> (s: &'static str)
    requires
        d < 10,
    ensures
        s@ == seq![digit_char(d as nat)],
{
    proof {
        reveal_strlit("0");
        reveal_strlit("1");
        reveal_strlit("2");
        reveal_strlit("3");
        reveal_strlit("4");
        reveal_strlit("5");
        reveal_strlit("6");
        reveal_strlit("7");
        reveal_strlit("8");
        reveal_strlit("9");
    }
    let s: &'static str = if d == 0 {
        "0"
    } else if d == 1 {
        "1"
    } else if d == 2 {
        "2"
    } else if d == 3 {
        "3"
    } else if d == 4 {
        "4"
    } else if d == 5 {
        "5"
    } else if d == 6 {
        "6"
    } else if d == 7 {
        "7"
    } else if d == 8 {
        "8"
    } else {
        "9"
    };
    assert(s@ =~= seq![digit_char(d as nat)]);
    s
}

/// Appends the decimal numeral of `n` to `out`.
pub fn push_decimal(out: &mut String, n: u64)
    ensures
        final(out)@ == old(out)@ + decimal(n as nat),
    decreases n,
{
    if n < 10 {
        out.append(digit_str(n));
    } else {
        push_decimal(out, n / 10);
        out.append(digit_str(n % 10));
        assert(final(out)@ =~= old(out)@ + decimal(n as nat));
    }
}

/// `ns` nanoseconds in ten-thousandths of a millisecond, rounded as binary
/// floating point with 53 significant bits rounds them.
pub fn round_ten_thousandths(ns: u64) -> (q: u64)
    ensures
        q as nat == ten_thousandths(ns as nat),
{
    let h: u128 = hold(ns);
    if h == 0 {
        assert(scaled(0, 1) == (0nat, 1nat));
        return 0;
    }
    let mut v: u128 = h;
    let mut t: u128 = 1;
    while v < SCALED_FROM
        invariant
            0 < t <= v < 2 * SCALED_FROM,
            v == h * t,
            scaled(v as nat, t as nat) == scaled(h as nat, 1),
        decreases (if v < SCALED_FROM { SCALED_FROM - v } else { 0 }),
    {
        assert(2 * v == h * (2 * t)) by (nonlinear_arith)
            requires
                v == h * t,
        {
        }
        v = 2 * v;
        t = 2 * t;
    }
    assert(t >= 16) by (nonlinear_arith)
        requires
            v == h * t,
            v >= SCALED_FROM,
            h <= 0x1_0000_0000_0000_0800,
    {
    }
    let m: u128 = round_nearest(v, PER_MILLI);
    let scaled_up: u128 = m * 10_000;
    proof {
        lemma_div_is_ordered_by_denominator(scaled_up as int, 16, t as int);
    }
    let q: u128 = round_nearest(scaled_up, t);
    q as u64
}

/// Appends `ns` nanoseconds, written as milliseconds with four fractional
/// digits, to `out`.
pub fn push_millis(out: &mut String, ns: u64)
    ensures
        final(out)@ == old(out)@ + millis_text(ns as nat),
{
    let q: u64 = round_ten_thousandths(ns);
    let f: u64 = q % 10000;
    push_decimal(out, q / 10000);
    out.append(".");
    out.append(digit_str(f / 1000));
    out.append(digit_str((f / 100) % 10));
    out.append(digit_str((f / 10) % 10));
    out.append(digit_str(f % 10));
    proof {
        reveal_strlit(".");
        assert("."@ =~= seq!['.']);
        assert(final(out)@ =~= old(out)@ + millis_text(ns as nat));
    }
}

} // verus!
