//! Plain decimal notation of a [`Decimal`], and why it tells the number.

use crate::decimal::{lemma_pow10_positive, lemma_pow10_values, pow10, Decimal, FRACTION_DIGITS};
use vstd::prelude::*;

verus! {

/// The decimal digit `d` as a character.
pub open spec fn digit_char(d: int) -> char
    recommends
        0 <= d < 10,
{
    if d == 0 {
        '0'
    } else if d == 1 {
        '1'
    } else if d == 2 {
        '2'
    } else if d == 3 {
        '3'
    } else if d == 4 {
        '4'
    } else if d == 5 {
        '5'
    } else if d == 6 {
        '6'
    } else if d == 7 {
        '7'
    } else if d == 8 {
        '8'
    } else {
        '9'
    }
}

/// The digits of a natural number, without leading zeros.
pub open spec fn natural_text(n: nat) -> Seq<char>
    decreases n,
{
    if n < 10 {
        seq![digit_char(n as int)]
    } else {
        natural_text(n / 10).push(digit_char((n % 10) as int))
    }
}

/// The digits of `fraction`, a number below `pow10(width)`, written with `width`
/// digits from which the zeros at the end are left out.
pub open spec fn fraction_text(fraction: nat, width: nat) -> Seq<char>
    decreases width,
{
    if fraction == 0 || width == 0 {
        Seq::empty()
    } else {
        let unit = pow10((width - 1) as nat);
        seq![digit_char(fraction as int / unit)] + fraction_text(
            (fraction as int % unit) as nat,
            (width - 1) as nat,
        )
    }
}

/// Plain notation of a number of millionths that is not negative.
pub open spec fn magnitude_text(micros: nat) -> Seq<char> {
    let whole = natural_text(micros / 1_000_000);
    let fraction = micros % 1_000_000;
    if fraction == 0 {
        whole
    } else {
        whole + seq!['.'] + fraction_text(fraction, FRACTION_DIGITS as nat)
    }
}

/// Plain notation of a number of millionths: a minus sign where it is negative,
/// the whole part, and the fractional digits that are needed behind a point.
pub open spec fn decimal_text(micros: int) -> Seq<char> {
    if micros < 0 {
        seq!['-'] + magnitude_text((-micros) as nat)
    } else {
        magnitude_text(micros as nat)
    }
}

/// The digit that a character stands for; -1 for a character that is no digit.
pub open spec fn digit_of(c: char) -> int {
    if c == '0' {
        0
    } else if c == '1' {
        1
    } else if c == '2' {
        2
    } else if c == '3' {
        3
    } else if c == '4' {
        4
    } else if c == '5' {
        5
    } else if c == '6' {
        6
    } else if c == '7' {
        7
    } else if c == '8' {
        8
    } else if c == '9' {
        9
    } else {
        -1
    }
}

/// Whether every character of a text is a digit.
pub open spec fn all_digits(text: Seq<char>) -> bool {
    forall|i: int| 0 <= i < text.len() ==> digit_of(#[trigger] text[i]) >= 0
}

/// The number that a text of digits stands for.
pub open spec fn digits_value(text: Seq<char>) -> int
    decreases text.len(),
{
    if text.len() == 0 {
        0
    } else {
        10 * digits_value(text.drop_last()) + digit_of(text.last())
    }
}

/// A digit in front of a text of digits counts by the power of ten of the
/// text's length.
pub proof fn lemma_digits_value_prepend(c: char, rest: Seq<char>)
    ensures
        digits_value(seq![c] + rest) == digit_of(c) * pow10(rest.len()) + digits_value(rest),
    decreases rest.len(),
{
    let whole = seq![c] + rest;
    if rest.len() == 0 {
        assert(whole.drop_last() =~= Seq::<char>::empty());
        assert(digits_value(whole.drop_last()) == 0);
        assert(whole.last() == c);
        assert(digit_of(c) * pow10(0) == digit_of(c)) by (nonlinear_arith)
            requires
                pow10(0) == 1,
        ;
    } else {
        lemma_digits_value_prepend(c, rest.drop_last());
        assert(whole.drop_last() =~= seq![c] + rest.drop_last());
        assert(whole.last() == rest.last());
        let shorter = pow10((rest.len() - 1) as nat);
        assert(pow10(rest.len()) == 10 * shorter);
        assert(10 * (digit_of(c) * shorter) == digit_of(c) * (10 * shorter)) by (nonlinear_arith);
    }
}

/// The digits of a natural number are digits, at least one, and stand for
/// the number.
pub proof fn lemma_natural_text_value(n: nat)
    ensures
        natural_text(n).len() >= 1,
        all_digits(natural_text(n)),
        digits_value(natural_text(n)) == n,
    decreases n,
{
    if n < 10 {
        let text = natural_text(n);
        assert(text.drop_last() =~= Seq::<char>::empty());
        assert(digits_value(text.drop_last()) == 0);
    } else {
        lemma_natural_text_value(n / 10);
        let front = natural_text(n / 10);
        let text = natural_text(n);
        assert(text.drop_last() =~= front);
        assert(text.last() == digit_char((n % 10) as int));
        assert forall|i: int| 0 <= i < text.len() implies digit_of(#[trigger] text[i]) >= 0 by {
            if i < front.len() {
                assert(text[i] == front[i]);
            }
        }
    }
}

/// The fractional digits are digits, as many as needed and no more than the
/// width, and stand for the fraction: filled up with zeros to the width they
/// give it back.
pub proof fn lemma_fraction_text_value(fraction: nat, width: nat)
    requires
        fraction < pow10(width),
    ensures
        fraction_text(fraction, width).len() <= width,
        fraction > 0 ==> fraction_text(fraction, width).len() >= 1,
        all_digits(fraction_text(fraction, width)),
        digits_value(fraction_text(fraction, width)) * pow10(
            (width - fraction_text(fraction, width).len()) as nat,
        ) == fraction,
    decreases width,
{
    let text = fraction_text(fraction, width);
    if fraction == 0 || width == 0 {
        assert(digits_value(text) * pow10(width) == 0) by (nonlinear_arith)
            requires
                digits_value(text) == 0,
        ;
    } else {
        let unit = pow10((width - 1) as nat);
        lemma_pow10_positive((width - 1) as nat);
        let lead = fraction as int / unit;
        let rest_value = (fraction as int % unit) as nat;
        assert(0 <= lead < 10 && 0 <= fraction as int % unit < unit && fraction == lead * unit
            + fraction as int % unit) by (nonlinear_arith)
            requires
                unit > 0,
                0 <= fraction < 10 * unit,
                lead == fraction as int / unit,
        ;
        lemma_fraction_text_value(rest_value, (width - 1) as nat);
        let rest = fraction_text(rest_value, (width - 1) as nat);
        assert(text =~= seq![digit_char(lead)] + rest);
        lemma_digits_value_prepend(digit_char(lead), rest);
        assert(digit_of(digit_char(lead)) == lead);
        assert forall|i: int| 0 <= i < text.len() implies digit_of(#[trigger] text[i]) >= 0 by {
            if i > 0 {
                assert(text[i] == rest[i - 1]);
            }
        }
        let gap = (width - 1 - rest.len()) as nat;
        lemma_pow10_sum(rest.len(), gap);
        assert((lead * pow10(rest.len()) + digits_value(rest)) * pow10(gap) == lead * unit
            + rest_value) by (nonlinear_arith)
            requires
                pow10(rest.len()) * pow10(gap) == unit,
                digits_value(rest) * pow10(gap) == rest_value,
        ;
    }
}

/// Powers of ten multiply by adding their exponents.
pub proof fn lemma_pow10_sum(a: nat, b: nat)
    ensures
        pow10(a) * pow10(b) == pow10(a + b),
    decreases a,
{
    if a == 0 {
        assert(1 * pow10(b) == pow10(b)) by (nonlinear_arith);
    } else {
        lemma_pow10_sum((a - 1) as nat, b);
        assert((10 * pow10((a - 1) as nat)) * pow10(b) == 10 * (pow10((a - 1) as nat) * pow10(b)))
            by (nonlinear_arith);
    }
}

/// The notation of a magnitude tells the magnitude: two magnitudes that are
/// written alike are equal.
pub proof fn lemma_magnitude_text_injective(x: nat, y: nat)
    requires
        magnitude_text(x) == magnitude_text(y),
    ensures
        x == y,
{
    let whole_x = natural_text(x / 1_000_000);
    let whole_y = natural_text(y / 1_000_000);
    let fraction_x = x % 1_000_000;
    let fraction_y = y % 1_000_000;
    let digits_x = fraction_text(fraction_x, FRACTION_DIGITS as nat);
    let digits_y = fraction_text(fraction_y, FRACTION_DIGITS as nat);
    let text = magnitude_text(x);
    lemma_pow10_values();
    lemma_natural_text_value(x / 1_000_000);
    lemma_natural_text_value(y / 1_000_000);
    lemma_fraction_text_value(fraction_x, FRACTION_DIGITS as nat);
    lemma_fraction_text_value(fraction_y, FRACTION_DIGITS as nat);
    assert(digit_of('.') == -1);
    if fraction_x != 0 {
        assert(text =~= whole_x + seq!['.'] + digits_x);
        assert(text[whole_x.len() as int] == '.');
        assert(forall|i: int| 0 <= i < whole_x.len() ==> text[i] == whole_x[i]);
    } else {
        assert(text == whole_x);
    }
    if fraction_y != 0 {
        assert(text =~= whole_y + seq!['.'] + digits_y);
        assert(text[whole_y.len() as int] == '.');
        assert(forall|i: int| 0 <= i < whole_y.len() ==> text[i] == whole_y[i]);
    } else {
        assert(text == whole_y);
    }
    // The point, where there is one, stands behind the whole part's digits, so
    // both whole parts have the same length.
    if whole_x.len() < whole_y.len() {
        assert(digit_of(whole_y[whole_x.len() as int]) >= 0);
        assert(text[whole_x.len() as int] == whole_y[whole_x.len() as int]);
    }
    if whole_y.len() < whole_x.len() {
        assert(digit_of(whole_x[whole_y.len() as int]) >= 0);
        assert(text[whole_y.len() as int] == whole_x[whole_y.len() as int]);
    }
    assert(whole_x.len() == whole_y.len());
    assert(whole_x =~= whole_y);
    assert(x / 1_000_000 == y / 1_000_000);
    if fraction_x != 0 && fraction_y != 0 {
        assert(digits_x =~= text.subrange(whole_x.len() as int + 1, text.len() as int));
        assert(digits_y =~= text.subrange(whole_y.len() as int + 1, text.len() as int));
    }
    assert(fraction_x == fraction_y);
}

/// The notation tells the number: two numbers of millionths that are written
/// alike are equal.
pub proof fn lemma_decimal_text_injective(a: int, b: int)
    requires
        decimal_text(a) == decimal_text(b),
    ensures
        a == b,
{
    let text = decimal_text(a);
    let size_a = (if a < 0 {
        -a
    } else {
        a
    }) as nat;
    let size_b = (if b < 0 {
        -b
    } else {
        b
    }) as nat;
    lemma_magnitude_starts_with_digit(size_a);
    lemma_magnitude_starts_with_digit(size_b);
    assert(digit_of('-') == -1);
    if a < 0 {
        assert(text =~= seq!['-'] + magnitude_text(size_a));
        assert(text[0] == '-');
        assert(magnitude_text(size_a) =~= text.subrange(1, text.len() as int));
    } else {
        assert(text == magnitude_text(size_a));
    }
    if b < 0 {
        assert(text =~= seq!['-'] + magnitude_text(size_b));
        assert(text[0] == '-');
        assert(magnitude_text(size_b) =~= text.subrange(1, text.len() as int));
    } else {
        assert(text == magnitude_text(size_b));
    }
    assert((a < 0) == (b < 0));
    lemma_magnitude_text_injective(size_a, size_b);
}

/// The notation of a magnitude begins with a digit.
pub proof fn lemma_magnitude_starts_with_digit(micros: nat)
    ensures
        magnitude_text(micros).len() >= 1,
        digit_of(magnitude_text(micros)[0]) >= 0,
{
    lemma_natural_text_value(micros / 1_000_000);
    let whole = natural_text(micros / 1_000_000);
    assert(digit_of(whole[0]) >= 0);
    if micros % 1_000_000 != 0 {
        let text = whole + seq!['.'] + fraction_text(micros % 1_000_000, FRACTION_DIGITS as nat);
        assert(text[0] == whole[0]);
    }
}

impl Decimal {
    /// The shortest plain decimal notation of the number.
    pub fn to_text(&self) -> (text: String)
        ensures
            text@ == decimal_text(self@),
    {
        let mut text = String::new();
        let wide: i128 = self.micros() as i128;
        let magnitude: u128 = if wide < 0 {
            text.append("-");
            (-wide) as u128
        } else {
            wide as u128
        };
        proof {
            reveal_strlit("-");
            reveal_strlit(".");
        }
        let whole: u64 = (magnitude / 1_000_000) as u64;
        let fraction: u64 = (magnitude % 1_000_000) as u64;
        push_natural(&mut text, whole);
        if fraction != 0 {
            text.append(".");
            proof {
                lemma_pow10_values();
            }
            push_fraction(&mut text, fraction, 6, 1_000_000);
        }
        assert(text@ =~= decimal_text(self@));
        text
    }
}

/// The text of one decimal digit.
fn digit_str(d: u64) -> (s: &'static str)
    requires
        d < 10,
    ensures
        s@ == seq![digit_char(d as int)],
{
    proof {
        reveal_strlit("0");
        reveal_strlit("1");
        reveal_strlit("2");
        reveal_strlit("3");
        reveal_strlit("4");
        reveal_strlit("5");
        reveal_strlit("6");
        reveal_strlit("7");
        reveal_strlit("8");
        reveal_strlit("9");
    }
    let s: &'static str = if d == 0 {
        "0"
    } else if d == 1 {
        "1"
    } else if d == 2 {
        "2"
    } else if d == 3 {
        "3"
    } else if d == 4 {
        "4"
    } else if d == 5 {
        "5"
    } else if d == 6 {
        "6"
    } else if d == 7 {
        "7"
    } else if d == 8 {
        "8"
    } else {
        "9"
    };
    assert(s@ =~= seq![digit_char(d as int)]);
    s
}

/// Appends the digits of `n` to `out`.
fn push_natural(out: &mut String, n: u64)
    ensures
        final(out)@ == old(out)@ + natural_text(n as nat),
    decreases n,
{
    if n >= 10 {
        push_natural(out, n / 10);
    }
    out.append(digit_str(n % 10));
    assert(final(out)@ =~= old(out)@ + natural_text(n as nat));
}

/// Appends the digits of `fraction` to `out`, leaving out the zeros at the end.
fn push_fraction(out: &mut String, fraction: u64, width: usize, scale: u64)
    requires
        width <= FRACTION_DIGITS,
        scale == pow10(width as nat),
        fraction < scale,
    ensures
        final(out)@ == old(out)@ + fraction_text(fraction as nat, width as nat),
    decreases width,
{
    if fraction == 0 || width == 0 {
        assert(final(out)@ =~= old(out)@ + fraction_text(fraction as nat, width as nat));
    } else {
        let unit: u64 = scale / 10;
        assert(unit == pow10((width - 1) as nat));
        assert(fraction / unit < 10 && fraction % unit < unit) by (nonlinear_arith)
            requires
                unit > 0,
                fraction < 10 * unit,
        ;
        out.append(digit_str(fraction / unit));
        push_fraction(out, fraction % unit, width - 1, unit);
        assert(final(out)@ =~= old(out)@ + fraction_text(fraction as nat, width as nat));
    }
}

} // verus!
