//! Fixed-point decimal numbers counted in millionths, with exact rounding.

use vstd::prelude::*;

verus! {

/// Number of fractional digits that a [`Decimal`] holds.
pub const FRACTION_DIGITS: usize = 6;

/// Number of millionths in one whole unit.
pub const MICROS_PER_UNIT: i64 = 1_000_000;

/// Largest measurement, in millionths, that the formulas compute with.
pub const MAX_INPUT_MICROS: i64 = 1_000_000_000_000_000_000;

/// Largest magnitude of a numerator handed to [`round_to`].
pub const MAX_NUMERATOR: i128 = 10_000_000_000_000_000_000_000_000_000_000_000_000;

/// A decimal number with six fractional digits, held as a count of millionths.
#[derive(Clone, Copy, Debug, PartialEq, Eq, PartialOrd, Ord)]
pub struct Decimal {
    micros: i64,
}

impl View for Decimal {
    type V = int;

    /// The number of millionths that the decimal stands for.
    closed spec fn view(&self) -> int {
        self.micros as int
    }
}

impl Decimal {
    /// Whether the decimal is small enough for the formulas to compute with.
    /// A negative one is: no formula computes with it.
    pub open spec fn in_range(&self) -> bool {
        self@ <= MAX_INPUT_MICROS
    }

    /// The decimal that is `micros` millionths.
    pub fn from_micros(micros: i64) -> (d: Decimal)
        ensures
            d@ == micros,
    {
        Decimal { micros }
    }

    /// The decimal as a count of millionths.
    pub fn micros(&self) -> (m: i64)
        ensures
            m == self@,
    {
        self.micros
    }

    /// Tells whether the decimal is small enough for the formulas to compute
    /// with.
    pub fn is_in_range(&self) -> (b: bool)
        ensures
            b == self.in_range(),
    {
        self.micros <= MAX_INPUT_MICROS
    }

    /// Tells whether the decimal is below zero.
    pub fn is_negative(&self) -> (b: bool)
        ensures
            b == (self@ < 0),
    {
        self.micros < 0
    }
}

/// Ten to the power `e`.
pub open spec fn pow10(e: nat) -> int
    decreases e,
{
    if e == 0 {
        1
    } else {
        10 * pow10((e - 1) as nat)
    }
}

/// The integer nearest to `num / den`; a tie goes away from zero.
pub open spec fn round_half_away(num: int, den: int) -> int
    recommends
        den > 0,
{
    if num >= 0 {
        (2 * num + den) / (2 * den)
    } else {
        -((den - 2 * num) / (2 * den))
    }
}

/// The ratio `num / den` of millionths, rounded to `places` fractional digits
/// and given in millionths again.
pub open spec fn round_to_places(num: int, den: int, places: nat) -> int
    recommends
        den > 0,
        places <= FRACTION_DIGITS,
{
    let step = pow10((FRACTION_DIGITS - places) as nat);
    step * round_half_away(num, den * step)
}

/// Whether `micros` millionths can be written with `places` fractional digits.
pub open spec fn has_places(micros: int, places: nat) -> bool
    recommends
        places <= FRACTION_DIGITS,
{
    micros % pow10((FRACTION_DIGITS - places) as nat) == 0
}

/// The powers of ten up to the millionth.
pub proof fn lemma_pow10_values()
    ensures
        pow10(0) == 1,
        pow10(1) == 10,
        pow10(2) == 100,
        pow10(3) == 1_000,
        pow10(4) == 10_000,
        pow10(5) == 100_000,
        pow10(6) == 1_000_000,
{
    reveal_with_fuel(pow10, 7);
}

/// Powers of ten are positive.
pub proof fn lemma_pow10_positive(e: nat)
    ensures
        pow10(e) > 0,
    decreases e,
{
    if e > 0 {
        lemma_pow10_positive((e - 1) as nat);
    }
}

/// `round_half_away(num, den)` is an integer nearest to `num / den`: twice the
/// distance is at most `den`. Where two integers are equally near, it is the
/// one farther from zero.
pub proof fn lemma_round_half_away_nearest(num: int, den: int)
    requires
        den > 0,
    ensures
        num >= 0 ==> round_half_away(num, den) >= 0 && -den <= 2 * (num - round_half_away(
            num,
            den,
        ) * den) < den,
        num < 0 ==> round_half_away(num, den) <= 0 && -den < 2 * (num - round_half_away(num, den)
            * den) <= den,
{
    let q = round_half_away(num, den);
    if num >= 0 {
        let t = 2 * num + den;
        assert(q == t / (2 * den));
        assert(0 <= t - (t / (2 * den)) * (2 * den) < 2 * den && t / (2 * den) >= 0)
            by (nonlinear_arith)
            requires
                t >= 0,
                den > 0,
        ;
        assert(q * (2 * den) == 2 * (q * den)) by (nonlinear_arith);
    } else {
        let t = den - 2 * num;
        let p = t / (2 * den);
        assert(q == -p);
        assert(0 <= t - p * (2 * den) < 2 * den && p >= 0) by (nonlinear_arith)
            requires
                t >= 0,
                den > 0,
                p == t / (2 * den),
        ;
        assert(p * (2 * den) == 2 * (p * den)) by (nonlinear_arith);
        assert(q * den == -(p * den)) by (nonlinear_arith)
            requires
                q == -p,
        ;
    }
}

/// Only one integer is nearest in that sense: an integer that lies as near to
/// `num / den`, and on the far side of zero where it is a tie, is
/// `round_half_away(num, den)`.
pub proof fn lemma_round_half_away_unique(num: int, den: int, q: int)
    requires
        den > 0,
        num >= 0 ==> -den <= 2 * (num - q * den) < den,
        num < 0 ==> -den < 2 * (num - q * den) <= den,
    ensures
        q == round_half_away(num, den),
{
    let r = round_half_away(num, den);
    lemma_round_half_away_nearest(num, den);
    assert(q == r) by (nonlinear_arith)
        requires
            den > 0,
            -2 * den < 2 * (num - q * den) - 2 * (num - r * den) < 2 * den,
    ;
}

/// Rounding an exact multiple gives the multiple back.
pub proof fn lemma_round_half_away_exact(k: int, den: int)
    requires
        den > 0,
    ensures
        round_half_away(k * den, den) == k,
{
    if k >= 0 {
        assert(k * den >= 0) by (nonlinear_arith)
            requires
                k >= 0,
                den > 0,
        ;
        assert((2 * (k * den) + den) / (2 * den) == k) by (nonlinear_arith)
            requires
                den > 0,
        ;
    } else {
        assert(k * den < 0) by (nonlinear_arith)
            requires
                k < 0,
                den > 0,
        ;
        assert((den - 2 * (k * den)) / (2 * den) == -k) by (nonlinear_arith)
            requires
                den > 0,
        ;
    }
}

/// Rounding changes nothing where the exact value has no more than the
/// fractional digits asked for.
pub proof fn lemma_round_to_places_exact(value: int, den: int, places: nat)
    requires
        den > 0,
        places <= FRACTION_DIGITS,
        has_places(value, places),
    ensures
        round_to_places(den * value, den, places) == value,
{
    let step = pow10((FRACTION_DIGITS - places) as nat);
    lemma_pow10_positive((FRACTION_DIGITS - places) as nat);
    let k = value / step;
    assert(value == step * k) by (nonlinear_arith)
        requires
            step > 0,
            value % step == 0,
            k == value / step,
    ;
    assert(den * value == k * (den * step)) by (nonlinear_arith)
        requires
            value == step * k,
    ;
    assert(den * step > 0) by (nonlinear_arith)
        requires
            den > 0,
            step > 0,
    ;
    lemma_round_half_away_exact(k, den * step);
}

/// A rounded ratio has no more than the fractional digits asked for.
pub proof fn lemma_round_to_places_has_places(num: int, den: int, places: nat)
    requires
        places <= FRACTION_DIGITS,
    ensures
        has_places(round_to_places(num, den, places), places),
{
    let step = pow10((FRACTION_DIGITS - places) as nat);
    let q = round_half_away(num, den * step);
    lemma_pow10_positive((FRACTION_DIGITS - places) as nat);
    assert((step * q) % step == 0) by (nonlinear_arith)
        requires
            step > 0,
    ;
}

/// A ratio whose magnitude is at most `bound` stays within `bound` plus one
/// rounding step when it is rounded.
pub proof fn lemma_round_to_places_bound(num: int, den: int, places: nat, bound: int)
    requires
        den > 0,
        places <= FRACTION_DIGITS,
        bound >= 0,
        -(den * bound) <= num <= den * bound,
    ensures
        -(bound + pow10((FRACTION_DIGITS - places) as nat)) <= round_to_places(num, den, places)
            <= bound + pow10((FRACTION_DIGITS - places) as nat),
{
    let step = pow10((FRACTION_DIGITS - places) as nat);
    lemma_pow10_positive((FRACTION_DIGITS - places) as nat);
    let wide = den * step;
    assert(wide > 0) by (nonlinear_arith)
        requires
            wide == den * step,
            den > 0,
            step > 0,
    ;
    let q = round_half_away(num, wide);
    lemma_round_half_away_nearest(num, wide);
    assert(-(bound + step) <= step * q <= bound + step) by (nonlinear_arith)
        requires
            den > 0,
            step > 0,
            bound >= 0,
            wide == den * step,
            -(den * bound) <= num <= den * bound,
            -wide <= 2 * (num - q * wide) <= wide,
    ;
}

/// The step between two neighbours that have `places` fractional digits.
fn step_of(places: usize) -> (step: i128)
    requires
        places <= FRACTION_DIGITS,
    ensures
        step == pow10((FRACTION_DIGITS - places) as nat),
        1 <= step <= 1_000_000,
{
    let mut step: i128 = 1;
    let mut left: usize = FRACTION_DIGITS - places;
    proof {
        lemma_pow10_values();
    }
    while left > 0
        invariant
            places <= FRACTION_DIGITS,
            left <= FRACTION_DIGITS - places,
            step == pow10((FRACTION_DIGITS - places - left) as nat),
            pow10(0) == 1 && pow10(1) == 10 && pow10(2) == 100 && pow10(3) == 1_000 && pow10(4)
                == 10_000 && pow10(5) == 100_000 && pow10(6) == 1_000_000,
        decreases left,
    {
        step = step * 10;
        left = left - 1;
    }
    step
}

/// Rounds the ratio `num / den` of millionths to `decimals` fractional digits,
/// half away from zero.
pub fn round_to(num: i128, den: i128, decimals: usize) -> (value: Decimal)
    requires
        0 < den <= i64::MAX,
        decimals <= FRACTION_DIGITS,
        -MAX_NUMERATOR <= num <= MAX_NUMERATOR,
        i64::MIN <= round_to_places(num as int, den as int, decimals as nat) <= i64::MAX,
    ensures
        value@ == round_to_places(num as int, den as int, decimals as nat),
        has_places(value@, decimals as nat),
{
    let step: i128 = step_of(decimals);
    assert(0 < den * step <= i64::MAX * 1_000_000) by (nonlinear_arith)
        requires
            0 < den <= i64::MAX,
            1 <= step <= 1_000_000,
    ;
    let wide: u128 = (den * step) as u128;
    let magnitude: u128 = if num < 0 {
        (-num) as u128
    } else {
        num as u128
    };
    let quotient: u128 = (2 * magnitude + wide) / (2 * wide);
    proof {
        lemma_round_to_places_has_places(num as int, den as int, decimals as nat);
        let q = round_half_away(num as int, den as int * step as int);
        assert(quotient == if num >= 0 {
            q
        } else {
            -q
        });
        assert(quotient <= step * quotient) by (nonlinear_arith)
            requires
                step >= 1,
                quotient >= 0,
        ;
    }
    let signed: i128 = if num < 0 {
        -(quotient as i128)
    } else {
        quotient as i128
    };
    assert(step * signed == round_to_places(num as int, den as int, decimals as nat));
    let micros: i128 = step * signed;
    Decimal { micros: micros as i64 }
}

} // verus!
