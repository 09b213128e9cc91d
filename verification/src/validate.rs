//! Checks on single input fields.

use crate::decimal::Decimal;
use crate::model::{checked_view, CalcError, CalcErrorView};
use vstd::prelude::*;

verus! {

/// What the check of a measurement gives: the measurement itself, in
/// millionths, where it is there and not negative.
pub open spec fn check_non_negative(value: Option<Decimal>, name: Seq<char>) -> Result<
    int,
    CalcErrorView,
> {
    match value {
        None => Err(CalcErrorView::MissingField(name)),
        Some(v) => if v@ < 0 {
            Err(CalcErrorView::NegativeValue(name))
        } else {
            Ok(v@)
        },
    }
}

/// What the check of a conductor count gives: the count as a decimal, in
/// millionths, where it is there and at least one.
pub open spec fn check_n(n: Option<i32>) -> Result<int, CalcErrorView> {
    match n {
        None => Err(CalcErrorView::MissingField("n"@)),
        Some(v) => if v < 1 {
            Err(CalcErrorView::InvalidN)
        } else {
            Ok(v * 1_000_000)
        },
    }
}

/// Checks that a measurement is there and not negative, and hands it back
/// unchanged. Zero passes.
pub fn validate_non_negative(val: Option<Decimal>, name: &str) -> (checked: Result<
    Decimal,
    CalcError,
>)
    ensures
        checked_view(checked) == check_non_negative(val, name@),
{
    match val {
        Some(v) => {
            if v.is_negative() {
                Err(CalcError::NegativeValue(String::from_str(name)))
            } else {
                Ok(v)
            }
        },
        None => Err(CalcError::MissingField(String::from_str(name))),
    }
}

/// Checks that a conductor count is there and at least one, and hands it back
/// as a decimal.
pub fn validate_n(n: Option<i32>) -> (checked: Result<Decimal, CalcError>)
    ensures
        checked_view(checked) == check_n(n),
{
    match n {
        Some(v) => {
            if v < 1 {
                Err(CalcError::InvalidN)
            } else {
                let count: i64 = v as i64;
                Ok(Decimal::from_micros(count * 1_000_000))
            }
        },
        None => Err(CalcError::MissingField(String::from_str("n"))),
    }
}

} // verus!
