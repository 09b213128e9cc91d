//! Requests, results and errors of the formula engine, with their views.

use crate::decimal::Decimal;
use vstd::prelude::*;

verus! {

/// The standard that a request was made under. It is carried along and has no
/// influence on any formula.
#[derive(Debug, Clone, Copy, PartialEq, Eq, Structural)]
pub enum StandardType {
    ShenBian,
    HengBian,
}

/// Whether a request asks for one formula or for all of them.
#[derive(Debug, Clone, Copy, PartialEq, Eq, Structural)]
pub enum CalcMode {
    Single,
    Full,
}

/// The tag of a formula.
#[derive(Debug, Clone, Copy, PartialEq, Eq, Structural)]
pub enum ParamType {
    AFilm,
    BFilm,
    ADie,
    BDie,
}

/// The name of an input field.
#[derive(Debug, Clone, Copy, PartialEq, Eq, Structural)]
pub enum Field {
    N,
    AHChange,
    AHBare,
    BHChange,
    BHBare,
    PaperH,
    CenterPaperH,
    AShrink,
    BShrink,
    AReserve,
    BReserve,
}

/// The inputs of a request. A field that the caller left out is `None`, which
/// is not the same as zero.
#[derive(Debug, Clone)]
pub struct CalcInput {
    pub n: Option<i32>,
    pub a_h_change: Option<Decimal>,
    pub a_h_bare: Option<Decimal>,
    pub b_h_change: Option<Decimal>,
    pub b_h_bare: Option<Decimal>,
    pub paper_h: Option<Decimal>,
    pub center_paper_h: Option<Decimal>,
    pub a_shrink: Option<Decimal>,
    pub b_shrink: Option<Decimal>,
    pub a_reserve: Option<Decimal>,
    pub b_reserve: Option<Decimal>,
}

/// The result of one formula.
#[derive(Debug, Clone)]
pub struct CalcOutput {
    pub value: Decimal,
    pub unit: String,
    pub decimals: usize,
    pub formula_id: String,
    /// The validated inputs that the value was computed from.
    pub inputs_echo: String,
}

/// One slot for each formula; a slot is filled where the formula ran and
/// its inputs were valid.
#[derive(Debug, Clone)]
pub struct FullCalcOutput {
    pub a_film: Option<CalcOutput>,
    pub b_film: Option<CalcOutput>,
    pub a_die: Option<CalcOutput>,
    pub b_die: Option<CalcOutput>,
}

/// A request: which formulas to run, and on what inputs.
#[derive(Debug, Clone)]
pub struct CalcRequest {
    pub standard: StandardType,
    pub mode: CalcMode,
    /// The formula asked for in `Single` mode; not looked at in `Full` mode.
    pub param: Option<ParamType>,
    pub inputs: CalcInput,
}

/// The response to a request: either the outputs or an error text.
#[derive(Debug)]
pub struct CalcResult {
    pub success: bool,
    pub data: Option<FullCalcOutput>,
    pub error: Option<String>,
}

/// Why a formula refused its inputs.
#[derive(Debug)]
pub enum CalcError {
    MissingField(String),
    NegativeValue(String),
    InvalidN,
    DivisionByZero,
}

/// What a [`CalcOutput`] holds, as mathematical values.
pub struct CalcOutputView {
    pub value: int,
    pub unit: Seq<char>,
    pub decimals: nat,
    pub formula_id: Seq<char>,
    pub inputs_echo: Seq<char>,
}

/// What a [`FullCalcOutput`] holds.
pub struct FullCalcOutputView {
    pub a_film: Option<CalcOutputView>,
    pub b_film: Option<CalcOutputView>,
    pub a_die: Option<CalcOutputView>,
    pub b_die: Option<CalcOutputView>,
}

/// What a [`CalcResult`] holds.
pub struct CalcResultView {
    pub success: bool,
    pub data: Option<FullCalcOutputView>,
    pub error: Option<Seq<char>>,
}

/// What a [`CalcError`] holds.
pub enum CalcErrorView {
    MissingField(Seq<char>),
    NegativeValue(Seq<char>),
    InvalidN,
    DivisionByZero,
}

impl View for CalcOutput {
    type V = CalcOutputView;

    open spec fn view(&self) -> CalcOutputView {
        CalcOutputView {
            value: self.value@,
            unit: self.unit@,
            decimals: self.decimals as nat,
            formula_id: self.formula_id@,
            inputs_echo: self.inputs_echo@,
        }
    }
}

impl View for FullCalcOutput {
    type V = FullCalcOutputView;

    open spec fn view(&self) -> FullCalcOutputView {
        FullCalcOutputView {
            a_film: output_view(self.a_film),
            b_film: output_view(self.b_film),
            a_die: output_view(self.a_die),
            b_die: output_view(self.b_die),
        }
    }
}

impl View for CalcResult {
    type V = CalcResultView;

    open spec fn view(&self) -> CalcResultView {
        CalcResultView {
            success: self.success,
            data: match self.data {
                Some(full) => Some(full@),
                None => None,
            },
            error: match self.error {
                Some(text) => Some(text@),
                None => None,
            },
        }
    }
}

impl View for CalcError {
    type V = CalcErrorView;

    open spec fn view(&self) -> CalcErrorView {
        match self {
            CalcError::MissingField(name) => CalcErrorView::MissingField(name@),
            CalcError::NegativeValue(name) => CalcErrorView::NegativeValue(name@),
            CalcError::InvalidN => CalcErrorView::InvalidN,
            CalcError::DivisionByZero => CalcErrorView::DivisionByZero,
        }
    }
}

/// The view of a slot.
pub open spec fn output_view(slot: Option<CalcOutput>) -> Option<CalcOutputView> {
    match slot {
        Some(output) => Some(output@),
        None => None,
    }
}

/// The view of what a formula returns.
pub open spec fn outcome_view(outcome: Result<CalcOutput, CalcError>) -> Result<
    CalcOutputView,
    CalcErrorView,
> {
    match outcome {
        Ok(output) => Ok(output@),
        Err(error) => Err(error@),
    }
}

/// The view of what a validation returns.
pub open spec fn checked_view(checked: Result<Decimal, CalcError>) -> Result<int, CalcErrorView> {
    match checked {
        Ok(value) => Ok(value@),
        Err(error) => Err(error@),
    }
}

/// Whether a measurement, where it is there, is small enough for the formulas
/// to compute with.
pub open spec fn measurement_in_range(value: Option<Decimal>) -> bool {
    value matches Some(v) ==> v.in_range()
}

/// Tells whether a measurement, where it is there, is small enough for the
/// formulas to compute with.
pub fn is_measurement_in_range(value: Option<Decimal>) -> (b: bool)
    ensures
        b == measurement_in_range(value),
{
    match value {
        Some(v) => v.is_in_range(),
        None => true,
    }
}

impl Field {
    /// The name under which the field goes in requests and in error texts.
    pub open spec fn name(self) -> Seq<char> {
        match self {
            Field::N => "n"@,
            Field::AHChange => "a_h_change"@,
            Field::AHBare => "a_h_bare"@,
            Field::BHChange => "b_h_change"@,
            Field::BHBare => "b_h_bare"@,
            Field::PaperH => "paper_h"@,
            Field::CenterPaperH => "center_paper_h"@,
            Field::AShrink => "a_shrink"@,
            Field::BShrink => "b_shrink"@,
            Field::AReserve => "a_reserve"@,
            Field::BReserve => "b_reserve"@,
        }
    }
}

impl CalcInput {
    /// The measurement held under `field`, where there is one. `N` holds a
    /// count and no measurement.
    pub open spec fn measurement(&self, field: Field) -> Option<Decimal> {
        match field {
            Field::N => None,
            Field::AHChange => self.a_h_change,
            Field::AHBare => self.a_h_bare,
            Field::BHChange => self.b_h_change,
            Field::BHBare => self.b_h_bare,
            Field::PaperH => self.paper_h,
            Field::CenterPaperH => self.center_paper_h,
            Field::AShrink => self.a_shrink,
            Field::BShrink => self.b_shrink,
            Field::AReserve => self.a_reserve,
            Field::BReserve => self.b_reserve,
        }
    }

    /// The value held under `field` in millionths, where the field is there.
    pub open spec fn micros(&self, field: Field) -> Option<int> {
        match field {
            Field::N => match self.n {
                Some(n) => Some(n * 1_000_000),
                None => None,
            },
            _ => match self.measurement(field) {
                Some(v) => Some(v@),
                None => None,
            },
        }
    }
}

impl CalcResultView {
    /// A response carries outputs exactly where it reports success, and an
    /// error text exactly where it does not.
    pub open spec fn well_formed(self) -> bool {
        &&& self.success <==> self.data is Some
        &&& self.success <==> self.error is None
    }
}

/// The text in which an error is reported.
pub open spec fn message_text(error: CalcErrorView) -> Seq<char> {
    match error {
        CalcErrorView::MissingField(name) => "缺少必要参数: "@ + name,
        CalcErrorView::NegativeValue(name) => "数值必须大于等于0: "@ + name,
        CalcErrorView::InvalidN => "导线根数 n 必须 >= 1"@,
        CalcErrorView::DivisionByZero => "分母为零"@,
    }
}

impl CalcError {
    /// The text in which the error is reported.
    pub fn message(&self) -> (text: String)
        ensures
            text@ == message_text(self@),
    {
        match self {
            CalcError::MissingField(name) => String::from_str("缺少必要参数: ").concat(
                name.as_str(),
            ),
            CalcError::NegativeValue(name) => String::from_str("数值必须大于等于0: ").concat(
                name.as_str(),
            ),
            CalcError::InvalidN => String::from_str("导线根数 n 必须 >= 1"),
            CalcError::DivisionByZero => String::from_str("分母为零"),
        }
    }
}

} // verus!
