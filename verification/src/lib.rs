//! Film and die thickness formulas on exact fixed-point decimals.

pub mod decimal;
pub mod dispatch;
pub mod formulas;
pub mod model;
pub mod notation;
pub mod validate;

pub use decimal::Decimal;
pub use dispatch::{calculate, invalid_request};
pub use formulas::{calc_a_die, calc_a_film, calc_b_die, calc_b_film};
pub use model::{
    CalcError, CalcInput, CalcMode, CalcOutput, CalcRequest, CalcResult, FullCalcOutput,
    ParamType, StandardType,
};
