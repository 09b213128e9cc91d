use process_calc_core::decimal::Decimal;
use process_calc_core::dispatch::{is_answerable, join, run_formula, selects};
use process_calc_core::{
    calculate, invalid_request, CalcInput, CalcMode, CalcRequest, CalcResult, ParamType,
    StandardType,
};

fn dec(x: f64) -> Decimal {
    Decimal::from_micros((x * 1_000_000.0).round() as i64)
}

fn blank() -> CalcInput {
    CalcInput {
        n: None,
        a_h_change: None,
        a_h_bare: None,
        b_h_change: None,
        b_h_bare: None,
        paper_h: None,
        center_paper_h: None,
        a_shrink: None,
        b_shrink: None,
        a_reserve: None,
        b_reserve: None,
    }
}

fn everything() -> CalcInput {
    CalcInput {
        n: Some(3),
        a_h_change: Some(dec(2.0)),
        a_h_bare: Some(dec(0.5)),
        b_h_change: Some(dec(1.0)),
        b_h_bare: Some(dec(0.2)),
        paper_h: Some(dec(0.1)),
        center_paper_h: Some(dec(0.05)),
        a_shrink: Some(dec(0.1)),
        b_shrink: Some(dec(0.3)),
        a_reserve: Some(dec(0.2)),
        b_reserve: Some(dec(0.4)),
    }
}

fn request(mode: CalcMode, param: Option<ParamType>, inputs: CalcInput) -> CalcRequest {
    CalcRequest {
        standard: StandardType::ShenBian,
        mode,
        param,
        inputs,
    }
}

fn shown(result: &CalcResult) -> String {
    format!("{:?}", result)
}

#[test]
fn full_mode_fills_what_it_can_and_reports_nothing() {
    let inputs = CalcInput {
        a_h_bare: Some(dec(0.5)),
        a_shrink: Some(dec(0.1)),
        a_reserve: Some(dec(0.2)),
        ..blank()
    };
    let result = calculate(&request(CalcMode::Full, None, inputs));
    assert!(result.success);
    assert!(result.error.is_none());
    let data = result.data.unwrap();
    assert_eq!(data.a_die.unwrap().value, dec(0.8));
    assert!(data.a_film.is_none());
    assert!(data.b_film.is_none());
    assert!(data.b_die.is_none());
}

#[test]
fn full_mode_runs_every_formula() {
    let result = calculate(&request(CalcMode::Full, None, everything()));
    assert!(result.success);
    assert!(result.error.is_none());
    let data = result.data.unwrap();
    let a_film = data.a_film.unwrap();
    assert_eq!(a_film.value.micros(), 450_000);
    assert_eq!(a_film.formula_id, "a_film");
    let b_film = data.b_film.unwrap();
    assert_eq!(b_film.value.micros(), 225_000);
    assert_eq!(b_film.formula_id, "b_film");
    let a_die = data.a_die.unwrap();
    assert_eq!(a_die.value.micros(), 800_000);
    assert_eq!(a_die.formula_id, "a_die");
    let b_die = data.b_die.unwrap();
    assert_eq!(b_die.value.micros(), 900_000);
    assert_eq!(b_die.formula_id, "b_die");
}

#[test]
fn full_mode_ignores_the_param() {
    let result = calculate(&request(
        CalcMode::Full,
        Some(ParamType::BDie),
        everything(),
    ));
    let data = result.data.unwrap();
    assert!(data.a_film.is_some());
    assert!(data.b_film.is_some());
    assert!(data.a_die.is_some());
    assert!(data.b_die.is_some());
}

#[test]
fn full_mode_with_nothing_given_is_an_empty_success() {
    let result = calculate(&request(CalcMode::Full, None, blank()));
    assert!(result.success);
    assert!(result.error.is_none());
    let data = result.data.unwrap();
    assert!(data.a_film.is_none());
    assert!(data.b_film.is_none());
    assert!(data.a_die.is_none());
    assert!(data.b_die.is_none());
}

#[test]
fn single_mode_reports_the_failure() {
    let mut inputs = everything();
    inputs.n = None;
    let result = calculate(&request(CalcMode::Single, Some(ParamType::AFilm), inputs));
    assert!(!result.success);
    assert!(result.data.is_none());
    let error = result.error.unwrap();
    assert!(error.contains("n"));
    assert_eq!(error, "缺少必要参数: n");
}

#[test]
fn single_mode_reports_each_kind_of_failure() {
    let mut inputs = everything();
    inputs.b_shrink = Some(dec(-0.3));
    let result = calculate(&request(CalcMode::Single, Some(ParamType::BDie), inputs));
    assert!(!result.success);
    assert!(result.data.is_none());
    assert_eq!(result.error.unwrap(), "数值必须大于等于0: b_shrink");

    let mut inputs = everything();
    inputs.n = Some(0);
    let result = calculate(&request(CalcMode::Single, Some(ParamType::AFilm), inputs));
    assert!(!result.success);
    assert!(result.data.is_none());
    assert_eq!(result.error.unwrap(), "导线根数 n 必须 >= 1");
}

#[test]
fn single_mode_runs_the_one_formula() {
    let result = calculate(&request(
        CalcMode::Single,
        Some(ParamType::BFilm),
        everything(),
    ));
    assert!(result.success);
    assert!(result.error.is_none());
    let data = result.data.unwrap();
    assert!(data.a_film.is_none());
    assert_eq!(data.b_film.unwrap().value.micros(), 225_000);
    assert!(data.a_die.is_none());
    assert!(data.b_die.is_none());
}

#[test]
fn single_mode_leaves_other_failures_alone() {
    let mut inputs = everything();
    inputs.n = None;
    inputs.b_h_bare = Some(dec(-1.0));
    let result = calculate(&request(CalcMode::Single, Some(ParamType::ADie), inputs));
    assert!(result.success);
    assert!(result.error.is_none());
    let data = result.data.unwrap();
    assert!(data.a_film.is_none());
    assert!(data.b_film.is_none());
    assert_eq!(data.a_die.unwrap().value.micros(), 800_000);
    assert!(data.b_die.is_none());
}

#[test]
fn single_mode_without_param_runs_nothing() {
    let result = calculate(&request(CalcMode::Single, None, blank()));
    assert!(result.success);
    assert!(result.error.is_none());
    let data = result.data.unwrap();
    assert!(data.a_film.is_none());
    assert!(data.b_film.is_none());
    assert!(data.a_die.is_none());
    assert!(data.b_die.is_none());
    let result = calculate(&request(CalcMode::Single, None, everything()));
    assert!(result.success);
    let data = result.data.unwrap();
    assert!(data.a_film.is_none());
    assert!(data.b_film.is_none());
    assert!(data.a_die.is_none());
    assert!(data.b_die.is_none());
}

#[test]
fn the_standard_changes_nothing() {
    let mut first = request(CalcMode::Full, None, everything());
    first.standard = StandardType::ShenBian;
    let mut second = request(CalcMode::Full, None, everything());
    second.standard = StandardType::HengBian;
    assert_eq!(shown(&calculate(&first)), shown(&calculate(&second)));
}

#[test]
fn the_same_request_gives_the_same_response() {
    let full = request(CalcMode::Full, None, everything());
    assert_eq!(shown(&calculate(&full)), shown(&calculate(&full)));
    let mut inputs = everything();
    inputs.n = None;
    let failing = request(CalcMode::Single, Some(ParamType::AFilm), inputs);
    assert_eq!(shown(&calculate(&failing)), shown(&calculate(&failing)));
}

#[test]
fn a_text_that_is_no_request_gives_a_failure() {
    let details = serde_json::from_str::<serde_json::Value>("{not a request")
        .unwrap_err()
        .to_string();
    let result = invalid_request(&details);
    assert!(!result.success);
    assert!(result.data.is_none());
    let error = result.error.unwrap();
    assert!(error.starts_with("Invalid JSON: "));
    assert_eq!(error, format!("Invalid JSON: {}", details));
    let result = invalid_request("");
    assert_eq!(result.error.unwrap(), "Invalid JSON: ");
}

#[test]
fn selects_follows_mode_and_param() {
    assert!(selects(CalcMode::Full, None, ParamType::AFilm));
    assert!(selects(CalcMode::Full, Some(ParamType::BDie), ParamType::AFilm));
    assert!(selects(CalcMode::Single, Some(ParamType::AFilm), ParamType::AFilm));
    assert!(selects(CalcMode::Single, Some(ParamType::BFilm), ParamType::BFilm));
    assert!(selects(CalcMode::Single, Some(ParamType::ADie), ParamType::ADie));
    assert!(selects(CalcMode::Single, Some(ParamType::BDie), ParamType::BDie));
    assert!(!selects(CalcMode::Single, Some(ParamType::BDie), ParamType::AFilm));
    assert!(!selects(CalcMode::Single, Some(ParamType::AFilm), ParamType::ADie));
    assert!(!selects(CalcMode::Single, None, ParamType::AFilm));
    assert!(!selects(CalcMode::Single, None, ParamType::BDie));
}

#[test]
fn run_formula_runs_the_formula_of_the_tag() {
    let inputs = everything();
    assert_eq!(
        run_formula(ParamType::AFilm, &inputs).unwrap().formula_id,
        "a_film"
    );
    assert_eq!(
        run_formula(ParamType::BFilm, &inputs).unwrap().formula_id,
        "b_film"
    );
    assert_eq!(
        run_formula(ParamType::ADie, &inputs).unwrap().formula_id,
        "a_die"
    );
    assert_eq!(
        run_formula(ParamType::BDie, &inputs).unwrap().formula_id,
        "b_die"
    );
    assert!(run_formula(ParamType::AFilm, &blank()).is_err());
}

#[test]
fn join_puts_the_separator_between_neighbours() {
    assert_eq!(join(&vec![], "; "), "");
    assert_eq!(join(&vec!["one".to_string()], "; "), "one");
    assert_eq!(
        join(&vec!["one".to_string(), "two".to_string()], "; "),
        "one; two"
    );
    assert_eq!(
        join(
            &vec!["a".to_string(), "".to_string(), "c".to_string()],
            ", "
        ),
        "a, , c"
    );
}

#[test]
fn a_request_is_answerable_where_what_it_runs_is_computable() {
    assert!(is_answerable(&request(CalcMode::Full, None, blank())));
    assert!(is_answerable(&request(CalcMode::Full, None, everything())));
    let mut inputs = everything();
    inputs.b_reserve = Some(Decimal::from_micros(1_000_000_000_000_000_001));
    assert!(!is_answerable(&request(CalcMode::Full, None, inputs.clone())));
    assert!(!is_answerable(&request(
        CalcMode::Single,
        Some(ParamType::BDie),
        inputs.clone()
    )));
    assert!(is_answerable(&request(
        CalcMode::Single,
        Some(ParamType::ADie),
        inputs.clone()
    )));
    assert!(is_answerable(&request(CalcMode::Single, None, inputs.clone())));
    let result = calculate(&request(
        CalcMode::Single,
        Some(ParamType::ADie),
        inputs,
    ));
    assert_eq!(result.data.unwrap().a_die.unwrap().value.micros(), 800_000);
}

#[test]
fn a_negative_measurement_of_any_size_is_answered() {
    let mut inputs = everything();
    inputs.a_h_change = Some(Decimal::from_micros(i64::MIN));
    let asked = request(CalcMode::Single, Some(ParamType::AFilm), inputs);
    assert!(is_answerable(&asked));
    let result = calculate(&asked);
    assert_eq!(result.error.unwrap(), "数值必须大于等于0: a_h_change");
}
