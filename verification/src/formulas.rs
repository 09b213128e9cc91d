//! The four thickness formulas: what each requires, computes and reports.

use crate::decimal::{
    has_places, lemma_pow10_values, lemma_round_to_places_bound, lemma_round_to_places_exact,
    lemma_round_to_places_has_places, round_to, round_to_places, Decimal,
};
use crate::model::{
    is_measurement_in_range, measurement_in_range, outcome_view, CalcError, CalcErrorView,
    CalcInput, CalcOutput, CalcOutputView, Field, ParamType,
};
use crate::notation::decimal_text;
use crate::validate::{check_n, check_non_negative, validate_n, validate_non_negative};
use vstd::prelude::*;

verus! {

/// The fields that a formula requires, in the order in which it checks them.
pub open spec fn required_fields(tag: ParamType) -> Seq<Field> {
    match tag {
        ParamType::AFilm => seq![Field::N, Field::AHChange, Field::AHBare, Field::PaperH],
        ParamType::BFilm => seq![
            Field::BHChange,
            Field::BHBare,
            Field::PaperH,
            Field::CenterPaperH,
        ],
        ParamType::ADie => seq![Field::AHBare, Field::AShrink, Field::AReserve],
        ParamType::BDie => seq![Field::BHBare, Field::BShrink, Field::BReserve],
    }
}

/// Whether the formula `tag` can compute on `input`: each measurement that it
/// requires and that is there is at most the largest that the engine computes
/// with. What the other fields hold does not matter.
pub open spec fn computable(tag: ParamType, input: CalcInput) -> bool {
    forall|k: int|
        0 <= k < required_fields(tag).len() ==> measurement_in_range(
            input.measurement(#[trigger] required_fields(tag)[k]),
        )
}

/// The number of fractional digits to which a formula rounds its value.
pub open spec fn formula_decimals(tag: ParamType) -> nat {
    match tag {
        ParamType::AFilm => 2,
        _ => 4,
    }
}

/// The name under which a formula reports its value.
pub open spec fn formula_id(tag: ParamType) -> Seq<char> {
    match tag {
        ParamType::AFilm => "a_film"@,
        ParamType::BFilm => "b_film"@,
        ParamType::ADie => "a_die"@,
        ParamType::BDie => "b_die"@,
    }
}

/// The check of one field: a count for `N`, a measurement for the others.
pub open spec fn field_check(input: CalcInput, field: Field) -> Result<int, CalcErrorView> {
    match field {
        Field::N => check_n(input.n),
        _ => check_non_negative(input.measurement(field), field.name()),
    }
}

/// The error of the first field from index `from` on that fails its check.
pub open spec fn first_failure(input: CalcInput, fields: Seq<Field>, from: nat) -> Option<
    CalcErrorView,
>
    decreases fields.len() - from,
{
    if from >= fields.len() {
        None
    } else {
        match field_check(input, fields[from as int]) {
            Err(error) => Some(error),
            Ok(_) => first_failure(input, fields, from + 1),
        }
    }
}

/// The exact value of a formula as a ratio of millionths, numerator first.
///
/// For the A film, with `d` half of `n + 1`, the value is
/// `(a_h_change - (a_h_bare * d + paper_h)) / d`. All four quantities are
/// counted in millionths here, so the product and the quotient are brought
/// back to millionths by the factor 1 000 000.
pub open spec fn exact_ratio(tag: ParamType, input: CalcInput) -> (int, int)
    recommends
        first_failure(input, required_fields(tag), 0) is None,
{
    match tag {
        ParamType::AFilm => {
            let d = (input.n->0 * 1_000_000 + 1_000_000) / 2;
            (
                input.a_h_change->0@ * 1_000_000 - (input.a_h_bare->0@ * d + input.paper_h->0@
                    * 1_000_000),
                d,
            )
        },
        ParamType::BFilm => (
            input.b_h_change->0@ - (input.b_h_bare->0@ * 2 + input.paper_h->0@
                + input.center_paper_h->0@),
            2,
        ),
        ParamType::ADie => (input.a_h_bare->0@ + input.a_shrink->0@ + input.a_reserve->0@, 1),
        ParamType::BDie => (input.b_h_bare->0@ + input.b_shrink->0@ + input.b_reserve->0@, 1),
    }
}

/// The value that a formula reports: its exact value, rounded half away from
/// zero to the formula's number of fractional digits.
pub open spec fn formula_value(tag: ParamType, input: CalcInput) -> int
    recommends
        first_failure(input, required_fields(tag), 0) is None,
{
    let (num, den) = exact_ratio(tag, input);
    round_to_places(num, den, formula_decimals(tag))
}

/// One field as it is echoed: its name, an equals sign and its value.
pub open spec fn echo_pair(input: CalcInput, field: Field) -> Seq<char>
    recommends
        input.micros(field) is Some,
{
    field.name() + "="@ + decimal_text(input.micros(field)->0)
}

/// The first `count` of `fields` as they are echoed, joined by a comma and a
/// space.
pub open spec fn echo_text(input: CalcInput, fields: Seq<Field>, count: nat) -> Seq<char>
    recommends
        count <= fields.len(),
    decreases count,
{
    if count == 0 {
        Seq::empty()
    } else if count == 1 {
        echo_pair(input, fields[0])
    } else {
        echo_text(input, fields, (count - 1) as nat) + ", "@ + echo_pair(
            input,
            fields[count - 1],
        )
    }
}

/// What a formula reports on inputs that pass its checks.
pub open spec fn formula_output(tag: ParamType, input: CalcInput) -> CalcOutputView
    recommends
        first_failure(input, required_fields(tag), 0) is None,
{
    CalcOutputView {
        value: formula_value(tag, input),
        unit: "mm"@,
        decimals: formula_decimals(tag),
        formula_id: formula_id(tag),
        inputs_echo: echo_text(input, required_fields(tag), required_fields(tag).len()),
    }
}

/// What a formula returns: the error of the first required field that fails
/// its check, and the output where none fails.
pub open spec fn formula_result(tag: ParamType, input: CalcInput) -> Result<
    CalcOutputView,
    CalcErrorView,
> {
    match first_failure(input, required_fields(tag), 0) {
        Some(error) => Err(error),
        None => Ok(formula_output(tag, input)),
    }
}

/// From index `from` on, the first field that fails decides: where the fields
/// from `from` up to `k` pass and the one at `k` fails, the failure reported
/// is that of the field at `k`.
proof fn lemma_first_failure_from(input: CalcInput, fields: Seq<Field>, from: nat, k: nat)
    requires
        from <= k < fields.len(),
        forall|j: nat| from <= j < k ==> (#[trigger] field_check(input, fields[j as int])) is Ok,
        field_check(input, fields[k as int]) is Err,
    ensures
        first_failure(input, fields, from) == Some(field_check(input, fields[k as int])->Err_0),
    decreases k - from,
{
    if from < k {
        assert(field_check(input, fields[from as int]) is Ok);
        lemma_first_failure_from(input, fields, from + 1, k);
    }
}

/// Where every field from index `from` on passes, none fails.
proof fn lemma_no_failure_from(input: CalcInput, fields: Seq<Field>, from: nat)
    requires
        forall|j: nat|
            from <= j < fields.len() ==> (#[trigger] field_check(input, fields[j as int])) is Ok,
    ensures
        first_failure(input, fields, from) is None,
    decreases fields.len() - from,
{
    if from < fields.len() {
        assert(field_check(input, fields[from as int]) is Ok);
        lemma_no_failure_from(input, fields, from + 1);
    }
}

/// A formula checks its fields in their order and stops at the first that
/// fails: where the fields before the one at `k` pass and the one at `k`
/// fails, the formula returns the error of the field at `k`, whatever the
/// fields behind it hold.
pub proof fn lemma_first_failure_decides(tag: ParamType, input: CalcInput, k: nat)
    requires
        k < required_fields(tag).len(),
        forall|j: nat|
            j < k ==> (#[trigger] field_check(input, required_fields(tag)[j as int])) is Ok,
        field_check(input, required_fields(tag)[k as int]) is Err,
    ensures
        formula_result(tag, input) == Err::<CalcOutputView, CalcErrorView>(
            field_check(input, required_fields(tag)[k as int])->Err_0,
        ),
{
    lemma_first_failure_from(input, required_fields(tag), 0, k);
}

/// A required field that is missing is reported by its own name, where the
/// fields before it pass.
pub proof fn lemma_missing_field_is_named(tag: ParamType, input: CalcInput, k: nat)
    requires
        k < required_fields(tag).len(),
        forall|j: nat|
            j < k ==> (#[trigger] field_check(input, required_fields(tag)[j as int])) is Ok,
        input.micros(required_fields(tag)[k as int]) is None,
    ensures
        formula_result(tag, input) == Err::<CalcOutputView, CalcErrorView>(
            CalcErrorView::MissingField(required_fields(tag)[k as int].name()),
        ),
{
    lemma_first_failure_decides(tag, input, k);
}

/// A required measurement that is there and negative is reported by its own
/// name, where the fields before it pass.
pub proof fn lemma_negative_field_is_named(tag: ParamType, input: CalcInput, k: nat)
    requires
        k < required_fields(tag).len(),
        forall|j: nat|
            j < k ==> (#[trigger] field_check(input, required_fields(tag)[j as int])) is Ok,
        required_fields(tag)[k as int] != Field::N,
        input.micros(required_fields(tag)[k as int]) matches Some(v) && v < 0,
    ensures
        formula_result(tag, input) == Err::<CalcOutputView, CalcErrorView>(
            CalcErrorView::NegativeValue(required_fields(tag)[k as int].name()),
        ),
{
    lemma_first_failure_decides(tag, input, k);
}

/// A measurement passes its check exactly where it is there and not negative;
/// zero passes.
pub proof fn lemma_measurement_passes(input: CalcInput, field: Field)
    requires
        field != Field::N,
    ensures
        field_check(input, field) is Ok <==> (input.micros(field) matches Some(v) && v >= 0),
        field_check(input, field) matches Ok(v) ==> input.micros(field) == Some(v),
        input.micros(field) == Some(0int) ==> field_check(input, field) == Ok::<
            int,
            CalcErrorView,
        >(0int),
{
}

/// The conductor count: missing, it is reported as the missing field `n`;
/// below one, as an invalid count; from one on it passes, as a decimal.
pub proof fn lemma_conductor_count(input: CalcInput)
    ensures
        input.n is None ==> field_check(input, Field::N) == Err::<int, CalcErrorView>(
            CalcErrorView::MissingField(Field::N.name()),
        ),
        input.n matches Some(n) && n < 1 ==> field_check(input, Field::N) == Err::<
            int,
            CalcErrorView,
        >(CalcErrorView::InvalidN),
        input.n is Some && input.n->0 >= 1 ==> field_check(input, Field::N) == Ok::<
            int,
            CalcErrorView,
        >(input.n->0 * 1_000_000),
        field_check(input, Field::N) is Err ==> formula_result(ParamType::AFilm, input) == Err::<
            CalcOutputView,
            CalcErrorView,
        >(field_check(input, Field::N)->Err_0),
{
    if field_check(input, Field::N) is Err {
        lemma_first_failure_decides(ParamType::AFilm, input, 0);
    }
}

/// A formula succeeds exactly where each of its required fields passes.
pub proof fn lemma_success_needs_every_field(tag: ParamType, input: CalcInput)
    ensures
        formula_result(tag, input) is Ok <==> (forall|j: nat|
            j < required_fields(tag).len() ==> (#[trigger] field_check(
                input,
                required_fields(tag)[j as int],
            )) is Ok),
{
    let fields = required_fields(tag);
    if forall|j: nat| j < fields.len() ==> (#[trigger] field_check(input, fields[j as int])) is Ok {
        lemma_no_failure_from(input, fields, 0);
    } else {
        let bad = choose|j: nat|
            j < fields.len() && !((#[trigger] field_check(input, fields[j as int])) is Ok);
        lemma_some_failure(input, fields, 0, bad);
    }
}

/// Where a field at or behind index `from` fails, some failure is reported.
proof fn lemma_some_failure(input: CalcInput, fields: Seq<Field>, from: nat, bad: nat)
    requires
        from <= bad < fields.len(),
        field_check(input, fields[bad as int]) is Err,
    ensures
        first_failure(input, fields, from) is Some,
    decreases bad - from,
{
    if from < bad && field_check(input, fields[from as int]) is Ok {
        lemma_some_failure(input, fields, from + 1, bad);
    }
}

/// The value that a formula reports has the formula's number of fractional
/// digits: two for the A film, four for the others.
pub proof fn lemma_value_is_rounded(tag: ParamType, input: CalcInput)
    ensures
        has_places(formula_value(tag, input), formula_decimals(tag)),
        formula_output(tag, input).decimals == formula_decimals(tag),
        formula_decimals(tag) == if tag == ParamType::AFilm {
            2nat
        } else {
            4nat
        },
{
    let (num, den) = exact_ratio(tag, input);
    lemma_round_to_places_has_places(num, den, formula_decimals(tag));
}

/// Where the exact value of a formula has no more fractional digits than the
/// formula reports, the formula reports the exact value.
pub proof fn lemma_exact_value_is_kept(tag: ParamType, input: CalcInput, value: int)
    requires
        exact_ratio(tag, input).1 > 0,
        exact_ratio(tag, input).0 == exact_ratio(tag, input).1 * value,
        has_places(value, formula_decimals(tag)),
    ensures
        formula_value(tag, input) == value,
{
    lemma_round_to_places_exact(value, exact_ratio(tag, input).1, formula_decimals(tag));
}

/// No formula reports a division by zero: the A film divides by half of
/// `n + 1`, and a count that passed its check is at least one.
pub proof fn lemma_no_division_by_zero(tag: ParamType, input: CalcInput)
    ensures
        formula_result(tag, input) != Err::<CalcOutputView, CalcErrorView>(
            CalcErrorView::DivisionByZero,
        ),
        formula_result(ParamType::AFilm, input) is Ok ==> exact_ratio(ParamType::AFilm, input).1
            >= 1_000_000,
{
    lemma_failure_kinds(input, required_fields(tag), 0);
    if formula_result(ParamType::AFilm, input) is Ok {
        lemma_success_needs_every_field(ParamType::AFilm, input);
        assert(field_check(input, required_fields(ParamType::AFilm)[0]) is Ok);
    }
}

/// A failure of a check is a missing field, a negative value or an invalid
/// count.
proof fn lemma_failure_kinds(input: CalcInput, fields: Seq<Field>, from: nat)
    ensures
        first_failure(input, fields, from) != Some(CalcErrorView::DivisionByZero),
    decreases fields.len() - from,
{
    if from < fields.len() {
        lemma_failure_kinds(input, fields, from + 1);
    }
}

/// What `computable` asks of each formula, field by field.
proof fn lemma_computable_fields(tag: ParamType, input: CalcInput)
    ensures
        computable(tag, input) <==> match tag {
            ParamType::AFilm => measurement_in_range(input.a_h_change) && measurement_in_range(
                input.a_h_bare,
            ) && measurement_in_range(input.paper_h),
            ParamType::BFilm => measurement_in_range(input.b_h_change) && measurement_in_range(
                input.b_h_bare,
            ) && measurement_in_range(input.paper_h) && measurement_in_range(
                input.center_paper_h,
            ),
            ParamType::ADie => measurement_in_range(input.a_h_bare) && measurement_in_range(
                input.a_shrink,
            ) && measurement_in_range(input.a_reserve),
            ParamType::BDie => measurement_in_range(input.b_h_bare) && measurement_in_range(
                input.b_shrink,
            ) && measurement_in_range(input.b_reserve),
        },
{
    let fields = required_fields(tag);
    if computable(tag, input) {
        assert(measurement_in_range(input.measurement(fields[0])));
        assert(measurement_in_range(input.measurement(fields[1])));
        assert(measurement_in_range(input.measurement(fields[2])));
        if fields.len() > 3 {
            assert(measurement_in_range(input.measurement(fields[3])));
        }
    }
}

/// Tells whether the formula `tag` can compute on `inputs`.
pub fn is_computable(tag: ParamType, inputs: &CalcInput) -> (b: bool)
    ensures
        b == computable(tag, *inputs),
{
    proof {
        lemma_computable_fields(tag, *inputs);
    }
    match tag {
        ParamType::AFilm => is_measurement_in_range(inputs.a_h_change) && is_measurement_in_range(
            inputs.a_h_bare,
        ) && is_measurement_in_range(inputs.paper_h),
        ParamType::BFilm => is_measurement_in_range(inputs.b_h_change) && is_measurement_in_range(
            inputs.b_h_bare,
        ) && is_measurement_in_range(inputs.paper_h) && is_measurement_in_range(
            inputs.center_paper_h,
        ),
        ParamType::ADie => is_measurement_in_range(inputs.a_h_bare) && is_measurement_in_range(
            inputs.a_shrink,
        ) && is_measurement_in_range(inputs.a_reserve),
        ParamType::BDie => is_measurement_in_range(inputs.b_h_bare) && is_measurement_in_range(
            inputs.b_shrink,
        ) && is_measurement_in_range(inputs.b_reserve),
    }
}

/// Appends a field as it is echoed.
fn push_pair(out: &mut String, name: &str, value: &Decimal)
    ensures
        final(out)@ == old(out)@ + (name@ + "="@ + decimal_text(value@)),
{
    out.append(name);
    out.append("=");
    let text = value.to_text();
    out.append(text.as_str());
    assert(final(out)@ =~= old(out)@ + (name@ + "="@ + decimal_text(value@)));
}

/// The A film formula: with `d` half of `n + 1`,
/// `(a_h_change - (a_h_bare * d + paper_h)) / d`, to two fractional digits.
pub fn calc_a_film(inputs: &CalcInput) -> (outcome: Result<CalcOutput, CalcError>)
    requires
        computable(ParamType::AFilm, *inputs),
    ensures
        outcome_view(outcome) == formula_result(ParamType::AFilm, *inputs),
        outcome matches Ok(output) ==> has_places(output.value@, 2),
        !(outcome matches Err(CalcError::DivisionByZero)),
{
    proof {
        lemma_computable_fields(ParamType::AFilm, *inputs);
        reveal_with_fuel(first_failure, 5);
        reveal_with_fuel(echo_text, 5);
    }
    let n = match validate_n(inputs.n) {
        Ok(v) => v,
        Err(e) => {
            return Err(e);
        },
    };
    let a_h_change = match validate_non_negative(inputs.a_h_change, "a_h_change") {
        Ok(v) => v,
        Err(e) => {
            return Err(e);
        },
    };
    let a_h_bare = match validate_non_negative(inputs.a_h_bare, "a_h_bare") {
        Ok(v) => v,
        Err(e) => {
            return Err(e);
        },
    };
    let paper_h = match validate_non_negative(inputs.paper_h, "paper_h") {
        Ok(v) => v,
        Err(e) => {
            return Err(e);
        },
    };

    let denominator: i128 = (n.micros() as i128 + 1_000_000) / 2;
    if denominator == 0 {
        return Err(CalcError::DivisionByZero);
    }
    let a: i128 = a_h_change.micros() as i128;
    let b: i128 = a_h_bare.micros() as i128;
    let p: i128 = paper_h.micros() as i128;
    assert(0 <= b * denominator <= 1_000_000_000_000_000_000 * denominator
        <= 2_000_000_000_000_000_000_000_000_000_000_000) by (nonlinear_arith)
        requires
            0 <= b <= 1_000_000_000_000_000_000,
            1_000_000 <= denominator <= 2_000_000_000_000_000,
    ;
    let numerator: i128 = a * 1_000_000 - (b * denominator + p * 1_000_000);
    proof {
        let bound = 2_000_000_000_000_000_000int;
        assert(denominator * bound == 2 * (1_000_000_000_000_000_000 * denominator))
            by (nonlinear_arith)
            requires
                bound == 2_000_000_000_000_000_000,
        ;
        lemma_pow10_values();
        lemma_round_to_places_bound(numerator as int, denominator as int, 2, bound);
    }
    let value = round_to(numerator, denominator, 2);

    let mut echo = String::new();
    push_pair(&mut echo, "n", &n);
    echo.append(", ");
    push_pair(&mut echo, "a_h_change", &a_h_change);
    echo.append(", ");
    push_pair(&mut echo, "a_h_bare", &a_h_bare);
    echo.append(", ");
    push_pair(&mut echo, "paper_h", &paper_h);
    assert(echo@ =~= echo_text(*inputs, required_fields(ParamType::AFilm), 4));

    Ok(
        CalcOutput {
            value,
            unit: String::from_str("mm"),
            decimals: 2,
            formula_id: String::from_str("a_film"),
            inputs_echo: echo,
        },
    )
}

/// The B film formula:
/// `(b_h_change - (b_h_bare * 2 + paper_h + center_paper_h)) / 2`, to four
/// fractional digits.
pub fn calc_b_film(inputs: &CalcInput) -> (outcome: Result<CalcOutput, CalcError>)
    requires
        computable(ParamType::BFilm, *inputs),
    ensures
        outcome_view(outcome) == formula_result(ParamType::BFilm, *inputs),
        outcome matches Ok(output) ==> has_places(output.value@, 4),
{
    proof {
        lemma_computable_fields(ParamType::BFilm, *inputs);
        reveal_with_fuel(first_failure, 5);
        reveal_with_fuel(echo_text, 5);
    }
    let b_h_change = match validate_non_negative(inputs.b_h_change, "b_h_change") {
        Ok(v) => v,
        Err(e) => {
            return Err(e);
        },
    };
    let b_h_bare = match validate_non_negative(inputs.b_h_bare, "b_h_bare") {
        Ok(v) => v,
        Err(e) => {
            return Err(e);
        },
    };
    let paper_h = match validate_non_negative(inputs.paper_h, "paper_h") {
        Ok(v) => v,
        Err(e) => {
            return Err(e);
        },
    };
    let center_paper_h = match validate_non_negative(inputs.center_paper_h, "center_paper_h") {
        Ok(v) => v,
        Err(e) => {
            return Err(e);
        },
    };

    let numerator: i128 = b_h_change.micros() as i128 - (b_h_bare.micros() as i128 * 2
        + paper_h.micros() as i128 + center_paper_h.micros() as i128);
    proof {
        lemma_pow10_values();
        lemma_round_to_places_bound(numerator as int, 2, 4, 2_000_000_000_000_000_000);
    }
    let value = round_to(numerator, 2, 4);

    let mut echo = String::new();
    push_pair(&mut echo, "b_h_change", &b_h_change);
    echo.append(", ");
    push_pair(&mut echo, "b_h_bare", &b_h_bare);
    echo.append(", ");
    push_pair(&mut echo, "paper_h", &paper_h);
    echo.append(", ");
    push_pair(&mut echo, "center_paper_h", &center_paper_h);
    assert(echo@ =~= echo_text(*inputs, required_fields(ParamType::BFilm), 4));

    Ok(
        CalcOutput {
            value,
            unit: String::from_str("mm"),
            decimals: 4,
            formula_id: String::from_str("b_film"),
            inputs_echo: echo,
        },
    )
}

/// The A die formula: `a_h_bare + a_shrink + a_reserve`, to four fractional
/// digits.
pub fn calc_a_die(inputs: &CalcInput) -> (outcome: Result<CalcOutput, CalcError>)
    requires
        computable(ParamType::ADie, *inputs),
    ensures
        outcome_view(outcome) == formula_result(ParamType::ADie, *inputs),
        outcome matches Ok(output) ==> has_places(output.value@, 4),
{
    proof {
        lemma_computable_fields(ParamType::ADie, *inputs);
        reveal_with_fuel(first_failure, 4);
        reveal_with_fuel(echo_text, 4);
    }
    let a_h_bare = match validate_non_negative(inputs.a_h_bare, "a_h_bare") {
        Ok(v) => v,
        Err(e) => {
            return Err(e);
        },
    };
    let a_shrink = match validate_non_negative(inputs.a_shrink, "a_shrink") {
        Ok(v) => v,
        Err(e) => {
            return Err(e);
        },
    };
    let a_reserve = match validate_non_negative(inputs.a_reserve, "a_reserve") {
        Ok(v) => v,
        Err(e) => {
            return Err(e);
        },
    };

    let sum: i128 = a_h_bare.micros() as i128 + a_shrink.micros() as i128
        + a_reserve.micros() as i128;
    proof {
        lemma_pow10_values();
        lemma_round_to_places_bound(sum as int, 1, 4, 3_000_000_000_000_000_000);
    }
    let value = round_to(sum, 1, 4);

    let mut echo = String::new();
    push_pair(&mut echo, "a_h_bare", &a_h_bare);
    echo.append(", ");
    push_pair(&mut echo, "a_shrink", &a_shrink);
    echo.append(", ");
    push_pair(&mut echo, "a_reserve", &a_reserve);
    assert(echo@ =~= echo_text(*inputs, required_fields(ParamType::ADie), 3));

    Ok(
        CalcOutput {
            value,
            unit: String::from_str("mm"),
            decimals: 4,
            formula_id: String::from_str("a_die"),
            inputs_echo: echo,
        },
    )
}

/// The B die formula: `b_h_bare + b_shrink + b_reserve`, to four fractional
/// digits.
pub fn calc_b_die(inputs: &CalcInput) -> (outcome: Result<CalcOutput, CalcError>)
    requires
        computable(ParamType::BDie, *inputs),
    ensures
        outcome_view(outcome) == formula_result(ParamType::BDie, *inputs),
        outcome matches Ok(output) ==> has_places(output.value@, 4),
{
    proof {
        lemma_computable_fields(ParamType::BDie, *inputs);
        reveal_with_fuel(first_failure, 4);
        reveal_with_fuel(echo_text, 4);
    }
    let b_h_bare = match validate_non_negative(inputs.b_h_bare, "b_h_bare") {
        Ok(v) => v,
        Err(e) => {
            return Err(e);
        },
    };
    let b_shrink = match validate_non_negative(inputs.b_shrink, "b_shrink") {
        Ok(v) => v,
        Err(e) => {
            return Err(e);
        },
    };
    let b_reserve = match validate_non_negative(inputs.b_reserve, "b_reserve") {
        Ok(v) => v,
        Err(e) => {
            return Err(e);
        },
    };

    let sum: i128 = b_h_bare.micros() as i128 + b_shrink.micros() as i128
        + b_reserve.micros() as i128;
    proof {
        lemma_pow10_values();
        lemma_round_to_places_bound(sum as int, 1, 4, 3_000_000_000_000_000_000);
    }
    let value = round_to(sum, 1, 4);

    let mut echo = String::new();
    push_pair(&mut echo, "b_h_bare", &b_h_bare);
    echo.append(", ");
    push_pair(&mut echo, "b_shrink", &b_shrink);
    echo.append(", ");
    push_pair(&mut echo, "b_reserve", &b_reserve);
    assert(echo@ =~= echo_text(*inputs, required_fields(ParamType::BDie), 3));

    Ok(
        CalcOutput {
            value,
            unit: String::from_str("mm"),
            decimals: 4,
            formula_id: String::from_str("b_die"),
            inputs_echo: echo,
        },
    )
}

} // verus!
