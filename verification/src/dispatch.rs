//! The dispatcher: which formulas a request runs, and how their outcomes
//! become one response.

use crate::formulas::{
    calc_a_die, calc_a_film, calc_b_die, calc_b_film, computable, formula_result, is_computable,
};
use crate::model::{
    message_text, outcome_view, output_view, CalcError, CalcInput, CalcMode, CalcOutput,
    CalcOutputView, CalcRequest, CalcResult, CalcResultView, FullCalcOutput, FullCalcOutputView,
    ParamType,
};
use vstd::prelude::*;

verus! {

/// Whether a request runs the formula `tag`: each one in `Full` mode, the one
/// asked for in `Single` mode.
pub open spec fn should_run(mode: CalcMode, param: Option<ParamType>, tag: ParamType) -> bool {
    match mode {
        CalcMode::Single => param == Some(tag),
        CalcMode::Full => true,
    }
}

/// Whether the engine can answer a request: each formula that the request
/// runs can compute on its inputs.
pub open spec fn answerable(request: CalcRequest) -> bool {
    forall|tag: ParamType|
        should_run(request.mode, request.param, tag) ==> #[trigger] computable(
            tag,
            request.inputs,
        )
}

/// What the slot of the formula `tag` holds in the response to `request`.
pub open spec fn slot_output(request: CalcRequest, tag: ParamType) -> Option<CalcOutputView> {
    if should_run(request.mode, request.param, tag) {
        match formula_result(tag, request.inputs) {
            Ok(output) => Some(output),
            Err(_) => None,
        }
    } else {
        None
    }
}

/// The error texts that the formula `tag` adds to the response: its failure
/// in `Single` mode, nothing in `Full` mode.
pub open spec fn slot_errors(request: CalcRequest, tag: ParamType) -> Seq<Seq<char>> {
    if should_run(request.mode, request.param, tag) && request.mode == CalcMode::Single {
        match formula_result(tag, request.inputs) {
            Ok(_) => Seq::empty(),
            Err(error) => seq![message_text(error)],
        }
    } else {
        Seq::empty()
    }
}

/// The error texts of a request, in the order of the formulas.
pub open spec fn reported_errors(request: CalcRequest) -> Seq<Seq<char>> {
    slot_errors(request, ParamType::AFilm) + slot_errors(request, ParamType::BFilm) + slot_errors(
        request,
        ParamType::ADie,
    ) + slot_errors(request, ParamType::BDie)
}

/// The texts `parts` in one text, with `separator` between two neighbours.
pub open spec fn join_text(parts: Seq<Seq<char>>, separator: Seq<char>) -> Seq<char>
    decreases parts.len(),
{
    if parts.len() == 0 {
        Seq::empty()
    } else if parts.len() == 1 {
        parts[0]
    } else {
        join_text(parts.drop_last(), separator) + separator + parts.last()
    }
}

/// The views of a list of texts.
pub open spec fn text_views(texts: Seq<String>) -> Seq<Seq<char>> {
    Seq::new(texts.len(), |i: int| texts[i]@)
}

/// The response to a request.
pub open spec fn response(request: CalcRequest) -> CalcResultView {
    let errors = reported_errors(request);
    if errors.len() > 0 {
        CalcResultView { success: false, data: None, error: Some(join_text(errors, "; "@)) }
    } else {
        CalcResultView {
            success: true,
            data: Some(
                FullCalcOutputView {
                    a_film: slot_output(request, ParamType::AFilm),
                    b_film: slot_output(request, ParamType::BFilm),
                    a_die: slot_output(request, ParamType::ADie),
                    b_die: slot_output(request, ParamType::BDie),
                },
            ),
            error: None,
        }
    }
}

/// The response to a text that is no request: a failure that carries the
/// reason.
pub open spec fn invalid_request_response(details: Seq<char>) -> CalcResultView {
    CalcResultView { success: false, data: None, error: Some("Invalid JSON: "@ + details) }
}

/// A response depends on nothing but the request: two responses to one
/// request are the same.
pub proof fn lemma_response_is_repeatable(
    request: CalcRequest,
    first: CalcResult,
    second: CalcResult,
)
    requires
        first@ == response(request),
        second@ == response(request),
    ensures
        first@ == second@,
{
}

/// The standard of a request has no influence on the response.
pub proof fn lemma_standard_is_ignored(request: CalcRequest, other: CalcRequest)
    requires
        other.mode == request.mode,
        other.param == request.param,
        other.inputs == request.inputs,
    ensures
        response(other) == response(request),
{
}

/// In `Full` mode no failure is reported: the response is a success, and a
/// slot is empty exactly where its formula failed.
pub proof fn lemma_full_mode_succeeds(request: CalcRequest)
    requires
        request.mode == CalcMode::Full,
    ensures
        response(request).success,
        response(request).error is None,
        forall|tag: ParamType| #[trigger]
            slot_output(request, tag) is Some <==> formula_result(tag, request.inputs) is Ok,
{
    assert(reported_errors(request) =~= Seq::empty());
}

/// In `Single` mode with no formula asked for, nothing runs: the response is
/// a success whose slots are all empty.
pub proof fn lemma_single_mode_without_param(request: CalcRequest)
    requires
        request.mode == CalcMode::Single,
        request.param is None,
    ensures
        response(request) == (CalcResultView {
            success: true,
            data: Some(
                FullCalcOutputView { a_film: None, b_film: None, a_die: None, b_die: None },
            ),
            error: None,
        }),
{
    assert(reported_errors(request) =~= Seq::empty());
}

/// In `Single` mode the response is that of the one formula asked for: its
/// output in its slot and the other slots empty, or its error text alone.
pub proof fn lemma_single_mode_reports_one(request: CalcRequest, tag: ParamType)
    requires
        request.mode == CalcMode::Single,
        request.param == Some(tag),
    ensures
        formula_result(tag, request.inputs) matches Err(error) ==> response(request) == (
        CalcResultView { success: false, data: None, error: Some(message_text(error)) }),
        formula_result(tag, request.inputs) is Ok ==> {
            &&& response(request).success
            &&& response(request).error is None
            &&& response(request).data is Some
            &&& forall|other: ParamType| #[trigger]
                slot_output(request, other) == if other == tag {
                    Some(formula_result(tag, request.inputs)->Ok_0)
                } else {
                    None::<CalcOutputView>
                }
        },
{
    let errors = reported_errors(request);
    match formula_result(tag, request.inputs) {
        Err(error) => {
            assert(errors =~= seq![message_text(error)]);
        },
        Ok(_) => {
            assert(errors =~= Seq::empty());
        },
    }
}

/// Every response is well formed: outputs where it reports success, an error
/// text where it does not, never both and never neither.
pub proof fn lemma_response_is_well_formed(request: CalcRequest)
    ensures
        response(request).well_formed(),
{
}

/// Tells whether a request runs the formula `tag`.
pub fn selects(mode: CalcMode, param: Option<ParamType>, tag: ParamType) -> (run: bool)
    ensures
        run == should_run(mode, param, tag),
{
    match mode {
        CalcMode::Single => match param {
            Some(asked) => asked == tag,
            None => false,
        },
        CalcMode::Full => true,
    }
}

/// Tells whether the engine can answer a request.
pub fn is_answerable(request: &CalcRequest) -> (b: bool)
    ensures
        b == answerable(*request),
{
    let a_film = !selects(request.mode, request.param, ParamType::AFilm) || is_computable(
        ParamType::AFilm,
        &request.inputs,
    );
    let b_film = !selects(request.mode, request.param, ParamType::BFilm) || is_computable(
        ParamType::BFilm,
        &request.inputs,
    );
    let a_die = !selects(request.mode, request.param, ParamType::ADie) || is_computable(
        ParamType::ADie,
        &request.inputs,
    );
    let b_die = !selects(request.mode, request.param, ParamType::BDie) || is_computable(
        ParamType::BDie,
        &request.inputs,
    );
    proof {
        if a_film && b_film && a_die && b_die {
            assert forall|tag: ParamType|
                should_run(request.mode, request.param, tag) implies #[trigger] computable(
                tag,
                request.inputs,
            ) by {
                match tag {
                    ParamType::AFilm => {},
                    ParamType::BFilm => {},
                    ParamType::ADie => {},
                    ParamType::BDie => {},
                }
            }
        }
    }
    a_film && b_film && a_die && b_die
}

/// Runs the formula `tag`.
pub fn run_formula(tag: ParamType, inputs: &CalcInput) -> (outcome: Result<CalcOutput, CalcError>)
    requires
        computable(tag, *inputs),
    ensures
        outcome_view(outcome) == formula_result(tag, *inputs),
{
    match tag {
        ParamType::AFilm => calc_a_film(inputs),
        ParamType::BFilm => calc_b_film(inputs),
        ParamType::ADie => calc_a_die(inputs),
        ParamType::BDie => calc_b_die(inputs),
    }
}

/// Runs the formula `tag` where the request asks for it, and hands back what
/// goes into its slot. A failure is added to `errors` in `Single` mode and
/// dropped in `Full` mode.
fn fill_slot(request: &CalcRequest, tag: ParamType, errors: &mut Vec<String>) -> (slot: Option<
    CalcOutput,
>)
    requires
        should_run(request.mode, request.param, tag) ==> computable(tag, request.inputs),
    ensures
        output_view(slot) == slot_output(*request, tag),
        text_views(final(errors)@) == text_views(old(errors)@) + slot_errors(*request, tag),
{
    if selects(request.mode, request.param, tag) {
        match run_formula(tag, &request.inputs) {
            Ok(output) => {
                assert(text_views(errors@) =~= text_views(old(errors)@) + slot_errors(
                    *request,
                    tag,
                ));
                Some(output)
            },
            Err(error) => {
                if request.mode == CalcMode::Single {
                    let text = error.message();
                    errors.push(text);
                }
                assert(text_views(errors@) =~= text_views(old(errors)@) + slot_errors(
                    *request,
                    tag,
                ));
                None
            },
        }
    } else {
        assert(text_views(errors@) =~= text_views(old(errors)@) + slot_errors(*request, tag));
        None
    }
}

/// Joins texts, with `separator` between two neighbours.
pub fn join(parts: &Vec<String>, separator: &str) -> (joined: String)
    ensures
        joined@ == join_text(text_views(parts@), separator@),
{
    let mut joined = String::new();
    let mut i: usize = 0;
    while i < parts.len()
        invariant
            i <= parts.len(),
            joined@ == join_text(text_views(parts@).take(i as int), separator@),
        decreases parts.len() - i,
    {
        if i > 0 {
            joined.append(separator);
        }
        joined.append(parts[i].as_str());
        proof {
            let all = text_views(parts@);
            assert(all.take(i + 1).drop_last() =~= all.take(i as int));
            assert(all.take(i + 1).last() == parts[i as int]@);
            assert(joined@ =~= join_text(all.take(i + 1), separator@));
        }
        i = i + 1;
    }
    assert(text_views(parts@).take(i as int) =~= text_views(parts@));
    joined
}

/// Answers a request: runs the formulas it asks for, in their fixed order,
/// and gathers what they return. In `Single` mode a failure makes the whole
/// response a failure; in `Full` mode a formula that fails leaves its slot
/// empty and nothing is reported.
pub fn calculate(request: &CalcRequest) -> (result: CalcResult)
    requires
        answerable(*request),
    ensures
        result@ == response(*request),
        result@.well_formed(),
{
    let mut errors: Vec<String> = Vec::new();
    assert(text_views(errors@) =~= Seq::empty());

    let a_film = fill_slot(request, ParamType::AFilm, &mut errors);
    let b_film = fill_slot(request, ParamType::BFilm, &mut errors);
    let a_die = fill_slot(request, ParamType::ADie, &mut errors);
    let b_die = fill_slot(request, ParamType::BDie, &mut errors);
    assert(text_views(errors@) =~= reported_errors(*request));

    if errors.len() > 0 {
        return CalcResult { success: false, data: None, error: Some(join(&errors, "; ")) };
    }
    CalcResult {
        success: true,
        data: Some(FullCalcOutput { a_film, b_film, a_die, b_die }),
        error: None,
    }
}

/// The response to a text that could not be read as a request: a failure
/// whose error text gives the reason.
pub fn invalid_request(details: &str) -> (result: CalcResult)
    ensures
        result@ == invalid_request_response(details@),
        result@.well_formed(),
{
    CalcResult {
        success: false,
        data: None,
        error: Some(String::from_str("Invalid JSON: ").concat(details)),
    }
}

} // verus!
