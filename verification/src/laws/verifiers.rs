//! Laws of constraints and of the built-in verifiers.

use crate::constraint;
use crate::constraint::Judgement;
use crate::double;
use crate::double::DoubleModel;
use crate::json::model;
use crate::json::model::{Json, NumberModel};
use crate::laws::json as json_laws;
use crate::laws::schema as schema_laws;
use crate::outcome;
use crate::path;
use crate::text;
use crate::types::{
    ConstraintModel, IntentModel, OutcomeModel, ResultModel, VerificationMode, VerificationStatus,
};
use crate::verifiers::file;
use crate::verifiers::file::ReadBackModel;
use crate::verifiers::http;
use crate::verifiers::http::ResponseModel;
use crate::verifiers::json;
use vstd::prelude::*;
use vstd::string::*;

verus! {

/// Whether a result says what its checks say: it is verified exactly where
/// every check passed.
pub open spec fn agrees_with_checks(result: ResultModel) -> bool {
    result.status == VerificationStatus::Verified <==> outcome::all_passed(result.details)
}

/// The check of a constraint and what it comes to.
proof fn lemma_judged(constraints: Seq<ConstraintModel>, root: Json, i: int)
    requires
        0 <= i < constraints.len(),
    ensures
        json::judgements(constraints, root)[i] == constraint::judged(constraints[i], root),
        json::constraint_details(constraints, root)[i] == json::judged_detail(
            constraint::judged(constraints[i], root),
        ),
        constraint::judged(constraints[i], root) is Inconclusive <==> constraints[i] is Custom,
        constraints[i] is Custom ==> !json::constraint_details(constraints, root)[i].passed,
{
}

/// JSON output comes with one check for each constraint, in their order.
pub proof fn law_one_check_for_each_constraint(
    intent: IntentModel,
    outcome: OutcomeModel,
    elapsed_ms: u128,
)
    ensures
        json::active_result(intent, outcome, elapsed_ms).details.len() == intent.constraints.len(),
        forall|i: int|
            0 <= i < intent.constraints.len() ==> (#[trigger] json::active_result(
                intent,
                outcome,
                elapsed_ms,
            ).details[i]) == json::judged_detail(
                constraint::judged(intent.constraints[i], outcome.result),
            ),
{
}

/// JSON output is verified exactly where every check passed; a custom
/// constraint never passes.
pub proof fn law_json_output_agrees_with_checks(
    intent: IntentModel,
    outcome: OutcomeModel,
    elapsed_ms: u128,
)
    ensures
        agrees_with_checks(json::active_result(intent, outcome, elapsed_ms)),
{
    let js = json::judgements(intent.constraints, outcome.result);
    let ds = json::constraint_details(intent.constraints, outcome.result);
    assert forall|i: int| 0 <= i < js.len() implies (#[trigger] ds[i]).passed == (!json::is_failure(
        js[i],
    ) && !(js[i] is Inconclusive)) by {
        lemma_judged(intent.constraints, outcome.result, i);
    }
    if outcome::all_passed(ds) {
        assert forall|i: int| 0 <= i < js.len() implies !json::is_failure(#[trigger] js[i]) && !(
        js[i] is Inconclusive) by {
            assert(ds[i].passed);
        }
    } else {
        let i = choose|i: int| 0 <= i < ds.len() && !(#[trigger] ds[i]).passed;
        assert(json::is_failure(js[i]) || js[i] is Inconclusive);
    }
}

/// JSON output fails exactly where a constraint that is not custom does not
/// hold. It is inconclusive exactly where all of those hold and there is a
/// custom one.
pub proof fn law_json_output_status(intent: IntentModel, outcome: OutcomeModel, elapsed_ms: u128)
    ensures
        json::active_result(intent, outcome, elapsed_ms).status == VerificationStatus::Failed
            <==> exists|i: int|
            0 <= i < intent.constraints.len() && !((#[trigger] intent.constraints[i]) is Custom)
                && !json::judged_detail(
                constraint::judged(intent.constraints[i], outcome.result),
            ).passed,
        json::active_result(intent, outcome, elapsed_ms).status == VerificationStatus::Inconclusive
            <==> (forall|i: int|
            0 <= i < intent.constraints.len() && !((#[trigger] intent.constraints[i]) is Custom)
                ==> json::judged_detail(
                constraint::judged(intent.constraints[i], outcome.result),
            ).passed) && exists|i: int|
            0 <= i < intent.constraints.len() && (#[trigger] intent.constraints[i]) is Custom,
        json::active_result(intent, outcome, elapsed_ms).status != VerificationStatus::Skipped,
{
    let cs = intent.constraints;
    let js = json::judgements(cs, outcome.result);
    assert forall|i: int| 0 <= i < cs.len() implies js[i] == constraint::judged(
        #[trigger] cs[i],
        outcome.result,
    ) && (js[i] is Inconclusive <==> cs[i] is Custom) by {
        lemma_judged(cs, outcome.result, i);
    }
    assert forall|i: int| 0 <= i < js.len() implies (#[trigger] js[i]) == constraint::judged(
        cs[i],
        outcome.result,
    ) by {
        lemma_judged(cs, outcome.result, i);
    }
}

/// JSON output without constraints is verified.
pub proof fn law_no_constraints_verified(intent: IntentModel, outcome: OutcomeModel, elapsed_ms: u128)
    requires
        intent.constraints.len() == 0,
    ensures
        json::active_result(intent, outcome, elapsed_ms).status == VerificationStatus::Verified,
        json::active_result(intent, outcome, elapsed_ms).details.len() == 0,
{
}

/// What JSON output comes to does not depend on the order of the constraints,
/// nor on how often each is stated.
pub proof fn law_order_of_constraints(a: Seq<ConstraintModel>, b: Seq<ConstraintModel>, root: Json)
    requires
        forall|c: ConstraintModel| a.contains(c) <==> b.contains(c),
    ensures
        json::combined_status(json::judgements(a, root)) == json::combined_status(
            json::judgements(b, root),
        ),
{
    lemma_same_judgements(a, b, root);
    lemma_same_judgements(b, a, root);
}

/// Whatever is judged of the first constraints is judged of the second.
proof fn lemma_same_judgements(a: Seq<ConstraintModel>, b: Seq<ConstraintModel>, root: Json)
    requires
        forall|c: ConstraintModel| a.contains(c) ==> b.contains(c),
    ensures
        forall|i: int|
            0 <= i < a.len() ==> json::judgements(b, root).contains(
                #[trigger] json::judgements(a, root)[i],
            ),
{
    assert forall|i: int| 0 <= i < a.len() implies json::judgements(b, root).contains(
        #[trigger] json::judgements(a, root)[i],
    ) by {
        assert(a.contains(a[i]));
        let j = choose|j: int| 0 <= j < b.len() && b[j] == a[i];
        assert(json::judgements(b, root)[j] == json::judgements(a, root)[i]);
    }
}

/// More constraints never make an outcome better: what failed still fails, and
/// what is verified was verified with fewer.
pub proof fn law_more_constraints_never_help(
    constraints: Seq<ConstraintModel>,
    more: Seq<ConstraintModel>,
    root: Json,
)
    ensures
        json::combined_status(json::judgements(constraints, root)) == VerificationStatus::Failed
            ==> json::combined_status(json::judgements(constraints + more, root))
            == VerificationStatus::Failed,
        json::combined_status(json::judgements(constraints + more, root))
            == VerificationStatus::Verified ==> json::combined_status(
            json::judgements(constraints, root),
        ) == VerificationStatus::Verified,
{
    let few = json::judgements(constraints, root);
    let all = json::judgements(constraints + more, root);
    assert forall|i: int| 0 <= i < few.len() implies #[trigger] few[i] == all[i] by {}
}

/// A field holds what it holds: a constraint that a field equals its own value
/// passes.
pub proof fn law_field_matches_itself(field: Seq<char>, root: Json, v: Json)
    requires
        model::json_ok(v),
        path::resolved(root, field) == Some(v),
    ensures
        constraint::judged(ConstraintModel::ExactMatch { field, expected: v }, root) matches
            Judgement::Detail(d) && d.passed && d.expected == d.actual,
{
    json_laws::law_equality_is_reflexive(v);
}

/// A constraint on a field that is not there fails, and says so.
pub proof fn law_missing_fields_fail(constraint: ConstraintModel, field: Seq<char>, root: Json)
    requires
        path::resolved(root, field) is None,
        match constraint {
            ConstraintModel::ExactMatch { field: f, .. } => f == field,
            ConstraintModel::Contains { field: f, .. } => f == field,
            ConstraintModel::Schema { field: f, .. } => f == field,
            ConstraintModel::Range { field: f, .. } => f == field,
            ConstraintModel::NonEmpty { field: f } => f == field,
            ConstraintModel::Custom { .. } => false,
        },
    ensures
        constraint::judged(constraint, root) == Judgement::Detail(
            if constraint is Range {
                constraint::type_wrong(field, "number"@)
            } else {
                constraint::field_missing(field)
            },
        ),
        json::is_failure(constraint::judged(constraint, root)),
{
}

/// Every text contains itself and the empty text.
pub proof fn law_texts_contain_themselves(s: Seq<char>)
    ensures
        text::occurs_in(s, s),
        text::occurs_in(s, Seq::empty()),
{
    assert(s.subrange(0, s.len() as int) =~= s);
    assert(text::occurs_at(s, s, 0));
    assert(s.subrange(0, 0) =~= Seq::<char>::empty());
    assert(text::occurs_at(s, Seq::empty(), 0));
}

/// A text contains whatever it was put together from.
pub proof fn law_texts_contain_their_parts(a: Seq<char>, b: Seq<char>, c: Seq<char>)
    ensures
        text::occurs_in(a + b + c, b),
{
    assert((a + b + c).subrange(a.len() as int, (a.len() + b.len()) as int) =~= b);
    assert(text::occurs_at(a + b + c, b, a.len() as int));
}

/// A schema constraint passes exactly where the field conforms to the schema.
pub proof fn law_schema_constraint_passes_iff_conforms(
    field: Seq<char>,
    schema: Json,
    root: Json,
    v: Json,
)
    requires
        path::resolved(root, field) == Some(v),
    ensures
        constraint::judged(ConstraintModel::Schema { field, schema }, root) matches
            Judgement::Detail(d) && (d.passed <==> schema_laws::conforms(schema, v)),
{
    schema_laws::law_no_errors_iff_conforms(schema, v, field);
}

/// A range without bounds takes every number.
pub proof fn law_range_without_bounds(field: Seq<char>, root: Json, n: NumberModel)
    requires
        path::resolved(root, field) == Some(Json::Number(n)),
    ensures
        constraint::judged(
            ConstraintModel::Range { field, min: None, max: None },
            root,
        ) matches Judgement::Detail(d) && d.passed,
{
}

/// A range is the narrower, the higher its lower bound and the lower its upper
/// bound.
pub proof fn law_ranges_nest(
    bits: u64,
    min: DoubleModel,
    max: DoubleModel,
    lower: DoubleModel,
    higher: DoubleModel,
)
    requires
        double::at_most(lower.bits, min.bits),
        double::at_most(max.bits, higher.bits),
        constraint::in_range(bits, Some(min), Some(max)),
    ensures
        constraint::in_range(bits, Some(lower), Some(higher)),
{
}

/// A range with a bound that is no number takes nothing.
pub proof fn law_range_with_nan(bits: u64, min: Option<DoubleModel>, max: Option<DoubleModel>)
    requires
        (min matches Some(m) && double::is_nan(m.bits)) || (max matches Some(m) && double::is_nan(
            m.bits,
        )),
    ensures
        !constraint::in_range(bits, min, max),
{
}

/// The evidence of where an outcome comes from: with metadata, it is verified
/// where there are citations and sources, and failed otherwise; without, it
/// stays open. It agrees with its checks.
pub proof fn law_provenance(outcome: OutcomeModel, elapsed_ms: u128)
    ensures
        agrees_with_checks(json::passive_result(outcome, elapsed_ms)),
        json::passive_result(outcome, elapsed_ms).status == VerificationStatus::Inconclusive
            <==> outcome.metadata is None,
        outcome.metadata is Some ==> json::passive_result(outcome, elapsed_ms).status
            == outcome::summary(json::passive_result(outcome, elapsed_ms).details),
{
    let ds = json::provenance_details(outcome.metadata);
    if outcome.metadata is Some {
        assert(ds.len() == 2);
        assert(outcome::all_passed(ds) <==> ds[0].passed && ds[1].passed);
    } else {
        assert(!ds[0].passed);
    }
}

/// A file is verified exactly where it could be read back and holds what it
/// should; it fails exactly where it could be read back and holds something
/// else. The result agrees with its check.
pub proof fn law_file_verified_iff_contents_equal(
    asked: ReadBackModel,
    read: Result<Seq<char>, Seq<char>>,
    elapsed_ms: u128,
)
    ensures
        agrees_with_checks(file::file_result(Some(asked), read, elapsed_ms)),
        file::file_result(Some(asked), read, elapsed_ms).status == VerificationStatus::Verified
            <==> read == Ok::<Seq<char>, Seq<char>>(asked.expected),
        file::file_result(Some(asked), read, elapsed_ms).status == VerificationStatus::Failed
            <==> read is Ok && read->Ok_0 != asked.expected,
{
    let ds = file::file_result(Some(asked), read, elapsed_ms).details;
    assert(ds.len() == 1);
    assert(outcome::all_passed(ds) <==> ds[0].passed);
}

/// There is a diff exactly where a file holds something else than it should,
/// and it is that from what the file should hold to what it holds.
pub proof fn law_diff_iff_contents_differ(
    asked: ReadBackModel,
    read: Result<Seq<char>, Seq<char>>,
    elapsed_ms: u128,
)
    ensures
        file::file_result(Some(asked), read, elapsed_ms).details.len() == 1,
        file::file_result(Some(asked), read, elapsed_ms).details[0].diff == match read {
            Ok(actual) => if actual == asked.expected {
                None
            } else {
                Some(file::unified_diff(asked.expected, actual, "expected"@, "actual"@))
            },
            Err(_) => None,
        },
{
}

/// What the parameters of the intent give as contents counts, whatever the
/// constraints say.
pub proof fn law_given_content_counts(intent: IntentModel, content: Seq<char>)
    requires
        model::member(intent.parameters, "content"@) == Some(Json::String(content)),
    ensures
        file::expected_content(intent) == Some(content),
{
}

/// Without an intent, neither files nor artifacts are verified or failed.
pub proof fn law_passive_results_stay_open(outcome: OutcomeModel)
    ensures
        file::passive_result(outcome).status == VerificationStatus::Inconclusive,
        http::passive_result(outcome).status == VerificationStatus::Inconclusive,
        agrees_with_checks(file::passive_result(outcome)),
        agrees_with_checks(http::passive_result(outcome)),
{
    assert(!file::passive_result(outcome).details[0].passed);
    assert(!http::passive_result(outcome).details[0].passed);
}

/// An artifact is verified exactly where the server answered with success, with
/// the content type that was wanted, if any was, and with a length that is not
/// zero. Otherwise it fails.
pub proof fn law_artifact_verified_iff(
    constraints: Seq<ConstraintModel>,
    response: ResponseModel,
    elapsed_ms: u128,
)
    ensures
        http::reply_result(constraints, Ok(response), elapsed_ms).status == if http::is_success(
            response.status,
        ) && (http::wanted_content_type(constraints) matches Some(wanted) ==> http::header_text(
            response.content_type,
        ) == Some(wanted)) && (http::header_length(response.content_length) matches Some(n) && n
            > 0) {
            VerificationStatus::Verified
        } else {
            VerificationStatus::Failed
        },
        agrees_with_checks(http::reply_result(constraints, Ok(response), elapsed_ms)),
{
    let ds = http::reply_result(constraints, Ok(response), elapsed_ms).details;
    let last = ds.len() - 1;
    assert(ds[0].passed == http::is_success(response.status));
    assert(ds[last] == http::content_length_detail(response));
    if http::wanted_content_type(constraints) is Some {
        assert(last == 2);
        assert(ds[1] == http::content_type_details(response, constraints)[0]);
        assert(outcome::all_passed(ds) <==> ds[0].passed && ds[1].passed && ds[2].passed);
    } else {
        assert(last == 1);
        assert(outcome::all_passed(ds) <==> ds[0].passed && ds[1].passed);
    }
}

/// Where the server could not be asked, or there is nothing to ask for, the
/// artifact is neither verified nor failed.
pub proof fn law_artifact_stays_open(
    constraints: Seq<ConstraintModel>,
    error: Seq<char>,
    elapsed_ms: u128,
)
    ensures
        http::reply_result(constraints, Err(error), elapsed_ms).status
            == VerificationStatus::Inconclusive,
        http::no_url_result(elapsed_ms).status == VerificationStatus::Inconclusive,
        agrees_with_checks(http::reply_result(constraints, Err(error), elapsed_ms)),
        agrees_with_checks(http::no_url_result(elapsed_ms)),
{
    assert(!http::reply_result(constraints, Err(error), elapsed_ms).details[0].passed);
    assert(!http::no_url_result(elapsed_ms).details[0].passed);
}

/// What is skipped was not checked: it agrees with its one check, which names
/// the operation.
pub proof fn law_skipped_is_not_verified(mode: VerificationMode, operation: Seq<char>)
    ensures
        outcome::skipped(mode, operation).status == VerificationStatus::Skipped,
        agrees_with_checks(outcome::skipped(mode, operation)),
        text::occurs_in(outcome::skipped(mode, operation).details[0].actual->0, operation),
{
    assert(!outcome::skipped(mode, operation).details[0].passed);
    law_texts_contain_their_parts("no verifier for operation `"@, operation, "`"@);
}

}
