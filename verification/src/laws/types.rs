//! Laws of models: each model holds what its value holds, field by field.

use crate::double::Double;
use crate::json::model::Json;
use crate::json::value;
use crate::json::{Object, Value};
use crate::text;
use crate::types;
use crate::types::{
    ActionIntent, ActionOutcome, Citation, Constraint, ConstraintModel, ProvenanceMetadata,
    VerificationDetail, VerificationResult,
};
use crate::verifiers::file;
use crate::verifiers::file::ReadBack;
use crate::verifiers::http;
use vstd::prelude::*;
use vstd::string::*;

verus! {

/// The texts of a list are those of its strings, in their order.
pub proof fn law_texts(list: Seq<String>, slices: Seq<&str>, i: int)
    ensures
        text::texts(list).len() == list.len(),
        0 <= i < list.len() ==> text::texts(list)[i] == list[i]@,
        text::str_texts(slices).len() == slices.len(),
        0 <= i < slices.len() ==> text::str_texts(slices)[i] == slices[i]@,
{
}

/// What optional strings are.
pub proof fn law_optional_texts(s: String)
    ensures
        text::optional_text(Some(s)) == Some(s@),
        text::optional_text(None) == None::<Seq<char>>,
{
}

/// What values are.
pub proof fn law_values(b: bool, s: String, items: Vec<Value>, object: Object, i: int)
    ensures
        Value::Null@ == Json::Null,
        Value::Bool(b)@ == Json::Bool(b),
        Value::String(s)@ == Json::String(s@),
        Value::Object(object)@ == Json::Object(object.model()),
        Value::Array(items)@ == Json::Array(value::models(items@)),
        value::models(items@).len() == items@.len(),
        0 <= i < items@.len() ==> value::models(items@)[i] == items@[i]@,
{
    assert(Value::Array(items)@->Array_0 =~= value::models(items@));
}

/// What constraints are.
pub proof fn law_constraints(
    field: String,
    v: Value,
    s: String,
    min: Option<Double>,
    max: Option<Double>,
)
    ensures
        (Constraint::ExactMatch { field, expected: v })@ == (ConstraintModel::ExactMatch {
            field: field@,
            expected: v@,
        }),
        (Constraint::Contains { field, substring: s })@ == (ConstraintModel::Contains {
            field: field@,
            substring: s@,
        }),
        (Constraint::Schema { field, schema: v })@ == (ConstraintModel::Schema {
            field: field@,
            schema: v@,
        }),
        (Constraint::NonEmpty { field })@ == (ConstraintModel::NonEmpty { field: field@ }),
        (Constraint::Custom { name: s, params: v })@ == (ConstraintModel::Custom {
            name: s@,
            params: v@,
        }),
        (Constraint::Range { field, min, max })@ matches ConstraintModel::Range {
            field: f,
            min: a,
            max: b,
        } && f == field@ && (a is None <==> min is None) && (b is None <==> max is None) && (
        min is Some ==> a->0.bits == min->0.bits && a->0.display == min->0.display@ && a->0.debug
            == min->0.debug@) && (max is Some ==> b->0.bits == max->0.bits && b->0.display
            == max->0.display@ && b->0.debug == max->0.debug@),
{
}

/// What intents and outcomes are.
pub proof fn law_intents_and_outcomes(intent: ActionIntent, outcome: ActionOutcome, i: int)
    ensures
        intent@.tool_name == intent.tool_name@,
        intent@.operation == intent.operation@,
        intent@.parameters == intent.parameters@,
        intent@.constraints.len() == intent.constraints@.len(),
        0 <= i < intent.constraints@.len() ==> intent@.constraints[i] == intent.constraints@[i]@,
        outcome@.tool_name == outcome.tool_name@,
        outcome@.operation == outcome.operation@,
        outcome@.result == outcome.result@,
        outcome@.metadata is None <==> outcome.metadata is None,
        outcome.metadata is Some ==> outcome@.metadata->0 == outcome.metadata->0@,
{
}

/// What metadata and citations are.
pub proof fn law_metadata(metadata: ProvenanceMetadata, citation: Citation, i: int)
    ensures
        metadata@.citations.len() == metadata.citations@.len(),
        0 <= i < metadata.citations@.len() ==> metadata@.citations[i] == metadata.citations@[i]@,
        metadata@.reasoning_steps == text::texts(metadata.reasoning_steps@),
        metadata@.sources_consulted == metadata.sources_consulted,
        metadata@.provider_metadata == metadata.provider_metadata@,
        citation@.url == text::optional_text(citation.url),
        citation@.title == text::optional_text(citation.title),
        citation@.snippet == text::optional_text(citation.snippet),
        citation@.domain == text::optional_text(citation.domain),
{
}

/// What results and checks are.
pub proof fn law_results_and_checks(result: VerificationResult, detail: VerificationDetail, i: int)
    ensures
        result@.status == result.status,
        result@.mode == result.mode,
        result@.strategy == result.strategy@,
        result@.duration_ms == result.duration_ms,
        result@.details.len() == result.details@.len(),
        0 <= i < result.details@.len() ==> result@.details[i] == result.details@[i]@,
        detail@.check == detail.check@,
        detail@.passed == detail.passed,
        detail@.expected == text::optional_text(detail.expected),
        detail@.actual == text::optional_text(detail.actual),
        detail@.diff == text::optional_text(detail.diff),
{
}

/// What is handed out to be read or asked for, and what comes back.
pub proof fn law_requests_and_replies(
    asked: ReadBack,
    s: String,
    response: http::HeadResponse,
    bytes: Vec<u8>,
)
    ensures
        asked@.path == asked.path@,
        asked@.expected == asked.expected@,
        file::asked_model(Some(asked)) == Some(asked@),
        file::asked_model(None) is None,
        file::read_model(Ok(s)) == Ok::<Seq<char>, Seq<char>>(s@),
        file::read_model(Err(s)) == Err::<Seq<char>, Seq<char>>(s@),
        http::reply_model(Ok(response)) == Ok::<http::ResponseModel, Seq<char>>(response.model()),
        http::reply_model(Err(s)) == Err::<http::ResponseModel, Seq<char>>(s@),
        http::header_model(Some(bytes)) == Some(bytes@),
        http::header_model(None) is None,
{
}

}
