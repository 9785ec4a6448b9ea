//! Applying constraints to the outcome of an operation.

use crate::double;
use crate::double::{double_at_most, Double, DoubleModel};
use crate::json::model;
use crate::json::model::Json;
use crate::json::Value;
use crate::outcome;
use crate::outcome::detail;
use crate::path;
use crate::path::resolve_field;
use crate::schema;
use crate::schema::validate_schema;
use crate::text;
use crate::text::{concat, contains_text, decimal_text, is_one_of, join};
use crate::types;
use crate::types::{Constraint, ConstraintModel, DetailModel, VerificationDetail};
use vstd::prelude::*;
use vstd::string::*;

verus! {

/// What applying a constraint comes to: a check, or a check that could not be
/// made.
#[derive(Debug)]
pub enum ConstraintOutcome {
    Detail(VerificationDetail),
    Inconclusive(VerificationDetail),
}

/// What a [`ConstraintOutcome`] is.
pub enum Judgement {
    Detail(DetailModel),
    Inconclusive(DetailModel),
}

impl View for ConstraintOutcome {
    type V = Judgement;

    open spec fn view(&self) -> Judgement {
        match *self {
            ConstraintOutcome::Detail(d) => Judgement::Detail(d@),
            ConstraintOutcome::Inconclusive(d) => Judgement::Inconclusive(d@),
        }
    }
}

/// The check of a field that is not there.
pub open spec fn field_missing(field: Seq<char>) -> DetailModel {
    outcome::plain_detail("field_present:"@ + field, false, "field present"@, "missing"@)
}

/// The check of a field that is not there or is not of the type wanted.
pub open spec fn type_wrong(field: Seq<char>, wanted: Seq<char>) -> DetailModel {
    outcome::plain_detail("type:"@ + field, false, wanted, "missing or wrong type"@)
}

/// The check that a field equals a value.
pub open spec fn exact_match_detail(field: Seq<char>, expected: Json, actual: Json) -> DetailModel {
    outcome::plain_detail(
        "exact_match:"@ + field,
        model::same_json(actual, expected),
        model::json_text(expected),
        model::json_text(actual),
    )
}

/// The check that a field is a string that contains another.
pub open spec fn contains_detail(field: Seq<char>, substring: Seq<char>, actual: Json) -> DetailModel {
    match actual {
        Json::String(s) => outcome::plain_detail(
            "contains:"@ + field,
            text::occurs_in(s, substring),
            substring,
            s,
        ),
        _ => outcome::plain_detail(
            "contains:"@ + field,
            false,
            "string field"@,
            model::json_text(actual),
        ),
    }
}

/// The check that a field conforms to a schema.
pub open spec fn schema_detail(field: Seq<char>, schema: Json, actual: Json) -> DetailModel {
    let errors = schema::schema_errors(schema, actual, field);
    outcome::plain_detail(
        "schema:"@ + field,
        errors.len() == 0,
        "schema-compliant value"@,
        if errors.len() == 0 {
            "valid"@
        } else {
            text::joined(errors, "; "@)
        },
    )
}

/// Whether a double lies between two bounds, each of which may be left out.
pub open spec fn in_range(bits: u64, min: Option<DoubleModel>, max: Option<DoubleModel>) -> bool {
    &&& min matches Some(m) ==> double::at_most(m.bits, bits)
    &&& max matches Some(m) ==> double::at_most(bits, m.bits)
}

/// A bound in words.
pub open spec fn bound_text(bound: Option<DoubleModel>) -> Seq<char> {
    match bound {
        Some(d) => "Some("@ + d.debug + ")"@,
        None => "None"@,
    }
}

/// The check that a field is a double between two bounds. `shown` is the double
/// in decimal.
pub open spec fn range_detail(
    field: Seq<char>,
    min: Option<DoubleModel>,
    max: Option<DoubleModel>,
    bits: u64,
    shown: Seq<char>,
) -> DetailModel {
    outcome::plain_detail(
        "range:"@ + field,
        in_range(bits, min, max),
        "min="@ + bound_text(min) + ", max="@ + bound_text(max),
        shown,
    )
}

/// The check that a field is a string, an array or an object that is not empty.
pub open spec fn non_empty_detail(field: Seq<char>, actual: Json) -> DetailModel {
    let check = "non_empty:"@ + field;
    match actual {
        Json::String(s) => outcome::plain_detail(check, s.len() > 0, "non-empty string"@, s),
        Json::Array(items) => outcome::plain_detail(
            check,
            items.len() > 0,
            "non-empty array"@,
            text::decimal(items.len()),
        ),
        Json::Object(members) => outcome::plain_detail(
            check,
            members.len() > 0,
            "non-empty object"@,
            text::decimal(members.len()),
        ),
        _ => outcome::plain_detail(
            check,
            false,
            "string, array, or object"@,
            model::json_text(actual),
        ),
    }
}

/// What a constraint comes to on an outcome.
pub open spec fn judged(constraint: ConstraintModel, root: Json) -> Judgement {
    match constraint {
        ConstraintModel::ExactMatch { field, expected } => Judgement::Detail(
            match path::resolved(root, field) {
                Some(actual) => exact_match_detail(field, expected, actual),
                None => field_missing(field),
            },
        ),
        ConstraintModel::Contains { field, substring } => Judgement::Detail(
            match path::resolved(root, field) {
                Some(actual) => contains_detail(field, substring, actual),
                None => field_missing(field),
            },
        ),
        ConstraintModel::Schema { field, schema } => Judgement::Detail(
            match path::resolved(root, field) {
                Some(actual) => schema_detail(field, schema, actual),
                None => field_missing(field),
            },
        ),
        ConstraintModel::Range { field, min, max } => Judgement::Detail(
            match path::resolved(root, field) {
                Some(Json::Number(actual)) => range_detail(
                    field,
                    min,
                    max,
                    model::number_double(actual),
                    model::number_display(actual),
                ),
                _ => type_wrong(field, "number"@),
            },
        ),
        ConstraintModel::NonEmpty { field } => Judgement::Detail(
            match path::resolved(root, field) {
                Some(actual) => non_empty_detail(field, actual),
                None => field_missing(field),
            },
        ),
        ConstraintModel::Custom { name, .. } => Judgement::Inconclusive(
            outcome::plain_detail(
                "custom:"@ + name,
                false,
                "consumer-defined verifier"@,
                "custom constraints are not handled by JsonVerifier"@,
            ),
        ),
    }
}

/// The text that a constraint wants one of the fields to be.
pub open spec fn wanted_text(constraint: ConstraintModel, fields: Seq<Seq<char>>) -> Option<Seq<char>> {
    match constraint {
        ConstraintModel::ExactMatch { field, expected: Json::String(s) } => if fields.contains(
            field,
        ) {
            Some(s)
        } else {
            None
        },
        _ => None,
    }
}

/// The text that the first constraint which wants one wants one of the fields
/// to be.
pub open spec fn first_wanted_text(
    constraints: Seq<ConstraintModel>,
    fields: Seq<Seq<char>>,
) -> Option<Seq<char>>
    decreases constraints.len(),
{
    if constraints.len() == 0 {
        None
    } else {
        match wanted_text(constraints[0], fields) {
            Some(s) => Some(s),
            None => first_wanted_text(constraints.skip(1), fields),
        }
    }
}

/// Finds the text that one of the fields should be.
pub fn find_wanted_text<'a>(constraints: &'a Vec<Constraint>, fields: &[&str]) -> (found: Option<
    &'a str,
>)
    ensures
        match found {
            Some(s) => first_wanted_text(
                types::constraint_models(constraints@),
                text::str_texts(fields@),
            ) == Some(s@),
            None => first_wanted_text(
                types::constraint_models(constraints@),
                text::str_texts(fields@),
            ) is None,
        },
{
    let ghost all = types::constraint_models(constraints@);
    let ghost names = text::str_texts(fields@);
    let mut i: usize = 0;
    assert(all.skip(0) == all);
    while i < constraints.len()
        invariant
            i <= constraints@.len(),
            all == types::constraint_models(constraints@),
            names == text::str_texts(fields@),
            first_wanted_text(all, names) == first_wanted_text(all.skip(i as int), names),
        decreases constraints@.len() - i,
    {
        assert(all.skip(i as int)[0] == constraints@[i as int]@);
        assert(all.skip(i as int).skip(1) == all.skip(i + 1));
        if let Constraint::ExactMatch { field, expected } = &constraints[i] {
            if is_one_of(field.as_str(), fields) {
                if let Some(s) = expected.as_str() {
                    return Some(s);
                }
            }
        }
        i = i + 1;
    }
    None
}

/// Says that a field is not there.
pub fn missing_field(field: &str) -> (o: ConstraintOutcome)
    ensures
        o@ == Judgement::Detail(field_missing(field@)),
{
    ConstraintOutcome::Detail(
        detail(concat("field_present:", field), false, "field present", "missing".to_owned()),
    )
}

/// Says that a field is not there or not of the type wanted.
pub fn missing_or_wrong_type(field: &str, expected_type: &str) -> (o: ConstraintOutcome)
    ensures
        o@ == Judgement::Detail(type_wrong(field@, expected_type@)),
{
    ConstraintOutcome::Detail(
        detail(
            concat("type:", field),
            false,
            expected_type,
            "missing or wrong type".to_owned(),
        ),
    )
}

/// Checks that a field is a string that contains another.
fn check_contains(field: &str, substring: &str, actual: &Value) -> (d: VerificationDetail)
    ensures
        d@ == contains_detail(field@, substring@, actual@),
{
    let check: String = concat("contains:", field);
    match actual {
        Value::String(s) => detail(check, contains_text(s.as_str(), substring), substring, s.clone()),
        _ => detail(check, false, "string field", actual.to_text()),
    }
}

/// Checks that a field conforms to a schema.
fn check_schema(field: &str, schema: &Value, actual: &Value) -> (d: VerificationDetail)
    ensures
        d@ == schema_detail(field@, schema@, actual@),
{
    let errors: Vec<String> = validate_schema(schema, actual, field);
    let valid: bool = errors.len() == 0;
    assert(errors@.len() == text::texts(errors@).len());
    let shown: String = if valid {
        "valid".to_owned()
    } else {
        join(&errors, "; ")
    };
    detail(concat("schema:", field), valid, "schema-compliant value", shown)
}

/// Appends a bound in words.
fn push_bound(out: &mut String, bound: &Option<Double>)
    ensures
        final(out)@ == old(out)@ + bound_text(types::optional_double(*bound)),
{
    match bound {
        Some(d) => {
            out.append("Some(");
            out.append(d.debug.as_str());
            out.append(")");
        },
        None => out.append("None"),
    }
    assert(out@ =~= old(out)@ + bound_text(types::optional_double(*bound)));
}

/// Checks that a double lies between two bounds. `shown` is the double in
/// decimal.
pub fn check_range(
    field: &str,
    min: &Option<Double>,
    max: &Option<Double>,
    bits: u64,
    shown: String,
) -> (d: VerificationDetail)
    ensures
        d@ == range_detail(
            field@,
            types::optional_double(*min),
            types::optional_double(*max),
            bits,
            shown@,
        ),
{
    let min_ok: bool = match min {
        Some(m) => double_at_most(m.bits, bits),
        None => true,
    };
    let max_ok: bool = match max {
        Some(m) => double_at_most(bits, m.bits),
        None => true,
    };
    let mut bounds: String = "min=".to_owned();
    push_bound(&mut bounds, min);
    bounds.append(", max=");
    push_bound(&mut bounds, max);
    detail(concat("range:", field), min_ok && max_ok, bounds.as_str(), shown)
}

/// Checks that a field is not empty.
fn check_non_empty(field: &str, actual: &Value) -> (d: VerificationDetail)
    ensures
        d@ == non_empty_detail(field@, actual@),
{
    let check: String = concat("non_empty:", field);
    match actual {
        Value::String(s) => detail(
            check,
            !s.as_str().is_empty(),
            "non-empty string",
            s.clone(),
        ),
        Value::Array(items) => detail(
            check,
            items.len() > 0,
            "non-empty array",
            decimal_text(items.len() as u64),
        ),
        Value::Object(members) => detail(
            check,
            !members.is_empty(),
            "non-empty object",
            decimal_text(members.len() as u64),
        ),
        _ => detail(check, false, "string, array, or object", actual.to_text()),
    }
}

/// Applies a constraint to the outcome of an operation.
pub fn apply_constraint(constraint: &Constraint, root: &Value) -> (o: ConstraintOutcome)
    ensures
        o@ == judged(constraint@, root@),
{
    match constraint {
        Constraint::ExactMatch { field, expected } => match resolve_field(root, field.as_str()) {
            Some(actual) => {
                let check: String = concat("exact_match:", field.as_str());
                let wanted: String = expected.to_text();
                ConstraintOutcome::Detail(
                    detail(check, actual.equals(expected), wanted.as_str(), actual.to_text()),
                )
            },
            None => missing_field(field.as_str()),
        },
        Constraint::Contains { field, substring } => match resolve_field(root, field.as_str()) {
            Some(actual) => ConstraintOutcome::Detail(
                check_contains(field.as_str(), substring.as_str(), actual),
            ),
            None => missing_field(field.as_str()),
        },
        Constraint::Schema { field, schema } => match resolve_field(root, field.as_str()) {
            Some(actual) => ConstraintOutcome::Detail(check_schema(field.as_str(), schema, actual)),
            None => missing_field(field.as_str()),
        },
        Constraint::Range { field, min, max } => match resolve_field(root, field.as_str()) {
            Some(Value::Number(actual)) => ConstraintOutcome::Detail(
                check_range(
                    field.as_str(),
                    min,
                    max,
                    actual.double_bits(),
                    actual.double_display(),
                ),
            ),
            _ => missing_or_wrong_type(field.as_str(), "number"),
        },
        Constraint::NonEmpty { field } => match resolve_field(root, field.as_str()) {
            Some(actual) => ConstraintOutcome::Detail(check_non_empty(field.as_str(), actual)),
            None => missing_field(field.as_str()),
        },
        Constraint::Custom { name, .. } => ConstraintOutcome::Inconclusive(
            detail(
                concat("custom:", name.as_str()),
                false,
                "consumer-defined verifier",
                "custom constraints are not handled by JsonVerifier".to_owned(),
            ),
        ),
    }
}

}
