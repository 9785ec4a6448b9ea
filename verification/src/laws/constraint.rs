//! Laws of constraints.

use crate::constraint;
use crate::constraint::Judgement;
use crate::double;
use crate::double::DoubleModel;
use crate::json::model;
use crate::json::model::{Json, NumberModel};
use crate::laws::double as double_laws;
use crate::laws::schema as schema_laws;
use crate::laws::text as text_laws;
use crate::path;
use crate::schema;
use crate::text;
use crate::types::{ConstraintModel, DetailModel};
use vstd::arithmetic::power2::*;
use vstd::prelude::*;
use vstd::string::*;

verus! {

/// A field matches a value exactly where the two are equal. Both are shown as
/// JSON.
pub proof fn law_exact_match(field: Seq<char>, expected: Json, root: Json, actual: Json)
    requires
        path::resolved(root, field) == Some(actual),
    ensures
        constraint::judged(ConstraintModel::ExactMatch { field, expected }, root)
            == Judgement::Detail(
            DetailModel {
                check: "exact_match:"@ + field,
                passed: model::same_json(actual, expected),
                expected: Some(model::json_text(expected)),
                actual: Some(model::json_text(actual)),
                diff: None,
            },
        ),
{
}

/// A string contains another exactly where it is something, then the other,
/// then something. What is no string contains nothing.
pub proof fn law_contains(field: Seq<char>, substring: Seq<char>, root: Json, actual: Json)
    requires
        path::resolved(root, field) == Some(actual),
    ensures
        constraint::judged(ConstraintModel::Contains { field, substring }, root) matches
            Judgement::Detail(d) && d.check == "contains:"@ + field && d.diff is None
            && match actual {
            Json::String(s) => (d.passed <==> exists|a: Seq<char>, b: Seq<char>|
                s == #[trigger] (a + substring + b)) && d.expected == Some(substring) && d.actual
                == Some(s),
            _ => !d.passed && d.expected == Some("string field"@) && d.actual == Some(
                model::json_text(actual),
            ),
        },
{
    if let Json::String(s) = actual {
        text_laws::law_contained_texts_are_parts(s, substring);
    }
}

/// A field passes a schema exactly where it conforms to it. Where it does not,
/// the errors are shown with semicolons between them.
pub proof fn law_schema(field: Seq<char>, schema: Json, root: Json, actual: Json)
    requires
        path::resolved(root, field) == Some(actual),
    ensures
        constraint::judged(ConstraintModel::Schema { field, schema }, root) matches
            Judgement::Detail(d) && d.check == "schema:"@ + field && d.diff is None && (d.passed
            <==> schema_laws::conforms(schema, actual)) && d.expected == Some(
            "schema-compliant value"@,
        ) && d.actual == Some(
            if schema_laws::conforms(schema, actual) {
                "valid"@
            } else {
                text::joined(schema::schema_errors(schema, actual, field), "; "@)
            },
        ),
{
    schema_laws::law_no_errors_iff_conforms(schema, actual, field);
}

/// Whether a bit pattern stands for a number and that number is at most another
/// one, in units of the smallest positive double.
pub open spec fn value_at_most(bits: u64, value: int) -> bool {
    bits % 0x8000_0000_0000_0000 <= 0x7ff0_0000_0000_0000 && double::scaled_value(bits) <= value
}

/// Whether a bit pattern stands for a number and that number is at least another
/// one, in units of the smallest positive double.
pub open spec fn value_at_least(bits: u64, value: int) -> bool {
    bits % 0x8000_0000_0000_0000 <= 0x7ff0_0000_0000_0000 && double::scaled_value(bits) >= value
}

/// A bound as it is shown.
pub open spec fn shown_bound(bound: Option<DoubleModel>) -> Seq<char> {
    if bound is None {
        "None"@
    } else {
        "Some("@ + bound->0.debug + ")"@
    }
}

/// A number is in a range exactly where it is at least the lower bound and at
/// most the upper one, both counted in. A bound that stands for no number is
/// never kept to, one that is left out always.
pub proof fn law_range(
    field: Seq<char>,
    min: Option<DoubleModel>,
    max: Option<DoubleModel>,
    root: Json,
    n: NumberModel,
)
    requires
        model::number_ok(n),
        path::resolved(root, field) == Some(Json::Number(n)),
    ensures
        constraint::judged(ConstraintModel::Range { field, min, max }, root) matches
            Judgement::Detail(d) && d.check == "range:"@ + field && d.diff is None && (d.passed <==> (
        min is None || value_at_most(
            min->0.bits,
            double::scaled_value(model::number_double(n)),
        )) && (max is None || value_at_least(
            max->0.bits,
            double::scaled_value(model::number_double(n)),
        ))) && d.expected == Some("min="@ + shown_bound(min) + ", max="@ + shown_bound(max))
            && d.actual == Some(
            match n {
                NumberModel::PosInt { value } => model::rounded_display(value as i128),
                NumberModel::NegInt { negative } => model::rounded_display(negative as i128),
                NumberModel::Float { double, .. } => double.display,
            },
        ),
{
    let bits = model::number_double(n);
    if !(n is Float) {
        double_laws::law_integers_count_as_the_nearest_double(n, 0);
    }
    assert(!double::is_nan(bits));
    if let Some(m) = min {
        double_laws::law_doubles_compare_as_numbers(m.bits, bits);
    }
    if let Some(m) = max {
        double_laws::law_doubles_compare_as_numbers(bits, m.bits);
    }
}

/// An integer below two to the power of 53 is in a range exactly where it lies
/// between the bounds as it is, without rounding.
pub proof fn law_range_of_small_integers(
    field: Seq<char>,
    min: Option<DoubleModel>,
    max: Option<DoubleModel>,
    root: Json,
    n: NumberModel,
)
    requires
        model::number_ok(n),
        !(n is Float),
        -0x0020_0000_0000_0000 < double_laws::integer_of(n) < 0x0020_0000_0000_0000,
        path::resolved(root, field) == Some(Json::Number(n)),
    ensures
        constraint::judged(ConstraintModel::Range { field, min, max }, root) matches
            Judgement::Detail(d) && (d.passed <==> (min is None || value_at_most(
            min->0.bits,
            double_laws::integer_of(n) * pow2(1074),
        )) && (max is None || value_at_least(
            max->0.bits,
            double_laws::integer_of(n) * pow2(1074),
        ))),
{
    law_range(field, min, max, root, n);
    double_laws::law_small_integers_are_exact(n);
}

/// What is no number is in no range, nor is a field that is not there.
pub proof fn law_range_of_others(
    field: Seq<char>,
    min: Option<DoubleModel>,
    max: Option<DoubleModel>,
    root: Json,
)
    requires
        !(path::resolved(root, field) matches Some(Json::Number(_))),
    ensures
        constraint::judged(ConstraintModel::Range { field, min, max }, root) == Judgement::Detail(
            DetailModel {
                check: "type:"@ + field,
                passed: false,
                expected: Some("number"@),
                actual: Some("missing or wrong type"@),
                diff: None,
            },
        ),
{
}

/// A field is not empty exactly where it is a string with a character, an array
/// with an item or an object with a member.
pub proof fn law_non_empty(field: Seq<char>, root: Json, actual: Json)
    requires
        path::resolved(root, field) == Some(actual),
    ensures
        constraint::judged(ConstraintModel::NonEmpty { field }, root) matches Judgement::Detail(d)
            && d.check == "non_empty:"@ + field && d.diff is None && (d.passed <==> ((exists|
            c: char,
            more: Seq<char>,
        |
            actual == Json::String(#[trigger] (seq![c] + more))) || (exists|
            v: Json,
            more: Seq<Json>,
        |
            actual == Json::Array(#[trigger] (seq![v] + more))) || (exists|
            m: (Seq<char>, Json),
            more: Seq<(Seq<char>, Json)>,
        |
            actual == Json::Object(#[trigger] (seq![m] + more))))),
        constraint::judged(ConstraintModel::NonEmpty { field }, root) matches Judgement::Detail(d)
            && match actual {
            Json::String(s) => d.expected == Some("non-empty string"@) && d.actual == Some(s),
            Json::Array(items) => d.expected == Some("non-empty array"@) && d.actual == Some(
                text::decimal(items.len()),
            ),
            Json::Object(members) => d.expected == Some("non-empty object"@) && d.actual == Some(
                text::decimal(members.len()),
            ),
            _ => d.expected == Some("string, array, or object"@) && d.actual == Some(
                model::json_text(actual),
            ),
        },
{
    match actual {
        Json::String(s) => {
            if s.len() > 0 {
                assert(s =~= seq![s[0]] + s.skip(1));
                assert(actual == Json::String(seq![s[0]] + s.skip(1)));
            }
        },
        Json::Array(s) => {
            if s.len() > 0 {
                assert(s =~= seq![s[0]] + s.skip(1));
                assert(actual == Json::Array(seq![s[0]] + s.skip(1)));
            }
        },
        Json::Object(s) => {
            if s.len() > 0 {
                assert(s =~= seq![s[0]] + s.skip(1));
                assert(actual == Json::Object(seq![s[0]] + s.skip(1)));
            }
        },
        _ => {},
    }
}

/// A custom constraint is never checked and never passes, whatever it is about.
pub proof fn law_custom(name: Seq<char>, params: Json, root: Json)
    ensures
        constraint::judged(ConstraintModel::Custom { name, params }, root) == Judgement::Inconclusive(
            DetailModel {
                check: "custom:"@ + name,
                passed: false,
                expected: Some("consumer-defined verifier"@),
                actual: Some("custom constraints are not handled by JsonVerifier"@),
                diff: None,
            },
        ),
{
}

/// A field that is not there matches nothing, contains nothing, conforms to
/// nothing and is not counted as full.
pub proof fn law_missing_field(
    field: Seq<char>,
    expected: Json,
    substring: Seq<char>,
    schema: Json,
    root: Json,
)
    requires
        path::resolved(root, field) is None,
    ensures
        ({
            let missing = Judgement::Detail(
                DetailModel {
                    check: "field_present:"@ + field,
                    passed: false,
                    expected: Some("field present"@),
                    actual: Some("missing"@),
                    diff: None,
                },
            );
            &&& constraint::judged(ConstraintModel::ExactMatch { field, expected }, root) == missing
            &&& constraint::judged(ConstraintModel::Contains { field, substring }, root) == missing
            &&& constraint::judged(ConstraintModel::Schema { field, schema }, root) == missing
            &&& constraint::judged(ConstraintModel::NonEmpty { field }, root) == missing
        }),
{
}

/// The text wanted of some fields is that of the first constraint that one of
/// the fields equals a string.
pub proof fn law_wanted_text_is_the_first(
    constraints: Seq<ConstraintModel>,
    fields: Seq<Seq<char>>,
    wanted: Seq<char>,
)
    ensures
        constraint::first_wanted_text(constraints, fields) == Some(wanted) <==> exists|i: int|
            0 <= i < constraints.len() && wants(#[trigger] constraints[i], fields, wanted)
                && forall|j: int|
                0 <= j < i ==> !wants_some(#[trigger] constraints[j], fields),
        constraint::first_wanted_text(constraints, fields) is None <==> forall|i: int|
            0 <= i < constraints.len() ==> !wants_some(#[trigger] constraints[i], fields),
    decreases constraints.len(),
{
    if constraints.len() > 0 {
        let first = constraints[0];
        let rest = constraints.skip(1);
        law_wanted_text_is_the_first(rest, fields, wanted);
        lemma_wants(first, fields);
        if let Some(s) = constraint::wanted_text(first, fields) {
            assert(wants(first, fields, s));
            assert(wants_some(constraints[0], fields));
        } else {
            assert(!wants_some(first, fields));
            if constraint::first_wanted_text(rest, fields) == Some(wanted) {
                let i = choose|i: int|
                    0 <= i < rest.len() && wants(#[trigger] rest[i], fields, wanted) && forall|j: int|
                        0 <= j < i ==> !wants_some(#[trigger] rest[j], fields);
                assert(wants(constraints[i + 1], fields, wanted));
                assert forall|j: int| 0 <= j < i + 1 implies !wants_some(
                    #[trigger] constraints[j],
                    fields,
                ) by {
                    if j > 0 {
                        assert(constraints[j] == rest[j - 1]);
                    }
                }
            }
            if exists|i: int|
                0 <= i < constraints.len() && wants(#[trigger] constraints[i], fields, wanted)
                    && forall|j: int|
                    0 <= j < i ==> !wants_some(#[trigger] constraints[j], fields) {
                let i = choose|i: int|
                    0 <= i < constraints.len() && wants(#[trigger] constraints[i], fields, wanted)
                        && forall|j: int|
                        0 <= j < i ==> !wants_some(#[trigger] constraints[j], fields);
                assert(i > 0);
                assert(wants(rest[i - 1], fields, wanted));
                assert forall|j: int| 0 <= j < i - 1 implies !wants_some(#[trigger] rest[j], fields) by {
                    assert(rest[j] == constraints[j + 1]);
                }
            }
            if forall|i: int|
                0 <= i < rest.len() ==> !wants_some(#[trigger] rest[i], fields) {
                assert forall|i: int| 0 <= i < constraints.len() implies !wants_some(
                    #[trigger] constraints[i],
                    fields,
                ) by {
                    if i > 0 {
                        assert(constraints[i] == rest[i - 1]);
                    }
                }
            } else {
                let i = choose|i: int|
                    0 <= i < rest.len() && wants_some(#[trigger] rest[i], fields);
                assert(wants_some(constraints[i + 1], fields));
            }
        }
    }
}

/// Whether a constraint is that one of the fields equals some string.
pub open spec fn wants_some(c: ConstraintModel, fields: Seq<Seq<char>>) -> bool {
    exists|s: Seq<char>| wants(c, fields, s)
}

/// Whether a constraint is that one of the fields equals that string.
pub open spec fn wants(c: ConstraintModel, fields: Seq<Seq<char>>, wanted: Seq<char>) -> bool {
    exists|k: int|
        0 <= k < fields.len() && c == (ConstraintModel::ExactMatch {
            field: #[trigger] fields[k],
            expected: Json::String(wanted),
        })
}

/// What a constraint wants of the fields.
proof fn lemma_wants(c: ConstraintModel, fields: Seq<Seq<char>>)
    ensures
        forall|s: Seq<char>|
            constraint::wanted_text(c, fields) == Some(s) <==> #[trigger] wants(c, fields, s),
{
    assert forall|s: Seq<char>|
        constraint::wanted_text(c, fields) == Some(s) <==> #[trigger] wants(c, fields, s) by {
        if constraint::wanted_text(c, fields) == Some(s) {
            if let ConstraintModel::ExactMatch { field, .. } = c {
                let k = choose|k: int| 0 <= k < fields.len() && fields[k] == field;
                assert(c == (ConstraintModel::ExactMatch {
                    field: fields[k],
                    expected: Json::String(s),
                }));
            }
        }
        if wants(c, fields, s) {
            let k = choose|k: int|
                0 <= k < fields.len() && c == (ConstraintModel::ExactMatch {
                    field: #[trigger] fields[k],
                    expected: Json::String(s),
                });
            assert(fields.contains(fields[k]));
        }
    }
}

}
