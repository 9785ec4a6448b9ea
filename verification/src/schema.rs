//! Checking a JSON value against a schema. The schema language is a small part
//! of JSON Schema: `type`, `required`, `properties`, `additionalProperties`,
//! `items` and `enum`.

use crate::json::model;
use crate::json::model::Json;
use crate::json::value;
use crate::json::{Object, Value};
use crate::text;
use crate::text::{concat, push_decimal, same_text};
use vstd::prelude::*;
use vstd::string::*;

verus! {

/// Whether a value is of the type of that name.
pub open spec fn type_matches(kind: Seq<char>, v: Json) -> bool {
    if kind == "string"@ {
        v is String
    } else if kind == "number"@ {
        v is Number
    } else if kind == "integer"@ {
        v matches Json::Number(n) && model::is_integer(n)
    } else if kind == "boolean"@ {
        v is Bool
    } else if kind == "object"@ {
        v is Object
    } else if kind == "array"@ {
        v is Array
    } else if kind == "null"@ {
        v is Null
    } else {
        false
    }
}

/// The type that a schema asks for.
pub open spec fn asked_type(schema: Json) -> Option<Seq<char>> {
    match model::member(schema, "type"@) {
        Some(Json::String(name)) => Some(name),
        _ => None,
    }
}

/// The schemas of the members that a schema knows.
pub open spec fn asked_properties(schema: Json) -> Option<Seq<(Seq<char>, Json)>> {
    match model::member(schema, "properties"@) {
        Some(Json::Object(properties)) => Some(properties),
        _ => None,
    }
}

/// The items of a member that is an array.
pub open spec fn member_items(v: Json, name: Seq<char>) -> Option<Seq<Json>> {
    match model::member(v, name) {
        Some(Json::Array(items)) => Some(items),
        _ => None,
    }
}

/// Says that a value is not of the type asked for.
pub open spec fn type_error(path: Seq<char>, kind: Seq<char>) -> Seq<char> {
    path + ": expected type `"@ + kind + "`"@
}

/// Says that a member is missing.
pub open spec fn missing_error(path: Seq<char>, name: Seq<char>) -> Seq<char> {
    path + ": missing required field `"@ + name + "`"@
}

/// Says that a member is not known to the schema.
pub open spec fn unexpected_error(path: Seq<char>, name: Seq<char>) -> Seq<char> {
    path + ": unexpected field `"@ + name + "`"@
}

/// Says that a value is none of those listed.
pub open spec fn enum_error(path: Seq<char>) -> Seq<char> {
    path + ": value not present in enum"@
}

/// The path of a member.
pub open spec fn member_path(path: Seq<char>, name: Seq<char>) -> Seq<char> {
    path + "."@ + name
}

/// The path of an item.
pub open spec fn item_path(path: Seq<char>, index: nat) -> Seq<char> {
    path + "["@ + text::decimal(index) + "]"@
}

/// One error for each required member that the object lacks. What is listed
/// but is no string is passed over.
pub open spec fn required_errors(
    required: Seq<Json>,
    object: Seq<(Seq<char>, Json)>,
    path: Seq<char>,
) -> Seq<Seq<char>>
    decreases required.len(),
{
    if required.len() == 0 {
        Seq::empty()
    } else {
        required_errors(required.drop_last(), object, path) + match required.last() {
            Json::String(name) => if model::lookup(object, name) is None {
                seq![missing_error(path, name)]
            } else {
                Seq::empty()
            },
            _ => Seq::empty(),
        }
    }
}

/// The errors of the members that the schema knows and the object has.
pub open spec fn property_errors(
    properties: Seq<(Seq<char>, Json)>,
    object: Seq<(Seq<char>, Json)>,
    path: Seq<char>,
) -> Seq<Seq<char>>
    decreases properties, 0nat,
{
    if properties.len() == 0 {
        Seq::empty()
    } else {
        property_errors(properties.drop_last(), object, path) + match model::lookup(
            object,
            properties.last().0,
        ) {
            Some(v) => schema_errors(
                properties.last().1,
                v,
                member_path(path, properties.last().0),
            ),
            None => Seq::empty(),
        }
    }
}

/// One error for each member that the schema does not know.
pub open spec fn unexpected_errors(
    properties: Seq<(Seq<char>, Json)>,
    object: Seq<(Seq<char>, Json)>,
    path: Seq<char>,
) -> Seq<Seq<char>>
    decreases object.len(),
{
    if object.len() == 0 {
        Seq::empty()
    } else {
        unexpected_errors(properties, object.drop_last(), path) + if model::lookup(
            properties,
            object.last().0,
        ) is None {
            seq![unexpected_error(path, object.last().0)]
        } else {
            Seq::empty()
        }
    }
}

/// The errors of the items of an array.
pub open spec fn item_errors(schema: Json, items: Seq<Json>, path: Seq<char>) -> Seq<Seq<char>>
    decreases schema, items.len() + 2,
{
    if items.len() == 0 {
        Seq::empty()
    } else {
        item_errors(schema, items.drop_last(), path) + schema_errors(
            schema,
            items.last(),
            item_path(path, (items.len() - 1) as nat),
        )
    }
}

/// The errors of an object that lacks required members.
pub open spec fn required_part(schema: Json, v: Json, path: Seq<char>) -> Seq<Seq<char>> {
    match (member_items(schema, "required"@), v) {
        (Some(required), Json::Object(object)) => required_errors(required, object, path),
        _ => Seq::empty(),
    }
}

/// The errors inside the members of an object.
pub open spec fn property_part(schema: Json, v: Json, path: Seq<char>) -> Seq<Seq<char>>
    decreases schema, 0nat,
{
    proof {
        model::lemma_member_decreases(schema, "properties"@);
    }
    match (asked_properties(schema), v) {
        (Some(properties), Json::Object(object)) => property_errors(properties, object, path),
        _ => Seq::empty(),
    }
}

/// The errors of an object that has members which the schema does not know,
/// where the schema says that it may have none.
pub open spec fn unexpected_part(schema: Json, v: Json, path: Seq<char>) -> Seq<Seq<char>> {
    match (asked_properties(schema), v) {
        (Some(properties), Json::Object(object)) => if model::member(
            schema,
            "additionalProperties"@,
        ) == Some(Json::Bool(false)) {
            unexpected_errors(properties, object, path)
        } else {
            Seq::empty()
        },
        _ => Seq::empty(),
    }
}

/// The errors inside the items of an array.
pub open spec fn item_part(schema: Json, v: Json, path: Seq<char>) -> Seq<Seq<char>>
    decreases schema, 0nat,
{
    proof {
        model::lemma_member_decreases(schema, "items"@);
    }
    match (model::member(schema, "items"@), v) {
        (Some(item_schema), Json::Array(items)) => item_errors(item_schema, items, path),
        _ => Seq::empty(),
    }
}

/// Whether a value equals one of those listed.
pub open spec fn is_listed(listed: Seq<Json>, v: Json) -> bool {
    exists|i: int| 0 <= i < listed.len() && model::same_json(#[trigger] listed[i], v)
}

/// The error of a value that is none of those listed.
pub open spec fn enum_part(schema: Json, v: Json, path: Seq<char>) -> Seq<Seq<char>> {
    match member_items(schema, "enum"@) {
        Some(listed) => if is_listed(listed, v) {
            Seq::empty()
        } else {
            seq![enum_error(path)]
        },
        None => Seq::empty(),
    }
}

/// The errors of a value under a schema. A value of the wrong type has that
/// error and no other.
pub open spec fn schema_errors(schema: Json, v: Json, path: Seq<char>) -> Seq<Seq<char>>
    decreases schema, 1nat,
{
    if asked_type(schema) is Some && !type_matches(asked_type(schema)->0, v) {
        seq![type_error(path, asked_type(schema)->0)]
    } else {
        required_part(schema, v, path) + property_part(schema, v, path) + unexpected_part(
            schema,
            v,
            path,
        ) + item_part(schema, v, path) + enum_part(schema, v, path)
    }
}

/// Whether a value is of the type of that name.
pub fn matches_json_type(kind: &str, value: &Value) -> (r: bool)
    ensures
        r == type_matches(kind@, value@),
{
    if same_text(kind, "string") {
        matches!(value, Value::String(_))
    } else if same_text(kind, "number") {
        matches!(value, Value::Number(_))
    } else if same_text(kind, "integer") {
        match value {
            Value::Number(n) => n.as_i64().is_some() || n.as_u64().is_some(),
            _ => false,
        }
    } else if same_text(kind, "boolean") {
        matches!(value, Value::Bool(_))
    } else if same_text(kind, "object") {
        matches!(value, Value::Object(_))
    } else if same_text(kind, "array") {
        matches!(value, Value::Array(_))
    } else if same_text(kind, "null") {
        matches!(value, Value::Null)
    } else {
        false
    }
}

/// Appends an error of a value: its path, what is wrong, and a name between
/// backquotes.
fn push_error(errors: &mut Vec<String>, path: &str, problem: &str, name: &str)
    ensures
        text::texts(final(errors)@) == text::texts(old(errors)@).push(path@ + problem@ + name@ + "`"@),
{
    let mut error: String = concat(path, problem);
    error.append(name);
    error.append("`");
    let ghost so_far = errors@;
    errors.push(error);
    assert(text::texts(errors@) =~= text::texts(so_far).push(error@));
}

/// Appends the errors of required members that the object lacks.
fn push_required_errors(errors: &mut Vec<String>, required: &Vec<Value>, object: &Object, path: &str)
    ensures
        text::texts(final(errors)@) == text::texts(old(errors)@) + required_errors(
            value::models(required@),
            object.model(),
            path@,
        ),
{
    let ghost all = value::models(required@);
    let ghost start = text::texts(errors@);
    let mut i: usize = 0;
    while i < required.len()
        invariant
            i <= required@.len(),
            all == value::models(required@),
            text::texts(errors@) == start + required_errors(all.take(i as int), object.model(), path@),
        decreases required@.len() - i,
    {
        assert(all.take(i + 1).drop_last() == all.take(i as int));
        assert(all[i as int] == required@[i as int]@);
        if let Some(name) = required[i].as_str() {
            if !object.contains_key(name) {
                push_error(errors, path, ": missing required field `", name);
            }
        }
        assert(text::texts(errors@) =~= start + required_errors(all.take(i + 1), object.model(), path@));
        i = i + 1;
    }
    assert(all.take(required@.len() as int) == all);
}

/// Appends the errors of members that the schema does not know.
fn push_unexpected_errors(errors: &mut Vec<String>, properties: &Object, object: &Object, path: &str)
    ensures
        text::texts(final(errors)@) == text::texts(old(errors)@) + unexpected_errors(
            properties.model(),
            object.model(),
            path@,
        ),
{
    let ghost all = object.model();
    let ghost start = text::texts(errors@);
    let mut i: usize = 0;
    while i < object.len()
        invariant
            i <= all.len(),
            all == object.model(),
            text::texts(errors@) == start + unexpected_errors(
                properties.model(),
                all.take(i as int),
                path@,
            ),
        decreases all.len() - i,
    {
        assert(all.take(i + 1).drop_last() == all.take(i as int));
        let name: &str = object.name_at(i);
        if !properties.contains_key(name) {
            push_error(errors, path, ": unexpected field `", name);
        }
        assert(text::texts(errors@) =~= start + unexpected_errors(
            properties.model(),
            all.take(i + 1),
            path@,
        ));
        i = i + 1;
    }
    assert(all.take(all.len() as int) == all);
}

/// Appends the errors inside the members that the schema knows.
fn push_property_errors(errors: &mut Vec<String>, properties: &Object, object: &Object, path: &str)
    ensures
        text::texts(final(errors)@) == text::texts(old(errors)@) + property_errors(
            properties.model(),
            object.model(),
            path@,
        ),
    decreases properties, 0nat,
{
    let ghost all = properties.model();
    let ghost start = text::texts(errors@);
    let mut i: usize = 0;
    while i < properties.len()
        invariant
            i <= all.len(),
            all == properties.model(),
            text::texts(errors@) == start + property_errors(
                all.take(i as int),
                object.model(),
                path@,
            ),
        decreases all.len() - i,
    {
        assert(all.take(i + 1).drop_last() == all.take(i as int));
        let name: &str = properties.name_at(i);
        if let Some(member) = object.get(name) {
            let mut inner: String = concat(path, ".");
            inner.append(name);
            push_errors(errors, properties.value_at(i), member, inner.as_str());
        }
        assert(text::texts(errors@) =~= start + property_errors(
            all.take(i + 1),
            object.model(),
            path@,
        ));
        i = i + 1;
    }
    assert(all.take(all.len() as int) == all);
}

/// Appends the errors inside the items of an array.
fn push_item_errors(errors: &mut Vec<String>, item_schema: &Value, items: &Vec<Value>, path: &str)
    ensures
        text::texts(final(errors)@) == text::texts(old(errors)@) + item_errors(
            item_schema@,
            value::models(items@),
            path@,
        ),
    decreases item_schema, 1nat,
{
    let ghost all = value::models(items@);
    let ghost start = text::texts(errors@);
    let mut i: usize = 0;
    while i < items.len()
        invariant
            i <= all.len(),
            all == value::models(items@),
            text::texts(errors@) == start + item_errors(item_schema@, all.take(i as int), path@),
        decreases all.len() - i,
    {
        assert(all.take(i + 1).drop_last() == all.take(i as int));
        let mut inner: String = concat(path, "[");
        push_decimal(&mut inner, i as u64);
        inner.append("]");
        push_errors(errors, item_schema, &items[i], inner.as_str());
        assert(text::texts(errors@) =~= start + item_errors(item_schema@, all.take(i + 1), path@));
        i = i + 1;
    }
    assert(all.take(all.len() as int) == all);
}

/// Appends the errors of a value under a schema.
fn push_errors(errors: &mut Vec<String>, schema: &Value, value: &Value, path: &str)
    ensures
        text::texts(final(errors)@) == text::texts(old(errors)@) + schema_errors(
            schema@,
            value@,
            path@,
        ),
    decreases schema, 0nat,
{
    let ghost start = text::texts(errors@);
    if let Some(kind) = schema.get("type") {
        if let Some(kind) = kind.as_str() {
            if !matches_json_type(kind, value) {
                push_error(errors, path, ": expected type `", kind);
                assert(text::texts(errors@) =~= start + schema_errors(schema@, value@, path@));
                return;
            }
        }
    }
    if let Some(required) = schema.get("required") {
        if let Some(required) = required.as_array() {
            if let Value::Object(object) = value {
                push_required_errors(errors, required, object, path);
            }
        }
    }
    assert(text::texts(errors@) =~= start + required_part(schema@, value@, path@));
    if let Some(properties) = schema.get("properties") {
        if let Some(properties) = properties.as_object() {
            if let Value::Object(object) = value {
                push_property_errors(errors, properties, object, path);
            }
        }
    }
    assert(text::texts(errors@) =~= start + required_part(schema@, value@, path@) + property_part(
        schema@,
        value@,
        path@,
    ));
    let ghost so_far = text::texts(errors@);
    if let Some(allowed) = schema.get("additionalProperties") {
        if let Some(allowed) = allowed.as_bool() {
            if !allowed {
                if let Some(properties) = schema.get("properties") {
                    if let Some(properties) = properties.as_object() {
                        if let Value::Object(object) = value {
                            push_unexpected_errors(errors, properties, object, path);
                        }
                    }
                }
            }
        }
    }
    assert(text::texts(errors@) =~= so_far + unexpected_part(schema@, value@, path@));
    let ghost so_far = text::texts(errors@);
    if let Some(item_schema) = schema.get("items") {
        if let Value::Array(items) = value {
            assert(value@->Array_0 =~= value::models(items@));
            push_item_errors(errors, item_schema, items, path);
        }
    }
    assert(text::texts(errors@) =~= so_far + item_part(schema@, value@, path@));
    let ghost so_far = text::texts(errors@);
    if let Some(listed) = schema.get("enum") {
        if let Some(listed) = listed.as_array() {
            if !any_equal(listed, value) {
                let error: String = concat(path, ": value not present in enum");
                let ghost present = errors@;
                errors.push(error);
                assert(text::texts(errors@) =~= text::texts(present).push(error@));
            }
        }
    }
    assert(text::texts(errors@) =~= so_far + enum_part(schema@, value@, path@));
    assert(text::texts(errors@) =~= start + schema_errors(schema@, value@, path@));
}

/// Whether one of the values listed equals `value`.
fn any_equal(listed: &Vec<Value>, value: &Value) -> (r: bool)
    ensures
        r == is_listed(value::models(listed@), value@),
{
    let mut i: usize = 0;
    while i < listed.len()
        invariant
            i <= listed@.len(),
            forall|j: int|
                0 <= j < i ==> !model::same_json(#[trigger] value::models(listed@)[j], value@),
        decreases listed@.len() - i,
    {
        assert(value::models(listed@)[i as int] == listed@[i as int]@);
        if listed[i].equals(value) {
            return true;
        }
        i = i + 1;
    }
    false
}

/// Checks a value against a schema. Each error starts with `path`, the place
/// of the value.
pub fn validate_schema(schema: &Value, value: &Value, path: &str) -> (errors: Vec<String>)
    ensures
        text::texts(errors@) == schema_errors(schema@, value@, path@),
{
    let mut errors: Vec<String> = Vec::new();
    push_errors(&mut errors, schema, value, path);
    assert(text::texts(errors@) =~= schema_errors(schema@, value@, path@));
    errors
}

}
