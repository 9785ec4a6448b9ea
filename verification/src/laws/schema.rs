//! Laws of schema validation.

use crate::json::model;
use crate::json::model::Json;
use crate::laws::json as json_laws;
use crate::schema;
use crate::text;
use vstd::prelude::*;
use vstd::string::*;

verus! {

/// Whether a value is of the type that a schema names. An integer is a number
/// that was written without a fraction and without an exponent; no value is of
/// a type of another name.
pub open spec fn of_type(kind: Seq<char>, v: Json) -> bool {
    ||| kind == "null"@ && v is Null
    ||| kind == "boolean"@ && v is Bool
    ||| kind == "number"@ && v is Number
    ||| kind == "integer"@ && v is Number && !(v->Number_0 is Float)
    ||| kind == "string"@ && v is String
    ||| kind == "array"@ && v is Array
    ||| kind == "object"@ && v is Object
}

/// Whether a value conforms to a schema: it is of the type asked for; if it is
/// an object, it has the required members, the members that the schema knows
/// conform to their schemas, and there are no others where the schema forbids
/// them; if it is an array, its items conform to the schema of the items; and
/// it equals one of the values listed.
pub open spec fn conforms(schema: Json, v: Json) -> bool
    decreases schema,
{
    proof {
        model::lemma_member_decreases(schema, "properties"@);
        model::lemma_member_decreases(schema, "items"@);
    }
    &&& model::member(schema, "type"@) matches Some(Json::String(kind)) ==> of_type(kind, v)
    &&& match (model::member(schema, "required"@), v) {
        (Some(Json::Array(required)), Json::Object(object)) => forall|i: int|
            0 <= i < required.len() ==> ((#[trigger] required[i]) matches Json::String(name)
                ==> model::lookup(object, name) is Some),
        _ => true,
    }
    &&& match (model::member(schema, "properties"@), v) {
        (Some(Json::Object(properties)), Json::Object(object)) => {
            &&& forall|i: int|
                0 <= i < properties.len() ==> (model::lookup(object, (#[trigger] properties[i]).0) matches Some(m)
                    ==> conforms(properties[i].1, m))
            &&& model::member(schema, "additionalProperties"@) == Some(Json::Bool(false))
                ==> forall|i: int|
                0 <= i < object.len() ==> model::lookup(properties, (#[trigger] object[i]).0) is Some
        },
        _ => true,
    }
    &&& match (model::member(schema, "items"@), v) {
        (Some(item_schema), Json::Array(items)) => forall|i: int|
            0 <= i < items.len() ==> conforms(item_schema, #[trigger] items[i]),
        _ => true,
    }
    &&& model::member(schema, "enum"@) matches Some(Json::Array(listed)) ==> exists|i: int|
        0 <= i < listed.len() && model::same_json(#[trigger] listed[i], v)
}

/// A value is checked to be of a type exactly where it is of that type.
pub proof fn law_types_are_checked(kind: Seq<char>, v: Json)
    ensures
        schema::type_matches(kind, v) <==> of_type(kind, v),
{
    reveal_strlit("null");
    reveal_strlit("boolean");
    reveal_strlit("number");
    reveal_strlit("integer");
    reveal_strlit("string");
    reveal_strlit("array");
    reveal_strlit("object");
    assert("null"@.len() == 4);
    assert("boolean"@.len() == 7 && "boolean"@[0] == 'b');
    assert("array"@.len() == 5);
    assert("number"@.len() == 6 && "number"@[0] == 'n');
    assert("string"@.len() == 6 && "string"@[0] == 's');
    assert("object"@.len() == 6 && "object"@[0] == 'o');
    assert("integer"@.len() == 7 && "integer"@[0] == 'i');
}

/// No required member is missing where there are no such errors.
proof fn lemma_required(required: Seq<Json>, object: Seq<(Seq<char>, Json)>, path: Seq<char>)
    ensures
        schema::required_errors(required, object, path).len() == 0 <==> forall|i: int|
            0 <= i < required.len() ==> ((#[trigger] required[i]) matches Json::String(name)
                ==> model::lookup(object, name) is Some),
    decreases required.len(),
{
    if required.len() > 0 {
        let rest = required.drop_last();
        lemma_required(rest, object, path);
        assert(required.last() == required[required.len() - 1]);
        assert forall|i: int| 0 <= i < rest.len() implies rest[i] == #[trigger] required[i] by {}
    }
}

/// There are no members that the schema does not know where there are no such
/// errors.
proof fn lemma_unexpected(
    properties: Seq<(Seq<char>, Json)>,
    object: Seq<(Seq<char>, Json)>,
    path: Seq<char>,
)
    ensures
        schema::unexpected_errors(properties, object, path).len() == 0 <==> forall|i: int|
            0 <= i < object.len() ==> model::lookup(properties, (#[trigger] object[i]).0) is Some,
    decreases object.len(),
{
    if object.len() > 0 {
        let rest = object.drop_last();
        lemma_unexpected(properties, rest, path);
        assert(object.last() == object[object.len() - 1]);
        assert forall|i: int| 0 <= i < rest.len() implies rest[i] == #[trigger] object[i] by {}
    }
}

/// The members that the schema knows conform where there are no such errors.
proof fn lemma_properties(
    properties: Seq<(Seq<char>, Json)>,
    object: Seq<(Seq<char>, Json)>,
    path: Seq<char>,
)
    ensures
        schema::property_errors(properties, object, path).len() == 0 <==> forall|i: int|
            0 <= i < properties.len() ==> (model::lookup(object, (#[trigger] properties[i]).0) matches Some(m)
                ==> conforms(properties[i].1, m)),
    decreases properties, 0nat,
{
    if properties.len() > 0 {
        let rest = properties.drop_last();
        lemma_properties(rest, object, path);
        let last = properties.last();
        assert(last == properties[properties.len() - 1]);
        assert forall|i: int| 0 <= i < rest.len() implies rest[i] == #[trigger] properties[i] by {}
        if let Some(m) = model::lookup(object, last.0) {
            law_no_errors_iff_conforms(last.1, m, schema::member_path(path, last.0));
        }
    }
}

/// The items conform where there are no such errors.
proof fn lemma_items(item_schema: Json, items: Seq<Json>, path: Seq<char>)
    ensures
        schema::item_errors(item_schema, items, path).len() == 0 <==> forall|i: int|
            0 <= i < items.len() ==> conforms(item_schema, #[trigger] items[i]),
    decreases item_schema, items.len() + 1,
{
    if items.len() > 0 {
        let rest = items.drop_last();
        lemma_items(item_schema, rest, path);
        assert(items.last() == items[items.len() - 1]);
        assert forall|i: int| 0 <= i < rest.len() implies rest[i] == #[trigger] items[i] by {}
        law_no_errors_iff_conforms(
            item_schema,
            items.last(),
            schema::item_path(path, (items.len() - 1) as nat),
        );
    }
}

/// Validation finds no error exactly where the value conforms to the schema,
/// whatever the path.
pub proof fn law_no_errors_iff_conforms(schema: Json, v: Json, path: Seq<char>)
    ensures
        schema::schema_errors(schema, v, path).len() == 0 <==> conforms(schema, v),
    decreases schema, 0nat,
{
    model::lemma_member_decreases(schema, "properties"@);
    model::lemma_member_decreases(schema, "items"@);
    if let Some(kind) = schema::asked_type(schema) {
        law_types_are_checked(kind, v);
    }
    if let (Some(required), Json::Object(object)) = (schema::member_items(schema, "required"@), v) {
        lemma_required(required, object, path);
    }
    if let (Some(properties), Json::Object(object)) = (schema::asked_properties(schema), v) {
        lemma_properties(properties, object, path);
        lemma_unexpected(properties, object, path);
    }
    if let (Some(item_schema), Json::Array(items)) = (model::member(schema, "items"@), v) {
        lemma_items(item_schema, items, path);
    }
}

/// Of equal values, one conforms to a schema exactly where the other does.
pub proof fn law_equal_values_conform_alike(schema: Json, a: Json, b: Json)
    requires
        model::same_json(a, b),
    ensures
        conforms(schema, a) <==> conforms(schema, b),
    decreases schema, 1nat,
{
    json_laws::law_equality_is_symmetric(a, b);
    if conforms(schema, a) {
        lemma_conforms_too(schema, a, b);
    }
    if conforms(schema, b) {
        lemma_conforms_too(schema, b, a);
    }
}

/// What equals a value that conforms to a schema conforms too.
proof fn lemma_conforms_too(schema: Json, a: Json, b: Json)
    requires
        model::same_json(a, b),
        conforms(schema, a),
    ensures
        conforms(schema, b),
    decreases schema, 0nat,
{
    model::lemma_member_decreases(schema, "properties"@);
    model::lemma_member_decreases(schema, "items"@);
    if let (Json::Object(x), Json::Object(y)) = (a, b) {
        if let Some(required) = schema::member_items(schema, "required"@) {
            assert forall|i: int| 0 <= i < required.len() implies ((
            #[trigger] required[i]) matches Json::String(name) ==> model::lookup(y, name) is Some) by {
                if let Json::String(name) = required[i] {
                    json_laws::law_equal_objects_have_equal_members(x, y, name);
                }
            }
        }
        if let Some(properties) = schema::asked_properties(schema) {
            assert forall|i: int| 0 <= i < properties.len() implies (model::lookup(
                y,
                (#[trigger] properties[i]).0,
            ) matches Some(m) ==> conforms(properties[i].1, m)) by {
                json_laws::law_equal_objects_have_equal_members(x, y, properties[i].0);
                if let (Some(m), Some(n)) = (
                    model::lookup(x, properties[i].0),
                    model::lookup(y, properties[i].0),
                ) {
                    assert(decreases_to!(properties => properties[i]));
                    law_equal_values_conform_alike(properties[i].1, m, n);
                }
            }
            if model::member(schema, "additionalProperties"@) == Some(Json::Bool(false)) {
                assert forall|i: int| 0 <= i < y.len() implies model::lookup(
                    properties,
                    (#[trigger] y[i]).0,
                ) is Some by {
                    assert(x[i].0 == y[i].0);
                }
            }
        }
    }
    if let (Json::Array(x), Json::Array(y)) = (a, b) {
        if let Some(item_schema) = model::member(schema, "items"@) {
            assert forall|i: int| 0 <= i < y.len() implies conforms(item_schema, #[trigger] y[i]) by {
                assert(model::same_json(x[i], y[i]));
                law_equal_values_conform_alike(item_schema, x[i], y[i]);
            }
        }
    }
    if let Some(listed) = schema::member_items(schema, "enum"@) {
        let i = choose|i: int| 0 <= i < listed.len() && model::same_json(#[trigger] listed[i], a);
        json_laws::law_equality_is_transitive(listed[i], a, b);
    }
}

/// A value of another type than the schema asks for has one error, which says
/// so, whatever else the schema says.
pub proof fn law_wrong_type_is_the_only_error(schema: Json, v: Json, path: Seq<char>, kind: Seq<char>)
    requires
        model::member(schema, "type"@) == Some(Json::String(kind)),
        !schema::type_matches(kind, v),
    ensures
        schema::schema_errors(schema, v, path) == seq![path + ": expected type `"@ + kind + "`"@],
{
}

/// A schema counts by its keywords alone: two schemas with the same values for
/// them give the same errors.
pub proof fn law_only_keywords_count(a: Json, b: Json, v: Json, path: Seq<char>)
    requires
        model::member(a, "type"@) == model::member(b, "type"@),
        model::member(a, "required"@) == model::member(b, "required"@),
        model::member(a, "properties"@) == model::member(b, "properties"@),
        model::member(a, "additionalProperties"@) == model::member(b, "additionalProperties"@),
        model::member(a, "items"@) == model::member(b, "items"@),
        model::member(a, "enum"@) == model::member(b, "enum"@),
    ensures
        schema::schema_errors(a, v, path) == schema::schema_errors(b, v, path),
{
}

/// Every value conforms to a schema that is no object.
pub proof fn law_schema_without_members_accepts_all(schema: Json, v: Json, path: Seq<char>)
    requires
        !(schema is Object),
    ensures
        schema::schema_errors(schema, v, path) == Seq::<Seq<char>>::empty(),
{
    assert(schema::schema_errors(schema, v, path) =~= Seq::<Seq<char>>::empty());
}

/// A number is an integer or not, and an integer is also a number; of the other
/// types a value has exactly one.
pub proof fn law_types(v: Json)
    ensures
        schema::type_matches("integer"@, v) ==> schema::type_matches("number"@, v),
        schema::type_matches("null"@, v) <==> v is Null,
        schema::type_matches("boolean"@, v) <==> v is Bool,
        schema::type_matches("number"@, v) <==> v is Number,
        schema::type_matches("string"@, v) <==> v is String,
        schema::type_matches("array"@, v) <==> v is Array,
        schema::type_matches("object"@, v) <==> v is Object,
{
    reveal_strlit("null");
    reveal_strlit("boolean");
    reveal_strlit("number");
    reveal_strlit("integer");
    reveal_strlit("string");
    reveal_strlit("array");
    reveal_strlit("object");
    assert("null"@.len() == 4);
    assert("boolean"@.len() == 7);
    assert("array"@.len() == 5);
    assert("number"@[0] == 'n');
    assert("string"@[0] == 's');
    assert("object"@[0] == 'o');
    assert("integer"@[0] == 'i');
    assert("boolean"@[0] == 'b');
}

/// Whether every text starts with `path`.
pub open spec fn all_start_with(errors: Seq<Seq<char>>, path: Seq<char>) -> bool {
    forall|i: int| 0 <= i < errors.len() ==> path.is_prefix_of(#[trigger] errors[i])
}

/// What starts with a longer path starts with the path.
proof fn lemma_shorter_path(errors: Seq<Seq<char>>, longer: Seq<char>, path: Seq<char>)
    requires
        all_start_with(errors, longer),
        path.is_prefix_of(longer),
    ensures
        all_start_with(errors, path),
{
    assert forall|i: int| 0 <= i < errors.len() implies path.is_prefix_of(#[trigger] errors[i]) by {
        assert(longer.is_prefix_of(errors[i]));
        assert(errors[i].subrange(0, path.len() as int) =~= longer.subrange(0, path.len() as int));
    }
}

/// Errors of missing members start with the path.
proof fn lemma_required_places(required: Seq<Json>, object: Seq<(Seq<char>, Json)>, path: Seq<char>)
    ensures
        all_start_with(schema::required_errors(required, object, path), path),
    decreases required.len(),
{
    if required.len() > 0 {
        lemma_required_places(required.drop_last(), object, path);
        if let Json::String(name) = required.last() {
            assert(schema::missing_error(path, name).subrange(0, path.len() as int) =~= path);
        }
    }
}

/// Errors of unknown members start with the path.
proof fn lemma_unexpected_places(
    properties: Seq<(Seq<char>, Json)>,
    object: Seq<(Seq<char>, Json)>,
    path: Seq<char>,
)
    ensures
        all_start_with(schema::unexpected_errors(properties, object, path), path),
    decreases object.len(),
{
    if object.len() > 0 {
        lemma_unexpected_places(properties, object.drop_last(), path);
        assert(schema::unexpected_error(path, object.last().0).subrange(0, path.len() as int)
            =~= path);
    }
}

/// Errors inside members start with the path.
proof fn lemma_property_places(
    properties: Seq<(Seq<char>, Json)>,
    object: Seq<(Seq<char>, Json)>,
    path: Seq<char>,
)
    ensures
        all_start_with(schema::property_errors(properties, object, path), path),
    decreases properties, 0nat,
{
    if properties.len() > 0 {
        let last = properties.last();
        let inner = schema::member_path(path, last.0);
        lemma_property_places(properties.drop_last(), object, path);
        if let Some(m) = model::lookup(object, last.0) {
            law_errors_start_with_path(last.1, m, inner);
            assert(inner.subrange(0, path.len() as int) =~= path);
            lemma_shorter_path(schema::schema_errors(last.1, m, inner), inner, path);
        }
    }
}

/// Errors inside items start with the path.
proof fn lemma_item_places(item_schema: Json, items: Seq<Json>, path: Seq<char>)
    ensures
        all_start_with(schema::item_errors(item_schema, items, path), path),
    decreases item_schema, items.len() + 1,
{
    if items.len() > 0 {
        let inner = schema::item_path(path, (items.len() - 1) as nat);
        lemma_item_places(item_schema, items.drop_last(), path);
        law_errors_start_with_path(item_schema, items.last(), inner);
        assert(inner.subrange(0, path.len() as int) =~= path);
        lemma_shorter_path(schema::schema_errors(item_schema, items.last(), inner), inner, path);
    }
}

/// Every error starts with the path of the value that was checked.
pub proof fn law_errors_start_with_path(schema: Json, v: Json, path: Seq<char>)
    ensures
        all_start_with(schema::schema_errors(schema, v, path), path),
    decreases schema, 0nat,
{
    model::lemma_member_decreases(schema, "properties"@);
    model::lemma_member_decreases(schema, "items"@);
    if let (Some(required), Json::Object(object)) = (schema::member_items(schema, "required"@), v) {
        lemma_required_places(required, object, path);
    }
    if let (Some(properties), Json::Object(object)) = (schema::asked_properties(schema), v) {
        lemma_property_places(properties, object, path);
        lemma_unexpected_places(properties, object, path);
    }
    if let (Some(item_schema), Json::Array(items)) = (model::member(schema, "items"@), v) {
        lemma_item_places(item_schema, items, path);
    }
    if let Some(kind) = schema::asked_type(schema) {
        assert(schema::type_error(path, kind).subrange(0, path.len() as int) =~= path);
    }
    assert(schema::enum_error(path).subrange(0, path.len() as int) =~= path);
}

/// A string conforms to a schema that lists strings only where it is one of
/// them.
pub proof fn law_listed_strings(schema: Json, listed: Seq<Json>, s: Seq<char>)
    requires
        model::member(schema, "enum"@) == Some(Json::Array(listed)),
        forall|i: int| 0 <= i < listed.len() ==> (#[trigger] listed[i]) is String,
        conforms(schema, Json::String(s)),
    ensures
        listed.contains(Json::String(s)),
{
    let i = choose|i: int|
        0 <= i < listed.len() && model::same_json(#[trigger] listed[i], Json::String(s));
    json_laws::law_equal_values_are_the_same(listed[i], Json::String(s));
    assert(listed[i] == Json::String(s));
}

/// Listing values alone asks that the value equals one of them, and gives one
/// error otherwise.
pub proof fn law_errors_of_enum(schema: Json, listed: Seq<Json>, v: Json, path: Seq<char>)
    requires
        model::member(schema, "type"@) is None,
        model::member(schema, "required"@) is None,
        model::member(schema, "properties"@) is None,
        model::member(schema, "items"@) is None,
        model::member(schema, "enum"@) == Some(Json::Array(listed)),
    ensures
        (exists|i: int| 0 <= i < listed.len() && model::same_json(#[trigger] listed[i], v))
            ==> schema::schema_errors(schema, v, path) == Seq::<Seq<char>>::empty(),
        (forall|i: int| 0 <= i < listed.len() ==> !model::same_json(#[trigger] listed[i], v))
            ==> schema::schema_errors(schema, v, path) == seq![path + ": value not present in enum"@],
{
    law_no_errors_iff_conforms(schema, v, path);
    if exists|i: int| 0 <= i < listed.len() && model::same_json(#[trigger] listed[i], v) {
        assert(schema::schema_errors(schema, v, path) =~= Seq::<Seq<char>>::empty());
    } else {
        assert(schema::schema_errors(schema, v, path) =~= seq![path + ": value not present in enum"@]);
    }
}

/// Requiring members alone gives one error for each name listed that the object
/// lacks, in their order, and none for what is no object.
pub proof fn law_errors_of_required(
    schema: Json,
    required: Seq<Json>,
    object: Seq<(Seq<char>, Json)>,
    v: Json,
    path: Seq<char>,
)
    requires
        model::member(schema, "type"@) is None,
        model::member(schema, "required"@) == Some(Json::Array(required)),
        model::member(schema, "properties"@) is None,
        model::member(schema, "items"@) is None,
        model::member(schema, "enum"@) is None,
    ensures
        schema::schema_errors(schema, Json::Object(object), path) == required.filter(
            |r: Json| r is String && model::lookup(object, r->String_0) is None,
        ).map_values(|r: Json| path + ": missing required field `"@ + r->String_0 + "`"@),
        !(v is Object) ==> schema::schema_errors(schema, v, path) == Seq::<Seq<char>>::empty(),
{
    let lacks = |r: Json| r is String && model::lookup(object, r->String_0) is None;
    let says = |r: Json| path + ": missing required field `"@ + r->String_0 + "`"@;
    lemma_required_filtered(required, object, path, lacks, says);
    assert(schema::schema_errors(schema, Json::Object(object), path) =~= schema::required_errors(
        required,
        object,
        path,
    ));
    if !(v is Object) {
        assert(schema::schema_errors(schema, v, path) =~= Seq::<Seq<char>>::empty());
    }
}

/// The errors of required members, name by name.
proof fn lemma_required_filtered(
    required: Seq<Json>,
    object: Seq<(Seq<char>, Json)>,
    path: Seq<char>,
    lacks: spec_fn(Json) -> bool,
    says: spec_fn(Json) -> Seq<char>,
)
    requires
        forall|r: Json| #[trigger]
            lacks(r) <==> r is String && model::lookup(object, r->String_0) is None,
        forall|r: Json| #[trigger]
            says(r) == path + ": missing required field `"@ + r->String_0 + "`"@,
    ensures
        schema::required_errors(required, object, path) == required.filter(lacks).map_values(says),
    decreases required.len(),
{
    reveal(Seq::filter);
    if required.len() == 0 {
        assert(required.filter(lacks).map_values(says) =~= Seq::<Seq<char>>::empty());
    } else {
        let rest = required.drop_last();
        lemma_required_filtered(rest, object, path, lacks, says);
        if lacks(required.last()) {
            assert(required.filter(lacks) =~= rest.filter(lacks).push(required.last()));
            assert(rest.filter(lacks).push(required.last()).map_values(says) =~= rest.filter(
                lacks,
            ).map_values(says).push(says(required.last())));
        } else {
            assert(required.filter(lacks) =~= rest.filter(lacks));
        }
        assert(schema::required_errors(required, object, path) =~= required.filter(lacks).map_values(
            says,
        ));
    }
}

/// Forbidding other members adds one error for each member that the schema does
/// not know, in their order, after those that are there without it.
pub proof fn law_errors_of_additional_properties(
    closed: Json,
    open: Json,
    properties: Seq<(Seq<char>, Json)>,
    object: Seq<(Seq<char>, Json)>,
    path: Seq<char>,
)
    requires
        model::member(closed, "type"@) is None && model::member(open, "type"@) is None,
        model::member(closed, "required"@) is None && model::member(open, "required"@) is None,
        model::member(closed, "properties"@) == Some(Json::Object(properties)),
        model::member(open, "properties"@) == Some(Json::Object(properties)),
        model::member(closed, "additionalProperties"@) == Some(Json::Bool(false)),
        model::member(open, "additionalProperties"@) != Some(Json::Bool(false)),
        model::member(closed, "items"@) is None && model::member(open, "items"@) is None,
        model::member(closed, "enum"@) is None && model::member(open, "enum"@) is None,
    ensures
        schema::schema_errors(closed, Json::Object(object), path) == schema::schema_errors(
            open,
            Json::Object(object),
            path,
        ) + object.filter(
            |m: (Seq<char>, Json)| model::lookup(properties, m.0) is None,
        ).map_values(|m: (Seq<char>, Json)| path + ": unexpected field `"@ + m.0 + "`"@),
{
    let unknown = |m: (Seq<char>, Json)| model::lookup(properties, m.0) is None;
    let says = |m: (Seq<char>, Json)| path + ": unexpected field `"@ + m.0 + "`"@;
    lemma_unexpected_filtered(properties, object, path, unknown, says);
    let inside = schema::property_errors(properties, object, path);
    assert(schema::schema_errors(open, Json::Object(object), path) =~= inside);
    assert(schema::schema_errors(closed, Json::Object(object), path) =~= inside
        + schema::unexpected_errors(properties, object, path));
}

/// The errors of unknown members, member by member.
proof fn lemma_unexpected_filtered(
    properties: Seq<(Seq<char>, Json)>,
    object: Seq<(Seq<char>, Json)>,
    path: Seq<char>,
    unknown: spec_fn((Seq<char>, Json)) -> bool,
    says: spec_fn((Seq<char>, Json)) -> Seq<char>,
)
    requires
        forall|m: (Seq<char>, Json)| #[trigger]
            unknown(m) <==> model::lookup(properties, m.0) is None,
        forall|m: (Seq<char>, Json)| #[trigger]
            says(m) == path + ": unexpected field `"@ + m.0 + "`"@,
    ensures
        schema::unexpected_errors(properties, object, path) == object.filter(unknown).map_values(
            says,
        ),
    decreases object.len(),
{
    reveal(Seq::filter);
    if object.len() == 0 {
        assert(object.filter(unknown).map_values(says) =~= Seq::<Seq<char>>::empty());
    } else {
        let rest = object.drop_last();
        lemma_unexpected_filtered(properties, rest, path, unknown, says);
        if unknown(object.last()) {
            assert(object.filter(unknown) =~= rest.filter(unknown).push(object.last()));
            assert(rest.filter(unknown).push(object.last()).map_values(says) =~= rest.filter(
                unknown,
            ).map_values(says).push(says(object.last())));
        } else {
            assert(object.filter(unknown) =~= rest.filter(unknown));
        }
        assert(schema::unexpected_errors(properties, object, path) =~= object.filter(
            unknown,
        ).map_values(says));
    }
}

/// A schema that knows one member more adds the errors of that member, after a
/// dot and its name, where the object has it, and none otherwise. What is no
/// object has no such errors.
pub proof fn law_errors_of_properties(
    few: Json,
    more: Json,
    properties: Seq<(Seq<char>, Json)>,
    name: Seq<char>,
    inner: Json,
    object: Seq<(Seq<char>, Json)>,
    v: Json,
    path: Seq<char>,
)
    requires
        model::member(few, "type"@) is None && model::member(more, "type"@) is None,
        model::member(few, "required"@) is None && model::member(more, "required"@) is None,
        model::member(few, "properties"@) == Some(Json::Object(properties)),
        model::member(more, "properties"@) == Some(Json::Object(properties.push((name, inner)))),
        model::member(few, "additionalProperties"@) != Some(Json::Bool(false)),
        model::member(more, "additionalProperties"@) != Some(Json::Bool(false)),
        model::member(few, "items"@) is None && model::member(more, "items"@) is None,
        model::member(few, "enum"@) is None && model::member(more, "enum"@) is None,
    ensures
        schema::schema_errors(more, Json::Object(object), path) == schema::schema_errors(
            few,
            Json::Object(object),
            path,
        ) + match model::lookup(object, name) {
            Some(m) => schema::schema_errors(inner, m, path + "."@ + name),
            None => Seq::empty(),
        },
        properties.len() == 0 ==> schema::schema_errors(few, Json::Object(object), path) == Seq::<
            Seq<char>,
        >::empty(),
        !(v is Object) ==> schema::schema_errors(more, v, path) == Seq::<Seq<char>>::empty(),
{
    let all = properties.push((name, inner));
    assert(all.drop_last() =~= properties);
    let inside = schema::property_errors(properties, object, path);
    assert(schema::schema_errors(few, Json::Object(object), path) =~= inside);
    assert(schema::schema_errors(more, Json::Object(object), path) =~= schema::property_errors(
        all,
        object,
        path,
    ));
    if !(v is Object) {
        assert(schema::schema_errors(more, v, path) =~= Seq::<Seq<char>>::empty());
    }
}

/// An array with one item more has the errors of that item more, after its
/// position in brackets. An empty array, and what is no array, has no such
/// errors.
pub proof fn law_errors_of_items(
    schema: Json,
    inner: Json,
    items: Seq<Json>,
    item: Json,
    v: Json,
    path: Seq<char>,
)
    requires
        model::member(schema, "type"@) is None,
        model::member(schema, "required"@) is None,
        model::member(schema, "properties"@) is None,
        model::member(schema, "items"@) == Some(inner),
        model::member(schema, "enum"@) is None,
    ensures
        schema::schema_errors(schema, Json::Array(Seq::empty()), path) == Seq::<Seq<char>>::empty(),
        schema::schema_errors(schema, Json::Array(items.push(item)), path) == schema::schema_errors(
            schema,
            Json::Array(items),
            path,
        ) + schema::schema_errors(inner, item, path + "["@ + text::decimal(items.len()) + "]"@),
        !(v is Array) ==> schema::schema_errors(schema, v, path) == Seq::<Seq<char>>::empty(),
{
    let all = items.push(item);
    assert(all.drop_last() =~= items);
    assert(schema::schema_errors(schema, Json::Array(Seq::empty()), path) =~= Seq::<
        Seq<char>,
    >::empty());
    assert(schema::schema_errors(schema, Json::Array(items), path) =~= schema::item_errors(
        inner,
        items,
        path,
    ));
    assert(schema::schema_errors(schema, Json::Array(all), path) =~= schema::item_errors(
        inner,
        all,
        path,
    ));
    if !(v is Array) {
        assert(schema::schema_errors(schema, v, path) =~= Seq::<Seq<char>>::empty());
    }
}

/// What a schema with several keywords says of a value of the right type is
/// what schemas with one of them each say, one after the other: first what is
/// required, then what is known of the members, then of the items, then what is
/// listed.
pub proof fn law_errors_keyword_by_keyword(
    schema: Json,
    of_required: Json,
    of_properties: Json,
    of_items: Json,
    of_enum: Json,
    v: Json,
    path: Seq<char>,
)
    requires
        model::member(schema, "type"@) matches Some(Json::String(kind)) ==> of_type(kind, v),
        model::member(of_required, "required"@) == model::member(schema, "required"@),
        model::member(of_required, "type"@) is None,
        model::member(of_required, "properties"@) is None,
        model::member(of_required, "items"@) is None,
        model::member(of_required, "enum"@) is None,
        model::member(of_properties, "properties"@) == model::member(schema, "properties"@),
        model::member(of_properties, "additionalProperties"@) == model::member(
            schema,
            "additionalProperties"@,
        ),
        model::member(of_properties, "type"@) is None,
        model::member(of_properties, "required"@) is None,
        model::member(of_properties, "items"@) is None,
        model::member(of_properties, "enum"@) is None,
        model::member(of_items, "items"@) == model::member(schema, "items"@),
        model::member(of_items, "type"@) is None,
        model::member(of_items, "required"@) is None,
        model::member(of_items, "properties"@) is None,
        model::member(of_items, "enum"@) is None,
        model::member(of_enum, "enum"@) == model::member(schema, "enum"@),
        model::member(of_enum, "type"@) is None,
        model::member(of_enum, "required"@) is None,
        model::member(of_enum, "properties"@) is None,
        model::member(of_enum, "items"@) is None,
    ensures
        schema::schema_errors(schema, v, path) == schema::schema_errors(of_required, v, path)
            + schema::schema_errors(of_properties, v, path) + schema::schema_errors(
            of_items,
            v,
            path,
        ) + schema::schema_errors(of_enum, v, path),
{
    if let Some(kind) = schema::asked_type(schema) {
        law_types_are_checked(kind, v);
    }
    assert(schema::schema_errors(of_required, v, path) =~= schema::required_part(schema, v, path));
    assert(schema::schema_errors(of_properties, v, path) =~= schema::property_part(schema, v, path)
        + schema::unexpected_part(schema, v, path));
    assert(schema::schema_errors(of_items, v, path) =~= schema::item_part(schema, v, path));
    assert(schema::schema_errors(of_enum, v, path) =~= schema::enum_part(schema, v, path));
    assert(schema::schema_errors(schema, v, path) =~= schema::schema_errors(of_required, v, path)
        + schema::schema_errors(of_properties, v, path) + schema::schema_errors(of_items, v, path)
        + schema::schema_errors(of_enum, v, path));
}

/// A keyword whose value is not of the kind that it takes counts as if it were
/// not there.
pub proof fn law_malformed_keywords_do_not_count(schema: Json, v: Json, path: Seq<char>)
    requires
        !(model::member(schema, "type"@) matches Some(Json::String(_))),
        !(model::member(schema, "required"@) matches Some(Json::Array(_))),
        !(model::member(schema, "properties"@) matches Some(Json::Object(_))),
        !(model::member(schema, "enum"@) matches Some(Json::Array(_))),
        model::member(schema, "items"@) is None || !(v is Array),
    ensures
        schema::schema_errors(schema, v, path) == Seq::<Seq<char>>::empty(),
{
    assert(schema::schema_errors(schema, v, path) =~= Seq::<Seq<char>>::empty());
}

}
