//! Laws of JSON values.

use crate::double;
use crate::double::DoubleModel;
use crate::json::model;
use crate::json::model::{Json, NumberModel};
use crate::text;
use vstd::prelude::*;
use vstd::string::*;

verus! {

/// Every value equals itself.
pub proof fn law_equality_is_reflexive(v: Json)
    requires
        model::json_ok(v),
    ensures
        model::same_json(v, v),
    decreases v,
{
    match v {
        Json::Array(items) => {
            assert forall|i: int| 0 <= i < items.len() implies model::same_json(
                #[trigger] items[i],
                items[i],
            ) by {
                law_equality_is_reflexive(items[i]);
            }
        },
        Json::Object(members) => {
            assert forall|i: int| 0 <= i < members.len() implies model::same_json(
                (#[trigger] members[i]).1,
                members[i].1,
            ) by {
                assert(model::json_ok(members[i].1));
                assert(decreases_to!(members => members[i]));
                law_equality_is_reflexive(members[i].1);
            }
        },
        _ => {},
    }
}

/// Where one value equals another, the other equals the one.
pub proof fn law_equality_is_symmetric(a: Json, b: Json)
    requires
        model::same_json(a, b),
    ensures
        model::same_json(b, a),
    decreases a,
{
    match (a, b) {
        (Json::Array(x), Json::Array(y)) => {
            assert forall|i: int| 0 <= i < y.len() implies model::same_json(#[trigger] y[i], x[i]) by {
                assert(model::same_json(x[i], y[i]));
                law_equality_is_symmetric(x[i], y[i]);
            }
        },
        (Json::Object(x), Json::Object(y)) => {
            assert forall|i: int| 0 <= i < y.len() implies (#[trigger] y[i]).0 == x[i].0
                && model::same_json(y[i].1, x[i].1) by {
                assert(x[i].0 == y[i].0 && model::same_json(x[i].1, y[i].1));
                assert(decreases_to!(x => x[i]));
                law_equality_is_symmetric(x[i].1, y[i].1);
            }
        },
        _ => {},
    }
}

/// Values that equal a third one equal each other.
pub proof fn law_equality_is_transitive(a: Json, b: Json, c: Json)
    requires
        model::same_json(a, b),
        model::same_json(b, c),
    ensures
        model::same_json(a, c),
    decreases a,
{
    match (a, b, c) {
        (Json::Array(x), Json::Array(y), Json::Array(z)) => {
            assert forall|i: int| 0 <= i < x.len() implies model::same_json(#[trigger] x[i], z[i]) by {
                assert(model::same_json(x[i], y[i]));
                assert(model::same_json(y[i], z[i]));
                law_equality_is_transitive(x[i], y[i], z[i]);
            }
        },
        (Json::Object(x), Json::Object(y), Json::Object(z)) => {
            assert forall|i: int| 0 <= i < x.len() implies (#[trigger] x[i]).0 == z[i].0
                && model::same_json(x[i].1, z[i].1) by {
                assert(x[i].0 == y[i].0 && model::same_json(x[i].1, y[i].1));
                assert(y[i].0 == z[i].0 && model::same_json(y[i].1, z[i].1));
                assert(decreases_to!(x => x[i]));
                law_equality_is_transitive(x[i].1, y[i].1, z[i].1);
            }
        },
        _ => {},
    }
}

/// An integer never equals a number with a fraction or an exponent, not even
/// where both are the same number, as `1` and `1.0` are.
pub proof fn law_integers_equal_integers_only(a: NumberModel, b: NumberModel)
    requires
        model::is_integer(a),
        !model::is_integer(b),
    ensures
        !model::same_json(Json::Number(a), Json::Number(b)),
{
}

/// Equal objects have equal members.
pub proof fn law_equal_objects_have_equal_members(
    a: Seq<(Seq<char>, Json)>,
    b: Seq<(Seq<char>, Json)>,
    name: Seq<char>,
)
    requires
        model::same_json(Json::Object(a), Json::Object(b)),
    ensures
        match (model::lookup(a, name), model::lookup(b, name)) {
            (Some(x), Some(y)) => model::same_json(x, y),
            (None, None) => true,
            _ => false,
        },
    decreases a.len(),
{
    if a.len() > 0 {
        assert(a[0].0 == b[0].0 && model::same_json(a[0].1, b[0].1));
        let x = a.skip(1);
        let y = b.skip(1);
        assert forall|i: int| 0 <= i < x.len() implies (#[trigger] x[i]).0 == y[i].0
            && model::same_json(x[i].1, y[i].1) by {
            assert(a[i + 1].0 == b[i + 1].0 && model::same_json(a[i + 1].1, b[i + 1].1));
        }
        assert(model::same_json(Json::Object(x), Json::Object(y)));
        law_equal_objects_have_equal_members(x, y, name);
    }
}

/// A larger integer is never rounded to a smaller double.
pub proof fn law_rounding_keeps_order(m: int, n: int, a: u64, b: u64)
    requires
        m <= n,
        double::is_nearest(m, a),
        double::is_nearest(n, b),
    ensures
        double::at_most(a, b),
{
    let u = vstd::arithmetic::power2::pow2(1074) as int;
    vstd::arithmetic::power2::lemma_pow2_pos(1074);
    let x = double::scaled_value(a);
    let y = double::scaled_value(b);
    assert(m * u <= n * u) by (nonlinear_arith)
        requires
            m <= n,
            u >= 0,
    ;
    assert(double::gap(m, a) <= double::gap(m, b));
    assert(double::gap(n, b) <= double::gap(n, a));
    if m == n {
        double::lemma_nearest_unique(m, a, b);
    } else if x > y {
        assert(m * u < n * u) by (nonlinear_arith)
            requires
                m < n,
                u > 0,
        ;
    }
}

/// An object is what its members are: two objects with the same value for every
/// name are the same. So what is put into an object settles what it is.
pub proof fn law_objects_are_their_members(a: Seq<(Seq<char>, Json)>, b: Seq<(Seq<char>, Json)>)
    requires
        model::ascending(a),
        model::ascending(b),
        forall|name: Seq<char>| #[trigger] model::lookup(a, name) == model::lookup(b, name),
    ensures
        a == b,
    decreases a.len(),
{
    if a.len() == 0 {
        if b.len() > 0 {
            assert(model::lookup(a, b[0].0) is None);
        }
        assert(a =~= b);
    } else {
        assert(model::lookup(a, a[0].0) == Some(a[0].1));
        assert(model::lookup(b, a[0].0) == Some(a[0].1));
        lemma_first_name(a, b);
        assert(model::lookup(b, b[0].0) == Some(b[0].1));
        assert(model::lookup(a, b[0].0) is Some);
        lemma_first_name(b, a);
        text::lemma_before_total(a[0].0, b[0].0);
        let x = a.skip(1);
        let y = b.skip(1);
        lemma_ascending_rest(a);
        lemma_ascending_rest(b);
        assert forall|k: Seq<char>| #[trigger] model::lookup(x, k) == model::lookup(y, k) by {
            assert(model::lookup(a, k) == model::lookup(b, k));
        }
        law_objects_are_their_members(x, y);
        assert(a =~= seq![a[0]] + x);
        assert(b =~= seq![b[0]] + y);
    }
}

/// The first name of an object does not stand before all names of another that
/// has it too.
proof fn lemma_first_name(a: Seq<(Seq<char>, Json)>, b: Seq<(Seq<char>, Json)>)
    requires
        a.len() > 0,
        model::ascending(b),
        model::lookup(b, a[0].0) is Some,
    ensures
        b.len() > 0,
        a[0].0 == b[0].0 || text::before(b[0].0, a[0].0),
{
    model::lemma_lookup(b, a[0].0);
    let v = model::lookup(b, a[0].0)->0;
    let j = choose|j: int| 0 <= j < b.len() && #[trigger] b[j] == (a[0].0, v);
    if j > 0 {
        assert(text::before(b[0].0, b[j].0));
    }
}

/// What follows the first member ascends too and does not have its name.
proof fn lemma_ascending_rest(a: Seq<(Seq<char>, Json)>)
    requires
        a.len() > 0,
        model::ascending(a),
    ensures
        model::ascending(a.skip(1)),
        model::lookup(a.skip(1), a[0].0) is None,
{
    let rest = a.skip(1);
    assert forall|i: int, j: int| 0 <= i < j < rest.len() implies text::before(
        (#[trigger] rest[i]).0,
        (#[trigger] rest[j]).0,
    ) by {
        assert(text::before(a[i + 1].0, a[j + 1].0));
    }
    model::lemma_lookup(rest, a[0].0);
    if let Some(v) = model::lookup(rest, a[0].0) {
        let i = choose|i: int| 0 <= i < rest.len() && #[trigger] rest[i] == (a[0].0, v);
        assert(text::before(a[0].0, a[i + 1].0));
        text::lemma_before_total(a[0].0, a[i + 1].0);
    }
}

/// Whether there is no number with a fraction or an exponent anywhere in a
/// value.
pub open spec fn all_integers(v: Json) -> bool
    decreases v,
{
    match v {
        Json::Number(n) => !(n is Float),
        Json::Array(items) => forall|i: int| 0 <= i < items.len() ==> all_integers(#[trigger] items[i]),
        Json::Object(members) => forall|i: int|
            0 <= i < members.len() ==> all_integers((#[trigger] members[i]).1),
        _ => true,
    }
}

/// Values whose numbers are integers are equal exactly where they are the same.
pub proof fn law_equal_values_are_the_same(a: Json, b: Json)
    requires
        all_integers(a),
    ensures
        model::same_json(a, b) <==> a == b,
    decreases a,
{
    match a {
        Json::Array(x) => {
            assert forall|i: int| 0 <= i < x.len() implies model::same_json(#[trigger] x[i], x[i]) by {
                law_equal_values_are_the_same(x[i], x[i]);
            }
            if model::same_json(a, b) {
                if let Json::Array(y) = b {
                    assert forall|i: int| 0 <= i < x.len() implies x[i] == y[i] by {
                        assert(model::same_json(x[i], y[i]));
                        law_equal_values_are_the_same(x[i], y[i]);
                    }
                    assert(x =~= y);
                }
            }
        },
        Json::Object(x) => {
            assert forall|i: int| 0 <= i < x.len() implies model::same_json(
                (#[trigger] x[i]).1,
                x[i].1,
            ) by {
                assert(decreases_to!(x => x[i]));
                law_equal_values_are_the_same(x[i].1, x[i].1);
            }
            if model::same_json(a, b) {
                if let Json::Object(y) = b {
                    assert forall|i: int| 0 <= i < x.len() implies x[i] == y[i] by {
                        assert(x[i].0 == y[i].0 && model::same_json(x[i].1, y[i].1));
                        assert(decreases_to!(x => x[i]));
                        law_equal_values_are_the_same(x[i].1, y[i].1);
                    }
                    assert(x =~= y);
                }
            }
        },
        _ => {},
    }
}

/// Numbers with a fraction or an exponent are equal exactly where they are the
/// same number, however they are written.
pub proof fn law_equal_doubles(a: DoubleModel, b: DoubleModel, a_json: Seq<char>, b_json: Seq<char>)
    requires
        double::is_finite(a.bits),
        double::is_finite(b.bits),
    ensures
        model::same_json(
            Json::Number(NumberModel::Float { double: a, json: a_json }),
            Json::Number(NumberModel::Float { double: b, json: b_json }),
        ) <==> double::scaled_value(a.bits) == double::scaled_value(b.bits),
{
}

/// Arrays are equal exactly where they are equally long and their items are
/// equal.
pub proof fn law_equal_arrays(x: Seq<Json>, y: Seq<Json>)
    ensures
        model::same_json(Json::Array(x), Json::Array(y)) <==> x.len() == y.len() && forall|i: int|
            0 <= i < x.len() ==> model::same_json(#[trigger] x[i], y[i]),
{
}

/// Objects are equal exactly where they have the same names and equal values
/// for them.
pub proof fn law_equal_objects(x: Seq<(Seq<char>, Json)>, y: Seq<(Seq<char>, Json)>)
    requires
        model::ascending(x),
        model::ascending(y),
    ensures
        model::same_json(Json::Object(x), Json::Object(y)) ==> forall|name: Seq<char>|
            match (#[trigger] model::lookup(x, name), model::lookup(y, name)) {
                (Some(v), Some(w)) => model::same_json(v, w),
                (None, None) => true,
                _ => false,
            },
        x.len() == y.len() && (forall|i: int|
            0 <= i < x.len() ==> (#[trigger] x[i]).0 == y[i].0 && model::same_json(x[i].1, y[i].1))
            ==> model::same_json(Json::Object(x), Json::Object(y)),
{
    if model::same_json(Json::Object(x), Json::Object(y)) {
        assert forall|name: Seq<char>|
            match (#[trigger] model::lookup(x, name), model::lookup(y, name)) {
                (Some(v), Some(w)) => model::same_json(v, w),
                (None, None) => true,
                _ => false,
            } by {
            law_equal_objects_have_equal_members(x, y, name);
        }
    }
}

/// A name is looked up exactly by the first member that has it, and no other
/// value than an object has members.
pub proof fn law_lookup_is_the_first_of_the_name(
    members: Seq<(Seq<char>, Json)>,
    name: Seq<char>,
    found: Json,
    v: Json,
)
    ensures
        model::lookup(members, name) == Some(found) <==> exists|i: int|
            0 <= i < members.len() && #[trigger] members[i] == (name, found) && forall|j: int|
                0 <= j < i ==> (#[trigger] members[j]).0 != name,
        model::lookup(members, name) is None <==> forall|i: int|
            0 <= i < members.len() ==> (#[trigger] members[i]).0 != name,
        model::member(v, name) == match v {
            Json::Object(of_v) => model::lookup(of_v, name),
            _ => None,
        },
    decreases members.len(),
{
    if members.len() > 0 {
        let rest = members.skip(1);
        assert(forall|i: int| 0 <= i < rest.len() ==> #[trigger] rest[i] == members[i + 1]);
        assert(forall|i: int| 0 < i < members.len() ==> #[trigger] members[i] == rest[i - 1]);
        law_lookup_is_the_first_of_the_name(rest, name, found, v);
        if members[0].0 != name {
            if model::lookup(rest, name) == Some(found) {
                let i = choose|i: int|
                    0 <= i < rest.len() && #[trigger] rest[i] == (name, found) && forall|j: int|
                        0 <= j < i ==> (#[trigger] rest[j]).0 != name;
                assert(members[i + 1] == (name, found));
                assert forall|j: int| 0 <= j < i + 1 implies (#[trigger] members[j]).0 != name by {
                    if j > 0 {
                        assert(members[j] == rest[j - 1]);
                    }
                }
            }
            if exists|i: int|
                0 <= i < members.len() && #[trigger] members[i] == (name, found) && forall|j: int|
                    0 <= j < i ==> (#[trigger] members[j]).0 != name {
                let i = choose|i: int|
                    0 <= i < members.len() && #[trigger] members[i] == (name, found) && forall|j: int|
                        0 <= j < i ==> (#[trigger] members[j]).0 != name;
                assert(rest[i - 1] == (name, found));
                assert forall|j: int| 0 <= j < i - 1 implies (#[trigger] rest[j]).0 != name by {
                    assert(rest[j] == members[j + 1]);
                }
            }
        } else {
            assert(members[0] == (name, members[0].1));
            if exists|i: int|
                0 <= i < members.len() && #[trigger] members[i] == (name, found) && forall|j: int|
                    0 <= j < i ==> (#[trigger] members[j]).0 != name {
                let i = choose|i: int|
                    0 <= i < members.len() && #[trigger] members[i] == (name, found) && forall|j: int|
                        0 <= j < i ==> (#[trigger] members[j]).0 != name;
                assert(i == 0);
            }
        }
    }
}

/// The texts of values that hold no others.
pub proof fn law_text_of_plain_values(s: Seq<char>, n: u64, m: i64, d: DoubleModel, json: Seq<char>)
    ensures
        model::json_text(Json::Null) == "null"@,
        model::json_text(Json::Bool(true)) == "true"@,
        model::json_text(Json::Bool(false)) == "false"@,
        model::json_text(Json::Number(NumberModel::PosInt { value: n })) == text::decimal(n as nat),
        m < 0 ==> model::json_text(Json::Number(NumberModel::NegInt { negative: m })) == "-"@
            + text::decimal((-m) as nat),
        model::json_text(Json::Number(NumberModel::Float { double: d, json })) == json,
        model::json_text(Json::String(s)) == model::quoted(s),
{
    reveal_strlit("-");
    assert("-"@ =~= seq!['-']);
}

/// The text of an array: the first item follows the opening bracket, and each
/// further one a comma in place of the closing bracket.
pub proof fn law_text_of_arrays(items: Seq<Json>, v: Json)
    ensures
        model::json_text(Json::Array(Seq::empty())) == "[]"@,
        model::json_text(Json::Array(seq![v])) == "["@ + model::json_text(v) + "]"@,
        items.len() > 0 ==> model::json_text(Json::Array(items.push(v))) == model::json_text(
            Json::Array(items),
        ).drop_last() + ","@ + model::json_text(v) + "]"@,
{
    reveal_strlit("[");
    reveal_strlit("]");
    reveal_strlit("[]");
    let none = model::shown_items(Seq::empty());
    assert(none =~= Seq::<Seq<char>>::empty());
    assert(model::json_text(Json::Array(Seq::empty())) =~= "[]"@);
    assert(model::shown_items(seq![v]) =~= seq![model::json_text(v)]);
    if items.len() > 0 {
        let shown = model::shown_items(items);
        let more = model::shown_items(items.push(v));
        assert(more =~= shown.push(model::json_text(v)));
        assert(more.drop_last() =~= shown);
        let before = "["@ + text::joined(shown, ","@);
        assert(model::json_text(Json::Array(items)) == before + "]"@);
        assert((before + "]"@).drop_last() =~= before);
        assert(model::json_text(Json::Array(items.push(v))) =~= before + ","@ + model::json_text(v)
            + "]"@);
    }
}

/// The text of an object: each member is its name, a colon and its value, the
/// first follows the opening brace, and each further one a comma in place of the
/// closing brace.
pub proof fn law_text_of_objects(members: Seq<(Seq<char>, Json)>, name: Seq<char>, v: Json)
    ensures
        model::json_text(Json::Object(Seq::empty())) == "{}"@,
        model::json_text(Json::Object(seq![(name, v)])) == "{"@ + model::quoted(name) + ":"@
            + model::json_text(v) + "}"@,
        members.len() > 0 ==> model::json_text(Json::Object(members.push((name, v))))
            == model::json_text(Json::Object(members)).drop_last() + ","@ + model::quoted(name) + ":"@
            + model::json_text(v) + "}"@,
{
    reveal_strlit("{");
    reveal_strlit("}");
    reveal_strlit("{}");
    let one = model::quoted(name) + ":"@ + model::json_text(v);
    let none = model::shown_members(Seq::empty());
    assert(none =~= Seq::<Seq<char>>::empty());
    assert(model::json_text(Json::Object(Seq::empty())) =~= "{}"@);
    assert(model::shown_members(seq![(name, v)]) =~= seq![one]);
    assert(model::json_text(Json::Object(seq![(name, v)])) =~= "{"@ + one + "}"@);
    assert("{"@ + one + "}"@ =~= "{"@ + model::quoted(name) + ":"@ + model::json_text(v) + "}"@);
    if members.len() > 0 {
        let shown = model::shown_members(members);
        let more = model::shown_members(members.push((name, v)));
        assert(more =~= shown.push(one));
        assert(more.drop_last() =~= shown);
        let before = "{"@ + text::joined(shown, ","@);
        assert(model::json_text(Json::Object(members)) == before + "}"@);
        assert((before + "}"@).drop_last() =~= before);
        assert(model::json_text(Json::Object(members.push((name, v)))) =~= before + ","@ + one
            + "}"@);
        assert(before + ","@ + one + "}"@ =~= before + ","@ + model::quoted(name) + ":"@
            + model::json_text(v) + "}"@);
    }
}

/// A string stands between quotation marks, character by character: what is
/// quoted together is what is quoted apart.
pub proof fn law_quoting_texts(a: Seq<char>, b: Seq<char>)
    ensures
        model::quoted(Seq::empty()) == seq!['"', '"'],
        model::quoted(a + b) == model::quoted(a).drop_last() + model::quoted(b).skip(1),
    decreases b.len(),
{
    assert(model::quoted(Seq::empty()) =~= seq!['"', '"']);
    lemma_escaped_texts(a, b);
    assert(model::quoted(a).drop_last() =~= seq!['"'] + model::escaped_text(a));
    assert(model::quoted(b).skip(1) =~= model::escaped_text(b) + seq!['"']);
    assert(model::quoted(a + b) =~= model::quoted(a).drop_last() + model::quoted(b).skip(1));
}

/// Escaping two texts together is escaping them apart.
proof fn lemma_escaped_texts(a: Seq<char>, b: Seq<char>)
    ensures
        model::escaped_text(a + b) == model::escaped_text(a) + model::escaped_text(b),
    decreases b.len(),
{
    if b.len() == 0 {
        assert(a + b =~= a);
        assert(model::escaped_text(a) + model::escaped_text(b) =~= model::escaped_text(a));
    } else {
        assert((a + b).drop_last() =~= a + b.drop_last());
        lemma_escaped_texts(a, b.drop_last());
        assert(model::escaped_text(a + b) =~= model::escaped_text(a) + model::escaped_text(b));
    }
}

/// A character stands for itself, unless it is a quotation mark, a backslash or
/// a control character.
pub proof fn law_quoting_characters(c: char)
    ensures
        c != '"' && c != '\\' && c as u32 >= 32 ==> model::quoted(seq![c]) == seq!['"', c, '"'],
        c == '"' || c == '\\' ==> model::quoted(seq![c]) == seq!['"', '\\', c, '"'],
        c == '\n' ==> model::quoted(seq![c]) == seq!['"', '\\', 'n', '"'],
        c == '\r' ==> model::quoted(seq![c]) == seq!['"', '\\', 'r', '"'],
        c == '\t' ==> model::quoted(seq![c]) == seq!['"', '\\', 't', '"'],
        (c as u32) < 32 ==> model::quoted(seq![c])[1] == '\\',
{
    assert(seq![c].drop_last() =~= Seq::<char>::empty());
    assert(model::escaped_text(seq![c].drop_last()) =~= Seq::<char>::empty());
    assert(model::escaped_text(seq![c]) =~= model::escaped(c));
    assert(model::quoted(seq![c]) =~= seq!['"'] + model::escaped(c) + seq!['"']);
    if c != '"' && c != '\\' && c as u32 >= 32 {
        assert(model::quoted(seq![c]) =~= seq!['"', c, '"']);
    }
    if c == '"' || c == '\\' {
        assert(model::quoted(seq![c]) =~= seq!['"', '\\', c, '"']);
    }
    if c == '\n' {
        assert(model::quoted(seq![c]) =~= seq!['"', '\\', 'n', '"']);
    }
    if c == '\r' {
        assert(model::quoted(seq![c]) =~= seq!['"', '\\', 'r', '"']);
    }
    if c == '\t' {
        assert(model::quoted(seq![c]) =~= seq!['"', '\\', 't', '"']);
    }
}

}
