//! What JSON values are: the mathematical values behind [`Value`](super::Value),
//! with their equality, their members and their compact text.

use crate::double;
use crate::double::DoubleModel;
use crate::text;
use vstd::prelude::*;

verus! {

/// A JSON number. One that is no integer comes with its JSON text.
pub enum NumberModel {
    PosInt { value: u64 },
    NegInt { negative: i64 },
    Float { double: DoubleModel, json: Seq<char> },
}

/// A JSON value. The members of an object stand in the order of their names.
pub enum Json {
    Null,
    Bool(bool),
    Number(NumberModel),
    String(Seq<char>),
    Array(Seq<Json>),
    Object(Seq<(Seq<char>, Json)>),
}

/// Whether the parts of a number fit together: only negative numbers are held
/// as such, and infinities and NaNs are no JSON numbers.
pub open spec fn number_ok(n: NumberModel) -> bool {
    match n {
        NumberModel::PosInt { .. } => true,
        NumberModel::NegInt { negative } => negative < 0,
        NumberModel::Float { double, .. } => double::is_finite(double.bits),
    }
}

/// Whether the number is an integer.
pub open spec fn is_integer(n: NumberModel) -> bool {
    !(n is Float)
}

/// The double that the number is rounded to.
pub open spec fn number_double(n: NumberModel) -> u64 {
    match n {
        NumberModel::PosInt { value } => double::nearest_double(value as int),
        NumberModel::NegInt { negative } => double::nearest_double(negative as int),
        NumberModel::Float { double, .. } => double.bits,
    }
}

/// The decimal text of the double that an integer is rounded to.
pub uninterp spec fn rounded_display(value: i128) -> Seq<char>;

/// The decimal text of the double that the number is rounded to.
pub open spec fn number_display(n: NumberModel) -> Seq<char> {
    match n {
        NumberModel::PosInt { value } => rounded_display(value as i128),
        NumberModel::NegInt { negative } => rounded_display(negative as i128),
        NumberModel::Float { double, .. } => double.display,
    }
}

/// The number as JSON text.
pub open spec fn number_text(n: NumberModel) -> Seq<char> {
    match n {
        NumberModel::PosInt { value } => text::decimal(value as nat),
        NumberModel::NegInt { negative } => text::signed_decimal(negative as int),
        NumberModel::Float { json, .. } => json,
    }
}

/// Whether two numbers are equal. An integer never equals a number that was
/// written with a fraction or an exponent.
pub open spec fn same_number(a: NumberModel, b: NumberModel) -> bool {
    match (a, b) {
        (NumberModel::PosInt { value: x }, NumberModel::PosInt { value: y }) => x == y,
        (NumberModel::NegInt { negative: x }, NumberModel::NegInt { negative: y }) => x == y,
        (NumberModel::Float { double: x, .. }, NumberModel::Float { double: y, .. }) => double::same_double(
            x.bits,
            y.bits,
        ),
        _ => false,
    }
}

/// Whether the names of an object's members ascend, so that none occurs twice.
pub open spec fn ascending(members: Seq<(Seq<char>, Json)>) -> bool {
    forall|i: int, j: int|
        0 <= i < j < members.len() ==> text::before((#[trigger] members[i]).0, (#[trigger] members[j]).0)
}

/// Whether a value is put together as JSON values are.
pub open spec fn json_ok(v: Json) -> bool
    decreases v,
{
    match v {
        Json::Number(n) => number_ok(n),
        Json::Array(items) => forall|i: int| 0 <= i < items.len() ==> json_ok(#[trigger] items[i]),
        Json::Object(members) => ascending(members) && forall|i: int|
            0 <= i < members.len() ==> json_ok((#[trigger] members[i]).1),
        _ => true,
    }
}

/// The value of the first member of that name.
pub open spec fn lookup(members: Seq<(Seq<char>, Json)>, name: Seq<char>) -> Option<Json>
    decreases members.len(),
{
    if members.len() == 0 {
        None
    } else if members[0].0 == name {
        Some(members[0].1)
    } else {
        lookup(members.skip(1), name)
    }
}

/// The value of the member of that name, where `v` is an object that has it.
pub open spec fn member(v: Json, name: Seq<char>) -> Option<Json> {
    match v {
        Json::Object(members) => lookup(members, name),
        _ => None,
    }
}

/// Whether two values are equal.
pub open spec fn same_json(a: Json, b: Json) -> bool
    decreases a,
{
    match (a, b) {
        (Json::Null, Json::Null) => true,
        (Json::Bool(x), Json::Bool(y)) => x == y,
        (Json::Number(x), Json::Number(y)) => same_number(x, y),
        (Json::String(x), Json::String(y)) => x == y,
        (Json::Array(x), Json::Array(y)) => x.len() == y.len() && forall|i: int|
            0 <= i < x.len() ==> same_json(#[trigger] x[i], y[i]),
        (Json::Object(x), Json::Object(y)) => x.len() == y.len() && forall|i: int|
            0 <= i < x.len() ==> (#[trigger] x[i]).0 == y[i].0 && same_json(x[i].1, y[i].1),
        _ => false,
    }
}

/// A hexadecimal digit.
pub open spec fn hex_digit(d: int) -> char {
    if d < 10 {
        (48 + d) as char
    } else {
        (87 + d) as char
    }
}

/// A character as it stands inside a JSON string.
pub open spec fn escaped(c: char) -> Seq<char> {
    if c == '"' {
        seq!['\\', '"']
    } else if c == '\\' {
        seq!['\\', '\\']
    } else if c == '\n' {
        seq!['\\', 'n']
    } else if c == '\r' {
        seq!['\\', 'r']
    } else if c == '\t' {
        seq!['\\', 't']
    } else if c as u32 == 8 {
        seq!['\\', 'b']
    } else if c as u32 == 12 {
        seq!['\\', 'f']
    } else if (c as u32) < 32 {
        seq!['\\', 'u', '0', '0', hex_digit(c as int / 16), hex_digit(c as int % 16)]
    } else {
        seq![c]
    }
}

/// A text as it stands inside a JSON string.
pub open spec fn escaped_text(s: Seq<char>) -> Seq<char>
    decreases s.len(),
{
    if s.len() == 0 {
        Seq::empty()
    } else {
        escaped_text(s.drop_last()) + escaped(s.last())
    }
}

/// A text as a JSON string.
pub open spec fn quoted(s: Seq<char>) -> Seq<char> {
    seq!['"'] + escaped_text(s) + seq!['"']
}

/// A value as compact JSON text.
pub open spec fn json_text(v: Json) -> Seq<char>
    decreases v, 1nat,
{
    match v {
        Json::Null => "null"@,
        Json::Bool(b) => if b {
            "true"@
        } else {
            "false"@
        },
        Json::Number(n) => number_text(n),
        Json::String(s) => quoted(s),
        Json::Array(items) => "["@ + text::joined(shown_items(items), ","@) + "]"@,
        Json::Object(members) => "{"@ + text::joined(shown_members(members), ","@) + "}"@,
    }
}

/// The items of an array as compact JSON texts.
pub open spec fn shown_items(items: Seq<Json>) -> Seq<Seq<char>>
    decreases items, 0nat,
{
    Seq::new(
        items.len(),
        |i: int|
            if 0 <= i < items.len() {
                json_text(items[i])
            } else {
                Seq::empty()
            },
    )
}

/// The members of an object as compact JSON texts.
pub open spec fn shown_members(members: Seq<(Seq<char>, Json)>) -> Seq<Seq<char>>
    decreases members, 0nat,
{
    Seq::new(
        members.len(),
        |i: int|
            if 0 <= i < members.len() {
                quoted(members[i].0) + ":"@ + json_text(members[i].1)
            } else {
                Seq::empty()
            },
    )
}

/// In an object whose names ascend, a member is what a lookup of its name finds.
pub proof fn lemma_lookup_finds(members: Seq<(Seq<char>, Json)>, i: int)
    requires
        ascending(members),
        0 <= i < members.len(),
    ensures
        lookup(members, members[i].0) == Some(members[i].1),
    decreases members.len(),
{
    if i > 0 {
        assert(text::before(members[0].0, members[i].0));
        text::lemma_before_total(members[0].0, members[i].0);
        let rest = members.skip(1);
        assert forall|a: int, b: int| 0 <= a < b < rest.len() implies text::before(
            (#[trigger] rest[a]).0,
            (#[trigger] rest[b]).0,
        ) by {
            assert(text::before(members[a + 1].0, members[b + 1].0));
        }
        lemma_lookup_finds(rest, i - 1);
    }
}

/// What a lookup finds is one of the members; where it finds none, no member
/// has that name.
pub proof fn lemma_lookup(members: Seq<(Seq<char>, Json)>, name: Seq<char>)
    ensures
        match lookup(members, name) {
            Some(v) => exists|i: int| 0 <= i < members.len() && #[trigger] members[i] == (name, v),
            None => forall|i: int| 0 <= i < members.len() ==> (#[trigger] members[i]).0 != name,
        },
    decreases members.len(),
{
    if members.len() > 0 && members[0].0 != name {
        let rest = members.skip(1);
        lemma_lookup(rest, name);
        match lookup(rest, name) {
            Some(v) => {
                let i = choose|i: int| 0 <= i < rest.len() && #[trigger] rest[i] == (name, v);
                assert(members[i + 1] == (name, v));
            },
            None => {
                assert forall|i: int| 0 <= i < members.len() implies (#[trigger] members[i]).0
                    != name by {
                    if i > 0 {
                        assert(rest[i - 1] == members[i]);
                    }
                }
            },
        }
    } else if members.len() > 0 {
        assert(members[0] == (name, members[0].1));
    }
}

/// What a lookup finds is a part of the object.
pub proof fn lemma_lookup_decreases(members: Seq<(Seq<char>, Json)>, name: Seq<char>)
    ensures
        lookup(members, name) matches Some(v) ==> decreases_to!(members => v),
{
    lemma_lookup(members, name);
    if let Some(v) = lookup(members, name) {
        let i = choose|i: int| 0 <= i < members.len() && #[trigger] members[i] == (name, v);
        assert(decreases_to!(members => members[i]));
        assert(decreases_to!(members[i] => members[i].1));
    }
}

/// Putting a member in the place of the one of the same name.
pub proof fn lemma_replaced(members: Seq<(Seq<char>, Json)>, at: int, new: (Seq<char>, Json))
    requires
        ascending(members),
        0 <= at < members.len(),
        members[at].0 == new.0,
    ensures
        ascending(members.update(at, new)),
        forall|k: Seq<char>| #[trigger]
            lookup(members.update(at, new), k) == if k == new.0 {
                Some(new.1)
            } else {
                lookup(members, k)
            },
{
    let after = members.update(at, new);
    assert forall|i: int, j: int| 0 <= i < j < after.len() implies text::before(
        (#[trigger] after[i]).0,
        (#[trigger] after[j]).0,
    ) by {
        assert(text::before(members[i].0, members[j].0));
    }
    lemma_lookup_finds(after, at);
    assert forall|k: Seq<char>| k != new.0 implies #[trigger] lookup(after, k) == lookup(
        members,
        k,
    ) by {
        lemma_lookup(after, k);
        lemma_lookup(members, k);
        if let Some(v) = lookup(members, k) {
            let i = choose|i: int| 0 <= i < members.len() && #[trigger] members[i] == (k, v);
            assert(after[i] == (k, v));
            lemma_lookup_finds(after, i);
        } else if let Some(v) = lookup(after, k) {
            let i = choose|i: int| 0 <= i < after.len() && #[trigger] after[i] == (k, v);
            assert(members[i] == (k, v));
        }
    }
}

/// Putting a new member where its name belongs.
pub proof fn lemma_inserted(members: Seq<(Seq<char>, Json)>, at: int, new: (Seq<char>, Json))
    requires
        ascending(members),
        0 <= at <= members.len(),
        forall|i: int| 0 <= i < at ==> text::before((#[trigger] members[i]).0, new.0),
        forall|i: int| at <= i < members.len() ==> text::before(new.0, (#[trigger] members[i]).0),
    ensures
        ascending(members.insert(at, new)),
        forall|k: Seq<char>| #[trigger]
            lookup(members.insert(at, new), k) == if k == new.0 {
                Some(new.1)
            } else {
                lookup(members, k)
            },
{
    let after = members.insert(at, new);
    assert forall|i: int, j: int| 0 <= i < j < after.len() implies text::before(
        (#[trigger] after[i]).0,
        (#[trigger] after[j]).0,
    ) by {
        let a = if i < at { i } else { i - 1 };
        let b = if j < at { j } else { j - 1 };
        if i != at && j != at {
            assert(after[i] == members[a] && after[j] == members[b]);
            assert(text::before(members[a].0, members[b].0));
        } else if i == at {
            assert(after[j] == members[b]);
        } else {
            assert(after[i] == members[a]);
        }
    }
    assert(after[at] == new);
    lemma_lookup_finds(after, at);
    assert forall|k: Seq<char>| k != new.0 implies #[trigger] lookup(after, k) == lookup(
        members,
        k,
    ) by {
        lemma_lookup(after, k);
        lemma_lookup(members, k);
        if let Some(v) = lookup(members, k) {
            let i = choose|i: int| 0 <= i < members.len() && #[trigger] members[i] == (k, v);
            let j = if i < at { i } else { i + 1 };
            assert(after[j] == (k, v));
            lemma_lookup_finds(after, j);
        } else if let Some(v) = lookup(after, k) {
            let j = choose|j: int| 0 <= j < after.len() && #[trigger] after[j] == (k, v);
            let i = if j < at { j } else { j - 1 };
            assert(members[i] == (k, v));
        }
    }
}

/// A member is a part of the object.
pub proof fn lemma_member_decreases(v: Json, name: Seq<char>)
    ensures
        member(v, name) matches Some(m) ==> decreases_to!(v => m),
{
    if let Json::Object(members) = v {
        lemma_lookup_decreases(members, name);
        assert(decreases_to!(v => members));
    }
}

}
