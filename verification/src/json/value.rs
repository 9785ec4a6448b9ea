//! JSON values and objects.

use super::model;
use super::model::Json;
use super::number::Number;
use crate::text;
use crate::text::{is_before, same_text};
use vstd::prelude::*;
use vstd::string::*;

verus! {

/// A JSON value.
#[derive(Debug)]
pub enum Value {
    Null,
    Bool(bool),
    Number(Number),
    String(String),
    Array(Vec<Value>),
    Object(Object),
}

/// The members of a JSON object, each name once, in the order of the names.
#[derive(Debug)]
pub struct Object {
    members: Vec<(String, Value)>,
}

/// What the items of an array are.
pub open spec fn models(items: Seq<Value>) -> Seq<Json> {
    items.map_values(|v: Value| v.model())
}

impl Value {
    /// What the value is.
    pub open spec fn model(self) -> Json
        decreases self,
    {
        match self {
            Value::Null => Json::Null,
            Value::Bool(b) => Json::Bool(b),
            Value::Number(n) => Json::Number(n.model()),
            Value::String(s) => Json::String(s@),
            Value::Array(items) => Json::Array(
                Seq::new(
                    items@.len(),
                    |i: int|
                        if 0 <= i < items@.len() {
                            items@[i].model()
                        } else {
                            Json::Null
                        },
                ),
            ),
            Value::Object(object) => Json::Object(object.model()),
        }
    }
}

impl View for Value {
    type V = Json;

    open spec fn view(&self) -> Json {
        self.model()
    }
}

/// What a list of members is.
spec fn entries(members: Seq<(String, Value)>) -> Seq<(Seq<char>, Json)> {
    members.map_values(|m: (String, Value)| (m.0@, m.1.model()))
}

impl Object {
    /// What the members are.
    pub closed spec fn model(self) -> Seq<(Seq<char>, Json)>
        decreases self,
    {
        Seq::new(
            self.members@.len(),
            |i: int|
                if 0 <= i < self.members@.len() {
                    (self.members@[i].0@, self.members@[i].1.model())
                } else {
                    (Seq::empty(), Json::Null)
                },
        )
    }

    #[verifier::type_invariant]
    spec fn names_ascend(self) -> bool {
        model::ascending(self.model())
    }

    /// An object without members.
    pub fn new() -> (object: Object)
        ensures
            object.model() == Seq::<(Seq<char>, Json)>::empty(),
    {
        let object = Object { members: Vec::new() };
        object
    }

    /// The number of members.
    pub fn len(&self) -> (n: usize)
        ensures
            n == self.model().len(),
            model::ascending(self.model()),
    {
        proof {
            use_type_invariant(self);
        }
        self.members.len()
    }

    /// Whether there are no members.
    pub fn is_empty(&self) -> (r: bool)
        ensures
            r == (self.model().len() == 0),
    {
        self.members.len() == 0
    }

    /// The name of a member.
    pub fn name_at(&self, i: usize) -> (name: &str)
        requires
            i < self.model().len(),
        ensures
            name@ == self.model()[i as int].0,
    {
        self.members[i].0.as_str()
    }

    /// The value of a member.
    pub fn value_at(&self, i: usize) -> (value: &Value)
        requires
            i < self.model().len(),
        ensures
            value@ == self.model()[i as int].1,
            decreases_to!(self => value),
    {
        &self.members[i].1
    }

    /// The value of the member of that name.
    pub fn get(&self, name: &str) -> (value: Option<&Value>)
        ensures
            match value {
                Some(v) => model::lookup(self.model(), name@) == Some(v@) && decreases_to!(self => v),
                None => model::lookup(self.model(), name@) is None,
            },
    {
        let ghost all = self.model();
        let mut i: usize = 0;
        assert(all.skip(0) == all);
        while i < self.members.len()
            invariant
                i <= self.members@.len(),
                all == self.model(),
                model::lookup(all, name@) == model::lookup(all.skip(i as int), name@),
            decreases self.members@.len() - i,
        {
            assert(all.skip(i as int)[0] == all[i as int]);
            if same_text(self.members[i].0.as_str(), name) {
                return Some(&self.members[i].1);
            }
            assert(all.skip(i as int).skip(1) == all.skip(i + 1));
            i = i + 1;
        }
        None
    }

    /// Whether there is a member of that name.
    pub fn contains_key(&self, name: &str) -> (r: bool)
        ensures
            r == (model::lookup(self.model(), name@) is Some),
    {
        self.get(name).is_some()
    }

    /// Puts a member in, in place of the one of that name if there is one.
    pub fn insert(&mut self, name: String, value: Value)
        ensures
            model::ascending(final(self).model()),
            forall|k: Seq<char>| #[trigger]
                model::lookup(final(self).model(), k) == if k == name@ {
                    Some(value@)
                } else {
                    model::lookup(old(self).model(), k)
                },
    {
        proof {
            use_type_invariant(&*self);
        }
        let ghost before = self.model();
        let mut at: usize = 0;
        while at < self.members.len() && is_before(self.members[at].0.as_str(), name.as_str())
            invariant
                at <= self.members@.len(),
                before == self.model(),
                forall|i: int| 0 <= i < at ==> text::before((#[trigger] before[i]).0, name@),
            decreases self.members@.len() - at,
        {
            assert(before[at as int].0 == self.members@[at as int].0@);
            at = at + 1;
        }
        let mut members: Vec<(String, Value)> = Vec::new();
        std::mem::swap(&mut members, &mut self.members);
        assert(entries(members@) == before);
        let ghost new = (name@, value@);
        if at < members.len() && same_text(members[at].0.as_str(), name.as_str()) {
            proof {
                assert(before[at as int].0 == members@[at as int].0@);
                model::lemma_replaced(before, at as int, new);
            }
            members[at] = (name, value);
            assert(entries(members@) == before.update(at as int, new));
        } else {
            proof {
                assert forall|i: int| at <= i < before.len() implies text::before(
                    name@,
                    (#[trigger] before[i]).0,
                ) by {
                    assert(before[at as int].0 == members@[at as int].0@);
                    text::lemma_before_total(before[at as int].0, name@);
                    if i > at {
                        text::lemma_before_transitive(name@, before[at as int].0, before[i].0);
                    }
                }
                model::lemma_inserted(before, at as int, new);
            }
            members.insert(at, (name, value));
            assert(entries(members@) == before.insert(at as int, new));
        }
        assert((Object { members }).model() == entries(members@));
        self.members = members;
    }
}

impl Value {
    /// The value of the member of that name, where this is an object that has it.
    pub fn get(&self, name: &str) -> (value: Option<&Value>)
        ensures
            match value {
                Some(v) => model::member(self@, name@) == Some(v@) && decreases_to!(self => v),
                None => model::member(self@, name@) is None,
            },
    {
        match self {
            Value::Object(object) => object.get(name),
            _ => None,
        }
    }

    /// The text, where this is a string.
    pub fn as_str(&self) -> (s: Option<&str>)
        ensures
            match s {
                Some(s) => self@ == Json::String(s@),
                None => !(self@ is String),
            },
    {
        match self {
            Value::String(s) => Some(s.as_str()),
            _ => None,
        }
    }

    /// The truth value, where this is one.
    pub fn as_bool(&self) -> (b: Option<bool>)
        ensures
            match b {
                Some(b) => self@ == Json::Bool(b),
                None => !(self@ is Bool),
            },
    {
        match self {
            Value::Bool(b) => Some(*b),
            _ => None,
        }
    }

    /// The items, where this is an array.
    pub fn as_array(&self) -> (items: Option<&Vec<Value>>)
        ensures
            match items {
                Some(items) => self@ == Json::Array(models(items@)) && decreases_to!(self => items),
                None => !(self@ is Array),
            },
    {
        match self {
            Value::Array(items) => {
                assert(self@->Array_0 == models(items@));
                Some(items)
            },
            _ => None,
        }
    }

    /// The members, where this is an object.
    pub fn as_object(&self) -> (object: Option<&Object>)
        ensures
            match object {
                Some(o) => self@ == Json::Object(o.model()) && decreases_to!(self => o),
                None => !(self@ is Object),
            },
    {
        match self {
            Value::Object(object) => Some(object),
            _ => None,
        }
    }

    /// Whether two values are equal.
    pub fn equals(&self, other: &Value) -> (r: bool)
        ensures
            r == model::same_json(self@, other@),
        decreases self,
    {
        match (self, other) {
            (Value::Null, Value::Null) => true,
            (Value::Bool(x), Value::Bool(y)) => *x == *y,
            (Value::Number(x), Value::Number(y)) => x.equals(y),
            (Value::String(x), Value::String(y)) => same_text(x.as_str(), y.as_str()),
            (Value::Array(x), Value::Array(y)) => {
                assert(self@->Array_0 == models(x@));
                assert(other@->Array_0 == models(y@));
                if x.len() != y.len() {
                    return false;
                }
                let mut i: usize = 0;
                while i < x.len()
                    invariant
                        i <= x@.len(),
                        x@.len() == y@.len(),
                        decreases_to!(self => x),
                        forall|j: int|
                            0 <= j < i ==> model::same_json((#[trigger] x@[j]).model(), y@[j].model()),
                        self@ == Json::Array(models(x@)),
                        other@ == Json::Array(models(y@)),
                    decreases x@.len() - i,
                {
                    if !x[i].equals(&y[i]) {
                        assert(!model::same_json(models(x@)[i as int], models(y@)[i as int]));
                        return false;
                    }
                    i = i + 1;
                }
                true
            },
            (Value::Object(x), Value::Object(y)) => {
                if x.len() != y.len() {
                    return false;
                }
                let mut i: usize = 0;
                while i < x.len()
                    invariant
                        i <= x.model().len(),
                        x.model().len() == y.model().len(),
                        decreases_to!(self => x),
                        forall|j: int|
                            0 <= j < i ==> (#[trigger] x.model()[j]).0 == y.model()[j].0
                                && model::same_json(x.model()[j].1, y.model()[j].1),
                        self@ == Json::Object(x.model()),
                        other@ == Json::Object(y.model()),
                    decreases x.model().len() - i,
                {
                    if !same_text(x.name_at(i), y.name_at(i)) || !x.value_at(i).equals(
                        y.value_at(i),
                    ) {
                        assert(!(x.model()[i as int].0 == y.model()[i as int].0 && model::same_json(
                            x.model()[i as int].1,
                            y.model()[i as int].1,
                        )));
                        return false;
                    }
                    i = i + 1;
                }
                true
            },
            _ => false,
        }
    }

    /// Appends the value as compact JSON text.
    pub fn push_text(&self, out: &mut String)
        ensures
            final(out)@ == old(out)@ + model::json_text(self@),
        decreases self,
    {
        let ghost start = out@;
        match self {
            Value::Null => out.append("null"),
            Value::Bool(b) => if *b {
                out.append("true")
            } else {
                out.append("false")
            },
            Value::Number(n) => n.push_text(out),
            Value::String(s) => {
                let q: String = quote(s.as_str());
                out.append(q.as_str());
            },
            Value::Array(items) => {
                out.append("[");
                let ghost parts = Seq::new(
                    items@.len(),
                    |i: int| model::json_text(items@[i].model()),
                );
                let mut i: usize = 0;
                while i < items.len()
                    invariant
                        i <= items@.len(),
                        decreases_to!(self => items),
                        parts == Seq::new(
                            items@.len(),
                            |i: int| model::json_text(items@[i].model()),
                        ),
                        out@ == start + "["@ + text::joined(parts.take(i as int), ","@),
                    decreases items@.len() - i,
                {
                    if i > 0 {
                        out.append(",");
                    }
                    items[i].push_text(out);
                    proof {
                        text::lemma_joined_next(parts, i as int, ","@);
                    }
                    assert(out@ =~= start + "["@ + text::joined(parts.take(i + 1), ","@));
                    i = i + 1;
                }
                out.append("]");
                proof {
                    assert(parts.take(items@.len() as int) == parts);
                    let shown = model::shown_items(self@->Array_0);
                    assert(shown == parts);
                }
                assert(out@ =~= start + model::json_text(self@));
            },
            Value::Object(object) => {
                out.append("{");
                let ghost parts = model::shown_members(object.model());
                let mut i: usize = 0;
                while i < object.len()
                    invariant
                        i <= object.model().len(),
                        decreases_to!(self => object),
                        parts == model::shown_members(object.model()),
                        out@ == start + "{"@ + text::joined(parts.take(i as int), ","@),
                    decreases object.model().len() - i,
                {
                    if i > 0 {
                        out.append(",");
                    }
                    let q: String = quote(object.name_at(i));
                    out.append(q.as_str());
                    out.append(":");
                    object.value_at(i).push_text(out);
                    proof {
                        text::lemma_joined_next(parts, i as int, ","@);
                    }
                    assert(out@ =~= start + "{"@ + text::joined(parts.take(i + 1), ","@));
                    i = i + 1;
                }
                out.append("}");
                assert(parts.take(object.model().len() as int) == parts);
                assert(out@ =~= start + model::json_text(self@));
            },
        }
    }

    /// The value as compact JSON text.
    pub fn to_text(&self) -> (s: String)
        ensures
            s@ == model::json_text(self@),
    {
        let mut s: String = String::new();
        self.push_text(&mut s);
        assert(s@ == model::json_text(self@));
        s
    }
}

/// `serde_json` writes a string value as a quotation mark, the characters of
/// the string with quotation marks, backslashes and control characters
/// escaped, and a quotation mark.
#[verifier::external_body]
fn quote(s: &str) -> (q: String)
    ensures
        q@ == model::quoted(s@),
{
    serde_json::Value::from(s).to_string()
}

/// A copy of a value. What is copied is put together as JSON values are.
fn copy_of(value: &Value) -> (copy: Value)
    ensures
        copy@ == value@,
        model::json_ok(value@),
    decreases value,
{
    match value {
        Value::Null => Value::Null,
        Value::Bool(b) => Value::Bool(*b),
        Value::Number(n) => Value::Number(n.clone()),
        Value::String(s) => Value::String(s.clone()),
        Value::Array(items) => {
            let mut copies: Vec<Value> = Vec::new();
            let mut i: usize = 0;
            while i < items.len()
                invariant
                    i <= items@.len(),
                    decreases_to!(value => items),
                    models(copies@) == models(items@).take(i as int),
                    forall|j: int| 0 <= j < i ==> model::json_ok(#[trigger] models(items@)[j]),
                decreases items@.len() - i,
            {
                let copy: Value = copy_of(&items[i]);
                let ghost so_far = copies@;
                copies.push(copy);
                assert(models(copies@) =~= models(so_far).push(models(items@)[i as int]));
                assert(models(copies@) =~= models(items@).take(i + 1));
                i = i + 1;
            }
            let copy = Value::Array(copies);
            proof {
                assert(models(items@).take(items@.len() as int) =~= models(items@));
                assert(copy@->Array_0 =~= models(copies@));
                assert(value@->Array_0 =~= models(items@));
            }
            copy
        },
        Value::Object(object) => {
            let mut members: Vec<(String, Value)> = Vec::new();
            let mut i: usize = 0;
            while i < object.members.len()
                invariant
                    i <= object.members@.len(),
                    decreases_to!(value => object),
                    entries(members@) == entries(object.members@).take(i as int),
                    forall|j: int|
                        0 <= j < i ==> model::json_ok((#[trigger] entries(object.members@)[j]).1),
                decreases object.members@.len() - i,
            {
                let copy: Value = copy_of(&object.members[i].1);
                let ghost so_far = members@;
                members.push((object.members[i].0.clone(), copy));
                assert(entries(members@) =~= entries(so_far).push(entries(object.members@)[i as int]));
                assert(entries(members@) =~= entries(object.members@).take(i + 1));
                i = i + 1;
            }
            proof {
                use_type_invariant(object);
                assert(entries(object.members@).take(object.members@.len() as int) =~= entries(
                    object.members@,
                ));
                assert((Object { members }).model() =~= entries(members@));
                assert(object.model() =~= entries(object.members@));
            }
            Value::Object(Object { members })
        },
    }
}

impl Clone for Value {
    fn clone(&self) -> (copy: Self)
        ensures
            copy@ == self@,
            model::json_ok(self@),
    {
        copy_of(self)
    }
}

impl PartialEq for Value {
    fn eq(&self, other: &Self) -> (r: bool) {
        self.equals(other)
    }
}

impl vstd::std_specs::cmp::PartialEqSpecImpl for Value {
    open spec fn obeys_eq_spec() -> bool {
        true
    }

    open spec fn eq_spec(&self, other: &Self) -> bool {
        model::same_json(self@, other@)
    }
}

}
