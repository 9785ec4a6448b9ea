//! Paths into a JSON value, such as `artifact.url` or `$.items.0`.

use crate::json::model;
use crate::json::model::Json;
use crate::json::value;
use crate::json::Value;
use crate::text;
use crate::text::{chars_of, parse_number};
use vstd::prelude::*;
use vstd::string::*;

verus! {

/// The path without the `$.` that it starts with, however often.
pub open spec fn without_root(path: Seq<char>) -> Seq<char>
    decreases path.len(),
{
    if path.len() >= 2 && path[0] == '$' && path[1] == '.' {
        without_root(path.skip(2))
    } else {
        path
    }
}

/// The position of the first dot, or the length where there is none.
pub open spec fn first_dot(path: Seq<char>) -> int
    decreases path.len(),
{
    if path.len() == 0 || path[0] == '.' {
        0
    } else {
        1 + first_dot(path.skip(1))
    }
}

/// The parts of the path between its dots.
pub open spec fn segments(path: Seq<char>) -> Seq<Seq<char>>
    decreases path.len(),
{
    let dot = first_dot(path);
    if 0 <= dot < path.len() {
        seq![path.take(dot)] + segments(path.skip(dot + 1))
    } else {
        seq![path]
    }
}

/// One step into a value: the member of that name of an object, or the item at
/// that position of an array.
pub open spec fn step(v: Json, segment: Seq<char>) -> Option<Json> {
    match v {
        Json::Object(members) => model::lookup(members, segment),
        Json::Array(items) => match text::parsed_number(segment, usize::MAX as nat) {
            Some(i) => if i < items.len() {
                Some(items[i as int])
            } else {
                None
            },
            None => None,
        },
        _ => None,
    }
}

/// The value that the steps lead to.
pub open spec fn walk(v: Json, steps: Seq<Seq<char>>) -> Option<Json>
    decreases steps.len(),
{
    if steps.len() == 0 {
        Some(v)
    } else {
        match step(v, steps[0]) {
            Some(next) => walk(next, steps.skip(1)),
            None => None,
        }
    }
}

/// The value that a path leads to from the root. The empty path and `$` lead
/// to the root itself.
pub open spec fn resolved(root: Json, path: Seq<char>) -> Option<Json> {
    if path.len() == 0 || path == "$"@ {
        Some(root)
    } else {
        walk(root, segments(without_root(path)))
    }
}

/// One step into a value.
fn step_into<'a>(value: &'a Value, segment: &str) -> (next: Option<&'a Value>)
    ensures
        match next {
            Some(v) => step(value@, segment@) == Some(v@),
            None => step(value@, segment@) is None,
        },
{
    match value {
        Value::Object(object) => object.get(segment),
        Value::Array(items) => {
            assert(value@->Array_0 =~= value::models(items@));
            match parse_number(segment, usize::MAX as u64) {
                Some(i) => if i < items.len() as u64 {
                    Some(&items[i as usize])
                } else {
                    None
                },
                None => None,
            }
        },
        _ => None,
    }
}

/// Finds the value that a path leads to.
pub fn resolve_field<'a>(root: &'a Value, field: &str) -> (found: Option<&'a Value>)
    ensures
        match found {
            Some(v) => resolved(root@, field@) == Some(v@),
            None => resolved(root@, field@) is None,
        },
{
    proof {
        reveal_strlit("$");
    }
    let chars: Vec<char> = chars_of(field);
    if chars.len() == 0 || (chars.len() == 1 && chars[0] == '$') {
        assert(chars.len() == 1 ==> field@ == "$"@);
        return Some(root);
    }
    assert(field@ != "$"@) by {
        if field@ == "$"@ {
            assert(chars@[0] == '$');
        }
    }
    let n: usize = chars.len();
    let mut start: usize = 0;
    assert(chars@.skip(0) == chars@);
    while n - start >= 2 && chars[start] == '$' && chars[start + 1] == '.'
        invariant
            n == chars@.len(),
            start <= n,
            without_root(chars@) == without_root(chars@.skip(start as int)),
        decreases n - start,
    {
        assert(chars@.skip(start as int).skip(2) == chars@.skip(start + 2));
        start = start + 2;
    }
    assert(without_root(chars@) == chars@.skip(start as int));
    let mut value: &'a Value = root;
    loop
        invariant
            n == chars@.len(),
            chars@ == field@,
            start <= n,
            resolved(root@, field@) == walk(value@, segments(chars@.skip(start as int))),
        decreases n - start,
    {
        let ghost rest = chars@.skip(start as int);
        let mut end: usize = start;
        assert(rest.skip(0) == rest);
        while end < n && chars[end] != '.'
            invariant
                n == chars@.len(),
                start <= end <= n,
                rest == chars@.skip(start as int),
                first_dot(rest) == end - start + first_dot(rest.skip(end - start)),
            decreases n - end,
        {
            assert(rest.skip(end - start).skip(1) == rest.skip(end + 1 - start));
            end = end + 1;
        }
        assert(first_dot(rest) == end - start);
        let segment: &str = field.substring_char(start, end);
        assert(segment@ == rest.take(end - start));
        match step_into(value, segment) {
            Some(next) => {
                value = next;
            },
            None => {
                return None;
            },
        }
        if end == n {
            assert(rest.take(end - start) == rest);
            assert(segments(rest).skip(1) =~= Seq::<Seq<char>>::empty());
            assert(walk(value@, segments(rest).skip(1)) == Some(value@));
            return Some(value);
        }
        assert(rest.skip(end - start + 1) == chars@.skip(end + 1));
        assert(segments(rest).skip(1) =~= segments(chars@.skip(end + 1)));
        start = end + 1;
    }
}

}
