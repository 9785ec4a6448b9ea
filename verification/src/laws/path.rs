//! Laws of paths into JSON values.

use crate::json::model;
use crate::json::model::Json;
use crate::laws::json as json_laws;
use crate::laws::text as text_laws;
use crate::path;
use crate::text;
use vstd::prelude::*;
use vstd::string::*;

verus! {

/// A leading `$.` makes no difference, except before the two paths that stand
/// for the root.
pub proof fn law_root_prefix(root: Json, p: Seq<char>)
    requires
        p.len() > 0,
        p != "$"@,
    ensures
        path::resolved(root, "$."@ + p) == path::resolved(root, p),
{
    reveal_strlit("$");
    reveal_strlit("$.");
    let long = "$."@ + p;
    assert(long.skip(2) =~= p);
    assert(long.len() != "$"@.len());
}

/// Walking along two rows of steps is walking along the first and from there
/// along the second.
pub proof fn law_walk_in_two_parts(v: Json, first: Seq<Seq<char>>, second: Seq<Seq<char>>)
    ensures
        path::walk(v, first + second) == match path::walk(v, first) {
            Some(w) => path::walk(w, second),
            None => None,
        },
    decreases first.len(),
{
    if first.len() == 0 {
        assert(first + second =~= second);
    } else {
        assert((first + second).skip(1) =~= first.skip(1) + second);
        if let Some(next) = path::step(v, first[0]) {
            law_walk_in_two_parts(next, first.skip(1), second);
        }
    }
}

/// The first dot of a path that has one stays where it is when more follows.
proof fn lemma_first_dot_stays(p: Seq<char>, more: Seq<char>)
    ensures
        0 <= path::first_dot(p) <= p.len(),
        path::first_dot(p) < p.len() ==> p[path::first_dot(p)] == '.' && path::first_dot(p + more)
            == path::first_dot(p),
        path::first_dot(p) == p.len() ==> path::first_dot(p + more) == p.len() + path::first_dot(
            more,
        ),
    decreases p.len(),
{
    if p.len() == 0 {
        assert(p + more =~= more);
    } else if p[0] != '.' {
        assert((p + more).skip(1) =~= p.skip(1) + more);
        lemma_first_dot_stays(p.skip(1), more);
    }
}

/// The segments of two paths with a dot between them are those of the first
/// and then those of the second.
pub proof fn law_segments_of_two(p: Seq<char>, q: Seq<char>)
    ensures
        path::segments(p + seq!['.'] + q) == path::segments(p) + path::segments(q),
    decreases p.len(),
{
    let whole = p + seq!['.'] + q;
    let rest = seq!['.'] + q;
    assert(whole =~= p + rest);
    assert(rest[0] == '.');
    lemma_first_dot_stays(p, rest);
    let dot = path::first_dot(p);
    if dot < p.len() {
        assert(whole.take(dot) =~= p.take(dot));
        assert(whole.skip(dot + 1) =~= p.skip(dot + 1) + seq!['.'] + q);
        law_segments_of_two(p.skip(dot + 1), q);
        assert(path::segments(whole) =~= path::segments(p) + path::segments(q));
    } else {
        assert(path::first_dot(rest) == 0);
        assert(whole.take(dot) =~= p);
        assert(whole.skip(dot + 1) =~= q);
        assert(path::segments(whole) =~= path::segments(p) + path::segments(q));
    }
}

/// A path is its segments with dots between them.
pub proof fn law_segments_make_the_path(p: Seq<char>)
    ensures
        path::segments(p).len() > 0,
        text::joined(path::segments(p), seq!['.']) == p,
    decreases p.len(),
{
    let dot = path::first_dot(p);
    lemma_first_dot_stays(p, Seq::empty());
    if dot < p.len() {
        let rest = p.skip(dot + 1);
        law_segments_make_the_path(rest);
        lemma_joined_front(p.take(dot), path::segments(rest), seq!['.']);
        assert(p =~= p.take(dot) + seq!['.'] + rest);
    } else {
        assert(path::segments(p) =~= seq![p]);
    }
}

/// Joining a list with one text more in front.
proof fn lemma_joined_front(head: Seq<char>, list: Seq<Seq<char>>, separator: Seq<char>)
    requires
        list.len() > 0,
    ensures
        text::joined(seq![head] + list, separator) == head + separator + text::joined(list, separator),
    decreases list.len(),
{
    let whole = seq![head] + list;
    assert(whole.drop_last() =~= seq![head] + list.drop_last());
    assert(whole.last() == list.last());
    if list.len() == 1 {
        assert(whole.drop_last() =~= seq![head]);
        assert(text::joined(whole.drop_last(), separator) == head);
        assert(text::joined(list, separator) == list.last());
    } else {
        lemma_joined_front(head, list.drop_last(), separator);
        assert(text::joined(whole, separator) == text::joined(whole.drop_last(), separator)
            + separator + list.last());
        assert(text::joined(whole, separator) =~= head + separator + text::joined(list, separator));
    }
}

/// Taking off the leading `$.` of a longer path.
proof fn lemma_without_root_of_two(p: Seq<char>, q: Seq<char>)
    requires
        p.len() > 0,
        path::without_root(p) != seq!['$'],
    ensures
        path::without_root(p + seq!['.'] + q) == path::without_root(p) + seq!['.'] + q,
        p != seq!['$'],
    decreases p.len(),
{
    let whole = p + seq!['.'] + q;
    if p.len() >= 2 && p[0] == '$' && p[1] == '.' {
        let rest = p.skip(2);
        assert(whole[0] == '$' && whole[1] == '.');
        assert(whole.skip(2) =~= rest + seq!['.'] + q);
        assert(path::without_root(whole) == path::without_root(whole.skip(2)));
        assert(path::without_root(p) == path::without_root(rest));
        if rest.len() == 0 {
            assert(path::without_root(rest) == rest);
            assert(whole.skip(2)[0] == '.');
            assert(path::without_root(whole.skip(2)) == whole.skip(2));
        } else {
            lemma_without_root_of_two(rest, q);
        }
    } else {
        assert(path::without_root(p) == p);
        if p.len() == 1 && p[0] == '$' {
            assert(p =~= seq!['$']);
        }
        assert(whole[0] == p[0]);
        if p.len() >= 2 {
            assert(whole[1] == p[1]);
        }
        assert(path::without_root(whole) == whole);
    }
}

/// A path `p.q` leads where `q` leads from the value that `p` leads to, unless
/// what precedes `q` is taken for a leading `$.`.
pub proof fn law_path_in_two_parts(root: Json, p: Seq<char>, q: Seq<char>)
    requires
        p.len() > 0,
        path::without_root(p) != "$"@ || (p == "$"@ && path::without_root(q) == q),
    ensures
        path::resolved(root, p + "."@ + q) == match path::resolved(root, p) {
            Some(v) => path::walk(v, path::segments(q)),
            None => None,
        },
{
    reveal_strlit("$");
    reveal_strlit(".");
    assert("$"@ =~= seq!['$']);
    assert("."@ =~= seq!['.']);
    let whole = p + seq!['.'] + q;
    assert(whole.len() >= 2);
    if path::without_root(p) != "$"@ {
        lemma_without_root_of_two(p, q);
        law_segments_of_two(path::without_root(p), q);
        law_walk_in_two_parts(root, path::segments(path::without_root(p)), path::segments(q));
    } else {
        assert(whole.skip(2) =~= q);
    }
}

/// No path but those of the root leads anywhere from a value that is neither
/// an object nor an array.
pub proof fn law_plain_values_have_no_fields(root: Json, p: Seq<char>)
    requires
        !(root is Object),
        !(root is Array),
        p.len() > 0,
        p != "$"@,
    ensures
        path::resolved(root, p) is None,
{
    law_segments_make_the_path(path::without_root(p));
}

/// Reading a number that was written in decimal gives it back.
pub proof fn law_decimal_is_read_back(n: nat, max: nat)
    requires
        n <= max,
    ensures
        text::parsed_number(text::decimal(n), max) == Some(n),
{
    lemma_decimal(n);
    assert(text::is_digit(text::decimal(n)[0]));
    assert(text::number_digits(text::decimal(n)) == text::decimal(n));
}

/// What a number looks like in decimal.
proof fn lemma_decimal(n: nat)
    ensures
        text::decimal(n).len() > 0,
        forall|i: int| 0 <= i < text::decimal(n).len() ==> text::is_digit(#[trigger] text::decimal(n)[i]),
        text::digits_value(text::decimal(n)) == n,
    decreases n,
{
    let s = text::decimal(n);
    if n < 10 {
        assert(s.drop_last() =~= Seq::<char>::empty());
        assert(text::digits_value(s.drop_last()) == 0);
    } else {
        lemma_decimal(n / 10);
        assert(s.drop_last() =~= text::decimal(n / 10));
    }
}

/// The items of an array are found by their positions.
pub proof fn law_items_are_found_by_position(items: Seq<Json>, i: nat)
    requires
        i < items.len(),
        items.len() <= usize::MAX,
    ensures
        path::step(Json::Array(items), text::decimal(i)) == Some(items[i as int]),
{
    law_decimal_is_read_back(i, usize::MAX as nat);
}

/// The members of an object are found by their names.
pub proof fn law_members_are_found_by_name(members: Seq<(Seq<char>, Json)>, i: int)
    requires
        model::ascending(members),
        0 <= i < members.len(),
    ensures
        path::step(Json::Object(members), members[i].0) == Some(members[i].1),
{
    model::lemma_lookup_finds(members, i);
}

/// Whether two values that may be missing are both missing or equal.
pub open spec fn alike(a: Option<Json>, b: Option<Json>) -> bool {
    match (a, b) {
        (Some(x), Some(y)) => model::same_json(x, y),
        (None, None) => true,
        _ => false,
    }
}

/// Equal values are alike along every row of steps.
proof fn lemma_walk_alike(a: Json, b: Json, steps: Seq<Seq<char>>)
    requires
        model::same_json(a, b),
    ensures
        alike(path::walk(a, steps), path::walk(b, steps)),
    decreases steps.len(),
{
    if steps.len() > 0 {
        if let (Json::Object(x), Json::Object(y)) = (a, b) {
            json_laws::law_equal_objects_have_equal_members(x, y, steps[0]);
        }
        if let (Some(x), Some(y)) = (path::step(a, steps[0]), path::step(b, steps[0])) {
            lemma_walk_alike(x, y, steps.skip(1));
        }
    }
}

/// Equal values have equal fields.
pub proof fn law_equal_values_have_equal_fields(a: Json, b: Json, p: Seq<char>)
    requires
        model::same_json(a, b),
    ensures
        alike(path::resolved(a, p), path::resolved(b, p)),
{
    lemma_walk_alike(a, b, path::segments(path::without_root(p)));
}

/// No segment of a path holds a dot.
pub proof fn law_segments_hold_no_dot(p: Seq<char>, i: int, j: int)
    requires
        0 <= i < path::segments(p).len(),
        0 <= j < path::segments(p)[i].len(),
    ensures
        path::segments(p)[i][j] != '.',
    decreases p.len(),
{
    let dot = path::first_dot(p);
    lemma_first_dot_stays(p, Seq::empty());
    lemma_before_first_dot(p);
    if dot < p.len() {
        let rest = p.skip(dot + 1);
        if i == 0 {
            assert(path::segments(p)[0] == p.take(dot));
            assert(p.take(dot)[j] == p[j]);
        } else {
            assert(path::segments(p)[i] == path::segments(rest)[i - 1]);
            law_segments_hold_no_dot(rest, i - 1, j);
        }
    }
}

/// There is no dot before the first.
proof fn lemma_before_first_dot(p: Seq<char>)
    ensures
        forall|i: int| 0 <= i < path::first_dot(p) && i < p.len() ==> p[i] != '.',
    decreases p.len(),
{
    if p.len() > 0 && p[0] != '.' {
        lemma_before_first_dot(p.skip(1));
        assert forall|i: int| 0 <= i < path::first_dot(p) && i < p.len() implies p[i] != '.' by {
            if i > 0 {
                assert(p.skip(1)[i - 1] == p[i]);
            }
        }
    }
}

/// The leading `$.` of a path is taken off, however often it is there, and
/// nothing else is.
pub proof fn law_leading_root_is_taken_off(p: Seq<char>)
    ensures
        path::without_root("$."@ + p) == path::without_root(p),
        !("$."@.is_prefix_of(p)) ==> path::without_root(p) == p,
{
    reveal_strlit("$.");
    assert(("$."@ + p).skip(2) =~= p);
    if !("$."@.is_prefix_of(p)) && p.len() >= 2 && p[0] == '$' && p[1] == '.' {
        assert(p.subrange(0, 2) =~= "$."@);
    }
}

/// One step leads into an object by the name of a member, into an array by the
/// position of an item, and nowhere from anything else.
pub proof fn law_steps(v: Json, segment: Seq<char>, next: Json)
    ensures
        v matches Json::Object(members) ==> path::step(v, segment) == model::lookup(members, segment),
        v matches Json::Array(items) ==> (path::step(v, segment) == Some(next) <==> exists|
            i: int,
            plus: bool,
            zeros: nat,
        |
            0 <= i < items.len() && i <= usize::MAX && segment == #[trigger] text_laws::written(
                plus,
                zeros,
                i as nat,
            ) && items[i] == next),
        !(v is Object) && !(v is Array) ==> path::step(v, segment) is None,
{
    if let Json::Array(items) = v {
        let max = usize::MAX as nat;
        if path::step(v, segment) == Some(next) {
            let n = text::parsed_number(segment, max)->0;
            text_laws::law_reading_numbers(segment, max, n);
            let (plus, zeros) = choose|plus: bool, zeros: nat|
                segment == #[trigger] text_laws::written(plus, zeros, n);
            let i = n as int;
            assert(segment == text_laws::written(plus, zeros, i as nat));
        }
        if exists|i: int, plus: bool, zeros: nat|
            0 <= i < items.len() && i <= usize::MAX && segment == #[trigger] text_laws::written(
                plus,
                zeros,
                i as nat,
            ) && items[i] == next {
            let (i, plus, zeros) = choose|i: int, plus: bool, zeros: nat|
                0 <= i < items.len() && i <= usize::MAX && segment == #[trigger] text_laws::written(
                    plus,
                    zeros,
                    i as nat,
                ) && items[i] == next;
            text_laws::law_reading_numbers(segment, max, i as nat);
        }
    }
}

/// A row of steps is taken one after the other, and leads nowhere as soon as
/// one of them does.
pub proof fn law_walks(v: Json, first: Seq<char>, rest: Seq<Seq<char>>)
    ensures
        path::walk(v, Seq::empty()) == Some(v),
        path::walk(v, seq![first] + rest) == match path::step(v, first) {
            Some(next) => path::walk(next, rest),
            None => None,
        },
{
    assert((seq![first] + rest).skip(1) =~= rest);
}

/// The empty path and `$` lead to the root, and a path without dots leads to
/// the field of that name, or the item at that position.
pub proof fn law_short_paths(root: Json, p: Seq<char>)
    ensures
        path::resolved(root, Seq::empty()) == Some(root),
        path::resolved(root, "$"@) == Some(root),
        p.len() > 0 && p != "$"@ && (forall|i: int| 0 <= i < p.len() ==> p[i] != '.')
            ==> path::resolved(root, p) == path::step(root, p),
{
    if p.len() > 0 && p != "$"@ && (forall|i: int| 0 <= i < p.len() ==> p[i] != '.') {
        assert(path::without_root(p) == p);
        lemma_first_dot_stays(p, Seq::empty());
        assert(path::segments(p) =~= seq![p]);
        law_walks(root, p, Seq::empty());
        assert(seq![p] + Seq::<Seq<char>>::empty() =~= seq![p]);
        if let Some(next) = path::step(root, p) {
            law_walks(next, p, Seq::empty());
        }
    }
}

}
