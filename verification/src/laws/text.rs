//! Laws of texts.

use crate::text;
use vstd::prelude::*;
use vstd::string::*;

verus! {

/// A text contains another exactly where it is something, then the other, then
/// something.
pub proof fn law_contained_texts_are_parts(whole: Seq<char>, part: Seq<char>)
    ensures
        text::occurs_in(whole, part) <==> exists|a: Seq<char>, b: Seq<char>|
            whole == #[trigger] (a + part + b),
{
    if text::occurs_in(whole, part) {
        let at = choose|at: int| text::occurs_at(whole, part, at);
        let a = whole.take(at);
        let b = whole.skip(at + part.len());
        assert(whole =~= a + part + b) by {
            assert(whole.subrange(at, at + part.len()) == part);
            assert forall|i: int| 0 <= i < whole.len() implies whole[i] == (a + part + b)[i] by {
                if at <= i < at + part.len() {
                    assert(part[i - at] == whole.subrange(at, at + part.len())[i - at]);
                }
            }
        }
    }
    if exists|a: Seq<char>, b: Seq<char>| whole == #[trigger] (a + part + b) {
        let (a, b) = choose|a: Seq<char>, b: Seq<char>| whole == #[trigger] (a + part + b);
        assert(whole.subrange(a.len() as int, (a.len() + part.len()) as int) =~= part);
        assert(text::occurs_at(whole, part, a.len() as int));
    }
}

/// Joining nothing gives the empty text, joining one text gives it, and joining
/// two lists puts the separator between what each gives.
pub proof fn law_joining(a: Seq<Seq<char>>, b: Seq<Seq<char>>, one: Seq<char>, separator: Seq<char>)
    ensures
        text::joined(Seq::empty(), separator) == Seq::<char>::empty(),
        text::joined(seq![one], separator) == one,
        a.len() > 0 && b.len() > 0 ==> text::joined(a + b, separator) == text::joined(a, separator)
            + separator + text::joined(b, separator),
    decreases b.len(),
{
    if a.len() > 0 && b.len() > 0 {
        let both = a + b;
        assert(both.last() == b.last());
        assert(both.drop_last() =~= a + b.drop_last());
        if b.len() == 1 {
            assert(b.drop_last() =~= Seq::<Seq<char>>::empty());
            assert(both.drop_last() =~= a);
            assert(text::joined(b, separator) == b.last());
        } else {
            law_joining(a, b.drop_last(), one, separator);
        }
        assert(text::joined(both, separator) =~= text::joined(a, separator) + separator
            + text::joined(b, separator));
    }
}

/// The ten digits stand for the numbers below ten, and a larger number is
/// written as its tens followed by its ones.
pub proof fn law_decimal_digits(tens: nat, ones: nat)
    requires
        tens > 0,
        ones < 10,
    ensures
        text::decimal(0) == "0"@,
        text::decimal(1) == "1"@,
        text::decimal(2) == "2"@,
        text::decimal(3) == "3"@,
        text::decimal(4) == "4"@,
        text::decimal(5) == "5"@,
        text::decimal(6) == "6"@,
        text::decimal(7) == "7"@,
        text::decimal(8) == "8"@,
        text::decimal(9) == "9"@,
        text::decimal(10 * tens + ones) == text::decimal(tens) + text::decimal(ones),
{
    reveal_strlit("0");
    reveal_strlit("1");
    reveal_strlit("2");
    reveal_strlit("3");
    reveal_strlit("4");
    reveal_strlit("5");
    reveal_strlit("6");
    reveal_strlit("7");
    reveal_strlit("8");
    reveal_strlit("9");
    assert(text::decimal(0) =~= "0"@);
    assert(text::decimal(1) =~= "1"@);
    assert(text::decimal(2) =~= "2"@);
    assert(text::decimal(3) =~= "3"@);
    assert(text::decimal(4) =~= "4"@);
    assert(text::decimal(5) =~= "5"@);
    assert(text::decimal(6) =~= "6"@);
    assert(text::decimal(7) =~= "7"@);
    assert(text::decimal(8) =~= "8"@);
    assert(text::decimal(9) =~= "9"@);
    let n = 10 * tens + ones;
    assert(n / 10 == tens && n % 10 == ones);
    assert(text::decimal(n) =~= text::decimal(tens) + text::decimal(ones));
}

/// A negative number is written with a minus sign before its absolute value.
pub proof fn law_negative_decimal(n: nat)
    ensures
        text::signed_decimal(n as int) == text::decimal(n),
        n > 0 ==> text::signed_decimal(-(n as int)) == "-"@ + text::decimal(n),
{
    reveal_strlit("-");
    assert("-"@ =~= seq!['-']);
}

/// A text is read as a number exactly where it is that number in decimal, with
/// zeros before it and a plus sign before those as may be, and the number is
/// not too large.
pub proof fn law_reading_numbers(s: Seq<char>, max: nat, n: nat)
    ensures
        text::parsed_number(s, max) == Some(n) <==> n <= max && exists|plus: bool, zeros: nat|
            s == #[trigger] written(plus, zeros, n),
{
    if text::parsed_number(s, max) == Some(n) {
        let digits = text::number_digits(s);
        lemma_digits_are_decimal(digits);
        let zeros = choose|zeros: nat| digits == #[trigger] zeros_before(zeros, n);
        let plus = s.len() > 0 && s[0] == '+';
        if plus {
            assert(s =~= seq!['+'] + digits);
        }
        assert(s =~= written(plus, zeros, n));
    }
    if n <= max && exists|plus: bool, zeros: nat| s == #[trigger] written(plus, zeros, n) {
        let (plus, zeros) = choose|plus: bool, zeros: nat| s == #[trigger] written(plus, zeros, n);
        lemma_zeros_before(zeros, n);
        let digits = zeros_before(zeros, n);
        assert(text::is_digit(digits[0]));
        if plus {
            assert(s.skip(1) =~= digits);
        }
        assert(text::number_digits(s) =~= digits);
    }
}

/// A number in decimal with so many zeros before it.
pub open spec fn zeros_before(zeros: nat, n: nat) -> Seq<char> {
    Seq::new(zeros, |i: int| '0') + text::decimal(n)
}

/// A number in decimal with zeros and a plus sign before it as may be.
pub open spec fn written(plus: bool, zeros: nat, n: nat) -> Seq<char> {
    if plus {
        seq!['+'] + zeros_before(zeros, n)
    } else {
        zeros_before(zeros, n)
    }
}

/// A row of digits is a number in decimal with zeros before it.
proof fn lemma_digits_are_decimal(s: Seq<char>)
    requires
        s.len() > 0,
        forall|i: int| 0 <= i < s.len() ==> text::is_digit(#[trigger] s[i]),
    ensures
        exists|zeros: nat| s == #[trigger] zeros_before(zeros, text::digits_value(s)),
    decreases s.len(),
{
    let c = s.last();
    let d = (c as nat - 48) as nat;
    assert(text::is_digit(s[s.len() - 1]));
    let rest = s.drop_last();
    assert(text::digits_value(s) == text::digits_value(rest) * 10 + d);
    assert(text::decimal(d) =~= seq![c]);
    if rest.len() == 0 {
        assert(text::digits_value(rest) == 0);
        assert(s =~= zeros_before(0, d));
    } else {
        assert forall|i: int| 0 <= i < rest.len() implies text::is_digit(#[trigger] rest[i]) by {
            assert(rest[i] == s[i]);
        }
        lemma_digits_are_decimal(rest);
        let v = text::digits_value(rest);
        let zeros = choose|zeros: nat| rest == #[trigger] zeros_before(zeros, v);
        if v > 0 {
            let n = v * 10 + d;
            assert(n / 10 == v && n % 10 == d);
            assert(text::decimal(n) =~= text::decimal(v).push(c));
            assert(s =~= rest.push(c));
            assert(zeros_before(zeros, n) =~= zeros_before(zeros, v).push(c));
        } else {
            assert(text::decimal(0) =~= seq!['0']);
            assert(s =~= rest.push(c));
            assert(Seq::new(zeros + 1, |i: int| '0') =~= Seq::new(zeros, |i: int| '0').push('0'));
            assert(zeros_before(zeros + 1, d) =~= zeros_before(zeros, 0).push(c));
        }
    }
}

/// The value of a number in decimal with zeros before it.
proof fn lemma_zeros_before(zeros: nat, n: nat)
    ensures
        zeros_before(zeros, n).len() > 0,
        forall|i: int|
            0 <= i < zeros_before(zeros, n).len() ==> text::is_digit(
                #[trigger] zeros_before(zeros, n)[i],
            ),
        text::digits_value(zeros_before(zeros, n)) == n,
    decreases n,
{
    let s = zeros_before(zeros, n);
    if n < 10 {
        let rest = Seq::new(zeros, |i: int| '0');
        lemma_zeros(zeros);
        assert(s.drop_last() =~= rest);
        assert(text::decimal(n) =~= seq![text::digit(n as int)]);
        assert(s.last() == text::digit(n as int));
    } else {
        lemma_zeros_before(zeros, n / 10);
        assert(s.drop_last() =~= zeros_before(zeros, n / 10));
        assert(s.last() == text::digit((n % 10) as int));
        assert forall|i: int| 0 <= i < s.len() implies text::is_digit(#[trigger] s[i]) by {
            if i < s.len() - 1 {
                assert(s[i] == zeros_before(zeros, n / 10)[i]);
            }
        }
    }
}

/// Zeros alone stand for zero.
proof fn lemma_zeros(zeros: nat)
    ensures
        text::digits_value(Seq::new(zeros, |i: int| '0')) == 0,
    decreases zeros,
{
    let s = Seq::new(zeros, |i: int| '0');
    if zeros > 0 {
        assert(s.drop_last() =~= Seq::new((zeros - 1) as nat, |i: int| '0'));
        lemma_zeros((zeros - 1) as nat);
    }
}

/// A text stands before another exactly where, at the first place at which they
/// part, it ends or has the smaller character.
pub proof fn law_order_of_texts(a: Seq<char>, b: Seq<char>)
    ensures
        text::before(a, b) <==> exists|i: int|
            0 <= i <= a.len() && i < b.len() && #[trigger] a.take(i) == b.take(i) && (i == a.len()
                || a[i] < b[i]),
    decreases a.len(),
{
    if b.len() > 0 {
        if a.len() == 0 {
            assert(a.take(0) =~= b.take(0));
        } else if a[0] != b[0] {
            assert(a.take(0) =~= b.take(0));
            assert forall|i: int|
                0 <= i <= a.len() && i < b.len() && #[trigger] a.take(i) == b.take(i) implies i == 0 by {
                if i > 0 {
                    assert(a.take(i)[0] == b.take(i)[0]);
                }
            }
        } else {
            let x = a.skip(1);
            let y = b.skip(1);
            law_order_of_texts(x, y);
            if text::before(x, y) {
                let i = choose|i: int|
                    0 <= i <= x.len() && i < y.len() && #[trigger] x.take(i) == y.take(i) && (i
                        == x.len() || x[i] < y[i]);
                assert forall|j: int| 0 <= j < i + 1 implies a[j] == b[j] by {
                    if j > 0 {
                        assert(x.take(i)[j - 1] == y.take(i)[j - 1]);
                    }
                }
                assert(a.take(i + 1) =~= b.take(i + 1));
            }
            if exists|i: int|
                0 <= i <= a.len() && i < b.len() && #[trigger] a.take(i) == b.take(i) && (i
                    == a.len() || a[i] < b[i]) {
                let i = choose|i: int|
                    0 <= i <= a.len() && i < b.len() && #[trigger] a.take(i) == b.take(i) && (i
                        == a.len() || a[i] < b[i]);
                assert(i > 0);
                assert(x.take(i - 1) =~= a.take(i).skip(1));
                assert(y.take(i - 1) =~= b.take(i).skip(1));
            }
        }
    }
}

}
