//! Laws of double-precision numbers.

use crate::double;
use crate::json::model;
use crate::json::model::NumberModel;
use vstd::arithmetic::mul::*;
use vstd::arithmetic::power2::*;
use vstd::prelude::*;

verus! {

/// What the bit patterns stand for, in units of the smallest positive double:
/// the small ones for themselves, the next exponent for twice as much, and the
/// sign bit for the negative.
pub proof fn law_values_of_bit_patterns(bits: u64)
    ensures
        bits < 0x0020_0000_0000_0000 ==> double::scaled_value(bits) == bits,
        0x0010_0000_0000_0000 <= bits < 0x7ff0_0000_0000_0000 ==> double::scaled_value(
            (bits + 0x0010_0000_0000_0000) as u64,
        ) == 2 * double::scaled_value(bits),
        bits < 0x8000_0000_0000_0000 ==> double::scaled_value((bits + 0x8000_0000_0000_0000) as u64)
            == -double::scaled_value(bits),
{
    let f = 0x0010_0000_0000_0000nat;
    if bits < 0x0020_0000_0000_0000 {
        lemma2_to64();
        if bits >= f {
            assert(bits as nat / f == 1 && bits as nat % f == bits - f);
            let m = f + bits as nat % f;
            let one = pow2(0);
            assert(m * one == m) by (nonlinear_arith)
                requires
                    one == 1,
            ;
        } else {
            assert(bits as nat / f == 0 && bits as nat % f == bits);
        }
    }
    if 0x0010_0000_0000_0000 <= bits < 0x7ff0_0000_0000_0000 {
        let e = bits as nat / f;
        let r = bits as nat % f;
        assert((bits + f) as nat / f == e + 1 && (bits + f) as nat % f == r);
        lemma_pow2_unfold(e);
        assert((f + r) * (2 * pow2((e - 1) as nat)) == 2 * ((f + r) * pow2((e - 1) as nat)))
            by (nonlinear_arith);
    }
}

/// Doubles that stand for numbers compare as the numbers do; those that stand
/// for none compare with nothing. The patterns after that of infinity are those
/// that stand for none.
pub proof fn law_doubles_compare_as_numbers(a: u64, b: u64)
    ensures
        double::at_most(a, b) <==> a % 0x8000_0000_0000_0000 <= 0x7ff0_0000_0000_0000 && b
            % 0x8000_0000_0000_0000 <= 0x7ff0_0000_0000_0000 && double::scaled_value(a)
            <= double::scaled_value(b),
        double::same_double(a, b) <==> double::at_most(a, b) && double::at_most(b, a),
        double::is_nan(a) <==> a % 0x8000_0000_0000_0000 > 0x7ff0_0000_0000_0000,
        double::is_finite(a) <==> a % 0x8000_0000_0000_0000 < 0x7ff0_0000_0000_0000,
{
}

/// Of two doubles that stand for numbers without a sign, the larger pattern is
/// the larger number; with a sign it is the other way round.
pub proof fn law_patterns_ascend(a: u64, b: u64)
    requires
        a < b < 0x8000_0000_0000_0000,
    ensures
        double::scaled_value(a) < double::scaled_value(b),
        double::scaled_value((b + 0x8000_0000_0000_0000) as u64) < double::scaled_value(
            (a + 0x8000_0000_0000_0000) as u64,
        ),
{
    double::lemma_magnitude_increases(a as nat, b as nat);
}

/// The power of two that a number lies above.
proof fn lemma_binade(n: nat) -> (e: nat)
    requires
        n > 0,
    ensures
        pow2(e) <= n < 2 * pow2(e),
    decreases n,
{
    lemma2_to64();
    if n == 1 {
        0
    } else {
        let e = lemma_binade(n / 2);
        lemma_pow2_unfold(e + 1);
        e + 1
    }
}

/// Every integer of 64 bits is rounded to some double.
proof fn lemma_nearest_exists(n: nat)
    requires
        n <= u64::MAX,
    ensures
        exists|bits: u64| #[trigger] double::is_nearest(n as int, bits) && bits < double::INFINITY,
        n < 0x0020_0000_0000_0000 ==> exists|bits: u64| #[trigger]
            double::is_nearest(n as int, bits) && double::scaled_value(bits) == n * pow2(1074),
{
    let f = double::FRACTION as nat;
    if n == 0 {
        double::lemma_nearest_exact(0, 0);
        assert(double::is_nearest(0, 0));
        assert(0 * pow2(1074) == 0);
        assert(double::scaled_value(0) == 0);
    } else {
        lemma2_to64();
        lemma2_to64_rest();
        let e = lemma_binade(n);
        let p = pow2(e);
        if e > 63 {
            if e > 64 {
                lemma_pow2_strictly_increases(64, e);
            }
        }
        let base = (e + 1022) * f;
        if e <= 52 {
            lemma_pow2_adds(e, (52 - e) as nat);
            let k = pow2((52 - e) as nat) as int;
            lemma_pow2_pos((52 - e) as nat);
            assert(f == p * k);
            assert(n * k >= f && n * k < 2 * f) by (nonlinear_arith)
                requires
                    f == p * k,
                    p <= n < 2 * p,
                    k > 0,
            ;
            let m = (n * k) as nat;
            double::lemma_magnitude_of(e, m);
            lemma_pow2_adds((52 - e) as nat, e + 1022);
            assert(m * pow2(e + 1022) == n * (k * pow2(e + 1022))) by (nonlinear_arith)
                requires
                    m == n * k,
            ;
            double::lemma_nearest_exact(n as int, (base + m) as u64);
            assert(double::is_nearest(n as int, (base + m) as u64));
            assert(double::scaled_value((base + m) as u64) == n * pow2(1074));
        } else {
            lemma_pow2_adds(52, (e - 52) as nat);
            let unit = pow2((e - 52) as nat);
            lemma_pow2_pos((e - 52) as nat);
            assert(p == f * unit);
            let q = n / unit;
            let r = n % unit;
            assert(n == q * unit + r && 0 <= r < unit) by (nonlinear_arith)
                requires
                    q == n as int / unit as int,
                    r == n as int % unit as int,
                    unit > 0,
            ;
            assert(f <= q < 2 * f) by (nonlinear_arith)
                requires
                    n == q * unit + r,
                    0 <= r < unit,
                    f * unit <= n < 2 * (f * unit),
            ;
            let low = (base + q) as u64;
            lemma_pow2_unfold((e - 52) as nat);
            let half = pow2((e - 53) as nat);
            assert(unit == 2 * half);
            let bits: u64 = if r > half || (r == half && q % 2 == 1) {
                (low + 1) as u64
            } else {
                low
            };
            let u = pow2(1074) as int;
            let t = n * u;
            let w = pow2(e + 1022) as int;
            lemma_pow2_pos(1074);
            lemma_pow2_adds((e - 52) as nat, 1074);
            double::lemma_magnitude_of(e, q);
            double::lemma_magnitude_of(e, q + 1);
            assert(double::scaled_value(low) == q * w);
            assert(double::scaled_value((low + 1) as u64) == (q + 1) * w);
            assert(w == unit * u);
            assert(t - q * w == r * u && (q + 1) * w - t == (unit - r) * u) by (nonlinear_arith)
                requires
                    t == n * u,
                    w == unit * u,
                    n == q * unit + r,
            ;
            if r == 0 {
                assert(r * u == 0) by (nonlinear_arith)
                    requires
                        r == 0,
                ;
                double::lemma_nearest_exact(n as int, low);
            } else {
                assert(0 < r * u && 0 < (unit - r) * u) by (nonlinear_arith)
                    requires
                        0 < r < unit,
                        u > 0,
                ;
                if r < half {
                    lemma_mul_strict_inequality(r as int, unit - r, u);
                } else if r > half {
                    lemma_mul_strict_inequality(unit - r, r as int, u);
                }
                assert(low % 2 == q % 2);
                double::lemma_nearest_of_two(n as int, low, bits);
            }
            assert(double::is_nearest(n as int, bits));
        }
    }
}

/// The integer that a number is, where it is one.
pub open spec fn integer_of(n: NumberModel) -> int {
    match n {
        NumberModel::PosInt { value } => value as int,
        NumberModel::NegInt { negative } => negative as int,
        NumberModel::Float { .. } => 0,
    }
}

/// An integer counts as the double nearest to it. No double is nearer, and one
/// as near, but on the other side, is there only where the pattern is even.
pub proof fn law_integers_count_as_the_nearest_double(n: NumberModel, other: u64)
    requires
        model::number_ok(n),
        !(n is Float),
        other % 0x8000_0000_0000_0000 < 0x7ff0_0000_0000_0000,
    ensures
        ({
            let bits = model::number_double(n);
            let exact = integer_of(n) * pow2(1074);
            let gap = double::scaled_value(bits) - exact;
            let other_gap = double::scaled_value(other) - exact;
            &&& bits % 0x8000_0000_0000_0000 < 0x7ff0_0000_0000_0000
            &&& (if gap < 0 { -gap } else { gap }) <= (if other_gap < 0 { -other_gap } else { other_gap })
            &&& gap == -other_gap && gap != 0 ==> bits % 2 == 0
        }),
{
    let i = integer_of(n);
    if i >= 0 {
        lemma_nearest_exists(i as nat);
        let b = choose|b: u64| #[trigger] double::is_nearest(i, b) && b < double::INFINITY;
        assert(double::is_nearest(i, double::nearest_double(i)));
    } else {
        lemma_nearest_exists((-i) as nat);
        let b = choose|b: u64| #[trigger] double::is_nearest(-i, b) && b < double::INFINITY;
        double::lemma_nearest_negated(-i, b);
        assert(double::is_nearest(i, double::nearest_double(i)));
    }
    let bits = model::number_double(n);
    assert(double::is_nearest(i, bits));
    assert(double::gap(i, bits) <= double::gap(i, other));
}

/// An integer below two to the power of 53 counts as itself, and any other
/// number as the double that it is.
pub proof fn law_small_integers_are_exact(n: NumberModel)
    requires
        model::number_ok(n),
    ensures
        !(n is Float) && -0x0020_0000_0000_0000 < integer_of(n) < 0x0020_0000_0000_0000
            ==> double::scaled_value(model::number_double(n)) == integer_of(n) * pow2(1074),
        n matches NumberModel::Float { double, .. } ==> model::number_double(n) == double.bits,
{
    let i = integer_of(n);
    if !(n is Float) && -0x0020_0000_0000_0000 < i < 0x0020_0000_0000_0000 {
        if i >= 0 {
            lemma_nearest_exists(i as nat);
            let b = choose|b: u64| #[trigger]
                double::is_nearest(i, b) && double::scaled_value(b) == i * pow2(1074);
            double::lemma_nearest_unique(i, b, double::nearest_double(i));
        } else {
            lemma_nearest_exists((-i) as nat);
            let b = choose|b: u64| #[trigger]
                double::is_nearest(-i, b) && double::scaled_value(b) == (-i) * pow2(1074);
            double::lemma_nearest_negated(-i, b);
            let c = (b + double::SIGN) as u64;
            double::lemma_nearest_unique(i, c, double::nearest_double(i));
            assert((-i) * pow2(1074) == -(i * pow2(1074))) by (nonlinear_arith);
        }
    }
}

}
