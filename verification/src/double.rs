//! Double-precision numbers in the IEEE 754 binary format, held by their bit
//! pattern: what number a pattern stands for, how two of them compare, and
//! which one is nearest to an integer.

use vstd::arithmetic::mul::*;
use vstd::arithmetic::power2::*;
use vstd::prelude::*;

verus! {

/// A double-precision number: its bit pattern and its decimal texts, which come
/// with it when it is read in.
#[derive(Debug)]
pub struct Double {
    /// The bit pattern.
    pub bits: u64,
    /// The number in plain decimal, such as `3` or `2.5`.
    pub display: String,
    /// The number with a fraction or an exponent, such as `3.0` or `1e16`.
    pub debug: String,
}

/// What a [`Double`] holds.
pub struct DoubleModel {
    pub bits: u64,
    pub display: Seq<char>,
    pub debug: Seq<char>,
}

impl View for Double {
    type V = DoubleModel;

    open spec fn view(&self) -> DoubleModel {
        DoubleModel { bits: self.bits, display: self.display@, debug: self.debug@ }
    }
}

impl Clone for Double {
    fn clone(&self) -> (r: Self)
        ensures
            r@ == self@,
    {
        Double { bits: self.bits, display: self.display.clone(), debug: self.debug.clone() }
    }
}

impl PartialEq for Double {
    fn eq(&self, other: &Self) -> (r: bool) {
        doubles_equal(self.bits, other.bits)
    }
}

impl vstd::std_specs::cmp::PartialEqSpecImpl for Double {
    open spec fn obeys_eq_spec() -> bool {
        true
    }

    open spec fn eq_spec(&self, other: &Self) -> bool {
        same_double(self.bits, other.bits)
    }
}

/// Two to the power of 52: one more than the largest fraction field.
pub const FRACTION: u64 = 0x0010_0000_0000_0000;

/// The sign bit.
pub const SIGN: u64 = 0x8000_0000_0000_0000;

/// The bit pattern of positive infinity.
pub const INFINITY: u64 = 0x7ff0_0000_0000_0000;

/// The absolute value of a double in units of the smallest positive double,
/// which is two to the power of -1074. `x` is the bit pattern without the sign.
pub open spec fn magnitude(x: nat) -> nat {
    let exponent = x / FRACTION as nat;
    let fraction = x % FRACTION as nat;
    if exponent == 0 {
        fraction
    } else {
        (FRACTION as nat + fraction) * pow2((exponent - 1) as nat)
    }
}

/// The value of a double in units of the smallest positive double. Infinity
/// counts as the value that would follow the largest finite one.
pub open spec fn scaled_value(bits: u64) -> int {
    if bits < SIGN {
        magnitude(bits as nat) as int
    } else {
        -(magnitude((bits - SIGN) as nat) as int)
    }
}

/// The bit pattern without the sign.
pub open spec fn unsigned_bits(bits: u64) -> int {
    if bits < SIGN {
        bits as int
    } else {
        bits - SIGN
    }
}

/// Whether the pattern is one of those that stand for no number.
pub open spec fn is_nan(bits: u64) -> bool {
    unsigned_bits(bits) > INFINITY
}

/// Whether the pattern stands for a number, not an infinity and not a NaN.
pub open spec fn is_finite(bits: u64) -> bool {
    unsigned_bits(bits) < INFINITY
}

/// Whether `a` is less than or equal to `b`; never so when one is a NaN.
pub open spec fn at_most(a: u64, b: u64) -> bool {
    !is_nan(a) && !is_nan(b) && scaled_value(a) <= scaled_value(b)
}

/// Whether `a` and `b` are the same number; never so when one is a NaN. The
/// two zeros are the same number.
pub open spec fn same_double(a: u64, b: u64) -> bool {
    !is_nan(a) && !is_nan(b) && scaled_value(a) == scaled_value(b)
}

/// The integer by which a double is ordered among the others.
pub open spec fn order_key(bits: u64) -> int {
    if bits < SIGN {
        bits as int
    } else {
        SIGN - bits
    }
}

/// A larger pattern stands for a larger absolute value.
pub proof fn lemma_magnitude_increases(x: nat, y: nat)
    requires
        x < y,
    ensures
        magnitude(x) < magnitude(y),
{
    let f = FRACTION as nat;
    let ex = x / f;
    let ey = y / f;
    let fx = x % f;
    let fy = y % f;
    assert(x == ex * f + fx && y == ey * f + fy && ex <= ey && fx < f && fy < f);
    if ex == ey {
        if ex > 0 {
            lemma_pow2_pos((ex - 1) as nat);
            lemma_mul_strict_inequality((f + fx) as int, (f + fy) as int, pow2((ex - 1) as nat) as int);
        }
    } else {
        lemma_pow2_pos((ey - 1) as nat);
        lemma_mul_inequality(f as int, (f + fy) as int, pow2((ey - 1) as nat) as int);
        if ex == 0 {
            lemma_mul_inequality(1, pow2((ey - 1) as nat) as int, f as int);
            lemma_mul_is_commutative(pow2((ey - 1) as nat) as int, f as int);
        } else {
            let p = pow2((ex - 1) as nat) as int;
            lemma_pow2_pos((ex - 1) as nat);
            lemma_pow2_unfold(ex);
            if ex < ey - 1 {
                lemma_pow2_strictly_increases(ex, (ey - 1) as nat);
            }
            assert(pow2((ey - 1) as nat) >= 2 * p);
            lemma_mul_strict_inequality((f + fx) as int, (2 * f) as int, p);
            lemma_mul_inequality(2 * p, pow2((ey - 1) as nat) as int, f as int);
            assert((2 * f) * p == (2 * p) * f) by (nonlinear_arith);
            lemma_mul_is_commutative(pow2((ey - 1) as nat) as int, f as int);
        }
    }
}

/// Doubles are ordered by value as their keys are.
pub proof fn lemma_key_orders(a: u64, b: u64)
    ensures
        scaled_value(a) < scaled_value(b) <==> order_key(a) < order_key(b),
        scaled_value(a) == scaled_value(b) <==> order_key(a) == order_key(b),
{
    let x = unsigned_bits(a) as nat;
    let y = unsigned_bits(b) as nat;
    if x < y {
        lemma_magnitude_increases(x, y);
    } else if y < x {
        lemma_magnitude_increases(y, x);
    }
    if x > 0 {
        lemma_magnitude_increases(0, x);
    }
    if y > 0 {
        lemma_magnitude_increases(0, y);
    }
}

/// The integer by which a double is ordered.
fn key(bits: u64) -> (k: i64)
    ensures
        k == order_key(bits),
{
    if bits < SIGN {
        bits as i64
    } else {
        -((bits - SIGN) as i64)
    }
}

/// Whether the bit pattern is a NaN.
pub fn bits_are_nan(bits: u64) -> (r: bool)
    ensures
        r == is_nan(bits),
{
    (if bits < SIGN { bits } else { bits - SIGN }) > INFINITY
}

/// Whether the bit pattern is that of a finite number.
pub fn bits_are_finite(bits: u64) -> (r: bool)
    ensures
        r == is_finite(bits),
{
    (if bits < SIGN { bits } else { bits - SIGN }) < INFINITY
}

/// Whether `a` is less than or equal to `b`.
pub fn double_at_most(a: u64, b: u64) -> (r: bool)
    ensures
        r == at_most(a, b),
{
    proof {
        lemma_key_orders(a, b);
    }
    !bits_are_nan(a) && !bits_are_nan(b) && key(a) <= key(b)
}

/// Whether `a` and `b` are the same number.
pub fn doubles_equal(a: u64, b: u64) -> (r: bool)
    ensures
        r == same_double(a, b),
{
    proof {
        lemma_key_orders(a, b);
    }
    !bits_are_nan(a) && !bits_are_nan(b) && key(a) == key(b)
}

/// How far the double is from the integer `n`, in units of the smallest
/// positive double.
pub open spec fn gap(n: int, bits: u64) -> int {
    let d = scaled_value(bits) - n * pow2(1074);
    if d < 0 {
        -d
    } else {
        d
    }
}

/// Whether the double is the one that an integer is rounded to: no other is
/// nearer, of two equally near ones it is the one whose last bit is zero, and
/// it has the sign of the integer.
pub open spec fn is_nearest(n: int, bits: u64) -> bool {
    &&& is_finite(bits)
    &&& (n < 0 <==> bits >= SIGN)
    &&& forall|b: u64| is_finite(b) ==> gap(n, bits) <= #[trigger] gap(n, b)
    &&& forall|b: u64|
        is_finite(b) && scaled_value(b) != scaled_value(bits) && gap(n, bits) == #[trigger] gap(n, b)
            ==> bits % 2 == 0
}

/// The double that an integer is rounded to.
pub open spec fn nearest_double(n: int) -> u64 {
    choose|bits: u64| is_nearest(n, bits)
}

/// An integer is rounded to one double only.
pub proof fn lemma_nearest_unique(n: int, a: u64, b: u64)
    requires
        is_nearest(n, a),
        is_nearest(n, b),
    ensures
        a == b,
{
    if a != b {
        lemma_key_orders(a, b);
        assert(gap(n, a) <= gap(n, b));
        assert(gap(n, b) <= gap(n, a));
        assert(a % 2 == 0 && b % 2 == 0);
        let low = if order_key(a) < order_key(b) { a } else { b };
        let high = if order_key(a) < order_key(b) { b } else { a };
        let between: u64 = if low < SIGN { (low + 1) as u64 } else { (low - 1) as u64 };
        lemma_key_orders(low, between);
        lemma_key_orders(between, high);
        assert(gap(n, low) <= gap(n, between));
    }
}

/// Rounding an integer between two neighbouring doubles.
pub proof fn lemma_nearest_of_two(n: int, low: u64, bits: u64)
    requires
        n > 0,
        low + 1 < INFINITY,
        bits == low || bits == low + 1,
        scaled_value(low) < n * pow2(1074) < scaled_value((low + 1) as u64),
        gap(n, bits) <= gap(n, low),
        gap(n, bits) <= gap(n, (low + 1) as u64),
        gap(n, low) == gap(n, (low + 1) as u64) ==> bits % 2 == 0,
    ensures
        is_nearest(n, bits),
{
    let high = (low + 1) as u64;
    assert forall|b: u64| is_finite(b) implies gap(n, bits) <= #[trigger] gap(n, b) by {
        lemma_key_orders(b, low);
        lemma_key_orders(b, high);
    }
    assert forall|b: u64|
        is_finite(b) && scaled_value(b) != scaled_value(bits) && gap(n, bits) == #[trigger] gap(n, b)
        implies bits % 2 == 0 by {
        lemma_key_orders(b, low);
        lemma_key_orders(b, high);
    }
}

/// Rounding an integer that is itself a double.
pub proof fn lemma_nearest_exact(n: int, bits: u64)
    requires
        n >= 0,
        bits < INFINITY,
        scaled_value(bits) == n * pow2(1074),
    ensures
        is_nearest(n, bits),
{
}

/// The value of the double with significand `m` and binary exponent `e`.
pub proof fn lemma_magnitude_of(e: nat, m: nat)
    requires
        FRACTION <= m <= 2 * FRACTION,
    ensures
        magnitude((e + 1022) * FRACTION as nat + m) == m * pow2(e + 1022),
{
    let f = FRACTION as nat;
    let x = (e + 1022) * f + m;
    if m < 2 * f {
        assert(x / f == e + 1023 && x % f == m - f);
    } else {
        assert(x / f == e + 1024 && x % f == 0);
        lemma_pow2_unfold(e + 1023);
        assert(f * (2 * pow2(e + 1022)) == (2 * f) * pow2(e + 1022)) by (nonlinear_arith);
    }
}

/// Negating an integer negates the double that it is rounded to.
pub proof fn lemma_nearest_negated(n: int, bits: u64)
    requires
        n > 0,
        is_nearest(n, bits),
    ensures
        is_nearest(-n, (bits + SIGN) as u64),
{
    let negative = (bits + SIGN) as u64;
    assert((-n) * pow2(1074) == -(n * pow2(1074))) by (nonlinear_arith);
    assert forall|b: u64| is_finite(b) implies gap(-n, negative) <= #[trigger] gap(-n, b) by {
        let c: u64 = if b < SIGN { (b + SIGN) as u64 } else { (b - SIGN) as u64 };
        assert(gap(n, c) == gap(-n, b));
    }
    assert forall|b: u64|
        is_finite(b) && scaled_value(b) != scaled_value(negative) && gap(-n, negative) == #[trigger] gap(-n, b)
        implies negative % 2 == 0 by {
        let c: u64 = if b < SIGN { (b + SIGN) as u64 } else { (b - SIGN) as u64 };
        assert(gap(n, c) == gap(-n, b));
    }
}

/// The double that `n` is rounded to.
pub fn nearest_to_u64(n: u64) -> (bits: u64)
    ensures
        is_nearest(n as int, bits),
        bits == nearest_double(n as int),
{
    let bits: u64 = round(n);
    proof {
        lemma_nearest_unique(n as int, bits, nearest_double(n as int));
    }
    bits
}

/// The double that `n` is rounded to.
pub fn nearest_to_i64(n: i64) -> (bits: u64)
    ensures
        is_nearest(n as int, bits),
        bits == nearest_double(n as int),
{
    if n >= 0 {
        nearest_to_u64(n as u64)
    } else {
        let m: u64 = (-(n + 1)) as u64 + 1;
        let bits: u64 = round(m) + SIGN;
        proof {
            lemma_nearest_negated(m as int, (bits - SIGN) as u64);
            lemma_nearest_unique(n as int, bits, nearest_double(n as int));
        }
        bits
    }
}

/// The double that `n` is rounded to.
fn round(n: u64) -> (bits: u64)
    ensures
        is_nearest(n as int, bits),
        bits < INFINITY,
{
    if n == 0 {
        proof {
            lemma_nearest_exact(0, 0);
        }
        return 0;
    }
    proof {
        lemma2_to64();
        lemma2_to64_rest();
    }
    let mut e: u64 = 0;
    let mut p: u64 = 1;
    while p <= n / 2
        invariant
            p == pow2(e as nat),
            0 < p <= n,
            e <= 63,
        decreases n - p,
    {
        proof {
            lemma_pow2_unfold((e + 1) as nat);
            if e >= 63 {
                lemma2_to64_rest();
            }
        }
        p = p * 2;
        e = e + 1;
    }
    let f: u64 = FRACTION;
    let base: u64 = (e + 1022) * f;
    if e <= 52 {
        proof {
            lemma_pow2_adds(e as nat, (52 - e) as nat);
            let k = pow2((52 - e) as nat) as int;
            lemma_pow2_pos((52 - e) as nat);
            assert(f == p * k);
            assert(f as int / p as int == k) by (nonlinear_arith)
                requires
                    f == p * k,
                    p > 0,
            ;
            assert(n * k >= f && n * k < 2 * f) by (nonlinear_arith)
                requires
                    f == p * k,
                    p <= n < 2 * p,
                    k > 0,
            ;
        }
        let m: u64 = n * (f / p);
        proof {
            let k = pow2((52 - e) as nat) as int;
            lemma_magnitude_of(e as nat, m as nat);
            lemma_pow2_adds((52 - e) as nat, (e + 1022) as nat);
            assert(m * pow2((e + 1022) as nat) == n * (k * pow2((e + 1022) as nat))) by (nonlinear_arith)
                requires
                    m == n * k,
            ;
            lemma_nearest_exact(n as int, (base + m) as u64);
        }
        base + m
    } else {
        let unit: u64 = p / f;
        proof {
            lemma_pow2_adds(52, (e - 52) as nat);
            let k = pow2((e - 52) as nat) as int;
            assert(p == f * k);
            assert(p as int / f as int == k) by (nonlinear_arith)
                requires
                    p == f * k,
                    f > 0,
            ;
        }
        let q: u64 = n / unit;
        let r: u64 = n % unit;
        proof {
            assert(n == q * unit + r && 0 <= r < unit) by (nonlinear_arith)
                requires
                    q == n as int / unit as int,
                    r == n as int % unit as int,
                    unit > 0,
            ;
            assert(f <= q < 2 * f) by (nonlinear_arith)
                requires
                    n == q * unit + r,
                    0 <= r < unit,
                    f * unit <= n < 2 * (f * unit),
            ;
        }
        let low: u64 = base + q;
        let half: u64 = unit / 2;
        let bits: u64 = if r > half || (r == half && q % 2 == 1) {
            low + 1
        } else {
            low
        };
        proof {
            let u = pow2(1074) as int;
            let t = n * u;
            let w = pow2((e + 1022) as nat) as int;
            lemma_pow2_pos(1074);
            lemma_pow2_adds((e - 52) as nat, 1074);
            lemma_magnitude_of(e as nat, q as nat);
            lemma_magnitude_of(e as nat, (q + 1) as nat);
            assert(scaled_value(low) == q * w);
            assert(scaled_value((low + 1) as u64) == (q + 1) * w);
            assert(w == unit * u);
            assert(t - q * w == r * u && (q + 1) * w - t == (unit - r) * u) by (nonlinear_arith)
                requires
                    t == n * u,
                    w == unit * u,
                    n == q * unit + r,
            ;
            lemma_pow2_unfold((e - 52) as nat);
            assert(unit == 2 * half);
            if r == 0 {
                assert(bits == low);
                assert(r * u == 0) by (nonlinear_arith)
                    requires
                        r == 0,
                ;
                lemma_nearest_exact(n as int, low);
            } else {
                assert(0 < r * u && 0 < (unit - r) * u) by (nonlinear_arith)
                    requires
                        0 < r < unit,
                        u > 0,
                ;
                if r < half {
                    lemma_mul_strict_inequality(r as int, unit - r, u);
                } else if r > half {
                    lemma_mul_strict_inequality(unit - r, r as int, u);
                }
                assert(low % 2 == q % 2);
                lemma_nearest_of_two(n as int, low, bits);
            }
        }
        bits
    }
}

}
