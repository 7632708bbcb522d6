//! Laws of binary64 arithmetic: what rounding keeps, and how order and value agree.
use vstd::arithmetic::div_mod::*;
use vstd::arithmetic::mul::*;
use vstd::arithmetic::power2::*;
use vstd::prelude::*;

use crate::double::Double;
use crate::rounding::{INF_MAG, P52, P53};

verus! {

/// A larger fraction has no smaller a nearest whole number.
pub proof fn nearest_is_monotone(num1: nat, den1: nat, num2: nat, den2: nat)
    requires
        den1 > 0,
        den2 > 0,
        num1 * den2 <= num2 * den1,
    ensures
        crate::rounding::nearest(num1, den1) <= crate::rounding::nearest(num2, den2),
{
    let q1 = num1 / den1;
    let r1 = num1 % den1;
    let q2 = num2 / den2;
    let r2 = num2 % den2;
    lemma_fundamental_div_mod(num1 as int, den1 as int);
    lemma_fundamental_div_mod(num2 as int, den2 as int);
    lemma_mod_bound(num1 as int, den1 as int);
    lemma_mod_bound(num2 as int, den2 as int);
    assert(q1 <= q2) by (nonlinear_arith)
        requires
            num1 == den1 * q1 + r1,
            num2 == den2 * q2 + r2,
            0 <= r1,
            r2 < den2,
            num1 * den2 <= num2 * den1,
            den1 > 0,
            den2 > 0,
    ;
    if q1 == q2 {
        assert(r1 * den2 <= r2 * den1) by (nonlinear_arith)
            requires
                num1 == den1 * q1 + r1,
                num2 == den2 * q1 + r2,
                num1 * den2 <= num2 * den1,
        ;
        assert(2 * r2 < den2 ==> 2 * r1 < den1) by (nonlinear_arith)
            requires
                r1 * den2 <= r2 * den1,
                den1 > 0,
                den2 > 0,
        ;
        assert(2 * r2 == den2 ==> 2 * r1 <= den1) by (nonlinear_arith)
            requires
                r1 * den2 <= r2 * den1,
                den1 > 0,
                den2 > 0,
        ;
    }
}

/// A larger number rounds to no smaller a magnitude.
pub proof fn rounding_is_monotone(num1: nat, den1: nat, num2: nat, den2: nat)
    requires
        den1 > 0,
        den2 > 0,
        num1 * den2 <= num2 * den1,
    ensures
        crate::rounding::round_mag(num1, den1) <= crate::rounding::round_mag(num2, den2),
{
    let k1 = crate::rounding::ulp_exp(num1, den1);
    let k2 = crate::rounding::ulp_exp(num2, den2);
    let p1 = pow2(k1);
    let p2 = pow2(k2);
    let n1 = crate::rounding::nearest(num1, den1 * p1);
    let n2 = crate::rounding::nearest(num2, den2 * p2);
    lemma_pow2_pos(k1);
    lemma_pow2_pos(k2);
    crate::rounding::lemma_ulp_exp_bounds(num1, den1);
    crate::rounding::lemma_ulp_exp_bounds(num2, den2);
    lemma_mul_strictly_positive(den1 as int, p1 as int);
    lemma_mul_strictly_positive(den2 as int, p2 as int);
    if k1 == k2 {
        assert(num1 * (den2 * p1) <= num2 * (den1 * p1)) by (nonlinear_arith)
            requires
                num1 * den2 <= num2 * den1,
                p1 > 0,
        ;
        nearest_is_monotone(num1, den1 * p1, num2, den2 * p2);
    } else if k1 < k2 {
        // At most 2^53 in the lower place, at least 2^52 in the higher one.
        assert(num1 <= den1 * p1 * P53) by (nonlinear_arith)
            requires
                num1 < den1 * P53 * p1,
        ;
        assert(num2 >= den2 * p2 * P52) by (nonlinear_arith)
            requires
                num2 >= den2 * P52 * p2,
        ;
        lemma_nearest_at_most(num1, den1 * p1, P53 as nat);
        lemma_nearest_at_least(num2, den2 * p2, P52 as nat);
        assert(k1 * P52 + n1 <= k2 * P52 + n2) by (nonlinear_arith)
            requires
                k1 + 1 <= k2,
                n1 <= P53,
                n2 >= P52,
                P53 == 2 * P52,
        ;
    } else {
        crate::rounding::lemma_pow2_ge_double(k2, k1);
        assert(num1 >= den1 * P53 * p2) by (nonlinear_arith)
            requires
                num1 >= den1 * P52 * p1,
                p1 >= 2 * p2,
                P53 == 2 * P52,
        ;
        assert(num1 * den2 >= (den2 * P53 * p2) * den1) by (nonlinear_arith)
            requires
                num1 >= den1 * P53 * p2,
                den2 > 0,
        ;
        assert((den2 * P53 * p2) * den1 > num2 * den1) by (nonlinear_arith)
            requires
                num2 < den2 * P53 * p2,
                den1 > 0,
        ;
        assert(false);
    }
}

proof fn lemma_nearest_at_most(num: nat, den: nat, bound: nat)
    requires
        den > 0,
    ensures
        num <= den * bound ==> crate::rounding::nearest(num, den) <= bound,
{
    if num <= den * bound {
        lemma_nearest_whole(bound, den);
        lemma_mul_is_commutative(den as int, bound as int);
        assert(num * den <= (bound * den) * den) by (nonlinear_arith)
            requires
                num <= bound * den,
        ;
        nearest_is_monotone(num, den, bound * den, den);
    }
}

proof fn lemma_nearest_at_least(num: nat, den: nat, bound: nat)
    requires
        den > 0,
        num >= den * bound,
    ensures
        crate::rounding::nearest(num, den) >= bound,
{
    lemma_nearest_whole(bound, den);
    lemma_mul_is_commutative(den as int, bound as int);
    assert((bound * den) * den <= num * den) by (nonlinear_arith)
        requires
            num >= bound * den,
    ;
    nearest_is_monotone(bound * den, den, num, den);
}

proof fn lemma_nearest_whole(q: nat, den: nat)
    requires
        den > 0,
    ensures
        crate::rounding::nearest(q * den, den) == q,
{
    lemma_mul_is_commutative(den as int, q as int);
    crate::rounding::lemma_div_mod_is(q * den, den, q, 0);
}

/// A number with a significand of at most 53 bits is kept as it is, when it is not
/// too large.
pub proof fn rounding_keeps_representable(num: nat, den: nat, s: nat, k: nat)
    requires
        den > 0,
        s < P53,
        num == s * pow2(k) * den,
        crate::rounding::round_mag(num, den) < INF_MAG,
    ensures
        crate::rounding::mag_units(crate::rounding::round_mag(num, den)) == s * pow2(k),
{
    let j = crate::rounding::ulp_exp(num, den);
    let pj = pow2(j);
    let pk = pow2(k);
    crate::rounding::lemma_ulp_exp_bounds(num, den);
    lemma_pow2_pos(j);
    lemma_pow2_pos(k);
    if j > k {
        crate::rounding::lemma_pow2_ge_double(k, j);
        assert(num < den * P52 * pj) by (nonlinear_arith)
            requires
                num == s * pk * den,
                s < P53,
                pj >= 2 * pk,
                P53 == 2 * P52,
                den > 0,
                pk > 0,
        ;
        assert(false);
    }
    let d = (k - j) as nat;
    let pd = pow2(d);
    lemma_pow2_adds(j, d);
    let t = s * pd;
    assert(num == t * (den * pj)) by (nonlinear_arith)
        requires
            num == s * (pj * pd) * den,
            t == s * pd,
    ;
    lemma_mul_strictly_positive(den as int, pj as int);
    lemma_nearest_whole(t, den * pj);
    assert(t < P53) by (nonlinear_arith)
        requires
            num == t * (den * pj),
            num < den * P53 * pj,
            den * pj > 0,
    ;
    if j > 0 {
        assert(t >= P52) by (nonlinear_arith)
            requires
                num == t * (den * pj),
                num >= den * P52 * pj,
                den * pj > 0,
        ;
    }
    let m = crate::rounding::round_mag(num, den);
    assert(m == j * P52 + t);
    if m >= P52 {
        let q = if t >= P52 {
            j + 1
        } else {
            j
        };
        let r = if t >= P52 {
            t - P52
        } else {
            t as int
        };
        assert(m == P52 as nat * q + r as nat) by (nonlinear_arith)
            requires
                m == j * P52 + t,
                t >= P52 ==> q == j + 1 && r == t - P52,
                t < P52 ==> q == j && r == t,
        ;
        crate::rounding::lemma_div_mod_is(m, P52 as nat, q, r as nat);
        assert(crate::rounding::mag_exp(m) == j);
    }
    assert(crate::rounding::mag_sig(m) == t);
    assert(t * pj == s * pk) by (nonlinear_arith)
        requires
            t == s * pd,
            pk == pj * pd,
    ;
}

/// The number that magnitude bits encode rounds to those bits.
pub proof fn rounding_inverts_decoding(m: nat, den: nat)
    requires
        den > 0,
        m < INF_MAG,
    ensures
        crate::rounding::round_mag(crate::rounding::mag_units(m) * den, den) == m,
{
    let k = crate::rounding::mag_exp(m);
    let s = crate::rounding::mag_sig(m);
    let num = s * pow2(k) * den;
    let p = pow2(k);
    lemma_pow2_pos(k);
    assert(num < den * P53 * p) by (nonlinear_arith)
        requires
            num == s * p * den,
            s < P53,
            den > 0,
            p > 0,
    ;
    if k > 0 {
        assert(num >= den * P52 * p) by (nonlinear_arith)
            requires
                num == s * p * den,
                s >= P52,
                den > 0,
                p > 0,
        ;
    }
    crate::rounding::lemma_ulp_exp_unique(num, den, k);
    lemma_mul_strictly_positive(den as int, p as int);
    assert(num == s * (den * p)) by (nonlinear_arith)
        requires
            num == s * p * den,
    ;
    lemma_nearest_whole(s, den * p);
}

/// What is at most a finite number rounds to at most its bits.
pub proof fn rounding_stays_below(num: nat, den: nat, m: nat)
    requires
        den > 0,
        m < INF_MAG,
        num <= crate::rounding::mag_units(m) * den,
    ensures
        crate::rounding::round_mag(num, den) <= m,
{
    let top = crate::rounding::mag_units(m) * den;
    rounding_inverts_decoding(m, den);
    assert(num * den <= top * den) by (nonlinear_arith)
        requires
            num <= top,
    ;
    rounding_is_monotone(num, den, top, den);
}

/// The order of finite numbers is the order of their values.
pub proof fn order_agrees_with_value(a: Double, b: Double)
    requires
        a.is_finite(),
        b.is_finite(),
    ensures
        a.lt(b) == (a.units() < b.units()),
        a.le(b) == (a.units() <= b.units()),
        a.same(b) == (a.units() == b.units()),
{
    lemma_units_zero();
    if a.mag() < b.mag() {
        crate::magnitude::lemma_mag_units_increase(a.mag(), b.mag());
    }
    if b.mag() < a.mag() {
        crate::magnitude::lemma_mag_units_increase(b.mag(), a.mag());
    }
    if a.mag() > 0 {
        crate::magnitude::lemma_mag_units_increase(0, a.mag());
    }
    if b.mag() > 0 {
        crate::magnitude::lemma_mag_units_increase(0, b.mag());
    }
}

pub(crate) proof fn lemma_units_zero()
    ensures
        crate::rounding::mag_units(0) == 0,
{
    assert(crate::rounding::mag_sig(0) == 0);
    lemma_mul_basics(pow2(0) as int);
}

// ---------------------------------------------------------------------------
// Ranges
// ---------------------------------------------------------------------------

/// Not negative, and at most `2^k`.
pub open spec fn at_most(x: Double, k: int) -> bool {
    !x.negative() && x.mag() <= (1023 + k) * P52
}

/// Positive, finite, and at least `2^-k`.
pub open spec fn at_least(x: Double, k: int) -> bool {
    !x.negative() && (1023 - k) * P52 <= x.mag() < INF_MAG
}

pub(crate) proof fn lemma_units_of_power(b: nat)
    requires
        b > 0,
    ensures
        crate::rounding::mag_units((b * P52) as nat) == pow2((b + 51) as nat),
{
    lemma2_to64_rest();
    assert(pow2(52) == P52);
    lemma_pow2_adds(52, (b - 1) as nat);
    let m = (b * P52) as nat;
    assert(m == P52 as nat * b + 0) by (nonlinear_arith)
        requires
            m == b * P52,
    ;
    crate::rounding::lemma_div_mod_is(m, P52 as nat, b, 0);
    assert(m >= P52) by (nonlinear_arith)
        requires
            m == b * P52,
            b >= 1,
    ;
    assert(crate::rounding::mag_exp(m) == b - 1);
    assert(b * P52 - (b - 1) * P52 == P52) by (nonlinear_arith);
}

pub(crate) proof fn lemma_mag_units_le(a: nat, b: nat)
    requires
        a <= b,
    ensures
        crate::rounding::mag_units(a) <= crate::rounding::mag_units(b),
{
    if a < b {
        crate::magnitude::lemma_mag_units_increase(a, b);
    }
}

pub(crate) proof fn lemma_at_most_units(x: Double, k: int)
    requires
        at_most(x, k),
        0 <= k <= 1000,
    ensures
        x.is_finite(),
        crate::rounding::mag_units(x.mag()) <= pow2((1074 + k) as nat),
{
    lemma_units_of_power((1023 + k) as nat);
    lemma_mag_units_le(x.mag(), ((1023 + k) * P52) as nat);
}

pub(crate) proof fn lemma_at_least_units(x: Double, k: int)
    requires
        at_least(x, k),
        0 <= k <= 1000,
    ensures
        crate::rounding::mag_units(x.mag()) >= pow2((1074 - k) as nat),
{
    lemma_units_of_power((1023 - k) as nat);
    lemma_mag_units_le(((1023 - k) * P52) as nat, x.mag());
}

pub(crate) proof fn lemma_round_at_most(num: nat, den: nat, k: int)
    requires
        den > 0,
        0 <= k <= 1000,
        num <= pow2((1074 + k) as nat) * den,
    ensures
        crate::rounding::round_mag(num, den) <= (1023 + k) * P52,
{
    lemma_units_of_power((1023 + k) as nat);
    rounding_stays_below(num, den, ((1023 + k) * P52) as nat);
}

pub(crate) proof fn lemma_round_at_least(num: nat, den: nat, k: int)
    requires
        den > 0,
        0 <= k <= 1000,
        num >= pow2((1074 - k) as nat) * den,
    ensures
        crate::rounding::round_mag(num, den) >= (1023 - k) * P52,
{
    let m = ((1023 - k) * P52) as nat;
    lemma_units_of_power((1023 - k) as nat);
    rounding_inverts_decoding(m, den);
    let low = crate::rounding::mag_units(m) * den;
    assert(low * den <= num * den) by (nonlinear_arith)
        requires
            low <= num,
    ;
    rounding_is_monotone(low, den, num, den);
}

/// A product is at most the product of the bounds.
pub proof fn times_at_most(x: Double, k: int, y: Double, j: int)
    requires
        at_most(x, k),
        at_most(y, j),
        0 <= k,
        0 <= j,
        k + j <= 1000,
    ensures
        at_most(x.times(y), k + j),
{
    reveal(Double::spec_times);
    lemma_at_most_units(x, k);
    lemma_at_most_units(y, j);
    let ux = crate::rounding::mag_units(x.mag());
    let uy = crate::rounding::mag_units(y.mag());
    let a = pow2((1074 + k) as nat);
    let b = pow2((1074 + j) as nat);
    lemma_pow2_adds((1074 + k) as nat, (1074 + j) as nat);
    lemma_pow2_adds((1074 + k + j) as nat, 1074);
    lemma_pow2_pos(1074);
    assert(ux * uy <= a * b) by (nonlinear_arith)
        requires
            ux <= a,
            uy <= b,
    ;
    lemma_round_at_most(ux * uy, pow2(1074), k + j);
    lemma_signed_mag(crate::rounding::round_mag(ux * uy, pow2(1074)));
}

/// A product is at least the product of the bounds.
pub proof fn times_at_least(x: Double, k: int, y: Double, j: int)
    requires
        at_least(x, k),
        at_least(y, j),
        0 <= k,
        0 <= j,
        k + j <= 1000,
        x.times(y).is_finite(),
    ensures
        at_least(x.times(y), k + j),
{
    reveal(Double::spec_times);
    lemma_at_least_units(x, k);
    lemma_at_least_units(y, j);
    let ux = crate::rounding::mag_units(x.mag());
    let uy = crate::rounding::mag_units(y.mag());
    let a = pow2((1074 - k) as nat);
    let b = pow2((1074 - j) as nat);
    lemma_pow2_adds((1074 - k) as nat, (1074 - j) as nat);
    lemma_pow2_adds((1074 - k - j) as nat, 1074);
    lemma_pow2_pos(1074);
    assert(ux * uy >= a * b) by (nonlinear_arith)
        requires
            ux >= a,
            uy >= b,
    ;
    lemma_round_at_least(ux * uy, pow2(1074), k + j);
    lemma_signed_mag(crate::rounding::round_mag(ux * uy, pow2(1074)));
}

/// A quotient is at most the quotient of the bounds.
pub proof fn over_at_most(x: Double, k: int, y: Double, j: int)
    requires
        at_most(x, k),
        at_least(y, j),
        0 <= k,
        0 <= j,
        k + j <= 1000,
    ensures
        at_most(x.over(y), k + j),
{
    reveal(Double::spec_over);
    lemma_at_most_units(x, k);
    lemma_at_least_units(y, j);
    let ux = crate::rounding::mag_units(x.mag());
    let uy = crate::rounding::mag_units(y.mag());
    let a = pow2((1074 + k) as nat);
    let b = pow2((1074 - j) as nat);
    let c = pow2((1074 + k + j) as nat);
    let h = pow2(1074);
    lemma_pow2_pos((1074 - j) as nat);
    lemma_pow2_adds((1074 + k + j) as nat, (1074 - j) as nat);
    lemma_pow2_adds((1074 + k) as nat, 1074);
    assert(a * h == c * b);
    assert(ux * h <= c * uy) by (nonlinear_arith)
        requires
            ux <= a,
            uy >= b,
            a * h == c * b,
            h >= 0,
            c >= 0,
    ;
    lemma_units_zero();
    lemma_round_at_most(ux * h, uy, k + j);
    lemma_signed_mag(crate::rounding::round_mag(ux * h, uy));
}

/// A quotient is at least the quotient of the bounds.
pub proof fn over_at_least(x: Double, k: int, y: Double, j: int)
    requires
        at_least(x, k),
        at_most(y, j),
        y.mag() > 0,
        0 <= k,
        0 <= j,
        k + j <= 1000,
        x.over(y).is_finite(),
    ensures
        at_least(x.over(y), k + j),
{
    reveal(Double::spec_over);
    lemma_at_least_units(x, k);
    lemma_at_most_units(y, j);
    lemma_units_zero();
    crate::magnitude::lemma_mag_units_increase(0, y.mag());
    let ux = crate::rounding::mag_units(x.mag());
    let uy = crate::rounding::mag_units(y.mag());
    let a = pow2((1074 - k) as nat);
    let b = pow2((1074 + j) as nat);
    let c = pow2((1074 - k - j) as nat);
    let h = pow2(1074);
    lemma_pow2_adds((1074 - k - j) as nat, (1074 + j) as nat);
    lemma_pow2_adds((1074 - k) as nat, 1074);
    assert(a * h == c * b);
    assert(ux * h >= c * uy) by (nonlinear_arith)
        requires
            ux >= a,
            uy <= b,
            a * h == c * b,
            h >= 0,
            c >= 0,
    ;
    lemma_round_at_least(ux * h, uy, k + j);
    lemma_signed_mag(crate::rounding::round_mag(ux * h, uy));
}

/// A sum is at most twice the larger bound.
pub proof fn plus_at_most(x: Double, y: Double, k: int)
    requires
        at_most(x, k),
        at_most(y, k),
        0 <= k < 1000,
    ensures
        at_most(x.plus(y), k + 1),
{
    reveal(Double::spec_plus);
    lemma_at_most_units(x, k);
    lemma_at_most_units(y, k);
    let ux = crate::rounding::mag_units(x.mag());
    let uy = crate::rounding::mag_units(y.mag());
    lemma_pow2_unfold((1074 + k + 1) as nat);
    lemma_round_at_most(ux + uy, 1, k + 1);
    lemma_signed_mag(crate::rounding::round_mag(ux + uy, 1));
}

/// A sum of numbers that are not negative is at least each of them.
pub proof fn plus_at_least(x: Double, k: int, y: Double)
    requires
        at_least(x, k),
        !y.negative(),
        y.is_finite(),
        0 <= k <= 1000,
        x.plus(y).is_finite(),
    ensures
        at_least(x.plus(y), k),
{
    reveal(Double::spec_plus);
    lemma_at_least_units(x, k);
    let ux = crate::rounding::mag_units(x.mag());
    let uy = crate::rounding::mag_units(y.mag());
    lemma_pow2_pos((1074 - k) as nat);
    lemma_round_at_least(ux + uy, 1, k);
    lemma_signed_mag(crate::rounding::round_mag(ux + uy, 1));
}

pub(crate) proof fn lemma_signed_mag(m: nat)
    requires
        m <= INF_MAG,
    ensures
        Double::signed(false, m).mag() == m,
        !Double::signed(false, m).negative(),
        Double::signed(true, m).mag() == m,
        Double::signed(true, m).negative(),
{
}

/// A whole number is at most `2^64`, and at least one unless it is zero.
pub proof fn whole_is_small(n: u64)
    ensures
        at_most(Double::whole(n), 64),
        n > 0 ==> at_least(Double::whole(n), 0),
        n == 0 ==> Double::whole(n) == Double::zero(),
{
    reveal(Double::spec_whole);
    let h = pow2(1074);
    lemma2_to64_rest();
    lemma_pow2_adds(64, 1074);
    lemma_pow2_pos(1074);
    assert(n as nat * h <= pow2(1138) * 1) by (nonlinear_arith)
        requires
            n <= 0x1_0000_0000_0000_0000,
            pow2(1138) == 0x1_0000_0000_0000_0000 * h,
    ;
    lemma_round_at_most(n as nat * h, 1, 64);
    lemma_signed_mag(crate::rounding::round_mag(n as nat * h, 1));
    if n > 0 {
        assert(n as nat * h >= h * 1) by (nonlinear_arith)
            requires
                n >= 1,
        ;
        lemma_round_at_least(n as nat * h, 1, 0);
    } else {
        crate::magnitude::lemma_round_mag_zero(1);
    }
}

/// A fraction of numbers below `2^53` lies between `2^-53` and `2^53`, unless it is zero.
pub proof fn ratio_is_moderate(n: u64, d: u64)
    requires
        0 < n < P53,
        0 < d < P53,
    ensures
        at_most(Double::ratio(n, d), 53),
        at_least(Double::ratio(n, d), 53),
{
    reveal(Double::spec_ratio);
    let h = pow2(1074);
    let low = pow2(1021);
    lemma2_to64_rest();
    lemma_pow2_adds(53, 1074);
    lemma_pow2_adds(53, 1021);
    lemma_pow2_pos(1074);
    assert(pow2(53) == P53);
    assert(n as nat * h <= pow2(1127) * d) by (nonlinear_arith)
        requires
            n <= P53,
            d >= 1,
            pow2(1127) == P53 * h,
    ;
    assert(n as nat * h >= low * d) by (nonlinear_arith)
        requires
            n >= 1,
            d <= P53,
            h == P53 * low,
    ;
    lemma_round_at_most(n as nat * h, d as nat, 53);
    lemma_round_at_least(n as nat * h, d as nat, 53);
    lemma_signed_mag(crate::rounding::round_mag(n as nat * h, d as nat));
}

/// What has a positive lower bound and an upper one is a positive finite number.
pub proof fn bounded_is_positive(x: Double, k: int)
    requires
        at_least(x, k),
        0 <= k <= 1000,
    ensures
        x.is_finite(),
        x.gt(Double::zero()),
        x.mag() > 0,
{
    assert((1023 - k) * P52 > 0) by (nonlinear_arith)
        requires
            k <= 1000,
    ;
}

/// Addition does not depend on the order of its operands, but for the bits that the two
/// infinities or zeros are written with.
pub proof fn plus_commutes(x: Double, y: Double)
    ensures
        x.plus(y) == y.plus(x),
{
    reveal(Double::spec_plus);
    if x.spec_is_infinite() && y.spec_is_infinite() && x.negative() == y.negative() {
        assert(x.bits == y.bits);
    } else if x.is_finite() && y.is_finite() {
        assert(x.units() + y.units() == y.units() + x.units());
    }
}

/// Rounding keeps the order of signed values.
pub proof fn rounding_keeps_order(a: int, b: int, zero_a: bool, zero_b: bool)
    requires
        a <= b,
    ensures
        Double::rounded(a, 1, zero_a).le(Double::rounded(b, 1, zero_b)),
{
    let ra = Double::rounded(a, 1, zero_a);
    let rb = Double::rounded(b, 1, zero_b);
    let ma = crate::rounding::round_mag(
        if a < 0 {
            (-a) as nat
        } else {
            a as nat
        },
        1,
    );
    let mb = crate::rounding::round_mag(
        if b < 0 {
            (-b) as nat
        } else {
            b as nat
        },
        1,
    );
    lemma_signed_mag(ma);
    lemma_signed_mag(mb);
    lemma_signed_mag(0);
    crate::magnitude::lemma_round_mag_zero(1);
    if a >= 0 {
        rounding_is_monotone(a as nat, 1, b as nat, 1);
    } else if b <= 0 {
        rounding_is_monotone((-b) as nat, 1, (-a) as nat, 1);
    }
}

/// A finite number is what its value rounds to.
pub proof fn rounding_keeps_finite(x: Double, zero_negative: bool)
    requires
        x.is_finite(),
    ensures
        Double::rounded(x.units(), 1, zero_negative).same(x),
{
    lemma_units_zero();
    lemma_signed_mag(x.mag());
    lemma_signed_mag(0);
    rounding_inverts_decoding(x.mag(), 1);
    lemma_mul_basics(crate::rounding::mag_units(x.mag()) as int);
    if x.mag() > 0 {
        crate::magnitude::lemma_mag_units_increase(0, x.mag());
    }
}

/// A product of finite numbers that are not below zero is a number not below zero.
pub proof fn product_is_nonnegative(x: Double, y: Double)
    requires
        x.is_finite(),
        y.is_finite(),
        x.ge(Double::zero()),
        y.ge(Double::zero()),
    ensures
        x.times(y).ge(Double::zero()),
{
    reveal(Double::spec_times);
    let ux = crate::rounding::mag_units(x.mag());
    let uy = crate::rounding::mag_units(y.mag());
    let m = crate::rounding::round_mag(ux * uy, pow2(1074));
    lemma_signed_mag(m);
    if x.negative() || y.negative() {
        lemma_units_zero();
        assert(ux * uy == 0) by (nonlinear_arith)
            requires
                ux == 0 || uy == 0,
        ;
        lemma_pow2_pos(1074);
        crate::magnitude::lemma_round_mag_zero(pow2(1074));
    }
}

/// A finite number not below zero, over a number of at least one, is finite and not below
/// zero.
pub proof fn quotient_is_nonnegative(x: Double, y: Double)
    requires
        x.is_finite(),
        x.ge(Double::zero()),
        at_least(y, 0),
    ensures
        x.over(y).is_finite(),
        x.over(y).ge(Double::zero()),
{
    reveal(Double::spec_over);
    let ux = crate::rounding::mag_units(x.mag());
    let uy = crate::rounding::mag_units(y.mag());
    let h = pow2(1074);
    lemma_at_least_units(y, 0);
    lemma_pow2_pos(1074);
    lemma_units_zero();
    assert(ux * h <= ux * uy) by (nonlinear_arith)
        requires
            h <= uy,
    ;
    rounding_stays_below(ux * h, uy, x.mag());
    lemma_signed_mag(crate::rounding::round_mag(ux * h, uy));
}

/// Going down by what is not below zero does not go up, and going up does not go down.
pub proof fn steps_are_ordered(c: Double, d: Double)
    requires
        c.is_finite(),
        d.ge(Double::zero()),
    ensures
        c.minus(d).le(c),
        c.le(c.plus(d)),
{
    reveal(Double::spec_plus);
    let minus_d = d.negate();
    if d.is_finite() {
        lemma_units_zero();
        if d.mag() > 0 {
            crate::magnitude::lemma_mag_units_increase(0, d.mag());
        }
        assert(d.units() >= 0);
        assert(minus_d.units() == -d.units());
        rounding_keeps_finite(c, false);
        let down = c.negative() && minus_d.negative();
        let up = c.negative() && d.negative();
        rounding_keeps_order(c.units() + minus_d.units(), c.units(), down, false);
        rounding_keeps_order(c.units(), c.units() + d.units(), false, up);
    }
}

/// A target held within reach of a finite number is finite if it was.
pub proof fn clamp_within_reach(target: Double, c: Double, d: Double)
    requires
        target.is_finite(),
        c.is_finite(),
        d.ge(Double::zero()),
    ensures
        c.minus(d).le(c.plus(d)),
        target.clamp(c.minus(d), c.plus(d)).is_finite(),
        c.minus(d).le(target.clamp(c.minus(d), c.plus(d))),
        target.clamp(c.minus(d), c.plus(d)).le(c.plus(d)),
{
    steps_are_ordered(c, d);
}

/// Multiplying by one changes nothing.
pub proof fn times_one(x: Double)
    requires
        x.is_finite(),
    ensures
        x.times(Double::one()) == x,
{
    reveal(Double::spec_times);
    lemma_units_of_power(1023);
    lemma_pow2_pos(1074);
    rounding_inverts_decoding(x.mag(), pow2(1074));
    lemma_signed_mag(x.mag());
}

/// Adding a zero to what is not zero changes nothing.
pub proof fn plus_zero(zero: Double, x: Double)
    requires
        zero.mag() == 0,
        x.is_finite(),
        x.mag() > 0,
    ensures
        zero.plus(x) == x,
        x.plus(zero) == x,
{
    reveal(Double::spec_plus);
    lemma_units_zero();
    crate::magnitude::lemma_mag_units_increase(0, x.mag());
    rounding_inverts_decoding(x.mag(), 1);
    lemma_mul_basics(crate::rounding::mag_units(x.mag()) as int);
    lemma_signed_mag(x.mag());
}

/// A share of a number is no more than the number, and not below zero.
pub proof fn share_is_no_more(x: Double, share: Double)
    requires
        x.is_finite(),
        x.ge(Double::zero()),
        share.ge(Double::zero()),
        share.le(Double::one()),
    ensures
        x.times(share).le(x),
        x.times(share).ge(Double::zero()),
{
    product_is_nonnegative(x, share);
    reveal(Double::spec_times);
    let ux = crate::rounding::mag_units(x.mag());
    let us = crate::rounding::mag_units(share.mag());
    let h = pow2(1074);
    lemma_units_of_power(1023);
    lemma_pow2_pos(1074);
    lemma_units_zero();
    lemma_mag_units_le(share.mag(), Double::one().mag());
    assert(ux * us <= ux * h) by (nonlinear_arith)
        requires
            us <= h,
    ;
    rounding_stays_below(ux * us, h, x.mag());
    lemma_signed_mag(crate::rounding::round_mag(ux * us, h));
}

/// Division by a positive number keeps the order.
pub proof fn quotients_keep_order(a: Double, b: Double, c: Double)
    requires
        a.ge(Double::zero()),
        a.le(b),
        b.is_finite(),
        c.is_finite(),
        c.gt(Double::zero()),
    ensures
        a.over(c).le(b.over(c)),
        a.over(c).ge(Double::zero()),
{
    reveal(Double::spec_over);
    let ua = crate::rounding::mag_units(a.mag());
    let ub = crate::rounding::mag_units(b.mag());
    let uc = crate::rounding::mag_units(c.mag());
    let h = pow2(1074);
    lemma_units_zero();
    crate::magnitude::lemma_mag_units_increase(0, c.mag());
    lemma_mag_units_le(a.mag(), b.mag());
    assert(ua * h * uc <= ub * h * uc) by (nonlinear_arith)
        requires
            ua <= ub,
    ;
    rounding_is_monotone(ua * h, uc, ub * h, uc);
    lemma_signed_mag(crate::rounding::round_mag(ua * h, uc));
    lemma_signed_mag(crate::rounding::round_mag(ub * h, uc));
    crate::magnitude::lemma_round_mag_zero(uc);
    assert(ua == 0 ==> ua * h == 0) by (nonlinear_arith);
    assert(ub == 0 ==> ub * h == 0) by (nonlinear_arith);
}

/// A finite number times a zero is a zero.
pub proof fn times_zero(x: Double, zero: Double)
    requires
        x.is_finite(),
        zero.mag() == 0,
    ensures
        x.times(zero).mag() == 0,
        x.times(zero).same(Double::zero()),
{
    reveal(Double::spec_times);
    lemma_units_zero();
    let ux = crate::rounding::mag_units(x.mag());
    assert(ux * 0 == 0) by (nonlinear_arith);
    lemma_pow2_pos(1074);
    crate::magnitude::lemma_round_mag_zero(pow2(1074));
    lemma_signed_mag(0);
}

/// What is no more than another number, less that number, is not above zero.
pub proof fn difference_is_not_positive(a: Double, b: Double)
    requires
        a.is_finite(),
        b.is_finite(),
        a.le(b),
    ensures
        a.minus(b).le(Double::zero()),
{
    reveal(Double::spec_plus);
    order_agrees_with_value(a, b);
    lemma_signed_mag(b.mag());
    assert(b.negate().units() == -b.units());
    rounding_keeps_order(
        a.units() + b.negate().units(),
        0,
        a.negative() && b.negate().negative(),
        false,
    );
}

/// A zero times a finite number is a zero.
pub proof fn zero_times(zero: Double, x: Double)
    requires
        x.is_finite(),
        zero.mag() == 0,
    ensures
        zero.times(x).mag() == 0,
        zero.times(x).same(Double::zero()),
{
    reveal(Double::spec_times);
    lemma_units_zero();
    let ux = crate::rounding::mag_units(x.mag());
    assert(0 * ux == 0) by (nonlinear_arith);
    lemma_pow2_pos(1074);
    crate::magnitude::lemma_round_mag_zero(pow2(1074));
    lemma_signed_mag(0);
}

/// Zeros add up to a zero.
pub proof fn sum_of_zeros(a: Double, b: Double)
    requires
        a.mag() == 0,
        b.mag() == 0,
    ensures
        a.plus(b).mag() == 0,
{
    reveal(Double::spec_plus);
    lemma_units_zero();
    lemma_signed_mag(0);
}

/// Dividing by one changes nothing.
pub proof fn over_one(x: Double)
    requires
        x.is_finite(),
    ensures
        x.over(Double::one()) == x,
{
    reveal(Double::spec_over);
    lemma_units_of_power(1023);
    lemma_pow2_pos(1074);
    rounding_inverts_decoding(x.mag(), pow2(1074));
    lemma_signed_mag(x.mag());
}

/// A finite number over one of at least one is finite.
pub proof fn over_at_least_one_is_finite(x: Double, y: Double)
    requires
        x.is_finite(),
        at_least(y, 0),
    ensures
        x.over(y).is_finite(),
{
    quotient_is_nonnegative(x.abs(), y);
    reveal(Double::spec_over);
    lemma_signed_mag(x.mag());
    let m = crate::rounding::round_mag(
        crate::rounding::mag_units(x.mag()) * pow2(1074),
        crate::rounding::mag_units(y.mag()),
    );
    lemma_signed_mag(m);
}

/// What adds up to a finite number is finite.
pub(crate) proof fn lemma_sum_of_finite(a: Double, b: Double)
    requires
        a.plus(b).is_finite(),
    ensures
        a.is_finite(),
        b.is_finite(),
{
    reveal(Double::spec_plus);
}

/// The factors of a finite product are finite.
pub(crate) proof fn lemma_product_of_finite(a: Double, b: Double)
    requires
        a.times(b).is_finite(),
    ensures
        a.is_finite(),
        b.is_finite(),
{
    reveal(Double::spec_times);
    lemma_signed_mag(INF_MAG as nat);
}

pub(crate) proof fn lemma_one_unit()
    ensures
        crate::rounding::mag_units(1) == 1,
{
    lemma2_to64();
    assert(crate::rounding::mag_sig(1) == 1);
}

/// What gives a finite quotient with a finite divisor is finite.
pub(crate) proof fn lemma_quotient_of_finite(a: Double, b: Double)
    requires
        a.over(b).is_finite(),
        b.is_finite(),
    ensures
        a.is_finite(),
{
    reveal(Double::spec_over);
    lemma_signed_mag(INF_MAG as nat);
}

} // verus!
