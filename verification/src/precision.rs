//! How close rounded arithmetic comes to exact arithmetic.
use vstd::arithmetic::div_mod::*;
use vstd::arithmetic::mul::*;
use vstd::arithmetic::power2::*;
use vstd::prelude::*;

use crate::double::Double;
use crate::rounding::{INF_MAG, P52, P53};

verus! {

/// 2^34.
pub const P34: u64 = 0x4_0000_0000;

/// 2^38.
pub const P38: u64 = 0x40_0000_0000;

/// 2^43.
pub const P43: u64 = 0x800_0000_0000;

/// 2^44.
pub const P44: u64 = 0x1000_0000_0000;

/// 2^46.
pub const P46: u64 = 0x4000_0000_0000;

/// 2^47.
pub const P47: u64 = 0x8000_0000_0000;

/// 2^48.
pub const P48: u64 = 0x1_0000_0000_0000;

/// 2^50.
pub const P50: u64 = 0x4_0000_0000_0000;

/// The size of a whole number.
pub open spec fn size(a: int) -> int {
    if a < 0 {
        -a
    } else {
        a
    }
}

/// The size of a product is the product of the sizes.
pub proof fn lemma_size_of_product(a: int, b: int)
    ensures
        size(a * b) == size(a) * size(b),
{
    assert(a >= 0 && b >= 0 ==> a * b >= 0) by (nonlinear_arith);
    assert(a >= 0 && b < 0 ==> a * b <= 0 && a * (-b) == -(a * b)) by (nonlinear_arith);
    assert(a < 0 && b >= 0 ==> a * b <= 0 && (-a) * b == -(a * b)) by (nonlinear_arith);
    assert(a < 0 && b < 0 ==> a * b >= 0 && (-a) * (-b) == a * b) by (nonlinear_arith);
}

/// The nearest whole number is at most one half away.
proof fn lemma_nearest_is_close(num: nat, den: nat)
    requires
        den > 0,
    ensures
        2 * size(crate::rounding::nearest(num, den) * den - num) <= den,
{
    let q = num / den;
    let r = num % den;
    lemma_fundamental_div_mod(num as int, den as int);
    lemma_mod_bound(num as int, den as int);
    assert((q + 1) * den == q * den + den) by (nonlinear_arith);
    assert(q * den == den * q) by (nonlinear_arith);
}

/// The nearest whole number to what lies between two whole numbers lies between them.
proof fn lemma_nearest_within(num: nat, den: nat, low: nat, high: nat)
    requires
        den > 0,
        low * den <= num <= high * den,
    ensures
        low <= crate::rounding::nearest(num, den) <= high,
{
    lemma_mul_is_commutative(den as int, low as int);
    lemma_mul_is_commutative(den as int, high as int);
    crate::rounding::lemma_div_mod_is(low * den, den, low, 0);
    crate::rounding::lemma_div_mod_is(high * den, den, high, 0);
    assert(low * den * den <= num * den && num * den <= high * den * den) by (nonlinear_arith)
        requires
            low * den <= num <= high * den,
    ;
    crate::double_laws::nearest_is_monotone(low * den, den, num, den);
    crate::double_laws::nearest_is_monotone(num, den, high * den, den);
}

/// The number that is written with a last place and a count of last places.
proof fn lemma_units_of_places(k: nat, n: nat)
    requires
        n <= P53,
        k > 0 ==> n >= P52,
    ensures
        crate::rounding::mag_units((k * P52 + n) as nat) == n * pow2(k),
{
    let m = (k * P52 + n) as nat;
    if n == P53 {
        assert(m == P52 as nat * (k + 2) + 0) by (nonlinear_arith)
            requires
                m == k * P52 + 2 * P52,
        ;
        crate::rounding::lemma_div_mod_is(m, P52 as nat, k + 2, 0);
        assert(m >= P52);
        assert(crate::rounding::mag_exp(m) == k + 1);
        assert((k + 1) * P52 == k * P52 + P52) by (nonlinear_arith);
        assert(crate::rounding::mag_sig(m) == P52);
        lemma_pow2_unfold(k + 1);
        assert(P52 * (2 * pow2(k)) == P53 * pow2(k)) by (nonlinear_arith)
            requires
                P53 == 2 * P52,
        ;
    } else if n >= P52 {
        assert(m == P52 as nat * (k + 1) + (n - P52) as nat) by (nonlinear_arith)
            requires
                m == k * P52 + n,
                n >= P52,
        ;
        crate::rounding::lemma_div_mod_is(m, P52 as nat, k + 1, (n - P52) as nat);
        assert(m >= P52);
        assert(crate::rounding::mag_exp(m) == k);
    } else {
        assert(k * P52 == 0);
    }
}

/// Rounding is off by at most one part in `2^53`, or by half a unit where that is more;
/// a whole number of units is off by at most one part in `2^53`.
#[verifier::rlimit(40)]
pub proof fn rounding_is_close(num: nat, den: nat)
    requires
        den > 0,
        crate::rounding::round_mag(num, den) < INF_MAG,
    ensures
        size(
            crate::rounding::mag_units(crate::rounding::round_mag(num, den)) * den - num,
        ) * P53 <= num + den * P52,
        den == 1 ==> size(
            crate::rounding::mag_units(crate::rounding::round_mag(num, den)) - num,
        ) * P53 <= num,
{
    let k = crate::rounding::ulp_exp(num, den);
    let p = pow2(k);
    let d = den * p;
    let n = crate::rounding::nearest(num, d);
    crate::rounding::lemma_ulp_exp_bounds(num, den);
    lemma_pow2_pos(k);
    lemma_mul_strictly_positive(den as int, p as int);
    assert(num <= P53 * d) by (nonlinear_arith)
        requires
            num < den * P53 * p,
            d == den * p,
    ;
    if k > 0 {
        assert(P52 * d <= num) by (nonlinear_arith)
            requires
                num >= den * P52 * p,
                d == den * p,
        ;
        lemma_nearest_within(num, d, P52 as nat, P53 as nat);
    } else {
        assert(0 * d <= num) by (nonlinear_arith);
        lemma_nearest_within(num, d, 0, P53 as nat);
    }
    lemma_nearest_is_close(num, d);
    lemma_units_of_places(k, n);
    assert(n * p * den == n * d) by (nonlinear_arith)
        requires
            d == den * p,
    ;
    let e = size(n * d - num);
    if k > 0 {
        assert(e * P53 <= num) by (nonlinear_arith)
            requires
                2 * e <= d,
                P52 * d <= num,
                P53 == 2 * P52,
        ;
    } else {
        lemma2_to64();
        assert(d == den) by (nonlinear_arith)
            requires
                d == den * p,
                p == 1,
        ;
        assert(e * P53 <= den * P52) by (nonlinear_arith)
            requires
                2 * e <= den,
                P53 == 2 * P52,
        ;
        if den == 1 {
            assert(e == 0);
        }
    }
}

/// A sum is off by at most one part in `2^53`.
pub proof fn sums_are_close(x: Double, y: Double)
    requires
        x.is_finite(),
        y.is_finite(),
        x.plus(y).is_finite(),
    ensures
        size(x.plus(y).units() - (x.units() + y.units())) * P53 <= size(x.units() + y.units()),
{
    reveal(Double::spec_plus);
    let s = x.units() + y.units();
    let m = crate::rounding::round_mag(size(s) as nat, 1);
    crate::double_laws::lemma_signed_mag(m);
    crate::double_laws::lemma_signed_mag(0);
    crate::double_laws::lemma_units_zero();
    crate::magnitude::lemma_round_mag_zero(1);
    if s != 0 {
        rounding_is_close(size(s) as nat, 1);
    }
}

/// A product is off by at most one part in `2^53`, or by half a unit where that is more.
pub proof fn products_are_close(x: Double, y: Double)
    requires
        x.is_finite(),
        y.is_finite(),
        x.times(y).is_finite(),
    ensures
        size(x.times(y).units() * pow2(1074) - x.units() * y.units()) * P53 <= size(
            x.units() * y.units(),
        ) + pow2(1074) * P52,
{
    reveal(Double::spec_times);
    let a = crate::rounding::mag_units(x.mag());
    let b = crate::rounding::mag_units(y.mag());
    let h = pow2(1074);
    lemma_pow2_pos(1074);
    let m = crate::rounding::round_mag(a * b, h);
    crate::double_laws::lemma_signed_mag(m);
    rounding_is_close(a * b, h);
    let u = crate::rounding::mag_units(m);
    assert((-(a as int)) * b == -(a * b) && a * (-(b as int)) == -(a * b) && (-(a as int)) * (-(
    b as int)) == a * b && (-(u as int)) * h == -(u * h)) by (nonlinear_arith);
}

/// A whole number of times a number is off by at most one part in `2^53`.
#[verifier::rlimit(40)]
pub proof fn multiples_are_close(n: u64, y: Double)
    requires
        n < P53,
        y.is_finite(),
        Double::whole(n).times(y).is_finite(),
    ensures
        size(Double::whole(n).times(y).units() - n * y.units()) * P53 <= size(n * y.units()),
{
    let x = Double::whole(n);
    let h = pow2(1074);
    let b = crate::rounding::mag_units(y.mag());
    let num = n as nat * b;
    lemma_pow2_pos(1074);
    whole_numbers_are_exact(n);
    reveal(Double::spec_times);
    let a = crate::rounding::mag_units(x.mag());
    assert(a * b == num * h) by (nonlinear_arith)
        requires
            a == n * h,
            num == n * b,
    ;
    assert(num * h * 1 == num * h);
    crate::double_laws::rounding_is_monotone(num * h, h, num, 1);
    crate::double_laws::rounding_is_monotone(num, 1, num * h, h);
    let m = crate::rounding::round_mag(num, 1);
    crate::double_laws::lemma_signed_mag(m);
    rounding_is_close(num, 1);
    assert(n * (-(b as int)) == -(n * b)) by (nonlinear_arith);
}

/// A whole number below `2^53` is exact.
pub proof fn whole_numbers_are_exact(n: u64)
    requires
        n < P53,
    ensures
        Double::whole(n).is_finite(),
        Double::whole(n).units() == n * pow2(1074),
        !Double::whole(n).negative(),
{
    crate::double_laws::whole_is_small(n);
    reveal(Double::spec_whole);
    let num = n as nat * pow2(1074);
    crate::double_laws::lemma_signed_mag(crate::rounding::round_mag(num, 1));
    crate::double_laws::rounding_keeps_representable(num, 1, n as nat, 1074);
}

/// A quotient is off by at most one part in `2^53`, or by half a unit where that is more.
pub proof fn quotients_are_close(x: Double, y: Double)
    requires
        x.is_finite(),
        y.is_finite(),
        y.gt(Double::zero()),
        x.over(y).is_finite(),
    ensures
        size(x.over(y).units() * y.units() - x.units() * pow2(1074)) * P53 <= size(x.units())
            * pow2(1074) + y.units() * P52,
{
    reveal(Double::spec_over);
    let a = crate::rounding::mag_units(x.mag());
    let b = crate::rounding::mag_units(y.mag());
    let h = pow2(1074);
    crate::double_laws::lemma_units_zero();
    crate::magnitude::lemma_mag_units_increase(0, y.mag());
    let m = crate::rounding::round_mag(a * h, b);
    crate::double_laws::lemma_signed_mag(m);
    rounding_is_close(a * h, b);
    let u = crate::rounding::mag_units(m);
    assert((-(a as int)) * h == -(a * h) && (-(u as int)) * b == -(u * b)) by (nonlinear_arith);
}

/// A share of a number and the rest of it add up to the number but for one part in `2^52`
/// and one unit.
pub proof fn shares_add_up(x: Double, share: Double)
    requires
        x.is_finite(),
        share.ge(Double::zero()),
        share.le(Double::one()),
    ensures
        ({
            let part = x.times(share);
            let rest = x.times(Double::one().minus(share));
            &&& part.is_finite()
            &&& rest.is_finite()
            &&& size(part.units() + rest.units() - x.units()) * P53 <= 2 * size(x.units()) + P53
        }),
{
    let others = Double::one().minus(share);
    let h = pow2(1074) as int;
    lemma_pow2_pos(1074);
    lemma_other_share(share);
    lemma_share_is_finite(x, share);
    lemma_share_is_finite(x, others);
    products_are_close(x, share);
    products_are_close(x, others);
    lemma_shares(
        x.units(),
        share.units(),
        others.units(),
        x.times(share).units(),
        x.times(others).units(),
        h,
    );
}

/// What is left of one when a share of it is gone is a share too.
#[verifier::rlimit(40)]
pub(crate) proof fn lemma_other_share(share: Double)
    requires
        share.ge(Double::zero()),
        share.le(Double::one()),
    ensures
        ({
            let others = Double::one().minus(share);
            &&& others.ge(Double::zero())
            &&& others.le(Double::one())
            &&& 0 <= share.units() <= pow2(1074)
            &&& 0 <= others.units() <= pow2(1074)
            &&& size(others.units() - (pow2(1074) - share.units())) * P53 <= size(
                pow2(1074) - share.units(),
            )
        }),
{
    let one = Double::one();
    let others = one.minus(share);
    lemma_one_units();
    crate::double_laws::lemma_units_zero();
    crate::double_laws::order_agrees_with_value(share, one);
    crate::double_laws::order_agrees_with_value(Double::zero(), share);
    crate::double_laws::steps_are_ordered(one, share);
    assert(share.negate().units() == -share.units());
    assert(others == Double::rounded(
        one.units() + share.negate().units(),
        1,
        one.negative() && share.negate().negative(),
    )) by {
        reveal(Double::spec_plus);
    }
    crate::double_laws::rounding_keeps_order(
        0,
        one.units() + share.negate().units(),
        false,
        one.negative() && share.negate().negative(),
    );
    crate::double_laws::rounding_keeps_finite(Double::zero(), false);
    assert(others.is_finite());
    crate::double_laws::order_agrees_with_value(Double::zero(), others);
    crate::double_laws::order_agrees_with_value(others, one);
    sums_are_close(one, share.negate());
}

/// A share of a finite number is finite.
proof fn lemma_share_is_finite(x: Double, share: Double)
    requires
        x.is_finite(),
        share.ge(Double::zero()),
        share.le(Double::one()),
    ensures
        x.times(share).is_finite(),
{
    let size = x.abs();
    crate::double_laws::lemma_signed_mag(x.mag());
    crate::double_laws::share_is_no_more(size, share);
    assert(x.times(share).mag() == size.times(share).mag()) by {
        reveal(Double::spec_times);
        let m = crate::rounding::round_mag(
            crate::rounding::mag_units(x.mag()) * crate::rounding::mag_units(share.mag()),
            pow2(1074),
        );
        crate::double_laws::lemma_signed_mag(m);
    }
}

pub(crate) proof fn lemma_one_units()
    ensures
        Double::one().units() == pow2(1074),
{
    crate::double_laws::lemma_units_of_power(1023);
}

proof fn lemma_shares(p: int, f: int, g: int, a: int, b: int, h: int)
    requires
        h > 0,
        0 <= f <= h,
        0 <= g <= h,
        size(g - (h - f)) * P53 <= size(h - f),
        size(a * h - p * f) * P53 <= size(p * f) + h * P52,
        size(b * h - p * g) * P53 <= size(p * g) + h * P52,
    ensures
        size(a + b - p) * P53 <= 2 * size(p) + P53,
{
    let ea = a * h - p * f;
    let eb = b * h - p * g;
    let eg = g - (h - f);
    let sp = size(p);
    assert((a + b - p) * h == ea + eb + p * eg) by (nonlinear_arith)
        requires
            ea == a * h - p * f,
            eb == b * h - p * g,
            eg == g - (h - f),
    ;
    lemma_size_of_product(p, f);
    lemma_size_of_product(p, g);
    lemma_size_of_product(p, eg);
    lemma_size_of_product(a + b - p, h);
    assert(size(p * eg) * P53 <= sp * (h - f)) by (nonlinear_arith)
        requires
            sp >= 0,
            size(eg) * P53 <= h - f,
            size(p * eg) == sp * size(eg),
    ;
    let t = size(a + b - p);
    assert(t * h * P53 <= sp * f + sp * g + sp * (h - f) + 2 * (h * P52));
    assert(sp * f + sp * g + sp * (h - f) <= 2 * sp * h) by (nonlinear_arith)
        requires
            sp >= 0,
            g <= h,
    ;
    assert(t * P53 <= 2 * sp + P53) by (nonlinear_arith)
        requires
            t * h * P53 <= 2 * sp * h + 2 * (h * P52),
            P53 == 2 * P52,
            h > 0,
    ;
}

/// Subtracting zero keeps a finite number.
pub(crate) proof fn lemma_less_zero(d: Double)
    requires
        d.is_finite(),
        0 < d.units(),
    ensures
        d.minus(Double::zero()).is_finite(),
        d.minus(Double::zero()).units() == d.units(),
        d.minus(Double::zero()) == d,
{
    reveal(Double::spec_plus);
    crate::double_laws::lemma_units_zero();
    crate::double_laws::rounding_keeps_finite(d, false);
    let m = d.minus(Double::zero());
    crate::double_laws::order_agrees_with_value(m, d);
}

/// A difference is off by at most one part in `2^53`.
pub proof fn differences_are_close(a: Double, b: Double)
    requires
        a.minus(b).is_finite(),
    ensures
        a.is_finite(),
        b.is_finite(),
        size(a.minus(b).units() - (a.units() - b.units())) * P53 <= size(a.units() - b.units()),
{
    crate::double_laws::lemma_sum_of_finite(a, b.negate());
    assert(b.negate().units() == -b.units());
    sums_are_close(a, b.negate());
}

} // verus!
