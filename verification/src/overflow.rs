//! When arithmetic overflows: the exact result is too large for a finite number.
use vstd::arithmetic::div_mod::*;
use vstd::arithmetic::power2::*;
use vstd::prelude::*;

use crate::double::Double;
use crate::precision::size;
use crate::rounding::{nearest, round_mag, ulp_exp, INF_MAG, P52, P53};

verus! {

/// `2^54 - 1`: twice the largest significand, and one.
pub const TOP_HALF: u64 = 0x3F_FFFF_FFFF_FFFF;

/// The least number of units that is rounded to infinity: half a last place above the largest
/// finite number.
pub open spec fn limit() -> nat {
    TOP_HALF as nat * pow2(2044)
}

/// The sum of two numbers does not overflow.
pub open spec fn sum_fits(x: Double, y: Double) -> bool {
    size(x.units() + y.units()) < limit()
}

/// The product of two numbers does not overflow.
pub open spec fn product_fits(x: Double, y: Double) -> bool {
    size(x.units() * y.units()) < limit() * pow2(1074)
}

/// The quotient of two numbers does not overflow; nothing is divided by zero.
pub open spec fn quotient_fits(x: Double, y: Double) -> bool {
    size(x.units()) * pow2(1074) < limit() * size(y.units())
}

proof fn lemma_limit()
    ensures
        pow2(2045) == 2 * pow2(2044),
        pow2(2044) > 0,
{
    lemma_pow2_unfold(2045);
    lemma_pow2_pos(2044);
}

/// What is below the limit rounds to a finite number.
proof fn lemma_below_limit(num: nat, den: nat)
    requires
        den > 0,
        num < limit() * den,
    ensures
        round_mag(num, den) < INF_MAG,
{
    let k = ulp_exp(num, den);
    let p = pow2(k);
    let unit = den * p;
    let half = pow2(2044);
    lemma_limit();
    lemma_pow2_pos(k);
    crate::rounding::lemma_ulp_exp_bounds(num, den);
    assert(unit > 0) by (nonlinear_arith)
        requires
            unit == den * p,
            den > 0,
            p > 0,
    ;
    assert(den * P53 * p == P53 * unit && den * P52 * p == P52 * unit) by (nonlinear_arith)
        requires
            unit == den * p,
    ;
    if k > 2045 {
        crate::rounding::lemma_pow2_ge_double(2045, k);
        assert(limit() * den <= P52 * unit) by (nonlinear_arith)
            requires
                limit() == TOP_HALF as nat * half,
                4 * half <= p,
                unit == den * p,
                den > 0,
                half > 0,
                TOP_HALF <= 4 * P52,
        ;
    }
    let q = num / unit;
    let r = num % unit;
    lemma_fundamental_div_mod(num as int, unit as int);
    lemma_mod_bound(num as int, unit as int);
    assert(q < P53) by (nonlinear_arith)
        requires
            num == unit * q + r,
            0 <= r,
            num < P53 * unit,
            unit > 0,
    ;
    if k == 2045 && q == P53 - 1 {
        assert(2 * r < unit) by (nonlinear_arith)
            requires
                num == unit * q + r,
                q == P53 - 1,
                num < limit() * den,
                limit() == TOP_HALF as nat * half,
                unit == den * p,
                p == 2 * half,
                TOP_HALF == 2 * P53 - 1,
        ;
    }
    assert(nearest(num, unit) <= P53);
    assert(k < 2045 ==> k * P52 <= 2044 * P52) by (nonlinear_arith);
}

/// What is not below the limit rounds to infinity.
proof fn lemma_from_limit(num: nat, den: nat)
    requires
        den > 0,
        num >= limit() * den,
    ensures
        round_mag(num, den) == INF_MAG,
{
    let half = pow2(2044);
    let unit = pow2(2045);
    let top = limit();
    lemma_limit();
    assert(P52 * unit <= top < P53 * unit) by (nonlinear_arith)
        requires
            top == TOP_HALF as nat * half,
            unit == 2 * half,
            half > 0,
            TOP_HALF == 2 * P53 - 1,
            P53 == 2 * P52,
    ;
    assert(1 * P53 * unit == P53 * unit && 1 * P52 * unit == P52 * unit);
    crate::rounding::lemma_ulp_exp_unique(top, 1, 2045);
    let q = (P53 - 1) as nat;
    assert(top == unit * q + half) by (nonlinear_arith)
        requires
            top == TOP_HALF as nat * half,
            unit == 2 * half,
            TOP_HALF == 2 * P53 - 1,
            q == P53 - 1,
    ;
    lemma_fundamental_div_mod_converse(top as int, unit as int, q as int, half as int);
    assert(1 * unit == unit);
    assert(nearest(top, unit) == P53);
    assert(round_mag(top, 1) == INF_MAG);
    assert(top * den <= num * 1);
    crate::double_laws::rounding_is_monotone(top, 1, num, den);
}

/// A sum of finite numbers is finite exactly where it does not overflow.
pub proof fn sums_that_fit_are_finite(x: Double, y: Double)
    requires
        x.is_finite(),
        y.is_finite(),
    ensures
        x.plus(y).is_finite() == sum_fits(x, y),
{
    reveal(Double::spec_plus);
    let sum = x.units() + y.units();
    let m = round_mag(size(sum) as nat, 1);
    assert(limit() * 1 == limit());
    if sum_fits(x, y) {
        lemma_below_limit(size(sum) as nat, 1);
    } else {
        lemma_from_limit(size(sum) as nat, 1);
        lemma_limit();
    }
    crate::double_laws::lemma_signed_mag(m);
    crate::double_laws::lemma_signed_mag(0);
    if sum == 0 {
        assert(limit() > 0) by (nonlinear_arith)
            requires
                limit() == TOP_HALF as nat * pow2(2044),
                pow2(2044) > 0,
        {
        }
    }
}

/// A product of finite numbers is finite exactly where it does not overflow.
pub proof fn products_that_fit_are_finite(x: Double, y: Double)
    requires
        x.is_finite(),
        y.is_finite(),
    ensures
        x.times(y).is_finite() == product_fits(x, y),
{
    reveal(Double::spec_times);
    let ux = crate::rounding::mag_units(x.mag());
    let uy = crate::rounding::mag_units(y.mag());
    let m = round_mag(ux * uy, pow2(1074));
    lemma_pow2_pos(1074);
    crate::precision::lemma_size_of_product(x.units(), y.units());
    if product_fits(x, y) {
        lemma_below_limit(ux * uy, pow2(1074));
    } else {
        lemma_from_limit(ux * uy, pow2(1074));
    }
    crate::double_laws::lemma_signed_mag(m);
}

/// A quotient of finite numbers, of which the divisor is not zero, is finite exactly where it
/// does not overflow.
pub proof fn quotients_that_fit_are_finite(x: Double, y: Double)
    requires
        x.is_finite(),
        y.is_finite(),
        !y.same(Double::zero()),
    ensures
        x.over(y).is_finite() == quotient_fits(x, y),
{
    reveal(Double::spec_over);
    let ux = crate::rounding::mag_units(x.mag());
    let uy = crate::rounding::mag_units(y.mag());
    let m = round_mag(ux * pow2(1074), uy);
    crate::double_laws::lemma_units_zero();
    crate::magnitude::lemma_mag_units_increase(0, y.mag());
    if quotient_fits(x, y) {
        lemma_below_limit(ux * pow2(1074), uy);
    } else {
        lemma_from_limit(ux * pow2(1074), uy);
    }
    crate::double_laws::lemma_signed_mag(m);
}

} // verus!
