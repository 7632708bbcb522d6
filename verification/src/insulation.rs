//! What an insulation jacket does: a tank loses no more heat with one, and no more with a
//! better one.
use vstd::arithmetic::power2::*;
use vstd::prelude::*;

use crate::config::jacketed_ua;
use crate::double::Double;
use crate::precision::{size, P48, P50};
use crate::rounding::{P52, P53};
use crate::tank::is_positive;

verus! {

/// A tank that loses heat, and the side of it that a jacket covers.
pub open spec fn is_jacketable(ua_base: Double, height_m: Double, diameter_m: Double) -> bool {
    &&& is_positive(ua_base)
    &&& is_positive(crate::tank::pi().times(diameter_m).times(height_m))
}

/// A better jacket loses no more than another one.
pub proof fn better_jackets_lose_no_more(
    ua_base: Double,
    height_m: Double,
    diameter_m: Double,
    r: Double,
    better_r: Double,
)
    requires
        is_jacketable(ua_base, height_m, diameter_m),
        is_positive(r),
        is_positive(better_r),
        r.le(better_r),
    ensures
        jacketed_ua(ua_base, height_m, diameter_m, Some(better_r)).le(
            jacketed_ua(ua_base, height_m, diameter_m, Some(r)),
        ),
{
    let area = crate::tank::pi().times(diameter_m).times(height_m);
    let bare = Double::one().over(ua_base);
    crate::double_laws::quotients_keep_order(r, better_r, area);
    lemma_reciprocal_is_positive(ua_base);
    lemma_resistances_keep_order(bare, r.over(area), better_r.over(area));
    lemma_reciprocals_reverse_order(
        bare.plus(r.over(area)),
        bare.plus(better_r.over(area)),
    );
}

/// A tank with a jacket loses no more than one without, but for one part in `2^50`; loss
/// coefficients whose reciprocals overflow or underflow are left out.
#[verifier::rlimit(40)]
pub proof fn jackets_lose_no_more(
    ua_base: Double,
    height_m: Double,
    diameter_m: Double,
    r: Double,
)
    requires
        is_jacketable(ua_base, height_m, diameter_m),
        crate::double_laws::at_least(ua_base, 1000),
        crate::double_laws::at_most(ua_base, 1000),
        is_positive(r),
    ensures
        ({
            let ua = jacketed_ua(ua_base, height_m, diameter_m, Some(r));
            &&& ua.is_finite()
            &&& ua.units() * P50 <= ua_base.units() * P50 + ua_base.units()
        }),
{
    let one = Double::one();
    let zero = Double::zero();
    let area = crate::tank::pi().times(diameter_m).times(height_m);
    let bare = one.over(ua_base);
    let jacket = r.over(area);
    let ua = jacketed_ua(ua_base, height_m, diameter_m, Some(r));
    let most = one.over(bare);
    let s = pow2(1074) as int;
    crate::double_laws::lemma_units_zero();
    crate::precision::lemma_one_units();
    lemma_pow2_pos(1074);
    crate::double_laws::quotients_keep_order(zero, r, area);
    lemma_reciprocal_is_positive(ua_base);
    assert(crate::double_laws::at_most(one, 0) && crate::double_laws::at_least(one, 0));
    crate::double_laws::over_at_most(one, 0, ua_base, 1000);
    crate::double_laws::over_at_least(one, 0, ua_base, 1000);
    crate::double_laws::over_at_most(one, 0, bare, 1000);
    lemma_sum_is_no_less(bare, jacket);
    lemma_reciprocals_reverse_order(bare, bare.plus(jacket));
    lemma_reciprocal_is_not_negative(bare.plus(jacket));
    crate::double_laws::order_agrees_with_value(zero, ua_base);
    crate::double_laws::order_agrees_with_value(zero, bare);
    crate::double_laws::order_agrees_with_value(ua, most);
    crate::precision::quotients_are_close(one, ua_base);
    crate::precision::quotients_are_close(one, bare);
    crate::double_laws::lemma_at_most_units(ua_base, 1000);
    crate::double_laws::lemma_at_most_units(bare, 1000);
    lemma_pow2_adds(1000, 1074);
    lemma_pow2_adds(52, 1000);
    lemma_pow2_adds(1052, 22);
    lemma2_to64();
    lemma2_to64_rest();
    lemma_double_reciprocal(
        ua_base.units(),
        bare.units(),
        most.units(),
        pow2(1000) as int,
        s,
    );
}

proof fn lemma_double_reciprocal(u: int, inv: int, back: int, k: int, s: int)
    requires
        0 < u <= k * s,
        0 < inv <= k * s,
        0 <= back,
        0 < k,
        0 < s,
        k * P52 <= s,
        size(inv * u - s * s) * P53 <= s * s + u * P52,
        size(back * inv - s * s) * P53 <= s * s + inv * P52,
    ensures
        back * P50 <= u * P50 + u,
{
    assert(u * P52 <= s * s && inv * P52 <= s * s) by (nonlinear_arith)
        requires
            0 < u <= k * s,
            0 < inv <= k * s,
            0 < s,
            k * P52 <= s,
    ;
    let ss = s * s;
    let a = inv * u;
    let b = back * inv;
    assert(a * P53 >= ss * P53 - 2 * ss);
    assert(b * P53 <= ss * P53 + 2 * ss);
    assert(b * P50 <= a * P50 + a) by {
        assert(ss >= 0) by (nonlinear_arith)
            requires
                ss == s * s,
        ;
    }
    assert(back * P50 <= u * P50 + u) by (nonlinear_arith)
        requires
            (back * inv) * P50 <= (inv * u) * P50 + inv * u,
            inv > 0,
    ;
}

/// A number and what is not below zero add up to no less than the number.
proof fn lemma_sum_is_no_less(a: Double, b: Double)
    requires
        is_positive(a),
        b.ge(Double::zero()),
    ensures
        a.le(a.plus(b)),
        a.plus(b).gt(Double::zero()),
{
    crate::double_laws::steps_are_ordered(a, b);
}

/// A larger addend gives no smaller a sum.
#[verifier::rlimit(40)]
proof fn lemma_resistances_keep_order(a: Double, b: Double, c: Double)
    requires
        a.gt(Double::zero()),
        b.ge(Double::zero()),
        b.le(c),
    ensures
        a.plus(b).gt(Double::zero()),
        a.plus(b).le(a.plus(c)),
{
    reveal(Double::spec_plus);
    if a.is_finite() {
        crate::double_laws::steps_are_ordered(a, b);
        crate::double_laws::steps_are_ordered(a, c);
        if b.is_finite() && c.is_finite() {
            crate::double_laws::order_agrees_with_value(b, c);
            crate::double_laws::rounding_keeps_order(
                a.units() + b.units(),
                a.units() + c.units(),
                a.negative() && b.negative(),
                a.negative() && c.negative(),
            );
        }
    }
}

/// The reciprocal of a positive number is above zero: no positive number is so large that
/// one over it is nothing.
proof fn lemma_reciprocal_is_positive(x: Double)
    requires
        is_positive(x),
    ensures
        Double::one().over(x).gt(Double::zero()),
{
    reveal(Double::spec_over);
    let ux = crate::rounding::mag_units(x.mag());
    let uo = crate::rounding::mag_units(Double::one().mag());
    let h = pow2(1074);
    crate::double_laws::lemma_units_zero();
    crate::magnitude::lemma_mag_units_increase(0, x.mag());
    crate::precision::lemma_one_units();
    lemma_largest(x);
    crate::double_laws::rounding_inverts_decoding(1, 1);
    crate::double_laws::lemma_one_unit();
    assert(1 * ux <= uo * h * 1) by (nonlinear_arith)
        requires
            ux <= uo * h,
    ;
    crate::double_laws::rounding_is_monotone(1, 1, uo * h, ux);
    crate::double_laws::lemma_signed_mag(crate::rounding::round_mag(uo * h, ux));
}

/// A finite number has no more than `2^2148` units.
proof fn lemma_largest(x: Double)
    requires
        x.is_finite(),
    ensures
        crate::rounding::mag_units(x.mag()) <= pow2(1074) * pow2(1074),
{
    crate::double_laws::lemma_units_of_power(2047);
    crate::magnitude::lemma_mag_units_increase(x.mag(), (2047 * P52) as nat);
    lemma_pow2_adds(1074, 1074);
    lemma_pow2_strictly_increases(2098, 2148);
}

/// The reciprocal of a number above zero is not below zero.
proof fn lemma_reciprocal_is_not_negative(x: Double)
    requires
        x.gt(Double::zero()),
    ensures
        Double::one().over(x).ge(Double::zero()),
{
    reveal(Double::spec_over);
    crate::double_laws::lemma_signed_mag(0);
    crate::double_laws::lemma_signed_mag(
        crate::rounding::round_mag(
            crate::rounding::mag_units(Double::one().mag()) * pow2(1074),
            crate::rounding::mag_units(x.mag()),
        ),
    );
}

/// The larger of two numbers above zero has the smaller reciprocal, or the same.
#[verifier::rlimit(40)]
proof fn lemma_reciprocals_reverse_order(a: Double, b: Double)
    requires
        a.gt(Double::zero()),
        a.le(b),
    ensures
        Double::one().over(b).le(Double::one().over(a)),
{
    lemma_reciprocal_is_not_negative(a);
    reveal(Double::spec_over);
    let ua = crate::rounding::mag_units(a.mag());
    let ub = crate::rounding::mag_units(b.mag());
    let num = crate::rounding::mag_units(Double::one().mag()) * pow2(1074);
    crate::double_laws::lemma_units_zero();
    crate::double_laws::lemma_signed_mag(0);
    if b.is_finite() {
        crate::magnitude::lemma_mag_units_increase(0, a.mag());
        if a.mag() < b.mag() {
            crate::magnitude::lemma_mag_units_increase(a.mag(), b.mag());
        }
        assert(num * ua <= num * ub) by (nonlinear_arith)
            requires
                ua <= ub,
        ;
        crate::double_laws::rounding_is_monotone(num, ub, num, ua);
        crate::double_laws::lemma_signed_mag(crate::rounding::round_mag(num, ua));
        crate::double_laws::lemma_signed_mag(crate::rounding::round_mag(num, ub));
    }
}

// ---------------------------------------------------------------------------
// Strictly less
// ---------------------------------------------------------------------------

/// A resistance that is larger by one part in `2^50` or more has a smaller reciprocal, though
/// both reciprocals are rounded.
proof fn lemma_smaller_reciprocal(rx: int, x: int, ry: int, y: int, ss: int)
    requires
        0 < ss,
        0 < x,
        0 < y,
        0 <= rx,
        (rx * x) * P53 >= ss * P53 - 2 * ss,
        (ry * y) * P53 <= ss * P53 + 2 * ss,
        y * P50 >= x * P50 + x,
    ensures
        ry < rx,
{
    if ry >= rx {
        let a = rx * x;
        let b = ry * y;
        assert(b >= rx * y) by (nonlinear_arith)
            requires
                b == ry * y,
                ry >= rx,
                y > 0,
        ;
        assert((rx * y) * P50 >= a * P50 + a) by (nonlinear_arith)
            requires
                a == rx * x,
                y * P50 >= x * P50 + x,
                rx >= 0,
        ;
        assert(b * P50 >= a * P50 + a);
        assert(b * P53 >= a * P53 + 8 * a);
        assert(8 * a > 4 * ss);
        assert(false);
    }
}

/// The reciprocal of a number of ordinary size, times the number, is close to one.
proof fn lemma_reciprocal_is_close(x: Double)
    requires
        is_positive(x),
        crate::double_laws::at_least(x, 1000),
        crate::double_laws::at_most(x, 1000),
    ensures
        ({
            let r = Double::one().over(x);
            let ss = pow2(1074) * pow2(1074);
            &&& crate::double_laws::at_most(r, 1000)
            &&& 0 < x.units()
            &&& 0 <= r.units()
            &&& (r.units() * x.units()) * P53 >= ss * P53 - 2 * ss
            &&& (r.units() * x.units()) * P53 <= ss * P53 + 2 * ss
        }),
{
    let one = Double::one();
    let zero = Double::zero();
    let r = one.over(x);
    let s = pow2(1074) as int;
    crate::double_laws::lemma_units_zero();
    crate::precision::lemma_one_units();
    lemma_pow2_pos(1074);
    assert(crate::double_laws::at_most(one, 0));
    crate::double_laws::over_at_most(one, 0, x, 1000);
    crate::double_laws::lemma_at_most_units(r, 1000);
    crate::double_laws::order_agrees_with_value(zero, x);
    crate::double_laws::order_agrees_with_value(zero, r);
    crate::precision::quotients_are_close(one, x);
    crate::double_laws::lemma_at_most_units(x, 1000);
    lemma_pow2_adds(1000, 1074);
    lemma_pow2_adds(52, 1000);
    lemma_pow2_adds(1052, 22);
    lemma2_to64();
    lemma2_to64_rest();
    let u = x.units();
    let k = pow2(1000) as int;
    assert(u * P52 <= s * s) by (nonlinear_arith)
        requires
            u <= k * s,
            0 < s,
            k * P52 <= s,
    ;
}

/// A jacket that adds one part in `2^48` or more to the resistance of a tank makes it lose
/// less than without. Loss coefficients whose reciprocals overflow or underflow are left out,
/// and so are jackets.
pub proof fn jackets_lose_less(
    ua_base: Double,
    height_m: Double,
    diameter_m: Double,
    r: Double,
)
    requires
        is_jacketable(ua_base, height_m, diameter_m),
        is_positive(r),
        crate::double_laws::at_least(ua_base, 999),
        crate::double_laws::at_most(ua_base, 999),
        ({
            let jacket = r.over(crate::tank::pi().times(diameter_m).times(height_m));
            &&& crate::double_laws::at_most(jacket, 999)
            &&& jacket.units() * P48 >= Double::one().over(ua_base).units()
        }),
    ensures
        jacketed_ua(ua_base, height_m, diameter_m, Some(r)).lt(ua_base),
        jacketed_ua(ua_base, height_m, diameter_m, Some(r)).gt(Double::zero()),
{
    let one = Double::one();
    let zero = Double::zero();
    let bare = one.over(ua_base);
    let jacket = r.over(crate::tank::pi().times(diameter_m).times(height_m));
    let whole = bare.plus(jacket);
    let ua = one.over(whole);
    lemma_ordinary(ua_base, jacket);
    lemma_pow2_pos(1074);
    let ss = pow2(1074) * pow2(1074);
    assert(ss > 0) by (nonlinear_arith)
        requires
            ss == pow2(1074) * pow2(1074),
            pow2(1074) > 0,
    ;
    lemma_reciprocal_is_close(ua_base);
    lemma_reciprocal_is_close(whole);
    crate::precision::sums_are_close(bare, jacket);
    assert(bare.units() * ua_base.units() == ua_base.units() * bare.units()) by (nonlinear_arith);
    lemma_smaller_reciprocal(
        ua_base.units(),
        bare.units(),
        ua.units(),
        whole.units(),
        ss as int,
    );
    crate::double_laws::lemma_units_zero();
    lemma_reciprocal_is_positive(whole);
    crate::double_laws::lemma_at_most_units(ua, 1000);
    crate::double_laws::order_agrees_with_value(ua, ua_base);
}

/// A tank of ordinary size and a jacket of ordinary size together.
proof fn lemma_ordinary(ua_base: Double, jacket: Double)
    requires
        is_positive(ua_base),
        crate::double_laws::at_least(ua_base, 999),
        crate::double_laws::at_most(ua_base, 999),
        crate::double_laws::at_most(jacket, 999),
    ensures
        ({
            let bare = Double::one().over(ua_base);
            let whole = bare.plus(jacket);
            &&& bare.is_finite() && 0 < bare.units()
            &&& jacket.is_finite() && 0 <= jacket.units()
            &&& is_positive(whole)
            &&& crate::double_laws::at_least(whole, 1000)
            &&& crate::double_laws::at_most(whole, 1000)
            &&& crate::double_laws::at_least(ua_base, 1000)
            &&& crate::double_laws::at_most(ua_base, 1000)
        }),
{
    let one = Double::one();
    let zero = Double::zero();
    let bare = one.over(ua_base);
    let whole = bare.plus(jacket);
    crate::double_laws::lemma_units_zero();
    assert(crate::double_laws::at_most(one, 0) && crate::double_laws::at_least(one, 0));
    crate::double_laws::over_at_most(one, 0, ua_base, 999);
    crate::double_laws::over_at_least(one, 0, ua_base, 999);
    crate::double_laws::plus_at_most(bare, jacket, 999);
    crate::double_laws::lemma_at_most_units(whole, 1000);
    crate::double_laws::lemma_at_most_units(jacket, 999);
    crate::double_laws::plus_at_least(bare, 999, jacket);
    crate::double_laws::bounded_is_positive(bare, 999);
    crate::double_laws::bounded_is_positive(whole, 999);
    crate::double_laws::order_agrees_with_value(zero, bare);
    crate::double_laws::order_agrees_with_value(zero, jacket);
}

/// A jacket that adds one part in `2^48` or more to the resistance of a tank with another
/// jacket makes it lose less than with that one.
pub proof fn better_jackets_lose_less(
    ua_base: Double,
    height_m: Double,
    diameter_m: Double,
    r: Double,
    better_r: Double,
)
    requires
        is_jacketable(ua_base, height_m, diameter_m),
        is_positive(r),
        is_positive(better_r),
        crate::double_laws::at_least(ua_base, 999),
        crate::double_laws::at_most(ua_base, 999),
        ({
            let side = crate::tank::pi().times(diameter_m).times(height_m);
            let jacket = r.over(side);
            let better = better_r.over(side);
            &&& crate::double_laws::at_most(jacket, 999)
            &&& crate::double_laws::at_most(better, 999)
            &&& (better.units() - jacket.units()) * P48 >= Double::one().over(ua_base).units()
                + jacket.units()
        }),
    ensures
        jacketed_ua(ua_base, height_m, diameter_m, Some(better_r)).lt(
            jacketed_ua(ua_base, height_m, diameter_m, Some(r)),
        ),
{
    let one = Double::one();
    let side = crate::tank::pi().times(diameter_m).times(height_m);
    let bare = one.over(ua_base);
    let jacket = r.over(side);
    let better = better_r.over(side);
    let whole = bare.plus(jacket);
    let more = bare.plus(better);
    lemma_ordinary(ua_base, jacket);
    lemma_ordinary(ua_base, better);
    lemma_pow2_pos(1074);
    let ss = pow2(1074) * pow2(1074);
    assert(ss > 0) by (nonlinear_arith)
        requires
            ss == pow2(1074) * pow2(1074),
            pow2(1074) > 0,
    ;
    lemma_reciprocal_is_close(whole);
    lemma_reciprocal_is_close(more);
    crate::precision::sums_are_close(bare, jacket);
    crate::precision::sums_are_close(bare, better);
    lemma_smaller_reciprocal(
        one.over(whole).units(),
        whole.units(),
        one.over(more).units(),
        more.units(),
        ss as int,
    );
    crate::double_laws::lemma_at_most_units(one.over(whole), 1000);
    crate::double_laws::lemma_at_most_units(one.over(more), 1000);
    crate::double_laws::order_agrees_with_value(one.over(more), one.over(whole));
}

} // verus!
