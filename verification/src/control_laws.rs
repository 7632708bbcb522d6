//! Laws of power limits and of the share of its power at which a heater runs.
use vstd::arithmetic::power2::*;
use vstd::prelude::*;

use crate::approx::{
    near, near_clamped, near_grows, near_itself, near_sign, one_is_tame, tame, tame_grows,
    tame_sum, tame_times, tame_units, whole_is_tame, MOST,
};
use crate::double::Double;
use crate::gas::GasState;
use crate::heat_pump_wh::HpState;
use crate::products::{
    about, about_itself, about_one, about_over, about_times, lemma_product_one, lemma_scale,
    product, scale,
};
use crate::resistance::ResistanceState;
use crate::tankless::TanklessState;
use crate::types::ControlSignal;

verus! {

/// An ordinary number that is not negative: zero, or within a factor of `2^40` of one.
pub open spec fn ordinary(x: Double) -> bool {
    tame(x, 40) && 0 <= x.units()
}

/// The units of the number `n`.
pub open spec fn whole_units(n: int) -> int {
    n * pow2(1074)
}

// ---------------------------------------------------------------------------
// Steps of a computation
// ---------------------------------------------------------------------------

/// A product with one more factor.
pub proof fn times_more(
    x: Double,
    k: int,
    top: Seq<int>,
    bottom: Seq<int>,
    e: int,
    y: Double,
    j: int,
    p: int,
    f: int,
)
    requires
        tame(x, k),
        tame(y, j),
        0 <= k,
        0 <= j,
        k + j <= 1000,
        about(x, top, bottom, e),
        near(y, p, 1, f),
        0 <= e <= MOST,
        0 <= f <= MOST,
    ensures
        tame(x.times(y), k + j),
        about(x.times(y), top.push(p), bottom, e + f + 1),
{
    about_one(y, p, f);
    about_times(x, k, top, bottom, e, y, j, seq![p], seq![], f);
    assert(top + seq![p] =~= top.push(p));
    assert(bottom + Seq::<int>::empty() =~= bottom);
}

/// A quotient with one more divisor.
pub proof fn over_more(
    x: Double,
    k: int,
    top: Seq<int>,
    bottom: Seq<int>,
    e: int,
    y: Double,
    j: int,
    p: int,
    f: int,
)
    requires
        tame(x, k),
        tame(y, j),
        0 <= k,
        0 <= j,
        k + j <= 1000,
        about(x, top, bottom, e),
        near(y, p, 1, f),
        0 < p,
        0 <= e <= MOST,
        0 <= f <= MOST,
    ensures
        tame(x.over(y), k + j),
        about(x.over(y), top, bottom.push(p), e + f + 1),
{
    about_one(y, p, f);
    lemma_product_one(p);
    about_over(x, k, top, bottom, e, y, j, seq![p], seq![], f);
    assert(top + Seq::<int>::empty() =~= top);
    assert(bottom + seq![p] =~= bottom.push(p));
}

/// The product of two, of three and of four numbers.
pub proof fn lemma_products(a: int, b: int, c: int, d: int)
    ensures
        product(seq![a]) == a,
        product(seq![a, b]) == a * b,
        product(seq![a, b, c]) == a * b * c,
        product(seq![a, b, c, d]) == a * b * c * d,
        product(Seq::<int>::empty()) == 1,
{
    lemma_product_one(a);
    reveal_with_fuel(product, 5);
    assert(seq![a, b].drop_last() =~= seq![a]);
    assert(seq![a, b, c].drop_last() =~= seq![a, b]);
    assert(seq![a, b, c, d].drop_last() =~= seq![a, b, c]);
}

/// What a product with a divisor says, cut off at one.
proof fn lemma_clamped(x: Double, a: int, b: int, r: int, e: int)
    requires
        about(x, seq![a, b], seq![r], e),
        0 <= a,
        0 <= b,
        0 < r,
        0 <= e <= MOST,
        a * b <= r * pow2(1074),
    ensures
        about(x.clamp(Double::zero(), Double::one()), seq![a, b], seq![r], e),
{
    lemma_products(a, b, 0, 0);
    lemma_product_one(r);
    lemma_scale(1, 1);
    lemma_scale(2, 0);
    let h = scale(1);
    assert(seq![a, b].len() == 2 && seq![r].len() == 1);
    let p = (a * b) * scale(2);
    let q = r * scale(2);
    assert(0 <= p && p <= q * h) by (nonlinear_arith)
        requires
            p == (a * b) * scale(2),
            q == r * scale(2),
            0 <= a,
            0 <= b,
            a * b <= r * h,
            scale(2) > 0,
    ;
    near_clamped(x, p, q, e);
}

/// What is at least a positive number, over that number, is at least one.
pub(crate) proof fn lemma_at_least_one(x: Double, y: Double)
    requires
        x.is_finite(),
        y.is_finite(),
        0 < y.units() <= x.units(),
    ensures
        x.over(y).clamp(Double::zero(), Double::one()) == Double::one(),
{
    reveal(Double::spec_over);
    crate::double_laws::lemma_units_zero();
    one_is_tame();
    let one = Double::one();
    let h = pow2(1074);
    let ux = crate::rounding::mag_units(x.mag());
    let uy = crate::rounding::mag_units(y.mag());
    lemma_pow2_pos(1074);
    assert(h * uy <= (ux * h) * 1) by (nonlinear_arith)
        requires
            uy <= ux,
            h > 0,
    ;
    crate::double_laws::rounding_is_monotone(h, 1, ux * h, uy);
    crate::double_laws::rounding_keeps_finite(one, false);
    let m = crate::rounding::round_mag(ux * h, uy);
    crate::double_laws::lemma_signed_mag(m);
    crate::double_laws::lemma_signed_mag(crate::rounding::round_mag(h, 1));
}

/// A thousand times a number rounds to no less than what a smaller number rounds to.
proof fn lemma_thousandfold(kw: Double, rated: Double, r: int)
    requires
        tame(kw, 40),
        0 <= kw.units(),
        0 < r <= 1000 * kw.units(),
        rated == Double::rounded(r, 1, false),
        rated.is_finite(),
        0 < rated.units(),
    ensures
        rated.units() <= kw.times(Double::whole(1000)).units(),
{
    let k = Double::whole(1000);
    whole_is_tame(1000);
    tame_units(kw, 40);
    tame_times(kw, 40, k, 53);
    reveal(Double::spec_times);
    crate::double_laws::lemma_units_zero();
    let h = pow2(1074);
    lemma_pow2_pos(1074);
    let num = crate::rounding::mag_units(kw.mag()) * crate::rounding::mag_units(k.mag());
    assert(r * h <= num * 1) by (nonlinear_arith)
        requires
            num == kw.units() * (1000 * h),
            r <= 1000 * kw.units(),
            h > 0,
    ;
    crate::double_laws::rounding_is_monotone(r as nat, 1, num, h);
    let m = crate::rounding::round_mag(num, h);
    crate::double_laws::lemma_signed_mag(m);
    let n = crate::rounding::round_mag(r as nat, 1);
    crate::double_laws::lemma_signed_mag(n);
    crate::double_laws::lemma_mag_units_le(n, m);
}

/// The share of a rated power that a limit leaves.
proof fn lemma_limited_share(kw: Double, rated: Double, r: int)
    requires
        ordinary(kw),
        tame(rated, 41),
        near(rated, r, 1, 1),
        rated == Double::rounded(r, 1, false),
        0 < r,
    ensures
        kw.times(Double::whole(1000)).over(rated).is_finite(),
        1000 * kw.units() <= r ==> about(
            kw.times(Double::whole(1000)).over(rated).clamp(Double::zero(), Double::one()),
            seq![kw.units(), whole_units(1000)],
            seq![r],
            3,
        ),
        1000 * kw.units() >= r ==> kw.times(Double::whole(1000)).over(rated).clamp(
            Double::zero(),
            Double::one(),
        ) == Double::one(),
{
    let h = pow2(1074) as int;
    let k = Double::whole(1000);
    tame_units(kw, 40);
    whole_is_tame(1000);
    about_itself(kw);
    times_more(kw, 40, seq![kw.units()], seq![], 0, k, 53, 1000 * h, 0);
    assert(seq![kw.units()].push(1000 * h) =~= seq![kw.units(), 1000 * h]);
    let w = kw.times(k);
    over_more(w, 93, seq![kw.units(), 1000 * h], seq![], 1, rated, 41, r, 1);
    assert(Seq::<int>::empty().push(r) =~= seq![r]);
    if 1000 * kw.units() <= r {
        lemma_pow2_pos(1074);
        assert(kw.units() * (1000 * h) <= r * h) by (nonlinear_arith)
            requires
                1000 * kw.units() <= r,
                h > 0,
        ;
        lemma_clamped(w.over(rated), kw.units(), 1000 * h, r, 3);
    }
    if 1000 * kw.units() >= r {
        near_sign(rated, r, 1, 1);
        lemma_thousandfold(kw, rated, r);
        lemma_at_least_one(w, rated);
    }
}

// ---------------------------------------------------------------------------
// Power limits
// ---------------------------------------------------------------------------

/// A limit of `max_power_kw` kilowatts on a resistance heater that ran at all its load leaves
/// it `1000 * max_power_kw` watts of the rated power of its two elements together, within
/// rounding. A limit at or above that rated power changes nothing.
pub proof fn resistance_keeps_to_a_power_limit(s: ResistanceState, max_power_kw: Double)
    requires
        ordinary(max_power_kw),
        ordinary(s.upper_element_power_w),
        ordinary(s.lower_element_power_w),
        0 < s.upper_element_power_w.units() + s.lower_element_power_w.units(),
        s.ctrl_load_fraction == Double::one(),
    ensures
        ({
            let (after, fault) = s.applied(ControlSignal::PowerLimit { max_power_kw });
            let rated = s.upper_element_power_w.units() + s.lower_element_power_w.units();
            &&& fault is None
            &&& after == (ResistanceState { ctrl_load_fraction: after.ctrl_load_fraction, ..s })
            &&& 1000 * max_power_kw.units() >= rated ==> after == s
            &&& 1000 * max_power_kw.units() <= rated ==> about(
                after.ctrl_load_fraction,
                seq![max_power_kw.units(), whole_units(1000)],
                seq![rated],
                3,
            )
        }),
{
    let upper = s.upper_element_power_w;
    let lower = s.lower_element_power_w;
    let total = upper.plus(lower);
    let rated = upper.units() + lower.units();
    lemma_rated_sum(upper, lower);
    lemma_limited_share(max_power_kw, total, rated);
    lemma_from_one(max_power_kw.times(Double::whole(1000)).over(total));
}

/// The rated power of two parts together.
proof fn lemma_rated_sum(a: Double, b: Double)
    requires
        ordinary(a),
        ordinary(b),
        0 < a.units() + b.units(),
    ensures
        tame(a.plus(b), 41),
        near(a.plus(b), a.units() + b.units(), 1, 1),
        a.plus(b) == Double::rounded(a.units() + b.units(), 1, false),
        a.plus(b).gt(Double::zero()),
{
    tame_units(a, 40);
    tame_units(b, 40);
    tame_sum(a, b, 40);
    near_sign(a.plus(b), a.units() + b.units(), 1, 1);
    one_is_tame();
    crate::double_laws::order_agrees_with_value(Double::zero(), a.plus(b));
    reveal(Double::spec_plus);
    crate::double_laws::lemma_signed_mag(0);
}

/// A share of one is the smaller of the two.
proof fn lemma_from_one(x: Double)
    requires
        x.is_finite(),
    ensures
        Double::one().min(x.clamp(Double::zero(), Double::one())) == x.clamp(
            Double::zero(),
            Double::one(),
        ) || x.clamp(Double::zero(), Double::one()).units() == pow2(1074),
{
    one_is_tame();
    crate::double_laws::order_agrees_with_value(
        x.clamp(Double::zero(), Double::one()),
        Double::one(),
    );
}

/// A limit on a gas heater that ran at all its load leaves its burner `1000 * max_power_kw`
/// watts of its rated input, within rounding. A limit at or above that input changes nothing.
pub proof fn gas_keeps_to_a_power_limit(s: GasState, max_power_kw: Double)
    requires
        ordinary(max_power_kw),
        ordinary(s.burner_input_w),
        0 < s.burner_input_w.units(),
        s.ctrl_load_fraction == Double::one(),
    ensures
        ({
            let (after, fault) = s.applied(ControlSignal::PowerLimit { max_power_kw });
            let rated = s.burner_input_w.units();
            &&& fault is None
            &&& after == (GasState { ctrl_load_fraction: after.ctrl_load_fraction, ..s })
            &&& 1000 * max_power_kw.units() >= rated ==> after == s
            &&& 1000 * max_power_kw.units() <= rated ==> about(
                after.ctrl_load_fraction,
                seq![max_power_kw.units(), whole_units(1000)],
                seq![rated],
                3,
            )
        }),
{
    let rated = s.burner_input_w;
    let r = rated.units();
    tame_units(rated, 40);
    tame_grows(rated, 40, 41);
    near_itself(rated);
    near_grows(rated, r, 1, 0, 1);
    one_is_tame();
    crate::double_laws::order_agrees_with_value(Double::zero(), rated);
    crate::double_laws::rounding_inverts_decoding(rated.mag(), 1);
    crate::double_laws::lemma_signed_mag(rated.mag());
    crate::double_laws::lemma_units_zero();
    assert(!rated.negative());
    assert(rated == Double::signed(false, rated.mag())) by {
        lemma_positive_bits(rated);
    }
    assert(crate::rounding::mag_units(rated.mag()) * 1 == r);
    assert(rated == Double::rounded(r, 1, false));
    lemma_limited_share(max_power_kw, rated, r);
    lemma_from_one(max_power_kw.times(Double::whole(1000)).over(rated));
}

/// The bits of a positive number are its magnitude.
proof fn lemma_positive_bits(x: Double)
    requires
        !x.negative(),
    ensures
        x == Double::signed(false, x.mag()),
{
}

/// A limit on a heat pump that ran at all its load leaves it `1000 * max_power_kw` watts of
/// the rated power of its compressor and its backup element together, within rounding. A
/// limit at or above that rated power changes nothing.
pub proof fn heat_pump_keeps_to_a_power_limit(s: HpState, max_power_kw: Double)
    requires
        ordinary(max_power_kw),
        ordinary(s.compressor_power_w),
        ordinary(s.backup_element_power_w),
        0 < s.compressor_power_w.units() + s.backup_element_power_w.units(),
        s.ctrl_load_fraction == Double::one(),
    ensures
        ({
            let (after, fault) = s.applied(ControlSignal::PowerLimit { max_power_kw });
            let rated = s.compressor_power_w.units() + s.backup_element_power_w.units();
            &&& fault is None
            &&& after == (HpState { ctrl_load_fraction: after.ctrl_load_fraction, ..s })
            &&& 1000 * max_power_kw.units() >= rated ==> after == s
            &&& 1000 * max_power_kw.units() <= rated ==> about(
                after.ctrl_load_fraction,
                seq![max_power_kw.units(), whole_units(1000)],
                seq![rated],
                3,
            )
        }),
{
    let total = s.compressor_power_w.plus(s.backup_element_power_w);
    let rated = s.compressor_power_w.units() + s.backup_element_power_w.units();
    lemma_rated_sum(s.compressor_power_w, s.backup_element_power_w);
    lemma_limited_share(max_power_kw, total, rated);
    lemma_from_one(max_power_kw.times(Double::whole(1000)).over(total));
}

/// A limit on a tankless heater is one of its input: the output may come to
/// `1000 * max_power_kw` watts times its efficiency, within rounding.
pub proof fn tankless_keeps_to_a_power_limit(s: TanklessState, max_power_kw: Double)
    requires
        ordinary(max_power_kw),
        ordinary(s.efficiency_factor),
    ensures
        ({
            let (after, fault) = s.applied(ControlSignal::PowerLimit { max_power_kw });
            &&& fault is None
            &&& after.power_limit_w is Some
            &&& after == (TanklessState { power_limit_w: after.power_limit_w, ..s })
            &&& about(
                after.power_limit_w->0,
                seq![max_power_kw.units(), whole_units(1000), s.efficiency_factor.units()],
                seq![],
                2,
            )
        }),
{
    let h = pow2(1074) as int;
    let k = Double::whole(1000);
    let eff = s.efficiency_factor;
    tame_units(max_power_kw, 40);
    tame_units(eff, 40);
    whole_is_tame(1000);
    about_itself(max_power_kw);
    near_itself(eff);
    times_more(max_power_kw, 40, seq![max_power_kw.units()], seq![], 0, k, 53, 1000 * h, 0);
    assert(seq![max_power_kw.units()].push(1000 * h) =~= seq![max_power_kw.units(), 1000 * h]);
    let w = max_power_kw.times(k);
    times_more(w, 93, seq![max_power_kw.units(), 1000 * h], seq![], 1, eff, 40, eff.units(), 0);
    let top = seq![max_power_kw.units(), 1000 * h, eff.units()];
    assert(seq![max_power_kw.units(), 1000 * h].push(eff.units()) =~= top);
    let limit = w.times(eff);
    lemma_about_not_negative(limit, top, 2);
    one_is_tame();
    crate::double_laws::order_agrees_with_value(limit, Double::zero());
}

/// A product of values that are not negative is not negative.
pub proof fn lemma_about_not_negative(x: Double, top: Seq<int>, e: int)
    requires
        about(x, top, seq![], e),
        forall|i: int| 0 <= i < top.len() ==> top[i] >= 0,
        0 <= e <= MOST,
    ensures
        0 <= x.units(),
        product(top) == 0 <==> x.units() == 0,
{
    lemma_product_not_negative(top);
    lemma_scale(0, 1);
    let p = product(top) * scale(1);
    assert(p >= 0 && (product(top) == 0 <==> p == 0)) by (nonlinear_arith)
        requires
            p == product(top) * scale(1),
            product(top) >= 0,
            scale(1) > 0,
    ;
    assert(Seq::<int>::empty().len() == 0);
    near_sign(x, p, product(Seq::<int>::empty()) * scale(top.len()), e);
}

pub(crate) proof fn lemma_product_not_negative(s: Seq<int>)
    requires
        forall|i: int| 0 <= i < s.len() ==> s[i] >= 0,
    ensures
        product(s) >= 0,
    decreases s.len(),
{
    if s.len() > 0 {
        lemma_product_not_negative(s.drop_last());
        assert(product(s.drop_last()) * s.last() >= 0) by (nonlinear_arith)
            requires
                product(s.drop_last()) >= 0,
                s.last() >= 0,
        ;
    }
}

// ---------------------------------------------------------------------------
// Shares
// ---------------------------------------------------------------------------

/// A share: an ordinary number from zero to one.
pub open spec fn is_share(x: Double) -> bool {
    ordinary(x) && x.units() <= pow2(1074)
}

/// Shares of shares multiply.
pub proof fn lemma_shares(a: Double, b: Double, c: Double)
    requires
        is_share(a),
        is_share(b),
        is_share(c),
    ensures
        ({
            let d = a.times(b).times(c).clamp(Double::zero(), Double::one());
            &&& tame(d, 120)
            &&& about(d, seq![a.units(), b.units(), c.units()], seq![], 2)
            &&& 0 <= d.units() <= pow2(1074)
        }),
{
    tame_units(a, 40);
    tame_units(b, 40);
    tame_units(c, 40);
    about_itself(a);
    near_itself(b);
    near_itself(c);
    times_more(a, 40, seq![a.units()], seq![], 0, b, 40, b.units(), 0);
    assert(seq![a.units()].push(b.units()) =~= seq![a.units(), b.units()]);
    let ab = a.times(b);
    times_more(ab, 80, seq![a.units(), b.units()], seq![], 1, c, 40, c.units(), 0);
    let top = seq![a.units(), b.units(), c.units()];
    assert(seq![a.units(), b.units()].push(c.units()) =~= top);
    let x = ab.times(c);
    lemma_about_not_negative(x, top, 2);
    lemma_clamped_share(x, 120, top, 2);
}

/// A product of values of at most one, cut off at one.
pub proof fn lemma_clamped_share(x: Double, k: int, top: Seq<int>, e: int)
    requires
        about(x, top, seq![], e),
        tame(x, k),
        0 <= k <= 1000,
        forall|i: int| 0 <= i < top.len() ==> 0 <= #[trigger] top[i] && top[i] <= pow2(1074),
        0 <= e <= MOST,
    ensures
        tame(x.clamp(Double::zero(), Double::one()), k),
        about(x.clamp(Double::zero(), Double::one()), top, seq![], e),
        0 <= x.clamp(Double::zero(), Double::one()).units() <= pow2(1074),
{
    lemma_product_not_negative(top);
    lemma_product_at_most(top);
    lemma_scale(top.len(), 1);
    lemma_scale(1, 0);
    let h = scale(1);
    let p = product(top) * h;
    let q = 1 * scale(top.len());
    assert(0 <= p && p <= q * h) by (nonlinear_arith)
        requires
            p == product(top) * h,
            q == scale(top.len()),
            0 <= product(top) <= scale(top.len()),
            h > 0,
    ;
    lemma_product_one(0);
    near_clamped(x, p, q, e);
    one_is_tame();
    tame_grows(Double::one(), 0, k);
    near_sign(x.clamp(Double::zero(), Double::one()), p, q, e);
    crate::double_laws::order_agrees_with_value(x, Double::zero());
    crate::double_laws::order_agrees_with_value(Double::one(), x);
    crate::double_laws::order_agrees_with_value(Double::one(), Double::zero());
}

proof fn lemma_product_at_most(s: Seq<int>)
    requires
        forall|i: int| 0 <= i < s.len() ==> 0 <= #[trigger] s[i] && s[i] <= pow2(1074),
    ensures
        product(s) <= scale(s.len()),
    decreases s.len(),
{
    if s.len() == 0 {
        lemma_scale(0, 0);
    } else {
        let t = s.drop_last();
        lemma_product_at_most(t);
        lemma_product_not_negative(t);
        lemma_scale(t.len(), 1);
        let h = scale(1);
        assert(product(t) * s.last() <= scale(t.len()) * h) by (nonlinear_arith)
            requires
                0 <= product(t) <= scale(t.len()),
                0 <= s.last() <= h,
        ;
    }
}

} // verus!
