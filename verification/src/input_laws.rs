//! Laws of what configured numbers are taken for: names, columns, draws, limits and classes.
use vstd::arithmetic::power2::*;
use vstd::prelude::*;

use crate::approx::{
    near, near_itself, near_minus, near_over, near_rescaled, near_times, one_is_tame,
    ratio_is_tame, tame_minus, tame_units, whole_is_tame,
};
use crate::checks::{ambient_fault, setpoint_fault};
use crate::config::{draw_rate, parse_usize, schedule_col, value_at, ConfigValue, EquipmentConfig};
use crate::control_laws::{is_share, ordinary};
use crate::double::Double;
use crate::hpwh_compressor::{
    condenser_weights, is_low_power, is_white, low_power_share, number_spans, part_end,
    skip_white, trim_end, BiquadraticCurve,
};
use crate::precision::{size, P50};
use crate::tankless::configured_min_flow_kg_s;
use crate::time::{CivilTime, TimeStep};
use crate::wh_config::TanklessWaterHeaterConfig;
use crate::zip::sum_is_off;

verus! {

// ---------------------------------------------------------------------------
// Names and columns
// ---------------------------------------------------------------------------

/// A number stands under its name: the first one of that name counts, and there is none exactly
/// where nothing has that name.
pub proof fn numbers_stand_under_their_name(values: Seq<ConfigValue>, key: Seq<char>)
    ensures
        value_at(values, key, 0) is None <==> forall|i: int|
            0 <= i < values.len() ==> (#[trigger] values[i]).key@ != key,
        value_at(values, key, 0) is Some ==> exists|i: int|
            #![trigger values[i]]
            0 <= i < values.len() && values[i].key@ == key && value_at(values, key, 0) == Some(
                values[i].value,
            ) && forall|j: int| 0 <= j < i ==> (#[trigger] values[j]).key@ != key,
{
    lemma_value_at(values, key, 0);
}

proof fn lemma_value_at(values: Seq<ConfigValue>, key: Seq<char>, from: int)
    requires
        0 <= from <= values.len(),
        forall|j: int| 0 <= j < from ==> (#[trigger] values[j]).key@ != key,
    ensures
        value_at(values, key, from) is None <==> forall|i: int|
            0 <= i < values.len() ==> (#[trigger] values[i]).key@ != key,
        value_at(values, key, from) is Some ==> exists|i: int|
            #![trigger values[i]]
            0 <= i < values.len() && values[i].key@ == key && value_at(values, key, from) == Some(
                values[i].value,
            ) && forall|j: int| 0 <= j < i ==> (#[trigger] values[j]).key@ != key,
    decreases values.len() - from,
{
    if from < values.len() && values[from].key@ != key {
        lemma_value_at(values, key, from + 1);
    }
}

/// A number is an index exactly where it is that whole number.
pub proof fn indices_are_whole_numbers(x: Double, n: usize)
    requires
        n < usize::MAX,
    ensures
        parse_usize(Some(x)) == Some(n) <==> x.is_finite() && x.units() == n * pow2(1074),
{
    reveal(Double::spec_is_whole);
    reveal(Double::spec_to_usize);
    crate::double_laws::lemma_units_zero();
    lemma_pow2_pos(1074);
    let h = pow2(1074) as int;
    if x.is_finite() {
        crate::double_laws::order_agrees_with_value(Double::zero(), x);
        let m = crate::rounding::mag_units(x.mag()) as int;
        vstd::arithmetic::div_mod::lemma_fundamental_div_mod(m, h);
        assert(h * (m / h) == (m / h) * h) by (nonlinear_arith);
        if m == n * h {
            vstd::arithmetic::div_mod::lemma_div_multiples_vanish(n as int, h);
            vstd::arithmetic::div_mod::lemma_mod_multiples_basic(n as int, h);
            assert(h * n == n * h) by (nonlinear_arith);
        }
        assert(n * h >= 0) by (nonlinear_arith)
            requires
                n >= 0,
                h > 0,
        ;
        if x.units() < 0 {
            assert(parse_usize(Some(x)) is None);
        } else {
            lemma_not_below_zero(x);
        }
    }
}

/// A number that is not below zero has the value of its magnitude.
proof fn lemma_not_below_zero(x: Double)
    requires
        x.is_finite(),
        0 <= x.units(),
    ensures
        x.units() == crate::rounding::mag_units(x.mag()),
        x.negative() ==> x.mag() == 0,
{
    crate::double_laws::lemma_units_zero();
    if x.negative() && x.mag() > 0 {
        crate::double_laws::order_agrees_with_value(x, Double::zero());
    }
}

/// A column is the one under the first of its names that holds an index.
pub proof fn columns_go_by_their_names(config: EquipmentConfig, keys: Seq<&str>)
    ensures
        schedule_col(&config, keys, 0) is None <==> forall|i: int|
            0 <= i < keys.len() ==> parse_usize(config.value((#[trigger] keys[i])@)) is None,
        schedule_col(&config, keys, 0) is Some ==> exists|i: int|
            #![trigger keys[i]]
            0 <= i < keys.len() && schedule_col(&config, keys, 0) == parse_usize(
                config.value(keys[i]@),
            ) && forall|j: int|
                0 <= j < i ==> parse_usize(config.value((#[trigger] keys[j])@)) is None,
{
    lemma_column(config, keys, 0);
}

proof fn lemma_column(config: EquipmentConfig, keys: Seq<&str>, from: int)
    requires
        0 <= from <= keys.len(),
        forall|j: int|
            0 <= j < from ==> parse_usize(config.value((#[trigger] keys[j])@)) is None,
    ensures
        schedule_col(&config, keys, from) is None <==> forall|i: int|
            0 <= i < keys.len() ==> parse_usize(config.value((#[trigger] keys[i])@)) is None,
        schedule_col(&config, keys, from) is Some ==> exists|i: int|
            #![trigger keys[i]]
            0 <= i < keys.len() && schedule_col(&config, keys, from) == parse_usize(
                config.value(keys[i]@),
            ) && forall|j: int|
                0 <= j < i ==> parse_usize(config.value((#[trigger] keys[j])@)) is None,
    decreases keys.len() - from,
{
    if from < keys.len() && parse_usize(config.value(keys[from]@)) is None {
        lemma_column(config, keys, from + 1);
    }
}

// ---------------------------------------------------------------------------
// Draws
// ---------------------------------------------------------------------------

/// A daily draw is spread over the seconds of a day: in a day it adds up again. It counts before
/// a draw that is given directly, which counts as it is given.
pub proof fn daily_draws_add_up(config: EquipmentConfig)
    ensures
        ({
            let share = config.value("draw_profile_fraction"@);
            let daily = config.value("avg_water_draw_l_per_day"@);
            let direct = config.value("draw_flow_rate_kg_s"@);
            let other = config.value("draw_rate_kg_s"@);
            let is_daily = share is Some && daily is Some && share->0.gt(Double::zero())
                && daily->0.gt(Double::zero());
            &&& is_daily && ordinary(daily->0) ==> near(
                draw_rate(&config),
                daily->0.units(),
                86_400,
                1,
            )
            &&& !is_daily && direct is Some && direct->0.is_finite() ==> draw_rate(&config).units()
                == (if direct->0.units() > 0 {
                direct->0.units()
            } else {
                0
            })
            &&& !is_daily && direct is None && other is Some && other->0.is_finite() ==> draw_rate(
                &config,
            ).units() == (if other->0.units() > 0 {
                other->0.units()
            } else {
                0
            })
            &&& !is_daily && direct is None && other is None ==> draw_rate(&config).units() == 0
        }),
{
    crate::double_laws::lemma_units_zero();
    one_is_tame();
    if let Some(v) = config.value("avg_water_draw_l_per_day"@) {
        if ordinary(v) {
            tame_units(v, 40);
            near_itself(v);
            lemma_over_whole(v, 86_400);
        }
    }
    if let Some(v) = config.value("draw_flow_rate_kg_s"@) {
        if v.is_finite() {
            crate::double_laws::order_agrees_with_value(v, Double::zero());
            crate::double_laws::order_agrees_with_value(Double::zero(), v);
        }
    }
    if let Some(v) = config.value("draw_rate_kg_s"@) {
        if v.is_finite() {
            crate::double_laws::order_agrees_with_value(v, Double::zero());
            crate::double_laws::order_agrees_with_value(Double::zero(), v);
        }
    }
}

/// A number over a whole number.
pub(crate) proof fn lemma_over_whole(v: Double, n: u64)
    requires
        ordinary(v),
        0 < n < 0x1000_0000,
    ensures
        near(v.over(Double::whole(n)), v.units(), n as int, 1),
{
    let h = pow2(1074) as int;
    lemma_pow2_pos(1074);
    tame_units(v, 40);
    near_itself(v);
    whole_is_tame(n);
    let d = Double::whole(n);
    assert(n * h > 0) by (nonlinear_arith)
        requires
            n > 0,
            h > 0,
    ;
    near_over(v, 40, v.units(), 1, 0, d, 53, n * h, 1, 0);
    assert((v.units() * 1 * h) * n == v.units() * (1 * (n * h))) by (nonlinear_arith);
    near_rescaled(v.over(d), v.units() * 1 * h, 1 * (n * h), 1, v.units(), n as int);
}

/// The least flow of a tankless heater that is given in gallons per minute is that many times the
/// flow of one.
pub proof fn least_flows_are_converted(c: TanklessWaterHeaterConfig, gpm_in_kg_s: Double)
    requires
        c.min_flow_kg_s is None,
        c.min_flow_gpm is Some,
        ordinary(c.min_flow_gpm->0),
        ordinary(gpm_in_kg_s),
        0 <= c.min_flow_gpm->0.units(),
        0 <= gpm_in_kg_s.units(),
    ensures
        near(
            configured_min_flow_kg_s(&c, gpm_in_kg_s),
            c.min_flow_gpm->0.units() * gpm_in_kg_s.units(),
            pow2(1074) as int,
            1,
        ),
{
    let gpm = c.min_flow_gpm->0;
    let h = pow2(1074) as int;
    tame_units(gpm, 40);
    tame_units(gpm_in_kg_s, 40);
    near_itself(gpm);
    near_itself(gpm_in_kg_s);
    one_is_tame();
    near_times(gpm, 40, gpm.units(), 1, 0, gpm_in_kg_s, 40, gpm_in_kg_s.units(), 1, 0);
    let flow = gpm.times(gpm_in_kg_s);
    let p = gpm.units() * gpm_in_kg_s.units();
    assert(p >= 0) by (nonlinear_arith)
        requires
            p == gpm.units() * gpm_in_kg_s.units(),
            gpm.units() >= 0,
            gpm_in_kg_s.units() >= 0,
    ;
    crate::approx::near_sign(flow, p, 1 * 1 * h, 1);
    crate::double_laws::order_agrees_with_value(flow, Double::zero());
    crate::double_laws::order_agrees_with_value(Double::zero(), flow);
    assert(1 * 1 * h == h);
    let least = flow.max(Double::zero());
    assert(least.units() == flow.units() && least.is_finite());
}

// ---------------------------------------------------------------------------
// Limits
// ---------------------------------------------------------------------------

/// A setpoint is accepted where it stays below the limit of the tank, or as far below it as the
/// deadband, and refused elsewhere; and what is not given is not refused.
pub proof fn setpoints_stay_below_the_limit(
    prefix: &'static str,
    setpoint_c: Double,
    limit_c: Double,
    deadband_c: Double,
)
    requires
        setpoint_c.is_finite(),
        limit_c.is_finite(),
        deadband_c.is_finite(),
        limit_c.minus(deadband_c).is_finite(),
    ensures
        ({
            let alone = setpoint_fault(prefix, Some(setpoint_c), Some(limit_c), None);
            let apart = setpoint_fault(prefix, Some(setpoint_c), Some(limit_c), Some(deadband_c));
            let room = limit_c.units() - deadband_c.units();
            &&& alone is None <==> setpoint_c.units() < limit_c.units()
            // But for the rounding of the difference.
            &&& setpoint_c.units() * P50 < room * P50 - size(room) ==> apart is None
            &&& setpoint_c.units() * P50 > room * P50 + size(room) ==> apart is Some
            &&& setpoint_fault(prefix, None, Some(limit_c), Some(deadband_c)) is None
            &&& setpoint_fault(prefix, Some(setpoint_c), None, Some(deadband_c)) is None
        }),
{
    near_minus(limit_c, deadband_c);
    let d = limit_c.minus(deadband_c);
    let room = limit_c.units() - deadband_c.units();
    crate::double_laws::order_agrees_with_value(limit_c, setpoint_c);
    crate::double_laws::order_agrees_with_value(d, setpoint_c);
    assert(d.units() * 1 == d.units());
    assert(size(d.units() - room) * P50 <= size(room));
}

/// The air that a compressor runs in is a range: its lower end is below its upper end.
pub proof fn ambient_limits_are_a_range(min_c: Double, max_c: Double)
    requires
        min_c.is_finite(),
        max_c.is_finite(),
    ensures
        ambient_fault(Some(min_c), Some(max_c)) is None <==> min_c.units() < max_c.units(),
        ambient_fault(None, Some(max_c)) is None,
        ambient_fault(Some(min_c), None) is None,
{
    crate::double_laws::order_agrees_with_value(max_c, min_c);
}

// ---------------------------------------------------------------------------
// Classes
// ---------------------------------------------------------------------------

/// How far a unit is of the low-power class: half-way at a factor of 4.9, a twentieth further for
/// each hundredth more, none at 4.8 or less and all at 5 or more.
pub proof fn low_power_shares_are_linear(factor: Double)
    requires
        ordinary(factor),
    ensures
        ({
            let h = pow2(1074) as int;
            let share = low_power_share(factor);
            let exact = 5 * factor.units() - 24 * h;
            let kept = if exact < 0 {
                0
            } else if exact > h {
                h
            } else {
                exact
            };
            &&& share.is_finite()
            &&& 0 <= share.units() <= h
            &&& size(share.units() - kept) * P50 <= 64 * h
        }),
{
    let h = pow2(1074) as int;
    lemma_pow2_pos(1074);
    one_is_tame();
    let low = Double::ratio(48, 10);
    let width = Double::ratio(2, 10);
    ratio_is_tame(48, 10);
    ratio_is_tame(2, 10);
    tame_units(low, 53);
    tame_units(width, 53);
    tame_units(factor, 40);
    crate::approx::tame_grows(factor, 40, 53);
    tame_minus(factor, low, 53);
    let diff = factor.minus(low);
    near_itself(diff);
    tame_units(diff, 105);
    let du = diff.units();
    near_over(diff, 105, du, 1, 0, width, 53, 2 * h, 10, 1);
    let q = diff.over(width);
    assert((du * 10 * h) * 1 == (5 * du) * (1 * (2 * h))) by (nonlinear_arith);
    near_rescaled(q, du * 10 * h, 1 * (2 * h), 2, 5 * du, 1);
    crate::double_laws::order_agrees_with_value(q, Double::zero());
    crate::double_laws::order_agrees_with_value(Double::one(), q);
    crate::double_laws::order_agrees_with_value(Double::zero(), q);
    crate::double_laws::order_agrees_with_value(q, Double::one());
    let room = factor.units() - low.units();
    assert(size(du - room) * P50 <= size(room));
    assert(size(low.units() * 10 - 48 * h) * P50 <= 48 * h);
    assert(size(q.units() - 5 * du) * P50 <= 2 * size(5 * du));
    lemma_share_is_close(q.units(), du, room, factor.units(), low.units(), h);
}

proof fn lemma_share_is_close(q: int, du: int, room: int, f: int, low: int, h: int)
    requires
        h > 0,
        room == f - low,
        size(du - room) * P50 <= size(room),
        size(low * 10 - 48 * h) * P50 <= 48 * h,
        size(q - 5 * du) * P50 <= 2 * size(5 * du),
    ensures
        ({
            let exact = 5 * f - 24 * h;
            let kept = if exact < 0 {
                0
            } else if exact > h {
                h
            } else {
                exact
            };
            let cut = if q < 0 {
                0
            } else if q > h {
                h
            } else {
                q
            };
            size(cut - kept) * P50 <= 64 * h
        }),
{
    let exact = 5 * f - 24 * h;
    // 5 room is exact but for 24 h parts in 2^50.
    assert(size(5 * room - exact) * P50 <= 24 * h);
    assert(size(5 * du - 5 * room) * P50 <= size(5 * room));
    assert(size(5 * du) <= 2 * size(5 * room));
    assert(size(q - 5 * room) * P50 <= 5 * size(5 * room));
    if size(5 * room) <= 2 * h {
        assert(size(q - exact) * P50 <= 34 * h);
    }
}

/// Which class a unit is of: as stated, or by its factor, from 4.9 on.
pub proof fn classes_go_by_their_factor(stated: bool, factor: Double, given: Option<Double>)
    requires
        factor.is_finite(),
    ensures
        is_low_power(Some(stated), given) == stated,
        !is_low_power(None, None),
        // But for the rounding of 4.9.
        10 * factor.units() * P50 >= 49 * pow2(1074) * (P50 + 1) ==> is_low_power(
            None,
            Some(factor),
        ),
        10 * factor.units() * P50 < 49 * pow2(1074) * (P50 - 1) ==> !is_low_power(
            None,
            Some(factor),
        ),
{
    let h = pow2(1074) as int;
    lemma_pow2_pos(1074);
    ratio_is_tame(49, 10);
    let limit = Double::ratio(49, 10);
    tame_units(limit, 53);
    crate::double_laws::order_agrees_with_value(limit, factor);
    assert(size(limit.units() * 10 - 49 * h) * P50 <= 1 * size(49 * h));
    assert(49 * h * (P50 + 1) == 49 * h * P50 + 49 * h) by (nonlinear_arith);
    assert(49 * h * (P50 - 1) == 49 * h * P50 - 49 * h) by (nonlinear_arith);
}

/// Where a condenser gives its heat by default: at the middle of the tank, and along a condenser
/// over the lower half of twelve nodes the more the lower, but for the last node.
pub proof fn condensers_wrap_the_lower_tank(n_nodes: nat, node: int)
    requires
        0 <= node < n_nodes,
    ensures
        ({
            let h = pow2(1074) as int;
            let weight = condenser_weights(n_nodes)[node].units();
            &&& condenser_weights(n_nodes).len() == n_nodes
            &&& n_nodes != 12 && n_nodes / 2 == node ==> weight == h
            &&& n_nodes != 12 && n_nodes / 2 != node ==> weight == 0
            &&& n_nodes == 12 && node < 5 ==> weight == 0
            &&& n_nodes == 12 && 5 <= node < 11 ==> weight == 5 * (node - 4) * h
            &&& n_nodes == 12 && node == 11 ==> weight == 5 * h
        }),
{
    one_is_tame();
    whole_is_tame(5);
    whole_is_tame(10);
    whole_is_tame(15);
    whole_is_tame(20);
    whole_is_tame(25);
    whole_is_tame(30);
}

/// The conditions at which a curve is held against its rating are the middle of its bounds.
pub proof fn curves_are_rated_at_the_middle(curve: BiquadraticCurve)
    requires
        ordinary(curve.x1_bounds.0),
        ordinary(curve.x1_bounds.1),
        ordinary(curve.x2_bounds.0),
        ordinary(curve.x2_bounds.1),
        0 <= curve.x1_bounds.0.units(),
        0 <= curve.x1_bounds.1.units(),
        0 <= curve.x2_bounds.0.units(),
        0 <= curve.x2_bounds.1.units(),
    ensures
        near(
            curve.reference_point().0,
            curve.x1_bounds.0.units() + curve.x1_bounds.1.units(),
            2,
            3,
        ),
        near(
            curve.reference_point().1,
            curve.x2_bounds.0.units() + curve.x2_bounds.1.units(),
            2,
            3,
        ),
{
    lemma_middle(curve.x1_bounds.0, curve.x1_bounds.1);
    lemma_middle(curve.x2_bounds.0, curve.x2_bounds.1);
}

proof fn lemma_middle(a: Double, b: Double)
    requires
        ordinary(a),
        ordinary(b),
        0 <= a.units(),
        0 <= b.units(),
    ensures
        near(a.plus(b).times(Double::ratio(1, 2)), a.units() + b.units(), 2, 3),
{
    let h = pow2(1074) as int;
    lemma_pow2_pos(1074);
    tame_units(a, 40);
    tame_units(b, 40);
    crate::approx::tame_sum(a, b, 40);
    ratio_is_tame(1, 2);
    let half = Double::ratio(1, 2);
    let sum = a.plus(b);
    let exact = a.units() + b.units();
    near_times(sum, 41, exact, 1, 1, half, 53, 1 * h, 2, 1);
    assert((exact * (1 * h)) * 2 == exact * (1 * 2 * h)) by (nonlinear_arith);
    near_rescaled(sum.times(half), exact * (1 * h), 1 * 2 * h, 3, exact, 2);
}

/// Fractions of a load must add up to one, within a hundredth.
#[verifier::rlimit(50)]
pub proof fn fractions_add_up(a: Double, b: Double, c: Double)
    requires
        is_share(a),
        is_share(b),
        is_share(c),
    ensures
        ({
            let h = pow2(1074) as int;
            let over = size(a.units() + b.units() + c.units() - h);
            // But for the rounding of the sum.
            &&& 100_000 * over >= 1001 * h ==> sum_is_off(a, b, c)
            &&& 100_000 * over <= 999 * h ==> !sum_is_off(a, b, c)
        }),
{
    let h = pow2(1074) as int;
    lemma_pow2_pos(1074);
    one_is_tame();
    crate::approx::tame_grows(Double::one(), 0, 42);
    tame_units(a, 40);
    tame_units(b, 40);
    tame_units(c, 40);
    crate::approx::tame_sum(a, b, 40);
    let ab = a.plus(b);
    crate::approx::near_sign(ab, a.units() + b.units(), 1, 1);
    crate::approx::tame_grows(c, 40, 41);
    crate::approx::tame_sum(ab, c, 41);
    let abc = ab.plus(c);
    tame_minus(abc, Double::one(), 42);
    let d = abc.minus(Double::one());
    tame_units(d, 94);
    ratio_is_tame(1, 100);
    let limit = Double::ratio(1, 100);
    tame_units(limit, 53);
    lemma_size_of_number(d);
    crate::double_laws::order_agrees_with_value(limit, d.abs());
    lemma_near_whole(ab, a.units() + b.units());
    lemma_near_whole(abc, ab.units() + c.units());
    lemma_near_whole(d, abc.units() - h);
    assert(size(limit.units() * 100 - 1 * h) * P50 <= 1 * size(1 * h));
    lemma_sum_off(
        a.units(),
        b.units(),
        c.units(),
        ab.units(),
        abc.units(),
        d.units(),
        limit.units(),
        h,
    );
}

proof fn lemma_near_whole(x: Double, p: int)
    requires
        near(x, p, 1, 1),
    ensures
        size(x.units() - p) * P50 <= size(p),
{
    assert(x.units() * 1 == x.units());
    assert(1 * size(p) == size(p));
}

proof fn lemma_sum_off(a: int, b: int, c: int, ab: int, abc: int, d: int, limit: int, h: int)
    requires
        0 < h,
        0 <= a <= h,
        0 <= b <= h,
        0 <= c <= h,
        size(ab - (a + b)) * P50 <= size(a + b),
        size(abc - (ab + c)) * P50 <= size(ab + c),
        size(d - (abc - h)) * P50 <= size(abc - h),
        size(limit * 100 - h) * P50 <= h,
    ensures
        100_000 * size(a + b + c - h) >= 1001 * h ==> size(d) >= limit,
        100_000 * size(a + b + c - h) <= 999 * h ==> size(d) < limit,
{
    let s = a + b + c;
    assert(size(ab - (a + b)) * P50 <= 2 * h);
    assert(size(ab + c) <= 4 * h);
    assert(size(abc - s) * P50 <= 6 * h);
    assert(size(abc - h) <= 4 * h);
    assert(size(d - (s - h)) * P50 <= 10 * h);
    assert(size(size(d) - size(s - h)) * P50 <= 10 * h);
}

/// The size of a number, as a number.
proof fn lemma_size_of_number(d: Double)
    requires
        d.is_finite(),
    ensures
        d.abs().is_finite(),
        d.abs().units() == size(d.units()),
{
    crate::double_laws::lemma_units_zero();
    crate::double_laws::lemma_signed_mag(d.mag());
    crate::double_laws::order_agrees_with_value(d, Double::zero());
    crate::double_laws::order_agrees_with_value(Double::zero(), d);
}

// ---------------------------------------------------------------------------
// Lists of numbers
// ---------------------------------------------------------------------------

/// A part of a text that holds no comma, and neither begins nor ends with white space.
pub open spec fn is_part(text: Seq<char>, from: int, to: int) -> bool {
    &&& 0 <= from < to <= text.len()
    &&& forall|k: int| from <= k < to ==> #[trigger] text[k] != ','
    &&& !is_white(text[from])
    &&& !is_white(text[to - 1])
}

/// A comma stands somewhere between two places.
pub open spec fn comma_between(text: Seq<char>, from: int, to: int) -> bool {
    exists|k: int| from <= k < to && #[trigger] text[k] == ','
}

/// Some part of a list holds a place.
pub open spec fn is_held(spans: Seq<(usize, usize)>, place: int) -> bool {
    exists|i: int|
        0 <= i < spans.len() && (#[trigger] spans[i]).0 <= place && place < spans[i].1
}

/// A list of numbers is split at its commas: every part is free of commas and of white space
/// around it, a comma stands between any two, and nothing but commas and white space is left out.
pub proof fn lists_are_split_at_commas(text: Seq<char>)
    requires
        text.len() < usize::MAX,
    ensures
        forall|i: int|
            #![trigger number_spans(text, 0)[i]]
            0 <= i < number_spans(text, 0).len() ==> is_part(
                text,
                number_spans(text, 0)[i].0 as int,
                number_spans(text, 0)[i].1 as int,
            ),
        forall|i: int, j: int|
            #![trigger number_spans(text, 0)[i], number_spans(text, 0)[j]]
            0 <= i < j < number_spans(text, 0).len() ==> comma_between(
                text,
                number_spans(text, 0)[i].1 as int,
                number_spans(text, 0)[j].0 as int,
            ),
        forall|k: int|
            0 <= k < text.len() && (#[trigger] text[k]) != ',' && !is_white(text[k]) ==> is_held(
                number_spans(text, 0),
                k,
            ),
{
    lemma_spans(text, 0);
}

proof fn lemma_spans(text: Seq<char>, from: int)
    requires
        text.len() < usize::MAX,
        0 <= from <= text.len() + 1,
    ensures
        forall|i: int|
            #![trigger number_spans(text, from)[i]]
            0 <= i < number_spans(text, from).len() ==> from <= number_spans(text, from)[i].0
                && is_part(
                text,
                number_spans(text, from)[i].0 as int,
                number_spans(text, from)[i].1 as int,
            ),
        forall|i: int, j: int|
            #![trigger number_spans(text, from)[i], number_spans(text, from)[j]]
            0 <= i < j < number_spans(text, from).len() ==> comma_between(
                text,
                number_spans(text, from)[i].1 as int,
                number_spans(text, from)[j].0 as int,
            ),
        forall|k: int|
            from <= k < text.len() && (#[trigger] text[k]) != ',' && !is_white(text[k])
                ==> is_held(number_spans(text, from), k),
    decreases text.len() + 1 - from,
{
    if from <= text.len() {
        lemma_part(text, from);
        let stop = part_end(text, from);
        lemma_skip(text, from, stop);
        let start = skip_white(text, from, stop);
        lemma_trim(text, start, stop);
        let end = trim_end(text, start, stop);
        lemma_spans(text, stop + 1);
        let rest = number_spans(text, stop + 1);
        let spans = number_spans(text, from);
        let n: int = if start < end {
            1
        } else {
            0
        };
        assert(spans.len() == n + rest.len());
        assert forall|i: int| n <= i < spans.len() implies #[trigger] spans[i] == rest[i - n] by {
        }
        if start < end {
            assert(spans[0] == (start as usize, end as usize));
            assert(is_part(text, start, end));
        }
        assert forall|i: int, j: int|
            #![trigger spans[i], spans[j]]
            0 <= i < j < spans.len() implies comma_between(
            text,
            spans[i].1 as int,
            spans[j].0 as int,
        ) by {
            assert(spans[j] == rest[j - n]);
            if i < n {
                assert(stop + 1 <= rest[j - n].0);
                assert(is_part(text, rest[j - n].0 as int, rest[j - n].1 as int));
                assert(text[stop] == ',');
            } else {
                assert(spans[i] == rest[i - n]);
            }
        }
        assert forall|k: int|
            from <= k < text.len() && (#[trigger] text[k]) != ',' && !is_white(
                text[k],
            ) implies is_held(spans, k) by {
            if k < stop {
                assert(start <= k < end);
                assert(spans[0].0 <= k < spans[0].1);
            } else {
                assert(k != stop);
                assert(is_held(rest, k));
                let i = choose|i: int|
                    0 <= i < rest.len() && (#[trigger] rest[i]).0 <= k && k < rest[i].1;
                assert(spans[i + n] == rest[i]);
            }
        }
    }
}

proof fn lemma_part(text: Seq<char>, from: int)
    requires
        0 <= from <= text.len(),
    ensures
        from <= part_end(text, from) <= text.len(),
        forall|k: int| from <= k < part_end(text, from) ==> #[trigger] text[k] != ',',
        part_end(text, from) < text.len() ==> text[part_end(text, from)] == ',',
    decreases text.len() - from,
{
    if from < text.len() && text[from] != ',' {
        lemma_part(text, from + 1);
    }
}

proof fn lemma_skip(text: Seq<char>, from: int, end: int)
    requires
        0 <= from <= end <= text.len(),
    ensures
        from <= skip_white(text, from, end) <= end,
        forall|k: int| from <= k < skip_white(text, from, end) ==> is_white(#[trigger] text[k]),
        skip_white(text, from, end) < end ==> !is_white(text[skip_white(text, from, end)]),
    decreases end - from,
{
    if from < end && is_white(text[from]) {
        lemma_skip(text, from + 1, end);
    }
}

proof fn lemma_trim(text: Seq<char>, from: int, end: int)
    requires
        0 <= from <= end <= text.len(),
    ensures
        from <= trim_end(text, from, end) <= end,
        forall|k: int| trim_end(text, from, end) <= k < end ==> is_white(#[trigger] text[k]),
        from < trim_end(text, from, end) ==> !is_white(text[trim_end(text, from, end) - 1]),
    decreases end - from,
{
    if from < end && is_white(text[end - 1]) {
        lemma_trim(text, from, end - 1);
    }
}

// ---------------------------------------------------------------------------
// Time
// ---------------------------------------------------------------------------

/// The hour of the day goes by local time, begins at midnight with none, and moves on every 3600
/// seconds, from the last hour of a day to the first.
pub proof fn hours_go_by_local_time(unix_secs: i64, offset_secs: i32)
    requires
        (CivilTime { unix_secs, offset_secs }).wf(),
    ensures
        ({
            let hour = (CivilTime { unix_secs, offset_secs }).hour();
            let shown = (unix_secs + offset_secs) as i64;
            &&& 0 <= hour < 24
            &&& (CivilTime { unix_secs: shown, offset_secs: 0 }).hour() == hour
            &&& (CivilTime { unix_secs: (unix_secs + 3600) as i64, offset_secs }).hour() == (hour
                + 1) % 24
            &&& 0 <= shown < 3600 ==> hour == 0
        }),
{
    let t = unix_secs + offset_secs;
    let r = t % 86_400;
    let q = t / 86_400;
    assert(t == 86_400 * q + r && 0 <= r < 86_400);
    if r + 3600 < 86_400 {
        assert((t + 3600) % 86_400 == r + 3600);
    } else {
        assert((t + 3600) % 86_400 == r + 3600 - 86_400);
    }
}

/// A step is coarse exactly where it lasts five minutes or more.
pub proof fn steps_of_five_minutes_are_coarse(t: TimeStep)
    requires
        t.wf(),
    ensures
        t.is_coarse() <==> 300 <= t.secs,
{
    let n = t.total_nanos();
    if n >= 0 {
        assert(t.secs >= 0);
        assert(n / 1_000_000_000 == t.secs);
    } else {
        assert((-n) / 1_000_000_000 >= 0);
    }
}

} // verus!
