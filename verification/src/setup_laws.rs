//! Laws of how a heater is set up: that it has what its configuration states, and what follows
//! from that.
use vstd::arithmetic::power2::*;
use vstd::prelude::*;

use crate::approx::{
    near, near_grows, near_itself, near_over, near_plus, near_rescaled, near_sign, near_times,
    one_is_tame, parts_grow, parts_of_near, parts_plus, parts_rescaled, ratio_is_tame, tame,
    tame_grows, tame_minus, tame_plus, tame_units, whole_is_tame, within_parts,
};
use crate::control_laws::{is_share, ordinary, over_more, times_more};
use crate::double::Double;
use crate::gas::GasState;
use crate::heat_pump_wh::HpState;
use crate::hpwh_compressor::LowPowerCoeffs;
use crate::indirect_tank::IndirectState;
use crate::precision::{size, P50};
use crate::products::{about, about_itself};
use crate::resistance::ResistanceState;
use crate::shared::DemandResponse;
use crate::tankless::{TanklessSite, TanklessState};
use crate::wh_config::{
    ElectricResistanceWaterHeaterConfig, GasWaterHeaterConfig, HeatPumpWaterHeaterConfig,
    IndirectTankConfig, TanklessWaterHeaterConfig,
};

verus! {

// ---------------------------------------------------------------------------
// Settings
// ---------------------------------------------------------------------------

/// A setting is as given, where it is given.
pub open spec fn as_given(given: Option<Double>, setting: Double) -> bool {
    given is Some ==> setting == given->0
}

/// A setting is as given, where a number that is not negative is given.
pub open spec fn as_given_if_positive(given: Option<Double>, setting: Double) -> bool {
    given is Some && given->0.is_finite() && 0 <= given->0.units() ==> setting == given->0
}

proof fn lemma_not_cut(x: Double)
    ensures
        x.is_finite() && 0 <= x.units() ==> x.max(Double::zero()) == x,
{
    one_is_tame();
    if x.is_finite() {
        crate::double_laws::order_agrees_with_value(x, Double::zero());
    }
}

/// A gas heater has what its configuration states, and starts at rest.
pub proof fn gas_heaters_are_as_configured(s: GasState, c: GasWaterHeaterConfig, mains_temp_c: Double)
    ensures
        ({
            let after = s.configured(&c, mains_temp_c);
            &&& as_given(c.fan_power_w, after.fan_power_w)
            &&& as_given(c.setpoint_c, after.setpoint_c)
            &&& as_given(c.deadband_c, after.deadband_c)
            &&& as_given(c.draw_flow_rate_kg_s, after.draw_flow_rate_kg_s)
            &&& as_given(c.flue_loss_fraction, after.flue_loss_fraction)
            &&& as_given(c.skin_loss_fraction, after.skin_loss_fraction)
            &&& as_given(c.max_tank_temp_c, after.max_tank_temp_c)
            &&& as_given(c.pilot_fraction_to_tank, after.pilot_fraction_to_tank)
            &&& as_given(c.fixture_delivery_temp_c, after.fixture_delivery_temp_c)
            &&& as_given(c.conversion_efficiency, after.burner_efficiency_constant)
            &&& as_given_if_positive(c.heating_capacity_w, after.burner_input_w)
            &&& as_given_if_positive(c.pilot_power_w, after.pilot_power_w)
            &&& after.hot_draw_temp_c == c.hot_draw_temp_c
            &&& after.fuel_type == c.fuel_type
            &&& !after.burner_on
            &&& after.burner_efficiency_poly is None
            &&& after.duty_cycle == Double::one()
            &&& after.ctrl_load_fraction == Double::one()
            &&& after.mode_override is None
            &&& after.dr == DemandResponse::normal()
            &&& after.mains_temp_c == mains_temp_c
            &&& after.draw_source == c.draw_flow_rate_source
            &&& after.mains_temp_c_source == c.mains_temp_c_source
            &&& c.loop_id is Some ==> after.loop_id == c.loop_id->0
        }),
{
    if let Some(v) = c.heating_capacity_w {
        lemma_not_cut(v);
    }
    if let Some(v) = c.pilot_power_w {
        lemma_not_cut(v);
    }
}

/// A resistance heater has what its configuration states, and starts at rest.
pub proof fn resistance_heaters_are_as_configured(
    s: ResistanceState,
    c: ElectricResistanceWaterHeaterConfig,
    mains_temp_c: Double,
)
    ensures
        ({
            let after = s.configured(&c, mains_temp_c);
            &&& as_given(c.setpoint_c, after.setpoint_c)
            &&& as_given(c.setpoint_c, after.target_setpoint_c)
            &&& as_given(c.deadband_c, after.deadband_c)
            &&& as_given(c.draw_flow_rate_kg_s, after.draw_flow_rate_kg_s)
            &&& as_given(c.max_tank_temp_c, after.max_tank_temp_c)
            &&& as_given(c.fixture_delivery_temp_c, after.fixture_delivery_temp_c)
            &&& as_given_if_positive(c.element_power_w, after.upper_element_power_w)
            &&& as_given_if_positive(c.element_power_w, after.lower_element_power_w)
            &&& after.hot_draw_temp_c == c.hot_draw_temp_c
            &&& after.max_combined_power_w == c.max_combined_power_w
            &&& !after.upper_element_on
            &&& !after.lower_element_on
            &&& after.duty_cycle == Double::one()
            &&& after.ctrl_load_fraction == Double::one()
            &&& after.mode_override is None
            &&& after.dr == DemandResponse::normal()
            &&& after.mains_temp_c == mains_temp_c
            &&& after.draw_source == c.draw_flow_rate_source
            &&& after.mains_temp_c_source == c.mains_temp_c_source
            &&& c.loop_id is Some ==> after.loop_id == c.loop_id->0
        }),
{
    if let Some(v) = c.element_power_w {
        lemma_not_cut(v);
    }
    if let Some(v) = c.element_power_w {
        lemma_not_cut(v);
    }
}

/// A heat pump has what its configuration states, and starts at rest.
pub proof fn heat_pumps_are_as_configured(
    s: HpState,
    c: HeatPumpWaterHeaterConfig,
    low_power: LowPowerCoeffs,
    cop_at_reference: Double,
    mains_temp_c: Double,
)
    ensures
        ({
            let after = s.configured(&c, low_power, cop_at_reference, mains_temp_c);
            &&& as_given(c.compressor_power_w, after.compressor_power_w)
            &&& as_given(c.backup_enable_offset_c, after.backup_enable_offset_c)
            &&& as_given(c.backup_efficiency, after.backup_efficiency)
            &&& as_given(c.fixture_delivery_temp_c, after.fixture_delivery_temp_c)
            &&& as_given(c.min_ambient_temp_c, after.min_ambient_temp_c)
            &&& as_given(c.max_ambient_temp_c, after.max_ambient_temp_c)
            &&& as_given(c.max_tank_temp_c, after.max_tank_temp_c)
            &&& as_given(c.shr, after.shr)
            &&& as_given(c.lost_heat_fraction, after.lost_heat_fraction)
            &&& as_given(c.fan_power_w, after.fan_power_w)
            &&& as_given(c.parasitic_power_w, after.parasitic_power_w)
            &&& as_given(c.min_on_time_s, after.min_on_time_s)
            &&& as_given(c.min_off_time_s, after.min_off_time_s)
            &&& as_given(c.draw_flow_rate_kg_s, after.draw_flow_rate_kg_s)
            &&& as_given_if_positive(c.backup_element_power_w, after.backup_element_power_w)
            &&& !after.compressor_on
            &&& !after.backup_on
            &&& after.hp_duty_cycle == Double::one()
            &&& after.er_duty_cycle == Double::one()
            &&& after.compressor_on_since_s is None
            &&& after.compressor_off_since_s is None
            &&& c.hp_only_mode is Some ==> after.hp_only_mode == c.hp_only_mode->0
            &&& after.duty_cycle == Double::one()
            &&& after.ctrl_load_fraction == Double::one()
            &&& after.mode_override is None
            &&& after.dr == DemandResponse::normal()
            &&& after.mains_temp_c == mains_temp_c
        }),
{
    if let Some(v) = c.backup_element_power_w {
        lemma_not_cut(v);
    }
}

/// An indirect tank has what its configuration states, and starts at rest.
pub proof fn indirect_tanks_are_as_configured(
    s: IndirectState,
    c: IndirectTankConfig,
    mains_temp_c: Double,
)
    ensures
        ({
            let after = s.configured(&c, mains_temp_c);
            &&& as_given(c.setpoint_c, after.setpoint_c)
            &&& as_given(c.setpoint_c, after.target_setpoint_c)
            &&& as_given(c.deadband_c, after.deadband_c)
            &&& as_given(c.draw_flow_rate_kg_s, after.draw_flow_rate_kg_s)
            &&& as_given(c.max_tank_temp_c, after.max_tank_temp_c)
            &&& as_given(c.fixture_delivery_temp_c, after.fixture_delivery_temp_c)
            &&& as_given(c.boiler_loop_flow_rate_kg_s, after.boiler_loop_flow_rate_kg_s)
            &&& as_given_if_positive(c.hx_ua_w_per_k, after.hx_ua_w_per_k)
            &&& after.hot_draw_temp_c == c.hot_draw_temp_c
            &&& !after.heating_on
            &&& after.duty_cycle == Double::one()
            &&& after.ctrl_load_fraction == Double::one()
            &&& after.mode_override is None
            &&& after.dr == DemandResponse::normal()
            &&& after.mains_temp_c == mains_temp_c
            &&& after.draw_source == c.draw_flow_rate_source
            &&& after.mains_temp_c_source == c.mains_temp_c_source
        }),
{
    if let Some(v) = c.hx_ua_w_per_k {
        lemma_not_cut(v);
    }
}

/// A tankless heater has what its configuration states, and nothing limits it yet.
pub proof fn tankless_heaters_are_as_configured(
    s: TanklessState,
    c: TanklessWaterHeaterConfig,
    site: TanklessSite,
)
    ensures
        ({
            let after = s.configured(&c, site);
            &&& as_given(c.setpoint_c, after.setpoint_c)
            &&& as_given(c.draw_flow_rate_kg_s, after.draw_flow_rate_kg_s)
            &&& as_given(c.inlet_temp_c, after.inlet_temp_c)
            &&& as_given_if_positive(c.heating_capacity_w, after.rated_thermal_power_w)
            &&& as_given_if_positive(c.parasitic_power_w, after.parasitic_power_w)
            &&& as_given_if_positive(c.min_flow_kg_s, after.min_flow_kg_s)
            &&& after.fuel_type == c.fuel_type
            &&& after.power_limit_w is None
            &&& after.duty_cycle == Double::one()
            &&& after.ctrl_load_fraction == Double::one()
            &&& after.mode_override is None
            &&& after.dr == DemandResponse::normal()
            &&& after.draw_source == c.draw_flow_rate_source
            &&& after.mains_temp_c_source == c.mains_temp_c_source
        }),
{
    if let Some(v) = c.heating_capacity_w {
        lemma_not_cut(v);
    }
    if let Some(v) = c.parasitic_power_w {
        lemma_not_cut(v);
    }
    if let Some(v) = c.min_flow_kg_s {
        lemma_not_cut(v);
    }
}

/// A setpoint that moves at a rate per minute moves at a sixtieth of it per second.
pub proof fn ramp_rates_are_per_minute(
    s: ResistanceState,
    c: ElectricResistanceWaterHeaterConfig,
    mains_temp_c: Double,
)
    requires
        c.max_setpoint_ramp_rate_c_per_min is Some,
        ordinary(c.max_setpoint_ramp_rate_c_per_min->0),
    ensures
        ({
            let rate = s.configured(&c, mains_temp_c).setpoint_ramp_rate_c_per_s;
            &&& rate is Some
            &&& near(rate->0, c.max_setpoint_ramp_rate_c_per_min->0.units(), 60, 1)
        }),
{
    let given = c.max_setpoint_ramp_rate_c_per_min->0;
    tame_units(given, 40);
    near_itself(given);
    lemma_divided(given, 40, given.units(), 1, 0, 60);
}

/// A number over a small whole number.
proof fn lemma_divided(x: Double, k: int, p: int, q: int, e: int, n: u64)
    requires
        tame(x, k),
        0 <= k <= 400,
        near(x, p, q, e),
        0 <= e <= 20,
        0 < n < 0x1_0000_0000,
    ensures
        tame(x.over(Double::whole(n)), k + 53),
        near(x.over(Double::whole(n)), p, q * n, e + 1),
{
    let h = pow2(1074) as int;
    lemma_pow2_pos(1074);
    whole_is_tame(n);
    let nh = n * h;
    assert(nh > 0) by (nonlinear_arith)
        requires
            nh == n * h,
            n > 0,
            h > 0,
    ;
    near_over(x, k, p, q, e, Double::whole(n), 53, nh, 1, 0);
    assert((p * 1 * h) * (q * n) == p * (q * nh)) by (nonlinear_arith)
        requires
            nh == n * h,
    ;
    assert(q * n > 0) by (nonlinear_arith)
        requires
            q > 0,
            n > 0,
    ;
    near_rescaled(x.over(Double::whole(n)), p * 1 * h, q * nh, e + 1, p, q * n);
}

// ---------------------------------------------------------------------------
// Efficiencies
// ---------------------------------------------------------------------------

/// The efficiency of a gas heater is its conversion efficiency, or else its energy factor times
/// its adjustment, or else the energy factor that its uniform energy factor stands for times its
/// adjustment: 0.9066 times it and 0.0711.
pub proof fn gas_efficiency_is_as_rated(c: GasWaterHeaterConfig)
    requires
        c.energy_factor is Some ==> ordinary(c.energy_factor->0),
        c.uniform_energy_factor is Some ==> ordinary(c.uniform_energy_factor->0),
        c.performance_adjustment is Some,
        ordinary(c.performance_adjustment->0),
    ensures
        ({
            let efficiency = crate::gas::configured_efficiency(&c).0;
            let h = pow2(1074) as int;
            let adjustment = c.performance_adjustment->0.units();
            &&& c.conversion_efficiency is Some ==> efficiency == c.conversion_efficiency->0
            &&& c.conversion_efficiency is None && c.energy_factor is Some ==> near(
                efficiency,
                c.energy_factor->0.units() * adjustment,
                h,
                1,
            )
            &&& c.conversion_efficiency is None && c.energy_factor is None
                && c.uniform_energy_factor is Some ==> near(
                efficiency,
                (9066 * c.uniform_energy_factor->0.units() + 711 * h) * adjustment,
                10_000 * h,
                4,
            )
        }),
{
    let h = pow2(1074) as int;
    lemma_pow2_pos(1074);
    let adjustment = c.performance_adjustment->0;
    tame_units(adjustment, 40);
    near_itself(adjustment);
    if let Some(ef) = c.energy_factor {
        tame_units(ef, 40);
        near_itself(ef);
        near_times(ef, 40, ef.units(), 1, 0, adjustment, 40, adjustment.units(), 1, 0);
        assert(1 * 1 * h == h);
    }
    if let Some(uef) = c.uniform_energy_factor {
        lemma_energy_factor(uef);
        let ef = crate::gas::uef_to_ef_gas(uef);
        let p = 9066 * uef.units() + 711 * h;
        near_times(ef, 145, p, 10_000, 3, adjustment, 40, adjustment.units(), 1, 0);
        assert(10_000 * 1 * h == 10_000 * h);
    }
}

/// The energy factor that a uniform energy factor stands for.
proof fn lemma_energy_factor(uef: Double)
    requires
        ordinary(uef),
    ensures
        ({
            let ef = crate::gas::uef_to_ef_gas(uef);
            let h = pow2(1074) as int;
            &&& tame(ef, 145)
            &&& near(ef, 9066 * uef.units() + 711 * h, 10_000, 3)
        }),
{
    let h = pow2(1074) as int;
    lemma_pow2_pos(1074);
    let u = uef.units();
    tame_units(uef, 40);
    near_itself(uef);
    ratio_is_tame(9066, 10_000);
    ratio_is_tame(711, 10_000);
    near_times(Double::ratio(9066, 10_000), 53, 9066 * h, 10_000, 1, uef, 40, u, 1, 0);
    let a = Double::ratio(9066, 10_000).times(uef);
    assert(((9066 * h) * u) * 10_000 == (9066 * u) * (10_000 * 1 * h)) by (nonlinear_arith);
    near_rescaled(a, (9066 * h) * u, 10_000 * 1 * h, 2, 9066 * u, 10_000);
    let b = Double::ratio(711, 10_000);
    near_grows(b, 711 * h, 10_000, 1, 2);
    tame_grows(b, 53, 93);
    tame_plus(a, b, 93);
    near_plus(a, 9066 * u, 10_000, b, 711 * h, 10_000, 2);
    let both = 9066 * u + 711 * h;
    assert((9066 * u) * 10_000 + (711 * h) * 10_000 == both * 10_000);
    assert((both * 10_000) * 10_000 == both * 100_000_000);
    near_rescaled(a.plus(b), both * 10_000, 100_000_000, 3, both, 10_000);
}

/// The scale of a curve brings it to the rated coefficient of performance, as adjusted, at the
/// reference point, but is never below a tenth.
pub proof fn curves_are_scaled_to_their_rating(cop: Double, adjustment: Double, value: Double)
    requires
        ordinary(cop),
        ordinary(adjustment),
        ordinary(value),
        // The curve is a thousandth or more, and the scale well above a tenth.
        1000 * value.units() >= pow2(1074),
        10 * (cop.units() * adjustment.units()) >= 2 * (value.units() * pow2(1074)),
    ensures
        about(
            crate::hpwh_compressor::cop_scale_for(Some(cop), Some(adjustment), value),
            seq![cop.units(), adjustment.units()],
            seq![value.units()],
            2,
        ),
{
    let h = pow2(1074) as int;
    lemma_pow2_pos(1074);
    let v = value.units();
    tame_units(cop, 40);
    tame_units(adjustment, 40);
    tame_units(value, 40);
    about_itself(cop);
    near_itself(adjustment);
    near_itself(value);
    ratio_is_tame(1, 1_000_000);
    ratio_is_tame(1, 10);
    let least = Double::ratio(1, 1_000_000);
    let tenth = Double::ratio(1, 10);
    tame_units(least, 53);
    tame_units(tenth, 53);
    assert(1 * pow2(1074) == h);
    assert(size(least.units() * 1_000_000 - h) * P50 <= 1 * size(h));
    assert(size(tenth.units() * 10 - h) * P50 <= 1 * size(h));
    crate::double_laws::order_agrees_with_value(value, least);
    assert(value.max(least) == value);
    times_more(cop, 40, seq![cop.units()], seq![], 0, adjustment, 40, adjustment.units(), 0);
    let top = seq![cop.units()].push(adjustment.units());
    assert(top =~= seq![cop.units(), adjustment.units()]);
    over_more(cop.times(adjustment), 80, top, seq![], 1, value, 40, v, 0);
    assert(Seq::<int>::empty().push(v) =~= seq![v]);
    let x = cop.times(adjustment).over(value);
    // The scale is above a tenth.
    crate::control_laws::lemma_products(cop.units(), adjustment.units(), 0, 0);
    crate::products::lemma_product_one(v);
    crate::products::lemma_scale(1, 1);
    assert(top.len() == 2 && seq![v].len() == 1);
    let ca = cop.units() * adjustment.units();
    let hh = h * h;
    let p = ca * hh;
    let q = v * hh;
    assert(crate::products::scale(2) == hh);
    assert(10 * p >= 2 * (q * h)) by (nonlinear_arith)
        requires
            p == ca * hh,
            q == v * hh,
            10 * ca >= 2 * (v * h),
            hh > 0,
    {
        assert((10 * ca) * hh >= (2 * (v * h)) * hh);
    }
    assert(hh > 0) by (nonlinear_arith)
        requires
            hh == h * h,
            h > 0,
    ;
    assert(q > 0 && q * h > 0) by (nonlinear_arith)
        requires
            q == v * hh,
            v > 0,
            hh > 0,
            h > 0,
    ;
    assert(9 * (x.units() * q) >= q * h) by {
        assert(size(x.units() * q - p) * P50 <= 2 * size(p));
    }
    assert(9 * x.units() >= h) by (nonlinear_arith)
        requires
            9 * (x.units() * q) >= q * h,
            q > 0,
    ;
    tame_units(x, 120);
    crate::double_laws::order_agrees_with_value(x, tenth);
}

/// A blend of two coefficients is the standard one and the share of the way to the other.
pub proof fn blends_lie_between(standard: Double, low_power: Double, share: Double)
    requires
        tame(standard, 40),
        tame(low_power, 40),
        is_share(share),
    ensures
        ({
            let h = pow2(1074) as int;
            let way = (low_power.units() - standard.units()) * share.units();
            within_parts(
                crate::hpwh_compressor::blended(standard, low_power, share),
                standard.units() * h + way,
                h,
                size(standard.units() * h) + size(way),
                3,
            )
        }),
{
    let h = pow2(1074) as int;
    lemma_pow2_pos(1074);
    tame_units(standard, 40);
    tame_units(low_power, 40);
    tame_units(share, 40);
    tame_minus(low_power, standard, 40);
    near_itself(share);
    near_itself(standard);
    let d = low_power.units() - standard.units();
    near_times(low_power.minus(standard), 92, d, 1, 1, share, 40, share.units(), 1, 0);
    let way = low_power.minus(standard).times(share);
    assert(1 * 1 * h == h);
    parts_of_near(way, d * share.units(), h, 2);
    parts_of_near(standard, standard.units(), 1, 0);
    parts_rescaled(standard, standard.units(), 1, size(standard.units()), 0, h);
    crate::precision::lemma_size_of_product(standard.units(), h);
    let m = size(standard.units() * h);
    parts_grow(standard, standard.units() * h, h, m, 0, m, 2);
    tame_grows(standard, 40, 132);
    tame_plus(standard, way, 132);
    parts_plus(
        standard,
        standard.units() * h,
        m,
        way,
        d * share.units(),
        size(d * share.units()),
        h,
        2,
    );
}

/// Fahrenheit in Celsius: five ninths of what is above thirty-two.
pub proof fn fahrenheit_is_converted(fahrenheit: u64)
    requires
        32 <= fahrenheit < 1000,
    ensures
        near(
            crate::hpwh_compressor::celsius_of(fahrenheit),
            (5 * (fahrenheit - 32)) * pow2(1074),
            9,
            3,
        ),
{
    let h = pow2(1074) as int;
    lemma_pow2_pos(1074);
    let f = Double::whole(fahrenheit);
    let z = Double::whole(32);
    whole_is_tame(fahrenheit);
    whole_is_tame(32);
    whole_is_tame(5);
    tame_minus(f, z, 53);
    let d = fahrenheit * h - 32 * h;
    assert(d == (fahrenheit - 32) * h) by (nonlinear_arith)
        requires
            d == fahrenheit * h - 32 * h,
    ;
    near_times(Double::whole(5), 53, 5 * h, 1, 0, f.minus(z), 105, d, 1, 1);
    let x = Double::whole(5).times(f.minus(z));
    let e = fahrenheit - 32;
    assert(((5 * h) * d) * 1 == ((5 * e) * h) * (1 * 1 * h)) by (nonlinear_arith)
        requires
            d == e * h,
    ;
    near_rescaled(x, (5 * h) * d, 1 * 1 * h, 2, (5 * e) * h, 1);
    lemma_divided(x, 158, (5 * e) * h, 1, 2, 9);
    assert(1 * 9 == 9);
}

// ---------------------------------------------------------------------------
// Insulation
// ---------------------------------------------------------------------------

/// The resistances of a tank and of a jacket round its side add up: the loss coefficient of both
/// is that of the tank times the area of the side, over that area and the resistance of the jacket
/// times the loss coefficient of the tank.
pub proof fn jackets_add_their_resistance(
    ua_base: Double,
    height_m: Double,
    diameter_m: Double,
    jacket: Double,
)
    requires
        ordinary(ua_base),
        ordinary(height_m),
        ordinary(diameter_m),
        ordinary(jacket),
        0 < ua_base.units(),
        0 < height_m.units(),
        0 < diameter_m.units(),
        0 < jacket.units(),
    ensures
        ({
            let h = pow2(1074) as int;
            let side = crate::tank::pi().units() * diameter_m.units() * height_m.units();
            near(
                crate::config::jacketed_ua(ua_base, height_m, diameter_m, Some(jacket)),
                ua_base.units() * side,
                side + jacket.units() * (h * ua_base.units()),
                6,
            )
        }),
{
    let h = pow2(1074) as int;
    lemma_pow2_pos(1074);
    one_is_tame();
    let pi = crate::tank::pi();
    crate::node_laws::lemma_pi();
    tame_units(ua_base, 40);
    tame_units(height_m, 40);
    tame_units(diameter_m, 40);
    tame_units(jacket, 40);
    tame_units(pi, 2);
    near_itself(ua_base);
    near_itself(height_m);
    near_itself(diameter_m);
    near_itself(jacket);
    near_itself(pi);
    crate::double_laws::order_agrees_with_value(jacket, Double::zero());
    crate::double_laws::order_agrees_with_value(ua_base, Double::zero());
    let u = ua_base.units();
    let r = jacket.units();
    let d = diameter_m.units();
    let t = height_m.units();
    let w = pi.units();
    let side = w * d * t;
    let hh = h * h;
    near_times(pi, 2, w, 1, 0, diameter_m, 40, d, 1, 0);
    near_times(pi.times(diameter_m), 42, w * d, 1 * 1 * h, 1, height_m, 40, t, 1, 0);
    let area = pi.times(diameter_m).times(height_m);
    assert(1 * 1 * h * 1 * h == hh);
    assert(w > 0);
    assert(side > 0) by (nonlinear_arith)
        requires
            side == w * d * t,
            w > 0,
            d > 0,
            t > 0,
    ;
    assert(hh > 0) by (nonlinear_arith)
        requires
            hh == h * h,
            h > 0,
    ;
    // The resistance of the tank.
    near_over(Double::one(), 0, h, 1, 0, ua_base, 40, u, 1, 0);
    let a = Double::one().over(ua_base);
    assert(h * 1 * h == hh && 1 * u == u);
    // The resistance of the jacket.
    near_over(jacket, 40, r, 1, 0, area, 82, side, hh, 2);
    let b = jacket.over(area);
    assert(near(b, r * hh * h, side, 3)) by {
        assert(1 * side == side);
    }
    near_grows(a, hh, u, 1, 3);
    tame_grows(a, 40, 122);
    tame_plus(a, b, 122);
    let rhh = r * hh * h;
    assert(rhh > 0) by (nonlinear_arith)
        requires
            rhh == r * hh * h,
            r > 0,
            hh > 0,
            h > 0,
    ;
    near_plus(a, hh, u, b, rhh, side, 3);
    let sum = a.plus(b);
    let top = hh * side + rhh * u;
    let bottom = u * side;
    let n = side + r * (h * u);
    assert(top == hh * n) by (nonlinear_arith)
        requires
            top == hh * side + rhh * u,
            rhh == r * hh * h,
            n == side + r * (h * u),
    ;
    assert(n > 0) by (nonlinear_arith)
        requires
            n == side + r * (h * u),
            side > 0,
            r > 0,
            h > 0,
            u > 0,
    ;
    assert(top > 0) by (nonlinear_arith)
        requires
            top == hh * n,
            hh > 0,
            n > 0,
    ;
    near_over(Double::one(), 0, h, 1, 0, sum, 174, top, bottom, 4);
    let x = Double::one().over(sum);
    near_grows(x, h * bottom * h, 1 * top, 5, 6);
    assert((h * bottom * h) * n == bottom * (1 * top)) by (nonlinear_arith)
        requires
            top == hh * n,
            hh == h * h,
    ;
    near_rescaled(x, h * bottom * h, 1 * top, 6, bottom, n);
}

// ---------------------------------------------------------------------------
// Tanks
// ---------------------------------------------------------------------------

/// The square of a square root is the number, within rounding.
pub proof fn roots_square_back(y: Double, k: int)
    requires
        tame(y, k),
        0 <= k <= 400,
        0 < y.units(),
    ensures
        ({
            let d = y.sqrt();
            let exact = y.units() * pow2(1074);
            &&& d.is_finite()
            &&& 0 < d.units()
            &&& size(d.units() * d.units() - exact) * P50 <= 4 * exact
        }),
{
    reveal(Double::spec_sqrt);
    tame_units(y, k);
    crate::double_laws::lemma_units_zero();
    let h = pow2(1074);
    let exact = (crate::rounding::mag_units(y.mag()) * h) as nat;
    crate::magnitude::lemma_root_exists(exact);
    let s = crate::magnitude::root(exact);
    assert(s * s <= exact && exact < (s + 1) * (s + 1));
    // The root lies between powers of two.
    let low = pow2(870);
    let high = pow2(1300);
    lemma_pow2_adds(870, 870);
    lemma_pow2_adds(1300, 1300);
    lemma_pow2_pos(870);
    let c = pow2((1074 - k) as nat);
    let t = pow2((1074 + k) as nat);
    lemma_pow2_adds((1074 - k) as nat, 1074);
    lemma_pow2_adds((1074 + k) as nat, 1074);
    if 1740 < 2148 - k {
        lemma_pow2_strictly_increases(1740, (2148 - k) as nat);
    }
    if 2148 + k < 2600 {
        lemma_pow2_strictly_increases((2148 + k) as nat, 2600);
    }
    let u0 = crate::rounding::mag_units(y.mag());
    assert(u0 == y.units());
    assert(c * h <= u0 * h <= t * h) by (nonlinear_arith)
        requires
            c <= u0 <= t,
            h >= 0,
    ;
    assert(low * low <= exact <= high * high);
    assert(low <= s + 1 && s <= high) by (nonlinear_arith)
        requires
            low * low <= exact,
            exact < (s + 1) * (s + 1),
            s * s <= exact,
            exact <= high * high,
    ;
    let num = if s * s == exact {
        2 * s
    } else {
        2 * s + 1
    };
    // The rounding of it is finite and close.
    lemma_pow2_unfold(1301);
    crate::double_laws::lemma_round_at_most(num as nat, 2, 226);
    let m = crate::rounding::round_mag(num as nat, 2);
    assert((1023 + 226) * crate::rounding::P52 < crate::rounding::INF_MAG);
    crate::double_laws::lemma_signed_mag(m);
    crate::precision::rounding_is_close(num as nat, 2);
    let u = crate::rounding::mag_units(m) as int;
    assert(y.sqrt().units() == u);
    lemma_pow2_adds(60, 810);
    lemma_pow2_pos(810);
    lemma2_to64_rest();
    assert(low >= 0x1000_0000_0000_0000) by (nonlinear_arith)
        requires
            low == pow2(60) * pow2(810),
            pow2(60) == 0x1000_0000_0000_0000,
            pow2(810) >= 1,
    ;
    lemma_root_square(u, s as int, exact as int, num as int);
}

proof fn lemma_root_square(u: int, s: int, exact: int, num: int)
    requires
        0 <= u,
        0xfff_ffff_ffff_ffff <= s,
        s * s <= exact < (s + 1) * (s + 1),
        2 * s <= num <= 2 * s + 1,
        size(u * 2 - num) * crate::rounding::P53 <= num + 2 * crate::rounding::P52,
    ensures
        0 < u,
        size(u * u - exact) * P50 <= 4 * exact,
{
    let off = size(u - s);
    assert(off * P50 <= s) by {
        assert(2 * off <= size(u * 2 - num) + 1);
        let t = size(u * 2 - num);
        assert(t * crate::rounding::P53 == 8 * (t * P50));
    }
    assert(u <= 2 * s);
    let ss = s * s;
    crate::precision::lemma_size_of_product(u - s, u + s);
    assert((u - s) * (u + s) == u * u - ss) by (nonlinear_arith)
        requires
            ss == s * s,
    ;
    assert((off * (u + s)) * P50 <= 3 * ss) by (nonlinear_arith)
        requires
            off * P50 <= s,
            0 <= u + s <= 3 * s,
            off >= 0,
            ss == s * s,
            s >= 0,
    {
        assert((off * P50) * (u + s) <= s * (3 * s));
    }
    assert(exact - ss <= 2 * s) by (nonlinear_arith)
        requires
            exact < (s + 1) * (s + 1),
            ss == s * s,
    ;
    assert((2 * s) * P50 <= ss) by (nonlinear_arith)
        requires
            ss == s * s,
            s >= 2 * P50,
    ;
}

/// A tank is as configured: as many nodes, as high and as warm as stated, and of such a diameter
/// that its cylinder holds the volume stated.
pub proof fn tanks_hold_their_volume(
    nodes: Option<u8>,
    volume_m3: Double,
    height_m: Double,
    ua_w_per_k: Double,
    jacket: Option<Double>,
    initial_temp_c: Double,
    element_nodes: [Option<usize>; 2],
)
    requires
        ordinary(volume_m3),
        ordinary(height_m),
        // A tenth of a litre or more, and a quarter of a metre high or more.
        10_000 * volume_m3.units() >= pow2(1074),
        4 * height_m.units() >= pow2(1074),
        // No higher than a hundred thousand times its volume over a square metre.
        100_000 * volume_m3.units() >= height_m.units(),
    ensures
        ({
            let tank = crate::storage::typed_tank_config(
                nodes,
                Some(volume_m3),
                Some(height_m),
                Some(ua_w_per_k),
                jacket,
                initial_temp_c,
                element_nodes,
            );
            let h = pow2(1074) as int;
            let d = tank.diameter_m.units();
            let cylinder = d * d * (crate::tank::pi().units() * height_m.units());
            let held = 4 * (volume_m3.units() * (h * h * h));
            &&& nodes is None ==> tank.n_nodes == 6
            &&& nodes matches Some(n) ==> (0 < n ==> tank.n_nodes == n)
            &&& 0 < tank.n_nodes
            &&& tank.height_m == height_m
            &&& tank.initial_temp_c == initial_temp_c
            &&& tank.element_nodes == element_nodes
            &&& tank.node_volumes_m3 is None
            &&& tank.ua_end_cap_w_per_k is None
            &&& jacket is None ==> tank.ua_w_per_k == ua_w_per_k
            &&& tank.ua_w_per_k == crate::config::jacketed_ua(
                ua_w_per_k,
                height_m,
                tank.diameter_m,
                jacket,
            )
            &&& size(cylinder - held) * P50 <= 16 * held
        }),
{
    let h = pow2(1074) as int;
    lemma_pow2_pos(1074);
    let pi = crate::tank::pi();
    let v = volume_m3.units();
    let t = height_m.units();
    let w = pi.units();
    crate::node_laws::lemma_pi();
    tame_units(volume_m3, 40);
    tame_units(height_m, 40);
    near_itself(volume_m3);
    near_itself(height_m);
    near_itself(pi);
    // The height is not cut off.
    ratio_is_tame(2, 10);
    let low = Double::ratio(2, 10);
    tame_units(low, 53);
    assert(size(low.units() * 10 - 2 * h) * P50 <= 1 * size(2 * h));
    crate::double_laws::order_agrees_with_value(height_m, low);
    assert(height_m.max(low) == height_m);
    // The square of the diameter.
    whole_is_tame(4);
    near_times(Double::whole(4), 53, 4 * h, 1, 0, volume_m3, 40, v, 1, 0);
    let four = Double::whole(4).times(volume_m3);
    assert(((4 * h) * v) * 1 == (4 * v) * (1 * 1 * h)) by (nonlinear_arith);
    near_rescaled(four, (4 * h) * v, 1 * 1 * h, 1, 4 * v, 1);
    near_times(pi, 2, w, 1, 0, height_m, 40, t, 1, 0);
    let wt = w * t;
    assert(wt > 0) by (nonlinear_arith)
        requires
            wt == w * t,
            w > 0,
            t > 0,
    ;
    near_over(four, 93, 4 * v, 1, 1, pi.times(height_m), 42, wt, 1 * 1 * h, 1);
    let y = four.over(pi.times(height_m));
    let hh = h * h;
    assert(4 * v * (1 * 1 * h) * h == 4 * v * hh) by (nonlinear_arith)
        requires
            hh == h * h,
    ;
    assert(near(y, 4 * v * hh, wt, 3)) by {
        assert(1 * wt == wt);
    }
    lemma_above_least(y, v, t, w);
    roots_square_back(y, 135);
    let d = y.sqrt().units();
    let held = 4 * (v * (h * h * h));
    let x = 4 * v * hh;
    assert(held == x * h) by (nonlinear_arith)
        requires
            held == 4 * (v * (h * h * h)),
            x == 4 * v * hh,
            hh == h * h,
    ;
    lemma_all_positive(v, h);
    lemma_cylinder(d, y.units(), wt, x, h);
}

proof fn lemma_all_positive(v: int, h: int)
    requires
        0 < v,
        0 < h,
    ensures
        0 < 4 * v * (h * h),
{
    let hh = h * h;
    assert(hh > 0) by (nonlinear_arith)
        requires
            hh == h * h,
            h > 0,
    ;
    assert(4 * v * hh > 0) by (nonlinear_arith)
        requires
            v > 0,
            hh > 0,
    ;
}

/// The square of a diameter is not cut off below.
proof fn lemma_above_least(y: Double, v: int, t: int, w: int)
    requires
        near(y, 4 * v * (pow2(1074) * pow2(1074)), w * t, 3),
        tame(y, 135),
        0 < v,
        0 < t <= 100_000 * v,
        w == crate::tank::pi().units(),
    ensures
        y.max(Double::ratio(1, 1_000_000)) == y,
        0 < y.units(),
{
    let h = pow2(1074) as int;
    lemma_pow2_pos(1074);
    let hh = h * h;
    let least = Double::ratio(1, 1_000_000);
    crate::node_laws::lemma_pi();
    tame_units(crate::tank::pi(), 2);
    tame_units(y, 135);
    ratio_is_tame(1, 1_000_000);
    tame_units(least, 53);
    assert(1 * pow2(1074) == h);
    assert(size(least.units() * 1_000_000 - h) * P50 <= 1 * size(h));
    lemma_pow2_adds(2, 1074);
    lemma2_to64();
    assert(w <= 4 * h);
    let x = 4 * v * hh;
    let q = w * t;
    // x >= q h / 100,000, for q h <= 4 h t h and t <= 100,000 v.
    assert(100_000 * x >= q * h) by (nonlinear_arith)
        requires
            x == 4 * v * hh,
            hh == h * h,
            q == w * t,
            0 < w <= 4 * h,
            0 < t <= 100_000 * v,
            h > 0,
    {
        assert(q <= (4 * h) * t);
        assert(q * h <= ((4 * h) * t) * h);
        assert(((4 * h) * t) * h == 4 * (t * hh));
        assert(t * hh <= (100_000 * v) * hh);
    }
    lemma_all_positive(v, h);
    near_sign(y, x, q, 3);
    let u = y.units();
    assert(200_000 * (u * q) >= q * h) by {
        assert(size(u * q - x) * P50 <= 3 * size(x));
    }
    assert(200_000 * u >= h) by (nonlinear_arith)
        requires
            200_000 * (u * q) >= q * h,
            q > 0,
    ;
    crate::double_laws::order_agrees_with_value(y, least);
}

proof fn lemma_cylinder(d: int, u: int, wt: int, x: int, h: int)
    requires
        0 < h,
        0 < wt,
        0 < x,
        0 < u,
        size(u * wt - x) * P50 <= 3 * x,
        size(d * d - u * h) * P50 <= 4 * (u * h),
    ensures
        size(d * d * wt - x * h) * P50 <= 16 * (x * h),
{
    let a = d * d - u * h;
    let b = u * wt - x;
    assert(d * d * wt - x * h == a * wt + b * h) by (nonlinear_arith)
        requires
            a == d * d - u * h,
            b == u * wt - x,
    ;
    crate::precision::lemma_size_of_product(a, wt);
    crate::precision::lemma_size_of_product(b, h);
    let xh = x * h;
    assert(size(b * h) * P50 <= 3 * xh) by (nonlinear_arith)
        requires
            size(b * h) == size(b) * h,
            size(b) * P50 <= 3 * x,
            h > 0,
            xh == x * h,
    ;
    assert(u * wt <= 2 * x);
    assert(size(a * wt) * P50 <= 8 * xh) by (nonlinear_arith)
        requires
            size(a * wt) == size(a) * wt,
            size(a) * P50 <= 4 * (u * h),
            u * wt <= 2 * x,
            wt > 0,
            h > 0,
            xh == x * h,
    {
        assert((size(a) * P50) * wt <= (4 * (u * h)) * wt);
        assert((u * h) * wt == (u * wt) * h);
        assert((u * wt) * h <= (2 * x) * h);
    }
}

} // verus!
