//! What heaters draw, burn and give to their zone: it is finite, and it adds up.
use vstd::arithmetic::power2::*;
use vstd::prelude::*;

use crate::double::Double;
use crate::gas::{GasState, GasWH};
use crate::heat_pump_wh::{HeatPumpWH, HpOutside, HpState};
use crate::overflow::{limit, product_fits, quotient_fits, sum_fits};
use crate::precision::size;
use crate::ranges::within;
use crate::shared::ScheduleReadings;
use crate::tank::DrawResult;
use crate::types::{EnvironmentState, FluidAccumulator, OperatingMode, PortContribution};
use crate::zip::WaterHeaterZip;

verus! {

// ---------------------------------------------------------------------------
// Heat pump
// ---------------------------------------------------------------------------

/// The coefficient of performance by which a compressor draws its power.
pub open spec fn working_cop(hp: HpState, outside: HpOutside) -> Double {
    outside.cop_curve_value.times(hp.cop_scale).max(Double::ratio(1, 1_000_000))
}

/// The heat of the compressor at the capacity curve's value.
pub open spec fn compressor_heat_w(hp: HpState, outside: HpOutside) -> Double {
    hp.compressor_power_w.times(outside.capacity_curve_value.max(Double::zero()))
}

/// No step from the settings to the electric power at the reference voltage overflows: what
/// runs has a finite power and a duty that is a number.
pub open spec fn power_fits(hp: HpState, outside: HpOutside) -> bool {
    let p = hp.performance(outside);
    let cap_mult = outside.capacity_curve_value.max(Double::zero());
    let cop = working_cop(hp, outside);
    &&& hp.compressor_on ==> {
        &&& hp.compressor_power_w.is_finite()
        &&& cap_mult.is_finite()
        &&& !hp.component_duty(hp.hp_duty_cycle).is_nan()
        &&& product_fits(hp.compressor_power_w, cap_mult)
        &&& cop.is_finite() ==> quotient_fits(compressor_heat_w(hp, outside), cop)
    }
    &&& hp.backup_on ==> {
        &&& hp.backup_element_power_w.is_finite()
        &&& !hp.component_duty(hp.er_duty_cycle).is_nan()
    }
    &&& p.fan_parasitic_w.is_finite()
    &&& sum_fits(p.compressor_power_w, p.backup_power_w)
    &&& sum_fits(p.compressor_power_w.plus(p.backup_power_w), p.fan_parasitic_w)
}

/// No step from a rated power to the power at a voltage overflows, where there is both power
/// and voltage.
pub open spec fn load_fits(zip: WaterHeaterZip, rated_w: Double, voltage_pu: Double) -> bool {
    let v = voltage_pu.over(zip.v0);
    let by_square = zip.z.times(v).times(v);
    let by_voltage = zip.i.times(v);
    !rated_w.same(Double::zero()) && !voltage_pu.same(Double::zero()) ==> {
        &&& voltage_pu.is_finite()
        &&& !zip.v0.is_nan() && !zip.v0.same(Double::zero())
        &&& zip.z.is_finite()
        &&& zip.i.is_finite()
        &&& zip.p.is_finite()
        &&& zip.v0.is_finite() ==> quotient_fits(voltage_pu, zip.v0)
        &&& product_fits(zip.z, v)
        &&& product_fits(zip.z.times(v), v)
        &&& product_fits(zip.i, v)
        &&& sum_fits(by_square, by_voltage)
        &&& sum_fits(by_square.plus(by_voltage), zip.p)
        &&& product_fits(rated_w, by_square.plus(by_voltage).plus(zip.p))
    }
}

/// What is held between zero and one is within one.
proof fn lemma_clamped_is_share(x: Double)
    requires
        !x.is_nan(),
    ensures
        ({
            let share = x.clamp(Double::zero(), Double::one());
            &&& share.is_finite()
            &&& share.ge(Double::zero())
            &&& share.le(Double::one())
        }),
{
}

/// A product of finite numbers is a number, though it may be infinite.
proof fn lemma_product_is_number(x: Double, y: Double)
    requires
        x.is_finite(),
        y.is_finite(),
    ensures
        !x.times(y).is_nan(),
{
    reveal(Double::spec_times);
    let m = crate::rounding::round_mag(
        crate::rounding::mag_units(x.mag()) * crate::rounding::mag_units(y.mag()),
        pow2(1074),
    );
    crate::double_laws::lemma_signed_mag(m);
}

/// A duty that is a number is a share.
proof fn lemma_duty_is_share(hp: HpState, own: Double)
    requires
        !hp.component_duty(own).is_nan(),
    ensures
        hp.component_duty(own).is_finite(),
        hp.component_duty(own).ge(Double::zero()),
        hp.component_duty(own).le(Double::one()),
{
    lemma_clamped_is_share(
        hp.duty_cycle.times(hp.dr.load_fraction).times(hp.ctrl_load_fraction).clamp(
            Double::zero(),
            Double::one(),
        ).times(own),
    );
}

/// The duty of finite settings is a number, unless the first two of them overflow together.
proof fn lemma_component_duty(hp: HpState, own: Double)
    requires
        hp.duty_cycle.is_finite(),
        hp.dr.load_fraction.is_finite(),
        hp.ctrl_load_fraction.is_finite(),
        own.is_finite(),
        hp.duty_cycle.times(hp.dr.load_fraction).is_finite(),
    ensures
        !hp.component_duty(own).is_nan(),
{
    let a = hp.duty_cycle.times(hp.dr.load_fraction);
    lemma_product_is_number(a, hp.ctrl_load_fraction);
    let b = a.times(hp.ctrl_load_fraction);
    lemma_clamped_is_share(b);
    let c = b.clamp(Double::zero(), Double::one());
    lemma_product_is_number(c, own);
    lemma_clamped_is_share(c.times(own));
}

/// A share of a finite number, whatever its sign, is finite.
proof fn lemma_share_is_finite(x: Double, share: Double)
    requires
        x.is_finite(),
        share.is_finite(),
        share.ge(Double::zero()),
        share.le(Double::one()),
    ensures
        x.times(share).is_finite(),
{
    crate::double_laws::lemma_signed_mag(x.mag());
    crate::double_laws::share_is_no_more(x.abs(), share);
    reveal(Double::spec_times);
    let m = crate::rounding::round_mag(
        crate::rounding::mag_units(x.mag()) * crate::rounding::mag_units(share.mag()),
        pow2(1074),
    );
    crate::double_laws::lemma_signed_mag(m);
}

proof fn lemma_working_cop(hp: HpState, outside: HpOutside)
    ensures
        working_cop(hp, outside).ge(Double::ratio(1, 1_000_000)),
        Double::ratio(1, 1_000_000).is_finite(),
        0 < Double::ratio(1, 1_000_000).units(),
{
    let floor = Double::ratio(1, 1_000_000);
    crate::double_laws::ratio_is_moderate(1, 1_000_000);
    crate::double_laws::bounded_is_positive(floor, 53);
    crate::double_laws::lemma_units_zero();
    crate::double_laws::order_agrees_with_value(Double::zero(), floor);
}

/// No curve of performance makes the power of a compressor overflow whose heat does not
/// overflow when it is divided by a millionth: neither one that is zero nor one that is
/// infinite or no number.
pub proof fn no_curve_makes_power_overflow(hp: HpState, outside: HpOutside)
    requires
        quotient_fits(compressor_heat_w(hp, outside), Double::ratio(1, 1_000_000)),
    ensures
        working_cop(hp, outside).is_finite() ==> quotient_fits(
            compressor_heat_w(hp, outside),
            working_cop(hp, outside),
        ),
{
    let floor = Double::ratio(1, 1_000_000);
    let cop = working_cop(hp, outside);
    lemma_working_cop(hp, outside);
    if cop.is_finite() {
        crate::double_laws::order_agrees_with_value(floor, cop);
        let top = limit();
        assert(top * size(floor.units()) <= top * size(cop.units())) by (nonlinear_arith)
            requires
                0 < floor.units() <= cop.units(),
                size(floor.units()) == floor.units(),
                size(cop.units()) == cop.units(),
                0 <= top,
        ;
    }
}

/// The power of a compressor and of a backup element is finite.
proof fn lemma_parts_are_finite(hp: HpState, outside: HpOutside)
    requires
        power_fits(hp, outside),
    ensures
        hp.performance(outside).compressor_power_w.is_finite(),
        hp.performance(outside).backup_power_w.is_finite(),
{
    let cap_mult = outside.capacity_curve_value.max(Double::zero());
    let heat = compressor_heat_w(hp, outside);
    let cop = working_cop(hp, outside);
    if hp.backup_on {
        lemma_duty_is_share(hp, hp.er_duty_cycle);
        lemma_share_is_finite(hp.backup_element_power_w, hp.component_duty(hp.er_duty_cycle));
    }
    if hp.compressor_on {
        lemma_duty_is_share(hp, hp.hp_duty_cycle);
        crate::overflow::products_that_fit_are_finite(hp.compressor_power_w, cap_mult);
        lemma_working_cop(hp, outside);
        if cop.is_finite() {
            crate::double_laws::order_agrees_with_value(Double::ratio(1, 1_000_000), cop);
            crate::double_laws::lemma_units_zero();
            crate::double_laws::order_agrees_with_value(cop, Double::zero());
            crate::overflow::quotients_that_fit_are_finite(heat, cop);
        } else {
            reveal(Double::spec_over);
            crate::double_laws::lemma_signed_mag(0);
        }
        lemma_share_is_finite(heat.over(cop), hp.component_duty(hp.hp_duty_cycle));
    }
}

proof fn lemma_load_is_finite(zip: WaterHeaterZip, rated_w: Double, voltage_pu: Double)
    requires
        rated_w.is_finite(),
        load_fits(zip, rated_w, voltage_pu),
    ensures
        zip.apply(rated_w, voltage_pu).0.is_finite(),
{
    let v = voltage_pu.over(zip.v0);
    let by_square = zip.z.times(v).times(v);
    let by_voltage = zip.i.times(v);
    let sum = by_square.plus(by_voltage);
    if !rated_w.same(Double::zero()) && !voltage_pu.same(Double::zero()) {
        if zip.v0.is_finite() {
            crate::overflow::quotients_that_fit_are_finite(voltage_pu, zip.v0);
        } else {
            reveal(Double::spec_over);
            crate::double_laws::lemma_signed_mag(0);
        }
        crate::overflow::products_that_fit_are_finite(zip.z, v);
        crate::overflow::products_that_fit_are_finite(zip.z.times(v), v);
        crate::overflow::products_that_fit_are_finite(zip.i, v);
        crate::overflow::sums_that_fit_are_finite(by_square, by_voltage);
        crate::overflow::sums_that_fit_are_finite(sum, zip.p);
        crate::overflow::products_that_fit_are_finite(rated_w, sum.plus(zip.p));
    }
}

/// The electric power at a voltage is finite, and so are its parts.
proof fn lemma_electric_is_finite(hp: HpState, outside: HpOutside, voltage_pu: Double)
    requires
        power_fits(hp, outside),
        load_fits(hp.zip, hp.performance(outside).rated_electric_w(), voltage_pu),
    ensures
        hp.performance(outside).rated_electric_w().is_finite(),
        hp.zip.apply(hp.performance(outside).rated_electric_w(), voltage_pu).0.is_finite(),
{
    let p = hp.performance(outside);
    lemma_parts_are_finite(hp, outside);
    crate::overflow::sums_that_fit_are_finite(p.compressor_power_w, p.backup_power_w);
    crate::overflow::sums_that_fit_are_finite(
        p.compressor_power_w.plus(p.backup_power_w),
        p.fan_parasitic_w,
    );
    lemma_load_is_finite(hp.zip, p.rated_electric_w(), voltage_pu);
}

/// A finite power in watts is finite in kilowatts.
proof fn lemma_kilowatts(x: Double)
    requires
        x.is_finite(),
    ensures
        x.over(Double::whole(1000)).is_finite(),
{
    crate::double_laws::whole_is_small(1000);
    crate::double_laws::over_at_least_one_is_finite(x, Double::whole(1000));
}

/// The power that a heat pump heater draws in a step, and what it reports of it, is finite
/// wherever nothing on the way to it overflows, whatever its curve of performance gives: zero,
/// infinity or no number. The coefficient of performance that it reports lies between zero
/// and eight, unless the curve gives no number.
pub proof fn heat_pump_power_is_finite(
    heater: HeatPumpWH,
    env: EnvironmentState,
    mode: OperatingMode,
    outside: HpOutside,
    fluid: Seq<FluidAccumulator>,
    draw: DrawResult,
    tank_avg_temp_c: Double,
)
    requires
        power_fits(heater.state, outside),
        load_fits(
            heater.state.zip,
            heater.state.performance(outside).rated_electric_w(),
            env.voltage_pu,
        ),
    ensures
        ({
            let f = heater.step_figures(&env, mode, outside, fluid, draw);
            let reported = heater.state.finished(f, tank_avg_temp_c).telemetry;
            &&& f.performance.compressor_power_w.is_finite()
            &&& f.performance.backup_power_w.is_finite()
            &&& f.performance.rated_electric_w().is_finite()
            &&& f.electric_power_w.is_finite()
            &&& reported.compressor_kw.is_finite()
            &&& reported.element_kw.is_finite()
            &&& reported.electric_kw.is_finite()
            &&& !outside.cop_curve_value.times(heater.state.cop_scale).is_nan() ==> {
                &&& reported.cop.is_finite()
                &&& reported.cop.ge(Double::zero())
                &&& reported.cop.le(Double::whole(8))
            }
        }),
{
    let hp = heater.state;
    let f = heater.step_figures(&env, mode, outside, fluid, draw);
    let p = f.performance;
    lemma_parts_are_finite(hp, outside);
    lemma_electric_is_finite(hp, outside, env.voltage_pu);
    lemma_kilowatts(f.electric_power_w);
    lemma_kilowatts(p.compressor_power_w);
    lemma_kilowatts(p.backup_power_w);
    if !outside.cop_curve_value.times(hp.cop_scale).is_nan() {
        crate::heater_laws::reported_cop_is_physical(hp, outside);
    }
}

/// A voltage dependence whose fractions are of ordinary size, at an ordinary voltage.
pub open spec fn is_ordinary_load(zip: WaterHeaterZip, voltage_pu: Double) -> bool {
    &&& within(zip.z, 10)
    &&& within(zip.i, 10)
    &&& within(zip.p, 10)
    &&& crate::double_laws::at_least(zip.v0, 10)
    &&& zip.v0.is_finite()
    &&& within(voltage_pu, 10)
}

/// A heat pump heater whose powers and shares are of ordinary size.
pub open spec fn is_ordinary_heat_pump(hp: HpState) -> bool {
    &&& within(hp.compressor_power_w, 60)
    &&& within(hp.backup_element_power_w, 60)
    &&& within(hp.fan_power_w, 60)
    &&& within(hp.parasitic_power_w, 60)
    &&& within(hp.duty_cycle, 10)
    &&& within(hp.hp_duty_cycle, 10)
    &&& within(hp.er_duty_cycle, 10)
    &&& within(hp.dr.load_fraction, 10)
    &&& within(hp.ctrl_load_fraction, 10)
}

/// What a positive lower bound divides stays within bounds, though the divisor may be
/// infinite.
proof fn lemma_over_cop(x: Double, hp: HpState, outside: HpOutside)
    requires
        within(x, 120),
    ensures
        within(x.over(working_cop(hp, outside)), 173),
        x.over(working_cop(hp, outside)).is_finite(),
{
    let cop = working_cop(hp, outside);
    crate::double_laws::ratio_is_moderate(1, 1_000_000);
    crate::ranges::within_is_finite(x, 120, 120);
    if cop.is_finite() {
        assert(crate::double_laws::at_least(cop, 53));
        crate::ranges::quotients_stay_within(x, 120, cop, 53);
    } else {
        reveal(Double::spec_over);
        crate::double_laws::lemma_signed_mag(0);
    }
}

proof fn lemma_ordinary_load_fits(zip: WaterHeaterZip, rated_w: Double, voltage_pu: Double)
    requires
        is_ordinary_load(zip, voltage_pu),
        within(rated_w, 180),
    ensures
        load_fits(zip, rated_w, voltage_pu),
{
    let v = voltage_pu.over(zip.v0);
    let by_square = zip.z.times(v).times(v);
    let by_voltage = zip.i.times(v);
    let sum = by_square.plus(by_voltage);
    crate::ranges::within_is_finite(voltage_pu, 10, 10);
    crate::ranges::within_is_finite(zip.z, 10, 10);
    crate::ranges::within_is_finite(zip.i, 10, 10);
    crate::ranges::within_is_finite(zip.p, 10, 51);
    crate::ranges::within_is_finite(rated_w, 180, 180);
    crate::double_laws::bounded_is_positive(zip.v0, 10);
    crate::ranges::quotients_stay_within(voltage_pu, 10, zip.v0, 10);
    crate::ranges::products_stay_within(zip.z, 10, v, 20);
    crate::ranges::products_stay_within(zip.z.times(v), 30, v, 20);
    crate::ranges::products_stay_within(zip.i, 10, v, 20);
    crate::ranges::within_is_finite(by_voltage, 30, 50);
    crate::ranges::sums_stay_within(by_square, by_voltage, 50);
    crate::ranges::within_is_finite(sum, 51, 51);
    crate::ranges::sums_stay_within(sum, zip.p, 51);
    crate::ranges::within_is_finite(sum.plus(zip.p), 52, 52);
    crate::ranges::products_stay_within(rated_w, 180, sum.plus(zip.p), 52);
    crate::overflow::quotients_that_fit_are_finite(voltage_pu, zip.v0);
    crate::overflow::products_that_fit_are_finite(zip.z, v);
    crate::overflow::products_that_fit_are_finite(zip.z.times(v), v);
    crate::overflow::products_that_fit_are_finite(zip.i, v);
    crate::overflow::sums_that_fit_are_finite(by_square, by_voltage);
    crate::overflow::sums_that_fit_are_finite(sum, zip.p);
    crate::overflow::products_that_fit_are_finite(rated_w, sum.plus(zip.p));
}

proof fn lemma_share_is_within(x: Double, k: int, share: Double)
    requires
        within(x, k),
        0 <= k <= 1000,
        share.is_finite(),
        share.ge(Double::zero()),
        share.le(Double::one()),
    ensures
        within(x.times(share), k),
{
    crate::ranges::products_stay_within(x, k, share, 0);
}

proof fn lemma_ordinary_duties(hp: HpState)
    requires
        is_ordinary_heat_pump(hp),
    ensures
        !hp.component_duty(hp.hp_duty_cycle).is_nan(),
        !hp.component_duty(hp.er_duty_cycle).is_nan(),
{
    crate::ranges::within_is_finite(hp.duty_cycle, 10, 10);
    crate::ranges::within_is_finite(hp.dr.load_fraction, 10, 10);
    crate::ranges::within_is_finite(hp.ctrl_load_fraction, 10, 10);
    crate::ranges::within_is_finite(hp.hp_duty_cycle, 10, 10);
    crate::ranges::within_is_finite(hp.er_duty_cycle, 10, 10);
    crate::ranges::products_stay_within(hp.duty_cycle, 10, hp.dr.load_fraction, 10);
    lemma_component_duty(hp, hp.hp_duty_cycle);
    lemma_component_duty(hp, hp.er_duty_cycle);
}

proof fn lemma_ordinary_heat(hp: HpState, outside: HpOutside)
    requires
        within(hp.compressor_power_w, 60),
        within(outside.capacity_curve_value, 60),
    ensures
        hp.compressor_power_w.is_finite(),
        outside.capacity_curve_value.max(Double::zero()).is_finite(),
        product_fits(hp.compressor_power_w, outside.capacity_curve_value.max(Double::zero())),
        working_cop(hp, outside).is_finite() ==> quotient_fits(
            compressor_heat_w(hp, outside),
            working_cop(hp, outside),
        ),
        within(compressor_heat_w(hp, outside).over(working_cop(hp, outside)), 173),
{
    let cap_mult = outside.capacity_curve_value.max(Double::zero());
    let heat = compressor_heat_w(hp, outside);
    let cop = working_cop(hp, outside);
    crate::ranges::whole_is_within(0);
    crate::ranges::within_is_finite(Double::zero(), 0, 60);
    assert(within(cap_mult, 60));
    crate::ranges::within_is_finite(cap_mult, 60, 60);
    crate::ranges::within_is_finite(hp.compressor_power_w, 60, 60);
    crate::ranges::products_stay_within(hp.compressor_power_w, 60, cap_mult, 60);
    crate::overflow::products_that_fit_are_finite(hp.compressor_power_w, cap_mult);
    lemma_over_cop(heat, hp, outside);
    lemma_working_cop(hp, outside);
    if cop.is_finite() {
        crate::double_laws::order_agrees_with_value(Double::ratio(1, 1_000_000), cop);
        crate::double_laws::lemma_units_zero();
        crate::double_laws::order_agrees_with_value(cop, Double::zero());
        crate::overflow::quotients_that_fit_are_finite(heat, cop);
    }
}

proof fn lemma_ordinary_parts(hp: HpState, outside: HpOutside)
    requires
        is_ordinary_heat_pump(hp),
        within(outside.capacity_curve_value, 60),
    ensures
        within(hp.performance(outside).compressor_power_w, 173),
        within(hp.performance(outside).backup_power_w, 60),
        within(hp.performance(outside).fan_parasitic_w, 60),
{
    lemma_ordinary_duties(hp);
    lemma_ordinary_heat(hp, outside);
    lemma_duty_is_share(hp, hp.hp_duty_cycle);
    lemma_duty_is_share(hp, hp.er_duty_cycle);
    crate::ranges::whole_is_within(0);
    crate::ranges::within_is_finite(Double::zero(), 0, 173);
    crate::ranges::within_is_finite(Double::zero(), 0, 60);
    lemma_share_is_within(
        compressor_heat_w(hp, outside).over(working_cop(hp, outside)),
        173,
        hp.component_duty(hp.hp_duty_cycle),
    );
    lemma_share_is_within(hp.backup_element_power_w, 60, hp.component_duty(hp.er_duty_cycle));
}

proof fn lemma_ordinary_sums(compressor_w: Double, backup_w: Double, fan_w: Double)
    requires
        within(compressor_w, 173),
        within(backup_w, 60),
        within(fan_w, 60),
    ensures
        sum_fits(compressor_w, backup_w),
        sum_fits(compressor_w.plus(backup_w), fan_w),
        within(compressor_w.plus(backup_w).plus(fan_w), 180),
{
    let parts = compressor_w.plus(backup_w);
    crate::ranges::within_is_finite(compressor_w, 173, 173);
    crate::ranges::within_is_finite(backup_w, 60, 173);
    crate::ranges::within_is_finite(fan_w, 60, 174);
    crate::ranges::sums_stay_within(compressor_w, backup_w, 173);
    crate::ranges::within_is_finite(parts, 174, 174);
    crate::ranges::sums_stay_within(parts, fan_w, 174);
    crate::ranges::within_is_finite(parts.plus(fan_w), 175, 180);
    crate::overflow::sums_that_fit_are_finite(compressor_w, backup_w);
    crate::overflow::sums_that_fit_are_finite(parts, fan_w);
}

/// Nothing overflows in a heat pump heater whose powers and shares are of ordinary size, at an
/// ordinary voltage, whatever its curve of performance gives.
pub proof fn ordinary_power_fits(hp: HpState, outside: HpOutside, voltage_pu: Double)
    requires
        is_ordinary_heat_pump(hp),
        is_ordinary_load(hp.zip, voltage_pu),
        within(outside.capacity_curve_value, 60),
    ensures
        power_fits(hp, outside),
        load_fits(hp.zip, hp.performance(outside).rated_electric_w(), voltage_pu),
{
    let p = hp.performance(outside);
    lemma_ordinary_duties(hp);
    lemma_ordinary_heat(hp, outside);
    lemma_ordinary_parts(hp, outside);
    crate::ranges::within_is_finite(hp.backup_element_power_w, 60, 60);
    crate::ranges::within_is_finite(p.fan_parasitic_w, 60, 60);
    lemma_ordinary_sums(p.compressor_power_w, p.backup_power_w, p.fan_parasitic_w);
    lemma_ordinary_load_fits(hp.zip, p.rated_electric_w(), voltage_pu);
}

/// The heat that a heat pump takes from its zone is the power of its compressor times the
/// coefficient of performance that it reports, less one, within a millionth of a watt, where
/// the scaled curve lies between a millionth and eight and the compressor draws no more than
/// `2^26` W.
pub proof fn extraction_is_within_a_microwatt(hp: HpState, outside: HpOutside)
    requires
        within(hp.performance(outside).compressor_power_w, 26),
        outside.cop_curve_value.times(hp.cop_scale).ge(Double::ratio(1, 1_000_000)),
        outside.cop_curve_value.times(hp.cop_scale).le(Double::whole(8)),
    ensures
        ({
            let p = hp.performance(outside);
            let one = pow2(1074);
            size(
                p.zone_heat_extraction_w().units() * one - p.compressor_power_w.units() * (
                p.cop.units() - one),
            ) * 1_000_000 <= one * one
        }),
{
    let p = hp.performance(outside);
    let one = pow2(1074) as int;
    let cop = working_cop(hp, outside);
    let eight = Double::whole(8);
    let power = p.compressor_power_w.units();
    crate::double_laws::ratio_is_moderate(1, 1_000_000);
    lemma_working_cop(hp, outside);
    lemma_pow2_pos(1074);
    crate::precision::whole_numbers_are_exact(8);
    assert(cop == outside.cop_curve_value.times(hp.cop_scale));
    crate::double_laws::order_agrees_with_value(cop, eight);
    crate::double_laws::order_agrees_with_value(Double::ratio(1, 1_000_000), cop);
    crate::ranges::whole_is_within(8);
    assert(within(cop, 64));
    crate::ranges::products_stay_within(p.compressor_power_w, 26, cop, 64);
    crate::ranges::within_is_finite(p.compressor_power_w, 26, 90);
    crate::double_laws::lemma_at_most_units(p.compressor_power_w.abs(), 26);
    crate::double_laws::lemma_signed_mag(p.compressor_power_w.mag());
    crate::ranges::sums_stay_within(p.delivered_hp_w, p.compressor_power_w, 90);
    lemma_pow2_adds(26, 1074);
    lemma2_to64();
    lemma2_to64_rest();
    lemma_pow2_strictly_increases(64, 1074);
    crate::heater_laws::heat_pumps_balance(hp, outside);
    assert(size(power) <= 0x400_0000 * one);
    crate::precision::lemma_size_of_product(power, cop.units());
    assert(size(power) * size(cop.units()) <= 0x2000_0000 * (one * one)) by (nonlinear_arith)
        requires
            0 <= size(power) <= 0x400_0000 * one,
            0 <= size(cop.units()) <= 8 * one,
    ;
    assert(size(power) * one <= 0x400_0000 * (one * one)) by (nonlinear_arith)
        requires
            size(power) <= 0x400_0000 * one,
            one > 0,
    ;
    assert(one * 0x1_0000_0000_0000_0000 <= one * one) by (nonlinear_arith)
        requires
            one >= 0x1_0000_0000_0000_0000,
    ;
}

// ---------------------------------------------------------------------------
// Gas
// ---------------------------------------------------------------------------

/// A product of two numbers that are not below zero, infinite ones too, is not below zero
/// unless it is no number.
proof fn lemma_product_is_not_negative(x: Double, y: Double)
    requires
        x.ge(Double::zero()),
        y.ge(Double::zero()),
        !x.times(y).is_nan(),
    ensures
        x.times(y).ge(Double::zero()),
{
    if x.is_finite() && y.is_finite() {
        crate::double_laws::product_is_nonnegative(x, y);
    } else {
        reveal(Double::spec_times);
        crate::double_laws::lemma_signed_mag(crate::rounding::INF_MAG as nat);
    }
}

/// A sum of two numbers that are not below zero, infinite ones too, is not below zero.
proof fn lemma_sum_is_not_negative(x: Double, y: Double)
    requires
        x.ge(Double::zero()),
        y.ge(Double::zero()),
    ensures
        x.plus(y).ge(Double::zero()),
{
    if x.is_finite() {
        crate::double_laws::steps_are_ordered(x, y);
    } else {
        reveal(Double::spec_plus);
    }
}

/// What is a number was made of numbers.
proof fn lemma_number_of_numbers(x: Double, y: Double)
    ensures
        !x.plus(y).is_nan() ==> !x.is_nan() && !y.is_nan(),
        !x.times(y).is_nan() ==> !x.is_nan() && !y.is_nan(),
{
    reveal(Double::spec_plus);
    reveal(Double::spec_times);
}

/// The fuel of a gas heater is what its burner and its pilot take, and that is what its fuel
/// port carries. A burner that is off takes nothing. The zone gets the share of the tank's
/// loss that stays there and the pilot's heat to the air; what goes up the flue has no part in
/// it.
pub proof fn gas_fuel_and_heat_are_accounted_for(
    heater: GasWH,
    env: EnvironmentState,
    mode: OperatingMode,
    outside: crate::gas::GasOutside,
    fluid: Seq<FluidAccumulator>,
    readings: ScheduleReadings,
    draw: DrawResult,
    flue_loss_fraction: Double,
)
    ensures
        ({
            let f = heater.step_figures(&env, mode, outside, fluid, readings, draw);
            let excess = crate::shared::weighted_average(
                heater.tank@.node_temps_c,
                heater.tank@.node_volumes_m3,
            ).minus(crate::shared::ambient(&env, heater.descriptor.zone)).max(Double::zero());
            let other = GasWH {
                state: GasState { flue_loss_fraction, ..heater.state },
                ..heater
            };
            &&& f.skin_loss_to_zone_w == heater.tank@.ua_w_per_k.times(excess).times(
                heater.state.skin_loss_fraction,
            ).plus(f.firing.pilot_heat_to_ambient_w)
            &&& f.skin_loss_to_zone_w == other.step_figures(
                &env,
                mode,
                outside,
                fluid,
                readings,
                draw,
            ).skin_loss_to_zone_w
            &&& f.fuel_input_w == f.firing.burner_input_w.plus(heater.state.pilot_power_w)
            &&& !heater.state.burner_on ==> f.firing.burner_input_w == Double::zero()
            &&& forall|i: int|
                0 <= i < heater.step_contributions(f).len() ==> match (
                #[trigger] heater.step_contributions(f)[i]) {
                    PortContribution::Thermal { sensible_gain_w, latent_gain_w, .. } =>
                        sensible_gain_w == f.skin_loss_to_zone_w && latent_gain_w
                            == Double::zero(),
                    PortContribution::Fuel { consumption_w, .. } => consumption_w
                        == f.fuel_input_w,
                    _ => true,
                }
        }),
{
}

/// What a gas heater gives to its zone is not negative, wherever it is a number: the loss of a
/// tank colder than its surroundings counts as none. The tank's loss coefficient, the share of
/// the loss that stays, the pilot's power and its share to the water are none of them negative,
/// and that share is at most the whole.
pub proof fn gas_gains_are_not_negative(
    heater: GasWH,
    env: EnvironmentState,
    mode: OperatingMode,
    outside: crate::gas::GasOutside,
    fluid: Seq<FluidAccumulator>,
    readings: ScheduleReadings,
    draw: DrawResult,
)
    requires
        heater.state.pilot_power_w.ge(Double::zero()),
        heater.state.pilot_fraction_to_tank.ge(Double::zero()),
        heater.state.pilot_fraction_to_tank.le(Double::one()),
        heater.tank@.ua_w_per_k.ge(Double::zero()),
        heater.state.skin_loss_fraction.ge(Double::zero()),
        !heater.step_figures(
            &env,
            mode,
            outside,
            fluid,
            readings,
            draw,
        ).skin_loss_to_zone_w.is_nan(),
    ensures
        heater.step_figures(
            &env,
            mode,
            outside,
            fluid,
            readings,
            draw,
        ).skin_loss_to_zone_w.ge(Double::zero()),
{
    let s = heater.state;
    let zero = Double::zero();
    let excess = crate::shared::weighted_average(
        heater.tank@.node_temps_c,
        heater.tank@.node_volumes_m3,
    ).minus(crate::shared::ambient(&env, heater.descriptor.zone)).max(zero);
    let ua = heater.tank@.ua_w_per_k;
    let loss = ua.times(excess);
    let kept = loss.times(s.skin_loss_fraction);
    let rest = Double::one().minus(s.pilot_fraction_to_tank);
    let pilot = s.pilot_power_w.times(rest);
    assert(excess.ge(zero));
    crate::precision::lemma_other_share(s.pilot_fraction_to_tank);
    lemma_number_of_numbers(kept, pilot);
    lemma_number_of_numbers(loss, s.skin_loss_fraction);
    lemma_product_is_not_negative(ua, excess);
    lemma_product_is_not_negative(loss, s.skin_loss_fraction);
    lemma_product_is_not_negative(s.pilot_power_w, rest);
    lemma_sum_is_not_negative(kept, pilot);
}

} // verus!
