//! Laws of the steps of the heaters: the heat that a step reports is the heat that the tank
//! gets, and the water that it reports is the water that the tank gives.
use vstd::arithmetic::power2::*;
use vstd::prelude::*;

use crate::approx::{near, one_is_tame, tame_units};
use crate::condenser_laws::{condenser_heat_adds_up, spreads, total_power, total_weight};
use crate::conservation::heat;
use crate::control_laws::ordinary;
use crate::delivery_laws::{asks_for, is_scheduled, lemma_total_draw};
use crate::double::Double;
use crate::draws::HEAT_OF_WATER;
use crate::gas::{GasOutside, GasWH};
use crate::heat_pump_wh::{HeatPumpWH, HpOutside};
use crate::heating::total_lost;
use crate::hpwh_compressor::condenser_injections;
use crate::indirect_tank::{IndirectOutside, IndirectTank};
use crate::precision::{size, P46, P47};
use crate::resistance::{ResistanceOutside, ResistanceWH};
use crate::shared::ScheduleReadings;
use crate::step_balance::{before_draw, injected_heat, is_step, step_bound};
use crate::tank::{is_nonnegative, DrawResult, TankModel, TemperedDrawConfig};
use crate::tempered_laws::{
    heat_missed, is_blend, lemma_report, lemma_unblended, lemma_volume_flow, water_taken,
};
use crate::time::Duration;
use crate::types::{EnvironmentState, FluidAccumulator, OperatingMode};

verus! {

// ---------------------------------------------------------------------------
// Steps of a tank with a mixing valve
// ---------------------------------------------------------------------------

/// What a step does to the heat in a tank: it changes by the heat put in, `put_in`, and by
/// what comes and goes with the water, and falls by what is lost to the surroundings, but for
/// `slack` parts in `2^47`.
pub open spec fn heat_balances(
    tank: TankModel,
    after: TankModel,
    ambient_temp_c: Double,
    energy_out: int,
    energy_in: int,
    seconds: Double,
    put_in: int,
    slack: int,
) -> bool {
    let volumes = tank.node_volumes_m3;
    let change = HEAT_OF_WATER * (heat(after.node_temps_c, volumes) - heat(
        tank.node_temps_c,
        volumes,
    ));
    let lost = total_lost(tank, ambient_temp_c, seconds, tank.n());
    size(change + (lost + (energy_out - energy_in)) * pow2(1074) - put_in) * P47 <= slack
}

/// The draw of a step, of the water as it is when it leaves.
pub open spec fn drawn_water(
    tank: TankModel,
    ambient_temp_c: Double,
    draw_volume_m3: Double,
    mains_temp_c: Double,
    injections: Seq<(usize, Double)>,
    seconds: Double,
) -> DrawResult {
    before_draw(tank, ambient_temp_c, injections, seconds).draw_summary(
        draw_volume_m3,
        mains_temp_c,
        tank.node_temps_c[0],
        Double::zero(),
    )
}

/// The heat in a tank after a step through a mixing valve is what was in it before, and what
/// was injected and came with the mains water, less what left with the water drawn and what
/// was lost, within rounding. Without injections the water drawn is what the step reports.
pub proof fn tempered_steps_balance(
    tank: TankModel,
    ambient_temp_c: Double,
    tempered_flow_m3_s: Double,
    hot_flow_m3_s: Double,
    mains_temp_c: Double,
    injections: Seq<(usize, Double)>,
    tmv: TemperedDrawConfig,
    seconds: Double,
)
    requires
        is_nonnegative(tempered_flow_m3_s),
        is_nonnegative(hot_flow_m3_s),
        is_step(
            tank,
            ambient_temp_c,
            tank.tempered_draw(tempered_flow_m3_s, hot_flow_m3_s, mains_temp_c, tmv, seconds),
            mains_temp_c,
            injections,
            seconds,
        ),
    ensures
        ({
            let taken = tank.tempered_draw(
                tempered_flow_m3_s,
                hot_flow_m3_s,
                mains_temp_c,
                tmv,
                seconds,
            );
            let (after, result) = tank.stepped_tempered(
                ambient_temp_c,
                tempered_flow_m3_s,
                hot_flow_m3_s,
                mains_temp_c,
                injections,
                tmv,
                seconds,
            );
            let water = drawn_water(
                tank,
                ambient_temp_c,
                taken,
                mains_temp_c,
                injections,
                seconds,
            );
            &&& result is Ok
            &&& result->Ok_0.energy_in_j == water.energy_in_j
            &&& injections.len() == 0 ==> result->Ok_0.energy_out_j == water.energy_out_j
            &&& heat_balances(
                tank,
                after,
                ambient_temp_c,
                water.energy_out_j.units(),
                water.energy_in_j.units(),
                seconds,
                injected_heat(injections, seconds, 0),
                step_bound(tank, ambient_temp_c, taken, mains_temp_c, injections, seconds),
            )
        }),
{
    let taken = tank.tempered_draw(
        tempered_flow_m3_s,
        hot_flow_m3_s,
        mains_temp_c,
        tmv,
        seconds,
    );
    crate::step_balance::steps_balance(
        tank,
        ambient_temp_c,
        taken,
        mains_temp_c,
        injections,
        seconds,
    );
    one_is_tame();
    let hot = before_draw(tank, ambient_temp_c, injections, seconds);
    assert(is_nonnegative(taken) && taken.le(hot.total_volume_m3));
    crate::step_balance::lemma_injections_balance(
        tank.conducted(ambient_temp_c, seconds),
        injections,
        seconds,
        0,
    );
    assert(hot.total_volume_m3 == tank.total_volume_m3);
    assert(!taken.gt(tank.total_volume_m3));
}

// ---------------------------------------------------------------------------
// Injections
// ---------------------------------------------------------------------------

/// The injections of some power among two.
pub open spec fn those_of_some_power(a: (usize, Double), b: (usize, Double)) -> Seq<
    (usize, Double),
> {
    (if a.1.gt(Double::zero()) {
        seq![a]
    } else {
        Seq::empty()
    }) + (if b.1.gt(Double::zero()) {
        seq![b]
    } else {
        Seq::empty()
    })
}

/// An injection of no power changes nothing, and need not be made.
proof fn lemma_skipped(tank: TankModel, a: (usize, Double), b: (usize, Double), seconds: Double)
    requires
        a.1.is_finite(),
        b.1.is_finite(),
        0 <= a.1.units(),
        0 <= b.1.units(),
    ensures
        tank.heated(those_of_some_power(a, b), seconds) == tank.heated(seq![a, b], seconds),
        injected_heat(seq![a, b], seconds, 0) == (a.1.units() + b.1.units()) * seconds.units(),
{
    one_is_tame();
    crate::double_laws::order_agrees_with_value(Double::zero(), a.1);
    crate::double_laws::order_agrees_with_value(Double::zero(), b.1);
    crate::double_laws::order_agrees_with_value(a.1, Double::zero());
    crate::double_laws::order_agrees_with_value(b.1, Double::zero());
    let list = seq![a, b];
    reveal_with_fuel(TankModel::injected, 4);
    reveal_with_fuel(injected_heat, 4);
    assert(injected_heat(list, seconds, 2) == 0);
    let s = seconds.units();
    assert((a.1.units() + b.1.units()) * s == b.1.units() * s + a.1.units() * s)
        by (nonlinear_arith);
    if a.1.units() > 0 && b.1.units() > 0 {
        assert(those_of_some_power(a, b) =~= list);
    } else if a.1.units() > 0 {
        assert(those_of_some_power(a, b) =~= seq![a]);
    } else if b.1.units() > 0 {
        assert(those_of_some_power(a, b) =~= seq![b]);
    } else {
        assert(those_of_some_power(a, b) =~= Seq::empty());
    }
}

/// A step that leaves out the injections of no power is the same step.
proof fn lemma_same_step(
    tank: TankModel,
    ambient_temp_c: Double,
    tempered_flow_m3_s: Double,
    hot_flow_m3_s: Double,
    mains_temp_c: Double,
    a: (usize, Double),
    b: (usize, Double),
    tmv: TemperedDrawConfig,
    seconds: Double,
)
    requires
        a.1.is_finite(),
        b.1.is_finite(),
        0 <= a.1.units(),
        0 <= b.1.units(),
    ensures
        tank.stepped_tempered(
            ambient_temp_c,
            tempered_flow_m3_s,
            hot_flow_m3_s,
            mains_temp_c,
            those_of_some_power(a, b),
            tmv,
            seconds,
        ) == tank.stepped_tempered(
            ambient_temp_c,
            tempered_flow_m3_s,
            hot_flow_m3_s,
            mains_temp_c,
            seq![a, b],
            tmv,
            seconds,
        ),
        injected_heat(seq![a, b], seconds, 0) == (a.1.units() + b.1.units()) * seconds.units(),
{
    lemma_skipped(tank.conducted(ambient_temp_c, seconds), a, b, seconds);
}

/// The heat of two injections goes into the tank: it is what the heat in the tank changes by,
/// beside what comes and goes with the water and what is lost, within rounding. Where there is
/// none, the water drawn is as the step reports it.
pub open spec fn puts_in(
    tank: TankModel,
    after: TankModel,
    draw: DrawResult,
    ambient_temp_c: Double,
    taken: Double,
    mains_temp_c: Double,
    a: (usize, Double),
    b: (usize, Double),
    seconds: Double,
) -> bool {
    let list = seq![a, b];
    let water = drawn_water(tank, ambient_temp_c, taken, mains_temp_c, list, seconds);
    &&& draw.energy_in_j == water.energy_in_j
    &&& a.1.units() == 0 && b.1.units() == 0 ==> draw.energy_out_j == water.energy_out_j
    &&& heat_balances(
        tank,
        after,
        ambient_temp_c,
        water.energy_out_j.units(),
        water.energy_in_j.units(),
        seconds,
        (a.1.units() + b.1.units()) * seconds.units(),
        step_bound(tank, ambient_temp_c, taken, mains_temp_c, list, seconds),
    )
}

proof fn lemma_puts_in(
    tank: TankModel,
    ambient_temp_c: Double,
    tempered_flow_m3_s: Double,
    hot_flow_m3_s: Double,
    mains_temp_c: Double,
    a: (usize, Double),
    b: (usize, Double),
    tmv: TemperedDrawConfig,
    seconds: Double,
)
    requires
        a.1.is_finite(),
        b.1.is_finite(),
        0 <= a.1.units(),
        0 <= b.1.units(),
        is_nonnegative(tempered_flow_m3_s),
        is_nonnegative(hot_flow_m3_s),
        is_step(
            tank,
            ambient_temp_c,
            tank.tempered_draw(tempered_flow_m3_s, hot_flow_m3_s, mains_temp_c, tmv, seconds),
            mains_temp_c,
            seq![a, b],
            seconds,
        ),
    ensures
        ({
            let (after, result) = tank.stepped_tempered(
                ambient_temp_c,
                tempered_flow_m3_s,
                hot_flow_m3_s,
                mains_temp_c,
                those_of_some_power(a, b),
                tmv,
                seconds,
            );
            &&& result is Ok
            &&& puts_in(
                tank,
                after,
                result->Ok_0,
                ambient_temp_c,
                tank.tempered_draw(
                    tempered_flow_m3_s,
                    hot_flow_m3_s,
                    mains_temp_c,
                    tmv,
                    seconds,
                ),
                mains_temp_c,
                a,
                b,
                seconds,
            )
        }),
{
    lemma_same_step(
        tank,
        ambient_temp_c,
        tempered_flow_m3_s,
        hot_flow_m3_s,
        mains_temp_c,
        a,
        b,
        tmv,
        seconds,
    );
    tempered_steps_balance(
        tank,
        ambient_temp_c,
        tempered_flow_m3_s,
        hot_flow_m3_s,
        mains_temp_c,
        seq![a, b],
        tmv,
        seconds,
    );
    if a.1.units() == 0 && b.1.units() == 0 {
        let conducted = tank.conducted(ambient_temp_c, seconds);
        lemma_skipped(conducted, a, b, seconds);
        one_is_tame();
        crate::double_laws::order_agrees_with_value(Double::zero(), a.1);
        crate::double_laws::order_agrees_with_value(Double::zero(), b.1);
        assert(those_of_some_power(a, b) =~= Seq::empty());
        assert(conducted.heated(those_of_some_power(a, b), seconds).0 == conducted);
    }
}

/// A mass flow over a density is a flow.
proof fn lemma_flow_is_not_negative(mass: Double, density: Double)
    requires
        ordinary(mass),
        ordinary(density),
        0 < density.units(),
    ensures
        is_nonnegative(mass.over(density)),
{
    lemma_volume_flow(mass, density);
    let h = pow2(1074) as int;
    lemma_pow2_pos(1074);
    let p = mass.units() * h;
    assert(p >= 0) by (nonlinear_arith)
        requires
            p == mass.units() * h,
            mass.units() >= 0,
            h > 0,
    ;
    crate::approx::near_sign(mass.over(density), p, density.units(), 1);
    one_is_tame();
    crate::double_laws::order_agrees_with_value(Double::zero(), mass.over(density));
}

// ---------------------------------------------------------------------------
// The valve and the surroundings of a heater
// ---------------------------------------------------------------------------

/// A mixing valve for fixtures at `fixture_c` and for hot draws at `hot_c`, or at the setpoint
/// where there is no such target.
pub open spec fn valve(
    fixture_c: Double,
    hot_c: Option<Double>,
    setpoint_c: Double,
) -> TemperedDrawConfig {
    TemperedDrawConfig {
        tempered_draw_temp_c: fixture_c,
        hot_draw_temp_c: match hot_c {
            Some(v) => v,
            None => setpoint_c,
        },
        setpoint_temp_c: setpoint_c,
    }
}

/// What a step reports of a draw of `scheduled` and `asked` kilograms per second of water of a
/// density: the heat of the mains water that it lets in, and the heat that it misses. Where the
/// outlet is no warmer than either target, the mains water is both flows over the step.
pub open spec fn draw_is_reported(
    tank: TankModel,
    draw: DrawResult,
    scheduled: Double,
    asked: Double,
    density: Double,
    mains_temp_c: Double,
    tmv: TemperedDrawConfig,
    seconds: Double,
) -> bool {
    let outlet = tank.node_temps_c[0].units();
    let mains_heat = HEAT_OF_WATER * mains_temp_c.units();
    let (p, q) = water_taken(
        tank,
        scheduled.units(),
        asked.units(),
        density.units(),
        mains_temp_c,
        tmv,
        seconds,
    );
    let flow = scheduled.units() + asked.units();
    let total = tank.total_volume_m3.units();
    &&& near(draw.energy_in_j, mains_heat * p, q * pow2(1074), 9)
    &&& outlet <= tmv.tempered_draw_temp_c.units() && outlet <= tmv.hot_draw_temp_c.units() ==> {
        &&& flow * seconds.units() <= total * density.units() ==> near(
            draw.energy_in_j,
            mains_heat * (flow * seconds.units()),
            density.units() * pow2(1074),
            9,
        )
        &&& flow * seconds.units() > total * density.units() ==> near(
            draw.energy_in_j,
            mains_heat * total,
            pow2(1074) as int,
            9,
        )
    }
    &&& draw.outlet_temp_c == tank.node_temps_c[0]
    &&& near(
        draw.unmet_load_w,
        heat_missed(scheduled.units(), outlet, tmv.tempered_draw_temp_c.units()),
        density.units(),
        5,
    )
}

/// What a step with mass flows reports of its draw.
proof fn lemma_draw_is_reported(
    tank: TankModel,
    ambient_temp_c: Double,
    scheduled: Double,
    asked: Double,
    density: Double,
    mains_temp_c: Double,
    injections: Seq<(usize, Double)>,
    tmv: TemperedDrawConfig,
    seconds: Double,
)
    requires
        is_blend(tank, mains_temp_c, tmv, seconds),
        ordinary(scheduled),
        ordinary(asked),
        ordinary(density),
        0 < density.units(),
        tank.stepped_tempered(
            ambient_temp_c,
            scheduled.over(density),
            asked.over(density),
            mains_temp_c,
            injections,
            tmv,
            seconds,
        ).1 is Ok,
    ensures
        draw_is_reported(
            tank,
            tank.stepped_tempered(
                ambient_temp_c,
                scheduled.over(density),
                asked.over(density),
                mains_temp_c,
                injections,
                tmv,
                seconds,
            ).1->Ok_0,
            scheduled,
            asked,
            density,
            mains_temp_c,
            tmv,
            seconds,
        ),
{
    let draw = tank.stepped_tempered(
        ambient_temp_c,
        scheduled.over(density),
        asked.over(density),
        mains_temp_c,
        injections,
        tmv,
        seconds,
    ).1->Ok_0;
    lemma_pow2_pos(1074);
    lemma_volume_flow(scheduled, density);
    lemma_volume_flow(asked, density);
    lemma_report(
        tank,
        ambient_temp_c,
        scheduled.over(density),
        asked.over(density),
        scheduled.units(),
        asked.units(),
        density.units(),
        mains_temp_c,
        injections,
        tmv,
        seconds,
    );
    let outlet = tank.node_temps_c[0].units();
    if outlet <= tmv.tempered_draw_temp_c.units() && outlet <= tmv.hot_draw_temp_c.units() {
        lemma_unblended(
            tank,
            scheduled.units(),
            asked.units(),
            density.units(),
            mains_temp_c,
            tmv,
            seconds,
            draw.energy_in_j,
            HEAT_OF_WATER * mains_temp_c.units(),
            pow2(1074) as int,
            9,
        );
    }
}

// ---------------------------------------------------------------------------
// Gas heaters
// ---------------------------------------------------------------------------

/// A gas heater's step draws what is scheduled and what appliances ask for: its tank takes in
/// the mains water of both, its figures report both, and the unmet load is the heat that the
/// scheduled draw misses.
#[verifier::rlimit(50)]
pub proof fn gas_steps_draw_what_is_asked(
    heater: &GasWH,
    env: &EnvironmentState,
    mode: OperatingMode,
    outside: GasOutside,
    fluid: Seq<FluidAccumulator>,
    readings: ScheduleReadings,
    dt: Duration,
    scheduled: Double,
    asked: Double,
    mains_temp_c: Double,
)
    requires
        is_scheduled(readings, heater.state.draw_flow_rate_kg_s, scheduled),
        asks_for(fluid, asked),
        readings.mains_temp_c == Some(mains_temp_c),
        ordinary(scheduled),
        ordinary(asked),
        ordinary(outside.water_density_kg_m3),
        0 < outside.water_density_kg_m3.units(),
        is_blend(
            heater.tank@,
            mains_temp_c,
            valve(
                heater.state.fixture_delivery_temp_c,
                heater.state.hot_draw_temp_c,
                heater.state.setpoint_c,
            ),
            dt.as_secs(),
        ),
        heater.step_tank(env, outside, fluid, readings, dt).1 is Ok,
    ensures
        ({
            let draw = heater.step_tank(env, outside, fluid, readings, dt).1->Ok_0;
            let figures = heater.step_figures(env, mode, outside, fluid, readings, draw);
            &&& draw_is_reported(
                heater.tank@,
                figures.draw,
                scheduled,
                asked,
                outside.water_density_kg_m3,
                mains_temp_c,
                valve(
                    heater.state.fixture_delivery_temp_c,
                    heater.state.hot_draw_temp_c,
                    heater.state.setpoint_c,
                ),
                dt.as_secs(),
            )
            &&& near(figures.total_draw_kg_s, scheduled.units() + asked.units(), 1, 1)
            &&& figures.mains_temp_c == mains_temp_c
        }),
{
    lemma_total_draw(fluid, readings, heater.state.draw_flow_rate_kg_s, scheduled, asked);
    tame_units(mains_temp_c, 40);
    lemma_draw_is_reported(
        heater.tank@,
        crate::shared::ambient(env, heater.descriptor.zone),
        scheduled,
        asked,
        outside.water_density_kg_m3,
        mains_temp_c,
        crate::gas::injections(heater.state.burner_node, heater.step_firing(env, outside)),
        heater.state.tmv(),
        dt.as_secs(),
    );
}

/// What a gas heater reports as the heat of its burner and of its pilot to the water is the heat
/// that its tank gets, at the burner.
#[verifier::rlimit(50)]
pub proof fn gas_steps_put_in_their_heat(
    heater: &GasWH,
    env: &EnvironmentState,
    mode: OperatingMode,
    outside: GasOutside,
    fluid: Seq<FluidAccumulator>,
    readings: ScheduleReadings,
    dt: Duration,
    scheduled: Double,
    asked: Double,
    mains_temp_c: Double,
)
    requires
        is_scheduled(readings, heater.state.draw_flow_rate_kg_s, scheduled),
        asks_for(fluid, asked),
        readings.mains_temp_c == Some(mains_temp_c),
        ordinary(scheduled),
        ordinary(asked),
        ordinary(outside.water_density_kg_m3),
        0 < outside.water_density_kg_m3.units(),
        mains_temp_c.is_finite(),
        ({
            let firing = heater.step_firing(env, outside);
            let a = (heater.state.burner_node, firing.tank_heat_w);
            let b = (heater.state.burner_node, firing.pilot_heat_to_water_w);
            let taken = heater.tank@.tempered_draw(
                scheduled.over(outside.water_density_kg_m3),
                asked.over(outside.water_density_kg_m3),
                mains_temp_c,
                valve(
                    heater.state.fixture_delivery_temp_c,
                    heater.state.hot_draw_temp_c,
                    heater.state.setpoint_c,
                ),
                dt.as_secs(),
            );
            &&& a.1.is_finite()
            &&& b.1.is_finite()
            &&& 0 <= a.1.units()
            &&& 0 <= b.1.units()
            &&& is_step(
                heater.tank@,
                crate::shared::ambient(env, heater.descriptor.zone),
                taken,
                mains_temp_c,
                seq![a, b],
                dt.as_secs(),
            )
        }),
    ensures
        ({
            let (after, result) = heater.step_tank(env, outside, fluid, readings, dt);
            let draw = result->Ok_0;
            let figures = heater.step_figures(env, mode, outside, fluid, readings, draw);
            let taken = heater.tank@.tempered_draw(
                scheduled.over(outside.water_density_kg_m3),
                asked.over(outside.water_density_kg_m3),
                mains_temp_c,
                valve(
                    heater.state.fixture_delivery_temp_c,
                    heater.state.hot_draw_temp_c,
                    heater.state.setpoint_c,
                ),
                dt.as_secs(),
            );
            &&& result is Ok
            &&& puts_in(
                heater.tank@,
                after,
                figures.draw,
                crate::shared::ambient(env, heater.descriptor.zone),
                taken,
                mains_temp_c,
                (heater.state.burner_node, figures.firing.tank_heat_w),
                (heater.state.burner_node, figures.firing.pilot_heat_to_water_w),
                dt.as_secs(),
            )
        }),
{
    lemma_total_draw(fluid, readings, heater.state.draw_flow_rate_kg_s, scheduled, asked);
    lemma_flow_is_not_negative(scheduled, outside.water_density_kg_m3);
    lemma_flow_is_not_negative(asked, outside.water_density_kg_m3);
    let firing = heater.step_firing(env, outside);
    let a = (heater.state.burner_node, firing.tank_heat_w);
    let b = (heater.state.burner_node, firing.pilot_heat_to_water_w);
    lemma_puts_in(
        heater.tank@,
        crate::shared::ambient(env, heater.descriptor.zone),
        scheduled.over(outside.water_density_kg_m3),
        asked.over(outside.water_density_kg_m3),
        mains_temp_c,
        a,
        b,
        valve(
            heater.state.fixture_delivery_temp_c,
            heater.state.hot_draw_temp_c,
            heater.state.setpoint_c,
        ),
        dt.as_secs(),
    );
    assert(crate::gas::injections(heater.state.burner_node, firing) =~= those_of_some_power(a, b));
}

// ---------------------------------------------------------------------------
// Resistance heaters
// ---------------------------------------------------------------------------

/// A resistance heater's step draws what is scheduled and what appliances ask for.
pub proof fn resistance_steps_draw_what_is_asked(
    heater: &ResistanceWH,
    env: &EnvironmentState,
    mode: OperatingMode,
    outside: ResistanceOutside,
    fluid: Seq<FluidAccumulator>,
    readings: ScheduleReadings,
    dt: Duration,
    scheduled: Double,
    asked: Double,
    mains_temp_c: Double,
)
    requires
        is_scheduled(readings, heater.state.draw_flow_rate_kg_s, scheduled),
        asks_for(fluid, asked),
        readings.mains_temp_c == Some(mains_temp_c),
        ordinary(scheduled),
        ordinary(asked),
        ordinary(outside.water_density_kg_m3),
        0 < outside.water_density_kg_m3.units(),
        is_blend(
            heater.tank@,
            mains_temp_c,
            valve(
                heater.state.fixture_delivery_temp_c,
                heater.state.hot_draw_temp_c,
                heater.state.setpoint_c,
            ),
            dt.as_secs(),
        ),
        heater.step_tank(env, mode, outside, fluid, readings, dt).1 is Ok,
    ensures
        ({
            let draw = heater.step_tank(env, mode, outside, fluid, readings, dt).1->Ok_0;
            let figures = heater.step_figures(env, mode, outside, fluid, readings, draw);
            &&& draw_is_reported(
                heater.tank@,
                figures.draw,
                scheduled,
                asked,
                outside.water_density_kg_m3,
                mains_temp_c,
                valve(
                    heater.state.fixture_delivery_temp_c,
                    heater.state.hot_draw_temp_c,
                    heater.state.setpoint_c,
                ),
                dt.as_secs(),
            )
            &&& near(figures.total_draw_kg_s, scheduled.units() + asked.units(), 1, 1)
            &&& figures.mains_temp_c == mains_temp_c
        }),
{
    lemma_total_draw(fluid, readings, heater.state.draw_flow_rate_kg_s, scheduled, asked);
    tame_units(mains_temp_c, 40);
    lemma_draw_is_reported(
        heater.tank@,
        crate::shared::ambient(env, heater.descriptor.zone),
        scheduled,
        asked,
        outside.water_density_kg_m3,
        mains_temp_c,
        crate::resistance::injections(
            heater.state,
            heater.step_powers(env, mode, outside).0,
            heater.step_powers(env, mode, outside).1,
        ),
        heater.state.tmv(),
        dt.as_secs(),
    );
}

/// What a resistance heater reports as the powers of its two elements is the heat that its tank
/// gets, each at its own node.
pub proof fn resistance_steps_put_in_their_heat(
    heater: &ResistanceWH,
    env: &EnvironmentState,
    mode: OperatingMode,
    outside: ResistanceOutside,
    fluid: Seq<FluidAccumulator>,
    readings: ScheduleReadings,
    dt: Duration,
    scheduled: Double,
    asked: Double,
    mains_temp_c: Double,
)
    requires
        is_scheduled(readings, heater.state.draw_flow_rate_kg_s, scheduled),
        asks_for(fluid, asked),
        readings.mains_temp_c == Some(mains_temp_c),
        ordinary(scheduled),
        ordinary(asked),
        ordinary(outside.water_density_kg_m3),
        0 < outside.water_density_kg_m3.units(),
        mains_temp_c.is_finite(),
        ({
            let powers = heater.step_powers(env, mode, outside);
            let a = (heater.state.upper_node, powers.0);
            let b = (heater.state.lower_node, powers.1);
            let taken = heater.tank@.tempered_draw(
                scheduled.over(outside.water_density_kg_m3),
                asked.over(outside.water_density_kg_m3),
                mains_temp_c,
                valve(
                    heater.state.fixture_delivery_temp_c,
                    heater.state.hot_draw_temp_c,
                    heater.state.setpoint_c,
                ),
                dt.as_secs(),
            );
            &&& a.1.is_finite()
            &&& b.1.is_finite()
            &&& 0 <= a.1.units()
            &&& 0 <= b.1.units()
            &&& is_step(
                heater.tank@,
                crate::shared::ambient(env, heater.descriptor.zone),
                taken,
                mains_temp_c,
                seq![a, b],
                dt.as_secs(),
            )
        }),
    ensures
        ({
            let (after, result) = heater.step_tank(env, mode, outside, fluid, readings, dt);
            let draw = result->Ok_0;
            let figures = heater.step_figures(env, mode, outside, fluid, readings, draw);
            let taken = heater.tank@.tempered_draw(
                scheduled.over(outside.water_density_kg_m3),
                asked.over(outside.water_density_kg_m3),
                mains_temp_c,
                valve(
                    heater.state.fixture_delivery_temp_c,
                    heater.state.hot_draw_temp_c,
                    heater.state.setpoint_c,
                ),
                dt.as_secs(),
            );
            &&& result is Ok
            &&& puts_in(
                heater.tank@,
                after,
                figures.draw,
                crate::shared::ambient(env, heater.descriptor.zone),
                taken,
                mains_temp_c,
                (heater.state.upper_node, figures.upper_power_w),
                (heater.state.lower_node, figures.lower_power_w),
                dt.as_secs(),
            )
        }),
{
    lemma_total_draw(fluid, readings, heater.state.draw_flow_rate_kg_s, scheduled, asked);
    lemma_flow_is_not_negative(scheduled, outside.water_density_kg_m3);
    lemma_flow_is_not_negative(asked, outside.water_density_kg_m3);
    let powers = heater.step_powers(env, mode, outside);
    let a = (heater.state.upper_node, powers.0);
    let b = (heater.state.lower_node, powers.1);
    lemma_puts_in(
        heater.tank@,
        crate::shared::ambient(env, heater.descriptor.zone),
        scheduled.over(outside.water_density_kg_m3),
        asked.over(outside.water_density_kg_m3),
        mains_temp_c,
        a,
        b,
        valve(
            heater.state.fixture_delivery_temp_c,
            heater.state.hot_draw_temp_c,
            heater.state.setpoint_c,
        ),
        dt.as_secs(),
    );
    assert(crate::resistance::injections(heater.state, powers.0, powers.1)
        =~= those_of_some_power(a, b));
}

// ---------------------------------------------------------------------------
// Indirect tanks
// ---------------------------------------------------------------------------

/// An indirect tank's step draws what is scheduled and what appliances ask for.
pub proof fn indirect_steps_draw_what_is_asked(
    heater: &IndirectTank,
    env: &EnvironmentState,
    mode: OperatingMode,
    outside: IndirectOutside,
    fluid: Seq<FluidAccumulator>,
    readings: ScheduleReadings,
    dt: Duration,
    scheduled: Double,
    asked: Double,
    mains_temp_c: Double,
)
    requires
        is_scheduled(readings, heater.state.draw_flow_rate_kg_s, scheduled),
        asks_for(fluid, asked),
        readings.mains_temp_c == Some(mains_temp_c),
        ordinary(scheduled),
        ordinary(asked),
        ordinary(outside.water_density_kg_m3),
        0 < outside.water_density_kg_m3.units(),
        is_blend(
            heater.tank@,
            mains_temp_c,
            valve(
                heater.state.fixture_delivery_temp_c,
                heater.state.hot_draw_temp_c,
                heater.state.setpoint_c,
            ),
            dt.as_secs(),
        ),
        heater.step_tank(env, outside, fluid, readings, dt).1 is Ok,
    ensures
        ({
            let draw = heater.step_tank(env, outside, fluid, readings, dt).1->Ok_0;
            let figures = heater.step_figures(env, mode, outside, fluid, readings, dt, draw);
            &&& draw_is_reported(
                heater.tank@,
                figures.draw,
                scheduled,
                asked,
                outside.water_density_kg_m3,
                mains_temp_c,
                valve(
                    heater.state.fixture_delivery_temp_c,
                    heater.state.hot_draw_temp_c,
                    heater.state.setpoint_c,
                ),
                dt.as_secs(),
            )
            &&& near(figures.total_draw_kg_s, scheduled.units() + asked.units(), 1, 1)
            &&& figures.mains_temp_c == mains_temp_c
        }),
{
    lemma_total_draw(fluid, readings, heater.state.draw_flow_rate_kg_s, scheduled, asked);
    tame_units(mains_temp_c, 40);
    lemma_draw_is_reported(
        heater.tank@,
        crate::shared::ambient(env, heater.descriptor.zone),
        scheduled,
        asked,
        outside.water_density_kg_m3,
        mains_temp_c,
        crate::indirect_tank::injections(heater.tank@.n(), heater.step_hx_power(fluid)),
        heater.state.tmv(),
        dt.as_secs(),
    );
}

/// What an indirect tank reports as the power of its coil is the heat that it gets, in its lowest
/// node.
pub proof fn indirect_steps_put_in_their_heat(
    heater: &IndirectTank,
    env: &EnvironmentState,
    mode: OperatingMode,
    outside: IndirectOutside,
    fluid: Seq<FluidAccumulator>,
    readings: ScheduleReadings,
    dt: Duration,
    scheduled: Double,
    asked: Double,
    mains_temp_c: Double,
)
    requires
        is_scheduled(readings, heater.state.draw_flow_rate_kg_s, scheduled),
        asks_for(fluid, asked),
        readings.mains_temp_c == Some(mains_temp_c),
        ordinary(scheduled),
        ordinary(asked),
        ordinary(outside.water_density_kg_m3),
        0 < outside.water_density_kg_m3.units(),
        mains_temp_c.is_finite(),
        ({
            let lowest = (heater.tank@.n() - 1) as usize;
            let a = (lowest, heater.step_hx_power(fluid));
            let b = (lowest, Double::zero());
            let taken = heater.tank@.tempered_draw(
                scheduled.over(outside.water_density_kg_m3),
                asked.over(outside.water_density_kg_m3),
                mains_temp_c,
                valve(
                    heater.state.fixture_delivery_temp_c,
                    heater.state.hot_draw_temp_c,
                    heater.state.setpoint_c,
                ),
                dt.as_secs(),
            );
            &&& a.1.is_finite()
            &&& b.1.is_finite()
            &&& 0 <= a.1.units()
            &&& 0 <= b.1.units()
            &&& is_step(
                heater.tank@,
                crate::shared::ambient(env, heater.descriptor.zone),
                taken,
                mains_temp_c,
                seq![a, b],
                dt.as_secs(),
            )
        }),
    ensures
        ({
            let (after, result) = heater.step_tank(env, outside, fluid, readings, dt);
            let draw = result->Ok_0;
            let figures = heater.step_figures(env, mode, outside, fluid, readings, dt, draw);
            let taken = heater.tank@.tempered_draw(
                scheduled.over(outside.water_density_kg_m3),
                asked.over(outside.water_density_kg_m3),
                mains_temp_c,
                valve(
                    heater.state.fixture_delivery_temp_c,
                    heater.state.hot_draw_temp_c,
                    heater.state.setpoint_c,
                ),
                dt.as_secs(),
            );
            &&& result is Ok
            &&& puts_in(
                heater.tank@,
                after,
                figures.draw,
                crate::shared::ambient(env, heater.descriptor.zone),
                taken,
                mains_temp_c,
                ((heater.tank@.n() - 1) as usize, figures.hx_power_w),
                ((heater.tank@.n() - 1) as usize, Double::zero()),
                dt.as_secs(),
            )
        }),
{
    lemma_total_draw(fluid, readings, heater.state.draw_flow_rate_kg_s, scheduled, asked);
    lemma_flow_is_not_negative(scheduled, outside.water_density_kg_m3);
    lemma_flow_is_not_negative(asked, outside.water_density_kg_m3);
    let lowest = (heater.tank@.n() - 1) as usize;
    let a = (lowest, heater.step_hx_power(fluid));
    let b = (lowest, Double::zero());
    lemma_puts_in(
        heater.tank@,
        crate::shared::ambient(env, heater.descriptor.zone),
        scheduled.over(outside.water_density_kg_m3),
        asked.over(outside.water_density_kg_m3),
        mains_temp_c,
        a,
        b,
        valve(
            heater.state.fixture_delivery_temp_c,
            heater.state.hot_draw_temp_c,
            heater.state.setpoint_c,
        ),
        dt.as_secs(),
    );
    assert(crate::indirect_tank::injections(heater.tank@.n(), heater.step_hx_power(fluid))
        =~= those_of_some_power(a, b));
}

// ---------------------------------------------------------------------------
// Heat pumps
// ---------------------------------------------------------------------------

/// A heat pump's step draws its configured flow and what appliances ask for.
#[verifier::rlimit(50)]
pub proof fn heat_pump_steps_draw_what_is_asked(
    heater: &HeatPumpWH,
    env: &EnvironmentState,
    mode: OperatingMode,
    outside: HpOutside,
    fluid: Seq<FluidAccumulator>,
    dt: Duration,
    asked: Double,
)
    requires
        asks_for(fluid, asked),
        ordinary(heater.state.draw_flow_rate_kg_s),
        ordinary(asked),
        ordinary(outside.water_density_kg_m3),
        0 < outside.water_density_kg_m3.units(),
        is_blend(
            heater.tank@,
            heater.state.mains_temp_c,
            valve(
                heater.state.fixture_delivery_temp_c,
                heater.state.tempering_valve_setpoint_c,
                heater.state.setpoint_c,
            ),
            dt.as_secs(),
        ),
        heater.step_tank(env, outside, fluid, dt).1 is Ok,
    ensures
        ({
            let draw = heater.step_tank(env, outside, fluid, dt).1->Ok_0;
            let figures = heater.step_figures(env, mode, outside, fluid, draw);
            &&& draw_is_reported(
                heater.tank@,
                figures.draw,
                heater.state.draw_flow_rate_kg_s,
                asked,
                outside.water_density_kg_m3,
                heater.state.mains_temp_c,
                valve(
                    heater.state.fixture_delivery_temp_c,
                    heater.state.tempering_valve_setpoint_c,
                    heater.state.setpoint_c,
                ),
                dt.as_secs(),
            )
            &&& near(
                figures.total_draw_kg_s,
                heater.state.draw_flow_rate_kg_s.units() + asked.units(),
                1,
                1,
            )
        }),
{
    crate::delivery_laws::lemma_asked(fluid, asked);
    crate::approx::tame_sum(heater.state.draw_flow_rate_kg_s, asked, 40);
    lemma_draw_is_reported(
        heater.tank@,
        crate::shared::ambient(env, heater.descriptor.zone),
        heater.state.draw_flow_rate_kg_s,
        asked,
        outside.water_density_kg_m3,
        heater.state.mains_temp_c,
        condenser_injections(
            heater.condenser_node_weights@,
            heater.state.performance(outside).delivered_w(),
            heater.tank@.n(),
        ),
        heater.state.tmv(),
        dt.as_secs(),
    );
}

/// The heat of a list of injections is that of their powers together.
proof fn lemma_injected_total(list: Seq<(usize, Double)>, seconds: Double, from: int)
    requires
        0 <= from <= list.len(),
    ensures
        injected_heat(list, seconds, from) == (total_power(list, list.len() as int) - total_power(
            list,
            from,
        )) * seconds.units(),
    decreases list.len() - from,
{
    let s = seconds.units();
    if from < list.len() {
        lemma_injected_total(list, seconds, from + 1);
        let all = total_power(list, list.len() as int);
        let next = total_power(list, from + 1);
        let here = total_power(list, from);
        let u = list[from].1.units();
        assert(next == here + u);
        assert((all - next) * s + u * s == (all - here) * s) by (nonlinear_arith)
            requires
                next == here + u,
        ;
    } else {
        assert(0 * s == 0);
    }
}

/// Weights that a condenser can go by: they come to nothing, or to a thousandth or more, and
/// no share of the heat overflows.
pub open spec fn weights_fit(weights: Seq<Double>, q_w: Double, n_nodes: nat) -> bool {
    &&& 0 < n_nodes
    &&& weights.len() <= n_nodes
    &&& !crate::tank::sum(weights).le(Double::zero()) ==> {
        &&& spreads(weights, q_w)
        &&& 1024 * total_weight(weights) >= pow2(1074)
    }
}

/// The powers that a condenser and a backup element put into the nodes add up to what the two
/// deliver, within rounding.
pub proof fn condenser_puts_in_both_heats(
    weights: Seq<Double>,
    delivered_hp_w: Double,
    delivered_er_w: Double,
    n_nodes: nat,
)
    requires
        delivered_hp_w.is_finite(),
        delivered_er_w.is_finite(),
        delivered_hp_w.plus(delivered_er_w).is_finite(),
        weights_fit(weights, delivered_hp_w.plus(delivered_er_w), n_nodes),
    ensures
        ({
            let list = condenser_injections(
                weights,
                delivered_hp_w.plus(delivered_er_w),
                n_nodes,
            );
            let both = delivered_hp_w.units() + delivered_er_w.units();
            size(total_power(list, list.len() as int) - both) * P46 <= 2 * size(both) + 24_600 * P46
        }),
{
    let q_w = delivered_hp_w.plus(delivered_er_w);
    let list = condenser_injections(weights, q_w, n_nodes);
    let power = total_power(list, list.len() as int);
    let both = delivered_hp_w.units() + delivered_er_w.units();
    let q = q_w.units();
    crate::precision::sums_are_close(delivered_hp_w, delivered_er_w);
    condenser_heat_adds_up(weights, q_w, n_nodes);
    lemma_pow2_pos(1074);
    one_is_tame();
    crate::double_laws::order_agrees_with_value(q_w, Double::zero());
    if q_w.same(Double::zero()) {
        assert(power == 0 && q == 0);
    } else if crate::tank::sum(weights).le(Double::zero()) {
        assert(power == q);
    } else {
        let t = total_weight(weights);
        let off = size(power - q);
        let most = size(q) + 24_600 * P46;
        let s = pow2(1074) as int;
        assert(24 * (P46 * (t + s)) <= (24_600 * P46) * t) by (nonlinear_arith)
            requires
                s <= 1024 * t,
                P46 > 0,
                t > 0,
        ;
        assert((off * P46) * t <= most * t) by (nonlinear_arith)
            requires
                off * t * P46 <= size(q) * t + 24 * (P46 * (t + s)),
                24 * (P46 * (t + s)) <= (24_600 * P46) * t,
                most == size(q) + 24_600 * P46,
        ;
        assert(off * P46 <= most) by (nonlinear_arith)
            requires
                (off * P46) * t <= most * t,
                t > 0,
        ;
    }
}

/// What a heat pump reports as the heat that its compressor and its backup element deliver is
/// the heat that its tank gets: the heat in the tank changes by both over the step, by what
/// comes and goes with the water and by what is lost, within rounding.
#[verifier::rlimit(50)]
pub proof fn heat_pump_steps_put_in_their_heat(
    heater: &HeatPumpWH,
    env: &EnvironmentState,
    mode: OperatingMode,
    outside: HpOutside,
    fluid: Seq<FluidAccumulator>,
    dt: Duration,
    asked: Double,
)
    requires
        asks_for(fluid, asked),
        ordinary(heater.state.draw_flow_rate_kg_s),
        ordinary(asked),
        ordinary(outside.water_density_kg_m3),
        0 < outside.water_density_kg_m3.units(),
        heater.state.mains_temp_c.is_finite(),
        ({
            let p = heater.state.performance(outside);
            let both_w = p.delivered_hp_w.plus(p.delivered_er_w);
            let taken = heater.tank@.tempered_draw(
                heater.state.draw_flow_rate_kg_s.over(outside.water_density_kg_m3),
                asked.over(outside.water_density_kg_m3),
                heater.state.mains_temp_c,
                valve(
                    heater.state.fixture_delivery_temp_c,
                    heater.state.tempering_valve_setpoint_c,
                    heater.state.setpoint_c,
                ),
                dt.as_secs(),
            );
            &&& p.delivered_hp_w.is_finite()
            &&& p.delivered_er_w.is_finite()
            &&& both_w.is_finite()
            &&& weights_fit(heater.condenser_node_weights@, both_w, heater.tank@.n())
            &&& 0 <= dt.as_secs().units()
            &&& is_step(
                heater.tank@,
                crate::shared::ambient(env, heater.descriptor.zone),
                taken,
                heater.state.mains_temp_c,
                condenser_injections(
                    heater.condenser_node_weights@,
                    both_w,
                    heater.tank@.n(),
                ),
                dt.as_secs(),
            )
        }),
    ensures
        ({
            let (after, result) = heater.step_tank(env, outside, fluid, dt);
            let figures = heater.step_figures(env, mode, outside, fluid, result->Ok_0);
            let p = figures.performance;
            let both = p.delivered_hp_w.units() + p.delivered_er_w.units();
            let list = condenser_injections(
                heater.condenser_node_weights@,
                p.delivered_hp_w.plus(p.delivered_er_w),
                heater.tank@.n(),
            );
            let ambient_c = crate::shared::ambient(env, heater.descriptor.zone);
            let seconds = dt.as_secs();
            let taken = heater.tank@.tempered_draw(
                heater.state.draw_flow_rate_kg_s.over(outside.water_density_kg_m3),
                asked.over(outside.water_density_kg_m3),
                heater.state.mains_temp_c,
                valve(
                    heater.state.fixture_delivery_temp_c,
                    heater.state.tempering_valve_setpoint_c,
                    heater.state.setpoint_c,
                ),
                seconds,
            );
            let water = drawn_water(
                heater.tank@,
                ambient_c,
                taken,
                heater.state.mains_temp_c,
                list,
                seconds,
            );
            &&& result is Ok
            &&& figures.draw.energy_in_j == water.energy_in_j
            &&& heat_balances(
                heater.tank@,
                after,
                ambient_c,
                water.energy_out_j.units(),
                water.energy_in_j.units(),
                seconds,
                both * seconds.units(),
                step_bound(
                    heater.tank@,
                    ambient_c,
                    taken,
                    heater.state.mains_temp_c,
                    list,
                    seconds,
                ) + 2 * ((2 * size(both) + 24_600 * P46) * seconds.units()),
            )
        }),
{
    let p = heater.state.performance(outside);
    let both_w = p.delivered_hp_w.plus(p.delivered_er_w);
    let both = p.delivered_hp_w.units() + p.delivered_er_w.units();
    let density = outside.water_density_kg_m3;
    let list = condenser_injections(heater.condenser_node_weights@, both_w, heater.tank@.n());
    let seconds = dt.as_secs();
    crate::delivery_laws::lemma_asked(fluid, asked);
    lemma_flow_is_not_negative(heater.state.draw_flow_rate_kg_s, density);
    lemma_flow_is_not_negative(asked, density);
    tempered_steps_balance(
        heater.tank@,
        crate::shared::ambient(env, heater.descriptor.zone),
        heater.state.draw_flow_rate_kg_s.over(density),
        asked.over(density),
        heater.state.mains_temp_c,
        list,
        valve(
            heater.state.fixture_delivery_temp_c,
            heater.state.tempering_valve_setpoint_c,
            heater.state.setpoint_c,
        ),
        seconds,
    );
    condenser_puts_in_both_heats(
        heater.condenser_node_weights@,
        p.delivered_hp_w,
        p.delivered_er_w,
        heater.tank@.n(),
    );
    lemma_injected_total(list, seconds, 0);
    let power = total_power(list, list.len() as int);
    let s = seconds.units();
    let most = 2 * size(both) + 24_600 * P46;
    assert(size(power * s - both * s) * P46 <= most * s) by {
        assert(power * s - both * s == (power - both) * s) by (nonlinear_arith);
        crate::precision::lemma_size_of_product(power - both, s);
        let off = size(power - both);
        assert((off * s) * P46 <= most * s) by (nonlinear_arith)
            requires
                off * P46 <= most,
                s >= 0,
        ;
    }
    assert((power - 0) * s == power * s);
}

/// A heat pump whose tank rests puts all its heat into it: over a step without a draw the heat
/// in the tank rises by what the compressor and the backup element deliver, less what is lost,
/// within rounding.
pub proof fn heat_pumps_heat_a_resting_tank(
    heater: &HeatPumpWH,
    env: &EnvironmentState,
    mode: OperatingMode,
    outside: HpOutside,
    fluid: Seq<FluidAccumulator>,
    dt: Duration,
)
    requires
        asks_for(fluid, Double::zero()),
        heater.state.draw_flow_rate_kg_s == Double::zero(),
        ordinary(outside.water_density_kg_m3),
        0 < outside.water_density_kg_m3.units(),
        is_blend(
            heater.tank@,
            heater.state.mains_temp_c,
            valve(
                heater.state.fixture_delivery_temp_c,
                heater.state.tempering_valve_setpoint_c,
                heater.state.setpoint_c,
            ),
            dt.as_secs(),
        ),
        ({
            let p = heater.state.performance(outside);
            let both_w = p.delivered_hp_w.plus(p.delivered_er_w);
            let taken = heater.tank@.tempered_draw(
                Double::zero().over(outside.water_density_kg_m3),
                Double::zero().over(outside.water_density_kg_m3),
                heater.state.mains_temp_c,
                valve(
                    heater.state.fixture_delivery_temp_c,
                    heater.state.tempering_valve_setpoint_c,
                    heater.state.setpoint_c,
                ),
                dt.as_secs(),
            );
            &&& p.delivered_hp_w.is_finite()
            &&& p.delivered_er_w.is_finite()
            &&& both_w.is_finite()
            &&& weights_fit(heater.condenser_node_weights@, both_w, heater.tank@.n())
            &&& is_step(
                heater.tank@,
                crate::shared::ambient(env, heater.descriptor.zone),
                taken,
                heater.state.mains_temp_c,
                condenser_injections(
                    heater.condenser_node_weights@,
                    both_w,
                    heater.tank@.n(),
                ),
                dt.as_secs(),
            )
        }),
    ensures
        ({
            let (after, result) = heater.step_tank(env, outside, fluid, dt);
            let figures = heater.step_figures(env, mode, outside, fluid, result->Ok_0);
            let p = figures.performance;
            let both = p.delivered_hp_w.units() + p.delivered_er_w.units();
            let list = condenser_injections(
                heater.condenser_node_weights@,
                p.delivered_hp_w.plus(p.delivered_er_w),
                heater.tank@.n(),
            );
            let ambient_c = crate::shared::ambient(env, heater.descriptor.zone);
            let seconds = dt.as_secs();
            let taken = heater.tank@.tempered_draw(
                Double::zero().over(outside.water_density_kg_m3),
                Double::zero().over(outside.water_density_kg_m3),
                heater.state.mains_temp_c,
                valve(
                    heater.state.fixture_delivery_temp_c,
                    heater.state.tempering_valve_setpoint_c,
                    heater.state.setpoint_c,
                ),
                seconds,
            );
            &&& result is Ok
            &&& heat_balances(
                heater.tank@,
                after,
                ambient_c,
                0,
                0,
                seconds,
                both * seconds.units(),
                step_bound(
                    heater.tank@,
                    ambient_c,
                    taken,
                    heater.state.mains_temp_c,
                    list,
                    seconds,
                ) + 2 * ((2 * size(both) + 24_600 * P46) * seconds.units()),
            )
        }),
{
    one_is_tame();
    crate::approx::tame_grows(Double::zero(), 0, 40);
    heat_pump_steps_put_in_their_heat(heater, env, mode, outside, fluid, dt, Double::zero());
    lemma_no_flow(
        heater.tank@,
        outside.water_density_kg_m3,
        heater.state.mains_temp_c,
        valve(
            heater.state.fixture_delivery_temp_c,
            heater.state.tempering_valve_setpoint_c,
            heater.state.setpoint_c,
        ),
        dt.as_secs(),
    );
}

/// A step without flows draws nothing.
proof fn lemma_no_flow(
    tank: TankModel,
    density: Double,
    mains_temp_c: Double,
    tmv: TemperedDrawConfig,
    seconds: Double,
)
    requires
        ordinary(density),
        0 < density.units(),
        is_blend(tank, mains_temp_c, tmv, seconds),
    ensures
        mains_temp_c.is_finite(),
        tank.tempered_draw(
            Double::zero().over(density),
            Double::zero().over(density),
            mains_temp_c,
            tmv,
            seconds,
        ).same(Double::zero()),
{
    let zero = Double::zero();
    one_is_tame();
    crate::approx::tame_grows(zero, 0, 40);
    tame_units(mains_temp_c, 40);
    lemma_volume_flow(zero, density);
    crate::tempered_laws::lemma_taken(
        tank,
        zero.over(density),
        zero.over(density),
        0,
        0,
        density.units(),
        mains_temp_c,
        tmv,
        seconds,
    );
    let (p, q) = water_taken(tank, 0, 0, density.units(), mains_temp_c, tmv, seconds);
    let taken = tank.tempered_draw(
        zero.over(density),
        zero.over(density),
        mains_temp_c,
        tmv,
        seconds,
    );
    lemma_pow2_pos(1074);
    lemma_nothing_taken(tank, density.units(), mains_temp_c, tmv, seconds);
    crate::approx::near_sign(taken, p, q, 7);
    crate::double_laws::order_agrees_with_value(taken, zero);
}

/// No flow takes no water.
proof fn lemma_nothing_taken(
    tank: TankModel,
    per: int,
    mains_temp_c: Double,
    tmv: TemperedDrawConfig,
    seconds: Double,
)
    requires
        0 < per,
        0 < tank.node_temps_c[0].units() - mains_temp_c.units(),
        0 <= tank.total_volume_m3.units(),
    ensures
        water_taken(tank, 0, 0, per, mains_temp_c, tmv, seconds).0 == 0,
{
    let s = seconds.units();
    let d = tank.node_temps_c[0].units() - mains_temp_c.units();
    let t = tank.total_volume_m3.units();
    let c1 = tmv.hot_draw_temp_c.units() - mains_temp_c.units();
    let c2 = tmv.tempered_draw_temp_c.units() - mains_temp_c.units();
    let z: int = 0;
    assert(z * s == 0) by (nonlinear_arith)
        requires
            z == 0,
    ;
    assert((z * s) * c1 == 0 && (z * s) * c2 == 0) by (nonlinear_arith)
        requires
            z * s == 0,
    ;
    let dp = d * per;
    assert(dp > 0) by (nonlinear_arith)
        requires
            dp == d * per,
            d > 0,
            per > 0,
    ;
    assert(z * per == 0 && z * dp == 0) by (nonlinear_arith)
        requires
            z == 0,
    ;
    assert(t * (per * per) >= 0 && t * (dp * dp) >= 0 && t * (dp * per) >= 0 && t * (per * dp)
        >= 0) by (nonlinear_arith)
        requires
            t >= 0,
            per > 0,
            dp > 0,
    ;
}

} // verus!
