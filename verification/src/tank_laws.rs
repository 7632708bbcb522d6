//! What holds of a stratified tank over whole steps.
use vstd::prelude::*;

use crate::double::Double;

use crate::tank::{
    blend_ratio, hot_draw_volume, tempered_draw_volume, unmet_load, TankModel, TemperedDrawConfig,
};

verus! {

proof fn lemma_injected_keeps_shape(
    tank: TankModel,
    injections: Seq<(usize, Double)>,
    seconds: Double,
    from: int,
)
    ensures
        tank.injected(injections, seconds, from).0.same_shape(tank),
        tank.injected(injections, seconds, from).0.n() == tank.n(),
    decreases injections.len() - from,
{
    if 0 <= from < injections.len() {
        let (node, power_w) = injections[from];
        if power_w.same(Double::zero()) {
            lemma_injected_keeps_shape(tank, injections, seconds, from + 1);
        } else if power_w.is_finite() && node < tank.n() {
            let next = tank.with_temps(
                tank.node_temps_c.update(
                    node as int,
                    tank.node_temps_c[node as int].plus(
                        tank.warming(node as int, power_w, seconds),
                    ),
                ),
            );
            lemma_injected_keeps_shape(next, injections, seconds, from + 1);
        }
    }
}

proof fn lemma_advanced_keeps_shape(
    tank: TankModel,
    ambient_temp_c: Double,
    draw_volume_m3: Double,
    mains_temp_c: Double,
    injections: Seq<(usize, Double)>,
    unmet_load_w: Double,
    seconds: Double,
)
    ensures
        ({
            let after = tank.advanced(
                ambient_temp_c,
                draw_volume_m3,
                mains_temp_c,
                injections,
                unmet_load_w,
                seconds,
            );
            &&& after.0.same_shape(tank)
            &&& after.0.n() == tank.n()
            &&& after.1 is Ok ==> crate::mixing::non_increasing(after.0.node_temps_c)
        }),
{
    let conducted = tank.conducted(ambient_temp_c, seconds);
    lemma_injected_keeps_shape(conducted, injections, seconds, 0);
    let (heated, fault) = conducted.heated(injections, seconds);
    let drawn = heated.drawn(draw_volume_m3, mains_temp_c);
    crate::mixing::mixing_removes_inversions(drawn.node_temps_c, drawn.node_volumes_m3);
}

/// A step changes nothing of a tank but its temperatures, and keeps it in order, whether
/// it succeeds or not.
pub proof fn steps_keep_the_tank(
    tank: TankModel,
    ambient_temp_c: Double,
    draw_volume_m3: Double,
    tempered_flow_m3_s: Double,
    hot_flow_m3_s: Double,
    mains_temp_c: Double,
    injections: Seq<(usize, Double)>,
    tmv: TemperedDrawConfig,
    seconds: Double,
)
    requires
        tank.wf(),
    ensures
        ({
            let raw = tank.stepped(
                ambient_temp_c,
                draw_volume_m3,
                mains_temp_c,
                injections,
                seconds,
            ).0;
            raw.same_shape(tank) && raw.wf()
        }),
        ({
            let tempered = tank.stepped_tempered(
                ambient_temp_c,
                tempered_flow_m3_s,
                hot_flow_m3_s,
                mains_temp_c,
                injections,
                tmv,
                seconds,
            ).0;
            tempered.same_shape(tank) && tempered.wf()
        }),
{
    lemma_advanced_keeps_shape(
        tank,
        ambient_temp_c,
        draw_volume_m3,
        mains_temp_c,
        injections,
        Double::zero(),
        seconds,
    );
    lemma_advanced_keeps_shape(
        tank,
        ambient_temp_c,
        tank.tempered_draw(tempered_flow_m3_s, hot_flow_m3_s, mains_temp_c, tmv, seconds),
        mains_temp_c,
        injections,
        unmet_load(tempered_flow_m3_s, tmv, tank.node_temps_c[0]),
        seconds,
    );
}

/// After a step no node is colder than the one below it.
pub proof fn steps_leave_no_inversion(
    tank: TankModel,
    ambient_temp_c: Double,
    draw_volume_m3: Double,
    tempered_flow_m3_s: Double,
    hot_flow_m3_s: Double,
    mains_temp_c: Double,
    injections: Seq<(usize, Double)>,
    tmv: TemperedDrawConfig,
    seconds: Double,
)
    ensures
        ({
            let (after, outcome) = tank.stepped(
                ambient_temp_c,
                draw_volume_m3,
                mains_temp_c,
                injections,
                seconds,
            );
            outcome is Ok ==> crate::mixing::non_increasing(after.node_temps_c)
        }),
        ({
            let (after, outcome) = tank.stepped_tempered(
                ambient_temp_c,
                tempered_flow_m3_s,
                hot_flow_m3_s,
                mains_temp_c,
                injections,
                tmv,
                seconds,
            );
            outcome is Ok ==> crate::mixing::non_increasing(after.node_temps_c)
        }),
{
    lemma_advanced_keeps_shape(
        tank,
        ambient_temp_c,
        draw_volume_m3,
        mains_temp_c,
        injections,
        Double::zero(),
        seconds,
    );
    lemma_advanced_keeps_shape(
        tank,
        ambient_temp_c,
        tank.tempered_draw(tempered_flow_m3_s, hot_flow_m3_s, mains_temp_c, tmv, seconds),
        mains_temp_c,
        injections,
        unmet_load(tempered_flow_m3_s, tmv, tank.node_temps_c[0]),
        seconds,
    );
}

/// Water leaves at the temperature that the top of the tank had before the step: heat
/// that the step injects does not reach it.
pub proof fn outlet_is_the_top_before_the_step(
    tank: TankModel,
    ambient_temp_c: Double,
    draw_volume_m3: Double,
    tempered_flow_m3_s: Double,
    hot_flow_m3_s: Double,
    mains_temp_c: Double,
    injections: Seq<(usize, Double)>,
    tmv: TemperedDrawConfig,
    seconds: Double,
)
    ensures
        tank.stepped(ambient_temp_c, draw_volume_m3, mains_temp_c, injections, seconds).1 matches
            Ok(draw) ==> draw.outlet_temp_c == tank.node_temps_c[0],
        tank.stepped_tempered(
            ambient_temp_c,
            tempered_flow_m3_s,
            hot_flow_m3_s,
            mains_temp_c,
            injections,
            tmv,
            seconds,
        ).1 matches Ok(draw) ==> draw.outlet_temp_c == tank.node_temps_c[0],
{
}

/// The energy that a draw takes away does not depend on the heat that is injected in the
/// same step.
pub proof fn draw_energy_ignores_injected_heat(
    tank: TankModel,
    ambient_temp_c: Double,
    draw_volume_m3: Double,
    mains_temp_c: Double,
    some: Seq<(usize, Double)>,
    other: Seq<(usize, Double)>,
    seconds: Double,
)
    ensures
        ({
            let a = tank.stepped(ambient_temp_c, draw_volume_m3, mains_temp_c, some, seconds).1;
            let b = tank.stepped(ambient_temp_c, draw_volume_m3, mains_temp_c, other, seconds).1;
            a is Ok && b is Ok ==> a->Ok_0 == b->Ok_0
        }),
{
}

/// A raw draw leaves no load unmet.
pub proof fn raw_draws_meet_the_load(
    tank: TankModel,
    ambient_temp_c: Double,
    draw_volume_m3: Double,
    mains_temp_c: Double,
    injections: Seq<(usize, Double)>,
    seconds: Double,
)
    ensures
        tank.stepped(ambient_temp_c, draw_volume_m3, mains_temp_c, injections, seconds).1 matches
            Ok(draw) ==> draw.unmet_load_w == Double::zero(),
{
}

/// A tempered draw leaves no load unmet if it asks for nothing, or if the water that
/// leaves is as warm as it asks.
pub proof fn warm_tanks_meet_the_load(
    tempered_flow_m3_s: Double,
    tmv: TemperedDrawConfig,
    outlet_c: Double,
)
    requires
        tempered_flow_m3_s.times(crate::tank::water_density()).times(
            crate::tank::water_specific_heat(),
        ).is_finite(),
        outlet_c.is_finite(),
        tmv.tempered_draw_temp_c.is_finite(),
        !tempered_flow_m3_s.gt(Double::zero()) || outlet_c.ge(tmv.tempered_draw_temp_c),
    ensures
        unmet_load(tempered_flow_m3_s, tmv, outlet_c).same(Double::zero()),
{
    if outlet_c.ge(tmv.tempered_draw_temp_c) {
        let deficit = tmv.tempered_draw_temp_c.minus(outlet_c);
        crate::double_laws::difference_is_not_positive(tmv.tempered_draw_temp_c, outlet_c);
        crate::double_laws::times_zero(
            tempered_flow_m3_s.times(crate::tank::water_density()).times(
                crate::tank::water_specific_heat(),
            ),
            deficit.max(Double::zero()),
        );
    }
}

/// The valve never takes more from the tank than was asked for.
pub proof fn blending_takes_no_more(
    flow_m3_s: Double,
    tmv: TemperedDrawConfig,
    outlet_c: Double,
    mains_c: Double,
    seconds: Double,
)
    requires
        flow_m3_s.times(seconds).is_finite(),
        flow_m3_s.times(seconds).ge(Double::zero()),
        outlet_c.is_finite(),
        mains_c.is_finite(),
        tmv.hot_draw_temp_c.is_finite(),
        tmv.tempered_draw_temp_c.is_finite(),
        tmv.hot_draw_temp_c.minus(mains_c).is_finite(),
        tmv.tempered_draw_temp_c.minus(mains_c).is_finite(),
    ensures
        hot_draw_volume(flow_m3_s, tmv, outlet_c, mains_c, seconds).le(flow_m3_s.times(seconds)),
        tempered_draw_volume(flow_m3_s, tmv, outlet_c, mains_c, seconds).le(
            flow_m3_s.times(seconds),
        ),
{
    lemma_blend_is_a_share(tmv.hot_draw_temp_c, outlet_c, mains_c);
    lemma_blend_is_a_share(tmv.tempered_draw_temp_c, outlet_c, mains_c);
    crate::double_laws::share_is_no_more(
        flow_m3_s.times(seconds),
        blend_ratio(tmv.hot_draw_temp_c, outlet_c, mains_c),
    );
    crate::double_laws::share_is_no_more(
        flow_m3_s.times(seconds),
        blend_ratio(tmv.tempered_draw_temp_c, outlet_c, mains_c),
    );
}

proof fn lemma_blend_is_a_share(target_c: Double, outlet_c: Double, mains_c: Double)
    requires
        target_c.minus(mains_c).is_finite(),
    ensures
        blend_ratio(target_c, outlet_c, mains_c).ge(Double::zero()),
        blend_ratio(target_c, outlet_c, mains_c).le(Double::one()),
{
    let floor = Double::ratio(1, 1_000_000_000);
    crate::double_laws::ratio_is_moderate(1, 1_000_000_000);
    crate::double_laws::bounded_is_positive(floor, 53);
    let divisor = outlet_c.minus(mains_c).max(floor);
    assert(!divisor.is_nan() && divisor.mag() > 0);
    reveal(Double::spec_over);
}

/// What a tempered draw takes is never more than the tank holds.
pub proof fn draws_fit_the_tank(
    tank: TankModel,
    tempered_flow_m3_s: Double,
    hot_flow_m3_s: Double,
    mains_temp_c: Double,
    tmv: TemperedDrawConfig,
    seconds: Double,
)
    requires
        tank.wf(),
    ensures
        tank.tempered_draw(
            tempered_flow_m3_s,
            hot_flow_m3_s,
            mains_temp_c,
            tmv,
            seconds,
        ).le(tank.total_volume_m3),
{
}

/// In no time, without a draw, a tank whose nodes are in order stays as it is.
pub proof fn nothing_happens_in_no_time(
    tank: TankModel,
    ambient_temp_c: Double,
    mains_temp_c: Double,
    injections: Seq<(usize, Double)>,
)
    requires
        tank.wf(),
        ambient_temp_c.is_finite(),
        mains_temp_c.is_finite(),
        crate::mixing::stratified(tank.node_temps_c),
    ensures
        tank.stepped(
            ambient_temp_c,
            Double::zero(),
            mains_temp_c,
            injections,
            Double::zero(),
        ).0 == tank,
{
    crate::mixing::mixing_keeps_stratified(tank.node_temps_c, tank.node_volumes_m3);
}

/// A tank takes back the temperatures that it saved, and is then as it was.
pub proof fn tank_round_trip(tank: TankModel)
    requires
        forall|i: int| 0 <= i < tank.n() ==> (#[trigger] tank.node_temps_c[i]).is_finite(),
    ensures
        crate::tank::load_outcome(tank, tank.node_temps_c) == Ok::<(), crate::error::HaresError>(
            (),
        ),
        tank.with_temps(tank.node_temps_c) == tank,
{
    lemma_finite_temps_have_no_fault(tank.node_temps_c, 0);
}

proof fn lemma_finite_temps_have_no_fault(temps: Seq<Double>, from: int)
    requires
        forall|i: int| 0 <= i < temps.len() ==> (#[trigger] temps[i]).is_finite(),
    ensures
        crate::tank::temp_fault(temps, from) is None,
    decreases temps.len() - from,
{
    if 0 <= from < temps.len() {
        lemma_finite_temps_have_no_fault(temps, from + 1);
    }
}

} // verus!
