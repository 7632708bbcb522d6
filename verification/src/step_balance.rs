//! What a whole step keeps: the heat in the tank changes by what is injected, what comes and
//! goes with the water, and what is lost, but for the last digits.
use vstd::arithmetic::power2::*;
use vstd::prelude::*;

use crate::conservation::{gross_heat, heat, span};
use crate::double::Double;
use crate::draws::{column_temps, is_draw, sizes, total_of, HEAT_OF_WATER};
use crate::heating::{is_conduction, total_flow, total_lost};
use crate::precision::{size, P43, P44, P47, P48};
use crate::rounding::P52;
use crate::tank::{is_positive, TankModel};

verus! {

// ---------------------------------------------------------------------------
// Injections
// ---------------------------------------------------------------------------

/// A tank with one node at another temperature.
pub open spec fn warmed(tank: TankModel, node: int, power_w: Double, seconds: Double) -> TankModel {
    tank.with_temps(
        tank.node_temps_c.update(
            node,
            tank.node_temps_c[node].plus(tank.warming(node, power_w, seconds)),
        ),
    )
}

/// The injections from `from` on find their nodes, and no temperature overflows.
pub open spec fn injections_fit(
    tank: TankModel,
    injections: Seq<(usize, Double)>,
    seconds: Double,
    from: int,
) -> bool
    decreases injections.len() - from,
{
    if !(0 <= from < injections.len()) {
        true
    } else {
        let (node, power_w) = injections[from];
        if power_w.same(Double::zero()) {
            injections_fit(tank, injections, seconds, from + 1)
        } else {
            &&& power_w.is_finite()
            &&& node < tank.n()
            &&& is_positive(tank.node_volumes_m3[node as int])
            &&& tank.node_temps_c[node as int].is_finite()
            &&& crate::tank::water_density().times(tank.node_volumes_m3[node as int]).times(
                crate::tank::water_specific_heat(),
            ).is_finite()
            &&& tank.node_temps_c[node as int].plus(
                tank.warming(node as int, power_w, seconds),
            ).is_finite()
            &&& injections_fit(
                warmed(tank, node as int, power_w, seconds),
                injections,
                seconds,
                from + 1,
            )
        }
    }
}

/// The heat that the injections from `from` on bring.
pub open spec fn injected_heat(
    injections: Seq<(usize, Double)>,
    seconds: Double,
    from: int,
) -> int
    decreases injections.len() - from,
{
    if !(0 <= from < injections.len()) {
        0
    } else {
        let power_w = injections[from].1;
        injected_heat(injections, seconds, from + 1) + power_w.units() * seconds.units()
    }
}

/// What the roundings of the injections from `from` on come to at most, in `2^-47`.
pub open spec fn injection_bound(
    tank: TankModel,
    injections: Seq<(usize, Double)>,
    seconds: Double,
    from: int,
) -> int
    decreases injections.len() - from,
{
    if !(0 <= from < injections.len()) {
        0
    } else {
        let (node, power_w) = injections[from];
        if power_w.same(Double::zero()) {
            injection_bound(tank, injections, seconds, from + 1)
        } else {
            let warmth = HEAT_OF_WATER * tank.node_volumes_m3[node as int].units();
            injection_bound(
                warmed(tank, node as int, power_w, seconds),
                injections,
                seconds,
                from + 1,
            ) + warmth * size(tank.node_temps_c[node as int].units()) + size(
                power_w.units() * seconds.units(),
            ) + P48 * (warmth + pow2(1074))
        }
    }
}

/// One node at another temperature changes the heat of a tank by that node's.
proof fn lemma_heat_update(temps: Seq<Double>, volumes: Seq<Double>, node: int, temp: Double)
    requires
        0 <= node < temps.len(),
    ensures
        heat(temps.update(node, temp), volumes) == heat(temps, volumes) + (temp.units()
            - temps[node].units()) * volumes[node].units(),
    decreases temps.len(),
{
    let n = temps.len() as int;
    let after = temps.update(node, temp);
    if node == n - 1 {
        assert(after.drop_last() =~= temps.drop_last());
        let v = volumes[node].units();
        assert(temp.units() * v == temps[node].units() * v + (temp.units() - temps[node].units())
            * v) by (nonlinear_arith);
    } else {
        assert(after.drop_last() =~= temps.drop_last().update(node, temp));
        lemma_heat_update(temps.drop_last(), volumes, node, temp);
    }
}

/// The injections from `from` on bring their heat, and nothing else changes.
pub(crate) proof fn lemma_injections_balance(
    tank: TankModel,
    injections: Seq<(usize, Double)>,
    seconds: Double,
    from: int,
)
    requires
        injections_fit(tank, injections, seconds, from),
        seconds.is_finite(),
        0 <= from,
    ensures
        ({
            let (after, fault) = tank.injected(injections, seconds, from);
            &&& fault is None
            &&& after.same_shape(tank)
            &&& after.n() == tank.n()
            &&& size(
                HEAT_OF_WATER * (heat(after.node_temps_c, tank.node_volumes_m3) - heat(
                    tank.node_temps_c,
                    tank.node_volumes_m3,
                )) - injected_heat(injections, seconds, from),
            ) * P47 <= injection_bound(tank, injections, seconds, from)
        }),
    decreases injections.len() - from,
{
    if from < injections.len() {
        let (node, power_w) = injections[from];
        if power_w.same(Double::zero()) {
            lemma_injections_balance(tank, injections, seconds, from + 1);
            crate::double_laws::lemma_units_zero();
            assert(power_w.units() == 0);
            assert(0 * seconds.units() == 0);
        } else {
            let node = node as int;
            let next = warmed(tank, node, power_w, seconds);
            let volumes = tank.node_volumes_m3;
            lemma_injections_balance(next, injections, seconds, from + 1);
            crate::heating::injections_bring_their_heat(tank, node, power_w, seconds);
            let temp = tank.node_temps_c[node].plus(tank.warming(node, power_w, seconds));
            lemma_heat_update(tank.node_temps_c, volumes, node, temp);
            let t = tank.node_temps_c[node].units();
            let v = volumes[node].units();
            let rise = temp.units() - t;
            let rv = HEAT_OF_WATER * v;
            assert(rv * rise == HEAT_OF_WATER * (rise * v)) by (nonlinear_arith)
                requires
                    rv == HEAT_OF_WATER * v,
            ;
            let (after, fault) = next.injected(injections, seconds, from + 1);
            assert(after =~= tank.with_temps(after.node_temps_c));
        }
    }
}

// ---------------------------------------------------------------------------
// The whole step
// ---------------------------------------------------------------------------

/// The tank after conduction and injections, before the draw.
pub open spec fn before_draw(
    tank: TankModel,
    ambient_temp_c: Double,
    injections: Seq<(usize, Double)>,
    seconds: Double,
) -> TankModel {
    tank.conducted(ambient_temp_c, seconds).heated(injections, seconds).0
}

/// A step of some time in which nothing overflows.
pub open spec fn is_step(
    tank: TankModel,
    ambient_temp_c: Double,
    draw_volume_m3: Double,
    mains_temp_c: Double,
    injections: Seq<(usize, Double)>,
    seconds: Double,
) -> bool {
    let hot = before_draw(tank, ambient_temp_c, injections, seconds);
    let after = hot.drawn(draw_volume_m3, mains_temp_c);
    let summary = hot.draw_summary(
        draw_volume_m3,
        mains_temp_c,
        tank.node_temps_c[0],
        Double::zero(),
    );
    &&& seconds.is_finite()
    &&& ambient_temp_c.is_finite()
    &&& is_conduction(tank, ambient_temp_c, seconds)
    &&& injections_fit(tank.conducted(ambient_temp_c, seconds), injections, seconds, 0)
    &&& is_draw(hot, draw_volume_m3, mains_temp_c)
    &&& forall|i: int| 0 <= i < after.n() ==> (#[trigger] after.node_temps_c[i]).is_finite()
    &&& summary.energy_out_j.is_finite()
    &&& summary.energy_in_j.is_finite()
    &&& crate::conservation::layers_are_definite(
        crate::mixing::layered(after.node_temps_c, after.node_volumes_m3, after.n()),
    )
}

/// What the roundings of a step come to at most, in `2^-47`: those of conduction, of the
/// injections, of the draw and of mixing.
pub open spec fn step_bound(
    tank: TankModel,
    ambient_temp_c: Double,
    draw_volume_m3: Double,
    mains_temp_c: Double,
    injections: Seq<(usize, Double)>,
    seconds: Double,
) -> int {
    let s = pow2(1074);
    let volumes = tank.node_volumes_m3;
    let volume = span(volumes, 0, tank.n() as int);
    let conducted = tank.conducted(ambient_temp_c, seconds);
    let hot = before_draw(tank, ambient_temp_c, injections, seconds);
    let after = hot.drawn(draw_volume_m3, mains_temp_c);
    let total = tank.total_volume_m3.units();
    let temps = total_of(sizes(column_temps(hot, mains_temp_c)), tank.n() + 1);
    HEAT_OF_WATER * gross_heat(tank.node_temps_c, volumes) + 3 * (s * total_flow(
        tank,
        ambient_temp_c,
        seconds,
        tank.n(),
    )) + P48 * (HEAT_OF_WATER * volume + tank.n() * s) + injection_bound(
        conducted,
        injections,
        seconds,
        0,
    ) + 8 * (HEAT_OF_WATER * (total * temps + P52 * (total + s))) + 512 * (HEAT_OF_WATER * (
    gross_heat(after.node_temps_c, volumes) + P43 * (volume + s)))
}

/// The heat in a tank after a step is what was in it before, and what was injected and came
/// with the mains water, less what left with the water drawn and what was lost to the
/// surroundings, within the roundings of conduction, injections, draw and mixing together.
/// Steps in which something overflows are left out. The heat of the water drawn is that of
/// the water as it was when it was drawn; without injections it is what the step reports.
pub proof fn steps_balance(
    tank: TankModel,
    ambient_temp_c: Double,
    draw_volume_m3: Double,
    mains_temp_c: Double,
    injections: Seq<(usize, Double)>,
    seconds: Double,
)
    requires
        is_step(tank, ambient_temp_c, draw_volume_m3, mains_temp_c, injections, seconds),
    ensures
        ({
            let s = pow2(1074);
            let volumes = tank.node_volumes_m3;
            let hot = before_draw(tank, ambient_temp_c, injections, seconds);
            let (after, result) = tank.stepped(
                ambient_temp_c,
                draw_volume_m3,
                mains_temp_c,
                injections,
                seconds,
            );
            let summary = hot.draw_summary(
                draw_volume_m3,
                mains_temp_c,
                tank.node_temps_c[0],
                Double::zero(),
            );
            let change = HEAT_OF_WATER * (heat(after.node_temps_c, volumes) - heat(
                tank.node_temps_c,
                volumes,
            ));
            let lost = total_lost(tank, ambient_temp_c, seconds, tank.n());
            let drawn = summary.energy_out_j.units() - summary.energy_in_j.units();
            &&& result is Ok
            &&& result->Ok_0.energy_in_j == summary.energy_in_j
            &&& injections.len() == 0 ==> result->Ok_0 == summary
            &&& size(
                change + (lost + drawn) * s - injected_heat(injections, seconds, 0),
            ) * P47 <= step_bound(
                tank,
                ambient_temp_c,
                draw_volume_m3,
                mains_temp_c,
                injections,
                seconds,
            )
        }),
{
    let s = pow2(1074) as int;
    let volumes = tank.node_volumes_m3;
    let conducted = tank.conducted(ambient_temp_c, seconds);
    let hot = before_draw(tank, ambient_temp_c, injections, seconds);
    let after = hot.drawn(draw_volume_m3, mains_temp_c);
    let mixed = after.settled();
    lemma_pow2_pos(1074);
    crate::heating::conduction_moves_heat(tank, ambient_temp_c, seconds);
    lemma_injections_balance(conducted, injections, seconds, 0);
    crate::draws::draws_balance(
        hot,
        draw_volume_m3,
        mains_temp_c,
        tank.node_temps_c[0],
        Double::zero(),
    );
    assert forall|i: int| 0 <= i < volumes.len() implies (#[trigger] volumes[i]).is_finite()
        && volumes[i].gt(Double::zero()) by {
        assert(is_positive(hot.node_volumes_m3[i]));
    }
    crate::conservation::mixing_keeps_heat(after.node_temps_c, volumes);
    let summary = hot.draw_summary(
        draw_volume_m3,
        mains_temp_c,
        tank.node_temps_c[0],
        Double::zero(),
    );
    let lost = total_lost(tank, ambient_temp_c, seconds, tank.n());
    let out = summary.energy_out_j.units();
    let coming = summary.energy_in_j.units();
    assert((lost + (out - coming)) * s == lost * s - (coming - out) * s) by (nonlinear_arith);
    let h0 = heat(tank.node_temps_c, volumes);
    let h1 = heat(conducted.node_temps_c, volumes);
    let h2 = heat(hot.node_temps_c, volumes);
    let h3 = heat(after.node_temps_c, volumes);
    let h4 = heat(mixed.node_temps_c, volumes);
    lemma_step_linear(
        h0,
        h1,
        h2,
        h3,
        h4,
        lost * s,
        injected_heat(injections, seconds, 0),
        (coming - out) * s,
        HEAT_OF_WATER * gross_heat(tank.node_temps_c, volumes) + 3 * (s * total_flow(
            tank,
            ambient_temp_c,
            seconds,
            tank.n(),
        )) + P48 * (HEAT_OF_WATER * span(volumes, 0, tank.n() as int) + tank.n() * s),
        injection_bound(conducted, injections, seconds, 0),
        HEAT_OF_WATER * (tank.total_volume_m3.units() * total_of(
            sizes(column_temps(hot, mains_temp_c)),
            tank.n() + 1,
        ) + P52 * (tank.total_volume_m3.units() + s)),
        gross_heat(after.node_temps_c, volumes) + P43 * (span(volumes, 0, tank.n() as int) + s),
    );
}

proof fn lemma_step_linear(
    h0: int,
    h1: int,
    h2: int,
    h3: int,
    h4: int,
    lost: int,
    injected: int,
    gained: int,
    b1: int,
    b2: int,
    b3: int,
    b4: int,
)
    requires
        size(HEAT_OF_WATER * (h1 - h0) + lost) * P47 <= b1,
        size(HEAT_OF_WATER * (h2 - h1) - injected) * P47 <= b2,
        size(HEAT_OF_WATER * (h3 - h2) - gained) * P44 <= b3,
        size(h4 - h3) * crate::precision::P38 <= b4,
    ensures
        size(HEAT_OF_WATER * (h4 - h0) + lost - gained - injected) * P47 <= b1 + b2 + 8 * b3 + 512
            * (HEAT_OF_WATER * b4),
{
    let e1 = size(HEAT_OF_WATER * (h1 - h0) + lost);
    let e2 = size(HEAT_OF_WATER * (h2 - h1) - injected);
    let e3 = size(HEAT_OF_WATER * (h3 - h2) - gained);
    let e4 = size(h4 - h3);
    assert(size(HEAT_OF_WATER * (h4 - h0) + lost - gained - injected) <= e1 + e2 + e3
        + HEAT_OF_WATER * e4);
}

} // verus!
