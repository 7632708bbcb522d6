//! What heat does that is injected into a tank, conducted in it or lost by it: it warms or
//! cools the nodes by as much as it holds, but for the last digits.
use vstd::arithmetic::power2::*;
use vstd::prelude::*;

use crate::conservation::{gross_heat, heat, span};
use crate::double::Double;
use crate::draws::HEAT_OF_WATER;
use crate::precision::{size, P47, P48};
use crate::rounding::{P52, P53};
use crate::tank::{is_positive, TankModel};

verus! {

/// The thermal mass of a node is close to its volume times the heat of water.
proof fn lemma_thermal_mass(volume: Double)
    requires
        is_positive(volume),
        crate::tank::water_density().times(volume).times(
            crate::tank::water_specific_heat(),
        ).is_finite(),
    ensures
        ({
            let mass = crate::tank::water_density().times(volume).times(
                crate::tank::water_specific_heat(),
            );
            &&& size(mass.units() - HEAT_OF_WATER * volume.units()) * P53 <= 3 * (HEAT_OF_WATER
                * volume.units())
            &&& mass.gt(Double::zero())
            &&& volume.units() > 0
        }),
{
    let kg = crate::tank::water_density().times(volume);
    let c = crate::tank::water_specific_heat();
    let mass = kg.times(c);
    crate::double_laws::lemma_units_zero();
    crate::double_laws::order_agrees_with_value(Double::zero(), volume);
    crate::double_laws::lemma_product_of_finite(kg, c);
    crate::precision::multiples_are_close(1000, volume);
    assert(kg.times(c) == c.times(kg)) by {
        reveal(Double::spec_times);
        vstd::arithmetic::mul::lemma_mul_is_commutative(
            crate::rounding::mag_units(kg.mag()) as int,
            crate::rounding::mag_units(c.mag()) as int,
        );
    }
    crate::precision::multiples_are_close(4183, kg);
    assert(mass.units() > 0);
    crate::double_laws::order_agrees_with_value(Double::zero(), mass);
}

/// What the roundings of an injection add up to.
proof fn lemma_injection_linear(
    off: int,
    by_sum: int,
    by_mass: int,
    by_quotient: int,
    by_product: int,
    held: int,
    warm: int,
    quotient: int,
    product: int,
    energy: int,
    m: int,
    rv: int,
    s: int,
)
    requires
        off <= by_sum + by_mass + by_quotient + by_product,
        by_sum * P53 <= held + warm,
        by_mass * P53 <= 3 * warm,
        by_quotient * P53 <= product + m * P52,
        by_product * P53 <= energy + s * P52,
        warm <= 2 * quotient,
        quotient <= product + by_quotient,
        product <= energy + by_product,
        0 <= m <= 2 * rv,
        0 <= held,
        0 <= energy,
        0 <= product,
        0 < s,
    ensures
        off * P47 <= held + energy + P48 * (rv + s),
{
    assert(product <= 2 * energy + s);
    assert(quotient <= 2 * product + m);
}

/// Heat that is injected into a node warms its water by as much as it holds: it is off by
/// one part in `2^47` of the heat in the node and the heat injected, and by `2^-1073` times
/// what warms the node by one degree and one. A node so large that its thermal mass
/// overflows is left out, and so is heat that would take its temperature beyond all numbers.
#[verifier::rlimit(40)]
pub proof fn injections_bring_their_heat(
    tank: TankModel,
    node: int,
    power_w: Double,
    seconds: Double,
)
    requires
        0 <= node < tank.n(),
        is_positive(tank.node_volumes_m3[node]),
        tank.node_temps_c[node].is_finite(),
        power_w.is_finite(),
        seconds.is_finite(),
        crate::tank::water_density().times(tank.node_volumes_m3[node]).times(
            crate::tank::water_specific_heat(),
        ).is_finite(),
        tank.node_temps_c[node].plus(tank.warming(node, power_w, seconds)).is_finite(),
    ensures
        ({
            let before = tank.node_temps_c[node].units();
            let after = tank.node_temps_c[node].plus(
                tank.warming(node, power_w, seconds),
            ).units();
            let warmth = HEAT_OF_WATER * tank.node_volumes_m3[node].units();
            let energy = power_w.units() * seconds.units();
            size(warmth * (after - before) - energy) * P47 <= warmth * size(before)
                + size(energy) + P48 * (warmth + pow2(1074))
        }),
{
    let s = pow2(1074) as int;
    let volume = tank.node_volumes_m3[node];
    let temp = tank.node_temps_c[node];
    let mass = crate::tank::water_density().times(volume).times(crate::tank::water_specific_heat());
    let joules = power_w.times(seconds);
    let rise = joules.over(mass);
    lemma_pow2_pos(1074);
    lemma_thermal_mass(volume);
    crate::double_laws::lemma_sum_of_finite(temp, rise);
    crate::double_laws::lemma_quotient_of_finite(joules, mass);
    crate::precision::products_are_close(power_w, seconds);
    crate::precision::quotients_are_close(joules, mass);
    crate::precision::sums_are_close(temp, rise);
    lemma_injection(
        temp.units(),
        temp.plus(rise).units(),
        rise.units(),
        mass.units(),
        HEAT_OF_WATER * volume.units(),
        joules.units(),
        power_w.units() * seconds.units(),
        s,
    );
}

#[verifier::rlimit(40)]
proof fn lemma_injection(
    t: int,
    t2: int,
    q: int,
    m: int,
    rv: int,
    w: int,
    energy: int,
    s: int,
)
    requires
        0 < s,
        0 < m,
        0 < rv,
        size(m - rv) * P53 <= 3 * rv,
        size(w * s - energy) * P53 <= size(energy) + s * P52,
        size(q * m - w * s) * P53 <= size(w) * s + m * P52,
        size(t2 - (t + q)) * P53 <= size(t + q),
    ensures
        size(rv * (t2 - t) - energy) * P47 <= rv * size(t) + size(energy)
            + P48 * (rv + s),
{
    let sum = t2 - (t + q);
    crate::precision::lemma_size_of_product(rv, sum);
    crate::precision::lemma_size_of_product(rv, q);
    crate::precision::lemma_size_of_product(m, q);
    crate::precision::lemma_size_of_product(rv - m, q);
    crate::precision::lemma_size_of_product(w, s);
    assert(rv * (t2 - t) == rv * sum + rv * q) by (nonlinear_arith)
        requires
            sum == t2 - (t + q),
    ;
    assert(rv * q == (rv - m) * q + m * q && m * q == q * m) by (nonlinear_arith);
    assert(size(rv * sum) * P53 <= rv * size(t) + rv * size(q)) by (nonlinear_arith)
        requires
            size(rv * sum) == rv * size(sum),
            size(sum) * P53 <= size(t) + size(q),
            rv > 0,
    ;
    assert(size((rv - m) * q) * P53 <= 3 * (rv * size(q))) by (nonlinear_arith)
        requires
            size((rv - m) * q) == size(rv - m) * size(q),
            size(rv - m) * P53 <= 3 * rv,
            size(q) >= 0,
    ;
    assert(rv * size(q) <= 2 * (m * size(q))) by (nonlinear_arith)
        requires
            rv <= 2 * m,
            size(q) >= 0,
    ;
    assert(rv * size(t) >= 0) by (nonlinear_arith)
        requires
            rv > 0,
            size(t) >= 0,
    ;
    lemma_injection_linear(
        size(rv * (t2 - t) - energy),
        size(rv * sum),
        size((rv - m) * q),
        size(q * m - w * s),
        size(w * s - energy),
        rv * size(t),
        rv * size(q),
        m * size(q),
        size(w * s),
        size(energy),
        m,
        rv,
        s,
    );
}

// ---------------------------------------------------------------------------
// Conduction and losses
// ---------------------------------------------------------------------------

/// The heat that node `i` gets from the node below it; the lowest gets none.
pub open spec fn from_below(tank: TankModel, i: int, seconds: Double) -> int {
    if 0 <= i < tank.n() - 1 {
        tank.transfer(i, seconds).units()
    } else {
        0
    }
}

/// The heat that node `i` loses to the surroundings.
pub open spec fn lost(tank: TankModel, i: int, ambient_temp_c: Double, seconds: Double) -> int {
    tank.ua_per_node[i].times(tank.node_temps_c[i].minus(ambient_temp_c)).times(seconds).units()
}

/// The heat that the first `m` nodes lose to the surroundings.
pub open spec fn total_lost(
    tank: TankModel,
    ambient_temp_c: Double,
    seconds: Double,
    m: nat,
) -> int
    decreases m,
{
    if m == 0 {
        0
    } else {
        total_lost(tank, ambient_temp_c, seconds, (m - 1) as nat) + lost(
            tank,
            m - 1,
            ambient_temp_c,
            seconds,
        )
    }
}

/// The sum of the sizes of the heats that flow into or out of each of the first `m` nodes.
pub open spec fn total_flow(
    tank: TankModel,
    ambient_temp_c: Double,
    seconds: Double,
    m: nat,
) -> int
    decreases m,
{
    if m == 0 {
        0
    } else {
        total_flow(tank, ambient_temp_c, seconds, (m - 1) as nat) + size(
            from_below(tank, m - 2, seconds),
        ) + size(from_below(tank, m - 1, seconds)) + size(
            lost(tank, m - 1, ambient_temp_c, seconds),
        )
    }
}

/// Conduction over some time in a tank that neither is empty nor overflows.
pub open spec fn is_conduction(tank: TankModel, ambient_temp_c: Double, seconds: Double) -> bool {
    &&& tank.wf()
    &&& !seconds.same(Double::zero())
    &&& forall|i: int|
        0 <= i < tank.n() ==> {
            &&& is_positive(#[trigger] tank.node_volumes_m3[i])
            &&& crate::tank::water_density().times(tank.node_volumes_m3[i]).times(
                crate::tank::water_specific_heat(),
            ).is_finite()
        }
    &&& forall|i: int| 0 <= i < tank.n() ==> (#[trigger] tank.node_temps_c[i]).is_finite()
    &&& forall|i: int|
        0 <= i < tank.n() ==> (#[trigger] tank.conducted(
            ambient_temp_c,
            seconds,
        ).node_temps_c[i]).is_finite()
}

/// The gain of a node is close to what flows into it less what flows out.
proof fn lemma_gain_is_close(tank: TankModel, i: int, ambient_temp_c: Double, seconds: Double)
    requires
        tank.wf(),
        0 <= i < tank.n(),
        tank.gain(i, ambient_temp_c, seconds).is_finite(),
    ensures
        ({
            let up = from_below(tank, i - 1, seconds);
            let below = from_below(tank, i, seconds);
            let loss = lost(tank, i, ambient_temp_c, seconds);
            size(tank.gain(i, ambient_temp_c, seconds).units() - (below - up - loss)) * P53 <= 8 * (
            size(up) + size(below) + size(loss))
        }),
{
    let zero = Double::zero();
    let up = tank.transfer(i - 1, seconds);
    let below = tank.transfer(i, seconds);
    let given = if i > 0 {
        zero.minus(up)
    } else {
        zero
    };
    let kept = if i < tank.n() - 1 {
        given.plus(below)
    } else {
        given
    };
    let loss = tank.ua_per_node[i].times(tank.node_temps_c[i].minus(ambient_temp_c)).times(seconds);
    crate::double_laws::lemma_units_zero();
    crate::precision::differences_are_close(kept, loss);
    if i < tank.n() - 1 {
        crate::double_laws::lemma_sum_of_finite(given, below);
        crate::precision::sums_are_close(given, below);
    }
    if i > 0 {
        crate::precision::differences_are_close(zero, up);
    }
    lemma_gain_linear(
        tank.gain(i, ambient_temp_c, seconds).units(),
        kept.units(),
        given.units(),
        from_below(tank, i - 1, seconds),
        from_below(tank, i, seconds),
        loss.units(),
    );
}

proof fn lemma_gain_linear(g: int, kept: int, given: int, up: int, below: int, loss: int)
    requires
        size(g - (kept - loss)) * P53 <= size(kept - loss),
        size(kept - (given + below)) * P53 <= size(given + below),
        size(given + up) * P53 <= size(up),
    ensures
        size(g - (below - up - loss)) * P53 <= 8 * (size(up) + size(below) + size(loss)),
{
    assert(size(given) <= 2 * size(up));
    assert(size(kept) <= 2 * (size(given) + size(below)));
}

/// What a node gains is what flows into it less what flows out.
#[verifier::rlimit(40)]
pub(crate) proof fn lemma_node_conduction(tank: TankModel, ambient_temp_c: Double, seconds: Double, i: int)
    requires
        is_conduction(tank, ambient_temp_c, seconds),
        0 <= i < tank.n(),
    ensures
        ({
            let s = pow2(1074);
            let v = tank.node_volumes_m3[i].units();
            let before = tank.node_temps_c[i].units();
            let after = tank.conducted(ambient_temp_c, seconds).node_temps_c[i].units();
            let up = from_below(tank, i - 1, seconds);
            let below = from_below(tank, i, seconds);
            let loss = lost(tank, i, ambient_temp_c, seconds);
            size(HEAT_OF_WATER * (after * v - before * v) - (below - up - loss) * s)
                * P47 <= HEAT_OF_WATER * (size(before) * v) + 3 * (s * (size(up)
                + size(below) + size(loss))) + P48 * (HEAT_OF_WATER * v + s)
        }),
{
    let s = pow2(1074) as int;
    lemma_pow2_pos(1074);
    let volume = tank.node_volumes_m3[i];
    let temp = tank.node_temps_c[i];
    let after = tank.conducted(ambient_temp_c, seconds).node_temps_c[i];
    let gain = tank.gain(i, ambient_temp_c, seconds);
    let mass = crate::tank::water_density().times(volume).times(crate::tank::water_specific_heat());
    let rise = gain.over(mass);
    assert(is_positive(volume));
    assert(after == temp.plus(rise));
    lemma_thermal_mass(volume);
    crate::double_laws::lemma_sum_of_finite(temp, rise);
    crate::double_laws::lemma_quotient_of_finite(gain, mass);
    lemma_gain_is_close(tank, i, ambient_temp_c, seconds);
    crate::precision::quotients_are_close(gain, mass);
    crate::precision::sums_are_close(temp, rise);
    let g = gain.units();
    lemma_injection(
        temp.units(),
        after.units(),
        rise.units(),
        mass.units(),
        HEAT_OF_WATER * volume.units(),
        g,
        g * s,
        s,
    );
    lemma_flow(
        temp.units(),
        after.units(),
        volume.units(),
        g,
        from_below(tank, i, seconds) - from_below(tank, i - 1, seconds) - lost(
            tank,
            i,
            ambient_temp_c,
            seconds,
        ),
        size(from_below(tank, i - 1, seconds)) + size(from_below(tank, i, seconds)) + size(
            lost(tank, i, ambient_temp_c, seconds),
        ),
        s,
    );
}

proof fn lemma_flow(t: int, t2: int, v: int, g: int, x: int, a: int, s: int)
    requires
        0 < s,
        size(x) <= a,
        size(g - x) * P53 <= 8 * a,
        size((HEAT_OF_WATER * v) * (t2 - t) - g * s) * P47 <= (HEAT_OF_WATER * v)
            * size(t) + size(g * s) + P48 * (HEAT_OF_WATER * v + s),
    ensures
        size(HEAT_OF_WATER * (t2 * v - t * v) - x * s) * P47 <= HEAT_OF_WATER * (size(
            t,
        ) * v) + 3 * (s * a) + P48 * (HEAT_OF_WATER * v + s),
{
    let rv = HEAT_OF_WATER * v;
    crate::precision::lemma_size_of_product(g, s);
    crate::precision::lemma_size_of_product(g - x, s);
    assert((g - x) * s == g * s - x * s) by (nonlinear_arith);
    assert(size((g - x) * s) * P53 <= 8 * (s * a)) by (nonlinear_arith)
        requires
            size((g - x) * s) == size(g - x) * s,
            size(g - x) * P53 <= 8 * a,
            s > 0,
    ;
    assert(size(g) * s <= 2 * (s * a)) by (nonlinear_arith)
        requires
            size(g) <= 2 * a,
            s > 0,
    ;
    assert(0 <= s * a) by (nonlinear_arith)
        requires
            0 <= a,
            s > 0,
    ;
    assert(rv * (t2 - t) == HEAT_OF_WATER * (t2 * v - t * v)) by (nonlinear_arith)
        requires
            rv == HEAT_OF_WATER * v,
    ;
    assert(rv * size(t) == HEAT_OF_WATER * (size(t) * v)) by (nonlinear_arith)
        requires
            rv == HEAT_OF_WATER * v,
    ;
}

/// What the first `m` nodes gain is what flows into the last of them from below, less what
/// they lose.
#[verifier::rlimit(40)]
proof fn lemma_conduction(tank: TankModel, ambient_temp_c: Double, seconds: Double, m: nat)
    requires
        is_conduction(tank, ambient_temp_c, seconds),
        m <= tank.n(),
    ensures
        ({
            let s = pow2(1074);
            let volumes = tank.node_volumes_m3;
            let before = tank.node_temps_c.take(m as int);
            let after = tank.conducted(ambient_temp_c, seconds).node_temps_c.take(m as int);
            let gain = from_below(tank, m - 1, seconds) - total_lost(
                tank,
                ambient_temp_c,
                seconds,
                m,
            );
            size(HEAT_OF_WATER * (heat(after, volumes) - heat(before, volumes)) - gain * s)
                * P47 <= HEAT_OF_WATER * gross_heat(before, volumes) + 3 * (s
                * total_flow(tank, ambient_temp_c, seconds, m)) + P48 * (
            HEAT_OF_WATER * span(volumes, 0, m as int) + m * s)
        }),
    decreases m,
{
    let s = pow2(1074) as int;
    lemma_pow2_pos(1074);
    if m == 0 {
        assert(0 * s == 0 && s * 0 == 0);
    } else {
        let i = m - 1;
        let all = tank.conducted(ambient_temp_c, seconds).node_temps_c;
        let before = tank.node_temps_c.take(m as int);
        let after = all.take(m as int);
        lemma_conduction(tank, ambient_temp_c, seconds, i as nat);
        lemma_node_conduction(tank, ambient_temp_c, seconds, i);
        assert(before.drop_last() =~= tank.node_temps_c.take(i));
        assert(after.drop_last() =~= all.take(i));
        assert(before.last() == tank.node_temps_c[i]);
        assert(after.last() == all[i]);
        let up = from_below(tank, i - 1, seconds);
        let below = from_below(tank, i, seconds);
        let loss = lost(tank, i, ambient_temp_c, seconds);
        let x = below - up - loss;
        let a = size(up) + size(below) + size(loss);
        let gain0 = up - total_lost(tank, ambient_temp_c, seconds, i as nat);
        let gain1 = below - total_lost(tank, ambient_temp_c, seconds, m);
        assert(gain1 == gain0 + x);
        assert(gain1 * s == gain0 * s + x * s) by (nonlinear_arith)
            requires
                gain1 == gain0 + x,
        ;
        let flow0 = total_flow(tank, ambient_temp_c, seconds, i as nat);
        vstd::arithmetic::mul::lemma_mul_is_distributive_add(s, flow0, a);
        assert(m * s == i * s + s) by (nonlinear_arith)
            requires
                i == m - 1,
        ;
    }
}

/// Conduction moves heat between the nodes, and only what is lost to the surroundings leaves
/// the tank: it is off by one part in `2^47` of the heat in the tank and three of all that
/// flows, and by `2^-1073` times what warms the tank by one degree and one for each node.
/// Volumes, temperatures and times so large that they overflow are left out.
pub proof fn conduction_moves_heat(tank: TankModel, ambient_temp_c: Double, seconds: Double)
    requires
        is_conduction(tank, ambient_temp_c, seconds),
    ensures
        ({
            let s = pow2(1074);
            let volumes = tank.node_volumes_m3;
            let before = tank.node_temps_c;
            let after = tank.conducted(ambient_temp_c, seconds).node_temps_c;
            let loss = total_lost(tank, ambient_temp_c, seconds, tank.n());
            size(HEAT_OF_WATER * (heat(after, volumes) - heat(before, volumes)) + loss * s)
                * P47 <= HEAT_OF_WATER * gross_heat(before, volumes) + 3 * (s
                * total_flow(tank, ambient_temp_c, seconds, tank.n())) + P48 * (
            HEAT_OF_WATER * span(volumes, 0, tank.n() as int) + tank.n() * s)
        }),
{
    let n = tank.n();
    let s = pow2(1074) as int;
    let loss = total_lost(tank, ambient_temp_c, seconds, n);
    lemma_conduction(tank, ambient_temp_c, seconds, n);
    let after = tank.conducted(ambient_temp_c, seconds).node_temps_c;
    assert(tank.node_temps_c.take(n as int) =~= tank.node_temps_c);
    assert(after.take(n as int) =~= after);
    assert((0 - loss) * s == -(loss * s)) by (nonlinear_arith);
}

// ---------------------------------------------------------------------------
// Rest
// ---------------------------------------------------------------------------

/// Zero over a positive number is a zero.
pub(crate) proof fn lemma_zero_over(zero: Double, y: Double)
    requires
        zero.mag() == 0,
        is_positive(y),
    ensures
        zero.over(y).mag() == 0,
{
    reveal(Double::spec_over);
    crate::double_laws::lemma_units_zero();
    crate::magnitude::lemma_mag_units_increase(0, y.mag());
    assert(0 * pow2(1074) == 0);
    crate::magnitude::lemma_round_mag_zero(crate::rounding::mag_units(y.mag()));
    crate::double_laws::lemma_signed_mag(0);
}

/// A finite number less itself is a zero.
proof fn lemma_less_itself(x: Double)
    requires
        x.is_finite(),
    ensures
        x.minus(x).mag() == 0,
{
    reveal(Double::spec_plus);
    crate::double_laws::lemma_signed_mag(x.mag());
    crate::double_laws::lemma_signed_mag(0);
    assert(x.negate().units() == -x.units());
}

/// Nothing flows between the nodes and nothing is lost.
pub open spec fn is_at_rest(tank: TankModel, ambient_temp_c: Double, seconds: Double) -> bool {
    &&& forall|i: int|
        #![trigger tank.transfer(i, seconds)]
        0 <= i < tank.n() - 1 ==> tank.transfer(i, seconds).mag() == 0
    &&& forall|i: int|
        #![trigger tank.ua_per_node[i]]
        0 <= i < tank.n() ==> tank.ua_per_node[i].times(
            tank.node_temps_c[i].minus(ambient_temp_c),
        ).times(seconds).mag() == 0
}

/// A tank in which nothing flows keeps the temperature of every node.
pub(crate) proof fn lemma_rest_keeps_temps(
    tank: TankModel,
    ambient_temp_c: Double,
    seconds: Double,
)
    requires
        tank.wf(),
        is_at_rest(tank, ambient_temp_c, seconds),
        forall|i: int|
            0 <= i < tank.n() ==> (#[trigger] tank.node_temps_c[i]).is_finite() && is_positive(
                crate::tank::water_density().times(tank.node_volumes_m3[i]).times(
                    crate::tank::water_specific_heat(),
                ),
            ),
    ensures
        forall|i: int|
            #![trigger tank.conducted(ambient_temp_c, seconds).node_temps_c[i]]
            0 <= i < tank.n() ==> tank.conducted(ambient_temp_c, seconds).node_temps_c[i].same(
                tank.node_temps_c[i],
            ) && tank.conducted(ambient_temp_c, seconds).node_temps_c[i].is_finite(),
{
    let after = tank.conducted(ambient_temp_c, seconds).node_temps_c;
    assert forall|i: int| #![trigger after[i]] 0 <= i < tank.n() implies after[i].same(
        tank.node_temps_c[i],
    ) && after[i].is_finite() by {
        let temp = tank.node_temps_c[i];
        if !seconds.same(Double::zero()) {
            let zero = Double::zero();
            let up = tank.transfer(i - 1, seconds);
            let below = tank.transfer(i, seconds);
            let given = if i > 0 {
                zero.minus(up)
            } else {
                zero
            };
            let kept = if i < tank.n() - 1 {
                given.plus(below)
            } else {
                given
            };
            let loss = tank.ua_per_node[i].times(temp.minus(ambient_temp_c)).times(seconds);
            let mass = crate::tank::water_density().times(tank.node_volumes_m3[i]).times(
                crate::tank::water_specific_heat(),
            );
            if i > 0 {
                crate::double_laws::lemma_signed_mag(up.mag());
                crate::double_laws::sum_of_zeros(zero, up.negate());
            }
            if i < tank.n() - 1 {
                crate::double_laws::sum_of_zeros(given, below);
            }
            crate::double_laws::lemma_signed_mag(loss.mag());
            crate::double_laws::sum_of_zeros(kept, loss.negate());
            let gain = tank.gain(i, ambient_temp_c, seconds);
            assert(gain == kept.minus(loss));
            lemma_zero_over(gain, mass);
            let rise = gain.over(mass);
            assert(after[i] == temp.plus(rise));
            if temp.mag() > 0 {
                crate::double_laws::plus_zero(rise, temp);
            } else {
                crate::double_laws::sum_of_zeros(temp, rise);
            }
        }
    }
}

/// A tank whose water is all as warm as its surroundings stays as it is.
pub proof fn tanks_at_ambient_stay(tank: TankModel, ambient_temp_c: Double, seconds: Double)
    requires
        tank.wf(),
        ambient_temp_c.is_finite(),
        seconds.is_finite(),
        tank.conductivity_w_m_k.times(tank.cross_section_area_m2).over(
            tank.node_height_m,
        ).is_finite(),
        forall|i: int|
            0 <= i < tank.n() ==> #[trigger] tank.node_temps_c[i] == ambient_temp_c && is_positive(
                crate::tank::water_density().times(tank.node_volumes_m3[i]).times(
                    crate::tank::water_specific_heat(),
                ),
            ),
        forall|i: int| 0 <= i < tank.n() ==> (#[trigger] tank.ua_per_node[i]).is_finite(),
    ensures
        forall|i: int|
            0 <= i < tank.n() ==> (#[trigger] tank.conducted(
                ambient_temp_c,
                seconds,
            ).node_temps_c[i]).same(tank.node_temps_c[i]),
{
    let flow = tank.conductivity_w_m_k.times(tank.cross_section_area_m2).over(tank.node_height_m);
    let zero = ambient_temp_c.minus(ambient_temp_c);
    lemma_less_itself(ambient_temp_c);
    assert forall|i: int|
        #![trigger tank.transfer(i, seconds)]
        0 <= i < tank.n() - 1 implies tank.transfer(i, seconds).mag() == 0 by {
        assert(tank.node_temps_c[i] == ambient_temp_c);
        assert(tank.node_temps_c[i + 1] == ambient_temp_c);
        crate::double_laws::times_zero(flow, zero);
        crate::double_laws::zero_times(flow.times(zero), seconds);
    }
    assert forall|i: int|
        #![trigger tank.ua_per_node[i]]
        0 <= i < tank.n() implies tank.ua_per_node[i].times(
        tank.node_temps_c[i].minus(ambient_temp_c),
    ).times(seconds).mag() == 0 by {
        assert(tank.node_temps_c[i] == ambient_temp_c);
        crate::double_laws::times_zero(tank.ua_per_node[i], zero);
        crate::double_laws::zero_times(tank.ua_per_node[i].times(zero), seconds);
    }
    assert forall|i: int|
        0 <= i < tank.n() implies (#[trigger] tank.node_temps_c[i]).is_finite() by {
        assert(tank.node_temps_c[i] == ambient_temp_c);
    }
    lemma_rest_keeps_temps(tank, ambient_temp_c, seconds);
}

} // verus!
