//! Laws of the nodes of a tank: how heat flows between them, what each loses, and what they
//! share of the tank.
use vstd::arithmetic::power2::*;
use vstd::prelude::*;

use crate::approx::{
    near, near_grows, near_itself, near_over, near_plus, near_rescaled, near_times, one_is_tame,
    parts_grow, parts_of_near, parts_over, parts_plus, ratio_is_tame, tame, tame_grows, tame_minus,
    tame_plus, tame_units, whole_is_tame, within_parts,
};
use crate::conservation::{gross_heat, heat};
use crate::control_laws::{ordinary, over_more, times_more};
use crate::double::Double;
use crate::draws::HEAT_OF_WATER;
use crate::heating::is_conduction;
use crate::precision::{size, P47, P48};
use crate::products::{about, about_itself};
use crate::rounding::P53;
use crate::tank::{StratifiedTankConfig, TankModel};

verus! {

// ---------------------------------------------------------------------------
// Conduction
// ---------------------------------------------------------------------------

/// The heat that flows from a node to the one above it goes by the conductivity, the cross
/// section, how much warmer the lower node is and the time, over the height of a node: from
/// the warmer to the colder.
pub proof fn heat_flows_from_warm_to_cold(tank: TankModel, i: int, seconds: Double)
    requires
        0 <= i < tank.n() - 1,
        ordinary(tank.conductivity_w_m_k),
        ordinary(tank.cross_section_area_m2),
        ordinary(tank.node_height_m),
        0 < tank.node_height_m.units(),
        tame(tank.node_temps_c[i], 40),
        tame(tank.node_temps_c[i + 1], 40),
        ordinary(seconds),
    ensures
        about(
            tank.transfer(i, seconds),
            seq![
                tank.conductivity_w_m_k.units(),
                tank.cross_section_area_m2.units(),
                tank.node_temps_c[i + 1].units() - tank.node_temps_c[i].units(),
                seconds.units(),
            ],
            seq![tank.node_height_m.units()],
            5,
        ),
{
    let k = tank.conductivity_w_m_k;
    let area = tank.cross_section_area_m2;
    let height = tank.node_height_m;
    let warm = tank.node_temps_c[i + 1];
    let cold = tank.node_temps_c[i];
    tame_units(k, 40);
    tame_units(area, 40);
    tame_units(height, 40);
    tame_units(seconds, 40);
    tame_minus(warm, cold, 40);
    let d = warm.units() - cold.units();
    about_itself(k);
    near_itself(area);
    near_itself(height);
    near_itself(seconds);
    times_more(k, 40, seq![k.units()], seq![], 0, area, 40, area.units(), 0);
    let a = seq![k.units()].push(area.units());
    over_more(k.times(area), 80, a, seq![], 1, height, 40, height.units(), 0);
    let b = Seq::<int>::empty().push(height.units());
    let per = k.times(area).over(height);
    times_more(per, 120, a, b, 2, warm.minus(cold), 92, d, 1);
    times_more(per.times(warm.minus(cold)), 212, a.push(d), b, 4, seconds, 40, seconds.units(), 0);
    assert(b =~= seq![height.units()]);
    assert(a.push(d).push(seconds.units()) =~= seq![
        k.units(),
        area.units(),
        d,
        seconds.units(),
    ]);
}

/// The heat that a node loses goes by its loss coefficient, how much warmer it is than the
/// surroundings and the time.
pub proof fn nodes_lose_heat_to_colder_surroundings(
    tank: TankModel,
    i: int,
    ambient_temp_c: Double,
    seconds: Double,
)
    requires
        0 <= i < tank.n(),
        ordinary(tank.ua_per_node[i]),
        tame(tank.node_temps_c[i], 40),
        tame(ambient_temp_c, 40),
        ordinary(seconds),
    ensures
        ({
            let loss = tank.ua_per_node[i].times(
                tank.node_temps_c[i].minus(ambient_temp_c),
            ).times(seconds);
            &&& crate::heating::lost(tank, i, ambient_temp_c, seconds) == loss.units()
            &&& about(
                loss,
                seq![
                    tank.ua_per_node[i].units(),
                    tank.node_temps_c[i].units() - ambient_temp_c.units(),
                    seconds.units(),
                ],
                seq![],
                3,
            )
        }),
{
    let ua = tank.ua_per_node[i];
    let temp = tank.node_temps_c[i];
    tame_units(ua, 40);
    tame_units(seconds, 40);
    tame_minus(temp, ambient_temp_c, 40);
    let d = temp.units() - ambient_temp_c.units();
    about_itself(ua);
    near_itself(seconds);
    times_more(ua, 40, seq![ua.units()], seq![], 0, temp.minus(ambient_temp_c), 92, d, 1);
    let a = seq![ua.units()].push(d);
    times_more(
        ua.times(temp.minus(ambient_temp_c)),
        132,
        a,
        seq![],
        2,
        seconds,
        40,
        seconds.units(),
        0,
    );
    assert(a.push(seconds.units()) =~= seq![ua.units(), d, seconds.units()]);
}

/// Conduction warms each node by what flows into it from below, less what it passes on upwards
/// and what it loses, over what warms it by one degree, within rounding.
pub proof fn conduction_warms_each_node(
    tank: TankModel,
    ambient_temp_c: Double,
    seconds: Double,
    i: int,
)
    requires
        is_conduction(tank, ambient_temp_c, seconds),
        0 <= i < tank.n(),
    ensures
        ({
            let s = pow2(1074);
            let v = tank.node_volumes_m3[i].units();
            let before = tank.node_temps_c[i].units();
            let after = tank.conducted(ambient_temp_c, seconds).node_temps_c[i].units();
            let up = if i > 0 {
                tank.transfer(i - 1, seconds).units()
            } else {
                0
            };
            let below = if i < tank.n() - 1 {
                tank.transfer(i, seconds).units()
            } else {
                0
            };
            let loss = crate::heating::lost(tank, i, ambient_temp_c, seconds);
            size(HEAT_OF_WATER * (after * v - before * v) - (below - up - loss) * s) * P47
                <= HEAT_OF_WATER * (size(before) * v) + 3 * (s * (size(up) + size(below) + size(
                loss,
            ))) + P48 * (HEAT_OF_WATER * v + s)
        }),
{
    crate::heating::lemma_node_conduction(tank, ambient_temp_c, seconds, i);
}

// ---------------------------------------------------------------------------
// Averages
// ---------------------------------------------------------------------------

/// The products of temperatures and volumes add up to the heat.
proof fn lemma_weighted_sum(temps: Seq<Double>, volumes: Seq<Double>, n: nat)
    requires
        n <= temps.len(),
        n <= volumes.len(),
        n <= 12,
        forall|i: int| 0 <= i < n ==> tame(#[trigger] temps[i], 40),
        forall|i: int| 0 <= i < n ==> ordinary(#[trigger] volumes[i]),
    ensures
        ({
            let list = crate::shared::products(temps, volumes).take(n as int);
            let total = crate::tank::sum(list);
            &&& tame(total, (80 + 52 * n) as int)
            &&& within_parts(
                total,
                heat(temps.take(n as int), volumes),
                pow2(1074) as int,
                gross_heat(temps.take(n as int), volumes),
                n as int + 1,
            )
        }),
    decreases n,
{
    let h = pow2(1074) as int;
    lemma_pow2_pos(1074);
    let all = crate::shared::products(temps, volumes);
    let list = all.take(n as int);
    let first = temps.take(n as int);
    if n == 0 {
        one_is_tame();
        tame_grows(Double::zero(), 0, 80);
        assert(crate::tank::sum(list) == Double::zero());
        assert(heat(first, volumes) == 0 && gross_heat(first, volumes) == 0);
        assert(0 * h == 0);
    } else {
        let m = (n - 1) as nat;
        lemma_weighted_sum(temps, volumes, m);
        let t = temps[n - 1];
        let v = volumes[n - 1];
        assert(list.drop_last() =~= all.take(m as int));
        assert(list.last() == t.times(v));
        assert(first.drop_last() =~= temps.take(m as int));
        assert(first.last() == t);
        let before = crate::tank::sum(all.take(m as int));
        tame_units(t, 40);
        tame_units(v, 40);
        near_itself(t);
        near_itself(v);
        near_times(t, 40, t.units(), 1, 0, v, 40, v.units(), 1, 0);
        let x = t.times(v);
        let p = t.units() * v.units();
        assert(1 * 1 * h == h);
        parts_of_near(x, p, h, 1);
        parts_grow(x, p, h, size(p), 1, size(p), n as int);
        let k = 80 + 52 * m;
        tame_grows(x, 80, k as int);
        tame_plus(before, x, k as int);
        let a = heat(temps.take(m as int), volumes);
        let g = gross_heat(temps.take(m as int), volumes);
        parts_plus(before, a, g, x, p, size(p), h, n as int);
        crate::precision::lemma_size_of_product(t.units(), v.units());
        assert(crate::tank::sum(list) == before.plus(x));
    }
}

/// The average temperature of a tank of at most twelve nodes is the heat in it over its volume:
/// each node counts by its volume.
pub proof fn averages_go_by_volume(temps: Seq<Double>, volumes: Seq<Double>)
    requires
        temps.len() == volumes.len(),
        0 < temps.len() <= 12,
        forall|i: int| 0 <= i < temps.len() ==> tame(#[trigger] temps[i], 40),
        forall|i: int| 0 <= i < temps.len() ==> ordinary(#[trigger] volumes[i]),
        tame(crate::tank::sum(volumes), 44),
        0 < crate::tank::sum(volumes).units(),
    ensures
        ({
            let average = crate::shared::weighted_average(temps, volumes);
            let volume = crate::tank::sum(volumes).units();
            let h = pow2(1074) as int;
            within_parts(
                average,
                heat(temps, volumes) * 1 * h,
                h * volume,
                gross_heat(temps, volumes) * 1 * h,
                14,
            )
        }),
{
    let n = temps.len();
    let h = pow2(1074) as int;
    lemma_pow2_pos(1074);
    one_is_tame();
    let total = crate::tank::sum(volumes);
    let all = crate::shared::products(temps, volumes);
    tame_units(total, 44);
    crate::double_laws::order_agrees_with_value(total, Double::zero());
    lemma_weighted_sum(temps, volumes, n);
    assert(all.take(n as int) =~= all);
    assert(temps.take(n as int) =~= temps);
    near_itself(total);
    let sum = crate::tank::sum(all);
    let k = 80 + 52 * n;
    parts_over(
        sum,
        k as int,
        heat(temps, volumes),
        h,
        gross_heat(temps, volumes),
        n as int + 1,
        total,
        44,
        total.units(),
        1,
        0,
    );
    let most = gross_heat(temps, volumes) * 1 * h;
    parts_grow(
        sum.over(total),
        heat(temps, volumes) * 1 * h,
        h * total.units(),
        most,
        n as int + 2,
        most,
        14,
    );
}

// ---------------------------------------------------------------------------
// Geometry
// ---------------------------------------------------------------------------

/// The cross section of a cylinder is a quarter of the circle number times the square of its
/// diameter, and its volume is that times its height.
pub proof fn cylinders_have_their_volume(height_m: Double, diameter_m: Double)
    requires
        ordinary(height_m),
        ordinary(diameter_m),
    ensures
        ({
            let h = pow2(1074) as int;
            let d = diameter_m.units();
            let round = crate::tank::pi().units();
            &&& near(
                crate::tank::cylinder_cross_section_area(diameter_m),
                round * (d * d),
                4 * (h * h),
                6,
            )
            &&& near(
                crate::tank::cylinder_volume(height_m, diameter_m),
                (round * (d * d)) * height_m.units(),
                4 * (h * h) * h,
                7,
            )
            &&& tame(crate::tank::cylinder_volume(height_m, diameter_m), 228)
        }),
{
    let h = pow2(1074) as int;
    lemma_pow2_pos(1074);
    let d = diameter_m.units();
    let pi = crate::tank::pi();
    tame_units(diameter_m, 40);
    tame_units(height_m, 40);
    ratio_is_tame(1, 2);
    near_itself(diameter_m);
    near_itself(height_m);
    lemma_pi();
    near_itself(pi);
    near_times(diameter_m, 40, d, 1, 0, Double::ratio(1, 2), 53, 1 * h, 2, 1);
    let radius = diameter_m.times(Double::ratio(1, 2));
    assert((d * (1 * h)) * 2 == d * (1 * 2 * h)) by (nonlinear_arith);
    near_rescaled(radius, d * (1 * h), 1 * 2 * h, 2, d, 2);
    near_times(radius, 93, d, 2, 2, radius, 93, d, 2, 2);
    let square = radius.times(radius);
    assert(2 * 2 * h == 4 * h);
    near_times(pi, 2, pi.units(), 1, 0, square, 186, d * d, 4 * h, 5);
    let area = pi.times(square);
    assert(1 * (4 * h) * h == 4 * (h * h)) by (nonlinear_arith);
    near_times(
        area,
        188,
        pi.units() * (d * d),
        4 * (h * h),
        6,
        height_m,
        40,
        height_m.units(),
        1,
        0,
    );
    assert(4 * (h * h) * 1 * h == 4 * (h * h) * h);
}

/// The circle number is tame, and above zero.
pub(crate) proof fn lemma_pi()
    ensures
        tame(crate::tank::pi(), 2),
        crate::tank::pi().is_finite(),
        0 < crate::tank::pi().units(),
{
    tame_units(crate::tank::pi(), 2);
}

/// The volumes of nodes that are not given are even shares of the cylinder; but of two nodes the
/// upper one has a third and the lower one two thirds. A node is as high as its even share of
/// the tank.
pub proof fn nodes_share_the_cylinder(config: StratifiedTankConfig, i: int)
    requires
        config.node_volumes_m3 is None,
        0 <= i < config.n_nodes,
        2 <= config.n_nodes < 4096,
        ordinary(config.height_m),
        ordinary(config.diameter_m),
    ensures
        ({
            let h = pow2(1074) as int;
            let d = config.diameter_m.units();
            let whole = (crate::tank::pi().units() * (d * d)) * config.height_m.units();
            let parts = if config.n_nodes == 2 {
                3
            } else {
                config.n_nodes as int
            };
            let share = if config.n_nodes == 2 && i == 1 {
                2
            } else {
                1int
            };
            &&& config.volumes().len() == config.n_nodes
            &&& near(config.volumes()[i], share * whole, (4 * (h * h) * h) * parts, 9)
            &&& near(config.node_height(), config.height_m.units(), config.n_nodes as int, 1)
        }),
{
    let h = pow2(1074) as int;
    lemma_pow2_pos(1074);
    let n = config.n_nodes as u64;
    let d = config.diameter_m.units();
    let whole = (crate::tank::pi().units() * (d * d)) * config.height_m.units();
    let total = crate::tank::cylinder_volume(config.height_m, config.diameter_m);
    cylinders_have_their_volume(config.height_m, config.diameter_m);
    let q = 4 * (h * h) * h;
    tame_units(config.height_m, 40);
    near_itself(config.height_m);
    lemma_split(config.height_m, 40, config.height_m.units(), 1, 0, n);
    assert(1 * n == n);
    if config.n_nodes == 2 {
        lemma_split(total, 228, whole, q, 7, 3);
        near_grows(total.over(Double::whole(3)), whole, q * 3, 8, 9);
        whole_is_tame(2);
        near_times(Double::whole(2), 53, 2 * h, 1, 0, total, 228, whole, q, 7);
        let twice = Double::whole(2).times(total);
        assert(((2 * h) * whole) * q == (2 * whole) * (1 * q * h)) by (nonlinear_arith);
        near_rescaled(twice, (2 * h) * whole, 1 * q * h, 8, 2 * whole, q);
        lemma_split(twice, 281, 2 * whole, q, 8, 3);
        assert(1 * whole == whole);
    } else {
        lemma_split(total, 228, whole, q, 7, n);
        near_grows(total.over(Double::whole(n)), whole, q * n, 8, 9);
        assert(1 * whole == whole);
    }
}

/// A number over a small whole number.
proof fn lemma_split(x: Double, k: int, p: int, q: int, e: int, n: u64)
    requires
        tame(x, k),
        0 <= k <= 400,
        near(x, p, q, e),
        0 <= e <= 20,
        0 < n < P53,
    ensures
        tame(x.over(Double::whole(n)), k + 53),
        near(x.over(Double::whole(n)), p, q * n, e + 1),
{
    let h = pow2(1074) as int;
    lemma_pow2_pos(1074);
    whole_is_tame(n);
    let nh = n * h;
    assert(nh > 0) by (nonlinear_arith)
        requires
            nh == n * h,
            n > 0,
            h > 0,
    ;
    near_over(x, k, p, q, e, Double::whole(n), 53, nh, 1, 0);
    assert((p * 1 * h) * (q * n) == p * (q * nh)) by (nonlinear_arith)
        requires
            nh == n * h,
    ;
    assert(q * n > 0) by (nonlinear_arith)
        requires
            q > 0,
            n > 0,
    ;
    near_rescaled(x.over(Double::whole(n)), p * 1 * h, q * nh, e + 1, p, q * n);
}

/// The loss coefficient of a tank is shared between its nodes by their volumes; the first and the
/// last have that of an end cap besides, which is a tenth of the tank's where it is not given.
pub proof fn nodes_share_the_loss(config: StratifiedTankConfig, i: int)
    requires
        0 <= i < config.n_nodes,
        i < config.volumes().len(),
        ordinary(config.ua_w_per_k),
        ordinary(config.volumes()[i]),
        ordinary(crate::tank::sum(config.volumes())),
        0 < crate::tank::sum(config.volumes()).units(),
        config.ua_end_cap_w_per_k is Some ==> ordinary(config.ua_end_cap_w_per_k->0),
    ensures
        ({
            let ua = config.ua_w_per_k.units();
            let v = config.volumes()[i].units();
            let total = crate::tank::sum(config.volumes()).units();
            let (cap, per) = match config.ua_end_cap_w_per_k {
                Some(given) => (given.units(), 1int),
                None => (ua, 10int),
            };
            if i == 0 || i == config.n_nodes - 1 {
                near(config.node_ua(i), (ua * v) * per + cap * total, total * per, 3)
            } else {
                near(config.node_ua(i), ua * v, total, 2)
            }
        }),
{
    let h = pow2(1074) as int;
    lemma_pow2_pos(1074);
    let ua = config.ua_w_per_k;
    let v = config.volumes()[i];
    let total = crate::tank::sum(config.volumes());
    tame_units(ua, 40);
    tame_units(v, 40);
    tame_units(total, 40);
    near_itself(ua);
    near_itself(v);
    near_itself(total);
    let p = ua.units() * v.units();
    assert(p >= 0) by (nonlinear_arith)
        requires
            p == ua.units() * v.units(),
            ua.units() >= 0,
            v.units() >= 0,
    ;
    near_times(ua, 40, ua.units(), 1, 0, v, 40, v.units(), 1, 0);
    let t = total.units();
    near_over(ua.times(v), 80, p, 1 * 1 * h, 1, total, 40, t, 1, 0);
    let share = ua.times(v).over(total);
    assert((p * 1 * h) * t == p * (1 * 1 * h * t)) by (nonlinear_arith);
    near_rescaled(share, p * 1 * h, 1 * 1 * h * t, 2, p, t);
    let cap = config.end_cap();
    match config.ua_end_cap_w_per_k {
        Some(given) => {
            tame_units(given, 40);
            near_itself(given);
            near_grows(given, given.units(), 1, 0, 2);
            tame_grows(given, 40, 120);
            tame_plus(share, given, 120);
            near_plus(share, p, t, given, given.units(), 1, 2);
        },
        None => {
            ratio_is_tame(1, 10);
            near_times(ua, 40, ua.units(), 1, 0, Double::ratio(1, 10), 53, 1 * h, 10, 1);
            let u = ua.units();
            assert((u * (1 * h)) * 10 == u * (1 * 10 * h)) by (nonlinear_arith);
            near_rescaled(cap, u * (1 * h), 1 * 10 * h, 2, u, 10);
            tame_grows(cap, 93, 120);
            tame_plus(share, cap, 120);
            near_plus(share, p, t, cap, u, 10, 2);
        },
    }
}

/// A tank is built as configured: all its water at the initial temperature, each node with its
/// volume and its loss, one below the other.
pub proof fn tanks_are_as_configured(config: StratifiedTankConfig, i: int)
    requires
        config.fault() is None,
        0 <= i < config.n_nodes,
    ensures
        ({
            let tank = config.model();
            &&& tank.n() == config.n_nodes
            &&& tank.node_temps_c[i] == config.initial_temp_c
            &&& tank.node_volumes_m3 == config.volumes()
            &&& config.node_volumes_m3 is Some ==> tank.node_volumes_m3
                == config.node_volumes_m3->0@
            &&& tank.ua_per_node[i] == config.node_ua(i)
            &&& tank.total_volume_m3 == crate::tank::sum(config.volumes())
            &&& tank.node_edges_m3.len() == config.n_nodes + 1
            &&& tank.node_edges_m3[0] == Double::zero()
            &&& tank.node_edges_m3[i + 1] == tank.node_edges_m3[i].plus(config.volumes()[i])
            &&& tank.node_height_m == config.node_height()
            &&& tank.cross_section_area_m2 == crate::tank::cylinder_cross_section_area(
                config.diameter_m,
            )
            &&& tank.height_m == config.height_m
            &&& tank.diameter_m == config.diameter_m
            &&& tank.ua_w_per_k == config.ua_w_per_k
            &&& tank.conductivity_w_m_k == config.conductivity_w_m_k
            &&& tank.element_nodes == config.element_nodes
        }),
{
    let v = config.volumes();
    assert(v.take(0) =~= Seq::empty());
    assert(v.take(i + 1).drop_last() =~= v.take(i));
}

} // verus!
