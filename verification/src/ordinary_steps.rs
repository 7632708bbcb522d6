//! Steps of tanks of ordinary size: nothing overflows, and the energy of a draw balances to
//! within one joule.
use vstd::arithmetic::mul::*;
use vstd::arithmetic::power2::*;
use vstd::prelude::*;

use crate::conservation::{gross_heat, heat, is_definite, layers_are_definite, span};
use crate::double::Double;
use crate::double_laws::{at_least, at_most};
use crate::draws::{
    column_temps, edge_marks, exact_energy, is_built, is_draw, is_exact, moved_marks, sizes,
    total_of, HEAT_OF_WATER,
};
use crate::mixing::Layer;
use crate::mixing_optimum::{misfit, never_colder_upwards, profile_of};
use crate::precision::{size, P34, P38, P43, P44};
use crate::ranges::within;
use crate::rounding::{P52, P53};
use crate::tank::{is_nonnegative, is_positive, TankModel};

verus! {

/// A tank of no more than four cubic metres, each of whose nodes holds a millilitre or more,
/// with water of no more than 256 degrees.
pub open spec fn is_ordinary(tank: TankModel) -> bool {
    &&& is_built(tank)
    &&& within(tank.total_volume_m3, 2)
    &&& forall|i: int| 0 <= i < tank.n() ==> at_least(#[trigger] tank.node_volumes_m3[i], 20)
    &&& forall|i: int| 0 <= i < tank.n() ==> within(#[trigger] tank.node_temps_c[i], 8)
}

/// An ordinary draw: of no more water than there is, with mains water of no more than 256
/// degrees.
pub open spec fn is_ordinary_draw(tank: TankModel, d: Double, mains_temp_c: Double) -> bool {
    &&& is_ordinary(tank)
    &&& is_nonnegative(d)
    &&& d.le(tank.total_volume_m3)
    &&& within(mains_temp_c, 8)
}

proof fn lemma_ordinary_is_draw(tank: TankModel, d: Double, mains_temp_c: Double)
    requires
        is_ordinary_draw(tank, d, mains_temp_c),
    ensures
        is_draw(tank, d, mains_temp_c),
        within(d, 2),
{
    crate::ranges::within_is_finite(mains_temp_c, 8, 8);
    crate::ranges::within_is_finite(tank.total_volume_m3, 2, 2);
    assert forall|i: int| 0 <= i < tank.n() implies (
    #[trigger] tank.node_temps_c[i]).is_finite() by {
        crate::ranges::within_is_finite(tank.node_temps_c[i], 8, 8);
    }
}

/// What has no more units than a power of two is within it.
proof fn lemma_units_within(x: Double, k: int)
    requires
        x.is_finite(),
        0 <= k <= 1000,
        size(x.units()) <= pow2((1074 + k) as nat),
    ensures
        within(x, k),
{
    let m = ((1023 + k) * P52) as nat;
    crate::double_laws::lemma_units_of_power((1023 + k) as nat);
    if x.mag() > m {
        crate::magnitude::lemma_mag_units_increase(m, x.mag());
    }
}

proof fn lemma_within_units(x: Double, k: int)
    requires
        within(x, k),
        0 <= k <= 1000,
    ensures
        x.is_finite(),
        size(x.units()) <= pow2((1074 + k) as nat),
{
    crate::ranges::within_is_finite(x, k, k);
    crate::double_laws::lemma_signed_mag(x.mag());
    crate::double_laws::lemma_at_most_units(x.abs(), k);
}

/// The edges of an ordinary tank are within its volume.
proof fn lemma_edge_is_within(tank: TankModel, j: int)
    requires
        is_ordinary(tank),
        0 <= j <= tank.n(),
    ensures
        within(tank.node_edges_m3[j], 2),
        tank.node_edges_m3[j].is_finite(),
        0 <= tank.node_edges_m3[j].units(),
{
    crate::draws::lemma_edges(tank, j);
    lemma_within_units(tank.total_volume_m3, 2);
    lemma_units_within(tank.node_edges_m3[j], 2);
}

/// An overlap of intervals within four cubic metres is within eight.
proof fn lemma_overlap_is_within(a0: Double, a1: Double, b0: Double, b1: Double)
    requires
        within(a0, 3),
        within(a1, 3),
        within(b0, 3),
        within(b1, 3),
    ensures
        within(crate::tank::overlap_length(a0, a1, b0, b1), 4),
{
    crate::ranges::sums_stay_within(a1.min(b1), a0.max(b0), 3);
    crate::ranges::whole_is_within(0);
    crate::ranges::within_is_finite(Double::zero(), 0, 4);
}

/// A sum of overlaps of an ordinary tank is finite.
proof fn lemma_overlap_energy_is_within(
    tank: TankModel,
    shift: Option<Double>,
    start: Double,
    end: Double,
    n: nat,
)
    requires
        is_ordinary(tank),
        n <= tank.n(),
        within(start, 3),
        within(end, 3),
        shift matches Some(by) ==> within(by, 2),
    ensures
        within(
            crate::tank::overlap_energy(
                tank.node_edges_m3,
                tank.node_temps_c,
                shift,
                start,
                end,
                n,
            ),
            (12 + n) as int,
        ),
    decreases n,
{
    if n == 0 {
        crate::ranges::whole_is_within(0);
        crate::ranges::within_is_finite(Double::zero(), 0, 12);
    } else {
        let above = crate::tank::overlap_energy(
            tank.node_edges_m3,
            tank.node_temps_c,
            shift,
            start,
            end,
            (n - 1) as nat,
        );
        lemma_overlap_energy_is_within(tank, shift, start, end, (n - 1) as nat);
        lemma_edge_is_within(tank, n - 1);
        lemma_edge_is_within(tank, n as int);
        let e0 = tank.node_edges_m3[n - 1];
        let e1 = tank.node_edges_m3[n as int];
        let b0 = crate::tank::shifted(e0, shift);
        let b1 = crate::tank::shifted(e1, shift);
        match shift {
            Some(by) => {
                crate::ranges::sums_stay_within(e0, by, 2);
                crate::ranges::sums_stay_within(e1, by, 2);
            },
            None => {
                crate::ranges::within_is_finite(e0, 2, 3);
                crate::ranges::within_is_finite(e1, 2, 3);
            },
        }
        let overlap = crate::tank::overlap_length(start, end, b0, b1);
        lemma_overlap_is_within(start, end, b0, b1);
        let temp = tank.node_temps_c[n - 1];
        assert(within(temp, 8));
        crate::ranges::products_stay_within(overlap, 4, temp, 8);
        crate::ranges::within_is_finite(overlap.times(temp), 12, (11 + n) as int);
        crate::ranges::within_is_finite(above, (11 + n) as int, (12 + n) as int);
        crate::ranges::sums_stay_within(above, overlap.times(temp), (11 + n) as int);
    }
}

/// The temperatures after an ordinary draw are finite.
proof fn lemma_displaced_is_within(tank: TankModel, i: int, d: Double, mains_temp_c: Double)
    requires
        is_ordinary_draw(tank, d, mains_temp_c),
        0 <= i < tank.n(),
    ensures
        within(tank.displaced_temp(i, d, mains_temp_c), 45),
        tank.displaced_temp(i, d, mains_temp_c).is_finite(),
{
    let n = tank.n();
    let start = tank.node_edges_m3[i];
    let end = tank.node_edges_m3[i + 1];
    lemma_ordinary_is_draw(tank, d, mains_temp_c);
    lemma_edge_is_within(tank, i);
    lemma_edge_is_within(tank, i + 1);
    crate::ranges::within_is_finite(start, 2, 3);
    crate::ranges::within_is_finite(end, 2, 3);
    lemma_overlap_energy_is_within(tank, Some(d), start, end, n);
    let moved = crate::tank::overlap_energy(
        tank.node_edges_m3,
        tank.node_temps_c,
        Some(d),
        start,
        end,
        n,
    );
    let total = tank.total_volume_m3;
    crate::ranges::sums_stay_within(total, d, 2);
    crate::ranges::within_is_finite(total, 2, 3);
    let mains = crate::tank::overlap_length(start, end, total.minus(d), total);
    lemma_overlap_is_within(start, end, total.minus(d), total);
    crate::ranges::products_stay_within(mains, 4, mains_temp_c, 8);
    let term = mains.times(mains_temp_c);
    crate::ranges::within_is_finite(moved, (12 + n) as int, 24);
    crate::ranges::within_is_finite(term, 12, 24);
    crate::ranges::sums_stay_within(moved, term, 24);
    crate::ranges::within_is_finite(moved, (12 + n) as int, 25);
    let sum = if mains.gt(Double::zero()) {
        moved.plus(term)
    } else {
        moved
    };
    assert(within(sum, 25));
    assert(at_least(tank.node_volumes_m3[i], 20));
    crate::ranges::quotients_stay_within(sum, 25, tank.node_volumes_m3[i], 20);
}

// ---------------------------------------------------------------------------
// Mixing
// ---------------------------------------------------------------------------

/// A layer of an ordinary tank.
spec fn layer_is_ordinary(layer: Layer) -> bool {
    &&& 1 <= layer.count <= 12
    &&& within(layer.temp, 45 + 40 * (layer.count - 1))
    &&& at_least(layer.volume, 20)
    &&& at_most(layer.volume, 2 + (layer.count - 1))
}

spec fn layers_are_ordinary(layers: Seq<Layer>) -> bool {
    &&& crate::mixing::node_count(layers) <= 12
    &&& forall|i: int| 0 <= i < layers.len() ==> layer_is_ordinary(#[trigger] layers[i])
}

proof fn lemma_larger_bound(x: Double, k: int, j: int)
    requires
        at_most(x, k),
        k <= j,
    ensures
        at_most(x, j),
{
    assert((1023 + k) * P52 <= (1023 + j) * P52) by (nonlinear_arith)
        requires
            k <= j,
    ;
}

proof fn lemma_merge_is_ordinary(upper: Layer, lower: Layer)
    requires
        layer_is_ordinary(upper),
        layer_is_ordinary(lower),
        upper.count + lower.count <= 12,
    ensures
        layer_is_ordinary(crate::mixing::merge(upper, lower)),
{
    let c = if upper.count > lower.count {
        upper.count as int
    } else {
        lower.count as int
    };
    let k = 45 + 40 * (c - 1);
    let v = 2 + (c - 1);
    lemma_larger_bound(upper.volume, 2 + (upper.count - 1), v);
    lemma_larger_bound(lower.volume, 2 + (lower.count - 1), v);
    crate::ranges::within_is_finite(upper.temp, 45 + 40 * (upper.count - 1), k);
    crate::ranges::within_is_finite(lower.temp, 45 + 40 * (lower.count - 1), k);
    let volume = upper.volume.plus(lower.volume);
    crate::double_laws::plus_at_most(upper.volume, lower.volume, v);
    lemma_larger_bound(volume, v + 1, 2 + (upper.count + lower.count - 1));
    crate::ranges::within_is_finite(volume, v + 1, v + 1);
    crate::ranges::within_is_finite(lower.volume, v, v);
    crate::double_laws::plus_at_least(upper.volume, 20, lower.volume);
    crate::ranges::products_stay_within(upper.temp, k, upper.volume, v);
    crate::ranges::products_stay_within(lower.temp, k, lower.volume, v);
    let p1 = upper.temp.times(upper.volume);
    let p2 = lower.temp.times(lower.volume);
    crate::ranges::sums_stay_within(p1, p2, k + v);
    crate::ranges::quotients_stay_within(p1.plus(p2), k + v + 1, volume, 20);
    crate::ranges::within_is_finite(
        p1.plus(p2).over(volume),
        k + v + 21,
        45 + 40 * (upper.count + lower.count - 1),
    );
}

proof fn lemma_settle_is_ordinary(layers: Seq<Layer>)
    requires
        layers_are_ordinary(layers),
    ensures
        layers_are_ordinary(crate::mixing::settle(layers)),
    decreases layers.len(),
{
    if layers.len() >= 2 {
        let n = layers.len();
        let upper = layers[n - 2];
        let lower = layers[n - 1];
        if !upper.temp.ge(lower.temp) {
            let merged = crate::mixing::merge(upper, lower);
            let rest = layers.take(n - 2);
            let above = layers.drop_last();
            let next = rest.push(merged);
            assert(above.drop_last() =~= rest);
            assert(above.last() == upper);
            assert(next.drop_last() =~= rest);
            assert(crate::mixing::node_count(layers) == crate::mixing::node_count(above)
                + lower.count);
            assert(crate::mixing::node_count(above) == crate::mixing::node_count(rest)
                + upper.count);
            lemma_merge_is_ordinary(upper, lower);
            lemma_settle_is_ordinary(next);
        }
    }
}

proof fn lemma_layers_are_ordinary(temps: Seq<Double>, volumes: Seq<Double>, n: nat)
    requires
        n <= temps.len() <= 12,
        temps.len() == volumes.len(),
        forall|i: int|
            #![trigger temps[i]]
            0 <= i < temps.len() ==> within(temps[i], 45) && at_least(volumes[i], 20) && at_most(
                volumes[i],
                2,
            ),
    ensures
        layers_are_ordinary(crate::mixing::layered(temps, volumes, n)),
    decreases n,
{
    if n > 0 {
        let before = crate::mixing::layered(temps, volumes, (n - 1) as nat);
        lemma_layers_are_ordinary(temps, volumes, (n - 1) as nat);
        crate::mixing::layers_are_settled(temps, volumes, (n - 1) as nat);
        let node = Layer { temp: temps[n - 1], volume: volumes[n - 1], count: 1 };
        assert(within(temps[n - 1], 45));
        let pushed = before.push(node);
        assert(pushed.drop_last() =~= before);
        lemma_settle_is_ordinary(pushed);
    }
}

/// The volume of a node of an ordinary tank is within that of the tank.
proof fn lemma_volume_is_within(tank: TankModel, i: int)
    requires
        is_ordinary(tank),
        0 <= i < tank.n(),
    ensures
        at_most(tank.node_volumes_m3[i], 2),
{
    crate::draws::lemma_edges(tank, i);
    lemma_edge_is_within(tank, i);
    lemma_edge_is_within(tank, i + 1);
    let e = tank.node_edges_m3[i];
    let v = tank.node_volumes_m3[i];
    assert(is_positive(v));
    assert(at_least(v, 20));
    crate::draws::lemma_edges_sum(tank, i);
    crate::double_laws::lemma_units_zero();
    crate::double_laws::order_agrees_with_value(Double::zero(), e);
    crate::double_laws::steps_are_ordered(v, e);
    crate::double_laws::plus_commutes(v, e);
}

// ---------------------------------------------------------------------------
// Sizes
// ---------------------------------------------------------------------------

/// The heat of the nodes after a draw, each by its size, is no more than that of the water
/// that has come into them.
proof fn lemma_gross_after_draw(tank: TankModel, d: Double, mains_temp_c: Double, m: nat)
    requires
        is_ordinary_draw(tank, d, mains_temp_c),
        is_positive(d),
        m <= tank.n(),
    ensures
        ({
            let after = tank.drawn(d, mains_temp_c).node_temps_c;
            let edge = tank.node_edges_m3[m as int].units();
            let y = exact_energy(
                moved_marks(tank, d),
                sizes(column_temps(tank, mains_temp_c)),
                0,
                edge,
                tank.n() + 1,
            );
            gross_heat(after.take(m as int), tank.node_volumes_m3) * P53 <= y * P53 + 128 * y
                + span(tank.node_volumes_m3, 0, m as int) * P53 + 14 * m * (pow2(1074) * P53)
        }),
    decreases m,
{
    let n = tank.n();
    let marks = moved_marks(tank, d);
    let temps = column_temps(tank, mains_temp_c);
    let after = tank.drawn(d, mains_temp_c).node_temps_c;
    let volumes = tank.node_volumes_m3;
    let small = pow2(1074) * P53;
    lemma_ordinary_is_draw(tank, d, mains_temp_c);
    crate::draws::lemma_edges(tank, m as int);
    if m == 0 {
        crate::draws::lemma_empty_window(marks, sizes(temps), 0, n + 1);
        assert(14 * 0 * small == 0) by (nonlinear_arith);
    } else {
        let i = m - 1;
        let a0 = tank.node_edges_m3[i].units();
        let a1 = tank.node_edges_m3[m as int].units();
        lemma_gross_after_draw(tank, d, mains_temp_c, i as nat);
        crate::draws::lemma_edges(tank, i);
        crate::draws::lemma_draw_is_within(tank, d, mains_temp_c);
        assert forall|j: int| #![trigger marks[j]] 0 <= j < n + 1 implies marks[j] <= marks[j + 1] by {
            crate::draws::lemma_moved_marks(tank, d, mains_temp_c, j);
        }
        crate::draws::lemma_windows_add_up(marks, sizes(temps), 0, a0, a1, n + 1);
        crate::double_laws::lemma_units_zero();
        crate::double_laws::order_agrees_with_value(d, Double::zero());
        assert(after[i] == tank.displaced_temp(i, d, mains_temp_c));
        lemma_displaced_is_within(tank, i, d, mains_temp_c);
        crate::draws::lemma_displaced_temp_is_close(tank, i, d, mains_temp_c);
        crate::draws::lemma_energy_is_at_most_gross(marks, temps, a0, a1, n + 1);
        assert(after.take(m as int).drop_last() =~= after.take(i));
        assert(after.take(m as int).last() == after[i]);
        crate::precision::lemma_size_of_product(after[i].units(), volumes[i].units());
        assert(14 * m * small == 14 * i * small + 14 * small) by (nonlinear_arith)
            requires
                i == m - 1,
        ;
    }
}

/// The heat of the nodes, each by its size, is no more than 256 degrees of their volume.
proof fn lemma_gross_is_bounded(temps: Seq<Double>, volumes: Seq<Double>, m: nat)
    requires
        m <= temps.len(),
        m <= volumes.len(),
        forall|i: int|
            #![trigger temps[i]]
            0 <= i < temps.len() ==> size(temps[i].units()) <= 256 * pow2(1074),
        forall|i: int| 0 <= i < volumes.len() ==> (#[trigger] volumes[i]).units() >= 0,
    ensures
        gross_heat(temps.take(m as int), volumes) <= 256 * (pow2(1074) * span(
            volumes,
            0,
            m as int,
        )),
    decreases m,
{
    if m > 0 {
        let i = m - 1;
        lemma_gross_is_bounded(temps, volumes, i as nat);
        assert(temps.take(m as int).drop_last() =~= temps.take(i));
        let t = size(temps[i].units());
        let v = volumes[i].units();
        let s = pow2(1074) as int;
        assert(t * v <= 256 * (s * v)) by (nonlinear_arith)
            requires
                t <= 256 * s,
                0 <= v,
        ;
        lemma_mul_is_distributive_add(s, span(volumes, 0, i), v);
    } else {
        assert(pow2(1074) * 0 == 0);
    }
}

/// The sizes of the temperatures together.
proof fn lemma_temps_are_bounded(tank: TankModel, mains_temp_c: Double, m: nat)
    requires
        is_ordinary(tank),
        within(mains_temp_c, 8),
        m <= tank.n() + 1,
    ensures
        0 <= total_of(sizes(column_temps(tank, mains_temp_c)), m) <= m * (256 * pow2(1074)),
    decreases m,
{
    let temps = column_temps(tank, mains_temp_c);
    let one = 256 * pow2(1074);
    if m > 0 {
        let i = m - 1;
        lemma_temps_are_bounded(tank, mains_temp_c, i as nat);
        lemma_pow2_adds(8, 1074);
        lemma2_to64();
        if i < tank.n() {
            assert(within(tank.node_temps_c[i], 8));
            lemma_within_units(tank.node_temps_c[i], 8);
        } else {
            lemma_within_units(mains_temp_c, 8);
        }
        assert(sizes(temps)[i] == size(temps[i]));
        assert(m * one == i * one + one) by (nonlinear_arith)
            requires
                i == m - 1,
        ;
    } else {
        assert(0 * one == 0);
    }
}

// ---------------------------------------------------------------------------
// The energy of a draw
// ---------------------------------------------------------------------------

proof fn lemma_mean_is_within(e: Double, d: Double)
    requires
        e.is_finite(),
        d.is_finite(),
        0 < d.units(),
        !d.negative(),
        size(e.units()) <= 8192 * d.units(),
    ensures
        within(e.over(d), 13),
{
    reveal(Double::spec_over);
    let h = pow2(1074);
    let a = crate::rounding::mag_units(e.mag());
    let b = crate::rounding::mag_units(d.mag());
    crate::double_laws::lemma_units_zero();
    lemma_pow2_adds(13, 1074);
    lemma2_to64();
    assert(a * h <= pow2(1087) * b) by (nonlinear_arith)
        requires
            a <= 8192 * b,
            pow2(1087) == 8192 * h,
    ;
    crate::double_laws::lemma_round_at_most(a * h, b, 13);
    crate::double_laws::lemma_signed_mag(crate::rounding::round_mag(a * h, b));
}

/// What the energy of a draw comes to is finite.
proof fn lemma_draw_energy_is_finite(
    tank: TankModel,
    d: Double,
    mains_temp_c: Double,
    outlet_temp_c: Double,
)
    requires
        is_ordinary_draw(tank, d, mains_temp_c),
        is_positive(d),
    ensures
        ({
            let summary = tank.draw_summary(d, mains_temp_c, outlet_temp_c, Double::zero());
            summary.energy_out_j.is_finite() && summary.energy_in_j.is_finite()
        }),
{
    let n = tank.n();
    let s = pow2(1074) as int;
    let zero = Double::zero();
    let temps = column_temps(tank, mains_temp_c);
    let edges = edge_marks(tank);
    let warmth = crate::tank::water_density().times(crate::tank::water_specific_heat());
    let energy = crate::tank::overlap_energy(
        tank.node_edges_m3,
        tank.node_temps_c,
        None,
        zero,
        d,
        n,
    );
    let depth = d.minus(zero);
    lemma_pow2_pos(1074);
    lemma_ordinary_is_draw(tank, d, mains_temp_c);
    crate::draws::lemma_draw_is_within(tank, d, mains_temp_c);
    crate::double_laws::lemma_units_zero();
    crate::double_laws::order_agrees_with_value(d, zero);
    crate::ranges::whole_is_within(0);
    crate::ranges::within_is_finite(zero, 0, 3);
    crate::ranges::within_is_finite(d, 2, 3);
    lemma_overlap_energy_is_within(tank, None, zero, d, n);
    crate::ranges::within_is_finite(energy, (12 + n) as int, 24);
    assert(is_exact(tank.node_edges_m3, tank.node_temps_c, None, edges, temps, n)) by {
        assert forall|j: int|
            0 <= j <= n implies crate::tank::shifted(
            #[trigger] tank.node_edges_m3[j],
            None,
        ).is_finite() && edges[j] == crate::tank::shifted(tank.node_edges_m3[j], None).units() by {
            crate::draws::lemma_edges(tank, j);
        }
    }
    crate::draws::lemma_overlap_energy_is_close(
        tank.node_edges_m3,
        tank.node_temps_c,
        None,
        zero,
        d,
        edges,
        temps,
        n,
    );
    let u = d.units();
    let x = exact_energy(edges, temps, 0, u, n);
    let y = exact_energy(edges, sizes(temps), 0, u, n);
    crate::draws::lemma_energy_is_at_most_gross(edges, temps, 0, u, n);
    crate::draws::lemma_energy_is_at_most_total(edges, sizes(temps), 0, u, n);
    lemma_temps_are_bounded(tank, mains_temp_c, n);
    let sum = total_of(sizes(temps), n);
    let one = 256 * s;
    assert(n * one <= 3072 * s) by (nonlinear_arith)
        requires
            n <= 12,
            one == 256 * s,
            s > 0,
    ;
    assert(y <= 3072 * (u * s)) by (nonlinear_arith)
        requires
            y <= u * sum,
            sum <= 3072 * s,
            u > 0,
    ;
    assert(8 * n * y <= 96 * y && n * s * P53 <= 12 * (s * P53)) by (nonlinear_arith)
        requires
            n <= 12,
            0 <= y,
            0 < s,
    ;
    let e = energy.units();
    assert(size(e * s) <= 2 * y + 12 * s);
    crate::precision::lemma_size_of_product(e, s);
    assert(size(e) <= 8192 * u) by (nonlinear_arith)
        requires
            size(e) * s <= 6144 * (u * s) + 12 * s,
            s > 0,
            u >= 1,
    ;
    crate::precision::lemma_less_zero(d);
    lemma_mean_is_within(energy, depth);
    let mean = energy.over(depth);
    crate::draws::lemma_heat_of_water();
    assert(within(warmth, 23)) by {
        lemma_pow2_adds(23, 1074);
        lemma2_to64();
        assert(HEAT_OF_WATER * pow2(1074) <= 8388608 * pow2(1074)) by (nonlinear_arith)
            requires
                HEAT_OF_WATER == 4_183_000,
        ;
        assert(size(warmth.units()) == warmth.units()) by {
            assert(HEAT_OF_WATER * pow2(1074) >= 0) by (nonlinear_arith);
        }
        lemma_units_within(warmth, 23);
    }
    crate::ranges::products_stay_within(warmth, 23, mean, 13);
    crate::ranges::products_stay_within(warmth.times(mean), 36, d, 2);
    crate::ranges::products_stay_within(warmth, 23, mains_temp_c, 8);
    crate::ranges::products_stay_within(warmth.times(mains_temp_c), 31, d, 2);
}

// ---------------------------------------------------------------------------
// The step
// ---------------------------------------------------------------------------

/// Without conduction and losses a tank keeps its temperatures until the draw.
proof fn lemma_tight_tank_rests(tank: TankModel, ambient_temp_c: Double, seconds: Double)
    requires
        is_ordinary(tank),
        is_tight(tank),
        within(ambient_temp_c, 900),
        seconds.is_finite(),
    ensures
        ({
            let hot = tank.conducted(ambient_temp_c, seconds);
            &&& is_ordinary(hot)
            &&& hot.same_shape(tank)
            &&& hot.n() == tank.n()
            &&& forall|i: int|
                0 <= i < tank.n() ==> (#[trigger] hot.node_temps_c[i]).units()
                    == tank.node_temps_c[i].units()
        }),
{
    let hot = tank.conducted(ambient_temp_c, seconds);
    let flow = tank.conductivity_w_m_k.times(tank.cross_section_area_m2).over(tank.node_height_m);
    crate::double_laws::zero_times(tank.conductivity_w_m_k, tank.cross_section_area_m2);
    crate::heating::lemma_zero_over(
        tank.conductivity_w_m_k.times(tank.cross_section_area_m2),
        tank.node_height_m,
    );
    assert forall|i: int|
        #![trigger tank.transfer(i, seconds)]
        0 <= i < tank.n() - 1 implies tank.transfer(i, seconds).mag() == 0 by {
        assert(within(tank.node_temps_c[i], 8));
        assert(within(tank.node_temps_c[i + 1], 8));
        let diff = tank.node_temps_c[i + 1].minus(tank.node_temps_c[i]);
        crate::ranges::sums_stay_within(tank.node_temps_c[i + 1], tank.node_temps_c[i], 8);
        crate::double_laws::zero_times(flow, diff);
        crate::double_laws::zero_times(flow.times(diff), seconds);
    }
    assert forall|i: int|
        #![trigger tank.ua_per_node[i]]
        0 <= i < tank.n() implies tank.ua_per_node[i].times(
        tank.node_temps_c[i].minus(ambient_temp_c),
    ).times(seconds).mag() == 0 by {
        assert(within(tank.node_temps_c[i], 8));
        crate::ranges::within_is_finite(tank.node_temps_c[i], 8, 900);
        let diff = tank.node_temps_c[i].minus(ambient_temp_c);
        crate::ranges::sums_stay_within(tank.node_temps_c[i], ambient_temp_c, 900);
        crate::double_laws::zero_times(tank.ua_per_node[i], diff);
        crate::double_laws::zero_times(tank.ua_per_node[i].times(diff), seconds);
    }
    assert forall|i: int|
        0 <= i < tank.n() implies (#[trigger] tank.node_temps_c[i]).is_finite() && is_positive(
        crate::tank::water_density().times(tank.node_volumes_m3[i]).times(
            crate::tank::water_specific_heat(),
        ),
    ) by {
        assert(within(tank.node_temps_c[i], 8));
        crate::ranges::within_is_finite(tank.node_temps_c[i], 8, 8);
        lemma_mass_is_positive(tank, i);
    }
    crate::heating::lemma_rest_keeps_temps(tank, ambient_temp_c, seconds);
    assert forall|i: int| 0 <= i < tank.n() implies within(#[trigger] hot.node_temps_c[i], 8) && (
    hot.node_temps_c[i]).units() == tank.node_temps_c[i].units() by {
        assert(within(tank.node_temps_c[i], 8));
        assert(hot.node_temps_c[i].same(tank.node_temps_c[i]));
        crate::double_laws::order_agrees_with_value(hot.node_temps_c[i], tank.node_temps_c[i]);
    }
    crate::draws::tanks_stay_built(tank, hot);
    assert forall|i: int| 0 <= i < hot.n() implies at_least(
        #[trigger] hot.node_volumes_m3[i],
        20,
    ) by {
        assert(at_least(tank.node_volumes_m3[i], 20));
    }
}

proof fn lemma_mass_is_positive(tank: TankModel, i: int)
    requires
        is_ordinary(tank),
        0 <= i < tank.n(),
    ensures
        is_positive(
            crate::tank::water_density().times(tank.node_volumes_m3[i]).times(
                crate::tank::water_specific_heat(),
            ),
        ),
{
    let a = Double::whole(1000);
    let b = Double::whole(4183);
    let v = tank.node_volumes_m3[i];
    crate::double_laws::whole_is_small(1000);
    crate::double_laws::whole_is_small(4183);
    lemma_volume_is_within(tank, i);
    assert(at_least(v, 20));
    crate::double_laws::times_at_most(a, 64, v, 2);
    crate::double_laws::lemma_at_most_units(a.times(v), 66);
    crate::double_laws::times_at_least(a, 0, v, 20);
    crate::double_laws::times_at_most(a.times(v), 66, b, 64);
    crate::double_laws::lemma_at_most_units(a.times(v).times(b), 130);
    crate::double_laws::times_at_least(a.times(v), 20, b, 0);
    crate::double_laws::bounded_is_positive(a.times(v).times(b), 20);
}

/// A tank that neither conducts heat nor loses it.
pub open spec fn is_tight(tank: TankModel) -> bool {
    &&& tank.conductivity_w_m_k.mag() == 0
    &&& tank.cross_section_area_m2.is_finite()
    &&& is_positive(tank.node_height_m)
    &&& forall|i: int| 0 <= i < tank.n() ==> (#[trigger] tank.ua_per_node[i]).mag() == 0
}

proof fn lemma_same_heat(a: Seq<Double>, b: Seq<Double>, volumes: Seq<Double>)
    requires
        a.len() == b.len(),
        forall|i: int| 0 <= i < a.len() ==> (#[trigger] a[i]).units() == b[i].units(),
    ensures
        heat(a, volumes) == heat(b, volumes),
    decreases a.len(),
{
    if a.len() > 0 {
        assert forall|i: int| 0 <= i < a.drop_last().len() implies (
        #[trigger] a.drop_last()[i]).units() == b.drop_last()[i].units() by {
            assert(a[i].units() == b[i].units());
        }
        lemma_same_heat(a.drop_last(), b.drop_last(), volumes);
        assert(a[a.len() - 1].units() == b[a.len() - 1].units());
    }
}

/// The heat after the draw, each node by its size.
proof fn lemma_gross_after(hot: TankModel, d: Double, mains_temp_c: Double)
    requires
        is_ordinary_draw(hot, d, mains_temp_c),
    ensures
        ({
            let s = pow2(1074);
            let after = hot.drawn(d, mains_temp_c).node_temps_c;
            let span = span(hot.node_volumes_m3, 0, hot.n() as int);
            &&& gross_heat(after, hot.node_volumes_m3) <= 20000 * (s * s) + 400 * s
            &&& 0 <= span <= 8 * s
            &&& 0 < hot.total_volume_m3.units() <= 4 * s
            &&& 0 <= hot.total_volume_m3.units() * total_of(
                sizes(column_temps(hot, mains_temp_c)),
                hot.n() + 1,
            ) <= 13312 * (s * s)
        }),
{
    let s = pow2(1074) as int;
    let n = hot.n();
    let volumes = hot.node_volumes_m3;
    let total = hot.total_volume_m3.units();
    let after = hot.drawn(d, mains_temp_c).node_temps_c;
    let temps = column_temps(hot, mains_temp_c);
    let sum = total_of(sizes(temps), n + 1);
    let whole = span(volumes, 0, n as int);
    lemma_pow2_pos(1074);
    lemma_pow2_adds(2, 1074);
    lemma2_to64();
    lemma_ordinary_is_draw(hot, d, mains_temp_c);
    lemma_within_units(hot.total_volume_m3, 2);
    crate::double_laws::lemma_units_zero();
    crate::double_laws::order_agrees_with_value(Double::zero(), hot.total_volume_m3);
    crate::draws::lemma_edges(hot, n as int);
    crate::draws::lemma_volumes_are_bounded(hot, n);
    assert forall|i: int| 0 <= i < volumes.len() implies (#[trigger] volumes[i]).units() > 0 by {
        assert(is_positive(hot.node_volumes_m3[i]));
        crate::double_laws::order_agrees_with_value(Double::zero(), volumes[i]);
    }
    crate::conservation::lemma_span_is_nonnegative(volumes, 0, n as int);
    assert(2 * n * total <= 24 * total) by (nonlinear_arith)
        requires
            n <= 12,
            0 <= total,
    ;
    assert(whole <= 2 * total);
    lemma_temps_are_bounded(hot, mains_temp_c, n + 1);
    let one = 256 * s;
    assert((n + 1) * one <= 3328 * s) by (nonlinear_arith)
        requires
            n <= 12,
            one == 256 * s,
            s > 0,
    ;
    assert(0 <= total * sum <= 13312 * (s * s)) by (nonlinear_arith)
        requires
            0 <= total <= 4 * s,
            0 <= sum <= 3328 * s,
    ;
    assert(after.take(n as int) =~= after);
    if is_positive(d) {
        lemma_gross_after_draw(hot, d, mains_temp_c, n);
        let y = exact_energy(moved_marks(hot, d), sizes(temps), 0, total, n + 1);
        crate::draws::lemma_energy_is_at_most_total(
            moved_marks(hot, d),
            sizes(temps),
            0,
            total,
            n + 1,
        );
        let small = s * P53;
        assert(14 * n * small <= 168 * small) by (nonlinear_arith)
            requires
                n <= 12,
                0 <= small,
        ;
        let ss = s * s;
        assert(y <= 13312 * ss);
        assert(gross_heat(after, volumes) * P53 <= 2 * (y * P53) - y * P53 + 128 * y + 8 * small
            + 168 * small);
    } else {
        crate::double_laws::order_agrees_with_value(Double::zero(), d);
        assert(after == hot.node_temps_c);
        lemma_pow2_adds(8, 1074);
        assert forall|i: int|
            #![trigger after[i]]
            0 <= i < after.len() implies size(after[i].units()) <= 256 * pow2(1074) by {
            assert(within(hot.node_temps_c[i], 8));
            lemma_within_units(after[i], 8);
        }
        lemma_gross_is_bounded(after, volumes, n);
        assert(s * whole <= 8 * (s * s)) by (nonlinear_arith)
            requires
                whole <= 8 * s,
                s > 0,
        ;
    }
}

/// The layers that the water of an ordinary tank forms have temperatures and volumes.
proof fn lemma_mixing_is_definite(tank: TankModel, temps: Seq<Double>)
    requires
        is_ordinary(tank),
        temps.len() == tank.n(),
        forall|i: int| 0 <= i < temps.len() ==> within(#[trigger] temps[i], 45),
    ensures
        layers_are_definite(crate::mixing::layered(temps, tank.node_volumes_m3, temps.len())),
        forall|i: int|
            0 <= i < tank.node_volumes_m3.len() ==> (
            #[trigger] tank.node_volumes_m3[i]).is_finite() && tank.node_volumes_m3[i].gt(
                Double::zero(),
            ),
{
    let volumes = tank.node_volumes_m3;
    assert forall|i: int|
        #![trigger temps[i]]
        0 <= i < temps.len() implies within(temps[i], 45) && at_least(volumes[i], 20) && at_most(
        volumes[i],
        2,
    ) by {
        assert(at_least(tank.node_volumes_m3[i], 20));
        lemma_volume_is_within(tank, i);
    }
    lemma_layers_are_ordinary(temps, volumes, temps.len());
    let layers = crate::mixing::layered(temps, volumes, temps.len());
    assert forall|i: int| 0 <= i < layers.len() implies is_definite(#[trigger] layers[i]) by {
        assert(layer_is_ordinary(layers[i]));
        let c = layers[i].count - 1;
        crate::ranges::within_is_finite(layers[i].temp, 45 + 40 * c, 45 + 40 * c);
        crate::double_laws::lemma_at_most_units(layers[i].volume, 2 + c);
    }
    assert forall|i: int| 0 <= i < volumes.len() implies (#[trigger] volumes[i]).is_finite()
        && volumes[i].gt(Double::zero()) by {
        assert(is_positive(tank.node_volumes_m3[i]));
    }
}

/// Mixing keeps the energy of an ordinary tank within one joule, and of all profiles that are
/// never colder upwards it gives the closest to what was in the tank, but for the last
/// digits.
pub proof fn ordinary_mixing_keeps_energy_and_is_closest(
    tank: TankModel,
    profile: Seq<int>,
    apart: int,
)
    requires
        is_ordinary(tank),
        profile.len() == tank.n(),
        never_colder_upwards(profile),
        0 <= apart,
        forall|i: int|
            0 <= i < profile.len() ==> size(
                #[trigger] profile[i] - profile_of(tank.settled().node_temps_c)[i],
            ) <= apart,
    ensures
        ({
            let joule = pow2(1074) * pow2(1074);
            let temps = tank.node_temps_c;
            let after = tank.settled().node_temps_c;
            let volumes = tank.node_volumes_m3;
            let n = tank.n() as int;
            &&& crate::mixing::non_increasing(after)
            &&& size(HEAT_OF_WATER * heat(after, volumes) - HEAT_OF_WATER * heat(temps, volumes))
                <= joule
            &&& misfit(profile_of(after), temps, volumes, 0, n) * P34 <= misfit(
                profile,
                temps,
                volumes,
                0,
                n,
            ) * P34 + apart * (gross_heat(temps, volumes) + P43 * (span(volumes, 0, n) + pow2(
                1074,
            )))
        }),
{
    let s = pow2(1074) as int;
    let zero = Double::zero();
    let temps = tank.node_temps_c;
    let volumes = tank.node_volumes_m3;
    crate::ranges::whole_is_within(0);
    crate::ranges::within_is_finite(zero, 0, 8);
    assert(is_positive(tank.total_volume_m3));
    assert(is_ordinary_draw(tank, zero, zero));
    assert(tank.drawn(zero, zero).node_temps_c == temps);
    assert forall|i: int| 0 <= i < temps.len() implies within(#[trigger] temps[i], 45) by {
        crate::ranges::within_is_finite(tank.node_temps_c[i], 8, 45);
    }
    lemma_mixing_is_definite(tank, temps);
    crate::mixing::mixing_removes_inversions(temps, volumes);
    crate::mixing_optimum::mixing_is_closest(temps, volumes, profile, apart);
    crate::conservation::mixing_keeps_heat(temps, volumes);
    lemma_gross_after(tank, zero, zero);
    lemma2_to64_rest();
    lemma_pow2_strictly_increases(64, 1074);
    let h0 = heat(temps, volumes);
    let h1 = heat(tank.settled().node_temps_c, volumes);
    let ss = s * s;
    assert(ss >= 0x1_0000_0000_0000_0000 * s) by (nonlinear_arith)
        requires
            ss == s * s,
            s >= 0x1_0000_0000_0000_0000,
    ;
    lemma_joule(h0, h0, h1, 0, 0, 0, gross_heat(temps, volumes), span(volumes, 0, tank.n() as int), s, ss);
}

/// A draw, the displacement of the water in the tank and its mixing make and lose no energy:
/// what is in an ordinary tank after a step is what was in it, less what the step reports as
/// drawn, and what it reports as coming in, within one joule. The tank neither conducts heat
/// nor loses it, and none is injected.
pub proof fn ordinary_draws_balance_to_a_joule(
    tank: TankModel,
    ambient_temp_c: Double,
    d: Double,
    mains_temp_c: Double,
    seconds: Double,
)
    requires
        is_ordinary_draw(tank, d, mains_temp_c),
        is_tight(tank),
        within(ambient_temp_c, 900),
        seconds.is_finite(),
    ensures
        ({
            let joule = pow2(1074) * pow2(1074);
            let (after, result) = tank.stepped(
                ambient_temp_c,
                d,
                mains_temp_c,
                Seq::empty(),
                seconds,
            );
            let before_j = HEAT_OF_WATER * heat(tank.node_temps_c, tank.node_volumes_m3);
            let after_j = HEAT_OF_WATER * heat(after.node_temps_c, tank.node_volumes_m3);
            &&& result is Ok
            &&& size(
                after_j - before_j + (result->Ok_0.energy_out_j.units()
                    - result->Ok_0.energy_in_j.units()) * pow2(1074),
            ) <= joule
        }),
{
    let s = pow2(1074) as int;
    let volumes = tank.node_volumes_m3;
    let hot = tank.conducted(ambient_temp_c, seconds);
    let drawn = hot.drawn(d, mains_temp_c);
    let outlet = tank.node_temps_c[0];
    let summary = hot.draw_summary(d, mains_temp_c, outlet, Double::zero());
    let (after, result) = tank.stepped(ambient_temp_c, d, mains_temp_c, Seq::empty(), seconds);
    lemma_tight_tank_rests(tank, ambient_temp_c, seconds);
    crate::ranges::within_is_finite(ambient_temp_c, 900, 900);
    crate::ranges::within_is_finite(mains_temp_c, 8, 8);
    lemma_same_heat(hot.node_temps_c, tank.node_temps_c, volumes);
    lemma_ordinary_is_draw(hot, d, mains_temp_c);
    assert(hot.heated(Seq::empty(), seconds) == (hot, None::<crate::error::Fault>));
    assert(after == drawn.settled());
    assert(result->Ok_0 == summary);
    assert forall|i: int| 0 <= i < hot.n() implies within(#[trigger] drawn.node_temps_c[i], 45)
        && drawn.node_temps_c[i].is_finite() by {
        if d.same(Double::zero()) {
            assert(within(hot.node_temps_c[i], 8));
            crate::ranges::within_is_finite(hot.node_temps_c[i], 8, 45);
        } else {
            lemma_displaced_is_within(hot, i, d, mains_temp_c);
        }
    }
    if is_positive(d) {
        lemma_draw_energy_is_finite(hot, d, mains_temp_c, outlet);
    } else {
        crate::double_laws::lemma_units_zero();
        crate::double_laws::order_agrees_with_value(Double::zero(), d);
    }
    crate::draws::draws_balance(hot, d, mains_temp_c, outlet, Double::zero());
    lemma_mixing_is_definite(tank, drawn.node_temps_c);
    crate::conservation::mixing_keeps_heat(drawn.node_temps_c, volumes);
    lemma_gross_after(hot, d, mains_temp_c);
    lemma2_to64_rest();
    lemma_pow2_strictly_increases(64, 1074);
    let out = summary.energy_out_j.units();
    let coming = summary.energy_in_j.units();
    assert((coming - out) * s == -((out - coming) * s)) by (nonlinear_arith);
    let h0 = heat(tank.node_temps_c, volumes);
    let h3 = heat(drawn.node_temps_c, volumes);
    let h4 = heat(after.node_temps_c, volumes);
    let ss = s * s;
    assert(ss >= 0x1_0000_0000_0000_0000 * s) by (nonlinear_arith)
        requires
            ss == s * s,
            s >= 0x1_0000_0000_0000_0000,
    ;
    lemma_joule(
        h0,
        h3,
        h4,
        (coming - out) * s,
        hot.total_volume_m3.units() * total_of(
            sizes(column_temps(hot, mains_temp_c)),
            hot.n() + 1,
        ),
        hot.total_volume_m3.units(),
        gross_heat(drawn.node_temps_c, volumes),
        span(volumes, 0, hot.n() as int),
        s,
        ss,
    );
}

proof fn lemma_joule(
    h0: int,
    h3: int,
    h4: int,
    gained: int,
    warm: int,
    total: int,
    gross: int,
    volume: int,
    s: int,
    ss: int,
)
    requires
        0 < s,
        ss >= 0x1_0000_0000_0000_0000 * s,
        size(HEAT_OF_WATER * (h3 - h0) - gained) * P44 <= HEAT_OF_WATER * (warm + P52 * (total
            + s)),
        size(h4 - h3) * P38 <= gross + P43 * (volume + s),
        warm <= 13312 * ss,
        total <= 4 * s,
        gross <= 20000 * ss + 400 * s,
        volume <= 8 * s,
    ensures
        size(HEAT_OF_WATER * h4 - HEAT_OF_WATER * h0 - gained) <= ss,
{
    let e3 = size(HEAT_OF_WATER * (h3 - h0) - gained);
    let e4 = size(h4 - h3);
    assert(e3 * P44 <= HEAT_OF_WATER * (13312 * ss + P52 * (5 * s)));
    assert(8 * e3 <= ss);
    assert(e4 * P38 <= 20001 * ss);
    assert(HEAT_OF_WATER * e4 * P38 <= HEAT_OF_WATER * (20001 * ss));
    assert(2 * (HEAT_OF_WATER * e4) <= ss);
}

} // verus!
