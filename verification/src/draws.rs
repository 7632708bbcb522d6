//! What a draw keeps: the heat that the tank loses leaves with the water drawn, and what it
//! gains comes with the mains water, but for the last digits.
use vstd::arithmetic::mul::*;
use vstd::arithmetic::power2::*;
use vstd::prelude::*;

use crate::conservation::{heat, span};
use crate::double::Double;
use crate::precision::{size, P44};
use crate::rounding::{P52, P53};
use crate::tank::{is_nonnegative, is_positive, StratifiedTankConfig, TankModel};

verus! {

// ---------------------------------------------------------------------------
// Intervals
// ---------------------------------------------------------------------------

/// How much two intervals share.
pub open spec fn shared(a0: int, a1: int, b0: int, b1: int) -> int {
    let end = if a1 < b1 {
        a1
    } else {
        b1
    };
    let start = if a0 < b0 {
        b0
    } else {
        a0
    };
    if end > start {
        end - start
    } else {
        0
    }
}

/// An overlap is finite and off by at most one part in `2^53`.
#[verifier::rlimit(40)]
proof fn lemma_overlap_is_close(a0: Double, a1: Double, b0: Double, b1: Double)
    requires
        a0.is_finite(),
        a1.is_finite(),
        b0.is_finite(),
        b1.is_finite(),
        0 <= a0.units(),
    ensures
        ({
            let r = crate::tank::overlap_length(a0, a1, b0, b1);
            let exact = shared(a0.units(), a1.units(), b0.units(), b1.units());
            &&& r.is_finite()
            &&& size(r.units() - exact) * P53 <= exact
            &&& r.gt(Double::zero()) == (exact > 0)
        }),
{
    let end = a1.min(b1);
    let start = a0.max(b0);
    let d = end.minus(start);
    lemma_smaller(a1, b1);
    lemma_larger(a0, b0);
    crate::double_laws::lemma_units_zero();
    if end.units() > start.units() {
        lemma_difference_is_positive(end, start);
        crate::double_laws::order_agrees_with_value(Double::zero(), d);
    } else {
        crate::double_laws::order_agrees_with_value(end, start);
        crate::double_laws::difference_is_not_positive(end, start);
    }
}

proof fn lemma_smaller(a: Double, b: Double)
    requires
        a.is_finite(),
        b.is_finite(),
    ensures
        a.min(b).is_finite(),
        a.min(b).units() == if a.units() < b.units() {
            a.units()
        } else {
            b.units()
        },
{
    crate::double_laws::order_agrees_with_value(b, a);
}

proof fn lemma_larger(a: Double, b: Double)
    requires
        a.is_finite(),
        b.is_finite(),
    ensures
        a.max(b).is_finite(),
        a.max(b).units() == if a.units() < b.units() {
            b.units()
        } else {
            a.units()
        },
{
    crate::double_laws::order_agrees_with_value(a, b);
}

/// A larger number less a smaller one, which is not below zero, is above zero and close.
proof fn lemma_difference_is_positive(a: Double, b: Double)
    requires
        a.is_finite(),
        b.is_finite(),
        0 <= b.units() < a.units(),
    ensures
        a.minus(b).is_finite(),
        a.minus(b).gt(Double::zero()),
        size(a.minus(b).units() - (a.units() - b.units())) * P53 <= a.units() - b.units(),
{
    assert(b.negate().units() == -b.units());
    lemma_difference_is_finite(a, b);
    crate::precision::sums_are_close(a, b.negate());
}

proof fn lemma_difference_is_finite(a: Double, b: Double)
    requires
        a.is_finite(),
        b.is_finite(),
        0 <= b.units() < a.units(),
    ensures
        a.minus(b).is_finite(),
        a.minus(b).gt(Double::zero()),
{
    reveal(Double::spec_plus);
    assert(b.negate().units() == -b.units());
    let x = a.units() - b.units();
    let m = crate::rounding::round_mag(x as nat, 1);
    crate::double_laws::lemma_signed_mag(m);
    crate::double_laws::lemma_units_zero();
    assert(!a.negative());
    assert(crate::rounding::mag_units(a.mag()) * 1 == a.units());
    crate::double_laws::rounding_stays_below(x as nat, 1, a.mag());
    crate::double_laws::rounding_inverts_decoding(1, 1);
    crate::double_laws::lemma_one_unit();
    crate::double_laws::rounding_is_monotone(1, 1, x as nat, 1);
}

// ---------------------------------------------------------------------------
// Sums of overlaps
// ---------------------------------------------------------------------------

/// The first `n` nodes' share of volume times temperature between `a0` and `a1`, in exact
/// numbers: node `j` lies between `marks[j]` and `marks[j + 1]`.
pub open spec fn exact_energy(marks: Seq<int>, temps: Seq<int>, a0: int, a1: int, n: nat) -> int
    decreases n,
{
    if n == 0 {
        0
    } else {
        exact_energy(marks, temps, a0, a1, (n - 1) as nat) + temps[n - 1] * shared(
            a0,
            a1,
            marks[n - 1],
            marks[n as int],
        )
    }
}

/// The sizes of some numbers.
pub open spec fn sizes(temps: Seq<int>) -> Seq<int> {
    Seq::new(temps.len(), |i: int| size(temps[i]))
}

pub(crate) proof fn lemma_energy_is_at_most_gross(
    marks: Seq<int>,
    temps: Seq<int>,
    a0: int,
    a1: int,
    n: nat,
)
    requires
        n <= temps.len(),
    ensures
        size(exact_energy(marks, temps, a0, a1, n)) <= exact_energy(
            marks,
            sizes(temps),
            a0,
            a1,
            n,
        ),
    decreases n,
{
    if n > 0 {
        lemma_energy_is_at_most_gross(marks, temps, a0, a1, (n - 1) as nat);
        let x = shared(a0, a1, marks[n - 1], marks[n as int]);
        crate::precision::lemma_size_of_product(temps[n - 1], x);
        assert(sizes(temps)[n - 1] == size(temps[n - 1]));
    }
}

/// What the roundings of one more term add up to.
proof fn lemma_term_total(
    n: int,
    d: int,
    by_sum: int,
    before: int,
    by_product: int,
    by_overlap: int,
    e: int,
    p: int,
    ot: int,
    y: int,
    y1: int,
    s: int,
)
    requires
        0 <= n <= 13,
        0 < s,
        0 <= y,
        0 <= y1,
        d <= by_sum + before + by_product + by_overlap,
        by_sum * P53 <= e + p,
        before * P53 <= 8 * n * y + n * s * P53,
        by_product * P53 <= ot + s * P52,
        by_overlap * P53 <= y1,
        e <= y + before,
        p <= ot + by_product,
        0 <= ot <= 2 * y1,
    ensures
        d * P53 <= 8 * (n + 1) * (y + y1) + (n + 1) * s * P53,
{
    let ny = n * y;
    let ns = n * s;
    assert(8 * n * y == 8 * ny && n * s * P53 == ns * P53) by (nonlinear_arith)
        requires
            ny == n * y,
            ns == n * s,
    ;
    assert(8 * (n + 1) * (y + y1) == 8 * ny + 8 * y + 8 * (n * y1) + 8 * y1 && (n + 1) * s * P53
        == ns * P53 + s * P53) by (nonlinear_arith)
        requires
            ny == n * y,
            ns == n * s,
    ;
    assert(0 <= ny <= 13 * y && 0 <= ns <= 13 * s && 0 <= n * y1) by (nonlinear_arith)
        requires
            ny == n * y,
            ns == n * s,
            0 <= n <= 13,
            0 <= y,
            0 <= y1,
            0 < s,
    ;
    assert(before <= y + ns);
    assert(by_product <= ot + s);
}

/// One more term keeps a sum of overlaps close.
#[verifier::rlimit(40)]
proof fn lemma_add_term(
    n: int,
    e: int,
    x: int,
    y: int,
    o: int,
    ov: int,
    t: int,
    p: int,
    e2: int,
    s: int,
)
    requires
        0 <= n <= 13,
        0 < s,
        size(e * s - x) * P53 <= 8 * n * y + n * s * P53,
        size(x) <= y,
        0 <= ov,
        size(o - ov) * P53 <= ov,
        size(p * s - o * t) * P53 <= size(o * t) + s * P52,
        size(e2 - (e + p)) * P53 <= size(e + p),
    ensures
        size(e2 * s - (x + t * ov)) * P53 <= 8 * (n + 1) * (y + size(t) * ov) + (n + 1) * s * P53,
{
    let y1 = size(t) * ov;
    let by_sum = size(e2 * s - (e * s + p * s));
    crate::precision::lemma_size_of_product(e2 - (e + p), s);
    crate::precision::lemma_size_of_product(e + p, s);
    assert((e2 - (e + p)) * s == e2 * s - (e * s + p * s) && (e + p) * s == e * s + p * s)
        by (nonlinear_arith);
    assert(by_sum * P53 <= size(e * s + p * s)) by (nonlinear_arith)
        requires
            by_sum == size(e2 - (e + p)) * size(s),
            size(e * s + p * s) == size(e + p) * size(s),
            size(e2 - (e + p)) * P53 <= size(e + p),
            size(s) >= 0,
    ;
    let by_overlap = size(o * t - t * ov);
    crate::precision::lemma_size_of_product(o - ov, t);
    crate::precision::lemma_size_of_product(o, t);
    assert((o - ov) * t == o * t - t * ov) by (nonlinear_arith);
    assert(by_overlap * P53 <= y1) by (nonlinear_arith)
        requires
            by_overlap == size(o - ov) * size(t),
            size(o - ov) * P53 <= ov,
            y1 == size(t) * ov,
            size(t) >= 0,
    ;
    assert(0 <= o <= 2 * ov);
    assert(0 <= y1 && size(o * t) <= 2 * y1) by (nonlinear_arith)
        requires
            size(o * t) == size(o) * size(t),
            0 <= size(o) <= 2 * ov,
            y1 == size(t) * ov,
            size(t) >= 0,
            ov >= 0,
    ;
    lemma_term_total(
        n,
        size(e2 * s - (x + t * ov)),
        by_sum,
        size(e * s - x),
        size(p * s - o * t),
        by_overlap,
        size(e * s),
        size(p * s),
        size(o * t),
        y,
        y1,
        s,
    );
}

/// What edges and temperatures are in exact numbers, as far as the first `n` nodes go.
pub open spec fn is_exact(
    edges: Seq<Double>,
    temps: Seq<Double>,
    shift: Option<Double>,
    marks: Seq<int>,
    exact_temps: Seq<int>,
    n: nat,
) -> bool {
    &&& n < edges.len()
    &&& n <= temps.len()
    &&& n < marks.len()
    &&& n <= exact_temps.len()
    &&& forall|j: int|
        0 <= j <= n ==> crate::tank::shifted(#[trigger] edges[j], shift).is_finite() && marks[j]
            == crate::tank::shifted(edges[j], shift).units()
    &&& forall|j: int|
        0 <= j < n ==> (#[trigger] temps[j]).is_finite() && exact_temps[j] == temps[j].units()
}

/// A sum of overlaps is close to the exact one.
#[verifier::rlimit(40)]
pub(crate) proof fn lemma_overlap_energy_is_close(
    edges: Seq<Double>,
    temps: Seq<Double>,
    shift: Option<Double>,
    start: Double,
    end: Double,
    marks: Seq<int>,
    exact_temps: Seq<int>,
    n: nat,
)
    requires
        is_exact(edges, temps, shift, marks, exact_temps, n),
        n <= 12,
        start.is_finite(),
        end.is_finite(),
        0 <= start.units(),
        crate::tank::overlap_energy(edges, temps, shift, start, end, n).is_finite(),
    ensures
        size(
            crate::tank::overlap_energy(edges, temps, shift, start, end, n).units() * pow2(1074)
                - exact_energy(marks, exact_temps, start.units(), end.units(), n),
        ) * P53 <= 8 * n * exact_energy(
            marks,
            sizes(exact_temps),
            start.units(),
            end.units(),
            n,
        ) + n * pow2(1074) * P53,
    decreases n,
{
    let s = pow2(1074) as int;
    lemma_pow2_pos(1074);
    crate::double_laws::lemma_units_zero();
    if n == 0 {
        assert(0 * s == 0);
        assert(8 * 0 * 0 == 0 && 0 * s * P53 == 0) by (nonlinear_arith);
    } else {
        let above = crate::tank::overlap_energy(edges, temps, shift, start, end, (n - 1) as nat);
        let b0 = crate::tank::shifted(edges[n - 1], shift);
        let b1 = crate::tank::shifted(edges[n as int], shift);
        let overlap = crate::tank::overlap_length(start, end, b0, b1);
        let all = crate::tank::overlap_energy(edges, temps, shift, start, end, n);
        lemma_overlap_is_close(start, end, b0, b1);
        let ov = shared(start.units(), end.units(), b0.units(), b1.units());
        let x = exact_energy(marks, exact_temps, start.units(), end.units(), (n - 1) as nat);
        let y = exact_energy(marks, sizes(exact_temps), start.units(), end.units(), (n - 1) as nat);
        let t = exact_temps[n - 1];
        lemma_energy_is_at_most_gross(
            marks,
            exact_temps,
            start.units(),
            end.units(),
            (n - 1) as nat,
        );
        assert(sizes(exact_temps)[n - 1] == size(t));
        if overlap.gt(Double::zero()) {
            let term = overlap.times(temps[n - 1]);
            crate::double_laws::lemma_sum_of_finite(above, term);
            lemma_overlap_energy_is_close(
                edges,
                temps,
                shift,
                start,
                end,
                marks,
                exact_temps,
                (n - 1) as nat,
            );
            crate::precision::products_are_close(overlap, temps[n - 1]);
            crate::precision::sums_are_close(above, term);
            lemma_add_term(
                n - 1,
                above.units(),
                x,
                y,
                overlap.units(),
                ov,
                t,
                term.units(),
                all.units(),
                s,
            );
        } else {
            lemma_overlap_energy_is_close(
                edges,
                temps,
                shift,
                start,
                end,
                marks,
                exact_temps,
                (n - 1) as nat,
            );
            assert(t * 0 == 0 && size(t) * 0 == 0);
            assert(8 * (n - 1) * y + (n - 1) * s * P53 <= 8 * n * y + n * s * P53)
                by (nonlinear_arith)
                requires
                    y >= 0,
                    s >= 0,
            ;
        }
    }
}

// ---------------------------------------------------------------------------
// The edges of the nodes
// ---------------------------------------------------------------------------

/// A tank whose volumes are positive and whose edges are their partial sums.
pub open spec fn is_built(tank: TankModel) -> bool {
    &&& tank.wf()
    &&& tank.node_edges_m3 == crate::tank::node_edges(tank.node_volumes_m3)
    &&& tank.total_volume_m3 == crate::tank::sum(tank.node_volumes_m3)
    &&& forall|i: int| 0 <= i < tank.n() ==> is_positive(#[trigger] tank.node_volumes_m3[i])
}

/// A tank is built with edges that are the partial sums of its volumes.
pub proof fn tanks_are_built(config: StratifiedTankConfig)
    requires
        config.fault() is None,
        forall|i: int| 0 <= i < config.volumes().len() ==> is_positive(#[trigger] config.volumes()[i]),
    ensures
        is_built(config.model()),
{
}

/// What happens to the temperatures of a tank does not change how it is built.
pub proof fn tanks_stay_built(tank: TankModel, other: TankModel)
    requires
        is_built(tank),
        other.same_shape(tank),
        other.n() == tank.n(),
    ensures
        is_built(other),
{
}

proof fn lemma_edges_are_finite(tank: TankModel, j: int)
    requires
        is_built(tank),
        0 <= j <= tank.n(),
    ensures
        tank.node_edges_m3[j].is_finite(),
        j == tank.n() ==> tank.node_edges_m3[j] == tank.total_volume_m3,
        j < tank.n() ==> tank.node_edges_m3[j + 1] == tank.node_edges_m3[j].plus(
            tank.node_volumes_m3[j],
        ),
    decreases tank.n() - j,
{
    let volumes = tank.node_volumes_m3;
    if j == tank.n() {
        assert(volumes.take(j) =~= volumes);
    } else {
        assert(volumes.take(j + 1).drop_last() =~= volumes.take(j));
        lemma_edges_are_finite(tank, j + 1);
        crate::double_laws::lemma_sum_of_finite(tank.node_edges_m3[j], volumes[j]);
    }
}

/// Each edge is the one above it and the volume between them.
pub(crate) proof fn lemma_edges_sum(tank: TankModel, j: int)
    requires
        is_built(tank),
        0 <= j < tank.n(),
    ensures
        tank.node_edges_m3[j + 1] == tank.node_edges_m3[j].plus(tank.node_volumes_m3[j]),
{
    lemma_edges_are_finite(tank, j);
}

/// The edges begin at zero and go down to the total volume, each being close to the one
/// above it and the volume between them.
pub(crate) proof fn lemma_edges(tank: TankModel, j: int)
    requires
        is_built(tank),
        0 <= j <= tank.n(),
    ensures
        tank.node_edges_m3[j].is_finite(),
        0 <= tank.node_edges_m3[j].units() <= tank.total_volume_m3.units(),
        j == 0 ==> tank.node_edges_m3[j].units() == 0,
        j == tank.n() ==> tank.node_edges_m3[j] == tank.total_volume_m3,
        j < tank.n() ==> {
            let e = tank.node_edges_m3[j].units();
            let v = tank.node_volumes_m3[j].units();
            &&& 0 < v
            &&& e <= tank.node_edges_m3[j + 1].units()
            &&& size(tank.node_edges_m3[j + 1].units() - (e + v)) * P53 <= e + v
        },
{
    lemma_edges_rise(tank, 0, j);
    lemma_edges_rise(tank, j, tank.n() as int);
    lemma_edges_are_finite(tank, 0);
    lemma_edges_are_finite(tank, j);
    lemma_edges_are_finite(tank, tank.n() as int);
    crate::double_laws::lemma_units_zero();
    assert(tank.node_volumes_m3.take(0) =~= Seq::<Double>::empty());
    if j < tank.n() {
        lemma_edges_rise(tank, j, j + 1);
        lemma_edges_are_finite(tank, j + 1);
        let v = tank.node_volumes_m3[j];
        assert(is_positive(v));
        crate::double_laws::order_agrees_with_value(Double::zero(), v);
        crate::precision::sums_are_close(tank.node_edges_m3[j], v);
    }
}

proof fn lemma_edges_rise(tank: TankModel, i: int, j: int)
    requires
        is_built(tank),
        0 <= i <= j <= tank.n(),
    ensures
        tank.node_edges_m3[i].units() <= tank.node_edges_m3[j].units(),
    decreases j - i,
{
    if i < j {
        lemma_edges_rise(tank, i + 1, j);
        lemma_edges_are_finite(tank, i);
        lemma_edges_are_finite(tank, i + 1);
        assert(is_positive(tank.node_volumes_m3[i]));
        crate::double_laws::steps_are_ordered(tank.node_edges_m3[i], tank.node_volumes_m3[i]);
        crate::double_laws::order_agrees_with_value(
            tank.node_edges_m3[i],
            tank.node_edges_m3[i + 1],
        );
    }
}

/// An edge moved up is finite and close to where it belongs.
#[verifier::rlimit(40)]
pub(crate) proof fn lemma_moved_edge(e: Double, d: Double)
    requires
        e.is_finite(),
        d.is_finite(),
        0 <= e.units(),
        0 <= d.units(),
    ensures
        e.minus(d).is_finite(),
        -d.units() <= e.minus(d).units() <= e.units(),
        size(e.minus(d).units() - (e.units() - d.units())) * P53 <= size(e.units() - d.units()),
        d.units() <= e.units() ==> 0 <= e.minus(d).units(),
{
    reveal(Double::spec_plus);
    let low = d.negate();
    let m = e.minus(d);
    let zero_negative = e.negative() && low.negative();
    assert(low.units() == -d.units());
    crate::double_laws::lemma_units_zero();
    crate::double_laws::rounding_keeps_finite(low, false);
    crate::double_laws::rounding_keeps_finite(e, false);
    crate::double_laws::rounding_keeps_order(
        low.units(),
        e.units() + low.units(),
        false,
        zero_negative,
    );
    crate::double_laws::rounding_keeps_order(
        e.units() + low.units(),
        e.units(),
        zero_negative,
        false,
    );
    assert(m == Double::rounded(e.units() + low.units(), 1, zero_negative));
    assert(m.is_finite());
    crate::double_laws::order_agrees_with_value(low, m);
    crate::double_laws::order_agrees_with_value(m, e);
    crate::precision::sums_are_close(e, low);
    if d.units() <= e.units() {
        crate::double_laws::rounding_keeps_finite(Double::zero(), false);
        crate::double_laws::rounding_keeps_order(0, e.units() + low.units(), false, zero_negative);
        crate::double_laws::order_agrees_with_value(Double::zero(), m);
    }
}

/// Edges moved up stay in order.
#[verifier::rlimit(40)]
proof fn lemma_moved_edges_rise(e1: Double, e2: Double, d: Double)
    requires
        e1.is_finite(),
        e2.is_finite(),
        d.is_finite(),
        0 <= e1.units() <= e2.units(),
        0 <= d.units(),
    ensures
        e1.minus(d).units() <= e2.minus(d).units(),
{
    let low = d.negate();
    lemma_moved_edge(e1, d);
    lemma_moved_edge(e2, d);
    let zero1 = e1.negative() && low.negative();
    let zero2 = e2.negative() && low.negative();
    assert(low.units() == -d.units());
    assert(e1.minus(d) == Double::rounded(e1.units() + low.units(), 1, zero1)) by {
        reveal(Double::spec_plus);
    }
    assert(e2.minus(d) == Double::rounded(e2.units() + low.units(), 1, zero2)) by {
        reveal(Double::spec_plus);
    }
    crate::double_laws::rounding_keeps_order(
        e1.units() + low.units(),
        e2.units() + low.units(),
        zero1,
        zero2,
    );
    crate::double_laws::order_agrees_with_value(e1.minus(d), e2.minus(d));
}

// ---------------------------------------------------------------------------
// The nodes after a draw
// ---------------------------------------------------------------------------

/// Where the edges of the nodes come to lie when a volume is drawn; the mains water fills
/// what is left below them.
pub open spec fn moved_marks(tank: TankModel, d: Double) -> Seq<int> {
    Seq::new(
        tank.n() + 2,
        |j: int|
            if j <= tank.n() {
                tank.node_edges_m3[j].minus(d).units()
            } else {
                tank.total_volume_m3.units()
            },
    )
}

/// The temperatures of the nodes, and of the mains water below them.
pub open spec fn column_temps(tank: TankModel, mains_temp_c: Double) -> Seq<int> {
    Seq::new(
        tank.n() + 1,
        |j: int|
            if j < tank.n() {
                tank.node_temps_c[j].units()
            } else {
                mains_temp_c.units()
            },
    )
}

/// A draw from a tank that is built, of no more water than there is, everything being
/// finite.
pub open spec fn is_draw(tank: TankModel, d: Double, mains_temp_c: Double) -> bool {
    &&& is_built(tank)
    &&& is_nonnegative(d)
    &&& d.le(tank.total_volume_m3)
    &&& mains_temp_c.is_finite()
    &&& forall|i: int| 0 <= i < tank.n() ==> (#[trigger] tank.node_temps_c[i]).is_finite()
}

/// A draw of some water.
pub open spec fn takes_water(tank: TankModel, d: Double, mains_temp_c: Double) -> bool {
    is_draw(tank, d, mains_temp_c) && is_positive(d)
}

pub(crate) proof fn lemma_draw_is_within(tank: TankModel, d: Double, mains_temp_c: Double)
    requires
        takes_water(tank, d, mains_temp_c),
    ensures
        d.is_finite(),
        0 < d.units() <= tank.total_volume_m3.units(),
        tank.total_volume_m3.is_finite(),
{
    crate::double_laws::lemma_units_zero();
    crate::double_laws::order_agrees_with_value(Double::zero(), d);
    crate::double_laws::order_agrees_with_value(d, tank.total_volume_m3);
}

/// The marks rise from above the tank to its bottom.
#[verifier::rlimit(40)]
pub(crate) proof fn lemma_moved_marks(tank: TankModel, d: Double, mains_temp_c: Double, j: int)
    requires
        takes_water(tank, d, mains_temp_c),
        0 <= j <= tank.n() + 1,
    ensures
        moved_marks(tank, d)[j] <= tank.total_volume_m3.units(),
        j <= tank.n() ==> {
            let e = tank.node_edges_m3[j].units();
            &&& tank.node_edges_m3[j].minus(d).is_finite()
            &&& moved_marks(tank, d)[j] == tank.node_edges_m3[j].minus(d).units()
            &&& moved_marks(tank, d)[j] <= moved_marks(tank, d)[j + 1]
            &&& size(moved_marks(tank, d)[j] - (e - d.units())) * P53
                <= tank.total_volume_m3.units()
        },
        j == 0 ==> moved_marks(tank, d)[j] <= 0,
        j == tank.n() ==> 0 <= moved_marks(tank, d)[j],
{
    lemma_draw_is_within(tank, d, mains_temp_c);
    if j <= tank.n() {
        lemma_edges(tank, j);
        lemma_moved_edge(tank.node_edges_m3[j], d);
        if j < tank.n() {
            lemma_edges(tank, j + 1);
            lemma_moved_edges_rise(tank.node_edges_m3[j], tank.node_edges_m3[j + 1], d);
        }
    }
}

/// What the roundings of a node's temperature add up to.
proof fn lemma_node_total(k: int, total: int, x: int, y: int, q: int, v: int, s: int)
    requires
        0 <= k <= 13,
        0 < s,
        0 < v,
        size(x) <= y,
        size(total * s - x) * P53 <= 8 * k * y + k * s * P53,
        size(q * v - total * s) * P53 <= size(total) * s + v * P52,
    ensures
        size(q * v - x) * P53 <= 128 * y + v * P53 + 14 * (s * P53),
{
    crate::precision::lemma_size_of_product(total, s);
    assert(8 * k * y <= 104 * y && k * s * P53 <= 13 * (s * P53)) by (nonlinear_arith)
        requires
            0 <= k <= 13,
            0 <= y,
            0 < s,
    ;
    let off = size(total * s - x);
    assert(off * P53 <= 104 * y + 13 * (s * P53));
    assert(size(total * s) <= 2 * y + 14 * s);
    assert(size(q * v - x) <= size(q * v - total * s) + off);
}

/// The temperature of a node after a draw is close to that of the water that has come into
/// it.
#[verifier::rlimit(40)]
pub(crate) proof fn lemma_displaced_temp_is_close(
    tank: TankModel,
    i: int,
    d: Double,
    mains_temp_c: Double,
)
    requires
        takes_water(tank, d, mains_temp_c),
        0 <= i < tank.n(),
        tank.displaced_temp(i, d, mains_temp_c).is_finite(),
    ensures
        ({
            let marks = moved_marks(tank, d);
            let temps = column_temps(tank, mains_temp_c);
            let a0 = tank.node_edges_m3[i].units();
            let a1 = tank.node_edges_m3[i + 1].units();
            let v = tank.node_volumes_m3[i].units();
            let x = exact_energy(marks, temps, a0, a1, tank.n() + 1);
            let y = exact_energy(marks, sizes(temps), a0, a1, tank.n() + 1);
            size(tank.displaced_temp(i, d, mains_temp_c).units() * v - x) * P53 <= 128 * y + v
                * P53 + 14 * (pow2(1074) * P53)
        }),
{
    let n = tank.n();
    let s = pow2(1074) as int;
    let marks = moved_marks(tank, d);
    let temps = column_temps(tank, mains_temp_c);
    let start = tank.node_edges_m3[i];
    let end = tank.node_edges_m3[i + 1];
    let a0 = start.units();
    let a1 = end.units();
    let volume = tank.node_volumes_m3[i];
    let moved = crate::tank::overlap_energy(
        tank.node_edges_m3,
        tank.node_temps_c,
        Some(d),
        start,
        end,
        n,
    );
    let b0 = tank.total_volume_m3.minus(d);
    let b1 = tank.total_volume_m3;
    let mains = crate::tank::overlap_length(start, end, b0, b1);
    let term = mains.times(mains_temp_c);
    let total = if mains.gt(Double::zero()) {
        moved.plus(term)
    } else {
        moved
    };
    let result = tank.displaced_temp(i, d, mains_temp_c);
    lemma_pow2_pos(1074);
    lemma_draw_is_within(tank, d, mains_temp_c);
    lemma_edges(tank, i);
    lemma_edges(tank, i + 1);
    lemma_edges(tank, n as int);
    lemma_moved_marks(tank, d, mains_temp_c, n as int);
    assert(is_positive(volume));
    crate::double_laws::lemma_quotient_of_finite(total, volume);
    lemma_overlap_is_close(start, end, b0, b1);
    assert(is_exact(tank.node_edges_m3, tank.node_temps_c, Some(d), marks, temps, n)) by {
        assert forall|j: int|
            0 <= j <= n implies crate::tank::shifted(
            #[trigger] tank.node_edges_m3[j],
            Some(d),
        ).is_finite() && marks[j] == crate::tank::shifted(tank.node_edges_m3[j], Some(d)).units() by {
            lemma_moved_marks(tank, d, mains_temp_c, j);
        }
    }
    let x = exact_energy(marks, temps, a0, a1, n);
    let y = exact_energy(marks, sizes(temps), a0, a1, n);
    let t = mains_temp_c.units();
    let ov = shared(a0, a1, b0.units(), b1.units());
    assert(marks[n as int] == b0.units() && marks[(n + 1) as int] == b1.units());
    assert(temps[n as int] == t && sizes(temps)[n as int] == size(t));
    lemma_energy_is_at_most_gross(marks, temps, a0, a1, n);
    lemma_energy_is_at_most_gross(marks, temps, a0, a1, n + 1);
    if mains.gt(Double::zero()) {
        crate::double_laws::lemma_sum_of_finite(moved, term);
    }
    lemma_overlap_energy_is_close(
        tank.node_edges_m3,
        tank.node_temps_c,
        Some(d),
        start,
        end,
        marks,
        temps,
        n,
    );
    let x1 = exact_energy(marks, temps, a0, a1, n + 1);
    let y1 = exact_energy(marks, sizes(temps), a0, a1, n + 1);
    assert(x1 == x + t * ov);
    assert(y1 == y + size(t) * ov);
    if mains.gt(Double::zero()) {
        crate::precision::products_are_close(mains, mains_temp_c);
        crate::precision::sums_are_close(moved, term);
        lemma_add_term(
            n as int,
            moved.units(),
            x,
            y,
            mains.units(),
            ov,
            t,
            term.units(),
            total.units(),
            s,
        );
    } else {
        assert(t * 0 == 0 && size(t) * 0 == 0);
        assert(8 * n * y + n * s * P53 <= 8 * (n + 1) * y + (n + 1) * s * P53) by (nonlinear_arith)
            requires
                y >= 0,
                s >= 0,
        ;
    }
    crate::precision::quotients_are_close(total, volume);
    crate::double_laws::lemma_units_zero();
    crate::double_laws::order_agrees_with_value(Double::zero(), volume);
    lemma_node_total((n + 1) as int, total.units(), x1, y1, result.units(), volume.units(), s);
}

// ---------------------------------------------------------------------------
// The balance in exact numbers
// ---------------------------------------------------------------------------

/// What lies in two adjacent windows lies in both together.
pub(crate) proof fn lemma_windows_add_up(
    marks: Seq<int>,
    temps: Seq<int>,
    a0: int,
    a1: int,
    a2: int,
    n: nat,
)
    requires
        a0 <= a1 <= a2,
        n < marks.len(),
        forall|j: int| #![trigger marks[j]] 0 <= j < n ==> marks[j] <= marks[j + 1],
    ensures
        exact_energy(marks, temps, a0, a2, n) == exact_energy(marks, temps, a0, a1, n)
            + exact_energy(marks, temps, a1, a2, n),
    decreases n,
{
    if n > 0 {
        lemma_windows_add_up(marks, temps, a0, a1, a2, (n - 1) as nat);
        let b0 = marks[n - 1];
        let b1 = marks[n as int];
        let t = temps[n - 1];
        let x = shared(a0, a1, b0, b1);
        let y = shared(a1, a2, b0, b1);
        assert(b0 <= b1);
        assert(shared(a0, a2, b0, b1) == x + y);
        lemma_mul_is_distributive_add(t, x, y);
    }
}

/// Nothing lies in an empty window.
pub(crate) proof fn lemma_empty_window(marks: Seq<int>, temps: Seq<int>, a: int, n: nat)
    ensures
        exact_energy(marks, temps, a, a, n) == 0,
    decreases n,
{
    if n > 0 {
        lemma_empty_window(marks, temps, a, (n - 1) as nat);
        assert(temps[n - 1] * 0 == 0);
    }
}

/// The sum of the first `n` of some numbers.
pub open spec fn total_of(values: Seq<int>, n: nat) -> int
    decreases n,
{
    if n == 0 {
        0
    } else {
        total_of(values, (n - 1) as nat) + values[n - 1]
    }
}

/// No more than the whole window lies in each node.
pub(crate) proof fn lemma_energy_is_at_most_total(
    marks: Seq<int>,
    temps: Seq<int>,
    a0: int,
    a1: int,
    n: nat,
)
    requires
        a0 <= a1,
        n <= temps.len(),
        forall|j: int| 0 <= j < temps.len() ==> 0 <= #[trigger] temps[j],
    ensures
        0 <= exact_energy(marks, temps, a0, a1, n) <= (a1 - a0) * total_of(temps, n),
        0 <= total_of(temps, n),
    decreases n,
{
    if n > 0 {
        lemma_energy_is_at_most_total(marks, temps, a0, a1, (n - 1) as nat);
        let x = shared(a0, a1, marks[n - 1], marks[n as int]);
        let t = temps[n - 1];
        let w = a1 - a0;
        let before = total_of(temps, (n - 1) as nat);
        assert(0 <= t * x <= w * t) by (nonlinear_arith)
            requires
                0 <= x <= w,
                0 <= t,
        ;
        lemma_mul_is_distributive_add(w, before, t);
    } else {
        assert((a1 - a0) * 0 == 0);
    }
}

/// The heat of the nodes after a draw is close to that of the water that has come into
/// them.
#[verifier::rlimit(40)]
proof fn lemma_nodes_are_close(tank: TankModel, d: Double, mains_temp_c: Double, m: nat)
    requires
        takes_water(tank, d, mains_temp_c),
        m <= tank.n(),
        forall|i: int|
            0 <= i < tank.n() ==> (#[trigger] tank.drawn(
                d,
                mains_temp_c,
            ).node_temps_c[i]).is_finite(),
    ensures
        ({
            let marks = moved_marks(tank, d);
            let temps = column_temps(tank, mains_temp_c);
            let after = tank.drawn(d, mains_temp_c).node_temps_c;
            let edge = tank.node_edges_m3[m as int].units();
            size(
                heat(after.take(m as int), tank.node_volumes_m3) - exact_energy(
                    marks,
                    temps,
                    0,
                    edge,
                    tank.n() + 1,
                ),
            ) * P53 <= 128 * exact_energy(marks, sizes(temps), 0, edge, tank.n() + 1) + span(
                tank.node_volumes_m3,
                0,
                m as int,
            ) * P53 + 14 * m * (pow2(1074) * P53)
        }),
    decreases m,
{
    let n = tank.n();
    let marks = moved_marks(tank, d);
    let temps = column_temps(tank, mains_temp_c);
    let after = tank.drawn(d, mains_temp_c).node_temps_c;
    let volumes = tank.node_volumes_m3;
    let small = pow2(1074) * P53;
    lemma_edges(tank, m as int);
    if m == 0 {
        lemma_empty_window(marks, temps, 0, n + 1);
        lemma_empty_window(marks, sizes(temps), 0, n + 1);
        assert(14 * 0 * small == 0) by (nonlinear_arith);
    } else {
        let i = m - 1;
        let a0 = tank.node_edges_m3[i].units();
        let a1 = tank.node_edges_m3[m as int].units();
        lemma_nodes_are_close(tank, d, mains_temp_c, i as nat);
        lemma_edges(tank, i);
        lemma_draw_is_within(tank, d, mains_temp_c);
        assert forall|j: int| #![trigger marks[j]] 0 <= j < n + 1 implies marks[j] <= marks[j + 1] by {
            lemma_moved_marks(tank, d, mains_temp_c, j);
        }
        lemma_windows_add_up(marks, temps, 0, a0, a1, n + 1);
        lemma_windows_add_up(marks, sizes(temps), 0, a0, a1, n + 1);
        crate::double_laws::lemma_units_zero();
        crate::double_laws::order_agrees_with_value(d, Double::zero());
        assert(after[i] == tank.displaced_temp(i, d, mains_temp_c));
        lemma_displaced_temp_is_close(tank, i, d, mains_temp_c);
        assert(after.take(m as int).drop_last() =~= after.take(i));
        assert(after.take(m as int).last() == after[i]);
        assert(14 * m * small == 14 * i * small + 14 * small) by (nonlinear_arith)
            requires
                i == m - 1,
        ;
    }
}

/// What a node holds is drawn, or moves up, but for four parts in `2^53` of the tank.
#[verifier::rlimit(40)]
proof fn lemma_node_balance(
    e0: int,
    e1: int,
    v: int,
    d: int,
    s0: int,
    s1: int,
    total: int,
)
    requires
        0 <= e0 <= e1 <= total,
        0 < d <= total,
        0 < v,
        size(e1 - (e0 + v)) * P53 <= e0 + v,
        size(s0 - (e0 - d)) * P53 <= total,
        size(s1 - (e1 - d)) * P53 <= total,
        s0 <= s1 <= total,
    ensures
        size(v - shared(0, d, e0, e1) - shared(0, total, s0, s1)) * P53 <= 4 * total,
{
    let q0 = e0 - d;
    let q1 = e1 - d;
    let kept = (if q1 > 0 {
        q1
    } else {
        0
    }) - (if q0 > 0 {
        q0
    } else {
        0
    });
    let moved = (if s1 > 0 {
        s1
    } else {
        0
    }) - (if s0 > 0 {
        s0
    } else {
        0
    });
    assert(shared(0, total, s0, s1) == moved);
    assert(shared(0, d, e0, e1) == e1 - e0 - kept);
    assert(size(moved - kept) <= size(s0 - q0) + size(s1 - q1));
    assert(e0 + v <= 2 * e1);
}

/// The edges of the nodes in exact numbers.
pub open spec fn edge_marks(tank: TankModel) -> Seq<int> {
    Seq::new(tank.n() + 1, |j: int| tank.node_edges_m3[j].units())
}

/// What the first `m` nodes hold is drawn, or moves up.
#[verifier::rlimit(40)]
proof fn lemma_column_balance(tank: TankModel, d: Double, mains_temp_c: Double, m: nat)
    requires
        takes_water(tank, d, mains_temp_c),
        m <= tank.n(),
    ensures
        ({
            let temps = column_temps(tank, mains_temp_c);
            let total = tank.total_volume_m3.units();
            size(
                heat(tank.node_temps_c.take(m as int), tank.node_volumes_m3) - exact_energy(
                    edge_marks(tank),
                    temps,
                    0,
                    d.units(),
                    m,
                ) - exact_energy(moved_marks(tank, d), temps, 0, total, m),
            ) * P53 <= 4 * (total * total_of(sizes(temps), m))
        }),
    decreases m,
{
    let temps = column_temps(tank, mains_temp_c);
    let total = tank.total_volume_m3.units();
    if m == 0 {
        assert(total * 0 == 0);
    } else {
        let j = m - 1;
        let marks = moved_marks(tank, d);
        let edges = edge_marks(tank);
        lemma_column_balance(tank, d, mains_temp_c, j as nat);
        lemma_edges(tank, j);
        lemma_edges(tank, m as int);
        lemma_draw_is_within(tank, d, mains_temp_c);
        lemma_moved_marks(tank, d, mains_temp_c, j);
        lemma_moved_marks(tank, d, mains_temp_c, m as int);
        let v = tank.node_volumes_m3[j].units();
        let t = temps[j];
        let out = shared(0, d.units(), edges[j], edges[m as int]);
        let up = shared(0, total, marks[j], marks[m as int]);
        lemma_node_balance(
            edges[j],
            edges[m as int],
            v,
            d.units(),
            marks[j],
            marks[m as int],
            total,
        );
        let off = v - out - up;
        crate::precision::lemma_size_of_product(t, off);
        assert(size(t * off) * P53 <= 4 * (total * size(t))) by (nonlinear_arith)
            requires
                size(t * off) == size(t) * size(off),
                size(off) * P53 <= 4 * total,
                size(t) >= 0,
        ;
        assert(t * off == t * v - t * out - t * up) by (nonlinear_arith)
            requires
                off == v - out - up,
        ;
        let before = tank.node_temps_c.take(m as int);
        assert(before.drop_last() =~= tank.node_temps_c.take(j));
        assert(before.last() == tank.node_temps_c[j]);
        assert(sizes(temps)[j] == size(t));
        let sum = total_of(sizes(temps), j as nat);
        lemma_mul_is_distributive_add(total, sum, size(t));
    }
}

/// The volumes of the nodes are no more than twice the volume of the tank.
pub(crate) proof fn lemma_volumes_are_bounded(tank: TankModel, m: nat)
    requires
        is_built(tank),
        m <= tank.n(),
    ensures
        span(tank.node_volumes_m3, 0, m as int) * P53 <= tank.node_edges_m3[m as int].units() * P53
            + 2 * m * tank.total_volume_m3.units(),
    decreases m,
{
    let total = tank.total_volume_m3.units();
    lemma_edges(tank, m as int);
    if m > 0 {
        lemma_volumes_are_bounded(tank, (m - 1) as nat);
        lemma_edges(tank, m - 1);
        let e = tank.node_edges_m3[m - 1].units();
        let v = tank.node_volumes_m3[m - 1].units();
        assert(e + v <= 2 * total);
        assert(2 * m * total == 2 * (m - 1) * total + 2 * total) by (nonlinear_arith);
    }
}

/// The balance of a draw, the heat that comes and goes being counted exactly.
#[verifier::rlimit(40)]
proof fn lemma_draw_balance(tank: TankModel, d: Double, mains_temp_c: Double)
    requires
        takes_water(tank, d, mains_temp_c),
        forall|i: int|
            0 <= i < tank.n() ==> (#[trigger] tank.drawn(
                d,
                mains_temp_c,
            ).node_temps_c[i]).is_finite(),
    ensures
        ({
            let temps = column_temps(tank, mains_temp_c);
            let total = tank.total_volume_m3.units();
            let after = tank.drawn(d, mains_temp_c).node_temps_c;
            let out = exact_energy(edge_marks(tank), temps, 0, d.units(), tank.n());
            size(
                heat(after, tank.node_volumes_m3) - (heat(tank.node_temps_c, tank.node_volumes_m3)
                    - out + mains_temp_c.units() * d.units()),
            ) * P53 <= 132 * (total * total_of(sizes(temps), tank.n() + 1)) + 2 * (total * P53)
                + 168 * (pow2(1074) * P53)
        }),
{
    let n = tank.n();
    let temps = column_temps(tank, mains_temp_c);
    let marks = moved_marks(tank, d);
    let total = tank.total_volume_m3.units();
    let after = tank.drawn(d, mains_temp_c).node_temps_c;
    let small = pow2(1074) * P53;
    lemma_pow2_pos(1074);
    lemma_draw_is_within(tank, d, mains_temp_c);
    lemma_edges(tank, n as int);
    lemma_nodes_are_close(tank, d, mains_temp_c, n);
    lemma_column_balance(tank, d, mains_temp_c, n);
    lemma_volumes_are_bounded(tank, n);
    assert(after.take(n as int) =~= after);
    assert(tank.node_temps_c.take(n as int) =~= tank.node_temps_c);
    lemma_energy_is_at_most_total(marks, sizes(temps), 0, total, n + 1);
    lemma_energy_is_at_most_total(marks, sizes(temps), 0, total, n);
    lemma_moved_marks(tank, d, mains_temp_c, n as int);
    let t = mains_temp_c.units();
    let rest = shared(0, total, marks[n as int], marks[(n + 1) as int]);
    assert(rest == total - marks[n as int]);
    let off = rest - d.units();
    assert(size(off) * P53 <= total);
    crate::precision::lemma_size_of_product(t, off);
    assert(size(t * off) * P53 <= total * size(t)) by (nonlinear_arith)
        requires
            size(t * off) == size(t) * size(off),
            size(off) * P53 <= total,
            size(t) >= 0,
    ;
    assert(t * off == t * rest - t * d.units()) by (nonlinear_arith)
        requires
            off == rest - d.units(),
    ;
    assert(temps[n as int] == t && sizes(temps)[n as int] == size(t));
    let sum = total_of(sizes(temps), n);
    lemma_mul_is_distributive_add(total, sum, size(t));
    assert(total * sum >= 0 && total * size(t) >= 0) by (nonlinear_arith)
        requires
            total >= 0,
            sum >= 0,
            size(t) >= 0,
    ;
    assert(14 * n * small <= 168 * small && 2 * n * total <= 24 * total) by (nonlinear_arith)
        requires
            n <= 12,
            small >= 0,
            total >= 0,
    ;
}

// ---------------------------------------------------------------------------
// The heat that comes and goes
// ---------------------------------------------------------------------------

/// The heat [J] that warms a cubic metre of water by one degree.
pub const HEAT_OF_WATER: u64 = 4_183_000;

pub(crate) proof fn lemma_heat_of_water()
    ensures
        ({
            let r = crate::tank::water_density().times(crate::tank::water_specific_heat());
            &&& r.is_finite()
            &&& r.units() == HEAT_OF_WATER * pow2(1074)
        }),
{
    let h = pow2(1074);
    let a = Double::whole(1000);
    let b = Double::whole(4183);
    crate::precision::whole_numbers_are_exact(1000);
    crate::precision::whole_numbers_are_exact(4183);
    crate::double_laws::whole_is_small(1000);
    crate::double_laws::whole_is_small(4183);
    crate::double_laws::times_at_most(a, 64, b, 64);
    reveal(Double::spec_times);
    lemma_pow2_pos(1074);
    let num = crate::rounding::mag_units(a.mag()) * crate::rounding::mag_units(b.mag());
    assert(num == HEAT_OF_WATER as nat * h * h) by (nonlinear_arith)
        requires
            num == (1000 * h) * (4183 * h),
            HEAT_OF_WATER == 4_183_000,
    ;
    crate::double_laws::lemma_signed_mag(crate::rounding::round_mag(num, h));
    crate::double_laws::rounding_keeps_representable(num, h, HEAT_OF_WATER as nat, 1074);
}

/// A temperature times the heat of water is close.
proof fn lemma_heated(b: int, a: int, d: int, s: int)
    requires
        0 < s,
        0 < d,
        size(b * s - HEAT_OF_WATER * s * a) * P53 <= size(HEAT_OF_WATER * s * a) + s * P52,
    ensures
        size(b * d - HEAT_OF_WATER * (a * d)) * P53 <= HEAT_OF_WATER * size(a * d) + d * P52,
{
    let r = HEAT_OF_WATER as int;
    let x = b - r * a;
    assert(b * s - r * s * a == x * s && r * s * a == (r * a) * s) by (nonlinear_arith)
        requires
            x == b - r * a,
    ;
    crate::precision::lemma_size_of_product(x, s);
    crate::precision::lemma_size_of_product(r * a, s);
    crate::precision::lemma_size_of_product(r, a);
    crate::precision::lemma_size_of_product(x, d);
    crate::precision::lemma_size_of_product(a, d);
    assert(size(x) * P53 <= r * size(a) + P52) by (nonlinear_arith)
        requires
            size(x) * s * P53 <= (r * size(a)) * s + s * P52,
            s > 0,
    ;
    assert(x * d == b * d - r * (a * d)) by (nonlinear_arith)
        requires
            x == b - r * a,
    ;
    assert(size(x) * d * P53 <= r * (size(a) * d) + d * P52) by (nonlinear_arith)
        requires
            size(x) * P53 <= r * size(a) + P52,
            d > 0,
    ;
}

/// What the roundings of the heat that goes out add up to.
proof fn lemma_out_total(
    n: int,
    e: int,
    x: int,
    y: int,
    a: int,
    b: int,
    o: int,
    d: int,
    s: int,
)
    requires
        0 <= n <= 12,
        0 < s,
        0 < d,
        size(x) <= y,
        size(e * s - x) * P53 <= 8 * n * y + n * s * P53,
        size(a * d - e * s) * P53 <= size(e) * s + d * P52,
        size(b * s - HEAT_OF_WATER * s * a) * P53 <= size(HEAT_OF_WATER * s * a) + s * P52,
        size(o * s - b * d) * P53 <= size(b * d) + s * P52,
    ensures
        size(o * s - HEAT_OF_WATER * x) * P53 <= HEAT_OF_WATER * (128 * y + 13 * (s * P53) + d
            * P53),
{
    lemma_heated(b, a, d, s);
    crate::precision::lemma_size_of_product(e, s);
    assert(8 * n * y <= 96 * y && n * s * P53 <= 12 * (s * P53)) by (nonlinear_arith)
        requires
            0 <= n <= 12,
            0 <= y,
            0 < s,
    ;
    lemma_out_linear(
        size(o * s - HEAT_OF_WATER * x),
        size(o * s - b * d),
        size(b * d - HEAT_OF_WATER * (a * d)),
        size(a * d - e * s),
        size(e * s - x),
        size(b * d),
        size(a * d),
        size(e * s),
        y,
        d,
        s,
    );
}

proof fn lemma_out_linear(
    off: int,
    by_product: int,
    by_heat: int,
    by_quotient: int,
    by_sum: int,
    yd: int,
    z: int,
    f: int,
    y: int,
    d: int,
    s: int,
)
    requires
        0 < s,
        0 < d,
        0 <= y,
        0 <= f,
        off <= by_product + by_heat + HEAT_OF_WATER * by_quotient + HEAT_OF_WATER * by_sum,
        by_product * P53 <= yd + s * P52,
        by_heat * P53 <= HEAT_OF_WATER * z + d * P52,
        by_quotient * P53 <= f + d * P52,
        by_sum * P53 <= 96 * y + 12 * (s * P53),
        yd <= HEAT_OF_WATER * z + by_heat,
        0 <= z <= f + by_quotient,
        f <= y + by_sum,
    ensures
        off * P53 <= HEAT_OF_WATER * (128 * y + 13 * (s * P53) + d * P53),
{
}

/// What the roundings of the heat that comes in add up to.
proof fn lemma_in_total(t: int, b: int, i: int, d: int, s: int)
    requires
        0 < s,
        0 < d,
        size(b * s - HEAT_OF_WATER * s * t) * P53 <= size(HEAT_OF_WATER * s * t) + s * P52,
        size(i * s - b * d) * P53 <= size(b * d) + s * P52,
    ensures
        size(i * s - HEAT_OF_WATER * (t * d)) * P53 <= HEAT_OF_WATER * (4 * (size(t) * d) + s * P53
            + d * P53),
{
    lemma_heated(b, t, d, s);
    crate::precision::lemma_size_of_product(t, d);
    let td = size(t * d);
    let by_heat = size(b * d - HEAT_OF_WATER * (t * d));
    assert(size(b * d) <= HEAT_OF_WATER * td + by_heat);
    assert(size(i * s - HEAT_OF_WATER * (t * d)) <= size(i * s - b * d) + by_heat);
    assert(by_heat * P53 <= HEAT_OF_WATER * td + d * P52);
}

/// The heat that leaves with the water drawn is close to what that water holds.
#[verifier::rlimit(40)]
proof fn lemma_energy_out(
    tank: TankModel,
    d: Double,
    mains_temp_c: Double,
    outlet_temp_c: Double,
    unmet_load_w: Double,
)
    requires
        takes_water(tank, d, mains_temp_c),
        tank.draw_summary(
            d,
            mains_temp_c,
            outlet_temp_c,
            unmet_load_w,
        ).energy_out_j.is_finite(),
    ensures
        ({
            let summary = tank.draw_summary(d, mains_temp_c, outlet_temp_c, unmet_load_w);
            let temps = column_temps(tank, mains_temp_c);
            let total = tank.total_volume_m3.units();
            let out = exact_energy(edge_marks(tank), temps, 0, d.units(), tank.n());
            size(summary.energy_out_j.units() * pow2(1074) - HEAT_OF_WATER * out) * P53
                <= HEAT_OF_WATER * (128 * (total * total_of(sizes(temps), tank.n())) + 13 * (pow2(
                1074,
            ) * P53) + total * P53)
        }),
{
    let n = tank.n();
    let s = pow2(1074) as int;
    let edges = edge_marks(tank);
    let temps = column_temps(tank, mains_temp_c);
    let total = tank.total_volume_m3.units();
    let zero = Double::zero();
    let warmth = crate::tank::water_density().times(crate::tank::water_specific_heat());
    let energy = crate::tank::overlap_energy(
        tank.node_edges_m3,
        tank.node_temps_c,
        None,
        zero,
        d,
        n,
    );
    let depth = d.minus(zero);
    let mean = energy.over(depth);
    let per_volume = warmth.times(mean);
    let result = per_volume.times(d);
    lemma_pow2_pos(1074);
    crate::double_laws::lemma_units_zero();
    lemma_draw_is_within(tank, d, mains_temp_c);
    crate::double_laws::order_agrees_with_value(d, zero);
    assert(result == tank.draw_summary(
        d,
        mains_temp_c,
        outlet_temp_c,
        unmet_load_w,
    ).energy_out_j);
    crate::precision::lemma_less_zero(d);
    crate::double_laws::order_agrees_with_value(zero, depth);
    crate::double_laws::lemma_product_of_finite(per_volume, d);
    crate::double_laws::lemma_product_of_finite(warmth, mean);
    crate::double_laws::lemma_quotient_of_finite(energy, depth);
    assert(is_exact(tank.node_edges_m3, tank.node_temps_c, None, edges, temps, n)) by {
        assert forall|j: int|
            0 <= j <= n implies crate::tank::shifted(
            #[trigger] tank.node_edges_m3[j],
            None,
        ).is_finite() && edges[j] == crate::tank::shifted(tank.node_edges_m3[j], None).units() by {
            lemma_edges(tank, j);
        }
    }
    lemma_overlap_energy_is_close(
        tank.node_edges_m3,
        tank.node_temps_c,
        None,
        zero,
        d,
        edges,
        temps,
        n,
    );
    let x = exact_energy(edges, temps, 0, d.units(), n);
    let y = exact_energy(edges, sizes(temps), 0, d.units(), n);
    lemma_energy_is_at_most_gross(edges, temps, 0, d.units(), n);
    lemma_energy_is_at_most_total(edges, sizes(temps), 0, d.units(), n);
    lemma_heat_of_water();
    crate::precision::quotients_are_close(energy, depth);
    crate::precision::products_are_close(warmth, mean);
    crate::precision::products_are_close(per_volume, d);
    lemma_out_total(
        n as int,
        energy.units(),
        x,
        y,
        mean.units(),
        per_volume.units(),
        result.units(),
        d.units(),
        s,
    );
    let sum = total_of(sizes(temps), n);
    assert(d.units() * sum <= total * sum) by (nonlinear_arith)
        requires
            d.units() <= total,
            0 <= sum,
    ;
}

/// The heat that comes with the mains water is close to what that water holds.
proof fn lemma_energy_in(
    tank: TankModel,
    d: Double,
    mains_temp_c: Double,
    outlet_temp_c: Double,
    unmet_load_w: Double,
)
    requires
        takes_water(tank, d, mains_temp_c),
        tank.draw_summary(d, mains_temp_c, outlet_temp_c, unmet_load_w).energy_in_j.is_finite(),
    ensures
        ({
            let summary = tank.draw_summary(d, mains_temp_c, outlet_temp_c, unmet_load_w);
            let t = mains_temp_c.units();
            let total = tank.total_volume_m3.units();
            size(summary.energy_in_j.units() * pow2(1074) - HEAT_OF_WATER * (t * d.units())) * P53
                <= HEAT_OF_WATER * (4 * (total * size(t)) + pow2(1074) * P53 + total * P53)
        }),
{
    let t = mains_temp_c.units();
    let total = tank.total_volume_m3.units();
    let warmth = crate::tank::water_density().times(crate::tank::water_specific_heat());
    let per_volume = warmth.times(mains_temp_c);
    let result = per_volume.times(d);
    lemma_pow2_pos(1074);
    crate::double_laws::lemma_units_zero();
    lemma_draw_is_within(tank, d, mains_temp_c);
    crate::double_laws::order_agrees_with_value(d, Double::zero());
    crate::double_laws::lemma_product_of_finite(per_volume, d);
    lemma_heat_of_water();
    crate::precision::products_are_close(warmth, mains_temp_c);
    crate::precision::products_are_close(per_volume, d);
    lemma_in_total(t, per_volume.units(), result.units(), d.units(), pow2(1074) as int);
    assert(size(t) * d.units() <= total * size(t)) by (nonlinear_arith)
        requires
            d.units() <= total,
            0 <= size(t),
    ;
}

/// What a draw takes out of a tank and what it brings in account for the change of its heat:
/// they are off by one part in `2^44` of what the whole tank would hold at all temperatures
/// together, and by `2^-1066` times the volume and one. Temperatures or volumes so large
/// that they overflow are left out.
pub proof fn draws_balance(
    tank: TankModel,
    d: Double,
    mains_temp_c: Double,
    outlet_temp_c: Double,
    unmet_load_w: Double,
)
    requires
        is_draw(tank, d, mains_temp_c),
        forall|i: int|
            0 <= i < tank.n() ==> (#[trigger] tank.drawn(
                d,
                mains_temp_c,
            ).node_temps_c[i]).is_finite(),
        tank.draw_summary(
            d,
            mains_temp_c,
            outlet_temp_c,
            unmet_load_w,
        ).energy_out_j.is_finite(),
        tank.draw_summary(d, mains_temp_c, outlet_temp_c, unmet_load_w).energy_in_j.is_finite(),
    ensures
        ({
            let summary = tank.draw_summary(d, mains_temp_c, outlet_temp_c, unmet_load_w);
            let before = heat(tank.node_temps_c, tank.node_volumes_m3);
            let after = heat(tank.drawn(d, mains_temp_c).node_temps_c, tank.node_volumes_m3);
            let gain = (summary.energy_in_j.units() - summary.energy_out_j.units()) * pow2(1074);
            let total = tank.total_volume_m3.units();
            let temps = total_of(sizes(column_temps(tank, mains_temp_c)), tank.n() + 1);
            size(HEAT_OF_WATER * (after - before) - gain) * P44 <= HEAT_OF_WATER * (
            total * temps + P52 * (total + pow2(1074)))
        }),
{
    if is_positive(d) {
        lemma_draws_balance(tank, d, mains_temp_c, outlet_temp_c, unmet_load_w);
    } else {
        let temps = column_temps(tank, mains_temp_c);
        let total = tank.total_volume_m3.units();
        let sum = total_of(sizes(temps), tank.n() + 1);
        crate::double_laws::lemma_units_zero();
        crate::double_laws::order_agrees_with_value(Double::zero(), d);
        crate::double_laws::order_agrees_with_value(Double::zero(), tank.total_volume_m3);
        lemma_energy_is_at_most_total(edge_marks(tank), sizes(temps), 0, 0, tank.n() + 1);
        assert(0 * pow2(1074) == 0);
        assert(total * sum >= 0) by (nonlinear_arith)
            requires
                total >= 0,
                sum >= 0,
        ;
    }
}

#[verifier::rlimit(40)]
proof fn lemma_draws_balance(
    tank: TankModel,
    d: Double,
    mains_temp_c: Double,
    outlet_temp_c: Double,
    unmet_load_w: Double,
)
    requires
        takes_water(tank, d, mains_temp_c),
        forall|i: int|
            0 <= i < tank.n() ==> (#[trigger] tank.drawn(
                d,
                mains_temp_c,
            ).node_temps_c[i]).is_finite(),
        tank.draw_summary(
            d,
            mains_temp_c,
            outlet_temp_c,
            unmet_load_w,
        ).energy_out_j.is_finite(),
        tank.draw_summary(d, mains_temp_c, outlet_temp_c, unmet_load_w).energy_in_j.is_finite(),
    ensures
        ({
            let summary = tank.draw_summary(d, mains_temp_c, outlet_temp_c, unmet_load_w);
            let before = heat(tank.node_temps_c, tank.node_volumes_m3);
            let after = heat(tank.drawn(d, mains_temp_c).node_temps_c, tank.node_volumes_m3);
            let gain = (summary.energy_in_j.units() - summary.energy_out_j.units()) * pow2(1074);
            let total = tank.total_volume_m3.units();
            let temps = total_of(sizes(column_temps(tank, mains_temp_c)), tank.n() + 1);
            size(HEAT_OF_WATER * (after - before) - gain) * P44 <= HEAT_OF_WATER * (
            total * temps + P52 * (total + pow2(1074)))
        }),
{
    let n = tank.n();
    let s = pow2(1074) as int;
    let summary = tank.draw_summary(d, mains_temp_c, outlet_temp_c, unmet_load_w);
    let before = heat(tank.node_temps_c, tank.node_volumes_m3);
    let after = heat(tank.drawn(d, mains_temp_c).node_temps_c, tank.node_volumes_m3);
    let temps = column_temps(tank, mains_temp_c);
    let total = tank.total_volume_m3.units();
    let sum = total_of(sizes(temps), n);
    let t = mains_temp_c.units();
    let out = exact_energy(edge_marks(tank), temps, 0, d.units(), n);
    lemma_pow2_pos(1074);
    lemma_draw_is_within(tank, d, mains_temp_c);
    lemma_draw_balance(tank, d, mains_temp_c);
    lemma_energy_out(tank, d, mains_temp_c, outlet_temp_c, unmet_load_w);
    lemma_energy_in(tank, d, mains_temp_c, outlet_temp_c, unmet_load_w);
    assert(temps[n as int] == t && sizes(temps)[n as int] == size(t));
    lemma_energy_is_at_most_total(edge_marks(tank), sizes(temps), 0, d.units(), n);
    lemma_mul_is_distributive_add(total, sum, size(t));
    assert(total * sum >= 0 && total * size(t) >= 0) by (nonlinear_arith)
        requires
            total >= 0,
            sum >= 0,
            size(t) >= 0,
    ;
    let io = summary.energy_out_j.units() * s;
    let ii = summary.energy_in_j.units() * s;
    let gain = (summary.energy_in_j.units() - summary.energy_out_j.units()) * s;
    assert(gain == ii - io) by (nonlinear_arith)
        requires
            io == summary.energy_out_j.units() * s,
            ii == summary.energy_in_j.units() * s,
            gain == (summary.energy_in_j.units() - summary.energy_out_j.units()) * s,
    ;
    let td = t * d.units();
    let inside = size(after - (before - out + td));
    let leaving = size(io - HEAT_OF_WATER * out);
    let coming = size(ii - HEAT_OF_WATER * td);
    assert(size(HEAT_OF_WATER * (after - before) - gain) <= HEAT_OF_WATER * inside + leaving
        + coming);
    lemma_balance_linear(
        size(HEAT_OF_WATER * (after - before) - gain),
        inside,
        leaving,
        coming,
        total * sum,
        total * size(t),
        total,
        s,
    );
}

proof fn lemma_balance_linear(
    off: int,
    inside: int,
    leaving: int,
    coming: int,
    a: int,
    b: int,
    total: int,
    s: int,
)
    requires
        0 <= a,
        0 <= b,
        0 < total,
        0 < s,
        off <= HEAT_OF_WATER * inside + leaving + coming,
        inside * P53 <= 132 * (a + b) + 2 * (total * P53) + 168 * (s * P53),
        leaving * P53 <= HEAT_OF_WATER * (128 * a + 13 * (s * P53) + total * P53),
        coming * P53 <= HEAT_OF_WATER * (4 * b + s * P53 + total * P53),
    ensures
        off * P44 <= HEAT_OF_WATER * (a + b + P52 * (total + s)),
{
}

} // verus!
