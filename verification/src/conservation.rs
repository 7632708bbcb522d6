//! What water that mixes keeps: its heat, but for the last digits.
//!
//! The heat of some water, against water at 0 °C, is its temperature times its volume;
//! density and specific heat are the same for all of it. Here both are counted exactly, in
//! units of the smallest positive number.
use vstd::arithmetic::mul::*;
use vstd::arithmetic::power2::*;
use vstd::prelude::*;

use crate::double::Double;
use crate::mixing::Layer;
use crate::precision::{size, P38, P43, P44};
use crate::rounding::{P52, P53};

verus! {

/// The volume of the nodes from `from` up to `to`.
pub open spec fn span(volumes: Seq<Double>, from: int, to: int) -> int
    decreases to - from,
{
    if from >= to {
        0
    } else {
        span(volumes, from, to - 1) + volumes[to - 1].units()
    }
}

/// The heat of some nodes.
pub open spec fn heat(temps: Seq<Double>, volumes: Seq<Double>) -> int
    decreases temps.len(),
{
    if temps.len() == 0 {
        0
    } else {
        heat(temps.drop_last(), volumes) + temps.last().units() * volumes[temps.len()
            - 1].units()
    }
}

/// The sum of the sizes of the heats of some nodes: their heat, if none is below 0 °C.
pub open spec fn gross_heat(temps: Seq<Double>, volumes: Seq<Double>) -> int
    decreases temps.len(),
{
    if temps.len() == 0 {
        0
    } else {
        gross_heat(temps.drop_last(), volumes) + size(temps.last().units()) * volumes[temps.len()
            - 1].units()
    }
}

// ---------------------------------------------------------------------------
// One merge
// ---------------------------------------------------------------------------

/// Volumes that add up keep within two parts in `2^53` for each addition.
proof fn lemma_merged_volume(c1: int, c2: int, v1: int, v2: int, w1: int, w2: int, v: int)
    requires
        1 <= c1,
        1 <= c2,
        c1 + c2 <= 12,
        w1 > 0,
        w2 > 0,
        size(v1 - w1) * P53 <= 2 * (c1 - 1) * w1,
        size(v2 - w2) * P53 <= 2 * (c2 - 1) * w2,
        size(v - (v1 + v2)) * P53 <= size(v1 + v2),
    ensures
        size(v - (w1 + w2)) * P53 <= 2 * (c1 + c2 - 1) * (w1 + w2),
{
    assert(2 * (c1 - 1) * w1 <= 22 * w1 && 2 * (c2 - 1) * w2 <= 22 * w2) by (nonlinear_arith)
        requires
            1 <= c1,
            1 <= c2,
            c1 + c2 <= 12,
            w1 > 0,
            w2 > 0,
    ;
    assert(0 <= v1 <= 2 * w1);
    assert(0 <= v2 <= 2 * w2);
    assert(2 * w1 + 2 * w2 + 2 * (c1 - 1) * w1 + 2 * (c2 - 1) * w2 <= 2 * (c1 + c2 - 1) * (w1
        + w2)) by (nonlinear_arith)
        requires
            1 <= c1,
            1 <= c2,
            w1 > 0,
            w2 > 0,
    ;
}

/// What the roundings of a merge add up to.
proof fn lemma_merge_total(
    d: int,
    by_volume: int,
    by_quotient: int,
    by_sum: int,
    by_products: int,
    by_volumes: int,
    z: int,
    y: int,
    x: int,
    b: int,
    g: int,
    s: int,
    v: int,
    w: int,
)
    requires
        d <= by_volume + by_quotient + by_sum + by_products + by_volumes,
        by_volume * P53 <= 44 * z,
        by_quotient * P53 <= y + v * P52,
        by_sum * P53 <= x,
        by_products * P53 <= b + 2 * (s * P52),
        by_volumes * P53 <= 22 * g,
        z <= 2 * y + v,
        y <= 2 * x,
        x <= 2 * b + 2 * s,
        b <= 2 * g,
        v <= 2 * w,
        0 <= g,
        0 <= s,
        0 <= w,
    ensures
        d * P43 <= g + P44 * (w + s),
{
}

/// The heat of two layers and that of the layer they form, in exact numbers and their
/// roundings.
#[verifier::rlimit(40)]
proof fn lemma_merged_heat(
    t1: int,
    t2: int,
    v1: int,
    v2: int,
    w1: int,
    w2: int,
    p1: int,
    p2: int,
    n: int,
    v: int,
    q: int,
    s: int,
)
    requires
        s > 0,
        w1 > 0,
        w2 > 0,
        size(v1 - w1) * P53 <= 22 * w1,
        size(v2 - w2) * P53 <= 22 * w2,
        size(v - (w1 + w2)) * P53 <= 22 * (w1 + w2),
        size(p1 * s - t1 * v1) * P53 <= size(t1 * v1) + s * P52,
        size(p2 * s - t2 * v2) * P53 <= size(t2 * v2) + s * P52,
        size(n - (p1 + p2)) * P53 <= size(p1 + p2),
        size(q * v - n * s) * P53 <= size(n) * s + v * P52,
    ensures
        size(q * (w1 + w2) - (t1 * w1 + t2 * w2)) * P43 <= size(t1) * w1 + size(t2)
            * w2 + P44 * (w1 + w2 + s),
{
    let w = w1 + w2;
    let a1 = size(t1) * w1;
    let a2 = size(t2) * w2;
    let b1 = size(t1) * v1;
    let b2 = size(t2) * v2;
    let g = a1 + a2;
    assert(0 <= v1 <= 2 * w1);
    assert(0 <= v2 <= 2 * w2);
    assert(0 <= v <= 2 * w && w <= 2 * v);
    assert(0 <= a1 && 0 <= b1 <= 2 * a1) by (nonlinear_arith)
        requires
            a1 == size(t1) * w1,
            b1 == size(t1) * v1,
            0 <= v1 <= 2 * w1,
            size(t1) >= 0,
            w1 > 0,
    ;
    assert(0 <= a2 && 0 <= b2 <= 2 * a2) by (nonlinear_arith)
        requires
            a2 == size(t2) * w2,
            b2 == size(t2) * v2,
            0 <= v2 <= 2 * w2,
            size(t2) >= 0,
            w2 > 0,
    ;
    crate::precision::lemma_size_of_product(t1, v1);
    crate::precision::lemma_size_of_product(t2, v2);
    let d1 = t1 * (v1 - w1);
    let d2 = t2 * (v2 - w2);
    crate::precision::lemma_size_of_product(t1, v1 - w1);
    crate::precision::lemma_size_of_product(t2, v2 - w2);
    assert(size(d1) * P53 <= 22 * a1) by (nonlinear_arith)
        requires
            size(d1) == size(t1) * size(v1 - w1),
            size(v1 - w1) * P53 <= 22 * w1,
            a1 == size(t1) * w1,
            size(t1) >= 0,
    ;
    assert(size(d2) * P53 <= 22 * a2) by (nonlinear_arith)
        requires
            size(d2) == size(t2) * size(v2 - w2),
            size(v2 - w2) * P53 <= 22 * w2,
            a2 == size(t2) * w2,
            size(t2) >= 0,
    ;
    assert(d1 == t1 * v1 - t1 * w1 && d2 == t2 * v2 - t2 * w2) by (nonlinear_arith)
        requires
            d1 == t1 * (v1 - w1),
            d2 == t2 * (v2 - w2),
    ;
    let x1 = p1 * s;
    let x2 = p2 * s;
    let y = n * s;
    crate::precision::lemma_size_of_product(n - (p1 + p2), s);
    crate::precision::lemma_size_of_product(p1 + p2, s);
    crate::precision::lemma_size_of_product(n, s);
    assert((n - (p1 + p2)) * s == y - (x1 + x2) && (p1 + p2) * s == x1 + x2) by (nonlinear_arith)
        requires
            x1 == p1 * s,
            x2 == p2 * s,
            y == n * s,
    ;
    assert(size(y - (x1 + x2)) * P53 <= size(x1 + x2)) by (nonlinear_arith)
        requires
            size(y - (x1 + x2)) == size(n - (p1 + p2)) * size(s),
            size(x1 + x2) == size(p1 + p2) * size(s),
            size(n - (p1 + p2)) * P53 <= size(p1 + p2),
            size(s) >= 0,
    ;
    let z = q * v;
    assert(size(x1) <= 2 * b1 + s);
    assert(size(x2) <= 2 * b2 + s);
    assert(size(y) <= 2 * size(x1 + x2));
    assert(size(z) <= 2 * size(y) + v);
    let e = q * (w - v);
    crate::precision::lemma_size_of_product(q, w - v);
    crate::precision::lemma_size_of_product(q, v);
    assert(size(e) * P53 <= 44 * size(z)) by (nonlinear_arith)
        requires
            size(e) == size(q) * size(w - v),
            size(w - v) * P53 <= 22 * w,
            w <= 2 * v,
            size(z) == size(q) * v,
            size(q) >= 0,
    ;
    assert(q * w == z + e) by (nonlinear_arith)
        requires
            z == q * v,
            e == q * (w - v),
    ;
    let d = size(q * w - (t1 * w1 + t2 * w2));
    let rounded = size(x1 - t1 * v1) + size(x2 - t2 * v2);
    assert(rounded * P53 <= b1 + b2 + 2 * (s * P52));
    assert(d <= size(e) + size(z - y) + size(y - (x1 + x2)) + rounded + size(d1) + size(d2));
    lemma_merge_total(
        d,
        size(e),
        size(z - y),
        size(y - (x1 + x2)),
        rounded,
        size(d1) + size(d2),
        size(z),
        size(y),
        size(x1 + x2),
        b1 + b2,
        g,
        s,
        v,
        w,
    );
}

/// A layer of `w` units of water, its volume being off by two parts in `2^53` at most for
/// each node but one.
pub open spec fn holds(layer: Layer, w: int) -> bool {
    &&& layer.temp.is_finite()
    &&& layer.volume.is_finite()
    &&& 1 <= layer.count
    &&& 0 < w
    &&& size(layer.volume.units() - w) * P53 <= 2 * (layer.count - 1) * w
}

/// A layer whose temperature and volume are finite.
pub open spec fn is_definite(layer: Layer) -> bool {
    layer.temp.is_finite() && layer.volume.is_finite()
}

/// What is not finite stays so when it is merged.
proof fn lemma_merge_of_definite(upper: Layer, lower: Layer)
    requires
        upper.volume.gt(Double::zero()),
        lower.volume.gt(Double::zero()),
        is_definite(crate::mixing::merge(upper, lower)),
    ensures
        is_definite(upper),
        is_definite(lower),
        upper.temp.times(upper.volume).is_finite(),
        lower.temp.times(lower.volume).is_finite(),
        upper.temp.times(upper.volume).plus(lower.temp.times(lower.volume)).is_finite(),
{
    let p1 = upper.temp.times(upper.volume);
    let p2 = lower.temp.times(lower.volume);
    crate::double_laws::lemma_sum_of_finite(upper.volume, lower.volume);
    crate::double_laws::lemma_quotient_of_finite(p1.plus(p2), upper.volume.plus(lower.volume));
    crate::double_laws::lemma_sum_of_finite(p1, p2);
    crate::double_laws::lemma_product_of_finite(upper.temp, upper.volume);
    crate::double_laws::lemma_product_of_finite(lower.temp, lower.volume);
}

/// Merging two layers keeps their heat but for one part in `2^43` and a few units.
#[verifier::rlimit(40)]
proof fn lemma_merge_keeps_heat(upper: Layer, lower: Layer, w1: int, w2: int)
    requires
        holds(upper, w1),
        holds(lower, w2),
        upper.count + lower.count <= 12,
        upper.volume.gt(Double::zero()),
        lower.volume.gt(Double::zero()),
        is_definite(crate::mixing::merge(upper, lower)),
    ensures
        holds(crate::mixing::merge(upper, lower), w1 + w2),
        crate::mixing::merge(upper, lower).volume.gt(Double::zero()),
        size(
            crate::mixing::merge(upper, lower).temp.units() * (w1 + w2) - (upper.temp.units() * w1
                + lower.temp.units() * w2),
        ) * P43 <= size(upper.temp.units()) * w1 + size(lower.temp.units()) * w2
            + P44 * (w1 + w2 + pow2(1074)),
{
    let merged = crate::mixing::merge(upper, lower);
    lemma_merge_of_definite(upper, lower);
    let p1 = upper.temp.times(upper.volume);
    let p2 = lower.temp.times(lower.volume);
    let n = p1.plus(p2);
    let c1 = upper.count as int;
    let c2 = lower.count as int;
    crate::precision::sums_are_close(upper.volume, lower.volume);
    crate::precision::products_are_close(upper.temp, upper.volume);
    crate::precision::products_are_close(lower.temp, lower.volume);
    crate::precision::sums_are_close(p1, p2);
    lemma_merged_volume(
        c1,
        c2,
        upper.volume.units(),
        lower.volume.units(),
        w1,
        w2,
        merged.volume.units(),
    );
    assert(2 * (c1 - 1) * w1 <= 22 * w1 && 2 * (c2 - 1) * w2 <= 22 * w2 && 2 * (c1 + c2 - 1) * (w1
        + w2) <= 22 * (w1 + w2)) by (nonlinear_arith)
        requires
            1 <= c1,
            1 <= c2,
            c1 + c2 <= 12,
            w1 > 0,
            w2 > 0,
    ;
    assert(merged.volume.units() > 0);
    crate::double_laws::lemma_units_zero();
    crate::double_laws::order_agrees_with_value(Double::zero(), merged.volume);
    crate::precision::quotients_are_close(n, merged.volume);
    lemma_pow2_pos(1074);
    lemma_merged_heat(
        upper.temp.units(),
        lower.temp.units(),
        upper.volume.units(),
        lower.volume.units(),
        w1,
        w2,
        p1.units(),
        p2.units(),
        n.units(),
        merged.volume.units(),
        merged.temp.units(),
        pow2(1074) as int,
    );
}

// ---------------------------------------------------------------------------
// All merges
// ---------------------------------------------------------------------------

/// The volume of the nodes that the last of some layers covers.
spec fn last_span(layers: Seq<Layer>, volumes: Seq<Double>) -> int {
    span(
        volumes,
        crate::mixing::node_count(layers.drop_last()) as int,
        crate::mixing::node_count(layers) as int,
    )
}

/// The heat of some layers.
spec fn layer_heat(layers: Seq<Layer>, volumes: Seq<Double>) -> int
    decreases layers.len(),
{
    if layers.len() == 0 {
        0
    } else {
        layer_heat(layers.drop_last(), volumes) + layers.last().temp.units() * last_span(
            layers,
            volumes,
        )
    }
}

/// The sum of the sizes of the heats of some layers.
spec fn gross_layer_heat(layers: Seq<Layer>, volumes: Seq<Double>) -> int
    decreases layers.len(),
{
    if layers.len() == 0 {
        0
    } else {
        gross_layer_heat(layers.drop_last(), volumes) + size(layers.last().temp.units())
            * last_span(layers, volumes)
    }
}

/// Each of some layers holds the water of the nodes that it covers.
spec fn layers_hold(layers: Seq<Layer>, volumes: Seq<Double>) -> bool
    decreases layers.len(),
{
    layers.len() > 0 ==> {
        &&& layers_hold(layers.drop_last(), volumes)
        &&& holds(layers.last(), last_span(layers, volumes))
        &&& layers.last().volume.gt(Double::zero())
    }
}

/// By how much the nodes from `from` up to `to` are warmer than `t`, by volume.
pub open spec fn excess(
    temps: Seq<Double>,
    volumes: Seq<Double>,
    from: int,
    to: int,
    t: int,
) -> int
    decreases to - from,
{
    if from >= to {
        0
    } else {
        excess(temps, volumes, from, to - 1, t) + volumes[to - 1].units() * (temps[to - 1].units()
            - t)
    }
}

/// A layer that its nodes could not but form: together they are as warm as the layer, and no
/// nodes at its top are warmer than it, but for so much with each merge, in `2^-43`.
pub open spec fn block_fits(
    layer: Layer,
    temps: Seq<Double>,
    volumes: Seq<Double>,
    from: int,
    to: int,
    each: int,
) -> bool {
    let t = layer.temp.units();
    &&& to == from + layer.count
    &&& size(excess(temps, volumes, from, to, t)) * P43 <= 3 * (each * (layer.count - 1))
    &&& forall|k: int|
        from <= k <= to ==> (#[trigger] excess(temps, volumes, from, k, t)) * P43 <= 3 * (each * (
        layer.count - 1))
}

/// Each of some layers is one that its nodes could not but form.
pub open spec fn blocks_fit(
    layers: Seq<Layer>,
    temps: Seq<Double>,
    volumes: Seq<Double>,
    each: int,
) -> bool
    decreases layers.len(),
{
    layers.len() > 0 ==> {
        &&& blocks_fit(layers.drop_last(), temps, volumes, each)
        &&& block_fits(
            layers.last(),
            temps,
            volumes,
            crate::mixing::node_count(layers.drop_last()) as int,
            crate::mixing::node_count(layers) as int,
            each,
        )
    }
}

/// Nodes against another temperature.
proof fn lemma_excess_moves(
    temps: Seq<Double>,
    volumes: Seq<Double>,
    from: int,
    to: int,
    t: int,
    u: int,
)
    requires
        from <= to,
    ensures
        excess(temps, volumes, from, to, u) == excess(temps, volumes, from, to, t) + span(
            volumes,
            from,
            to,
        ) * (t - u),
    decreases to - from,
{
    if from < to {
        lemma_excess_moves(temps, volumes, from, to - 1, t, u);
        let v = volumes[to - 1].units();
        let w = span(volumes, from, to - 1);
        let x = temps[to - 1].units();
        assert(v * (x - u) == v * (x - t) + v * (t - u)) by (nonlinear_arith);
        assert((w + v) * (t - u) == w * (t - u) + v * (t - u)) by (nonlinear_arith);
    } else {
        assert(0 * (t - u) == 0);
    }
}

proof fn lemma_excess_splits(
    temps: Seq<Double>,
    volumes: Seq<Double>,
    from: int,
    mid: int,
    to: int,
    t: int,
)
    requires
        from <= mid <= to,
    ensures
        excess(temps, volumes, from, to, t) == excess(temps, volumes, from, mid, t) + excess(
            temps,
            volumes,
            mid,
            to,
            t,
        ),
    decreases to - mid,
{
    if mid < to {
        lemma_excess_splits(temps, volumes, from, mid, to - 1, t);
    }
}

/// What a merge of a colder layer with a warmer one below does to the excess of nodes at the
/// top, in exact numbers.
proof fn lemma_merge_excess(
    t1: int,
    t2: int,
    t: int,
    w1: int,
    w2: int,
    p1: int,
    p2: int,
    each: int,
)
    requires
        t1 < t2,
        0 < w1,
        0 < w2,
        0 <= p1 <= w1,
        0 <= p2 <= w2,
        0 <= each,
        size(t * (w1 + w2) - (t1 * w1 + t2 * w2)) * P43 <= each,
    ensures
        (p1 * (t1 - t)) * P43 <= each,
        (w1 * (t1 - t) + p2 * (t2 - t)) * P43 <= 2 * each,
        size(w1 * (t1 - t) + w2 * (t2 - t)) * P43 <= each,
{
    let w = w1 + w2;
    let e = t * w - (t1 * w1 + t2 * w2);
    let a = t1 - t;
    let b = t2 - t;
    assert(w1 * a + w2 * b == -e) by (nonlinear_arith)
        requires
            e == t * w - (t1 * w1 + t2 * w2),
            w == w1 + w2,
            a == t1 - t,
            b == t2 - t,
    ;
    assert(w * a <= -e && w * b >= -e) by (nonlinear_arith)
        requires
            w1 * a + w2 * b == -e,
            w == w1 + w2,
            a < b,
            0 < w1,
            0 < w2,
    ;
    assert(p1 * a <= size(e)) by (nonlinear_arith)
        requires
            w * a <= size(e),
            0 <= p1 <= w,
            size(e) >= 0,
    ;
    assert(p2 * b <= w2 * b + size(e)) by (nonlinear_arith)
        requires
            w * b >= -size(e),
            0 <= p2 <= w2 <= w,
            size(e) >= 0,
    ;
}

/// A merge of two layers that their nodes could not but form gives such a layer.
#[verifier::rlimit(40)]
proof fn lemma_merge_fits(
    upper: Layer,
    lower: Layer,
    temps: Seq<Double>,
    volumes: Seq<Double>,
    a: int,
    b: int,
    c: int,
    each: int,
)
    requires
        0 <= a,
        c <= volumes.len(),
        forall|i: int| 0 <= i < volumes.len() ==> (#[trigger] volumes[i]).units() > 0,
        1 <= upper.count,
        1 <= lower.count,
        0 <= each,
        upper.temp.units() < lower.temp.units(),
        0 < span(volumes, a, b),
        0 < span(volumes, b, c),
        block_fits(upper, temps, volumes, a, b, each),
        block_fits(lower, temps, volumes, b, c, each),
        size(
            crate::mixing::merge(upper, lower).temp.units() * (span(volumes, a, b) + span(
                volumes,
                b,
                c,
            )) - (upper.temp.units() * span(volumes, a, b) + lower.temp.units() * span(
                volumes,
                b,
                c,
            )),
        ) * P43 <= each,
    ensures
        block_fits(crate::mixing::merge(upper, lower), temps, volumes, a, c, each),
{
    let merged = crate::mixing::merge(upper, lower);
    let t = merged.temp.units();
    let t1 = upper.temp.units();
    let t2 = lower.temp.units();
    let w1 = span(volumes, a, b);
    let w2 = span(volumes, b, c);
    let c1 = upper.count as int;
    let c2 = lower.count as int;
    let e1 = each * (c1 - 1);
    let e2 = each * (c2 - 1);
    assert(each * (c1 + c2 - 1) == e1 + e2 + each && e1 >= 0 && e2 >= 0) by (nonlinear_arith)
        requires
            e1 == each * (c1 - 1),
            e2 == each * (c2 - 1),
            each >= 0,
            c1 >= 1,
            c2 >= 1,
    ;
    lemma_excess_moves(temps, volumes, a, b, t1, t);
    lemma_excess_moves(temps, volumes, b, c, t2, t);
    lemma_excess_splits(temps, volumes, a, b, c, t);
    lemma_merge_excess(t1, t2, t, w1, w2, w1, w2, each);
    assert(excess(temps, volumes, a, b, t1) * P43 <= 3 * e1);
    assert forall|k: int| a <= k <= c implies (#[trigger] excess(temps, volumes, a, k, t)) * P43
        <= 3 * (each * (c1 + c2 - 1)) by {
        if k <= b {
            let p = span(volumes, a, k);
            lemma_span_is_nonnegative(volumes, a, k);
            lemma_span_is_nonnegative(volumes, k, b);
            lemma_span_splits(volumes, a, k, b);
            lemma_excess_moves(temps, volumes, a, k, t1, t);
            lemma_merge_excess(t1, t2, t, w1, w2, p, w2, each);
            assert(excess(temps, volumes, a, k, t1) * P43 <= 3 * e1);
        } else {
            let p = span(volumes, b, k);
            lemma_span_is_nonnegative(volumes, b, k);
            lemma_span_is_nonnegative(volumes, k, c);
            lemma_span_splits(volumes, b, k, c);
            lemma_excess_moves(temps, volumes, b, k, t2, t);
            lemma_excess_splits(temps, volumes, a, b, k, t);
            lemma_merge_excess(t1, t2, t, w1, w2, w1, p, each);
            assert(excess(temps, volumes, b, k, t2) * P43 <= 3 * e2);
        }
    }
}

/// Each of some layers has a volume above zero, which may be infinite.
spec fn layers_are_filled(layers: Seq<Layer>) -> bool {
    forall|i: int| 0 <= i < layers.len() ==> (#[trigger] layers[i]).volume.gt(Double::zero())
}

/// The temperature and the volume of each layer are finite.
pub open spec fn layers_are_definite(layers: Seq<Layer>) -> bool {
    forall|i: int| 0 <= i < layers.len() ==> is_definite(#[trigger] layers[i])
}

proof fn lemma_span_splits(volumes: Seq<Double>, from: int, mid: int, to: int)
    requires
        from <= mid <= to,
    ensures
        span(volumes, from, to) == span(volumes, from, mid) + span(volumes, mid, to),
    decreases to - mid,
{
    if mid < to {
        lemma_span_splits(volumes, from, mid, to - 1);
    }
}

pub(crate) proof fn lemma_span_is_nonnegative(volumes: Seq<Double>, from: int, to: int)
    requires
        0 <= from,
        to <= volumes.len(),
        forall|i: int| 0 <= i < volumes.len() ==> (#[trigger] volumes[i]).units() > 0,
    ensures
        span(volumes, from, to) >= 0,
    decreases to - from,
{
    if from < to {
        lemma_span_is_nonnegative(volumes, from, to - 1);
    }
}

/// Volumes above zero stay so when they are merged.
proof fn lemma_merge_is_filled(upper: Layer, lower: Layer)
    requires
        upper.volume.gt(Double::zero()),
        lower.volume.gt(Double::zero()),
    ensures
        crate::mixing::merge(upper, lower).volume.gt(Double::zero()),
{
    if upper.volume.is_finite() {
        crate::double_laws::steps_are_ordered(upper.volume, lower.volume);
    } else {
        reveal(Double::spec_plus);
    }
}

/// Settling leaves no layer without a volume.
proof fn lemma_settle_is_filled(layers: Seq<Layer>)
    requires
        layers_are_filled(layers),
    ensures
        layers_are_filled(crate::mixing::settle(layers)),
    decreases layers.len(),
{
    if layers.len() >= 2 {
        let n = layers.len();
        let upper = layers[n - 2];
        let lower = layers[n - 1];
        if !upper.temp.ge(lower.temp) {
            lemma_merge_is_filled(upper, lower);
            lemma_settle_is_filled(
                layers.take(n - 2).push(crate::mixing::merge(upper, lower)),
            );
        }
    }
}

/// The layers of nodes with a volume have one.
proof fn lemma_layers_are_filled(temps: Seq<Double>, volumes: Seq<Double>, n: nat)
    requires
        n <= volumes.len(),
        forall|i: int| 0 <= i < volumes.len() ==> (#[trigger] volumes[i]).gt(Double::zero()),
    ensures
        layers_are_filled(crate::mixing::layered(temps, volumes, n)),
    decreases n,
{
    if n > 0 {
        lemma_layers_are_filled(temps, volumes, (n - 1) as nat);
        lemma_settle_is_filled(
            crate::mixing::layered(temps, volumes, (n - 1) as nat).push(
                Layer { temp: temps[n - 1], volume: volumes[n - 1], count: 1 },
            ),
        );
    }
}

/// Layers that settle to finite ones were finite.
proof fn lemma_settle_of_definite(layers: Seq<Layer>)
    requires
        layers_are_filled(layers),
        layers_are_definite(crate::mixing::settle(layers)),
    ensures
        layers_are_definite(layers),
    decreases layers.len(),
{
    if layers.len() >= 2 {
        let n = layers.len();
        let upper = layers[n - 2];
        let lower = layers[n - 1];
        if !upper.temp.ge(lower.temp) {
            let merged = crate::mixing::merge(upper, lower);
            let next = layers.take(n - 2).push(merged);
            lemma_merge_is_filled(upper, lower);
            lemma_settle_of_definite(next);
            assert(is_definite(next[n - 2]));
            lemma_merge_of_definite(upper, lower);
            assert forall|i: int| 0 <= i < n implies is_definite(#[trigger] layers[i]) by {
                if i < n - 2 {
                    assert(next[i] == layers[i]);
                }
            }
        }
    }
}

/// Settling keeps the heat of some layers, but for so much with each merge.
#[verifier::rlimit(40)]
proof fn lemma_settle_keeps_heat(
    layers: Seq<Layer>,
    temps: Seq<Double>,
    volumes: Seq<Double>,
    most: int,
    z: int,
)
    requires
        blocks_fit(layers, temps, volumes, most + P43 * z),
        layers_hold(layers, volumes),
        layers_are_filled(layers),
        layers_are_definite(crate::mixing::settle(layers)),
        crate::mixing::node_count(layers) <= 12,
        crate::mixing::node_count(layers) <= volumes.len(),
        forall|i: int| 0 <= i < volumes.len() ==> (#[trigger] volumes[i]).units() > 0,
        0 <= most,
        2 * (span(volumes, 0, crate::mixing::node_count(layers) as int) + pow2(1074)) <= z,
        gross_layer_heat(layers, volumes) * P43 + (layers.len() - 1) * (most
            + P43 * z) <= most * P43,
    ensures
        ({
            let settled = crate::mixing::settle(layers);
            let m = (layers.len() - settled.len()) * (most + P43 * z);
            &&& layers_hold(settled, volumes)
            &&& blocks_fit(settled, temps, volumes, most + P43 * z)
            &&& crate::mixing::node_count(settled) == crate::mixing::node_count(layers)
            &&& settled.len() <= layers.len()
            &&& size(layer_heat(settled, volumes) - layer_heat(layers, volumes)) * P43
                <= m
            &&& gross_layer_heat(settled, volumes) * P43 <= gross_layer_heat(
                layers,
                volumes,
            ) * P43 + m
        }),
    decreases layers.len(),
{
    let each = most + P43 * z;
    assert(0 * each == 0) by (nonlinear_arith);
    if layers.len() >= 2 {
        let n = layers.len();
        let upper = layers[n - 2];
        let lower = layers[n - 1];
        if !upper.temp.ge(lower.temp) {
            let merged = crate::mixing::merge(upper, lower);
            let rest = layers.take(n - 2);
            let above = layers.drop_last();
            let next = rest.push(merged);
            let settled = crate::mixing::settle(next);
            assert(settled == crate::mixing::settle(layers));
            assert(above.drop_last() =~= rest);
            assert(next.drop_last() =~= rest);
            assert(above.last() == upper);
            let a = crate::mixing::node_count(rest) as int;
            let b = crate::mixing::node_count(above) as int;
            let c = crate::mixing::node_count(layers) as int;
            assert(crate::mixing::node_count(next) == c);
            lemma_span_splits(volumes, a, b, c);
            let w1 = span(volumes, a, b);
            let w2 = span(volumes, b, c);
            assert(last_span(above, volumes) == w1);
            assert(last_span(next, volumes) == w1 + w2);
            assert(layers_hold(above, volumes));
            assert(layers_hold(rest, volumes));
            lemma_merge_is_filled(upper, lower);
            lemma_settle_of_definite(next);
            assert(is_definite(next[n - 2]));
            lemma_merge_keeps_heat(upper, lower, w1, w2);
            lemma_span_splits(volumes, 0, a, c);
            lemma_span_is_nonnegative(volumes, 0, a);
            lemma_span_is_nonnegative(volumes, 0, c);
            let t = merged.temp.units();
            let t1 = upper.temp.units();
            let t2 = lower.temp.units();
            let before = layer_heat(rest, volumes);
            let gross_before = gross_layer_heat(rest, volumes);
            assert(layer_heat(above, volumes) == before + t1 * w1);
            assert(layer_heat(layers, volumes) == before + t1 * w1 + t2 * w2);
            assert(layer_heat(next, volumes) == before + t * (w1 + w2));
            let g = gross_layer_heat(layers, volumes);
            assert(gross_layer_heat(above, volumes) == gross_before + size(t1) * w1);
            assert(g == gross_before + size(t1) * w1 + size(t2) * w2);
            assert(gross_layer_heat(next, volumes) == gross_before + size(t) * (w1 + w2));
            lemma_gross_is_nonnegative(rest, volumes);
            let d = size(t * (w1 + w2) - (t1 * w1 + t2 * w2));
            assert(each * (n - 1) >= 0) by (nonlinear_arith)
                requires
                    each >= 0,
                    n >= 2,
            ;
            assert(g <= most);
            assert(d * P43 <= each);
            crate::precision::lemma_size_of_product(t, w1 + w2);
            crate::precision::lemma_size_of_product(t1, w1);
            crate::precision::lemma_size_of_product(t2, w2);
            assert(gross_layer_heat(next, volumes) <= g + d);
            assert((n - 1) * each == (n - 2) * each + each) by (nonlinear_arith);
            assert(blocks_fit(above, temps, volumes, each));
            assert(blocks_fit(rest, temps, volumes, each));
            assert(is_definite(upper) && is_definite(lower)) by {
                lemma_merge_of_definite(upper, lower);
            }
            crate::double_laws::order_agrees_with_value(lower.temp, upper.temp);
            lemma_merge_fits(upper, lower, temps, volumes, a, b, c, each);
            assert(blocks_fit(next, temps, volumes, each));
            lemma_settle_keeps_heat(next, temps, volumes, most, z);
            let k = n - settled.len();
            assert(k * each == (k - 1) * each + each) by (nonlinear_arith);
        }
    }
}

proof fn lemma_gross_is_nonnegative(layers: Seq<Layer>, volumes: Seq<Double>)
    requires
        layers_hold(layers, volumes),
    ensures
        gross_layer_heat(layers, volumes) >= 0,
    decreases layers.len(),
{
    if layers.len() > 0 {
        lemma_gross_is_nonnegative(layers.drop_last(), volumes);
        lemma_mul_nonnegative(
            size(layers.last().temp.units()),
            last_span(layers, volumes),
        );
    }
}

/// The heat of the nodes of some layers is the heat of the layers.
proof fn lemma_spread_heat(layers: Seq<Layer>, volumes: Seq<Double>)
    ensures
        crate::mixing::spread(layers).len() == crate::mixing::node_count(layers),
        heat(crate::mixing::spread(layers), volumes) == layer_heat(layers, volumes),
    decreases layers.len(),
{
    if layers.len() > 0 {
        let above = layers.drop_last();
        lemma_spread_heat(above, volumes);
        lemma_even_heat(
            crate::mixing::spread(above),
            layers.last().temp,
            layers.last().count,
            volumes,
        );
    }
}

/// The heat of nodes that share one temperature is that temperature times their volume.
proof fn lemma_even_heat(start: Seq<Double>, temp: Double, count: nat, volumes: Seq<Double>)
    ensures
        heat(start + Seq::new(count, |i: int| temp), volumes) == heat(start, volumes)
            + temp.units() * span(volumes, start.len() as int, (start.len() + count) as int),
    decreases count,
{
    let all = start + Seq::new(count, |i: int| temp);
    let n = start.len() as int;
    if count == 0 {
        assert(all =~= start);
        assert(temp.units() * 0 == 0);
    } else {
        let fewer = start + Seq::new((count - 1) as nat, |i: int| temp);
        lemma_even_heat(start, temp, (count - 1) as nat, volumes);
        assert(all.drop_last() =~= fewer);
        let t = temp.units();
        let w = span(volumes, n, n + count - 1);
        let v = volumes[n + count - 1].units();
        assert(t * (w + v) == t * w + t * v) by (nonlinear_arith);
    }
}

/// Each layer that the nodes above `n` form holds their water, and their heat is kept but
/// for so much with each merge.
#[verifier::rlimit(40)]
proof fn lemma_layers_keep_heat(
    temps: Seq<Double>,
    volumes: Seq<Double>,
    n: nat,
    gross: int,
    most: int,
    z: int,
)
    requires
        n <= temps.len() <= 12,
        temps.len() == volumes.len(),
        forall|i: int|
            0 <= i < volumes.len() ==> (#[trigger] volumes[i]).is_finite() && volumes[i].gt(
                Double::zero(),
            ),
        layers_are_definite(crate::mixing::layered(temps, volumes, n)),
        gross_heat(temps.take(n as int), volumes) <= gross,
        0 <= most,
        2 * (span(volumes, 0, n as int) + pow2(1074)) <= z,
        gross * P43 + 11 * (most + P43 * z) <= most * P43,
    ensures
        ({
            let layers = crate::mixing::layered(temps, volumes, n);
            let m = (n - layers.len()) * (most + P43 * z);
            &&& layers_hold(layers, volumes)
            &&& layers_are_filled(layers)
            &&& blocks_fit(layers, temps, volumes, most + P43 * z)
            &&& size(layer_heat(layers, volumes) - heat(temps.take(n as int), volumes))
                * P43 <= m
            &&& gross_layer_heat(layers, volumes) * P43 <= gross_heat(
                temps.take(n as int),
                volumes,
            ) * P43 + m
        }),
    decreases n,
{
    let each = most + P43 * z;
    assert(0 * each == 0) by (nonlinear_arith);
    crate::double_laws::lemma_units_zero();
    assert forall|i: int| 0 <= i < volumes.len() implies (#[trigger] volumes[i]).units() > 0 by {
        crate::double_laws::order_agrees_with_value(Double::zero(), volumes[i]);
    }
    if n > 0 {
        let before = crate::mixing::layered(temps, volumes, (n - 1) as nat);
        let node = Layer { temp: temps[n - 1], volume: volumes[n - 1], count: 1 };
        let pushed = before.push(node);
        let after = crate::mixing::layered(temps, volumes, n);
        let shorter = temps.take(n - 1);
        let longer = temps.take(n as int);
        assert(longer.drop_last() =~= shorter);
        assert(longer.last() == temps[n - 1]);
        assert(pushed.drop_last() =~= before);
        crate::mixing::layers_are_settled(temps, volumes, (n - 1) as nat);
        crate::mixing::layers_are_settled(temps, volumes, n);
        lemma_layers_are_filled(temps, volumes, (n - 1) as nat);
        lemma_layers_are_filled(temps, volumes, n);
        lemma_span_is_nonnegative(volumes, 0, n as int);
        assert(layers_are_filled(pushed));
        lemma_settle_of_definite(pushed);
        assert forall|i: int| 0 <= i < before.len() implies is_definite(#[trigger] before[i]) by {
            assert(pushed[i] == before[i]);
        }
        let v = volumes[n - 1].units();
        let t = temps[n - 1].units();
        assert(is_definite(pushed[pushed.len() - 1]));
        assert(size(t) * v >= 0) by (nonlinear_arith)
            requires
                size(t) >= 0,
                v > 0,
        ;
        lemma_layers_keep_heat(temps, volumes, (n - 1) as nat, gross, most, z);
        assert(span(volumes, n - 1, n as int) == v) by {
            assert(span(volumes, n - 1, n - 1) == 0);
        }
        assert(last_span(pushed, volumes) == v);
        assert(2 * (node.count - 1) * v == 0) by (nonlinear_arith)
            requires
                node.count == 1,
        ;
        assert(layers_hold(pushed, volumes));
        let merged = n - 1 - before.len();
        assert(each * 11 >= merged * each + before.len() * each) by (nonlinear_arith)
            requires
                merged + before.len() <= 11,
                each >= 0,
        ;
        assert(gross_layer_heat(pushed, volumes) == gross_layer_heat(before, volumes) + size(t) * v);
        assert(layer_heat(pushed, volumes) == layer_heat(before, volumes) + t * v);
        assert(block_fits(node, temps, volumes, n - 1, n as int, each)) by {
            assert(excess(temps, volumes, n - 1, n - 1, t) == 0);
            assert(v * (t - t) == 0) by (nonlinear_arith);
            assert(excess(temps, volumes, n - 1, n as int, t) == 0);
            assert(each * (node.count - 1) == 0) by (nonlinear_arith)
                requires
                    node.count == 1,
            ;
            assert forall|k: int| n - 1 <= k <= n implies (#[trigger] excess(
                temps,
                volumes,
                n - 1,
                k,
                t,
            )) * P43 <= 3 * (each * (node.count - 1)) by {
                assert(k == n - 1 || k == n);
            }
        }
        assert(blocks_fit(pushed, temps, volumes, each));
        lemma_settle_keeps_heat(pushed, temps, volumes, most, z);
        let more = pushed.len() - after.len();
        assert((merged + more) * each == merged * each + more * each) by (nonlinear_arith);
    }
}

/// The sum of the sizes of some heats is not below zero.
proof fn lemma_gross_heat_is_nonnegative(temps: Seq<Double>, volumes: Seq<Double>)
    requires
        temps.len() <= volumes.len(),
        forall|i: int| 0 <= i < volumes.len() ==> (#[trigger] volumes[i]).units() > 0,
    ensures
        gross_heat(temps, volumes) >= 0,
    decreases temps.len(),
{
    if temps.len() > 0 {
        lemma_gross_heat_is_nonnegative(temps.drop_last(), volumes);
        lemma_mul_nonnegative(size(temps.last().units()), volumes[temps.len() - 1].units());
    }
}

/// Mixing neither makes nor destroys heat: it is off by one part in `2^38` at most, and by
/// `2^-1069` times the volume and one. Temperatures or volumes so large that they overflow
/// are left out.
#[verifier::rlimit(40)]
pub proof fn mixing_keeps_heat(temps: Seq<Double>, volumes: Seq<Double>)
    requires
        temps.len() == volumes.len(),
        temps.len() <= 12,
        forall|i: int|
            0 <= i < volumes.len() ==> (#[trigger] volumes[i]).is_finite() && volumes[i].gt(
                Double::zero(),
            ),
        layers_are_definite(crate::mixing::layered(temps, volumes, temps.len())),
    ensures
        size(heat(crate::mixing::mixed(temps, volumes), volumes) - heat(temps, volumes))
            * P38 <= gross_heat(temps, volumes) + P43 * (span(
            volumes,
            0,
            temps.len() as int,
        ) + pow2(1074)),
{
    let n = temps.len();
    let layers = crate::mixing::layered(temps, volumes, n);
    let g = gross_heat(temps, volumes);
    let w = span(volumes, 0, n as int) + pow2(1074);
    let z = 2 * w;
    let most = 2 * g + 32 * z;
    let each = most + P43 * z;
    crate::double_laws::lemma_units_zero();
    assert forall|i: int| 0 <= i < volumes.len() implies (#[trigger] volumes[i]).units() > 0 by {
        crate::double_laws::order_agrees_with_value(Double::zero(), volumes[i]);
    }
    lemma_gross_heat_is_nonnegative(temps, volumes);
    lemma_span_is_nonnegative(volumes, 0, n as int);
    assert(temps.take(n as int) =~= temps);
    lemma_layers_keep_heat(temps, volumes, n, g, most, z);
    lemma_spread_heat(layers, volumes);
    crate::mixing::layers_are_settled(temps, volumes, n);
    let k = n - layers.len();
    assert(k * each <= 11 * each) by (nonlinear_arith)
        requires
            k <= 11,
            each >= 0,
    ;
}

/// What one merge is off by at most, in `2^-43`.
pub open spec fn merge_error(temps: Seq<Double>, volumes: Seq<Double>) -> int {
    let w = span(volumes, 0, temps.len() as int) + pow2(1074);
    2 * gross_heat(temps, volumes) + 64 * w + 2 * (P43 * w)
}

/// The layers that nodes form are those that they could not but form.
pub(crate) proof fn lemma_layers_fit(temps: Seq<Double>, volumes: Seq<Double>)
    requires
        temps.len() == volumes.len(),
        temps.len() <= 12,
        forall|i: int|
            0 <= i < volumes.len() ==> (#[trigger] volumes[i]).is_finite() && volumes[i].gt(
                Double::zero(),
            ),
        layers_are_definite(crate::mixing::layered(temps, volumes, temps.len())),
    ensures
        blocks_fit(
            crate::mixing::layered(temps, volumes, temps.len()),
            temps,
            volumes,
            merge_error(temps, volumes),
        ),
        0 <= merge_error(temps, volumes),
        0 <= gross_heat(temps, volumes),
        0 <= span(volumes, 0, temps.len() as int),
        forall|i: int| 0 <= i < volumes.len() ==> (#[trigger] volumes[i]).units() > 0,
{
    let n = temps.len();
    let g = gross_heat(temps, volumes);
    let w = span(volumes, 0, n as int) + pow2(1074);
    let z = 2 * w;
    let most = 2 * g + 32 * z;
    crate::double_laws::lemma_units_zero();
    assert forall|i: int| 0 <= i < volumes.len() implies (#[trigger] volumes[i]).units() > 0 by {
        crate::double_laws::order_agrees_with_value(Double::zero(), volumes[i]);
    }
    lemma_gross_heat_is_nonnegative(temps, volumes);
    lemma_span_is_nonnegative(volumes, 0, n as int);
    assert(temps.take(n as int) =~= temps);
    lemma_layers_keep_heat(temps, volumes, n, g, most, z);
    assert(most + P43 * z == merge_error(temps, volumes));
}

} // verus!
