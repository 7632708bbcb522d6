//! What mixing does to a column of water: of all profiles that get no colder upwards, it
//! gives the one that is closest to the column, in least squares by volume.
//!
//! Temperatures and volumes are counted exactly, in units of the smallest positive number.
use vstd::arithmetic::power2::*;
use vstd::prelude::*;

use crate::conservation::{
    block_fits, blocks_fit, excess, gross_heat, layers_are_definite, lemma_layers_fit,
    merge_error, span,
};
use crate::double::Double;
use crate::mixing::Layer;
use crate::precision::{size, P34, P43};

verus! {

/// How far a profile is from some nodes: the squares of the differences, by volume, of the
/// nodes from `from` up to `to`.
pub open spec fn misfit(
    profile: Seq<int>,
    temps: Seq<Double>,
    volumes: Seq<Double>,
    from: int,
    to: int,
) -> int
    decreases to - from,
{
    if from >= to {
        0
    } else {
        let d = profile[to - 1] - temps[to - 1].units();
        misfit(profile, temps, volumes, from, to - 1) + volumes[to - 1].units() * (d * d)
    }
}

/// No node of a profile is colder than one below it.
pub open spec fn never_colder_upwards(profile: Seq<int>) -> bool {
    forall|i: int, j: int|
        0 <= i <= j < profile.len() ==> #[trigger] profile[i] >= #[trigger] profile[j]
}

/// The values of some temperatures.
pub open spec fn profile_of(temps: Seq<Double>) -> Seq<int> {
    Seq::new(temps.len(), |i: int| temps[i].units())
}

/// How much the warmer nodes of a profile go with the warmer nodes of a column.
spec fn agreement(
    profile: Seq<int>,
    temps: Seq<Double>,
    volumes: Seq<Double>,
    from: int,
    to: int,
    t: int,
) -> int
    decreases to - from,
{
    if from >= to {
        0
    } else {
        agreement(profile, temps, volumes, from, to - 1, t) + (profile[to - 1] - t) * (
        volumes[to - 1].units() * (temps[to - 1].units() - t))
    }
}

/// One step of a summation by parts.
proof fn lemma_by_parts(
    gain: int,
    before: int,
    d: int,
    first: int,
    last: int,
    next: int,
    most: int,
)
    requires
        gain * P43 <= (last * before) * P43 + (first - last) * most,
        next <= last,
        before * P43 <= most,
    ensures
        (gain + next * d) * P43 <= (next * (before + d)) * P43 + (first - next) * most,
{
    let b = before * P43;
    assert((last - next) * b <= (last - next) * most) by (nonlinear_arith)
        requires
            b <= most,
            next <= last,
    ;
    assert((last - next) * b == (last * before) * P43 - (next * before) * P43) by (nonlinear_arith)
        requires
            b == before * P43,
    ;
    assert((last - next) * most == (first - next) * most - (first - last) * most)
        by (nonlinear_arith);
    assert(next * (before + d) == next * before + next * d) by (nonlinear_arith);
}

/// A profile that is never colder upwards gains nothing on a layer's own temperature, but for
/// what the nodes at the top of the layer are warmer than it.
proof fn lemma_agreement(
    profile: Seq<int>,
    temps: Seq<Double>,
    volumes: Seq<Double>,
    from: int,
    to: int,
    t: int,
    most: int,
)
    requires
        never_colder_upwards(profile),
        0 <= from < to <= profile.len(),
        forall|k: int|
            from <= k <= to ==> (#[trigger] excess(temps, volumes, from, k, t)) * P43 <= most,
    ensures
        agreement(profile, temps, volumes, from, to, t) * P43 <= ((profile[to - 1] - t) * excess(
            temps,
            volumes,
            from,
            to,
            t,
        )) * P43 + (profile[from] - profile[to - 1]) * most,
    decreases to - from,
{
    let d = volumes[to - 1].units() * (temps[to - 1].units() - t);
    let next = profile[to - 1] - t;
    let first = profile[from] - t;
    let before = excess(temps, volumes, from, to - 1, t);
    let gain = agreement(profile, temps, volumes, from, to - 1, t);
    if to - 1 == from {
        assert(before == 0 && gain == 0);
        assert((first - first) * most == 0) by (nonlinear_arith);
        assert(first * (0 + d) == 0 + first * d);
    } else {
        let last = profile[to - 2] - t;
        assert(profile[to - 2] >= profile[to - 1]);
        lemma_agreement(profile, temps, volumes, from, to - 1, t, most);
        lemma_by_parts(gain, before, d, first, last, next, most);
    }
}

/// What a profile adds to the misfit of one temperature.
proof fn lemma_misfit_moves(
    profile: Seq<int>,
    even: Seq<int>,
    temps: Seq<Double>,
    volumes: Seq<Double>,
    from: int,
    to: int,
    t: int,
)
    requires
        0 <= from <= to <= volumes.len(),
        forall|i: int| 0 <= i < volumes.len() ==> (#[trigger] volumes[i]).units() > 0,
        forall|i: int| from <= i < to ==> #[trigger] even[i] == t,
    ensures
        misfit(profile, temps, volumes, from, to) >= misfit(even, temps, volumes, from, to) - 2
            * agreement(profile, temps, volumes, from, to, t),
    decreases to - from,
{
    if from < to {
        lemma_misfit_moves(profile, even, temps, volumes, from, to - 1, t);
        let v = volumes[to - 1].units();
        let x = profile[to - 1] - t;
        let y = temps[to - 1].units() - t;
        let d = profile[to - 1] - temps[to - 1].units();
        let e = even[to - 1] - temps[to - 1].units();
        assert(d == x - y && e == -y);
        assert(v * (d * d) >= v * (e * e) - 2 * (x * (v * y))) by (nonlinear_arith)
            requires
                d == x - y,
                e == -y,
                v >= 0,
        {
            assert(d * d == x * x - 2 * (x * y) + y * y);
            assert(e * e == y * y);
            assert(v * (d * d) == v * (x * x) - 2 * (x * (v * y)) + v * (y * y));
            assert(v * (x * x) >= 0);
        }
    }
}

/// Within one layer.
proof fn lemma_layer_is_closest(
    layer: Layer,
    profile: Seq<int>,
    even: Seq<int>,
    temps: Seq<Double>,
    volumes: Seq<Double>,
    from: int,
    to: int,
    each: int,
    apart: int,
)
    requires
        block_fits(layer, temps, volumes, from, to, each),
        1 <= layer.count,
        0 <= each,
        never_colder_upwards(profile),
        0 <= from < to <= volumes.len(),
        profile.len() == volumes.len(),
        forall|i: int| 0 <= i < volumes.len() ==> (#[trigger] volumes[i]).units() > 0,
        forall|i: int| from <= i < to ==> #[trigger] even[i] == layer.temp.units(),
        forall|i: int| from <= i < to ==> size(#[trigger] profile[i] - even[i]) <= apart,
    ensures
        misfit(even, temps, volumes, from, to) * P43 <= misfit(profile, temps, volumes, from, to)
            * P43 + 18 * (apart * (each * (layer.count - 1))),
{
    let t = layer.temp.units();
    let b = each * (layer.count - 1);
    let most = 3 * b;
    let first = profile[from] - t;
    let last = profile[to - 1] - t;
    let off = excess(temps, volumes, from, to, t);
    let gain = agreement(profile, temps, volumes, from, to, t);
    assert(b >= 0) by (nonlinear_arith)
        requires
            b == each * (layer.count - 1),
            each >= 0,
            layer.count >= 1,
    ;
    lemma_agreement(profile, temps, volumes, from, to, t, most);
    lemma_misfit_moves(profile, even, temps, volumes, from, to, t);
    assert(size(profile[from] - even[from]) <= apart);
    assert(size(profile[to - 1] - even[to - 1]) <= apart);
    assert((last * off) * P43 <= apart * most) by (nonlinear_arith)
        requires
            -apart <= last <= apart,
            -most <= off * P43 <= most,
    {
        let o = off * P43;
        assert((last * off) * P43 == last * o);
    }
    assert((first - last) * most <= 2 * (apart * most)) by (nonlinear_arith)
        requires
            first - last <= 2 * apart,
            most >= 0,
    ;
    assert(apart * most == 3 * (apart * b)) by (nonlinear_arith)
        requires
            most == 3 * b,
    ;
}

proof fn lemma_misfit_splits(
    profile: Seq<int>,
    temps: Seq<Double>,
    volumes: Seq<Double>,
    from: int,
    mid: int,
    to: int,
)
    requires
        from <= mid <= to,
    ensures
        misfit(profile, temps, volumes, from, to) == misfit(profile, temps, volumes, from, mid)
            + misfit(profile, temps, volumes, mid, to),
    decreases to - mid,
{
    if mid < to {
        lemma_misfit_splits(profile, temps, volumes, from, mid, to - 1);
    }
}

/// Over all layers.
proof fn lemma_layers_are_closest(
    layers: Seq<Layer>,
    profile: Seq<int>,
    even: Seq<int>,
    temps: Seq<Double>,
    volumes: Seq<Double>,
    each: int,
    apart: int,
)
    requires
        blocks_fit(layers, temps, volumes, each),
        forall|i: int| 0 <= i < layers.len() ==> (#[trigger] layers[i]).count > 0,
        0 <= each,
        never_colder_upwards(profile),
        crate::mixing::node_count(layers) <= volumes.len(),
        profile.len() == volumes.len(),
        forall|i: int| 0 <= i < volumes.len() ==> (#[trigger] volumes[i]).units() > 0,
        crate::mixing::spread(layers).len() == crate::mixing::node_count(layers),
        forall|i: int|
            0 <= i < crate::mixing::node_count(layers) ==> #[trigger] even[i]
                == crate::mixing::spread(layers)[i].units(),
        forall|i: int|
            0 <= i < crate::mixing::node_count(layers) ==> size(#[trigger] profile[i] - even[i])
                <= apart,
    ensures
        misfit(even, temps, volumes, 0, crate::mixing::node_count(layers) as int) * P43
            <= misfit(profile, temps, volumes, 0, crate::mixing::node_count(layers) as int) * P43
            + 18 * (apart * (each * (crate::mixing::node_count(layers) - layers.len()))),
    decreases layers.len(),
{
    if layers.len() == 0 {
        assert(apart * (each * 0) == 0) by (nonlinear_arith);
    } else {
        let above = layers.drop_last();
        let layer = layers.last();
        let mid = crate::mixing::node_count(above) as int;
        let to = crate::mixing::node_count(layers) as int;
        assert(crate::mixing::spread(layers) == crate::mixing::spread(above) + Seq::new(
            layer.count,
            |i: int| layer.temp,
        ));
        assert(crate::mixing::spread(above).len() == mid);
        assert forall|i: int| 0 <= i < mid implies #[trigger] even[i] == crate::mixing::spread(
            above,
        )[i].units() by {
            assert(crate::mixing::spread(layers)[i] == crate::mixing::spread(above)[i]);
        }
        assert forall|i: int| mid <= i < to implies #[trigger] even[i] == layer.temp.units() by {
            assert(crate::mixing::spread(layers)[i] == layer.temp);
        }
        assert forall|i: int| 0 <= i < above.len() implies (#[trigger] above[i]).count > 0 by {
            assert(above[i] == layers[i]);
        }
        assert(layers[layers.len() - 1].count > 0);
        lemma_layers_are_closest(above, profile, even, temps, volumes, each, apart);
        lemma_layer_is_closest(layer, profile, even, temps, volumes, mid, to, each, apart);
        lemma_misfit_splits(profile, temps, volumes, 0, mid, to);
        lemma_misfit_splits(even, temps, volumes, 0, mid, to);
        let k = mid - above.len();
        let c = layer.count - 1;
        assert(to - layers.len() == k + c);
        assert(apart * (each * (k + c)) == apart * (each * k) + apart * (each * c))
            by (nonlinear_arith);
    }
}

/// Of all profiles that are never colder upwards, the mixed column is closest to the column
/// before it mixed: no other has a smaller sum of squared differences, by volume, but for the
/// last digits. The other profile may be anything; `apart` is how far it is at most from the
/// mixed column.
pub proof fn mixing_is_closest(
    temps: Seq<Double>,
    volumes: Seq<Double>,
    profile: Seq<int>,
    apart: int,
)
    requires
        temps.len() == volumes.len(),
        temps.len() <= 12,
        forall|i: int|
            0 <= i < volumes.len() ==> (#[trigger] volumes[i]).is_finite() && volumes[i].gt(
                Double::zero(),
            ),
        layers_are_definite(crate::mixing::layered(temps, volumes, temps.len())),
        profile.len() == temps.len(),
        never_colder_upwards(profile),
        0 <= apart,
        forall|i: int|
            0 <= i < temps.len() ==> size(
                #[trigger] profile[i] - profile_of(crate::mixing::mixed(temps, volumes))[i],
            ) <= apart,
    ensures
        misfit(
            profile_of(crate::mixing::mixed(temps, volumes)),
            temps,
            volumes,
            0,
            temps.len() as int,
        ) * P34 <= misfit(profile, temps, volumes, 0, temps.len() as int) * P34 + apart * (
        gross_heat(temps, volumes) + P43 * (span(volumes, 0, temps.len() as int) + pow2(1074))),
{
    let n = temps.len();
    let layers = crate::mixing::layered(temps, volumes, n);
    let mixed = crate::mixing::mixed(temps, volumes);
    let even = profile_of(mixed);
    let each = merge_error(temps, volumes);
    let g = gross_heat(temps, volumes);
    let w = span(volumes, 0, n as int) + pow2(1074);
    lemma_layers_fit(temps, volumes);
    crate::mixing::layers_are_settled(temps, volumes, n);
    crate::mixing::mixing_removes_inversions(temps, volumes);
    lemma_layers_are_closest(layers, profile, even, temps, volumes, each, apart);
    let k = n - layers.len();
    let e = each * k;
    let much = g + P43 * w;
    assert(0 <= e <= 11 * each) by (nonlinear_arith)
        requires
            e == each * k,
            0 <= k <= 11,
            each >= 0,
    ;
    assert(18 * (apart * e) <= 512 * (apart * much)) by (nonlinear_arith)
        requires
            18 * e <= 512 * much,
            apart >= 0,
    ;
}

} // verus!
