//! Mixing of inverted layers: water that is colder than the water below it mixes with it.
use vstd::prelude::*;

use crate::double::Double;

verus! {

/// Adjacent nodes that share one temperature.
pub struct Layer {
    pub temp: Double,
    pub volume: Double,
    pub count: nat,
}

/// Two adjacent layers as one, at their volume-weighted average temperature.
pub open spec fn merge(upper: Layer, lower: Layer) -> Layer {
    let volume = upper.volume.plus(lower.volume);
    Layer {
        temp: upper.temp.times(upper.volume).plus(lower.temp.times(lower.volume)).over(volume),
        volume,
        count: upper.count + lower.count,
    }
}

/// The layers after the lowest has merged upwards for as long as the layer above it is
/// not at least as warm.
pub open spec fn settle(layers: Seq<Layer>) -> Seq<Layer>
    decreases layers.len(),
{
    if layers.len() < 2 {
        layers
    } else {
        let upper = layers[layers.len() - 2];
        let lower = layers[layers.len() - 1];
        if upper.temp.ge(lower.temp) {
            layers
        } else {
            settle(layers.take(layers.len() - 2).push(merge(upper, lower)))
        }
    }
}

/// The layers that the first `n` nodes form, added from the top.
pub open spec fn layered(temps: Seq<Double>, volumes: Seq<Double>, n: nat) -> Seq<Layer>
    decreases n,
{
    if n == 0 {
        Seq::empty()
    } else {
        settle(
            layered(temps, volumes, (n - 1) as nat).push(
                Layer { temp: temps[n - 1], volume: volumes[n - 1], count: 1 },
            ),
        )
    }
}

/// The temperatures of the nodes of some layers.
pub open spec fn spread(layers: Seq<Layer>) -> Seq<Double>
    decreases layers.len(),
{
    if layers.len() == 0 {
        Seq::empty()
    } else {
        spread(layers.drop_last()) + Seq::new(layers.last().count, |i: int| layers.last().temp)
    }
}

/// The temperatures of the nodes after mixing.
pub open spec fn mixed(temps: Seq<Double>, volumes: Seq<Double>) -> Seq<Double> {
    spread(layered(temps, volumes, temps.len()))
}

/// The number of times that two layers were merged.
pub open spec fn merges(temps: Seq<Double>, volumes: Seq<Double>) -> int {
    temps.len() - layered(temps, volumes, temps.len()).len()
}

/// The number of nodes in some layers.
pub open spec fn node_count(layers: Seq<Layer>) -> nat
    decreases layers.len(),
{
    if layers.len() == 0 {
        0
    } else {
        node_count(layers.drop_last()) + layers.last().count
    }
}

/// Each layer is at least as warm as the one below it.
pub open spec fn settled(layers: Seq<Layer>) -> bool {
    forall|i: int| #![trigger layers[i]] 0 <= i < layers.len() - 1 ==> layers[i].temp.ge(layers[i + 1].temp)
}

/// Each node is at least as warm as the one below it, or has the very same temperature.
pub open spec fn non_increasing(temps: Seq<Double>) -> bool {
    forall|i: int| #![trigger temps[i]]
        0 <= i < temps.len() - 1 ==> temps[i] == temps[i + 1] || temps[i].ge(temps[i + 1])
}

proof fn lemma_settle(layers: Seq<Layer>)
    requires
        layers.len() > 0,
        settled(layers.drop_last()),
        forall|i: int| 0 <= i < layers.len() ==> (#[trigger] layers[i]).count > 0,
    ensures
        settled(settle(layers)),
        settle(layers).len() > 0,
        settle(layers).len() <= layers.len(),
        node_count(settle(layers)) == node_count(layers),
        forall|i: int|
            0 <= i < settle(layers).len() ==> (#[trigger] settle(layers)[i]).count > 0,
    decreases layers.len(),
{
    if layers.len() < 2 {
    } else {
        let n = layers.len();
        let upper = layers[n - 2];
        let lower = layers[n - 1];
        let above = layers.drop_last();
        assert(above.last() == upper);
        assert(above.drop_last() =~= layers.take(n - 2));
        if upper.temp.ge(lower.temp) {
            assert forall|i: int|
                #![trigger layers[i]]
                0 <= i < n - 1 implies layers[i].temp.ge(layers[i + 1].temp) by {
                if i < n - 2 {
                    assert(above[i].temp.ge(above[i + 1].temp));
                }
            }
        } else {
            let next = layers.take(n - 2).push(merge(upper, lower));
            assert(next.drop_last() =~= layers.take(n - 2));
            assert forall|i: int|
                #![trigger next.drop_last()[i]]
                0 <= i < next.drop_last().len() - 1 implies next.drop_last()[i].temp.ge(
                next.drop_last()[i + 1].temp,
            ) by {
                assert(above[i].temp.ge(above[i + 1].temp));
            }
            assert(node_count(next) == node_count(layers)) by {
                assert(node_count(layers) == node_count(above) + lower.count);
                assert(node_count(above) == node_count(layers.take(n - 2)) + upper.count);
            }
            lemma_settle(next);
        }
    }
}

/// The layers that nodes form are settled, and hold each node once.
pub proof fn layers_are_settled(temps: Seq<Double>, volumes: Seq<Double>, n: nat)
    ensures
        settled(layered(temps, volumes, n)),
        node_count(layered(temps, volumes, n)) == n,
        layered(temps, volumes, n).len() <= n,
        n > 0 ==> layered(temps, volumes, n).len() > 0,
        forall|i: int|
            0 <= i < layered(temps, volumes, n).len() ==> (#[trigger] layered(
                temps,
                volumes,
                n,
            )[i]).count > 0,
    decreases n,
{
    if n > 0 {
        let before = layered(temps, volumes, (n - 1) as nat);
        layers_are_settled(temps, volumes, (n - 1) as nat);
        let pushed = before.push(
            Layer { temp: temps[n - 1], volume: volumes[n - 1], count: 1 },
        );
        assert(pushed.drop_last() =~= before);
        lemma_settle(pushed);
    }
}

/// A node of some layers has the temperature of one of them; neighbours are in the same
/// layer or in adjacent ones.
proof fn lemma_spread(layers: Seq<Layer>)
    requires
        settled(layers),
        forall|i: int| 0 <= i < layers.len() ==> (#[trigger] layers[i]).count > 0,
    ensures
        spread(layers).len() == node_count(layers),
        layers.len() > 0 ==> spread(layers).len() > 0 && spread(layers).last()
            == layers.last().temp,
        non_increasing(spread(layers)),
    decreases layers.len(),
{
    if layers.len() > 0 {
        let above = layers.drop_last();
        let n = layers.len();
        assert forall|i: int| #![trigger above[i]] 0 <= i < above.len() - 1 implies above[i].temp.ge(
            above[i + 1].temp,
        ) by {
            assert(layers[i].temp.ge(layers[i + 1].temp));
        }
        lemma_spread(above);
        let tail = Seq::new(layers.last().count, |i: int| layers.last().temp);
        let all = spread(above) + tail;
        assert forall|i: int| #![trigger all[i]] 0 <= i < all.len() - 1 implies all[i] == all[i + 1]
            || all[i].ge(all[i + 1]) by {
            let m = spread(above).len();
            if i + 1 < m {
                assert(all[i] == spread(above)[i]);
                assert(all[i + 1] == spread(above)[i + 1]);
            } else if i + 1 == m {
                assert(all[i] == spread(above).last());
                assert(all[i + 1] == layers.last().temp);
                assert(layers[n - 2].temp.ge(layers[n - 1].temp));
            }
        }
    }
}

/// After mixing there are as many nodes as before, and none is colder than the one
/// below it.
pub proof fn mixing_removes_inversions(temps: Seq<Double>, volumes: Seq<Double>)
    ensures
        mixed(temps, volumes).len() == temps.len(),
        non_increasing(mixed(temps, volumes)),
        0 <= merges(temps, volumes),
        temps.len() > 0 ==> merges(temps, volumes) < temps.len(),
{
    layers_are_settled(temps, volumes, temps.len());
    lemma_spread(layered(temps, volumes, temps.len()));
}

/// Every node is at least as warm as the next; none is NaN among two or more.
pub open spec fn stratified(temps: Seq<Double>) -> bool {
    forall|i: int| #![trigger temps[i]] 0 <= i < temps.len() - 1 ==> temps[i].ge(temps[i + 1])
}

/// Mixing leaves a stratified column as it is.
pub proof fn mixing_keeps_stratified(temps: Seq<Double>, volumes: Seq<Double>)
    requires
        stratified(temps),
    ensures
        mixed(temps, volumes) == temps,
        merges(temps, volumes) == 0,
{
    lemma_stratified_layers(temps, volumes, temps.len());
    lemma_spread_singletons(temps, layered(temps, volumes, temps.len()));
}

proof fn lemma_stratified_layers(temps: Seq<Double>, volumes: Seq<Double>, n: nat)
    requires
        stratified(temps),
        n <= temps.len(),
    ensures
        layered(temps, volumes, n).len() == n,
        forall|i: int|
            0 <= i < n ==> (#[trigger] layered(temps, volumes, n)[i]).temp == temps[i]
                && layered(temps, volumes, n)[i].count == 1,
    decreases n,
{
    if n > 0 {
        lemma_stratified_layers(temps, volumes, (n - 1) as nat);
        let before = layered(temps, volumes, (n - 1) as nat);
        let pushed = before.push(
            Layer { temp: temps[n - 1], volume: volumes[n - 1], count: 1 },
        );
        if n >= 2 {
            assert(temps[n - 2].ge(temps[n - 1]));
            assert(before[n - 2].temp == temps[n - 2]);
            assert(settle(pushed) == pushed);
        }
    }
}

proof fn lemma_spread_singletons(temps: Seq<Double>, layers: Seq<Layer>)
    requires
        layers.len() <= temps.len(),
        forall|i: int|
            0 <= i < layers.len() ==> (#[trigger] layers[i]).temp == temps[i] && layers[i].count
                == 1,
    ensures
        spread(layers) == temps.take(layers.len() as int),
        layers.len() == temps.len() ==> spread(layers) == temps,
    decreases layers.len(),
{
    if layers.len() > 0 {
        lemma_spread_singletons(temps, layers.drop_last());
        assert(layers.last() == layers[layers.len() - 1]);
        assert(spread(layers) =~= temps.take(layers.len() as int));
    } else {
        assert(spread(layers) =~= temps.take(0));
    }
    if layers.len() == temps.len() {
        assert(temps.take(layers.len() as int) =~= temps);
    }
}

/// Of layers that have merged, those without a temperature all have the same NaN.
spec fn nans_are_one(layers: Seq<Layer>) -> bool {
    forall|i: int|
        0 <= i < layers.len() && (#[trigger] layers[i]).count > 1 && layers[i].temp.is_nan()
            ==> layers[i].temp == Double::nan()
}

proof fn lemma_quotient_nan(x: Double, y: Double)
    ensures
        x.over(y).is_nan() ==> x.over(y) == Double::nan(),
{
    reveal(Double::spec_over);
    crate::double_laws::lemma_signed_mag(0);
    crate::double_laws::lemma_signed_mag(crate::rounding::INF_MAG as nat);
    if x.is_finite() && y.is_finite() && y.mag() != 0 {
        let num = crate::rounding::mag_units(x.mag()) * vstd::arithmetic::power2::pow2(1074);
        let den = crate::rounding::mag_units(y.mag());
        crate::double_laws::lemma_signed_mag(crate::rounding::round_mag(num, den));
    }
}

proof fn lemma_settle_nans(layers: Seq<Layer>)
    requires
        nans_are_one(layers),
    ensures
        nans_are_one(settle(layers)),
    decreases layers.len(),
{
    if layers.len() >= 2 {
        let n = layers.len();
        let upper = layers[n - 2];
        let lower = layers[n - 1];
        if !upper.temp.ge(lower.temp) {
            let next = layers.take(n - 2).push(merge(upper, lower));
            lemma_quotient_nan(
                upper.temp.times(upper.volume).plus(lower.temp.times(lower.volume)),
                upper.volume.plus(lower.volume),
            );
            assert forall|i: int|
                0 <= i < next.len() && (#[trigger] next[i]).count > 1 && next[i].temp.is_nan()
                    implies next[i].temp == Double::nan() by {
                if i < n - 2 {
                    assert(next[i] == layers[i]);
                }
            }
            lemma_settle_nans(next);
        }
    }
}

proof fn lemma_layered_nans(temps: Seq<Double>, volumes: Seq<Double>, n: nat)
    ensures
        nans_are_one(layered(temps, volumes, n)),
    decreases n,
{
    if n > 0 {
        let before = layered(temps, volumes, (n - 1) as nat);
        lemma_layered_nans(temps, volumes, (n - 1) as nat);
        let pushed = before.push(
            Layer { temp: temps[n - 1], volume: volumes[n - 1], count: 1 },
        );
        assert(nans_are_one(pushed)) by {
            assert forall|i: int|
                0 <= i < pushed.len() && (#[trigger] pushed[i]).count > 1
                    && pushed[i].temp.is_nan() implies pushed[i].temp == Double::nan() by {
                if i < before.len() {
                    assert(pushed[i] == before[i]);
                }
            }
        }
        lemma_settle_nans(pushed);
    }
}

/// Nodes without a temperature form one layer.
proof fn lemma_nans_merge(temps: Seq<Double>, volumes: Seq<Double>, n: nat)
    requires
        0 < n <= temps.len(),
        forall|i: int| 0 <= i < temps.len() ==> #[trigger] temps[i] == Double::nan(),
    ensures
        layered(temps, volumes, n).len() == 1,
        layered(temps, volumes, n)[0].temp == Double::nan(),
        layered(temps, volumes, n)[0].count == n,
    decreases n,
{
    let before = layered(temps, volumes, (n - 1) as nat);
    let node = Layer { temp: temps[n - 1], volume: volumes[n - 1], count: 1 };
    assert(temps[n - 1] == Double::nan());
    if n == 1 {
        assert(before.push(node) =~= seq![node]);
        assert(settle(seq![node]) == seq![node]);
    } else {
        lemma_nans_merge(temps, volumes, (n - 1) as nat);
        let pushed = before.push(node);
        let merged = merge(before[0], node);
        reveal(Double::spec_over);
        reveal(Double::spec_plus);
        reveal(Double::spec_times);
        assert(merged.temp == Double::nan());
        assert(pushed.take(0).push(merged) =~= seq![merged]);
        assert(settle(seq![merged]) == seq![merged]);
        assert(settle(pushed) == seq![merged]);
    }
}

proof fn lemma_spread_of_one(layer: Layer)
    ensures
        spread(seq![layer]) == Seq::new(layer.count, |i: int| layer.temp),
{
    let layers = seq![layer];
    assert(layers.drop_last() =~= Seq::empty());
    assert(spread(layers.drop_last()) =~= Seq::<Double>::empty());
    assert(spread(layers) =~= Seq::new(layer.count, |i: int| layer.temp));
}

/// Nodes of layers that have temperatures have them too.
proof fn lemma_spread_has_temps(layers: Seq<Layer>)
    requires
        forall|i: int| 0 <= i < layers.len() ==> !(#[trigger] layers[i]).temp.is_nan(),
    ensures
        forall|i: int| 0 <= i < spread(layers).len() ==> !(#[trigger] spread(layers)[i]).is_nan(),
    decreases layers.len(),
{
    if layers.len() > 0 {
        let above = layers.drop_last();
        assert forall|i: int| 0 <= i < above.len() implies !(
        #[trigger] above[i]).temp.is_nan() by {
            assert(above[i] == layers[i]);
        }
        lemma_spread_has_temps(above);
        assert(!layers[layers.len() - 1].temp.is_nan());
        assert forall|i: int| 0 <= i < spread(layers).len() implies !(
        #[trigger] spread(layers)[i]).is_nan() by {
            if i < spread(above).len() {
                assert(spread(layers)[i] == spread(above)[i]);
            } else {
                assert(spread(layers)[i] == layers.last().temp);
            }
        }
    }
}

/// Mixing twice is mixing once.
pub proof fn mixing_is_idempotent(temps: Seq<Double>, volumes: Seq<Double>)
    ensures
        mixed(mixed(temps, volumes), volumes) == mixed(temps, volumes),
{
    let n = temps.len();
    let once = mixed(temps, volumes);
    let layers = layered(temps, volumes, n);
    mixing_removes_inversions(temps, volumes);
    layers_are_settled(temps, volumes, n);
    if n == 0 {
        assert(once =~= temps);
    } else if layers.len() == 1 && layers[0].temp.is_nan() {
        assert(layers =~= seq![layers[0]]);
        lemma_spread_of_one(layers[0]);
        assert(layers[0].count == n);
        if n == 1 {
            let node = Layer { temp: temps[0], volume: volumes[0], count: 1 };
            assert(layered(temps, volumes, 0).push(node) =~= seq![node]);
            assert(layers =~= seq![node]);
            assert(once =~= temps);
        } else {
            lemma_layered_nans(temps, volumes, n);
            assert(layers[0].count > 1);
            lemma_nans_merge(once, volumes, n);
            let again = layered(once, volumes, n);
            assert(again =~= seq![again[0]]);
            lemma_spread_of_one(again[0]);
            assert(mixed(once, volumes) =~= once);
        }
    } else {
        assert forall|i: int| 0 <= i < layers.len() implies !(
        #[trigger] layers[i]).temp.is_nan() by {
            if i < layers.len() - 1 {
                assert(layers[i].temp.ge(layers[i + 1].temp));
            } else if i > 0 {
                assert(layers[i - 1].temp.ge(layers[i].temp));
            }
        }
        lemma_spread_has_temps(layers);
        assert forall|i: int| #![trigger once[i]] 0 <= i < once.len() - 1 implies once[i].ge(
            once[i + 1],
        ) by {
            assert(!once[i].is_nan());
        }
        mixing_keeps_stratified(once, volumes);
    }
}

// ---------------------------------------------------------------------------
// Execution
// ---------------------------------------------------------------------------

spec fn stack(temps: Seq<Double>, volumes: Seq<Double>, counts: Seq<usize>) -> Seq<Layer> {
    Seq::new(
        temps.len(),
        |i: int| Layer { temp: temps[i], volume: volumes[i], count: counts[i] as nat },
    )
}

proof fn lemma_count_bound(layers: Seq<Layer>, i: int)
    requires
        0 <= i < layers.len(),
    ensures
        layers[i].count <= node_count(layers),
        i + 1 < layers.len() ==> layers[i].count + layers[i + 1].count <= node_count(layers),
    decreases layers.len(),
{
    if i < layers.len() - 1 {
        lemma_count_bound(layers.drop_last(), i);
    }
}

/// Mix the nodes of a column; gives the new temperatures and the number of merges.
pub(crate) fn mix(temps: &Vec<Double>, volumes: &Vec<Double>) -> (r: (Vec<Double>, usize))
    requires
        temps@.len() == volumes@.len(),
        temps@.len() < usize::MAX,
    ensures
        r.0@ == mixed(temps@, volumes@),
        r.0@.len() == temps@.len(),
        r.1 == merges(temps@, volumes@),
{
    let mut layer_temps: Vec<Double> = Vec::new();
    let mut layer_volumes: Vec<Double> = Vec::new();
    let mut layer_counts: Vec<usize> = Vec::new();
    let mut total_merges: usize = 0;
    let n: usize = temps.len();
    let mut i: usize = 0;
    assert(stack(layer_temps@, layer_volumes@, layer_counts@) =~= layered(temps@, volumes@, 0));
    while i < n
        invariant
            i <= n,
            n == temps@.len(),
            n == volumes@.len(),
            n < usize::MAX,
            layer_temps@.len() == layer_volumes@.len(),
            layer_temps@.len() == layer_counts@.len(),
            stack(layer_temps@, layer_volumes@, layer_counts@) == layered(
                temps@,
                volumes@,
                i as nat,
            ),
            total_merges == i - layer_temps@.len(),
        decreases n - i,
    {
        let ghost before = stack(layer_temps@, layer_volumes@, layer_counts@);
        layer_temps.push(temps[i]);
        layer_volumes.push(volumes[i]);
        layer_counts.push(1);
        proof {
            layers_are_settled(temps@, volumes@, i as nat);
            let pushed = before.push(
                Layer { temp: temps@[i as int], volume: volumes@[i as int], count: 1 },
            );
            assert(pushed.drop_last() =~= before);
            assert(stack(layer_temps@, layer_volumes@, layer_counts@) =~= pushed);
            assert(node_count(pushed) == i + 1);
        }
        let ghost goal = layered(temps@, volumes@, (i + 1) as nat);
        let mut inverted: bool = true;
        while inverted
            invariant
                i < n,
                n == temps@.len(),
                n < usize::MAX,
                layer_temps@.len() == layer_volumes@.len(),
                layer_temps@.len() == layer_counts@.len(),
                layer_temps@.len() > 0,
                total_merges == i + 1 - layer_temps@.len(),
                goal == settle(stack(layer_temps@, layer_volumes@, layer_counts@)),
                node_count(stack(layer_temps@, layer_volumes@, layer_counts@)) == i + 1,
                !inverted ==> goal == stack(layer_temps@, layer_volumes@, layer_counts@),
            decreases layer_temps@.len() + (if inverted { 1nat } else { 0nat }),
        {
            let ghost layers = stack(layer_temps@, layer_volumes@, layer_counts@);
            let len: usize = layer_temps.len();
            if len < 2 {
                inverted = false;
            } else {
                let upper: usize = len - 2;
                let lower: usize = len - 1;
                if layer_temps[upper].ge(layer_temps[lower]) {
                    inverted = false;
                } else {
                    let merged_volume: Double = layer_volumes[upper].plus(layer_volumes[lower]);
                    let merged_temp: Double = layer_temps[upper].times(layer_volumes[upper]).plus(
                        layer_temps[lower].times(layer_volumes[lower]),
                    ).over(merged_volume);
                    proof {
                        lemma_count_bound(layers, upper as int);
                    }
                    let merged_count: usize = layer_counts[upper] + layer_counts[lower];
                    layer_temps.pop();
                    layer_volumes.pop();
                    layer_counts.pop();
                    layer_temps.set(upper, merged_temp);
                    layer_volumes.set(upper, merged_volume);
                    layer_counts.set(upper, merged_count);
                    total_merges += 1;
                    proof {
                        let next = layers.take(upper as int).push(
                            merge(layers[upper as int], layers[lower as int]),
                        );
                        assert(stack(layer_temps@, layer_volumes@, layer_counts@) =~= next);
                        let above = layers.drop_last();
                        assert(above.drop_last() =~= layers.take(upper as int));
                        assert(next.drop_last() =~= layers.take(upper as int));
                        assert(above.last() == layers[upper as int]);
                        assert(node_count(above) == node_count(layers.take(upper as int))
                            + layers[upper as int].count);
                        assert(node_count(next) == node_count(layers));
                    }
                }
            }
        }
        i += 1;
    }
    let ghost layers = stack(layer_temps@, layer_volumes@, layer_counts@);
    let mut output: Vec<Double> = Vec::new();
    let mut l: usize = 0;
    assert(layers.take(0) =~= Seq::<Layer>::empty());
    while l < layer_temps.len()
        invariant
            l <= layer_temps@.len(),
            layer_temps@.len() == layer_counts@.len(),
            layers == stack(layer_temps@, layer_volumes@, layer_counts@),
            output@ == spread(layers.take(l as int)),
        decreases layer_temps@.len() - l,
    {
        let ghost start = output@;
        let mut c: usize = 0;
        while c < layer_counts[l]
            invariant
                l < layer_temps@.len(),
                layer_temps@.len() == layer_counts@.len(),
                c <= layer_counts@[l as int],
                output@ == start + Seq::new(c as nat, |j: int| layer_temps@[l as int]),
            decreases layer_counts@[l as int] - c,
        {
            output.push(layer_temps[l]);
            c += 1;
            assert(output@ =~= start + Seq::new(c as nat, |j: int| layer_temps@[l as int]));
        }
        proof {
            let upto = layers.take(l + 1);
            assert(upto.drop_last() =~= layers.take(l as int));
            assert(upto.last() == layers[l as int]);
            assert(spread(upto) =~= output@);
        }
        l += 1;
    }
    proof {
        assert(layers.take(l as int) =~= layers);
        mixing_removes_inversions(temps@, volumes@);
    }
    (output, total_merges)
}

} // verus!
