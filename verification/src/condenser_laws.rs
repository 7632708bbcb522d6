//! How a condenser spreads its heat: the shares of the nodes add up to the whole.
use vstd::arithmetic::mul::*;
use vstd::arithmetic::power2::*;
use vstd::prelude::*;

use crate::double::Double;
use crate::hpwh_compressor::{condenser_injections, condenser_shares};
use crate::precision::{size, P46};
use crate::rounding::{P52, P53};
use crate::tank::is_nonnegative;

verus! {

/// The first `n` of some numbers, added up exactly.
pub open spec fn exact_sum(values: Seq<Double>, n: int) -> int
    decreases n,
{
    if n <= 0 {
        0
    } else {
        exact_sum(values, n - 1) + values[n - 1].units()
    }
}

/// The powers of the first `n` of some injections, added up exactly.
pub open spec fn total_power(injections: Seq<(usize, Double)>, n: int) -> int
    decreases n,
{
    if n <= 0 {
        0
    } else {
        total_power(injections, n - 1) + injections[n - 1].1.units()
    }
}

/// The share of a node.
pub open spec fn node_share(weights: Seq<Double>, q_w: Double, i: int) -> Double {
    q_w.times(weights[i]).over(crate::tank::sum(weights))
}

/// Weights for at most twelve nodes, none negative, that add up to more than nothing; no
/// share of the heat overflows.
pub open spec fn spreads(weights: Seq<Double>, q_w: Double) -> bool {
    &&& weights.len() <= 12
    &&& q_w.is_finite()
    &&& crate::tank::sum(weights).is_finite()
    &&& crate::tank::sum(weights).gt(Double::zero())
    &&& forall|i: int| 0 <= i < weights.len() ==> is_nonnegative(#[trigger] weights[i])
    &&& forall|i: int|
        #![trigger weights[i]]
        0 <= i < weights.len() ==> node_share(weights, q_w, i).is_finite()
}

proof fn lemma_nonnegative_units(x: Double)
    requires
        is_nonnegative(x),
    ensures
        x.units() >= 0,
{
    crate::double_laws::lemma_units_zero();
    crate::double_laws::order_agrees_with_value(Double::zero(), x);
}

/// A sum of numbers that are not negative is close to the exact one.
proof fn lemma_sum_is_close(values: Seq<Double>)
    requires
        values.len() <= 12,
        crate::tank::sum(values).is_finite(),
        forall|i: int| 0 <= i < values.len() ==> is_nonnegative(#[trigger] values[i]),
    ensures
        0 <= exact_sum(values, values.len() as int),
        size(crate::tank::sum(values).units() - exact_sum(values, values.len() as int)) * P53 <= 2
            * values.len() * exact_sum(values, values.len() as int),
    decreases values.len(),
{
    crate::double_laws::lemma_units_zero();
    let n = values.len() as int;
    if n > 0 {
        let before = values.drop_last();
        let v = values.last();
        assert(v == values[n - 1]);
        assert forall|i: int| 0 <= i < before.len() implies is_nonnegative(#[trigger] before[i]) by {
            assert(before[i] == values[i]);
        }
        crate::double_laws::lemma_sum_of_finite(crate::tank::sum(before), v);
        lemma_sum_is_close(before);
        lemma_nonnegative_units(v);
        lemma_exact_sum_agrees(before, values, n - 1);
        crate::precision::sums_are_close(crate::tank::sum(before), v);
        let e = exact_sum(before, n - 1);
        let u = v.units();
        let s = crate::tank::sum(before).units();
        let t = crate::tank::sum(values).units();
        let ne = n * e;
        let nu = n * u;
        assert(2 * (n - 1) * e == 2 * ne - 2 * e && 2 * n * (e + u) == 2 * ne + 2 * nu)
            by (nonlinear_arith)
            requires
                ne == n * e,
                nu == n * u,
        ;
        assert(0 <= ne <= 12 * e && nu >= u) by (nonlinear_arith)
            requires
                ne == n * e,
                nu == n * u,
                1 <= n <= 12,
                e >= 0,
                u >= 0,
        ;
        assert(size(s + u) <= 2 * (e + u));
        assert(size(t - (e + u)) <= size(t - (s + u)) + size(s - e));
    } else {
        assert(2 * 0 * 0 == 0);
    }
}

proof fn lemma_exact_sum_agrees(a: Seq<Double>, b: Seq<Double>, n: int)
    requires
        n <= a.len(),
        n <= b.len(),
        forall|i: int| 0 <= i < n ==> a[i] == b[i],
    ensures
        exact_sum(a, n) == exact_sum(b, n),
    decreases n,
{
    if n > 0 {
        lemma_exact_sum_agrees(a, b, n - 1);
    }
}

/// The total weight in exact numbers.
pub open spec fn total_weight(weights: Seq<Double>) -> int {
    exact_sum(weights, weights.len() as int)
}

/// What the roundings of a share add up to.
proof fn lemma_share_total(
    off: int,
    by_sum: int,
    by_quotient: int,
    by_product: int,
    qw: int,
    ps: int,
    rw: int,
    w: int,
    t: int,
    s: int,
)
    requires
        off <= by_sum + by_quotient + by_product,
        by_product * P53 <= qw + s * P52,
        by_quotient * P53 <= ps + w * P52,
        by_sum * P53 <= 48 * rw,
        0 <= ps <= qw + by_product,
        0 <= rw <= ps + by_quotient,
        0 <= qw,
        0 < w <= 2 * t,
        0 < s,
    ensures
        off * P46 <= qw + 2 * (P46 * (t + s)),
{
    assert(1024 * by_product <= qw + 1024 * s);
    assert(1024 * by_quotient <= ps + 1024 * w);
    assert(ps <= 2 * qw + s);
    assert(1024 * rw <= 1025 * ps + 1024 * w);
    assert(rw <= ps + ps / 512 + w + 1);
    assert(off * P53 <= qw + s * P52 + ps + w * P52 + 48 * rw);
    assert(48 * rw <= 100 * qw + 100 * s + 100 * w);
    assert(off * P53 <= 128 * qw + 2 * (s * P53) + w * P53);
}

/// A node's share is close to its part of the heat: what its weight is of the total weight.
#[verifier::rlimit(40)]
pub proof fn shares_follow_the_weights(weights: Seq<Double>, q_w: Double, i: int)
    requires
        spreads(weights, q_w),
        0 <= i < weights.len(),
    ensures
        0 < total_weight(weights),
        size(
            node_share(weights, q_w, i).units() * total_weight(weights) - q_w.units()
                * weights[i].units(),
        ) * P46 <= size(q_w.units() * weights[i].units()) + 2 * (P46 * (total_weight(weights)
            + pow2(1074))),
{
    let s = pow2(1074) as int;
    let sum = crate::tank::sum(weights);
    let w = sum.units();
    let t = total_weight(weights);
    let v = weights[i];
    let product = q_w.times(v);
    let share = product.over(sum);
    let q = q_w.units();
    let n = weights.len() as int;
    lemma_pow2_pos(1074);
    crate::double_laws::lemma_units_zero();
    crate::double_laws::order_agrees_with_value(Double::zero(), sum);
    lemma_sum_is_close(weights);
    assert(node_share(weights, q_w, i) == share);
    crate::double_laws::lemma_quotient_of_finite(product, sum);
    crate::double_laws::lemma_product_of_finite(q_w, v);
    crate::precision::products_are_close(q_w, v);
    crate::precision::quotients_are_close(product, sum);
    assert(2 * n * t <= 24 * t) by (nonlinear_arith)
        requires
            n <= 12,
            t >= 0,
    ;
    let r = share.units();
    let p = product.units();
    crate::precision::lemma_size_of_product(r, t - w);
    crate::precision::lemma_size_of_product(r, w);
    crate::precision::lemma_size_of_product(p, s);
    assert(size(r * (t - w)) * P53 <= 48 * size(r * w)) by (nonlinear_arith)
        requires
            size(r * (t - w)) == size(r) * size(t - w),
            size(t - w) * P53 <= 24 * t,
            t <= 2 * w,
            size(r * w) == size(r) * w,
            size(r) >= 0,
    ;
    assert(r * t == r * (t - w) + r * w) by (nonlinear_arith);
    lemma_share_total(
        size(r * t - q * v.units()),
        size(r * (t - w)),
        size(r * w - p * s),
        size(p * s - q * v.units()),
        size(q * v.units()),
        size(p * s),
        size(r * w),
        w,
        t,
        s,
    );
}

/// The powers of the first nodes together, and what their weights come to.
proof fn lemma_powers(weights: Seq<Double>, q_w: Double, n_nodes: nat, upto: int)
    requires
        spreads(weights, q_w),
        0 <= upto <= weights.len() <= n_nodes,
    ensures
        ({
            let list = condenser_shares(weights, q_w, n_nodes, upto);
            let t = total_weight(weights);
            size(
                total_power(list, list.len() as int) * t - q_w.units() * exact_sum(weights, upto),
            ) * P46 <= size(q_w.units()) * exact_sum(weights, upto) + upto * (2 * (P46 * (t + pow2(
                1074,
            ))))
        }),
        0 <= exact_sum(weights, upto),
    decreases upto,
{
    let t = total_weight(weights);
    let q = q_w.units();
    let tiny = 2 * (P46 * (t + pow2(1074)));
    if upto > 0 {
        let i = upto - 1;
        lemma_powers(weights, q_w, n_nodes, i);
        let earlier = condenser_shares(weights, q_w, n_nodes, i);
        let list = condenser_shares(weights, q_w, n_nodes, upto);
        let v = weights[i];
        let before = exact_sum(weights, i);
        let sum = exact_sum(weights, upto);
        assert(is_nonnegative(v));
        lemma_nonnegative_units(v);
        let u = v.units();
        lemma_mul_is_distributive_add(q, before, u);
        lemma_mul_is_distributive_add(size(q), before, u);
        crate::precision::lemma_size_of_product(q, u);
        assert(upto * tiny == i * tiny + tiny) by (nonlinear_arith)
            requires
                i == upto - 1,
        ;
        shares_follow_the_weights(weights, q_w, i);
        lemma_pow2_pos(1074);
        let sofar = total_power(earlier, earlier.len() as int);
        if v.gt(Double::zero()) {
            let share = node_share(weights, q_w, i);
            lemma_power_agrees(earlier, list, earlier.len() as int);
            assert(total_power(list, list.len() as int) == sofar + share.units());
            assert((sofar + share.units()) * t == sofar * t + share.units() * t)
                by (nonlinear_arith);
        } else {
            crate::double_laws::lemma_units_zero();
            crate::double_laws::order_agrees_with_value(Double::zero(), v);
            assert(u == 0);
            assert(q * 0 == 0 && size(q) * 0 == 0);
        }
    } else {
        assert(0 * t == 0 && q * 0 == 0 && size(q) * 0 == 0 && 0 * tiny == 0);
    }
}

proof fn lemma_power_agrees(a: Seq<(usize, Double)>, b: Seq<(usize, Double)>, n: int)
    requires
        n <= a.len(),
        n <= b.len(),
        forall|i: int| 0 <= i < n ==> a[i] == b[i],
    ensures
        total_power(a, n) == total_power(b, n),
    decreases n,
{
    if n > 0 {
        lemma_power_agrees(a, b, n - 1);
    }
}

/// The heat of a condenser goes into the tank and nowhere else: what the nodes get adds up
/// to the whole, but for one part in `2^46` and the smallest numbers. No heat goes to no
/// node, and with no weights all of it goes to the lowest.
pub proof fn condenser_heat_adds_up(weights: Seq<Double>, q_w: Double, n_nodes: nat)
    requires
        q_w.is_finite(),
        0 < n_nodes,
        weights.len() <= n_nodes,
        !crate::tank::sum(weights).le(Double::zero()) ==> spreads(weights, q_w),
    ensures
        ({
            let list = condenser_injections(weights, q_w, n_nodes);
            let power = total_power(list, list.len() as int);
            let t = total_weight(weights);
            if q_w.same(Double::zero()) {
                list.len() == 0
            } else if crate::tank::sum(weights).le(Double::zero()) {
                list == seq![((n_nodes - 1) as usize, q_w)] && power == q_w.units()
            } else {
                &&& 0 < t
                &&& size(power - q_w.units()) * t * P46 <= size(q_w.units()) * t + 24 * (P46 * (t
                    + pow2(1074)))
            }
        }),
{
    let list = condenser_injections(weights, q_w, n_nodes);
    if q_w.same(Double::zero()) {
    } else if crate::tank::sum(weights).le(Double::zero()) {
        assert(total_power(list, 0) == 0);
    } else {
        let n = weights.len() as int;
        let t = total_weight(weights);
        let power = total_power(list, list.len() as int);
        let q = q_w.units();
        let tiny = 2 * (P46 * (t + pow2(1074)));
        lemma_powers(weights, q_w, n_nodes, n);
        if n == 0 {
            assert(crate::tank::sum(weights) == Double::zero());
        }
        shares_follow_the_weights(weights, q_w, 0);
        lemma_pow2_pos(1074);
        assert((power - q) * t == power * t - q * t) by (nonlinear_arith);
        crate::precision::lemma_size_of_product(power - q, t);
        assert(n * tiny <= 12 * tiny) by (nonlinear_arith)
            requires
                n <= 12,
                tiny >= 0,
        ;
    }
}

/// Weights that are all larger or smaller by the same factor give the same shares, but for
/// one part in `2^46` of each and the smallest numbers.
pub proof fn scaled_weights_give_the_same_shares(
    a: Seq<Double>,
    b: Seq<Double>,
    q_w: Double,
    i: int,
    c: int,
    d: int,
)
    requires
        spreads(a, q_w),
        spreads(b, q_w),
        a.len() == b.len(),
        0 <= i < a.len(),
        0 < c,
        0 < d,
        forall|j: int| #![trigger a[j]] 0 <= j < a.len() ==> a[j].units() * c == b[j].units() * d,
    ensures
        ({
            let ta = total_weight(a);
            let tb = total_weight(b);
            let s = pow2(1074);
            let off = node_share(a, q_w, i).units() - node_share(b, q_w, i).units();
            size(off) * (ta * tb) * P46 <= size(q_w.units() * a[i].units()) * tb + size(
                q_w.units() * b[i].units(),
            ) * ta + 2 * (P46 * ((ta + s) * tb + (tb + s) * ta))
        }),
{
    let ta = total_weight(a);
    let tb = total_weight(b);
    let s = pow2(1074) as int;
    let q = q_w.units();
    let ra = node_share(a, q_w, i).units();
    let rb = node_share(b, q_w, i).units();
    let wa = a[i].units();
    let wb = b[i].units();
    shares_follow_the_weights(a, q_w, i);
    shares_follow_the_weights(b, q_w, i);
    lemma_sums_scale(a, b, a.len() as int, c, d);
    assert(wa * tb == wb * ta) by (nonlinear_arith)
        requires
            wa * c == wb * d,
            ta * c == tb * d,
            c > 0,
            d > 0,
    {
        assert((wa * tb) * (c * d) == (wa * c) * (tb * d));
        assert((wb * ta) * (c * d) == (wb * d) * (ta * c));
        assert(c * d > 0);
    }
    lemma_scaled(ra, rb, wa, wb, ta, tb, q, s);
}

proof fn lemma_sums_scale(a: Seq<Double>, b: Seq<Double>, n: int, c: int, d: int)
    requires
        a.len() == b.len(),
        n <= a.len(),
        forall|j: int| #![trigger a[j]] 0 <= j < a.len() ==> a[j].units() * c == b[j].units() * d,
    ensures
        exact_sum(a, n) * c == exact_sum(b, n) * d,
    decreases n,
{
    if n > 0 {
        lemma_sums_scale(a, b, n - 1, c, d);
        assert(a[n - 1].units() * c == b[n - 1].units() * d);
        lemma_mul_is_distributive_add_other_way(c, exact_sum(a, n - 1), a[n - 1].units());
        lemma_mul_is_distributive_add_other_way(d, exact_sum(b, n - 1), b[n - 1].units());
    } else {
        assert(0 * c == 0 && 0 * d == 0);
    }
}

proof fn lemma_scaled(ra: int, rb: int, wa: int, wb: int, ta: int, tb: int, q: int, s: int)
    requires
        0 < ta,
        0 < tb,
        wa * tb == wb * ta,
        size(ra * ta - q * wa) * P46 <= size(q * wa) + 2 * (P46 * (ta + s)),
        size(rb * tb - q * wb) * P46 <= size(q * wb) + 2 * (P46 * (tb + s)),
    ensures
        size(ra - rb) * (ta * tb) * P46 <= size(q * wa) * tb + size(q * wb) * ta + 2 * (P46 * ((ta
            + s) * tb + (tb + s) * ta)),
{
    let ea = ra * ta - q * wa;
    let eb = rb * tb - q * wb;
    let t = ta * tb;
    assert(t > 0) by (nonlinear_arith)
        requires
            0 < ta,
            0 < tb,
            t == ta * tb,
    ;
    assert((ra - rb) * t == ea * tb - eb * ta) by (nonlinear_arith)
        requires
            ea == ra * ta - q * wa,
            eb == rb * tb - q * wb,
            t == ta * tb,
            wa * tb == wb * ta,
    {
        assert((q * wa) * tb == q * (wa * tb));
        assert((q * wb) * ta == q * (wb * ta));
    }
    crate::precision::lemma_size_of_product(ra - rb, t);
    crate::precision::lemma_size_of_product(ea, tb);
    crate::precision::lemma_size_of_product(eb, ta);
    let x = size(q * wa);
    let y = size(q * wb);
    assert(size(ea * tb) * P46 <= x * tb + 2 * (P46 * ((ta + s) * tb))) by (nonlinear_arith)
        requires
            size(ea * tb) == size(ea) * tb,
            size(ea) * P46 <= x + 2 * (P46 * (ta + s)),
            tb > 0,
    ;
    assert(size(eb * ta) * P46 <= y * ta + 2 * (P46 * ((tb + s) * ta))) by (nonlinear_arith)
        requires
            size(eb * ta) == size(eb) * ta,
            size(eb) * P46 <= y + 2 * (P46 * (tb + s)),
            ta > 0,
    ;
    let m = (ta + s) * tb;
    let n = (tb + s) * ta;
    assert(size((ra - rb) * t) <= size(ea * tb) + size(eb * ta));
    assert(size(ra - rb) * t == size((ra - rb) * t));
    assert((size(ra - rb) * t) * P46 <= x * tb + y * ta + 2 * (P46 * (m + n)));
}

} // verus!
