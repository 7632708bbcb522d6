//! Numbers that stand for exact fractions: how far rounding takes them from these.
//!
//! A fraction `p / q` counts units, as [`Double::units`] does.
use vstd::arithmetic::mul::*;
use vstd::arithmetic::power2::*;
use vstd::prelude::*;

use crate::double::Double;
use crate::precision::{size, P50};
use crate::rounding::{INF_MAG, P52, P53};

verus! {

/// `x` is `p / q` units, but for `e` parts in `2^50`.
pub open spec fn near(x: Double, p: int, q: int, e: int) -> bool {
    &&& x.is_finite()
    &&& q > 0
    &&& size(x.units() * q - p) * P50 <= e * size(p)
}

/// Zero, or of either sign and no more than `2^k` times larger or smaller than one.
pub open spec fn tame(x: Double, k: int) -> bool {
    x.mag() == 0 || (1023 - k) * P52 <= x.mag() <= (1023 + k) * P52
}

/// As many errors as the rules below bear.
pub const MOST: u64 = 64;

// ---------------------------------------------------------------------------
// Whole numbers
// ---------------------------------------------------------------------------

proof fn lemma_near_size(a: int, p: int, e: int)
    requires
        size(a - p) * P50 <= e * size(p),
        0 <= e <= MOST,
    ensures
        size(a) * P50 <= (P50 + e) * size(p),
        (P50 - e) * size(p) <= size(a) * P50,
        1024 * size(a) <= 1025 * size(p),
{
    let x = size(a);
    let y = size(p);
    assert(size(a - p) >= x - y && size(a - p) >= y - x);
    assert(e * y <= MOST * y) by (nonlinear_arith)
        requires
            e <= MOST,
            y >= 0,
    ;
    assert((P50 + e) * y == P50 * y + e * y && (P50 - e) * y == P50 * y - e * y)
        by (nonlinear_arith);
}

proof fn lemma_product(
    a: int,
    b: int,
    r: int,
    p1: int,
    q1: int,
    e1: int,
    p2: int,
    q2: int,
    e2: int,
    s: int,
)
    requires
        0 < q1,
        0 < q2,
        0 < s,
        0 <= e1 <= MOST,
        0 <= e2 <= MOST,
        size(a * q1 - p1) * P50 <= e1 * size(p1),
        size(b * q2 - p2) * P50 <= e2 * size(p2),
        size(r * s - a * b) * P52 <= size(a * b),
    ensures
        size(r * (q1 * q2 * s) - p1 * p2) * P50 <= (e1 + e2 + 1) * size(p1 * p2),
{
    let aa = a * q1;
    let bb = b * q2;
    let x = size(p1);
    let y = size(p2);
    let xy = x * y;
    let ab = size(aa) * size(bb);
    lemma_near_size(aa, p1, e1);
    lemma_near_size(bb, p2, e2);
    crate::precision::lemma_size_of_product(p1, p2);
    crate::precision::lemma_size_of_product(aa, bb);
    crate::precision::lemma_size_of_product(aa - p1, bb);
    crate::precision::lemma_size_of_product(p1, bb - p2);
    assert(aa * bb - p1 * p2 == (aa - p1) * bb + p1 * (bb - p2)) by (nonlinear_arith);
    let d1 = size(aa - p1);
    let d2 = size(bb - p2);
    assert(1024 * (d1 * size(bb)) * P50 <= 1025 * (e1 * xy)) by (nonlinear_arith)
        requires
            d1 * P50 <= e1 * x,
            1024 * size(bb) <= 1025 * y,
            0 <= d1,
            0 <= size(bb),
            0 <= e1,
            0 <= x,
            0 <= y,
            xy == x * y,
    {
        assert((d1 * P50) * (1024 * size(bb)) <= (e1 * x) * (1025 * y));
    }
    assert((x * d2) * P50 <= e2 * xy) by (nonlinear_arith)
        requires
            d2 * P50 <= e2 * y,
            0 <= x,
            xy == x * y,
    ;
    assert(1_048_576 * ab <= 1_050_625 * xy) by (nonlinear_arith)
        requires
            1024 * size(aa) <= 1025 * x,
            1024 * size(bb) <= 1025 * y,
            0 <= size(aa),
            0 <= size(bb),
            ab == size(aa) * size(bb),
            xy == x * y,
    {
        assert((1024 * size(aa)) * (1024 * size(bb)) <= (1025 * x) * (1025 * y));
    }
    let w = q1 * q2;
    assert(r * (q1 * q2 * s) - aa * bb == (r * s - a * b) * w && aa * bb == (a * b) * w && w > 0)
        by (nonlinear_arith)
        requires
            w == q1 * q2,
            aa == a * q1,
            bb == b * q2,
            q1 > 0,
            q2 > 0,
    ;
    crate::precision::lemma_size_of_product(r * s - a * b, w);
    crate::precision::lemma_size_of_product(a * b, w);
    assert(size((r * s - a * b) * w) * P52 <= size((a * b) * w)) by (nonlinear_arith)
        requires
            size((r * s - a * b) * w) == size(r * s - a * b) * size(w),
            size((a * b) * w) == size(a * b) * size(w),
            size(r * s - a * b) * P52 <= size(a * b),
            size(w) >= 0,
    ;
    let exy = e1 * xy;
    let fxy = e2 * xy;
    assert(0 <= exy <= MOST * xy && 0 <= xy && (e1 + e2 + 1) * xy == exy + fxy + xy)
        by (nonlinear_arith)
        requires
            exy == e1 * xy,
            fxy == e2 * xy,
            0 <= e1 <= MOST,
            0 <= x,
            0 <= y,
            xy == x * y,
    ;
    let off = size(r * (q1 * q2 * s) - p1 * p2);
    assert(off <= size((r * s - a * b) * w) + size((aa - p1) * bb) + size(p1 * (bb - p2)));
    let t1 = d1 * size(bb);
    let t2 = x * d2;
    lemma_product_sum(off, size((r * s - a * b) * w), t1, t2, ab, exy, fxy, xy);
}

proof fn lemma_product_sum(
    off: int,
    rounding: int,
    t1: int,
    t2: int,
    ab: int,
    exy: int,
    fxy: int,
    xy: int,
)
    requires
        off <= rounding + t1 + t2,
        rounding * P52 <= ab,
        1_048_576 * ab <= 1_050_625 * xy,
        1024 * t1 * P50 <= 1025 * exy,
        t2 * P50 <= fxy,
        0 <= exy <= MOST * xy,
        0 <= xy,
    ensures
        off * P50 <= exy + fxy + xy,
{
    let t = t1 * P50;
    let u = rounding * P50;
    assert(1024 * t <= 1025 * exy);
    assert(16 * t <= 16 * exy + xy);
    assert(4 * u <= ab);
    assert(ab <= 2 * xy);
    assert(2 * u <= xy);
}


proof fn lemma_quotient(
    a: int,
    b: int,
    r: int,
    p1: int,
    q1: int,
    e1: int,
    p2: int,
    q2: int,
    e2: int,
    s: int,
)
    requires
        0 < q1,
        0 < q2,
        0 < s,
        0 < b,
        0 < p2,
        0 <= e1 <= MOST,
        0 <= e2 <= MOST,
        size(a * q1 - p1) * P50 <= e1 * size(p1),
        size(b * q2 - p2) * P50 <= e2 * size(p2),
        size(r * b - a * s) * P52 <= size(a * s),
    ensures
        size(r * (q1 * p2) - p1 * q2 * s) * P50 <= (e1 + e2 + 1) * size(p1 * q2 * s),
{
    let aa = a * q1;
    let bb = b * q2;
    let x = size(p1);
    let off = size(r * (q1 * p2) - p1 * q2 * s);
    lemma_near_size(aa, p1, e1);
    lemma_near_size(bb, p2, e2);
    let exact = aa * p2 - p1 * bb;
    assert(exact == (aa - p1) * p2 + p1 * (p2 - bb)) by (nonlinear_arith)
        requires
            exact == aa * p2 - p1 * bb,
    ;
    crate::precision::lemma_size_of_product(aa - p1, p2);
    crate::precision::lemma_size_of_product(p1, p2 - bb);
    let xp = x * p2;
    assert(size((aa - p1) * p2) * P50 <= e1 * xp) by (nonlinear_arith)
        requires
            size((aa - p1) * p2) == size(aa - p1) * p2,
            size(aa - p1) * P50 <= e1 * x,
            p2 > 0,
            xp == x * p2,
    ;
    assert(size(p1 * (p2 - bb)) * P50 <= e2 * xp) by (nonlinear_arith)
        requires
            size(p1 * (p2 - bb)) == x * size(p2 - bb),
            size(p2 - bb) * P50 <= e2 * p2,
            x >= 0,
            xp == x * p2,
    ;
    // In `s` and `b`.
    let big = r * (q1 * p2) - p1 * q2 * s;
    assert(big * b == (r * b) * (q1 * p2) - (p1 * bb) * s) by {
        let v = q1 * p2;
        let u = p1 * q2;
        assert((r * v - u * s) * b == (r * v) * b - (u * s) * b) by {
            lemma_mul_is_distributive_sub_other_way(b, r * v, u * s);
        }
        assert((r * v) * b == (r * b) * v) by (nonlinear_arith);
        assert((u * s) * b == (u * b) * s) by (nonlinear_arith);
        assert(u * b == p1 * bb) by (nonlinear_arith)
            requires
                u == p1 * q2,
                bb == b * q2,
        ;
    }
    assert((a * s) * (q1 * p2) == (aa * p2) * s) by (nonlinear_arith)
        requires
            aa == a * q1,
    ;
    lemma_mul_is_distributive_sub_other_way(q1 * p2, r * b, a * s);
    lemma_mul_is_distributive_sub_other_way(s, aa * p2, p1 * bb);
    crate::precision::lemma_size_of_product(big, b);
    crate::precision::lemma_size_of_product(exact, s);
    let w = q1 * p2;
    assert(w > 0) by (nonlinear_arith)
        requires
            w == q1 * p2,
            q1 > 0,
            p2 > 0,
    ;
    crate::precision::lemma_size_of_product(r * b - a * s, w);
    crate::precision::lemma_size_of_product(a * s, w);
    assert((a * s) * w == (aa * p2) * s) by (nonlinear_arith)
        requires
            w == q1 * p2,
            aa == a * q1,
    ;
    crate::precision::lemma_size_of_product(aa * p2, s);
    crate::precision::lemma_size_of_product(aa, p2);
    let rounding = size((r * b - a * s) * w);
    assert(rounding * P52 <= (size(aa) * p2) * s) by (nonlinear_arith)
        requires
            rounding == size(r * b - a * s) * w,
            size(r * b - a * s) * P52 <= size(a * s),
            size(a * s) * w == (size(aa) * p2) * s,
            w > 0,
    ;
    let xps = xp * s;
    assert(1024 * ((size(aa) * p2) * s) <= 1025 * xps) by (nonlinear_arith)
        requires
            1024 * size(aa) <= 1025 * x,
            p2 > 0,
            s > 0,
            xp == x * p2,
            xps == xp * s,
    {
        assert(1024 * (size(aa) * p2) <= 1025 * xp);
    }
    let e = e1 + e2;
    assert((size(exact) * s) * P50 <= e * xps) by (nonlinear_arith)
        requires
            size(exact) * P50 <= e1 * xp + e2 * xp,
            e == e1 + e2,
            s > 0,
            xps == xp * s,
    ;
    let exps = e * xps;
    assert((off * b) * P50 * 2 <= 2 * exps + xps) by {
        assert(off * b <= rounding + size(exact) * s);
        assert(4 * (rounding * P50) <= (size(aa) * p2) * s);
        assert((size(aa) * p2) * s <= 2 * xps);
    }
    // `b * q2` is close to `p2`.
    let target = size(p1 * q2 * s);
    crate::precision::lemma_size_of_product(p1 * q2, s);
    crate::precision::lemma_size_of_product(p1, q2);
    assert(target == x * q2 * s);
    let tb = target * b;
    assert(tb == (x * s) * bb && xps == (x * s) * p2) by (nonlinear_arith)
        requires
            tb == target * b,
            target == x * q2 * s,
            bb == b * q2,
            xps == xp * s,
            xp == x * p2,
    ;
    assert(x * s >= 0) by (nonlinear_arith)
        requires
            x >= 0,
            s > 0,
    ;
    assert(bb > 0) by (nonlinear_arith)
        requires
            bb == b * q2,
            b > 0,
            q2 > 0,
    ;
    assert(tb * P50 >= P50 * xps - MOST * xps) by (nonlinear_arith)
        requires
            tb == (x * s) * bb,
            xps == (x * s) * p2,
            (P50 - e2) * p2 <= bb * P50,
            e2 <= MOST,
            x * s >= 0,
            p2 > 0,
    {
        assert(P50 * p2 - MOST * p2 <= (P50 - e2) * p2);
        assert((x * s) * (P50 * p2 - MOST * p2) <= (x * s) * (bb * P50));
    }
    let etb = e * tb;
    assert(etb * P50 >= P50 * exps - MOST * exps) by (nonlinear_arith)
        requires
            etb == e * tb,
            exps == e * xps,
            tb * P50 >= P50 * xps - MOST * xps,
            e >= 0,
    ;
    assert(exps <= 128 * xps && xps >= 0) by (nonlinear_arith)
        requires
            exps == e * xps,
            e <= 128,
            xps == (x * s) * p2,
            x * s >= 0,
            p2 > 0,
    ;
    lemma_quotient_sum(off * b, exps, xps, etb, tb);
    assert(off * P50 <= (e + 1) * target) by (nonlinear_arith)
        requires
            (off * b) * P50 <= etb + tb,
            etb == e * tb,
            tb == target * b,
            b > 0,
    {
        assert((off * P50) * b <= ((e + 1) * target) * b);
    }
}

proof fn lemma_quotient_sum(offb: int, exps: int, xps: int, etb: int, tb: int)
    requires
        offb * P50 * 2 <= 2 * exps + xps,
        0 <= exps <= 128 * xps,
        0 <= xps,
        etb * P50 >= P50 * exps - MOST * exps,
        tb * P50 >= P50 * xps - MOST * xps,
    ensures
        offb * P50 <= etb + tb,
{
    assert(etb * P50 >= P50 * exps - 64 * exps);
    assert(64 * exps <= 8192 * xps);
    assert(16 * (etb * P50) >= 16 * (P50 * exps) - P50 * xps);
    assert(16 * etb >= 16 * exps - xps);
    assert(16 * (tb * P50) >= 15 * (P50 * xps));
    assert(16 * tb >= 15 * xps);
}

proof fn lemma_sum(
    a: int,
    b: int,
    r: int,
    p1: int,
    q1: int,
    p2: int,
    q2: int,
    e: int,
)
    requires
        0 < q1,
        0 < q2,
        0 <= p1,
        0 <= p2,
        0 <= e <= MOST,
        size(a * q1 - p1) * P50 <= e * size(p1),
        size(b * q2 - p2) * P50 <= e * size(p2),
        size(r - (a + b)) * P53 <= size(a + b),
    ensures
        size(r * (q1 * q2) - (p1 * q2 + p2 * q1)) * P50 <= (e + 1) * size(p1 * q2 + p2 * q1),
{
    let w = q1 * q2;
    let x = p1 * q2;
    let y = p2 * q1;
    let sum = (a + b) * w;
    assert(sum - (x + y) == (a * q1 - p1) * q2 + (b * q2 - p2) * q1) by (nonlinear_arith)
        requires
            sum == (a + b) * w,
            w == q1 * q2,
            x == p1 * q2,
            y == p2 * q1,
    ;
    crate::precision::lemma_size_of_product(a * q1 - p1, q2);
    crate::precision::lemma_size_of_product(b * q2 - p2, q1);
    assert(size((a * q1 - p1) * q2) * P50 <= e * x && x >= 0) by (nonlinear_arith)
        requires
            size((a * q1 - p1) * q2) == size(a * q1 - p1) * q2,
            size(a * q1 - p1) * P50 <= e * p1,
            q2 > 0,
            p1 >= 0,
            x == p1 * q2,
    ;
    assert(size((b * q2 - p2) * q1) * P50 <= e * y && y >= 0) by (nonlinear_arith)
        requires
            size((b * q2 - p2) * q1) == size(b * q2 - p2) * q1,
            size(b * q2 - p2) * P50 <= e * p2,
            q1 > 0,
            p2 >= 0,
            y == p2 * q1,
    ;
    let exy = e * (x + y);
    assert(exy == e * x + e * y && (e + 1) * (x + y) == exy + (x + y)) by (nonlinear_arith)
        requires
            exy == e * (x + y),
    ;
    assert(size(sum - (x + y)) * P50 <= exy);
    lemma_near_size(sum, x + y, e);
    assert(w > 0) by (nonlinear_arith)
        requires
            w == q1 * q2,
            q1 > 0,
            q2 > 0,
    ;
    crate::precision::lemma_size_of_product(r - (a + b), w);
    crate::precision::lemma_size_of_product(a + b, w);
    assert((r - (a + b)) * w == r * w - sum) by (nonlinear_arith)
        requires
            sum == (a + b) * w,
    ;
    assert(size(r * w - sum) * P53 <= size(sum)) by (nonlinear_arith)
        requires
            size(r * w - sum) == size(r - (a + b)) * w,
            size(sum) == size(a + b) * w,
            size(r - (a + b)) * P53 <= size(a + b),
            w > 0,
    ;
    let u = size(r * w - sum) * P50;
    assert(8 * u <= size(sum));
    assert(size(r * w - (x + y)) <= size(r * w - sum) + size(sum - (x + y)));
}

proof fn lemma_rescale(a: int, p: int, q: int, e: int, p2: int, q2: int)
    requires
        0 < q,
        0 < q2,
        p * q2 == p2 * q,
        size(a * q - p) * P50 <= e * size(p),
    ensures
        size(a * q2 - p2) * P50 <= e * size(p2),
{
    crate::precision::lemma_size_of_product(a * q - p, q2);
    crate::precision::lemma_size_of_product(a * q2 - p2, q);
    crate::precision::lemma_size_of_product(p, q2);
    crate::precision::lemma_size_of_product(p2, q);
    assert((a * q - p) * q2 == (a * q2 - p2) * q) by (nonlinear_arith)
        requires
            p * q2 == p2 * q,
    ;
    let d = size(a * q - p);
    let d2 = size(a * q2 - p2);
    assert(d2 * P50 <= e * size(p2)) by (nonlinear_arith)
        requires
            d * q2 == d2 * q,
            d * P50 <= e * size(p),
            size(p) * q2 == size(p2) * q,
            q > 0,
            q2 > 0,
    {
        assert((d * P50) * q2 <= (e * size(p)) * q2);
        assert((d2 * P50) * q <= (e * size(p2)) * q);
    }
}


// ---------------------------------------------------------------------------
// Ranges
// ---------------------------------------------------------------------------

/// What a range says of the units.
pub proof fn tame_units(x: Double, k: int)
    requires
        tame(x, k),
        0 <= k <= 1000,
    ensures
        x.is_finite(),
        x.mag() == 0 <==> x.units() == 0,
        x.units() != 0 ==> pow2((1074 - k) as nat) <= size(x.units()),
        size(x.units()) <= pow2((1074 + k) as nat),
        crate::ranges::within(x, k),
        x.units() != 0 ==> crate::double_laws::at_least(x.abs(), k),
{
    crate::double_laws::lemma_units_zero();
    crate::double_laws::lemma_signed_mag(0);
    assert((1023 + k) * P52 < INF_MAG) by (nonlinear_arith)
        requires
            k <= 1000,
            INF_MAG == 2047 * P52,
            P52 > 0,
    ;
    assert((1023 - k) * P52 > 0) by (nonlinear_arith)
        requires
            k <= 1000,
            P52 > 0,
    ;
    assert((1023 + k) * P52 >= 0) by (nonlinear_arith)
        requires
            k >= 0,
    ;
    crate::double_laws::lemma_signed_mag(x.mag());
    crate::ranges::within_is_finite(x, k, k);
    crate::double_laws::lemma_at_most_units(x.abs(), k);
    if x.mag() > 0 {
        crate::magnitude::lemma_mag_units_increase(0, x.mag());
        crate::double_laws::lemma_at_least_units(x.abs(), k);
    }
}

/// A larger range holds what a smaller one does.
pub proof fn tame_grows(x: Double, k: int, j: int)
    requires
        tame(x, k),
        k <= j,
    ensures
        tame(x, j),
{
    assert((1023 + k) * P52 <= (1023 + j) * P52 && (1023 - j) * P52 <= (1023 - k) * P52)
        by (nonlinear_arith)
        requires
            k <= j,
    ;
}

proof fn lemma_powers(k: int, j: int)
    requires
        0 <= k,
        0 <= j,
        k + j <= 1000,
    ensures
        pow2((1074 - k) as nat) * pow2((1074 - j) as nat) >= pow2(1074) * P52,
        pow2((1074 - k) as nat) * pow2(1074) >= pow2((1074 + j) as nat) * P52,
        pow2(1074) > 0,
{
    lemma_pow2_pos(1074);
    lemma_pow2_adds((1074 - k) as nat, (1074 - j) as nat);
    lemma_pow2_adds(1074, (1074 - k - j) as nat);
    lemma_pow2_adds((1074 - k) as nat, 1074);
    lemma_pow2_adds((1074 + j) as nat, (1074 - k - j) as nat);
    lemma2_to64_rest();
    if 52 < 1074 - k - j {
        lemma_pow2_strictly_increases(52, (1074 - k - j) as nat);
    }
    let m = pow2((1074 - k - j) as nat);
    assert(m >= P52);
    assert(pow2(1074) * m >= pow2(1074) * P52) by (nonlinear_arith)
        requires
            m >= P52,
    ;
    assert(pow2((1074 + j) as nat) * m >= pow2((1074 + j) as nat) * P52) by (nonlinear_arith)
        requires
            m >= P52,
    ;
}

/// A product of tame numbers is tame, and off by one part in `2^52` at most.
pub proof fn tame_times(x: Double, k: int, y: Double, j: int)
    requires
        tame(x, k),
        tame(y, j),
        0 <= k,
        0 <= j,
        k + j <= 1000,
    ensures
        tame(x.times(y), k + j),
        x.times(y).is_finite(),
        size(x.times(y).units() * pow2(1074) - x.units() * y.units()) * P52 <= size(
            x.units() * y.units(),
        ),
{
    let r = x.times(y);
    let s = pow2(1074) as int;
    tame_units(x, k);
    tame_units(y, j);
    lemma_powers(k, j);
    if x.mag() == 0 || y.mag() == 0 {
        if x.mag() == 0 {
            crate::double_laws::zero_times(x, y);
        } else {
            crate::double_laws::times_zero(x, y);
        }
        crate::double_laws::lemma_units_zero();
        assert(0 * s == 0 && x.units() * 0 == 0 && 0 * y.units() == 0);
    } else {
        crate::ranges::products_stay_within(x, k, y, j);
        reveal(Double::spec_times);
        crate::double_laws::lemma_signed_mag(x.mag());
        crate::double_laws::lemma_signed_mag(y.mag());
        let m = crate::rounding::round_mag(
            crate::rounding::mag_units(x.mag()) * crate::rounding::mag_units(y.mag()),
            pow2(1074),
        );
        crate::double_laws::lemma_signed_mag(m);
        crate::double_laws::times_at_least(x.abs(), k, y.abs(), j);
        crate::precision::products_are_close(x, y);
        crate::precision::lemma_size_of_product(x.units(), y.units());
        let a = pow2((1074 - k) as nat) as int;
        let b = pow2((1074 - j) as nat) as int;
        let xy = size(x.units() * y.units());
        assert(xy >= a * b) by (nonlinear_arith)
            requires
                xy == size(x.units()) * size(y.units()),
                size(x.units()) >= a,
                size(y.units()) >= b,
                a >= 0,
                b >= 0,
        ;
        let d = size(r.units() * s - x.units() * y.units());
        assert(d * P53 == 2 * (d * P52));
    }
}

/// A quotient of tame numbers, of which the divisor is positive, is tame, and off by one part
/// in `2^52` at most.
pub proof fn tame_over(x: Double, k: int, y: Double, j: int)
    requires
        tame(x, k),
        tame(y, j),
        y.units() > 0,
        0 <= k,
        0 <= j,
        k + j <= 1000,
    ensures
        tame(x.over(y), k + j),
        x.over(y).is_finite(),
        size(x.over(y).units() * y.units() - x.units() * pow2(1074)) * P52 <= size(
            x.units() * pow2(1074),
        ),
{
    let r = x.over(y);
    let s = pow2(1074) as int;
    tame_units(x, k);
    tame_units(y, j);
    lemma_powers(k, j);
    crate::double_laws::lemma_units_zero();
    crate::double_laws::order_agrees_with_value(Double::zero(), y);
    crate::precision::lemma_size_of_product(x.units(), s);
    assert(y.abs() == y);
    if x.mag() == 0 {
        reveal(Double::spec_over);
        crate::double_laws::lemma_signed_mag(0);
        crate::magnitude::lemma_round_mag_zero(crate::rounding::mag_units(y.mag()));
        assert(0 * s == 0 && 0 * y.units() == 0);
    } else {
        crate::ranges::quotients_stay_within(x, k, y, j);
        reveal(Double::spec_over);
        crate::double_laws::lemma_signed_mag(x.mag());
        let m = crate::rounding::round_mag(
            crate::rounding::mag_units(x.mag()) * pow2(1074),
            crate::rounding::mag_units(y.mag()),
        );
        crate::double_laws::lemma_signed_mag(m);
        crate::double_laws::over_at_least(x.abs(), k, y, j);
        crate::precision::quotients_are_close(x, y);
        let a = pow2((1074 - k) as nat) as int;
        assert(size(x.units()) * s >= a * s) by (nonlinear_arith)
            requires
                size(x.units()) >= a,
                s > 0,
        ;
        assert(y.units() * P52 <= pow2((1074 + j) as nat) * P52) by (nonlinear_arith)
            requires
                y.units() <= pow2((1074 + j) as nat),
        ;
        let d = size(r.units() * y.units() - x.units() * s);
        assert(d * P53 == 2 * (d * P52));
    }
}

// ---------------------------------------------------------------------------
// Rules
// ---------------------------------------------------------------------------

/// A number is what it is.
pub proof fn near_itself(x: Double)
    requires
        x.is_finite(),
    ensures
        near(x, x.units(), 1, 0),
{
    assert(x.units() * 1 == x.units());
    assert(0 * size(x.units()) == 0);
}

/// The same fraction in other terms.
pub proof fn near_rescaled(x: Double, p: int, q: int, e: int, p2: int, q2: int)
    requires
        near(x, p, q, e),
        0 < q2,
        p * q2 == p2 * q,
    ensures
        near(x, p2, q2, e),
{
    lemma_rescale(x.units(), p, q, e, p2, q2);
}

/// A larger error.
pub proof fn near_grows(x: Double, p: int, q: int, e: int, f: int)
    requires
        near(x, p, q, e),
        e <= f,
    ensures
        near(x, p, q, f),
{
    assert(e * size(p) <= f * size(p)) by (nonlinear_arith)
        requires
            e <= f,
            size(p) >= 0,
    ;
}

/// A product of tame numbers.
pub proof fn near_times(
    x: Double,
    k: int,
    p1: int,
    q1: int,
    e1: int,
    y: Double,
    j: int,
    p2: int,
    q2: int,
    e2: int,
)
    requires
        tame(x, k),
        tame(y, j),
        0 <= k,
        0 <= j,
        k + j <= 1000,
        near(x, p1, q1, e1),
        near(y, p2, q2, e2),
        0 <= e1 <= MOST,
        0 <= e2 <= MOST,
    ensures
        tame(x.times(y), k + j),
        near(x.times(y), p1 * p2, q1 * q2 * pow2(1074), e1 + e2 + 1),
{
    tame_times(x, k, y, j);
    lemma_pow2_pos(1074);
    lemma_product(
        x.units(),
        y.units(),
        x.times(y).units(),
        p1,
        q1,
        e1,
        p2,
        q2,
        e2,
        pow2(1074) as int,
    );
    assert(q1 * q2 * pow2(1074) > 0) by (nonlinear_arith)
        requires
            q1 > 0,
            q2 > 0,
            pow2(1074) > 0,
    ;
}

/// A quotient of tame numbers, of which the divisor is positive.
pub proof fn near_over(
    x: Double,
    k: int,
    p1: int,
    q1: int,
    e1: int,
    y: Double,
    j: int,
    p2: int,
    q2: int,
    e2: int,
)
    requires
        tame(x, k),
        tame(y, j),
        0 <= k,
        0 <= j,
        k + j <= 1000,
        near(x, p1, q1, e1),
        near(y, p2, q2, e2),
        0 < p2,
        0 <= e1 <= MOST,
        0 <= e2 <= MOST,
    ensures
        tame(x.over(y), k + j),
        near(x.over(y), p1 * q2 * pow2(1074), q1 * p2, e1 + e2 + 1),
        y.units() > 0,
{
    lemma_near_size(y.units() * q2, p2, e2);
    assert(y.units() > 0) by {
        let u = y.units();
        assert(size(u * q2 - p2) < p2) by {
            assert(e2 * p2 <= MOST * p2) by (nonlinear_arith)
                requires
                    e2 <= MOST,
                    p2 > 0,
            ;
        }
        assert(u * q2 > 0);
        assert(u > 0) by (nonlinear_arith)
            requires
                u * q2 > 0,
                q2 > 0,
        ;
    }
    tame_over(x, k, y, j);
    lemma_pow2_pos(1074);
    lemma_quotient(
        x.units(),
        y.units(),
        x.over(y).units(),
        p1,
        q1,
        e1,
        p2,
        q2,
        e2,
        pow2(1074) as int,
    );
    assert(q1 * p2 > 0) by (nonlinear_arith)
        requires
            q1 > 0,
            p2 > 0,
    ;
}

/// A sum of numbers that are not negative.
pub proof fn near_plus(
    x: Double,
    p1: int,
    q1: int,
    y: Double,
    p2: int,
    q2: int,
    e: int,
)
    requires
        near(x, p1, q1, e),
        near(y, p2, q2, e),
        0 <= p1,
        0 <= p2,
        0 <= e <= MOST,
        x.plus(y).is_finite(),
    ensures
        near(x.plus(y), p1 * q2 + p2 * q1, q1 * q2, e + 1),
{
    crate::precision::sums_are_close(x, y);
    lemma_sum(x.units(), y.units(), x.plus(y).units(), p1, q1, p2, q2, e);
    assert(q1 * q2 > 0) by (nonlinear_arith)
        requires
            q1 > 0,
            q2 > 0,
    ;
}

/// A difference of numbers as they are.
pub proof fn near_minus(x: Double, y: Double)
    requires
        x.minus(y).is_finite(),
    ensures
        near(x.minus(y), x.units() - y.units(), 1, 1),
{
    crate::precision::differences_are_close(x, y);
    let d = size(x.minus(y).units() - (x.units() - y.units()));
    assert(d * P53 == 8 * (d * P50));
    assert(x.minus(y).units() * 1 == x.minus(y).units());
}

/// A sum of numbers as they are.
pub proof fn near_sum(x: Double, y: Double)
    requires
        x.is_finite(),
        y.is_finite(),
        x.plus(y).is_finite(),
    ensures
        near(x.plus(y), x.units() + y.units(), 1, 1),
{
    crate::precision::sums_are_close(x, y);
    let d = size(x.plus(y).units() - (x.units() + y.units()));
    assert(d * P53 == 8 * (d * P50));
    assert(x.plus(y).units() * 1 == x.plus(y).units());
}

/// Whole numbers are tame and exact.
pub proof fn whole_is_tame(n: u64)
    requires
        n < P53,
    ensures
        tame(Double::whole(n), 53),
        Double::whole(n).units() == n * pow2(1074),
        near(Double::whole(n), n * pow2(1074), 1, 0),
{
    crate::double_laws::whole_is_small(n);
    crate::precision::whole_numbers_are_exact(n);
    crate::double_laws::lemma_signed_mag(0);
    if n > 0 {
        let x = Double::whole(n);
        lemma_pow2_pos(1074);
        lemma_pow2_adds(53, 1074);
        lemma2_to64_rest();
        let h = pow2(1074);
        reveal(Double::spec_whole);
        assert(n as nat * h <= pow2(1127) * 1) by (nonlinear_arith)
            requires
                n <= P53,
                pow2(1127) == P53 * h,
        ;
        crate::double_laws::lemma_round_at_most(n as nat * h, 1, 53);
        crate::double_laws::lemma_signed_mag(
            crate::rounding::round_mag(n as nat * h, 1),
        );
        assert((1023 - 53) * P52 <= (1023 - 0) * P52);
    }
    near_itself(Double::whole(n));
}

/// One is tame.
pub proof fn one_is_tame()
    ensures
        tame(Double::one(), 0),
        Double::one().units() == pow2(1074),
        Double::one().is_finite(),
        near(Double::one(), pow2(1074) as int, 1, 0),
        Double::zero().units() == 0,
        Double::zero().is_finite(),
        tame(Double::zero(), 0),
{
    crate::double_laws::lemma_units_zero();
    crate::precision::lemma_one_units();
    near_itself(Double::one());
}

/// Fractions of small whole numbers are tame, and nearly exact.
pub proof fn ratio_is_tame(n: u64, d: u64)
    requires
        0 < n < P53,
        0 < d < P53,
    ensures
        tame(Double::ratio(n, d), 53),
        near(Double::ratio(n, d), n * pow2(1074), d as int, 1),
{
    reveal(Double::spec_ratio);
    crate::double_laws::ratio_is_moderate(n, d);
    let h = pow2(1074);
    lemma_pow2_pos(1074);
    let num = n as nat * h;
    let x = Double::ratio(n, d);
    crate::precision::rounding_is_close(num, d as nat);
    crate::double_laws::lemma_signed_mag(crate::rounding::round_mag(num, d as nat));
    tame_units(x, 53);
    let u = x.units();
    lemma_pow2_adds(105, 969);
    lemma_pow2_adds(52, 53);
    lemma2_to64_rest();
    lemma_pow2_pos(969);
    assert(num >= d * P52) by (nonlinear_arith)
        requires
            num == n as nat * h,
            n >= 1,
            h == pow2(105) * pow2(969),
            pow2(969) >= 1,
            pow2(105) == P52 * P53,
            d <= P53,
    ;
    let off = size(u * d - num);
    assert(off * P53 == 8 * (off * P50));
}

/// A sum of tame numbers is tame, if less so.
pub proof fn tame_plus(x: Double, y: Double, k: int)
    requires
        tame(x, k),
        tame(y, k),
        0 <= k <= 900,
    ensures
        tame(x.plus(y), k + 52),
        x.plus(y).is_finite(),
{
    tame_units(x, k);
    tame_units(y, k);
    lemma_granules(x, k);
    lemma_granules(y, k);
    reveal(Double::spec_plus);
    let g = pow2((1022 - k) as nat) as int;
    let a = x.units() / g;
    let b = y.units() / g;
    lemma_pow2_pos((1022 - k) as nat);
    let sum = x.units() + y.units();
    assert(sum == (a + b) * g) by (nonlinear_arith)
        requires
            x.units() == a * g,
            y.units() == b * g,
            sum == x.units() + y.units(),
    ;
    crate::double_laws::lemma_signed_mag(0);
    if sum == 0 {
        crate::magnitude::lemma_round_mag_zero(1);
    } else {
        assert(size(sum) >= g) by (nonlinear_arith)
            requires
                sum == (a + b) * g,
                sum != 0,
                g > 0,
        ;
        let m = size(sum) as nat;
        crate::double_laws::lemma_round_at_least(m, 1, k + 52);
        lemma_pow2_unfold((1074 + k + 1) as nat);
        if k + 1 < k + 52 {
            lemma_pow2_strictly_increases((1074 + k + 1) as nat, (1074 + k + 52) as nat);
        }
        crate::double_laws::lemma_round_at_most(m, 1, k + 52);
        let r = crate::rounding::round_mag(m, 1);
        assert((1023 + (k + 52)) * P52 < INF_MAG) by (nonlinear_arith)
            requires
                k <= 900,
                INF_MAG == 2047 * P52,
        ;
        crate::double_laws::lemma_signed_mag(r);
    }
}

/// A tame number is a whole multiple of its least step.
proof fn lemma_granules(x: Double, k: int)
    requires
        tame(x, k),
        0 <= k <= 1000,
    ensures
        x.units() == (x.units() / (pow2((1022 - k) as nat) as int)) * pow2((1022 - k) as nat),
{
    let g = pow2((1022 - k) as nat) as int;
    lemma_pow2_pos((1022 - k) as nat);
    crate::double_laws::lemma_units_zero();
    if x.mag() == 0 {
        assert(x.units() == 0);
        assert(0int / g == 0) by (nonlinear_arith)
            requires
                g > 0,
        ;
        assert(0 * g == 0);
    } else {
        let m = x.mag();
        let e = crate::rounding::mag_exp(m);
        assert(e >= 1022 - k) by {
            assert(m >= P52) by (nonlinear_arith)
                requires
                    m >= (1023 - k) * P52,
                    k <= 1000,
            ;
            assert(m as int / P52 as int >= 1023 - k) by (nonlinear_arith)
                requires
                    m >= (1023 - k) * P52,
                    P52 > 0,
            ;
        }
        lemma_pow2_adds((1022 - k) as nat, (e - (1022 - k)) as nat);
        let t = pow2((e - (1022 - k)) as nat) as int;
        let s = crate::rounding::mag_sig(m) as int;
        let u = s * (g * t);
        assert(crate::rounding::mag_units(m) == u);
        let w = if x.units() < 0 {
            -(s * t)
        } else {
            s * t
        };
        assert(x.units() == u || x.units() == -u);
        assert(u == (s * t) * g) by (nonlinear_arith)
            requires
                u == s * (g * t),
        ;
        assert(u >= 0) by (nonlinear_arith)
            requires
                u == s * (g * t),
                s >= 0,
                g > 0,
                t >= 0,
        ;
        assert((-(s * t)) * g == -((s * t) * g)) by (nonlinear_arith);
        assert(x.units() == w * g);
        assert((w * g) / g == w) by (nonlinear_arith)
            requires
                g > 0,
        ;
    }
}

/// A difference of tame numbers is tame, if less so.
pub proof fn tame_minus(x: Double, y: Double, k: int)
    requires
        tame(x, k),
        tame(y, k),
        0 <= k <= 900,
    ensures
        tame(x.minus(y), k + 52),
        x.minus(y).is_finite(),
        near(x.minus(y), x.units() - y.units(), 1, 1),
{
    tame_units(y, k);
    crate::double_laws::lemma_signed_mag(y.mag());
    assert(y.negate().mag() == y.mag());
    tame_plus(x, y.negate(), k);
    near_minus(x, y);
}

/// A sum of tame numbers that are not negative.
pub proof fn tame_sum(x: Double, y: Double, k: int)
    requires
        tame(x, k),
        tame(y, k),
        0 <= x.units(),
        0 <= y.units(),
        0 <= k <= 900,
    ensures
        tame(x.plus(y), k + 1),
        x.plus(y).is_finite(),
        near(x.plus(y), x.units() + y.units(), 1, 1),
{
    tame_units(x, k);
    tame_units(y, k);
    tame_plus(x, y, k);
    near_sum(x, y);
    reveal(Double::spec_plus);
    let sum = x.units() + y.units();
    crate::double_laws::lemma_signed_mag(0);
    if sum == 0 {
        crate::magnitude::lemma_round_mag_zero(1);
    } else {
        lemma_pow2_unfold((1074 + k + 1) as nat);
        lemma_pow2_unfold((1074 - k) as nat);
        crate::double_laws::lemma_round_at_most(sum as nat, 1, k + 1);
        crate::double_laws::lemma_round_at_least(sum as nat, 1, k + 1);
        assert((1023 + (k + 1)) * P52 < INF_MAG) by (nonlinear_arith)
            requires
                k <= 900,
                INF_MAG == 2047 * P52,
        ;
        crate::double_laws::lemma_signed_mag(crate::rounding::round_mag(sum as nat, 1));
    }
}

/// A number close to one that is not negative is not negative, and one close to a positive
/// one is positive.
pub proof fn near_sign(x: Double, p: int, q: int, e: int)
    requires
        near(x, p, q, e),
        0 <= p,
        0 <= e <= MOST,
    ensures
        0 <= x.units(),
        p == 0 <==> x.units() == 0,
{
    let u = x.units();
    assert(e * p <= MOST * p) by (nonlinear_arith)
        requires
            e <= MOST,
            p >= 0,
    ;
    assert(p == 0 ==> u * q == 0);
    assert(p > 0 ==> u * q > 0);
    assert(u * q == 0 ==> u == 0) by (nonlinear_arith)
        requires
            q > 0,
    ;
    assert(u * q > 0 ==> u > 0) by (nonlinear_arith)
        requires
            q > 0,
    ;
}

/// The smaller of two numbers that are not negative.
pub proof fn near_min(x: Double, p1: int, q1: int, y: Double, p2: int, q2: int, e: int)
    requires
        near(x, p1, q1, e),
        near(y, p2, q2, e),
        0 <= p1,
        0 <= p2,
        0 <= e <= MOST,
    ensures
        p1 * q2 <= p2 * q1 ==> near(x.min(y), p1, q1, e),
        p1 * q2 >= p2 * q1 ==> near(x.min(y), p2, q2, e),
        x.min(y) == x || x.min(y) == y,
{
    crate::double_laws::order_agrees_with_value(y, x);
    near_sign(x, p1, q1, e);
    near_sign(y, p2, q2, e);
    if y.units() < x.units() {
        if p1 * q2 <= p2 * q1 {
            lemma_smaller(x.units(), p1, q1, y.units(), p2, q2, e);
        }
    } else {
        if p1 * q2 >= p2 * q1 {
            lemma_smaller(y.units(), p2, q2, x.units(), p1, q1, e);
        }
    }
}

proof fn lemma_smaller(a: int, p1: int, q1: int, b: int, p2: int, q2: int, e: int)
    requires
        0 <= b <= a,
        0 <= p1,
        0 <= p2,
        0 < q1,
        0 < q2,
        0 <= e <= MOST,
        p1 * q2 <= p2 * q1,
        size(a * q1 - p1) * P50 <= e * p1,
        size(b * q2 - p2) * P50 <= e * p2,
    ensures
        size(b * q1 - p1) * P50 <= e * p1,
{
    assert(b * q1 <= a * q1) by (nonlinear_arith)
        requires
            b <= a,
            q1 > 0,
    ;
    if b * q1 < p1 {
        // b q2 >= p2 (1 - e), times q1; and p2 q1 >= p1 q2.
        let low = p1 - b * q1;
        let gap = p2 - b * q2;
        assert(low * q2 <= gap * q1) by (nonlinear_arith)
            requires
                low == p1 - b * q1,
                gap == p2 - b * q2,
                p1 * q2 <= p2 * q1,
        ;
        assert((b * q2) * q1 == (b * q1) * q2) by (nonlinear_arith);
        assert(P50 * (b * q2) >= P50 * p2 - e * p2);
        let bq = (b * q1) * q2;
        assert(P50 * bq >= (P50 - e) * (p2 * q1)) by (nonlinear_arith)
            requires
                bq == (b * q2) * q1,
                P50 * (b * q2) >= P50 * p2 - e * p2,
                q1 > 0,
        ;
        assert((P50 - e) * (p2 * q1) >= (P50 - e) * (p1 * q2)) by (nonlinear_arith)
            requires
                p2 * q1 >= p1 * q2,
                e <= P50,
        ;
        let v = P50 * (b * q1) - (P50 - e) * p1;
        assert(v * q2 >= 0) by (nonlinear_arith)
            requires
                v == P50 * (b * q1) - (P50 - e) * p1,
                P50 * bq >= (P50 - e) * (p1 * q2),
                bq == (b * q1) * q2,
        ;
        assert(v >= 0) by (nonlinear_arith)
            requires
                v * q2 >= 0,
                q2 > 0,
        ;
        assert((P50 - e) * p1 == P50 * p1 - e * p1) by (nonlinear_arith);
    }
}

/// A number that is not negative, cut off at one.
pub proof fn near_clamped(x: Double, p: int, q: int, e: int)
    requires
        near(x, p, q, e),
        0 <= p,
        0 <= e <= MOST,
    ensures
        p <= q * pow2(1074) ==> near(x.clamp(Double::zero(), Double::one()), p, q, e),
        p >= q * pow2(1074) ==> near(
            x.clamp(Double::zero(), Double::one()),
            pow2(1074) as int,
            1,
            e,
        ),
        x.clamp(Double::zero(), Double::one()) == x || x.clamp(Double::zero(), Double::one())
            == Double::one(),
{
    near_sign(x, p, q, e);
    one_is_tame();
    lemma_pow2_pos(1074);
    near_grows(Double::one(), pow2(1074) as int, 1, 0, e);
    crate::double_laws::order_agrees_with_value(x, Double::zero());
    crate::double_laws::order_agrees_with_value(Double::one(), x);
    near_min(x, p, q, Double::one(), pow2(1074) as int, 1, e);
    assert(p * 1 == p);
    assert(pow2(1074) as int * q == q * pow2(1074)) by (nonlinear_arith);
}

// ---------------------------------------------------------------------------
// Sums with terms of either sign
// ---------------------------------------------------------------------------

/// `x` is `p / q` units, but for `e` parts in `2^50` of `m / q`, where `m` is no less than `p`:
/// the terms of which `p` is the sum may be larger than `p`.
pub open spec fn within_parts(x: Double, p: int, q: int, m: int, e: int) -> bool {
    &&& x.is_finite()
    &&& q > 0
    &&& size(p) <= m
    &&& size(x.units() * q - p) * P50 <= e * m
}

/// What is near is within parts of itself.
pub proof fn parts_of_near(x: Double, p: int, q: int, e: int)
    requires
        near(x, p, q, e),
    ensures
        within_parts(x, p, q, size(p), e),
{
}

/// More parts, or parts of more.
pub proof fn parts_grow(x: Double, p: int, q: int, m: int, e: int, n: int, f: int)
    requires
        within_parts(x, p, q, m, e),
        m <= n,
        0 <= e <= f,
    ensures
        within_parts(x, p, q, n, f),
{
    assert(e * m <= f * n) by (nonlinear_arith)
        requires
            0 <= m <= n,
            0 <= e <= f,
    ;
}

/// The same fraction in other terms.
pub proof fn parts_rescaled(x: Double, p: int, q: int, m: int, e: int, c: int)
    requires
        within_parts(x, p, q, m, e),
        0 < c,
    ensures
        within_parts(x, p * c, q * c, m * c, e),
{
    let d = x.units() * q - p;
    assert(x.units() * (q * c) - p * c == d * c) by (nonlinear_arith)
        requires
            d == x.units() * q - p,
    ;
    crate::precision::lemma_size_of_product(d, c);
    crate::precision::lemma_size_of_product(p, c);
    assert((size(d) * c) * P50 <= e * (m * c)) by (nonlinear_arith)
        requires
            size(d) * P50 <= e * m,
            c > 0,
    ;
    assert(size(p) * c <= m * c && q * c > 0) by (nonlinear_arith)
        requires
            size(p) <= m,
            c > 0,
            q > 0,
    ;
}

/// A sum.
pub proof fn parts_plus(x: Double, p1: int, m1: int, y: Double, p2: int, m2: int, q: int, e: int)
    requires
        within_parts(x, p1, q, m1, e),
        within_parts(y, p2, q, m2, e),
        0 <= e <= MOST,
        x.plus(y).is_finite(),
    ensures
        within_parts(x.plus(y), p1 + p2, q, m1 + m2, e + 1),
{
    crate::precision::sums_are_close(x, y);
    let a = x.units();
    let b = y.units();
    let r = x.plus(y).units();
    let off = r - (a + b);
    assert(r * q - (p1 + p2) == off * q + (a * q - p1) + (b * q - p2)) by (nonlinear_arith)
        requires
            off == r - (a + b),
    ;
    crate::precision::lemma_size_of_product(off, q);
    crate::precision::lemma_size_of_product(a + b, q);
    assert(size(off * q) * P53 <= size((a + b) * q)) by (nonlinear_arith)
        requires
            size(off * q) == size(off) * q,
            size((a + b) * q) == size(a + b) * q,
            size(off) * P53 <= size(a + b),
            q > 0,
    ;
    assert((a + b) * q == a * q + b * q) by (nonlinear_arith);
    assert(e * m1 <= MOST * m1 && e * m2 <= MOST * m2) by (nonlinear_arith)
        requires
            e <= MOST,
            m1 >= 0,
            m2 >= 0,
    ;
    let m = m1 + m2;
    assert(size((a + b) * q) <= 2 * m);
    assert((e + 1) * m == e * m1 + e * m2 + m) by (nonlinear_arith)
        requires
            m == m1 + m2,
    ;
    let t = size(off * q);
    assert(t * P53 == 8 * (t * P50));
}

/// A product with a number that is near.
pub proof fn parts_times(
    x: Double,
    k: int,
    p1: int,
    q1: int,
    m: int,
    e1: int,
    y: Double,
    j: int,
    p2: int,
    q2: int,
    e2: int,
)
    requires
        tame(x, k),
        tame(y, j),
        0 <= k,
        0 <= j,
        k + j <= 1000,
        within_parts(x, p1, q1, m, e1),
        near(y, p2, q2, e2),
        0 <= e1 <= MOST,
        0 <= e2 <= MOST,
    ensures
        tame(x.times(y), k + j),
        within_parts(x.times(y), p1 * p2, q1 * q2 * pow2(1074), m * size(p2), e1 + e2 + 1),
{
    tame_times(x, k, y, j);
    lemma_pow2_pos(1074);
    let s = pow2(1074) as int;
    let a = x.units();
    let b = y.units();
    let r = x.times(y).units();
    let w = q1 * q2;
    assert(w > 0) by (nonlinear_arith)
        requires
            q1 > 0,
            q2 > 0,
            w == q1 * q2,
    ;
    let big = m * size(p2);
    let xx = a * q1;
    let yy = b * q2;
    let alpha = xx - p1;
    let beta = yy - p2;
    assert((a * b) * w == xx * yy) by (nonlinear_arith)
        requires
            w == q1 * q2,
            xx == a * q1,
            yy == b * q2,
    ;
    let u = r * s - a * b;
    assert(r * (w * s) - p1 * p2 == u * w + p1 * beta + alpha * p2 + alpha * beta) by {
        assert(r * (w * s) == u * w + (a * b) * w) by (nonlinear_arith)
            requires
                u == r * s - a * b,
        ;
        assert(xx * yy - p1 * p2 == p1 * beta + alpha * p2 + alpha * beta) by (nonlinear_arith)
            requires
                alpha == xx - p1,
                beta == yy - p2,
        ;
    }
    crate::precision::lemma_size_of_product(p1, beta);
    crate::precision::lemma_size_of_product(alpha, p2);
    crate::precision::lemma_size_of_product(alpha, beta);
    crate::precision::lemma_size_of_product(xx, yy);
    crate::precision::lemma_size_of_product(u, w);
    crate::precision::lemma_size_of_product(a * b, w);
    let sp2 = size(p2);
    lemma_parts_product(size(alpha), size(beta), size(p1), sp2, m, e1, e2);
    assert(size(u * w) * P52 <= size(xx * yy)) by (nonlinear_arith)
        requires
            size(u * w) == size(u) * w,
            size((a * b) * w) == size(a * b) * w,
            (a * b) * w == xx * yy,
            size(u) * P52 <= size(a * b),
            w > 0,
    ;
    assert(size(xx) <= 2 * m) by {
        assert(e1 * m <= MOST * m) by (nonlinear_arith)
            requires
                e1 <= MOST,
                m >= 0,
        ;
    }
    assert(2 * size(yy) <= 3 * sp2) by {
        assert(e2 * sp2 <= MOST * sp2) by (nonlinear_arith)
            requires
                e2 <= MOST,
                sp2 >= 0,
        ;
    }
    assert(2 * (size(xx) * size(yy)) <= 6 * big) by (nonlinear_arith)
        requires
            size(xx) <= 2 * m,
            2 * size(yy) <= 3 * sp2,
            big == m * sp2,
            size(xx) >= 0,
            size(yy) >= 0,
            m >= 0,
            sp2 >= 0,
    ;
    let t = size(u * w);
    assert(t * P52 == 4 * (t * P50));
    let e1b = e1 * big;
    let e2b = e2 * big;
    assert((e1 + e2 + 1) * big == e1b + e2b + big) by (nonlinear_arith)
        requires
            e1b == e1 * big,
            e2b == e2 * big,
    ;
    assert(q1 * q2 * s == w * s);
    assert(w * s > 0) by (nonlinear_arith)
        requires
            w > 0,
            s > 0,
    ;
    crate::precision::lemma_size_of_product(p1, p2);
    assert(size(p1) * sp2 <= big) by (nonlinear_arith)
        requires
            size(p1) <= m,
            big == m * sp2,
            sp2 >= 0,
    ;
}

proof fn lemma_parts_product(alpha: int, beta: int, p1: int, p2: int, m: int, e1: int, e2: int)
    requires
        0 <= alpha,
        0 <= beta,
        0 <= p1 <= m,
        0 <= p2,
        0 <= e1 <= MOST,
        0 <= e2 <= MOST,
        alpha * P50 <= e1 * m,
        beta * P50 <= e2 * p2,
    ensures
        (p1 * beta) * P50 <= e2 * (m * p2),
        (alpha * p2) * P50 <= e1 * (m * p2),
        16 * ((alpha * beta) * P50) <= m * p2,
{
    let big = m * p2;
    assert((p1 * beta) * P50 <= e2 * big) by (nonlinear_arith)
        requires
            beta * P50 <= e2 * p2,
            0 <= p1 <= m,
            beta >= 0,
            big == m * p2,
            p2 >= 0,
            e2 >= 0,
    ;
    assert((alpha * p2) * P50 <= e1 * big) by (nonlinear_arith)
        requires
            alpha * P50 <= e1 * m,
            p2 >= 0,
            big == m * p2,
    ;
    assert(4096 * beta <= p2) by {
        assert(e2 * p2 <= MOST * p2) by (nonlinear_arith)
            requires
                e2 <= MOST,
                p2 >= 0,
        ;
    }
    let ab = alpha * beta;
    assert(4096 * (ab * P50) <= MOST * big) by {
        assert(e1 * m <= MOST * m) by (nonlinear_arith)
            requires
                e1 <= MOST,
                m >= 0,
        ;
        let am = alpha * P50;
        assert((4096 * beta) * am <= p2 * (MOST * m)) by (nonlinear_arith)
            requires
                0 <= 4096 * beta <= p2,
                0 <= am <= MOST * m,
        ;
        assert((4096 * beta) * am == 4096 * (ab * P50)) by (nonlinear_arith)
            requires
                am == alpha * P50,
                ab == alpha * beta,
        ;
        assert(p2 * (MOST * m) == MOST * big) by (nonlinear_arith)
            requires
                big == m * p2,
        ;
    }
}

/// A quotient by a positive number that is near.
pub proof fn parts_over(
    x: Double,
    k: int,
    p1: int,
    q1: int,
    m: int,
    e1: int,
    y: Double,
    j: int,
    p2: int,
    q2: int,
    e2: int,
)
    requires
        tame(x, k),
        tame(y, j),
        0 <= k,
        0 <= j,
        k + j <= 1000,
        within_parts(x, p1, q1, m, e1),
        near(y, p2, q2, e2),
        0 < p2,
        0 <= e1 <= MOST,
        0 <= e2 <= MOST,
    ensures
        tame(x.over(y), k + j),
        within_parts(
            x.over(y),
            p1 * q2 * pow2(1074),
            q1 * p2,
            m * q2 * pow2(1074),
            e1 + e2 + 1,
        ),
{
    near_sign(y, p2, q2, e2);
    tame_over(x, k, y, j);
    lemma_pow2_pos(1074);
    let s = pow2(1074) as int;
    let a = x.units();
    let b = y.units();
    let r = x.over(y).units();
    let xx = a * q1;
    let yy = b * q2;
    let alpha = xx - p1;
    let beta = yy - p2;
    let rho = r * b - a * s;
    let w = q1 * p2;
    assert(w > 0) by (nonlinear_arith)
        requires
            w == q1 * p2,
            q1 > 0,
            p2 > 0,
    ;
    let gap = r * w - p1 * q2 * s;
    let inner = s * (alpha * p2 - p1 * beta) + rho * w;
    assert(gap * b == inner) by {
        assert((r * w) * b == (r * b) * w) by (nonlinear_arith);
        assert((r * b) * w == (a * s) * w + rho * w) by (nonlinear_arith)
            requires
                rho == r * b - a * s,
        ;
        assert((a * s) * w == s * (xx * p2)) by (nonlinear_arith)
            requires
                w == q1 * p2,
                xx == a * q1,
        ;
        assert((p1 * q2 * s) * b == s * (p1 * yy)) by (nonlinear_arith)
            requires
                yy == b * q2,
        ;
        lemma_mul_is_distributive_sub_other_way(b, r * w, p1 * q2 * s);
        assert(xx * p2 - p1 * yy == alpha * p2 - p1 * beta) by (nonlinear_arith)
            requires
                alpha == xx - p1,
                beta == yy - p2,
        ;
        assert(s * (xx * p2) - s * (p1 * yy) == s * (xx * p2 - p1 * yy)) by (nonlinear_arith);
    }
    crate::precision::lemma_size_of_product(gap, b);
    crate::precision::lemma_size_of_product(alpha, p2);
    crate::precision::lemma_size_of_product(p1, beta);
    crate::precision::lemma_size_of_product(s, alpha * p2 - p1 * beta);
    crate::precision::lemma_size_of_product(rho, w);
    crate::precision::lemma_size_of_product(a, s);
    crate::precision::lemma_size_of_product(a, q1);
    let mp = m * p2;
    // The sizes of the parts.
    assert(size(alpha * p2) * P50 <= e1 * mp) by (nonlinear_arith)
        requires
            size(alpha * p2) == size(alpha) * p2,
            size(alpha) * P50 <= e1 * m,
            p2 > 0,
            mp == m * p2,
    ;
    assert(size(p1 * beta) * P50 <= e2 * mp) by (nonlinear_arith)
        requires
            size(p1 * beta) == size(p1) * size(beta),
            size(beta) * P50 <= e2 * p2,
            size(p1) <= m,
            size(p1) >= 0,
            size(beta) >= 0,
            mp == m * p2,
            e2 >= 0,
            p2 > 0,
    ;
    assert(size(xx) <= 2 * m) by {
        assert(e1 * m <= MOST * m) by (nonlinear_arith)
            requires
                e1 <= MOST,
                m >= 0,
        ;
    }
    let ms = mp * s;
    assert(size(rho * w) * P52 <= 2 * ms) by {
        let u = size(rho);
        assert((u * P52) * w <= (size(a) * s) * w) by (nonlinear_arith)
            requires
                u * P52 <= size(a) * s,
                w > 0,
        ;
        assert((size(a) * s) * w == (size(a) * q1) * (p2 * s)) by (nonlinear_arith)
            requires
                w == q1 * p2,
        ;
        let ps = p2 * s;
        assert((size(a) * q1) * ps <= (2 * m) * ps) by (nonlinear_arith)
            requires
                size(a) * q1 <= 2 * m,
                ps == p2 * s,
                p2 > 0,
                s > 0,
        ;
        assert((2 * m) * ps == 2 * ms) by (nonlinear_arith)
            requires
                ms == (m * p2) * s,
                ps == p2 * s,
        ;
        assert((u * w) * P52 == (u * P52) * w) by (nonlinear_arith);
    }
    let first = size(alpha * p2 - p1 * beta);
    let e = e1 + e2;
    assert((s * first) * P50 <= e * ms) by (nonlinear_arith)
        requires
            first * P50 <= e1 * mp + e2 * mp,
            e == e1 + e2,
            ms == mp * s,
            s > 0,
    ;
    let t = size(rho * w);
    assert(t * P52 == 4 * (t * P50));
    let g = size(gap) * P50;
    assert(2 * (size(gap * b) * P50) <= 2 * (e * ms) + ms);
    // Over `b`: `n` is what the bound is a multiple of.
    let n = m * q2 * s;
    assert(ms * q2 == n * p2) by (nonlinear_arith)
        requires
            ms == (m * p2) * s,
            n == m * q2 * s,
    ;
    assert(2 * (g * yy) <= (2 * e + 1) * (n * p2)) by (nonlinear_arith)
        requires
            2 * ((size(gap) * b) * P50) <= 2 * (e * ms) + ms,
            g == size(gap) * P50,
            yy == b * q2,
            ms * q2 == n * p2,
            q2 > 0,
    ;
    assert(n >= 0) by (nonlinear_arith)
        requires
            n == m * q2 * s,
            m >= 0,
            q2 > 0,
            s > 0,
    ;
    assert(yy > 0) by (nonlinear_arith)
        requires
            yy == b * q2,
            b > 0,
            q2 > 0,
    ;
    assert(1024 * yy >= 1023 * p2) by {
        assert(e2 * p2 <= MOST * p2) by (nonlinear_arith)
            requires
                e2 <= MOST,
                p2 > 0,
        ;
    }
    let np = n * p2;
    assert((2 * e + 1) * np <= 2 * ((e + 1) * (n * yy))) by {
        let ny = n * yy;
        assert(1024 * ny >= 1023 * np) by (nonlinear_arith)
            requires
                ny == n * yy,
                np == n * p2,
                1024 * yy >= 1023 * p2,
                n >= 0,
        ;
        assert(np >= 0) by (nonlinear_arith)
            requires
                np == n * p2,
                n >= 0,
                p2 > 0,
        ;
        lemma_last_step(e, np, ny);
    }
    assert(g * yy <= ((e + 1) * n) * yy) by (nonlinear_arith)
        requires
            2 * (g * yy) <= 2 * ((e + 1) * (n * yy)),
    ;
    assert(g <= (e + 1) * n) by (nonlinear_arith)
        requires
            g * yy <= ((e + 1) * n) * yy,
            yy > 0,
    ;
    crate::precision::lemma_size_of_product(p1, q2 * s);
    assert(p1 * q2 * s == p1 * (q2 * s)) by (nonlinear_arith);
    let qs = q2 * s;
    assert(size(p1) * size(qs) <= n) by (nonlinear_arith)
        requires
            size(p1) <= m,
            size(qs) == qs,
            qs == q2 * s,
            n == m * q2 * s,
            q2 > 0,
            s > 0,
    {
        assert(qs > 0);
        assert(size(p1) * qs <= m * qs);
        assert(m * qs == m * q2 * s);
    }
}

proof fn lemma_last_step(e: int, np: int, ny: int)
    requires
        0 <= e <= 2 * MOST,
        0 <= np,
        1024 * ny >= 1023 * np,
    ensures
        (2 * e + 1) * np <= 2 * ((e + 1) * ny),
{
    // 1024 (2 e + 1) is at most 1023 (2 e + 2) where e is at most 511.
    assert(1024 * ((2 * e + 1) * np) <= (2 * (e + 1)) * (1023 * np)) by (nonlinear_arith)
        requires
            0 <= e <= 128,
            0 <= np,
    ;
    assert((2 * (e + 1)) * (1023 * np) <= (2 * (e + 1)) * (1024 * ny)) by (nonlinear_arith)
        requires
            1023 * np <= 1024 * ny,
            e >= 0,
    ;
    assert((2 * (e + 1)) * (1024 * ny) == 1024 * (2 * ((e + 1) * ny))) by (nonlinear_arith);
}

} // verus!
