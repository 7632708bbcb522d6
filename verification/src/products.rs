//! Products and quotients of exact numbers, and the numbers that stand for them.
//!
//! A number of units counts as [`Double::units`] does: one is `2^1074` of them.
use vstd::arithmetic::mul::*;
use vstd::arithmetic::power2::*;
use vstd::prelude::*;

use crate::approx::{
    near, near_grows, near_itself, near_over, near_rescaled, near_times, tame, MOST,
};
use crate::double::Double;

verus! {

/// The product of whole numbers.
pub open spec fn product(factors: Seq<int>) -> int
    decreases factors.len(),
{
    if factors.len() == 0 {
        1
    } else {
        product(factors.drop_last()) * factors.last()
    }
}

/// The units of one, `n` times as a factor.
pub open spec fn scale(n: nat) -> int {
    pow2(1074 * n) as int
}

/// `x` is the product of the values in `top` over that of the values in `bottom`, each given
/// in units, but for `e` parts in `2^50`.
pub open spec fn about(x: Double, top: Seq<int>, bottom: Seq<int>, e: int) -> bool {
    near(
        x,
        product(top) * scale(bottom.len() + 1),
        product(bottom) * scale(top.len()),
        e,
    )
}

pub proof fn lemma_scale(a: nat, b: nat)
    ensures
        scale(a + b) == scale(a) * scale(b),
        scale(a) > 0,
        scale(b) > 0,
        scale(1) == pow2(1074),
        scale(1) > 0,
        scale(0) == 1,
{
    lemma_pow2_pos(1074 * a);
    lemma_pow2_pos(1074 * b);
    lemma_pow2_pos(1074);
    lemma_pow2_adds(1074 * a, 1074 * b);
    assert(1074 * a + 1074 * b == 1074 * (a + b));
    lemma2_to64();
}

pub(crate) proof fn lemma_product_adds(a: Seq<int>, b: Seq<int>)
    ensures
        product(a + b) == product(a) * product(b),
    decreases b.len(),
{
    if b.len() == 0 {
        assert(a + b =~= a);
        assert(product(b) == 1);
        assert(product(a) * 1 == product(a));
    } else {
        lemma_product_adds(a, b.drop_last());
        assert((a + b).drop_last() =~= a + b.drop_last());
        assert((a + b).last() == b.last());
        let p = product(a);
        let q = product(b.drop_last());
        let l = b.last();
        assert((p * q) * l == p * (q * l)) by (nonlinear_arith);
    }
}

pub proof fn lemma_product_one(a: int)
    ensures
        product(seq![a]) == a,
        product(Seq::<int>::empty()) == 1,
{
    let s = seq![a];
    assert(s.drop_last() =~= Seq::<int>::empty());
    assert(product(s.drop_last()) == 1);
    assert(product(s) == product(s.drop_last()) * s.last());
    assert(1 * a == a);
}

/// An exact number of units.
pub proof fn about_one(x: Double, p: int, e: int)
    requires
        near(x, p, 1, e),
    ensures
        about(x, seq![p], seq![], e),
{
    lemma_product_one(p);
    lemma_scale(1, 0);
    let s = scale(1);
    assert(seq![p].len() == 1);
    assert(1 * s == s);
    near_rescaled(x, p, 1, e, p * s, 1 * s);
}

/// A number is what it is.
pub proof fn about_itself(x: Double)
    requires
        x.is_finite(),
    ensures
        about(x, seq![x.units()], seq![], 0),
{
    near_itself(x);
    about_one(x, x.units(), 0);
}

/// A larger error.
pub proof fn about_grows(x: Double, top: Seq<int>, bottom: Seq<int>, e: int, f: int)
    requires
        about(x, top, bottom, e),
        e <= f,
    ensures
        about(x, top, bottom, f),
{
    near_grows(
        x,
        product(top) * scale(bottom.len() + 1),
        product(bottom) * scale(top.len()),
        e,
        f,
    );
}

proof fn lemma_rearranged(p1: int, p2: int, b1: int, b2: int, c1: int, c2: int, t1: int, t2: int, h: int)
    ensures
        ((p1 * (c1 * h)) * (p2 * (c2 * h))) * ((b1 * b2) * (t1 * t2)) == ((p1 * p2) * ((c1 * c2)
            * h)) * (((b1 * t1) * (b2 * t2)) * h),
{
    let p = p1 * p2;
    let c = c1 * c2;
    let b = b1 * b2;
    let t = t1 * t2;
    assert((p1 * (c1 * h)) * (p2 * (c2 * h)) == (p * c) * (h * h)) by (nonlinear_arith)
        requires
            p == p1 * p2,
            c == c1 * c2,
    ;
    assert((b1 * t1) * (b2 * t2) == b * t) by (nonlinear_arith)
        requires
            b == b1 * b2,
            t == t1 * t2,
    ;
    assert(((p * c) * (h * h)) * (b * t) == (p * (c * h)) * ((b * t) * h)) by (nonlinear_arith);
}

/// A product of tame numbers.
pub proof fn about_times(
    x: Double,
    k: int,
    top1: Seq<int>,
    bottom1: Seq<int>,
    e1: int,
    y: Double,
    j: int,
    top2: Seq<int>,
    bottom2: Seq<int>,
    e2: int,
)
    requires
        tame(x, k),
        tame(y, j),
        0 <= k,
        0 <= j,
        k + j <= 1000,
        about(x, top1, bottom1, e1),
        about(y, top2, bottom2, e2),
        0 <= e1 <= MOST,
        0 <= e2 <= MOST,
    ensures
        tame(x.times(y), k + j),
        about(x.times(y), top1 + top2, bottom1 + bottom2, e1 + e2 + 1),
{
    let p1 = product(top1);
    let p2 = product(top2);
    let b1 = product(bottom1);
    let b2 = product(bottom2);
    let h = scale(1);
    let c1 = scale(bottom1.len());
    let c2 = scale(bottom2.len());
    let t1 = scale(top1.len());
    let t2 = scale(top2.len());
    near_times(
        x,
        k,
        p1 * scale(bottom1.len() + 1),
        b1 * t1,
        e1,
        y,
        j,
        p2 * scale(bottom2.len() + 1),
        b2 * t2,
        e2,
    );
    lemma_product_adds(top1, top2);
    lemma_product_adds(bottom1, bottom2);
    lemma_scale(bottom1.len(), 1);
    lemma_scale(bottom2.len(), 1);
    lemma_scale(bottom1.len(), bottom2.len());
    lemma_scale(bottom1.len() + bottom2.len(), 1);
    lemma_scale(top1.len(), top2.len());
    lemma_scale(top2.len(), 0);
    lemma_rearranged(p1, p2, b1, b2, c1, c2, t1, t2, h);
    lemma_positive_parts(b1, t1);
    lemma_positive_parts(b2, t2);
    assert((b1 * b2) * (t1 * t2) > 0) by (nonlinear_arith)
        requires
            b1 > 0,
            b2 > 0,
            t1 > 0,
            t2 > 0,
    ;
    near_rescaled(
        x.times(y),
        (p1 * (c1 * h)) * (p2 * (c2 * h)),
        ((b1 * t1) * (b2 * t2)) * h,
        e1 + e2 + 1,
        (p1 * p2) * ((c1 * c2) * h),
        (b1 * b2) * (t1 * t2),
    );
    assert((top1 + top2).len() == top1.len() + top2.len());
    assert((bottom1 + bottom2).len() == bottom1.len() + bottom2.len());
}

proof fn lemma_positive_parts(b: int, t: int)
    requires
        b * t > 0,
        t > 0,
    ensures
        b > 0,
{
    assert(b > 0) by (nonlinear_arith)
        requires
            b * t > 0,
            t > 0,
    ;
}

proof fn lemma_rearranged_quotient(
    p1: int,
    p2: int,
    b1: int,
    b2: int,
    c1: int,
    c2: int,
    t1: int,
    t2: int,
    h: int,
)
    ensures
        ((p1 * (c1 * h)) * (b2 * t2) * h) * ((b1 * p2) * (t1 * c2)) == ((p1 * b2) * ((c1 * t2)
            * h)) * ((b1 * t1) * (p2 * (c2 * h))),
{
    let p = p1 * b2;
    let c = c1 * t2;
    let b = b1 * p2;
    let t = t1 * c2;
    assert((p1 * (c1 * h)) * (b2 * t2) == (p * c) * h) by (nonlinear_arith)
        requires
            p == p1 * b2,
            c == c1 * t2,
    ;
    assert((p * c) * h * h == (p * c) * (h * h)) by (nonlinear_arith);
    assert((b1 * t1) * (p2 * (c2 * h)) == (b * t) * h) by (nonlinear_arith)
        requires
            b == b1 * p2,
            t == t1 * c2,
    ;
    assert(((p * c) * (h * h)) * (b * t) == (p * (c * h)) * ((b * t) * h)) by (nonlinear_arith);
}

/// A quotient of tame numbers, of which the divisor is positive.
pub proof fn about_over(
    x: Double,
    k: int,
    top1: Seq<int>,
    bottom1: Seq<int>,
    e1: int,
    y: Double,
    j: int,
    top2: Seq<int>,
    bottom2: Seq<int>,
    e2: int,
)
    requires
        tame(x, k),
        tame(y, j),
        0 <= k,
        0 <= j,
        k + j <= 1000,
        about(x, top1, bottom1, e1),
        about(y, top2, bottom2, e2),
        0 < product(top2),
        0 <= e1 <= MOST,
        0 <= e2 <= MOST,
    ensures
        tame(x.over(y), k + j),
        about(x.over(y), top1 + bottom2, bottom1 + top2, e1 + e2 + 1),
{
    let p1 = product(top1);
    let p2 = product(top2);
    let b1 = product(bottom1);
    let b2 = product(bottom2);
    let h = scale(1);
    let c1 = scale(bottom1.len());
    let c2 = scale(bottom2.len());
    let t1 = scale(top1.len());
    let t2 = scale(top2.len());
    lemma_scale(bottom1.len(), 1);
    lemma_scale(bottom2.len(), 1);
    lemma_scale(1, 0);
    assert(p2 * (c2 * h) > 0) by (nonlinear_arith)
        requires
            p2 > 0,
            c2 > 0,
            h > 0,
    ;
    near_over(
        x,
        k,
        p1 * scale(bottom1.len() + 1),
        b1 * t1,
        e1,
        y,
        j,
        p2 * scale(bottom2.len() + 1),
        b2 * t2,
        e2,
    );
    lemma_product_adds(top1, bottom2);
    lemma_product_adds(bottom1, top2);
    lemma_scale(bottom1.len(), top2.len());
    lemma_scale(bottom1.len() + top2.len(), 1);
    lemma_scale(top1.len(), bottom2.len());
    lemma_scale(top2.len(), 0);
    lemma_rearranged_quotient(p1, p2, b1, b2, c1, c2, t1, t2, h);
    lemma_positive_parts(b1, t1);
    assert((b1 * p2) * (t1 * c2) > 0) by (nonlinear_arith)
        requires
            b1 > 0,
            p2 > 0,
            t1 > 0,
            c2 > 0,
    ;
    near_rescaled(
        x.over(y),
        (p1 * (c1 * h)) * (b2 * t2) * h,
        (b1 * t1) * (p2 * (c2 * h)),
        e1 + e2 + 1,
        (p1 * b2) * ((c1 * t2) * h),
        (b1 * p2) * (t1 * c2),
    );
    assert((top1 + bottom2).len() == top1.len() + bottom2.len());
    assert((bottom1 + top2).len() == bottom1.len() + top2.len());
}

/// A factor that is also a divisor falls out.
pub proof fn about_cancels(x: Double, top: Seq<int>, bottom: Seq<int>, c: int, e: int)
    requires
        about(x, top.push(c), bottom.push(c), e),
        0 < c,
    ensures
        about(x, top, bottom, e),
{
    assert(top.push(c).drop_last() =~= top);
    assert(bottom.push(c).drop_last() =~= bottom);
    let p = product(top);
    let b = product(bottom);
    let h = scale(1);
    let t = scale(top.len());
    let s = scale(bottom.len() + 1);
    lemma_scale(top.len(), 1);
    lemma_scale(bottom.len() + 1, 1);
    assert(top.push(c).len() == top.len() + 1);
    assert(bottom.push(c).len() == bottom.len() + 1);
    assert(scale(bottom.push(c).len() + 1) == s * h);
    assert((b * c) * (t * h) > 0);
    assert(b * t > 0) by (nonlinear_arith)
        requires
            (b * c) * (t * h) > 0,
            c > 0,
            t > 0,
            h > 0,
    ;
    assert(((p * c) * (s * h)) * (b * t) == (p * s) * ((b * c) * (t * h))) by {
        let v = c * h;
        assert((p * c) * (s * h) == (p * s) * v) by (nonlinear_arith)
            requires
                v == c * h,
        ;
        assert((b * c) * (t * h) == (b * t) * v) by (nonlinear_arith)
            requires
                v == c * h,
        ;
        assert(((p * s) * v) * (b * t) == (p * s) * ((b * t) * v)) by (nonlinear_arith);
    }
    near_rescaled(x, (p * c) * (s * h), (b * c) * (t * h), e, p * s, b * t);
}

/// Factors may come in any order.
pub proof fn about_same(x: Double, top: Seq<int>, bottom: Seq<int>, top2: Seq<int>, bottom2: Seq<int>, e: int)
    requires
        about(x, top, bottom, e),
        top.len() == top2.len(),
        bottom.len() == bottom2.len(),
        product(top) == product(top2),
        product(bottom) == product(bottom2),
    ensures
        about(x, top2, bottom2, e),
{
}

} // verus!
