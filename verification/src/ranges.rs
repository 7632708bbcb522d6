//! Numbers of either sign within a power of two: what arithmetic makes of them is finite.
use vstd::arithmetic::power2::*;
use vstd::prelude::*;

use crate::double::Double;
use crate::double_laws::{at_least, at_most};
use crate::rounding::P52;

verus! {

/// No larger than `2^k`, whatever the sign.
pub open spec fn within(x: Double, k: int) -> bool {
    x.mag() <= (1023 + k) * P52
}

/// What is within a power of two is finite, and within a larger one.
pub proof fn within_is_finite(x: Double, k: int, j: int)
    requires
        within(x, k),
        0 <= k <= j,
        k <= 1000,
    ensures
        x.is_finite(),
        within(x, j),
        at_most(x.abs(), k),
{
    assert((1023 + k) * P52 <= (1023 + j) * P52) by (nonlinear_arith)
        requires
            k <= j,
    ;
    crate::double_laws::lemma_signed_mag(x.mag());
}

/// What is between two numbers of either sign is within the larger bound.
pub proof fn whole_is_within(n: u64)
    ensures
        within(Double::whole(n), 64),
        within(Double::zero(), 0),
        within(Double::one(), 0),
{
    crate::double_laws::whole_is_small(n);
}

/// A product is within the product of the bounds.
pub proof fn products_stay_within(x: Double, k: int, y: Double, j: int)
    requires
        within(x, k),
        within(y, j),
        0 <= k,
        0 <= j,
        k + j <= 1000,
    ensures
        within(x.times(y), k + j),
        x.times(y).is_finite(),
{
    within_is_finite(x, k, k);
    within_is_finite(y, j, j);
    crate::double_laws::times_at_most(x.abs(), k, y.abs(), j);
    reveal(Double::spec_times);
    crate::double_laws::lemma_signed_mag(x.mag());
    crate::double_laws::lemma_signed_mag(y.mag());
    let m = crate::rounding::round_mag(
        crate::rounding::mag_units(x.mag()) * crate::rounding::mag_units(y.mag()),
        pow2(1074),
    );
    crate::double_laws::lemma_signed_mag(m);
    within_is_finite(x.times(y), k + j, k + j);
}

/// A quotient is within the quotient of the bounds.
pub proof fn quotients_stay_within(x: Double, k: int, y: Double, j: int)
    requires
        within(x, k),
        at_least(y, j),
        0 <= k,
        0 <= j,
        k + j <= 1000,
    ensures
        within(x.over(y), k + j),
        x.over(y).is_finite(),
{
    within_is_finite(x, k, k);
    crate::double_laws::bounded_is_positive(y, j);
    crate::double_laws::over_at_most(x.abs(), k, y, j);
    reveal(Double::spec_over);
    crate::double_laws::lemma_signed_mag(x.mag());
    let m = crate::rounding::round_mag(
        crate::rounding::mag_units(x.mag()) * pow2(1074),
        crate::rounding::mag_units(y.mag()),
    );
    crate::double_laws::lemma_signed_mag(m);
    within_is_finite(x.over(y), k + j, k + j);
}

/// A sum is within twice the bound.
pub proof fn sums_stay_within(x: Double, y: Double, k: int)
    requires
        within(x, k),
        within(y, k),
        0 <= k < 1000,
    ensures
        within(x.plus(y), k + 1),
        x.plus(y).is_finite(),
        within(x.minus(y), k + 1),
        x.minus(y).is_finite(),
{
    lemma_sum_is_within(x, y, k);
    crate::double_laws::lemma_signed_mag(y.mag());
    lemma_sum_is_within(x, y.negate(), k);
}

proof fn lemma_sum_is_within(x: Double, y: Double, k: int)
    requires
        within(x, k),
        within(y, k),
        0 <= k < 1000,
    ensures
        within(x.plus(y), k + 1),
        x.plus(y).is_finite(),
{
    within_is_finite(x, k, k);
    within_is_finite(y, k, k);
    crate::double_laws::lemma_signed_mag(x.mag());
    crate::double_laws::lemma_signed_mag(y.mag());
    crate::double_laws::lemma_at_most_units(x.abs(), k);
    crate::double_laws::lemma_at_most_units(y.abs(), k);
    let s = x.units() + y.units();
    let size = crate::precision::size(s) as nat;
    lemma_pow2_unfold((1074 + k + 1) as nat);
    crate::double_laws::lemma_round_at_most(size, 1, k + 1);
    crate::double_laws::lemma_signed_mag(crate::rounding::round_mag(size, 1));
    crate::double_laws::lemma_signed_mag(0);
    assert(within(x.plus(y), k + 1)) by {
        reveal(Double::spec_plus);
    }
    within_is_finite(x.plus(y), k + 1, k + 1);
}

} // verus!
