//! IEEE 754 binary64 numbers in integer arithmetic.
//!
//! A [`Double`] holds the 64 bits of a binary64 number. Every operation gives the
//! correctly rounded result, ties going to even, so a computation gives the same bits
//! on every machine. There is one NaN result; its sign and payload carry nothing.
use vstd::arithmetic::div_mod::*;
use vstd::arithmetic::mul::*;
use vstd::arithmetic::power2::*;
use vstd::prelude::*;

use crate::magnitude::{combine, decode, divide, fraction, integer, multiply, square_root};
use crate::rounding::{pow2_u128, INF_MAG, P53, SIGN_BIT};

verus! {

/// The bits of the quiet NaN that every operation gives.
pub const NAN_BITS: u64 = 0x7FF8_0000_0000_0000;

/// A binary64 number, by its bits. `==` compares the bits; [`Double::same`] compares
/// the numbers.
#[derive(Clone, Copy, Debug, PartialEq, Eq, Structural)]
pub struct Double {
    pub bits: u64,
}

// ---------------------------------------------------------------------------
// What the bits mean
// ---------------------------------------------------------------------------
impl Double {
    /// The magnitude bits: all but the sign.
    pub open spec fn mag(self) -> nat {
        (self.bits % SIGN_BIT) as nat
    }

    /// Whether the sign bit is set.
    pub open spec fn negative(self) -> bool {
        self.bits >= SIGN_BIT
    }

    pub open spec fn spec_is_nan(self) -> bool {
        self.mag() > INF_MAG
    }

    pub open spec fn spec_is_infinite(self) -> bool {
        self.mag() == INF_MAG
    }

    pub open spec fn spec_is_finite(self) -> bool {
        self.mag() < INF_MAG
    }

    /// The exact value of a finite number, in units of the smallest positive number:
    /// one is `2^1074` units.
    pub open spec fn units(self) -> int {
        if self.negative() {
            -(crate::rounding::mag_units(self.mag()) as int)
        } else {
            crate::rounding::mag_units(self.mag()) as int
        }
    }

    /// The position of a number that is not NaN among all others: the two zeros
    /// coincide, and the infinities stand at the ends.
    pub open spec fn rank(self) -> int {
        if self.negative() {
            -(self.mag() as int)
        } else {
            self.mag() as int
        }
    }

    /// The number with the given sign and magnitude bits.
    pub open spec fn signed(negative: bool, mag: nat) -> Double {
        Double {
            bits: if negative {
                (mag + SIGN_BIT) as u64
            } else {
                mag as u64
            },
        }
    }

    /// The number nearest to `num / den` units; a zero has the sign `zero_negative`.
    pub open spec fn rounded(num: int, den: nat, zero_negative: bool) -> Double {
        if num == 0 {
            Double::signed(zero_negative, 0)
        } else if num < 0 {
            Double::signed(true, crate::rounding::round_mag((-num) as nat, den))
        } else {
            Double::signed(false, crate::rounding::round_mag(num as nat, den))
        }
    }

    pub open spec fn spec_nan() -> Double {
        Double { bits: NAN_BITS }
    }

    pub open spec fn spec_zero() -> Double {
        Double { bits: 0 }
    }

    pub open spec fn spec_one() -> Double {
        Double { bits: 0x3FF0_0000_0000_0000 }
    }

    pub open spec fn spec_neg_infinity() -> Double {
        Double { bits: 0xFFF0_0000_0000_0000 }
    }

    pub open spec fn spec_negate(self) -> Double {
        Double::signed(!self.negative(), self.mag())
    }

    pub open spec fn spec_abs(self) -> Double {
        Double::signed(false, self.mag())
    }

    /// The sum: exact, then rounded. Opposite infinities have none.
    #[verifier::opaque]
    pub open spec fn spec_plus(self, other: Double) -> Double {
        if self.spec_is_nan() || other.spec_is_nan() {
            Double::spec_nan()
        } else if self.spec_is_infinite() {
            if other.spec_is_infinite() && self.negative() != other.negative() {
                Double::spec_nan()
            } else {
                self
            }
        } else if other.spec_is_infinite() {
            other
        } else {
            Double::rounded(
                self.units() + other.units(),
                1,
                self.negative() && other.negative(),
            )
        }
    }

    pub open spec fn spec_minus(self, other: Double) -> Double {
        self.spec_plus(other.spec_negate())
    }

    /// The product: exact, then rounded. Zero times infinity has none.
    #[verifier::opaque]
    pub open spec fn spec_times(self, other: Double) -> Double {
        let negative = self.negative() != other.negative();
        if self.spec_is_nan() || other.spec_is_nan() {
            Double::spec_nan()
        } else if self.spec_is_infinite() || other.spec_is_infinite() {
            if self.mag() == 0 || other.mag() == 0 {
                Double::spec_nan()
            } else {
                Double::signed(negative, INF_MAG as nat)
            }
        } else {
            Double::signed(
                negative,
                crate::rounding::round_mag(
                    crate::rounding::mag_units(self.mag()) * crate::rounding::mag_units(
                        other.mag(),
                    ),
                    pow2(1074),
                ),
            )
        }
    }

    /// The quotient: exact, then rounded. Anything else over zero is infinite; zero over
    /// zero, and infinity over infinity, have none.
    #[verifier::opaque]
    pub open spec fn spec_over(self, other: Double) -> Double {
        let negative = self.negative() != other.negative();
        if self.spec_is_nan() || other.spec_is_nan() {
            Double::spec_nan()
        } else if self.spec_is_infinite() {
            if other.spec_is_infinite() {
                Double::spec_nan()
            } else {
                Double::signed(negative, INF_MAG as nat)
            }
        } else if other.spec_is_infinite() {
            Double::signed(negative, 0)
        } else if other.mag() == 0 {
            if self.mag() == 0 {
                Double::spec_nan()
            } else {
                Double::signed(negative, INF_MAG as nat)
            }
        } else {
            Double::signed(
                negative,
                crate::rounding::round_mag(
                    crate::rounding::mag_units(self.mag()) * pow2(1074),
                    crate::rounding::mag_units(other.mag()),
                ),
            )
        }
    }

    pub open spec fn spec_lt(self, other: Double) -> bool {
        !self.spec_is_nan() && !other.spec_is_nan() && self.rank() < other.rank()
    }

    pub open spec fn spec_le(self, other: Double) -> bool {
        !self.spec_is_nan() && !other.spec_is_nan() && self.rank() <= other.rank()
    }

    pub open spec fn spec_gt(self, other: Double) -> bool {
        other.spec_lt(self)
    }

    pub open spec fn spec_ge(self, other: Double) -> bool {
        other.spec_le(self)
    }

    /// Numeric equality: the zeros are equal, and NaN equals nothing.
    pub open spec fn spec_same(self, other: Double) -> bool {
        !self.spec_is_nan() && !other.spec_is_nan() && self.rank() == other.rank()
    }

    /// The larger number; a NaN gives way to the other operand.
    pub open spec fn spec_max(self, other: Double) -> Double {
        if self.spec_is_nan() || self.spec_lt(other) {
            other
        } else {
            self
        }
    }

    /// The smaller number; a NaN gives way to the other operand.
    pub open spec fn spec_min(self, other: Double) -> Double {
        if self.spec_is_nan() || other.spec_lt(self) {
            other
        } else {
            self
        }
    }

    /// The number nearest to this one between `low` and `high`; NaN stays NaN.
    pub open spec fn spec_clamp(self, low: Double, high: Double) -> Double {
        let raised = if self.spec_lt(low) {
            low
        } else {
            self
        };
        if high.spec_lt(raised) {
            high
        } else {
            raised
        }
    }

    /// The number nearest to the whole number `n`.
    #[verifier::opaque]
    pub open spec fn spec_whole(n: u64) -> Double {
        Double::signed(false, crate::rounding::round_mag(n as nat * pow2(1074), 1))
    }

    /// The number nearest to the fraction `n / d`.
    #[verifier::opaque]
    pub open spec fn spec_ratio(n: u64, d: u64) -> Double {
        Double::signed(false, crate::rounding::round_mag(n as nat * pow2(1074), d as nat))
    }

    /// The square root: exact, then rounded. Negative numbers have none.
    #[verifier::opaque]
    pub open spec fn spec_sqrt(self) -> Double {
        if self.spec_is_nan() {
            Double::spec_nan()
        } else if self.mag() == 0 {
            self
        } else if self.negative() {
            Double::spec_nan()
        } else if self.spec_is_infinite() {
            self
        } else {
            Double::signed(
                false,
                crate::magnitude::round_root(
                    crate::rounding::mag_units(self.mag()) * pow2(1074),
                ),
            )
        }
    }

    /// Whether a number is finite and has no fractional part.
    #[verifier::opaque]
    pub open spec fn spec_is_whole(self) -> bool {
        self.spec_is_finite() && crate::rounding::mag_units(self.mag()) % pow2(1074) == 0
    }

    /// The whole part of a number, as far as it fits: zero for NaN and for what is
    /// negative, the largest `usize` for what is larger.
    #[verifier::opaque]
    pub open spec fn spec_to_usize(self) -> usize {
        let whole = crate::rounding::mag_units(self.mag()) / pow2(1074);
        if self.spec_is_nan() || self.negative() {
            0
        } else if self.spec_is_infinite() || whole > usize::MAX {
            usize::MAX
        } else {
            whole as usize
        }
    }

    // -----------------------------------------------------------------------
    // The operations
    // -----------------------------------------------------------------------
    fn magnitude(self) -> (m: u64)
        ensures
            m == self.mag(),
            m < SIGN_BIT,
    {
        self.bits % SIGN_BIT
    }

    fn sign(self) -> (negative: bool)
        ensures
            negative == self.negative(),
    {
        self.bits >= SIGN_BIT
    }

    fn with_sign(negative: bool, m: u64) -> (r: Double)
        requires
            m < SIGN_BIT,
        ensures
            r == Double::signed(negative, m as nat),
    {
        if negative {
            Double { bits: m + SIGN_BIT }
        } else {
            Double { bits: m }
        }
    }

    /// Zero.
    #[verifier::when_used_as_spec(spec_zero)]
    pub fn zero() -> (r: Double)
        ensures
            r == Double::zero(),
    {
        Double { bits: 0 }
    }

    /// One.
    #[verifier::when_used_as_spec(spec_one)]
    pub fn one() -> (r: Double)
        ensures
            r == Double::one(),
    {
        Double { bits: 0x3FF0_0000_0000_0000 }
    }

    /// Negative infinity.
    #[verifier::when_used_as_spec(spec_neg_infinity)]
    pub fn neg_infinity() -> (r: Double)
        ensures
            r == Double::neg_infinity(),
    {
        Double { bits: 0xFFF0_0000_0000_0000 }
    }

    /// NaN.
    #[verifier::when_used_as_spec(spec_nan)]
    pub fn nan() -> (r: Double)
        ensures
            r == Double::nan(),
    {
        Double { bits: NAN_BITS }
    }

    #[verifier::when_used_as_spec(spec_is_nan)]
    pub fn is_nan(self) -> (r: bool)
        ensures
            r == self.is_nan(),
    {
        self.magnitude() > INF_MAG
    }

    #[verifier::when_used_as_spec(spec_is_finite)]
    pub fn is_finite(self) -> (r: bool)
        ensures
            r == self.is_finite(),
    {
        self.magnitude() < INF_MAG
    }

    /// The number with the opposite sign.
    #[verifier::when_used_as_spec(spec_negate)]
    pub fn negate(self) -> (r: Double)
        ensures
            r == self.negate(),
    {
        Double::with_sign(!self.sign(), self.magnitude())
    }

    /// The number without its sign.
    #[verifier::when_used_as_spec(spec_abs)]
    pub fn abs(self) -> (r: Double)
        ensures
            r == self.abs(),
    {
        Double::with_sign(false, self.magnitude())
    }

    /// The sum of two numbers.
    #[verifier::when_used_as_spec(spec_plus)]
    pub fn plus(self, other: Double) -> (r: Double)
        ensures
            r == self.plus(other),
    {
        reveal(Double::spec_plus);
        let a: u64 = self.magnitude();
        let b: u64 = other.magnitude();
        let na: bool = self.sign();
        let nb: bool = other.sign();
        if a > INF_MAG || b > INF_MAG {
            return Double { bits: NAN_BITS };
        }
        if a == INF_MAG {
            if b == INF_MAG && na != nb {
                return Double { bits: NAN_BITS };
            }
            return self;
        }
        if b == INF_MAG {
            return other;
        }
        proof {
            lemma_pow2_pos(0);
            assert(crate::rounding::mag_units(0) == 0) by (nonlinear_arith)
                requires
                    crate::rounding::mag_units(0) == 0 * pow2(0),
            ;
            if a < b {
                crate::magnitude::lemma_mag_units_increase(a as nat, b as nat);
            }
            if b < a {
                crate::magnitude::lemma_mag_units_increase(b as nat, a as nat);
            }
            if a > 0 {
                crate::magnitude::lemma_mag_units_increase(0, a as nat);
            }
            if b > 0 {
                crate::magnitude::lemma_mag_units_increase(0, b as nat);
            }
        }
        if na == nb {
            if a == 0 && b == 0 {
                return Double::with_sign(na, 0);
            }
            if a >= b {
                Double::with_sign(na, combine(a, b, false))
            } else {
                Double::with_sign(na, combine(b, a, false))
            }
        } else if a == b {
            Double { bits: 0 }
        } else if a > b {
            Double::with_sign(na, combine(a, b, true))
        } else {
            Double::with_sign(nb, combine(b, a, true))
        }
    }

    /// The difference of two numbers.
    #[verifier::when_used_as_spec(spec_minus)]
    pub fn minus(self, other: Double) -> (r: Double)
        ensures
            r == self.minus(other),
    {
        self.plus(other.negate())
    }

    /// The product of two numbers.
    #[verifier::when_used_as_spec(spec_times)]
    pub fn times(self, other: Double) -> (r: Double)
        ensures
            r == self.times(other),
    {
        reveal(Double::spec_times);
        let a: u64 = self.magnitude();
        let b: u64 = other.magnitude();
        let negative: bool = self.sign() != other.sign();
        if a > INF_MAG || b > INF_MAG {
            Double { bits: NAN_BITS }
        } else if a == INF_MAG || b == INF_MAG {
            if a == 0 || b == 0 {
                Double { bits: NAN_BITS }
            } else {
                Double::with_sign(negative, INF_MAG)
            }
        } else {
            Double::with_sign(negative, multiply(a, b))
        }
    }

    /// The quotient of two numbers.
    #[verifier::when_used_as_spec(spec_over)]
    pub fn over(self, other: Double) -> (r: Double)
        ensures
            r == self.over(other),
    {
        reveal(Double::spec_over);
        let a: u64 = self.magnitude();
        let b: u64 = other.magnitude();
        let negative: bool = self.sign() != other.sign();
        if a > INF_MAG || b > INF_MAG {
            Double { bits: NAN_BITS }
        } else if a == INF_MAG {
            if b == INF_MAG {
                Double { bits: NAN_BITS }
            } else {
                Double::with_sign(negative, INF_MAG)
            }
        } else if b == INF_MAG {
            Double::with_sign(negative, 0)
        } else if b == 0 {
            if a == 0 {
                Double { bits: NAN_BITS }
            } else {
                Double::with_sign(negative, INF_MAG)
            }
        } else {
            Double::with_sign(negative, divide(a, b))
        }
    }

    /// The square root.
    #[verifier::when_used_as_spec(spec_sqrt)]
    pub fn sqrt(self) -> (r: Double)
        ensures
            r == self.sqrt(),
    {
        reveal(Double::spec_sqrt);
        let a: u64 = self.magnitude();
        if a > INF_MAG {
            Double { bits: NAN_BITS }
        } else if a == 0 {
            self
        } else if self.sign() {
            Double { bits: NAN_BITS }
        } else if a == INF_MAG {
            self
        } else {
            Double::with_sign(false, square_root(a))
        }
    }

    #[verifier::when_used_as_spec(spec_lt)]
    pub fn lt(self, other: Double) -> (r: bool)
        ensures
            r == self.lt(other),
    {
        let a: u64 = self.magnitude();
        let b: u64 = other.magnitude();
        if a > INF_MAG || b > INF_MAG {
            false
        } else if self.sign() {
            if other.sign() {
                b < a
            } else {
                a > 0 || b > 0
            }
        } else {
            !other.sign() && a < b
        }
    }

    #[verifier::when_used_as_spec(spec_le)]
    pub fn le(self, other: Double) -> (r: bool)
        ensures
            r == self.le(other),
    {
        !self.is_nan() && !other.is_nan() && !other.lt(self)
    }

    #[verifier::when_used_as_spec(spec_gt)]
    pub fn gt(self, other: Double) -> (r: bool)
        ensures
            r == self.gt(other),
    {
        other.lt(self)
    }

    #[verifier::when_used_as_spec(spec_ge)]
    pub fn ge(self, other: Double) -> (r: bool)
        ensures
            r == self.ge(other),
    {
        other.le(self)
    }

    /// Numeric equality.
    #[verifier::when_used_as_spec(spec_same)]
    pub fn same(self, other: Double) -> (r: bool)
        ensures
            r == self.same(other),
    {
        self.le(other) && other.le(self)
    }

    /// The larger of two numbers.
    #[verifier::when_used_as_spec(spec_max)]
    pub fn max(self, other: Double) -> (r: Double)
        ensures
            r == self.max(other),
    {
        if self.is_nan() || self.lt(other) {
            other
        } else {
            self
        }
    }

    /// The smaller of two numbers.
    #[verifier::when_used_as_spec(spec_min)]
    pub fn min(self, other: Double) -> (r: Double)
        ensures
            r == self.min(other),
    {
        if self.is_nan() || other.lt(self) {
            other
        } else {
            self
        }
    }

    /// The number nearest to this one between `low` and `high`.
    #[verifier::when_used_as_spec(spec_clamp)]
    pub fn clamp(self, low: Double, high: Double) -> (r: Double)
        requires
            low.le(high),
        ensures
            r == self.clamp(low, high),
    {
        let raised: Double = if self.lt(low) {
            low
        } else {
            self
        };
        if high.lt(raised) {
            high
        } else {
            raised
        }
    }

    /// The number nearest to the whole number `n`.
    #[verifier::when_used_as_spec(spec_whole)]
    pub fn whole(n: u64) -> (r: Double)
        ensures
            r == Double::whole(n),
    {
        reveal(Double::spec_whole);
        Double::with_sign(false, integer(n))
    }

    /// The number nearest to the fraction `n / d`: the value of a decimal literal.
    #[verifier::when_used_as_spec(spec_ratio)]
    pub fn ratio(n: u64, d: u64) -> (r: Double)
        requires
            n < P53,
            0 < d < P53,
        ensures
            r == Double::ratio(n, d),
    {
        reveal(Double::spec_ratio);
        Double::with_sign(false, fraction(n, d))
    }

    /// Whether a number is finite and has no fractional part.
    #[verifier::when_used_as_spec(spec_is_whole)]
    pub fn is_whole(self) -> (r: bool)
        ensures
            r == self.is_whole(),
    {
        reveal(Double::spec_is_whole);
        let m: u64 = self.magnitude();
        if m >= INF_MAG {
            return false;
        }
        let (_whole, rest) = whole_part(m);
        !rest
    }

    /// The whole part of a number, as far as it fits.
    #[verifier::when_used_as_spec(spec_to_usize)]
    pub fn to_usize(self) -> (r: usize)
        ensures
            r == self.to_usize(),
    {
        reveal(Double::spec_to_usize);
        let m: u64 = self.magnitude();
        if m > INF_MAG || self.sign() {
            return 0;
        }
        if m == INF_MAG {
            return usize::MAX;
        }
        let (whole, _rest) = whole_part(m);
        if whole > usize::MAX as u128 {
            usize::MAX
        } else {
            whole as usize
        }
    }
}

/// The whole part of finite magnitude bits, cut off at `2^64`, and whether there is
/// a fractional part.
fn whole_part(m: u64) -> (r: (u128, bool))
    requires
        m < INF_MAG,
    ensures
        ({
            let units = crate::rounding::mag_units(m as nat);
            let whole = units / pow2(1074);
            &&& r.1 == (units % pow2(1074) != 0)
            &&& whole < 0x1_0000_0000_0000_0000 ==> r.0 == whole
            &&& whole >= 0x1_0000_0000_0000_0000 ==> r.0 == 0x1_0000_0000_0000_0000
        }),
{
    let (k, sig) = decode(m);
    let ghost units = crate::rounding::mag_units(m as nat);
    let ghost h = pow2(1074);
    proof {
        lemma_pow2_pos(1074);
        lemma_pow2_pos(k as nat);
    }
    if k >= 1074 {
        let d: u32 = k - 1074;
        let ghost pd = pow2(d as nat);
        proof {
            lemma_pow2_adds(d as nat, 1074);
            assert(units == (sig * pd) * h) by (nonlinear_arith)
                requires
                    units == sig * (pd * h),
            ;
            lemma_div_multiples_vanish((sig * pd) as int, h as int);
            lemma_mod_multiples_basic((sig * pd) as int, h as int);
            lemma_mul_is_commutative((sig * pd) as int, h as int);
        }
        if d <= 11 {
            let p: u128 = pow2_u128(d);
            proof {
                lemma2_to64();
                if d < 11 {
                    lemma_pow2_strictly_increases(d as nat, 11);
                }
                assert(sig * p <= (0x20_0000_0000_0000 - 1) * 0x800) by (nonlinear_arith)
                    requires
                        sig < 0x20_0000_0000_0000,
                        p <= 0x800,
                ;
            }
            (sig as u128 * p, false)
        } else {
            proof {
                lemma2_to64();
                if d > 12 {
                    lemma_pow2_strictly_increases(12, d as nat);
                }
                assert(sig * pd >= 0x10_0000_0000_0000 * 0x1000) by (nonlinear_arith)
                    requires
                        sig >= 0x10_0000_0000_0000,
                        pd >= 0x1000,
                ;
            }
            (0x1_0000_0000_0000_0000, false)
        }
    } else {
        let d: u32 = 1074 - k;
        let (whole, rest) = crate::magnitude::shift_down(sig, d);
        proof {
            let pk = pow2(k as nat);
            let pd = pow2(d as nat);
            lemma_pow2_pos(d as nat);
            lemma_pow2_adds(k as nat, d as nat);
            lemma_fundamental_div_mod(sig as int, pd as int);
            lemma_mod_bound(sig as int, pd as int);
            let q = sig as nat / pd;
            let r = sig as nat % pd;
            assert(units == h * q + pk * r && pk * r < h) by (nonlinear_arith)
                requires
                    units == sig * pk,
                    sig == pd * q + r,
                    h == pk * pd,
                    r < pd,
                    pk > 0,
            ;
            crate::rounding::lemma_div_mod_is(units, h, q, pk * r);
            assert((pk * r != 0) == (r != 0)) by (nonlinear_arith)
                requires
                    pk > 0,
            ;
        }
        (whole, rest)
    }
}

} // verus!
