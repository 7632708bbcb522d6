//! Rounding of exact rationals to binary64 magnitudes.
//!
//! A finite binary64 magnitude is a whole number of *units*, one unit being the
//! smallest positive subnormal. The 63 magnitude bits `m` of such a number encode
//! `significand * 2^exponent` units, with `m == exponent * 2^52 + significand`.
use vstd::arithmetic::div_mod::*;
use vstd::arithmetic::power2::*;
use vstd::bits::*;
use vstd::prelude::*;

verus! {

/// 2^52: the weight of the implicit leading bit of a normal significand.
pub const P52: u64 = 0x0010_0000_0000_0000;

/// 2^53: one more than the largest significand.
pub const P53: u64 = 0x0020_0000_0000_0000;

/// The magnitude bits of infinity.
pub const INF_MAG: u64 = 0x7FF0_0000_0000_0000;

/// The sign bit.
pub const SIGN_BIT: u64 = 0x8000_0000_0000_0000;

/// The exponent of the weight of the last place of `num / den`: the least `k` with
/// `num / den < 2^(53 + k)`.
pub open spec fn ulp_exp(num: nat, den: nat) -> nat
    decreases num - den,
    when den > 0
{
    if num < den * P53 {
        0
    } else {
        1 + ulp_exp(num, 2 * den)
    }
}

/// The whole number nearest to `num / den`, the even one of two equally near.
pub open spec fn nearest(num: nat, den: nat) -> nat {
    let q = num / den;
    let r = num % den;
    if 2 * r < den || (2 * r == den && q % 2 == 0) {
        q
    } else {
        q + 1
    }
}

/// The magnitude bits of the binary64 number nearest to `num / den` units, ties going
/// to the even significand, and infinity beyond the largest finite number.
pub open spec fn round_mag(num: nat, den: nat) -> nat {
    let k = ulp_exp(num, den);
    let m = k * P52 + nearest(num, den * pow2(k));
    if m < INF_MAG {
        m as nat
    } else {
        INF_MAG as nat
    }
}

/// The exponent that the magnitude bits `m` encode.
pub open spec fn mag_exp(m: nat) -> nat {
    if m < P52 {
        0
    } else {
        (m / (P52 as nat) - 1) as nat
    }
}

/// The significand that the magnitude bits `m` encode.
pub open spec fn mag_sig(m: nat) -> nat {
    (m - mag_exp(m) * P52) as nat
}

/// The number of units that the magnitude bits `m` encode.
pub open spec fn mag_units(m: nat) -> nat {
    mag_sig(m) * pow2(mag_exp(m))
}

pub proof fn lemma_ulp_exp_bounds(num: nat, den: nat)
    requires
        den > 0,
    ensures
        num < den * P53 * pow2(ulp_exp(num, den)),
        ulp_exp(num, den) > 0 ==> num >= den * P52 * pow2(ulp_exp(num, den)),
    decreases num - den,
{
    let k = ulp_exp(num, den);
    if num < den * P53 {
        lemma2_to64();
        assert(den * P53 * pow2(0) == den * P53) by (nonlinear_arith)
            requires
                pow2(0) == 1,
        ;
    } else {
        let k1 = ulp_exp(num, 2 * den);
        lemma_ulp_exp_bounds(num, 2 * den);
        lemma_pow2_unfold(k);
        assert(den * P53 * pow2(k) == (2 * den) * P53 * pow2(k1)) by (nonlinear_arith)
            requires
                pow2(k) == 2 * pow2(k1),
        ;
        assert(den * P52 * pow2(k) == (2 * den) * P52 * pow2(k1)) by (nonlinear_arith)
            requires
                pow2(k) == 2 * pow2(k1),
        ;
        if k1 == 0 {
            lemma2_to64();
            assert(den * P52 * pow2(k) == den * P53) by (nonlinear_arith)
                requires
                    pow2(k) == 2,
                    2 * P52 == P53,
            ;
        }
    }
}

pub proof fn lemma_ulp_exp_unique(num: nat, den: nat, k: nat)
    requires
        den > 0,
        num < den * P53 * pow2(k),
        k > 0 ==> num >= den * P52 * pow2(k),
    ensures
        ulp_exp(num, den) == k,
{
    let j = ulp_exp(num, den);
    lemma_ulp_exp_bounds(num, den);
    if j < k {
        lemma_pow2_ge_double(j, k);
        assert(den * P53 * pow2(j) <= den * P52 * pow2(k)) by (nonlinear_arith)
            requires
                2 * pow2(j) <= pow2(k),
                2 * P52 == P53,
                den >= 0,
        ;
    } else if k < j {
        lemma_pow2_ge_double(k, j);
        assert(den * P53 * pow2(k) <= den * P52 * pow2(j)) by (nonlinear_arith)
            requires
                2 * pow2(k) <= pow2(j),
                2 * P52 == P53,
                den >= 0,
        ;
    }
}

pub proof fn lemma_pow2_ge_double(a: nat, b: nat)
    requires
        a < b,
    ensures
        2 * pow2(a) <= pow2(b),
{
    lemma_pow2_unfold(a + 1);
    if a + 1 < b {
        lemma_pow2_strictly_increases(a + 1, b);
    }
}

/// With `num == den * q + r` and `r < den`, the quotient and remainder are `q` and `r`.
pub proof fn lemma_div_mod_is(num: nat, den: nat, q: nat, r: nat)
    requires
        den > 0,
        num == den * q + r,
        r < den,
    ensures
        num / den == q,
        num % den == r,
{
    assert(q * den + r == num) by (nonlinear_arith)
        requires
            num == den * q + r,
    ;
    lemma_fundamental_div_mod_converse(num as int, den as int, q as int, r as int);
}

proof fn lemma_nearest_scale(num: nat, den: nat, c: nat)
    requires
        den > 0,
        c > 0,
    ensures
        nearest(num * c, den * c) == nearest(num, den),
{
    let q = num / den;
    let r = num % den;
    lemma_fundamental_div_mod(num as int, den as int);
    assert(den * c > 0) by (nonlinear_arith)
        requires
            den > 0,
            c > 0,
    ;
    assert(num * c == (den * c) * q + r * c) by (nonlinear_arith)
        requires
            num == den * q + r,
    ;
    assert(r * c < den * c) by (nonlinear_arith)
        requires
            r < den,
            c > 0,
    ;
    lemma_div_mod_is(num * c, den * c, q, r * c);
    assert((2 * (r * c) < den * c) == (2 * r < den)) by (nonlinear_arith)
        requires
            c > 0,
    ;
    assert((2 * (r * c) == den * c) == (2 * r == den)) by (nonlinear_arith)
        requires
            c > 0,
    ;
}

/// `num / den` units lie at `sig * 2^exp` when nothing is left over, and strictly
/// between that and `(sig + 1) * 2^exp` when `sticky` says that something is.
pub open spec fn brackets(sig: nat, exp: int, sticky: bool, num: nat, den: nat) -> bool {
    let unit = den * pow2((exp + 4000) as nat);
    let n = num * pow2(4000);
    &&& unit * sig <= n
    &&& n < unit * (sig + 1)
    &&& sticky == (n != unit * sig)
}

proof fn lemma_pow2_cancel_lt(a: nat, b: nat, c: nat)
    requires
        c > 0,
        a * c < b * c,
    ensures
        a < b,
{
    assert(a < b) by (nonlinear_arith)
        requires
            c > 0,
            a * c < b * c,
    ;
}

proof fn lemma_pow2_cancel_le(a: nat, b: nat, c: nat)
    requires
        c > 0,
        a * c <= b * c,
    ensures
        a <= b,
{
    assert(a <= b) by (nonlinear_arith)
        requires
            c > 0,
            a * c <= b * c,
    ;
}

proof fn lemma_pow2_52()
    ensures
        pow2(52) == P52,
        pow2(53) == P53,
{
    lemma2_to64_rest();
}

/// A bracketed value whose significand has `l` bits has its last place at
/// `max(0, l + exp - 53)`.
proof fn lemma_bracket_exponent(
    sig: nat,
    exp: int,
    sticky: bool,
    num: nat,
    den: nat,
    l: nat,
    k: nat,
)
    requires
        den > 0,
        -3900 <= exp <= 3900,
        1 <= l,
        pow2((l - 1) as nat) <= sig < pow2(l),
        brackets(sig, exp, sticky, num, den),
        k == if l + exp > 53 {
            l + exp - 53
        } else {
            0
        },
    ensures
        ulp_exp(num, den) == k,
{
    let e = (exp + 4000) as nat;
    let unit = den * pow2(e);
    let n = num * pow2(4000);
    lemma_pow2_52();
    lemma_pow2_pos(4000);
    // Upper bound.
    let top = (k + 53 + 4000) as nat;
    lemma_pow2_adds(e, l);
    assert(unit * (sig + 1) <= den * pow2(e + l)) by (nonlinear_arith)
        requires
            unit == den * pow2(e),
            sig + 1 <= pow2(l),
            pow2(e + l) == pow2(e) * pow2(l),
    ;
    if e + l < top {
        lemma_pow2_strictly_increases(e + l, top);
    }
    assert(den * pow2(e + l) <= den * pow2(top)) by (nonlinear_arith)
        requires
            pow2(e + l) <= pow2(top),
    ;
    lemma_pow2_adds(53, k);
    lemma_pow2_adds(k + 53, 4000);
    assert(den * pow2(top) == (den * P53 * pow2(k)) * pow2(4000)) by (nonlinear_arith)
        requires
            pow2(top) == pow2(k + 53) * pow2(4000),
            pow2(k + 53) == P53 * pow2(k),
    ;
    lemma_pow2_cancel_lt(num, (den * P53 * pow2(k)) as nat, pow2(4000));
    // Lower bound.
    if k > 0 {
        let low = (e + l - 1) as nat;
        lemma_pow2_adds(e, (l - 1) as nat);
        assert(den * pow2(low) <= unit * sig) by (nonlinear_arith)
            requires
                unit == den * pow2(e),
                pow2((l - 1) as nat) <= sig,
                pow2(low) == pow2(e) * pow2((l - 1) as nat),
        ;
        assert(low == k + 52 + 4000);
        lemma_pow2_adds(52, k);
        lemma_pow2_adds(k + 52, 4000);
        assert(den * pow2(low) == (den * P52 * pow2(k)) * pow2(4000)) by (nonlinear_arith)
            requires
                pow2(low) == pow2(k + 52) * pow2(4000),
                pow2(k + 52) == P52 * pow2(k),
        ;
        lemma_pow2_cancel_le((den * P52 * pow2(k)) as nat, num, pow2(4000));
    }
    lemma_ulp_exp_unique(num, den, k);
}

/// Dropping the last `s` bits of a bracketed significand, and rounding by what was
/// dropped, gives the nearest whole number.
proof fn lemma_bracket_nearest_drop(
    sig: nat,
    exp: int,
    sticky: bool,
    num: nat,
    den: nat,
    k: nat,
    q: nat,
    r: nat,
)
    requires
        den > 0,
        -3900 <= exp < k,
        brackets(sig, exp, sticky, num, den),
        sig == pow2((k - exp) as nat) * q + r,
        r < pow2((k - exp) as nat),
    ensures
        ({
            let half = pow2((k - exp - 1) as nat);
            nearest(num, den * pow2(k)) == (if r < half || (r == half && !sticky && q % 2 == 0) {
                q
            } else {
                q + 1
            })
        }),
{
    let s = (k - exp) as nat;
    let p = pow2(s);
    let half = pow2((s - 1) as nat);
    let e = (exp + 4000) as nat;
    let unit = den * pow2(e);
    let n = num * pow2(4000);
    let w = den * pow2(k) * pow2(4000);
    lemma_pow2_pos(4000);
    lemma_pow2_pos(k);
    lemma_pow2_pos(e);
    lemma_pow2_unfold(s);
    lemma_pow2_adds(k, 4000);
    lemma_pow2_adds(e, s);
    assert(e + s == k + 4000);
    assert(unit > 0 && w > 0) by (nonlinear_arith)
        requires
            unit == den * pow2(e),
            w == den * pow2(k) * pow2(4000),
            den > 0,
            pow2(e) > 0,
            pow2(k) > 0,
            pow2(4000) > 0,
    ;
    assert(w == unit * p) by (nonlinear_arith)
        requires
            w == den * pow2(k) * pow2(4000),
            unit == den * pow2(e),
            pow2(k) * pow2(4000) == pow2(e) * p,
    ;
    let t = (n - unit * sig) as nat;
    assert(t < unit) by (nonlinear_arith)
        requires
            t == n - unit * sig,
            n < unit * (sig + 1),
    ;
    let rem = unit * r + t;
    assert(n == w * q + rem) by (nonlinear_arith)
        requires
            n == unit * sig + t,
            sig == p * q + r,
            w == unit * p,
            rem == unit * r + t,
    ;
    assert(rem < w) by (nonlinear_arith)
        requires
            rem == unit * r + t,
            t < unit,
            r + 1 <= p,
            w == unit * p,
    ;
    lemma_div_mod_is(n, w, q, rem);
    assert(w == 2 * (unit * half)) by (nonlinear_arith)
        requires
            w == unit * p,
            p == 2 * half,
    ;
    if r < half {
        assert(rem < unit * half) by (nonlinear_arith)
            requires
                rem == unit * r + t,
                t < unit,
                r + 1 <= half,
        ;
    } else {
        assert(rem >= unit * half) by (nonlinear_arith)
            requires
                rem == unit * r + t,
                r >= half,
        ;
        if r > half {
            assert(rem > unit * half) by (nonlinear_arith)
                requires
                    rem == unit * r + t,
                    r >= half + 1,
                    unit > 0,
            ;
        }
    }
    lemma_nearest_scale(num, den * pow2(k), pow2(4000));
}

/// A bracketed value with nothing left over and room to spare is a whole number of
/// last places.
proof fn lemma_bracket_nearest_exact(sig: nat, exp: int, num: nat, den: nat, k: nat)
    requires
        den > 0,
        k <= exp <= 3900,
        brackets(sig, exp, false, num, den),
    ensures
        nearest(num, den * pow2(k)) == sig * pow2((exp - k) as nat),
{
    let s = (exp - k) as nat;
    let e = (exp + 4000) as nat;
    let unit = den * pow2(e);
    let n = num * pow2(4000);
    let w = den * pow2(k) * pow2(4000);
    lemma_pow2_pos(4000);
    lemma_pow2_pos(k);
    lemma_pow2_adds(k, 4000);
    lemma_pow2_adds(k + 4000, s);
    assert(w > 0 && den * pow2(k) > 0) by (nonlinear_arith)
        requires
            w == den * pow2(k) * pow2(4000),
            den > 0,
            pow2(k) > 0,
            pow2(4000) > 0,
    ;
    assert(n == w * (sig * pow2(s)) + 0) by (nonlinear_arith)
        requires
            n == unit * sig,
            unit == den * pow2(e),
            w == den * pow2(k) * pow2(4000),
            pow2(e) == pow2(k + 4000) * pow2(s),
            pow2(k + 4000) == pow2(k) * pow2(4000),
    ;
    lemma_div_mod_is(n, w, sig * pow2(s), 0);
    lemma_nearest_scale(num, den * pow2(k), pow2(4000));
}

/// `2^s`.
pub(crate) fn pow2_u128(s: u32) -> (r: u128)
    requires
        s < 128,
    ensures
        r == pow2(s as nat),
{
    let d: u128 = (127 - s) as u128;
    proof {
        lemma2_to64_rest();
        lemma_pow2_adds(63, 64);
        lemma_u128_shr_is_div(0x8000_0000_0000_0000_0000_0000_0000_0000, d);
        lemma_pow2_subtracts(d as nat, 127);
    }
    0x8000_0000_0000_0000_0000_0000_0000_0000u128 >> d
}

/// The number of bits of `x`.
pub(crate) fn bit_len(x: u128) -> (l: u32)
    requires
        x > 0,
    ensures
        1 <= l <= 128,
        pow2((l - 1) as nat) <= x < pow2(l as nat),
{
    let mut y: u128 = x;
    let mut l: u32 = 0;
    proof {
        lemma2_to64();
        lemma2_to64_rest();
        lemma_pow2_adds(64, 64);
    }
    while y >= 0x1_0000_0000
        invariant
            y >= 1,
            l <= 127,
            y < pow2((128 - l) as nat),
            pow2(l as nat) * y <= x < pow2(l as nat) * (y + 1),
        decreases y,
    {
        proof {
            lemma2_to64();
            lemma2_to64_rest();
        }
        let z: u128 = y / 0x1_0000_0000;
        proof {
            lemma_bit_len_step(x as nat, y as nat, z as nat, l as nat, 32);
        }
        y = z;
        l = l + 32;
    }
    while y > 1
        invariant
            y >= 1,
            l <= 127,
            y < pow2((128 - l) as nat),
            pow2(l as nat) * y <= x < pow2(l as nat) * (y + 1),
        decreases y,
    {
        proof {
            lemma2_to64();
        }
        let z: u128 = y / 2;
        proof {
            lemma_bit_len_step(x as nat, y as nat, z as nat, l as nat, 1);
        }
        y = z;
        l = l + 1;
    }
    proof {
        lemma_pow2_unfold((l + 1) as nat);
        assert(pow2(l as nat) * 1 == pow2(l as nat) && pow2(l as nat) * 2 == 2 * pow2(l as nat));
    }
    l + 1
}

proof fn lemma_bit_len_step(x: nat, y: nat, z: nat, l: nat, c: nat)
    requires
        z == y / pow2(c),
        z >= 1,
        l < 128,
        y < pow2((128 - l) as nat),
        pow2(l) * y <= x < pow2(l) * (y + 1),
    ensures
        l + c < 128,
        z < pow2((128 - l - c) as nat),
        pow2(l + c) * z <= x < pow2(l + c) * (z + 1),
{
    let p = pow2(l);
    let d = pow2(c);
    lemma_pow2_pos(c);
    lemma_pow2_pos(l);
    lemma_pow2_adds(l, c);
    lemma_fundamental_div_mod(y as int, d as int);
    assert(d * z <= y < d * (z + 1)) by (nonlinear_arith)
        requires
            y == d * z + y % d,
            0 <= y % d < d,
    ;
    if l + c >= 128 {
        if c > 128 - l {
            lemma_pow2_strictly_increases((128 - l) as nat, c);
        }
        assert(d <= y) by (nonlinear_arith)
            requires
                d * z <= y,
                z >= 1,
        ;
        assert(false);
    }
    lemma_pow2_adds(c, (128 - l - c) as nat);
    assert(z < pow2((128 - l - c) as nat)) by (nonlinear_arith)
        requires
            d * z <= y,
            y < d * pow2((128 - l - c) as nat),
            d > 0,
    ;
    assert(p * d * z <= x < p * d * (z + 1)) by (nonlinear_arith)
        requires
            p * y <= x < p * (y + 1),
            d * z <= y,
            y + 1 <= d * (z + 1),
            p > 0,
    ;
}

/// The magnitude bits of the binary64 number nearest to a bracketed value.
pub(crate) fn round_pack(
    sig: u128,
    exp: i32,
    sticky: bool,
    Ghost(num): Ghost<nat>,
    Ghost(den): Ghost<nat>,
) -> (m: u64)
    requires
        0 < sig < 0x8000_0000_0000_0000_0000_0000_0000_0000,
        -3900 <= exp <= 3700,
        sticky ==> sig >= pow2(54),
        den > 0,
        brackets(sig as nat, exp as int, sticky, num, den),
    ensures
        m == round_mag(num, den),
        m <= INF_MAG,
{
    let l: u32 = bit_len(sig);
    let li: i32 = l as i32;
    let k: i32 = if li + exp > 53 {
        li + exp - 53
    } else {
        0
    };
    proof {
        lemma_bracket_exponent(
            sig as nat,
            exp as int,
            sticky,
            num,
            den,
            l as nat,
            k as nat,
        );
        lemma_pow2_52();
    }
    let n: u128 = if exp >= k {
        proof {
            if sticky {
                // A sticky significand has at least 55 bits, so its last bits are dropped.
                if l < 55 {
                    if l < 54 {
                        lemma_pow2_strictly_increases(l as nat, 54);
                    }
                    assert(false);
                }
                assert(false);
            }
            lemma_bracket_nearest_exact(sig as nat, exp as int, num, den, k as nat);
            let s = (exp - k) as nat;
            lemma_pow2_adds(l as nat, s);
            lemma_pow2_pos(s);
            assert(sig * pow2(s) < pow2((l + s) as nat)) by (nonlinear_arith)
                requires
                    sig < pow2(l as nat),
                    pow2((l + s) as nat) == pow2(l as nat) * pow2(s),
                    pow2(s) > 0,
            ;
            if l + s < 53 {
                lemma_pow2_strictly_increases((l + s) as nat, 53);
            }
        }
        let p: u128 = pow2_u128((exp - k) as u32);
        assert(sig * p < P53);
        sig * p
    } else {
        let s: u32 = (k - exp) as u32;
        if s >= 128 {
            proof {
                lemma2_to64_rest();
                lemma_pow2_adds(64, 64);
                lemma_pow2_adds(63, 64);
                if s > 128 {
                    lemma_pow2_strictly_increases(128, s as nat);
                    lemma_pow2_strictly_increases(127, (s - 1) as nat);
                }
                lemma_bracket_nearest_drop(
                    sig as nat,
                    exp as int,
                    sticky,
                    num,
                    den,
                    k as nat,
                    0,
                    sig as nat,
                );
            }
            0
        } else {
            let p: u128 = pow2_u128(s);
            let half: u128 = pow2_u128(s - 1);
            proof {
                lemma_pow2_pos(s as nat);
            }
            let q: u128 = sig / p;
            let r: u128 = sig % p;
            proof {
                lemma_fundamental_div_mod(sig as int, p as int);
                lemma_bracket_nearest_drop(
                    sig as nat,
                    exp as int,
                    sticky,
                    num,
                    den,
                    k as nat,
                    q as nat,
                    r as nat,
                );
                assert(q < P53) by {
                    lemma_pow2_adds(53, s as nat);
                    let top = (s + 53) as nat;
                    if l < top {
                        lemma_pow2_strictly_increases(l as nat, top);
                    }
                    assert(q < P53) by (nonlinear_arith)
                        requires
                            p * q <= sig,
                            sig < P53 * p,
                            p > 0,
                    ;
                }
            }
            if r < half || (r == half && !sticky && q % 2 == 0) {
                q
            } else {
                q + 1
            }
        }
    };
    let m: u128 = (k as u128) * (P52 as u128) + n;
    if m < INF_MAG as u128 {
        m as u64
    } else {
        INF_MAG
    }
}

} // verus!
