//! Arithmetic on the magnitude bits of finite binary64 numbers.
use vstd::arithmetic::div_mod::*;
use vstd::arithmetic::power2::*;
use vstd::prelude::*;

use crate::rounding::{bit_len, pow2_u128, round_pack, INF_MAG, P52, P53};

verus! {

/// The exponent and the significand of magnitude bits.
pub(crate) fn decode(m: u64) -> (r: (u32, u64))
    requires
        m < INF_MAG,
    ensures
        r.0 == crate::rounding::mag_exp(m as nat),
        r.1 == crate::rounding::mag_sig(m as nat),
        r.0 <= 2045,
        r.1 < P53,
        r.0 > 0 ==> r.1 >= P52,
        m == r.0 * P52 + r.1,
{
    if m < P52 {
        (0, m)
    } else {
        let e: u64 = m / P52;
        (((e - 1) as u32), m - (e - 1) * P52)
    }
}

/// Larger magnitude bits encode more units, with no smaller an exponent.
pub proof fn lemma_mag_units_increase(a: nat, b: nat)
    requires
        a < b,
    ensures
        crate::rounding::mag_units(a) < crate::rounding::mag_units(b),
        crate::rounding::mag_exp(a) <= crate::rounding::mag_exp(b),
{
    let ka = crate::rounding::mag_exp(a);
    let kb = crate::rounding::mag_exp(b);
    let sa = crate::rounding::mag_sig(a);
    let sb = crate::rounding::mag_sig(b);
    assert(sa < P53);
    assert(ka <= kb);
    lemma_pow2_pos(ka);
    if ka == kb {
        assert(sa * pow2(ka) < sb * pow2(kb)) by (nonlinear_arith)
            requires
                sa < sb,
                ka == kb,
                pow2(ka) > 0,
        ;
    } else {
        lemma_pow2_unfold((ka + 1) as nat);
        if ka + 1 < kb {
            lemma_pow2_strictly_increases((ka + 1) as nat, kb);
        }
        assert(sb >= P52);
        assert(sa * pow2(ka) < sb * pow2(kb)) by (nonlinear_arith)
            requires
                sa < P53,
                2 * P52 == P53,
                sb >= P52,
                pow2(kb) >= 2 * pow2(ka),
                pow2(ka) > 0,
        ;
    }
}

/// Nothing rounds to nothing.
pub proof fn lemma_round_mag_zero(den: nat)
    requires
        den > 0,
    ensures
        crate::rounding::round_mag(0, den) == 0,
{
    assert(den * P53 > 0) by (nonlinear_arith)
        requires
            den > 0,
    ;
    assert(crate::rounding::ulp_exp(0, den) == 0);
    lemma2_to64();
    assert(den * pow2(0) == den) by (nonlinear_arith)
        requires
            pow2(0) == 1,
    ;
    lemma_div_basics_1(den as int);
    lemma_small_mod(0, den);
}

/// The nearest magnitude to a product.
pub(crate) fn multiply(a: u64, b: u64) -> (m: u64)
    requires
        a < INF_MAG,
        b < INF_MAG,
    ensures
        m == crate::rounding::round_mag(
            crate::rounding::mag_units(a as nat) * crate::rounding::mag_units(b as nat),
            pow2(1074),
        ),
        m <= INF_MAG,
{
    let (ka, sa) = decode(a);
    let (kb, sb) = decode(b);
    let ghost ua = crate::rounding::mag_units(a as nat);
    let ghost ub = crate::rounding::mag_units(b as nat);
    proof {
        lemma_pow2_pos(1074);
    }
    if sa == 0 || sb == 0 {
        proof {
            assert(ua * ub == 0) by (nonlinear_arith)
                requires
                    ua == sa * pow2(ka as nat),
                    ub == sb * pow2(kb as nat),
                    sa == 0 || sb == 0,
            ;
            lemma_round_mag_zero(pow2(1074));
        }
        return 0;
    }
    assert(0 < sa * sb < P53 * P53) by (nonlinear_arith)
        requires
            0 < sa < P53,
            0 < sb < P53,
    ;
    let sig: u128 = sa as u128 * sb as u128;
    let exp: i32 = ka as i32 + kb as i32 - 1074;
    proof {
        lemma_pow2_adds(ka as nat, kb as nat);
        lemma_pow2_adds((ka + kb) as nat, 4000);
        lemma_pow2_adds(1074, (exp + 4000) as nat);
        let pa = pow2(ka as nat);
        let pb = pow2(kb as nat);
        let c = pow2(4000);
        let unit = pow2(1074) * pow2((exp + 4000) as nat);
        assert(unit == pa * pb * c);
        assert(ua * ub * c == unit * sig) by (nonlinear_arith)
            requires
                ua == sa * pa,
                ub == sb * pb,
                sig == sa * sb,
                unit == pa * pb * c,
        ;
        lemma_pow2_pos((ka + kb + 4000) as nat);
        assert(unit * (sig + 1) > unit * sig) by (nonlinear_arith)
            requires
                unit > 0,
        ;
    }
    round_pack(sig, exp, false, Ghost(ua * ub), Ghost(pow2(1074)))
}

/// The nearest magnitude to `num / den` units, where `num / den == a * 2^e / b`.
fn divide_scaled(a: u64, b: u64, e: i32, Ghost(num): Ghost<nat>, Ghost(den): Ghost<nat>) -> (m: u64)
    requires
        0 < a < P53,
        0 < b < P53,
        -3200 <= e <= 3200,
        den > 0,
        num * pow2(4000) * b == den * a * pow2((e + 4000) as nat),
    ensures
        m == crate::rounding::round_mag(num, den),
        m <= INF_MAG,
{
    let l: u32 = bit_len(a as u128);
    proof {
        lemma2_to64();
        lemma2_to64_rest();
        if l > 53 {
            lemma_pow2_strictly_increases(53, l as nat);
            if l > 54 {
                lemma_pow2_strictly_increases(53, (l - 1) as nat);
            }
        }
        assert(l <= 53);
        lemma_pow2_adds((l - 1) as nat, (109 - l) as nat);
        lemma_pow2_adds(l as nat, (109 - l) as nat);
        lemma_pow2_adds(54, 54);
        lemma_pow2_unfold(109);
        lemma_pow2_pos((109 - l) as nat);
    }
    let p: u128 = pow2_u128(109 - l);
    proof {
        let pl = pow2((l - 1) as nat);
        let ph = pow2(l as nat);
        assert(pl * p <= a * p < ph * p) by (nonlinear_arith)
            requires
                pl <= a < ph,
                p > 0,
        ;
    }
    let wide: u128 = a as u128 * p;
    let q: u128 = wide / (b as u128);
    let r: u128 = wide % (b as u128);
    let sticky: bool = r != 0;
    let exp: i32 = e - (109 - l as i32);
    proof {
        lemma_fundamental_div_mod(wide as int, b as int);
        assert(wide == q * b + r) by (nonlinear_arith)
            requires
                wide == b * q + r,
        ;
        assert(q >= pow2(54)) by (nonlinear_arith)
            requires
                wide == q * b + r,
                wide >= pow2(54) * pow2(54),
                b < 0x20_0000_0000_0000,
                pow2(54) == 0x40_0000_0000_0000,
                r < b,
        ;
        assert(q <= wide) by (nonlinear_arith)
            requires
                wide == q * b + r,
                b > 0,
                r >= 0,
                q >= 0,
        ;
        let n = num * pow2(4000);
        let pe = pow2((exp + 4000) as nat);
        let unit = den * pe;
        lemma_pow2_adds((exp + 4000) as nat, (109 - l) as nat);
        lemma_pow2_pos((exp + 4000) as nat);
        assert(unit > 0) by (nonlinear_arith)
            requires
                den > 0,
                pe > 0,
                unit == den * pe,
        ;
        assert(n * b == unit * wide) by (nonlinear_arith)
            requires
                n * b == den * a * (pe * p),
                unit == den * pe,
                wide == a * p,
        ;
        assert(n >= unit * q) by (nonlinear_arith)
            requires
                n * b == unit * wide,
                wide == q * b + r,
                b > 0,
                r >= 0,
                unit > 0,
        ;
        assert(n < unit * (q + 1)) by (nonlinear_arith)
            requires
                n * b == unit * wide,
                wide == q * b + r,
                b > 0,
                r < b,
                unit > 0,
        ;
        assert((n != unit * q) == sticky) by (nonlinear_arith)
            requires
                n * b == unit * wide,
                wide == q * b + r,
                b > 0,
                unit > 0,
                sticky == (r != 0),
        ;
    }
    round_pack(q, exp, sticky, Ghost(num), Ghost(den))
}

/// The nearest magnitude to a quotient.
pub(crate) fn divide(a: u64, b: u64) -> (m: u64)
    requires
        a < INF_MAG,
        0 < b < INF_MAG,
    ensures
        m == crate::rounding::round_mag(
            crate::rounding::mag_units(a as nat) * pow2(1074),
            crate::rounding::mag_units(b as nat),
        ),
        m <= INF_MAG,
{
    let (ka, sa) = decode(a);
    let (kb, sb) = decode(b);
    let ghost ua = crate::rounding::mag_units(a as nat);
    let ghost ub = crate::rounding::mag_units(b as nat);
    proof {
        lemma_pow2_pos(kb as nat);
        assert(ub > 0) by (nonlinear_arith)
            requires
                ub == sb * pow2(kb as nat),
                sb > 0,
                pow2(kb as nat) > 0,
        ;
    }
    if sa == 0 {
        proof {
            assert(ua * pow2(1074) == 0) by (nonlinear_arith)
                requires
                    ua == sa * pow2(ka as nat),
                    sa == 0,
            ;
            lemma_round_mag_zero(ub);
        }
        return 0;
    }
    let e: i32 = ka as i32 - kb as i32 + 1074;
    proof {
        let pa = pow2(ka as nat);
        let pb = pow2(kb as nat);
        let c = pow2(4000);
        let h = pow2(1074);
        let pe = pow2((e + 4000) as nat);
        lemma_pow2_adds(ka as nat, 1074);
        lemma_pow2_adds((ka + 1074) as nat, 4000);
        lemma_pow2_adds(kb as nat, (e + 4000) as nat);
        assert(pa * h * c == pb * pe);
        assert(ua * h * c * sb == ub * sa * pe) by (nonlinear_arith)
            requires
                ua == sa * pa,
                ub == sb * pb,
                pa * h * c == pb * pe,
        ;
    }
    divide_scaled(sa, sb, e, Ghost(ua * pow2(1074)), Ghost(ub))
}

/// The nearest magnitude to the fraction `n / d`.
pub(crate) fn fraction(n: u64, d: u64) -> (m: u64)
    requires
        n < P53,
        0 < d < P53,
    ensures
        m == crate::rounding::round_mag(n as nat * pow2(1074), d as nat),
        m <= INF_MAG,
{
    if n == 0 {
        proof {
            lemma_round_mag_zero(d as nat);
        }
        return 0;
    }
    proof {
        lemma_pow2_adds(1074, 4000);
        assert(n as nat * pow2(1074) * pow2(4000) * d == d * n * pow2(5074)) by (nonlinear_arith)
            requires
                pow2(1074) * pow2(4000) == pow2(5074),
        ;
    }
    divide_scaled(n, d, 1074, Ghost(n as nat * pow2(1074)), Ghost(d as nat))
}

/// The nearest magnitude to the whole number `n`.
pub(crate) fn integer(n: u64) -> (m: u64)
    ensures
        m == crate::rounding::round_mag(n as nat * pow2(1074), 1),
        m <= INF_MAG,
{
    if n == 0 {
        proof {
            lemma_round_mag_zero(1);
        }
        return 0;
    }
    proof {
        let unit = 1 * pow2(5074);
        lemma_pow2_adds(1074, 4000);
        lemma_pow2_pos(5074);
        assert(n as nat * pow2(1074) * pow2(4000) == unit * n) by (nonlinear_arith)
            requires
                pow2(1074) * pow2(4000) == unit,
        ;
        assert(unit * (n + 1) > unit * n) by (nonlinear_arith)
            requires
                unit > 0,
        ;
    }
    round_pack(n as u128, 1074, false, Ghost(n as nat * pow2(1074)), Ghost(1))
}

/// `s / 2^t`, and whether it leaves a remainder.
pub(crate) fn shift_down(s: u64, t: u32) -> (r: (u128, bool))
    requires
        s < P53,
    ensures
        r.0 == s as nat / pow2(t as nat),
        r.1 == (s as nat % pow2(t as nat) != 0),
        r.0 <= s,
{
    if t <= 60 {
        let p: u128 = pow2_u128(t);
        proof {
            lemma_pow2_pos(t as nat);
            lemma_div_is_ordered_by_denominator(s as int, 1, p as int);
        }
        (s as u128 / p, s as u128 % p != 0)
    } else {
        proof {
            lemma2_to64();
            lemma2_to64_rest();
            lemma_pow2_strictly_increases(53, t as nat);
            lemma_basic_div(s as int, pow2(t as nat) as int);
            lemma_small_mod(s as nat, pow2(t as nat));
        }
        (0, s != 0)
    }
}

/// The nearest magnitude to the sum of `a` and `b`, or to their difference.
pub(crate) fn combine(a: u64, b: u64, subtract: bool) -> (m: u64)
    requires
        b <= a < INF_MAG,
        subtract ==> b < a,
        a > 0,
    ensures
        subtract ==> m == crate::rounding::round_mag(
            (crate::rounding::mag_units(a as nat) - crate::rounding::mag_units(b as nat)) as nat,
            1,
        ),
        !subtract ==> m == crate::rounding::round_mag(
            crate::rounding::mag_units(a as nat) + crate::rounding::mag_units(b as nat),
            1,
        ),
        m <= INF_MAG,
{
    let (ka, sa) = decode(a);
    let (kb, sb) = decode(b);
    let ghost ua = crate::rounding::mag_units(a as nat);
    let ghost ub = crate::rounding::mag_units(b as nat);
    let ghost num: nat = if subtract {
        (ua - ub) as nat
    } else {
        ua + ub
    };
    proof {
        if b < a {
            lemma_mag_units_increase(b as nat, a as nat);
        }
    }
    let d: u32 = ka - kb;
    let ghost pb = pow2(kb as nat);
    let ghost c = pow2(4000);
    let ghost pd = pow2(d as nat);
    proof {
        lemma_pow2_adds(kb as nat, d as nat);
        lemma_pow2_adds(kb as nat, 4000);
        lemma_pow2_pos(kb as nat);
        lemma_pow2_pos(d as nat);
        lemma_pow2_pos((kb + 4000) as nat);
        assert(ua == sa * pd * pb) by (nonlinear_arith)
            requires
                ua == sa * (pb * pd),
        ;
    }
    if d <= 64 {
        let p: u128 = pow2_u128(d);
        proof {
            lemma2_to64_rest();
            if d < 64 {
                lemma_pow2_strictly_increases(d as nat, 64);
            }
            assert(sa * p < P53 * pow2(64)) by (nonlinear_arith)
                requires
                    sa < P53,
                    0 < p <= pow2(64),
            ;
        }
        let high: u128 = sa as u128 * p;
        proof {
            if subtract {
                assert(high > sb) by (nonlinear_arith)
                    requires
                        high * pb > sb * pb,
                        pb > 0,
                ;
            } else {
                assert(high > 0) by (nonlinear_arith)
                    requires
                        high == sa * p,
                        sa > 0,
                        p > 0,
                ;
            }
        }
        let sig: u128 = if subtract {
            high - sb as u128
        } else {
            high + sb as u128
        };
        proof {
            let unit = 1 * pow2((kb + 4000) as nat);
            assert(num == sig * pb) by (nonlinear_arith)
                requires
                    subtract ==> num == high * pb - sb * pb && sig == high - sb,
                    !subtract ==> num == high * pb + sb * pb && sig == high + sb,
            ;
            assert(num * c == unit * sig) by (nonlinear_arith)
                requires
                    num == sig * pb,
                    unit == pb * c,
            ;
            assert(unit * (sig + 1) > unit * sig) by (nonlinear_arith)
                requires
                    unit > 0,
            ;
        }
        round_pack(sig, kb as i32, false, Ghost(num), Ghost(1))
    } else {
        let t: u32 = d - 64;
        let (q, rest) = shift_down(sb, t);
        let high: u128 = sa as u128 * 0x1_0000_0000_0000_0000;
        let sig: u128 = if !subtract {
            high + q
        } else if rest {
            high - q - 1
        } else {
            high - q
        };
        let exp: i32 = ka as i32 - 64;
        proof {
            lemma2_to64();
            lemma2_to64_rest();
            lemma_pow2_adds(54, 10);
            let pt = pow2(t as nat);
            let r = sb as nat % pt;
            lemma_pow2_pos(t as nat);
            lemma_fundamental_div_mod(sb as int, pt as int);
            lemma_mod_bound(sb as int, pt as int);
            lemma_pow2_adds(t as nat, 64);
            lemma_pow2_adds((kb + 4000) as nat, t as nat);
            let unit = 1 * pow2((exp + 4000) as nat);
            assert(unit == pb * c * pt);
            let w = pb * c;
            assert(num * c == w * (if subtract {
                sa * pd - sb
            } else {
                sa * pd + sb
            })) by (nonlinear_arith)
                requires
                    subtract ==> num == sa * pd * pb - sb * pb,
                    !subtract ==> num == sa * pd * pb + sb * pb,
                    w == pb * c,
            ;
            assert(sa * pd == high * pt) by (nonlinear_arith)
                requires
                    pd == pt * 0x1_0000_0000_0000_0000,
                    high == sa * 0x1_0000_0000_0000_0000,
            ;
            let n = num * c;
            if !subtract {
                assert(n == unit * sig + w * r) by (nonlinear_arith)
                    requires
                        n == w * (high * pt + sb),
                        sb == pt * q + r,
                        unit == w * pt,
                        sig == high + q,
                ;
            } else if rest {
                assert(n == unit * sig + w * (pt - r)) by (nonlinear_arith)
                    requires
                        n == w * (high * pt - sb),
                        sb == pt * q + r,
                        unit == w * pt,
                        sig == high - q - 1,
                ;
            } else {
                assert(n == unit * sig) by (nonlinear_arith)
                    requires
                        n == w * (high * pt - sb),
                        sb == pt * q + r,
                        unit == w * pt,
                        sig == high - q,
                        r == 0,
                ;
            }
            let left = if !subtract {
                r as int
            } else if rest {
                pt - r
            } else {
                0
            };
            assert(n == unit * sig + w * left) by {
                assert(w * 0 == 0);
            }
            assert(0 <= w * left < unit) by (nonlinear_arith)
                requires
                    0 <= left < pt,
                    w > 0,
                    unit == w * pt,
            ;
            assert((w * left != 0) == (left != 0)) by (nonlinear_arith)
                requires
                    w > 0,
            ;
            assert(unit * (sig + 1) == unit * sig + unit) by (nonlinear_arith);
        }
        round_pack(sig, exp, rest, Ghost(num), Ghost(1))
    }
}

/// The largest whole number whose square is at most `y`.
pub open spec fn root(y: nat) -> nat {
    choose|s: nat| #[trigger] (s * s) <= y && y < (s + 1) * (s + 1)
}

/// The magnitude nearest to the square root of `y` units, for `y` of at least `2^1074`:
/// a root that is not whole lies with `root(y) + 1/2`, for every point at which the
/// rounding changes is a whole number of units.
pub open spec fn round_root(y: nat) -> nat {
    let s = root(y);
    crate::rounding::round_mag(
        if s * s == y {
            2 * s
        } else {
            2 * s + 1
        },
        2,
    )
}

proof fn lemma_root_is(y: nat, s: nat)
    requires
        s * s <= y,
        y < (s + 1) * (s + 1),
    ensures
        root(y) == s,
{
    let t = root(y);
    assert(t * t <= y && y < (t + 1) * (t + 1));
    assert(s == t) by (nonlinear_arith)
        requires
            s * s <= y,
            y < (s + 1) * (s + 1),
            t * t <= y,
            y < (t + 1) * (t + 1),
    ;
}

pub(crate) proof fn lemma_root_exists(y: nat)
    ensures
        exists|s: nat| #[trigger] (s * s) <= y && y < (s + 1) * (s + 1),
    decreases y,
{
    if y == 0 {
        let zero: nat = 0;
        assert(zero * zero == 0 && (zero + 1) * (zero + 1) == 1) by (nonlinear_arith)
            requires
                zero == 0,
        ;
        assert(zero * zero <= y && y < (zero + 1) * (zero + 1));
    } else {
        lemma_root_exists((y - 1) as nat);
        let s = choose|s: nat| #[trigger] (s * s) <= y - 1 && y - 1 < (s + 1) * (s + 1);
        if y < (s + 1) * (s + 1) {
            assert(s * s <= y);
        } else {
            let t = s + 1;
            assert(t * t <= y);
            assert(y < (t + 1) * (t + 1)) by (nonlinear_arith)
                requires
                    t * t == y,
            ;
        }
    }
}

/// The largest whole number whose square is at most `x`.
fn integer_root(x: u128) -> (s: u64)
    requires
        x < 0x1_0000_0000_0000_0000_0000_0000_0000,
    ensures
        s as nat * s as nat <= x,
        x < (s as nat + 1) * (s as nat + 1),
        s < 0x100_0000_0000_0000,
{
    let mut low: u64 = 0;
    let mut high: u64 = 0x100_0000_0000_0000;
    while high - low > 1
        invariant
            low < high <= 0x100_0000_0000_0000,
            low as nat * low as nat <= x,
            x < high as nat * high as nat,
        decreases high - low,
    {
        let mid: u64 = low + (high - low) / 2;
        assert(mid as nat * mid as nat <= 0x100_0000_0000_0000 * 0x100_0000_0000_0000)
            by (nonlinear_arith)
            requires
                mid <= 0x100_0000_0000_0000,
        ;
        if mid as u128 * mid as u128 <= x {
            low = mid;
        } else {
            high = mid;
        }
    }
    low
}

/// Scaling by `p * p` carries the bracket of a root from `x` to `y`.
proof fn lemma_root_scale(x: nat, y: nat, r: nat, p: nat)
    requires
        p > 0,
        y == x * (p * p),
        r * r <= x,
        x < (r + 1) * (r + 1),
    ensures
        r * p <= root(y) < (r + 1) * p,
        (root(y) * root(y) == y && root(y) == r * p) == (r * r == x),
{
    lemma_root_exists(y);
    let s = root(y);
    assert(s * s <= y && y < (s + 1) * (s + 1));
    let a = r * p;
    let b = (r + 1) * p;
    assert(a * a <= y) by (nonlinear_arith)
        requires
            a == r * p,
            y == x * (p * p),
            r * r <= x,
    ;
    assert(b * b > y) by (nonlinear_arith)
        requires
            b == (r + 1) * p,
            y == x * (p * p),
            x < (r + 1) * (r + 1),
            p > 0,
    ;
    assert(a <= s) by (nonlinear_arith)
        requires
            a * a <= y,
            y < (s + 1) * (s + 1),
    ;
    assert(s < b) by (nonlinear_arith)
        requires
            b * b > y,
            s * s <= y,
    ;
    if r * r == x {
        assert(a * a == y) by (nonlinear_arith)
            requires
                a == r * p,
                y == x * (p * p),
                r * r == x,
        ;
        assert(y < (a + 1) * (a + 1)) by (nonlinear_arith)
            requires
                a * a == y,
        ;
        lemma_root_is(y, a);
    } else if s * s == y && s == a {
        assert(r * r == x) by (nonlinear_arith)
            requires
                (r * p) * (r * p) == x * (p * p),
                p > 0,
        ;
    }
}

/// The nearest magnitude to a square root.
#[verifier::spinoff_prover]
#[verifier::rlimit(40)]
pub(crate) fn square_root(a: u64) -> (m: u64)
    requires
        0 < a < INF_MAG,
    ensures
        m == round_root(crate::rounding::mag_units(a as nat) * pow2(1074)),
        m <= INF_MAG,
{
    let (ka, sa) = decode(a);
    let ghost y = crate::rounding::mag_units(a as nat) * pow2(1074);
    let l: u32 = bit_len(sa as u128);
    proof {
        lemma2_to64();
        lemma2_to64_rest();
        if l > 53 {
            lemma_pow2_strictly_increases(53, l as nat);
            if l > 54 {
                lemma_pow2_strictly_increases(53, (l - 1) as nat);
            }
        }
        assert(l <= 53);
    }
    let j: u32 = if (ka + 1074 - (110 - l)) % 2 == 0 {
        110 - l
    } else {
        109 - l
    };
    let p: u128 = pow2_u128(j);
    proof {
        lemma_pow2_adds(54, 54);
        lemma_pow2_unfold(109);
        lemma_pow2_unfold(110);
        lemma_pow2_adds((l - 1) as nat, j as nat);
        lemma_pow2_adds(l as nat, j as nat);
        let pl = pow2((l - 1) as nat);
        let ph = pow2(l as nat);
        lemma_pow2_pos(j as nat);
        assert(pl * p <= sa * p < ph * p) by (nonlinear_arith)
            requires
                pl <= sa < ph,
                p > 0,
        ;
    }
    let x: u128 = sa as u128 * p;
    let r: u64 = integer_root(x);
    assert(r as nat * r as nat <= 0x100_0000_0000_0000 * 0x100_0000_0000_0000) by (nonlinear_arith)
        requires
            r <= 0x100_0000_0000_0000,
    ;
    let sticky: bool = r as u128 * r as u128 != x;
    let exp: i32 = ((ka + 1074 - j) / 2) as i32;
    let ghost s = root(y);
    let ghost num: nat = if s * s == y {
        2 * s
    } else {
        2 * s + 1
    };
    proof {
        let e = exp as nat;
        let pe = pow2(e);
        lemma_pow2_pos(e);
        assert(r >= pow2(54)) by (nonlinear_arith)
            requires
                x < (r as nat + 1) * (r as nat + 1),
                x >= pow2(54) * pow2(54),
        ;
        lemma_pow2_adds(e, e);
        lemma_pow2_adds(j as nat, (e + e) as nat);
        lemma_pow2_adds(ka as nat, 1074);
        let pk = pow2(ka as nat);
        let h = pow2(1074);
        assert(ka + 1074 == j + (e + e));
        assert(pk * h == p * (pe * pe));
        assert(y == x as nat * (pe * pe)) by (nonlinear_arith)
            requires
                y == sa * pk * h,
                pk * h == p * (pe * pe),
                x == sa * p,
        ;
        lemma_root_scale(x as nat, y, r as nat, pe);
        lemma_pow2_adds(e, 4000);
        let c = pow2(4000);
        lemma_pow2_pos(4000);
        let unit = 2 * pow2((exp + 4000) as nat);
        assert(unit == 2 * (pe * c));
        assert(unit * r == (2 * (r * pe)) * c) by (nonlinear_arith)
            requires
                unit == 2 * (pe * c),
        ;
        assert(unit * (r + 1) == (2 * ((r + 1) * pe)) * c) by (nonlinear_arith)
            requires
                unit == 2 * (pe * c),
        ;
        let n = num * c;
        let lo = 2 * (r * pe);
        let hi = 2 * ((r + 1) * pe);
        assert(lo <= num < hi);
        assert(lo * c <= n < hi * c) by (nonlinear_arith)
            requires
                lo <= num < hi,
                c > 0,
                n == num * c,
        ;
        assert((n != lo * c) == (num != lo)) by (nonlinear_arith)
            requires
                c > 0,
                n == num * c,
        ;
        assert(sticky == (num != lo));
    }
    round_pack(r as u128, exp, sticky, Ghost(num), Ghost(2))
}

} // verus!
