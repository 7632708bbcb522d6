//! Tests of the arithmetic against the machine's own.
use hares_water_heater::Double;

fn d(x: f64) -> Double {
    Double { bits: x.to_bits() }
}

fn f(x: Double) -> f64 {
    f64::from_bits(x.bits)
}

fn agree(label: &str, x: f64, y: f64, ours: Double, machine: f64) {
    let same = ours.bits == machine.to_bits() || (f(ours).is_nan() && machine.is_nan());
    assert!(same, "{label} of {x:?} and {y:?}: {:?}, not {machine:?}", f(ours));
}

/// A generator of bit patterns that repeats from run to run.
struct Bits(u64);

impl Bits {
    fn next(&mut self) -> u64 {
        self.0 ^= self.0 << 13;
        self.0 ^= self.0 >> 7;
        self.0 ^= self.0 << 17;
        self.0
    }

    /// Any double, or one of a size that heaters see.
    fn double(&mut self) -> f64 {
        let raw = self.next();
        match self.next() % 3 {
            0 => f64::from_bits(raw),
            1 => (raw % 2_000_001) as f64 / 1000.0 - 1000.0,
            _ => f64::from_bits((raw & 0x800f_ffff_ffff_ffff) | (1000 + raw % 46) << 52),
        }
    }
}

fn corners() -> Vec<f64> {
    let mut out = vec![
        0.0,
        1.0,
        1.5,
        2.0,
        3.0,
        0.1,
        1e-300,
        1e300,
        f64::MIN_POSITIVE,
        f64::from_bits(1),
        f64::from_bits(0x000f_ffff_ffff_ffff),
        f64::MAX,
        f64::INFINITY,
        f64::EPSILON,
        1.0 + f64::EPSILON,
        1.0 - f64::EPSILON / 2.0,
        4503599627370495.5,
        9007199254740993.0,
    ];
    let negative: Vec<f64> = out.iter().map(|x| -*x).collect();
    out.extend(negative);
    out.push(f64::NAN);
    out
}

fn compare(x: f64, y: f64) {
    let (a, b) = (d(x), d(y));
    agree("plus", x, y, a.plus(b), x + y);
    agree("minus", x, y, a.minus(b), x - y);
    agree("times", x, y, a.times(b), x * y);
    agree("over", x, y, a.over(b), x / y);
    agree("sqrt", x, x, a.sqrt(), x.sqrt());
    assert_eq!(a.lt(b), x < y);
    assert_eq!(a.le(b), x <= y);
    assert_eq!(a.gt(b), x > y);
    assert_eq!(a.ge(b), x >= y);
    assert_eq!(a.same(b), x == y);
    assert_eq!(a.is_nan(), x.is_nan());
    assert_eq!(a.is_finite(), x.is_finite());
    assert!(f(a.max(b)) == x.max(y) || (x.is_nan() && y.is_nan()));
    assert!(f(a.min(b)) == x.min(y) || (x.is_nan() && y.is_nan()));
    agree("abs", x, x, a.abs(), x.abs());
    agree("negate", x, x, a.negate(), -x);
}

#[test]
fn arithmetic_agrees_on_corner_values() {
    for x in corners() {
        for y in corners() {
            compare(x, y);
        }
    }
}

#[test]
fn arithmetic_agrees_on_many_values() {
    let mut bits = Bits(0x9e37_79b9_7f4a_7c15);
    for _ in 0..200_000 {
        let x = bits.double();
        let y = bits.double();
        compare(x, y);
    }
}

#[test]
fn sums_near_cancellation_agree() {
    let mut bits = Bits(0x1234_5678_9abc_def1);
    for _ in 0..50_000 {
        let x = bits.double();
        let near = f64::from_bits(x.to_bits() ^ (bits.next() % 8));
        compare(x, near);
        compare(x, -near);
        compare(x, near * f64::EPSILON);
    }
}

#[test]
fn whole_numbers_and_ratios_are_nearest() {
    for n in [0u64, 1, 2, 10, 86_400, (1 << 53) + 1, u64::MAX] {
        assert_eq!(f(Double::whole(n)), n as f64);
    }
    assert_eq!(f(Double::ratio(1, 10)), 0.1);
    assert_eq!(f(Double::ratio(1, 3)), 1.0 / 3.0);
    assert_eq!(f(Double::ratio(516_666_667, 10_000_000)), 51.6666667);
    assert_eq!(f(Double::ratio(5_555_555_556, 1_000_000_000)), 5.555555556);
    assert_eq!(f(Double::ratio(1, 1_000_000_000)), 1e-9);
    assert_eq!(f(Double::zero()), 0.0);
    assert_eq!(f(Double::one()), 1.0);
    assert_eq!(f(Double::neg_infinity()), f64::NEG_INFINITY);
    assert!(f(Double::nan()).is_nan());
}

#[test]
fn clamps_keep_to_their_bounds() {
    assert_eq!(f(d(5.0).clamp(d(0.0), d(1.0))), 1.0);
    assert_eq!(f(d(-5.0).clamp(d(0.0), d(1.0))), 0.0);
    assert_eq!(f(d(0.25).clamp(d(0.0), d(1.0))), 0.25);
    assert!(f(d(f64::NAN).clamp(d(0.0), d(1.0))).is_nan());
}

#[test]
fn whole_parts_are_recognised() {
    for (x, whole) in [
        (0.0, true),
        (-0.0, true),
        (2.0, true),
        (2.5, false),
        (1e20, true),
        (0.999, false),
        (4503599627370495.5, false),
        (-3.0, true),
    ] {
        assert_eq!(d(x).is_whole(), whole, "{x}");
    }
    assert_eq!(d(7.0).to_usize(), 7);
    assert_eq!(d(7.9).to_usize(), 7);
    assert_eq!(d(1e30).to_usize(), usize::MAX);
}
