//! The doubles of the library against those of the machine.
use bbr3::double::Double;
use bbr3::time::{Duration, Instant};

fn d(x: f64) -> Double {
    Double { bits: x.to_bits() }
}

/// All values that are not numbers count as one.
fn same(a: Double, b: f64) -> bool {
    let a = f64::from_bits(a.bits);
    (a.is_nan() && b.is_nan()) || a.to_bits() == b.to_bits()
}

/// A small generator of test values.
struct Values {
    state: u64,
}

impl Values {
    fn next(&mut self) -> u64 {
        self.state = self.state.wrapping_mul(6364136223846793005).wrapping_add(1442695040888963407);
        let x = self.state;
        (x ^ (x >> 33)).wrapping_mul(0xff51afd7ed558ccd) ^ (x >> 29)
    }

    /// Any double, with exponents of every size.
    fn any(&mut self) -> f64 {
        f64::from_bits(self.next())
    }

    /// A double of a size that rates and volumes have.
    fn usual(&mut self) -> f64 {
        let whole = self.next() >> (self.next() % 64);
        let scale = [1.0, 0.001, 1e-9, 0.7, 1.25, 2.773, 1e9][(self.next() % 7) as usize];
        whole as f64 * scale
    }
}

const EDGES: [f64; 24] = [
    0.0,
    -0.0,
    1.0,
    -1.0,
    0.5,
    -0.5,
    1.5,
    2.5,
    0.02,
    0.7,
    0.15,
    4503599627370495.5,
    4503599627370496.5,
    9007199254740992.0,
    18446744073709549568.0,
    18446744073709551616.0,
    f64::MAX,
    f64::MIN_POSITIVE,
    5e-324,
    -5e-324,
    2.2250738585072009e-308,
    f64::INFINITY,
    f64::NEG_INFINITY,
    f64::NAN,
];

fn check_pair(x: f64, y: f64) {
    assert!(same(d(x).times(d(y)), x * y), "{x:e} * {y:e}");
    assert!(same(d(x).over(d(y)), x / y), "{x:e} / {y:e}");
    assert!(same(d(x).plus(d(y)), x + y), "{x:e} + {y:e}");
    assert!(same(d(x).minus(d(y)), x - y), "{x:e} - {y:e}");
    assert_eq!(d(x).is_less(d(y)), x < y, "{x:e} < {y:e}");
    assert_eq!(d(x).is_at_most(d(y)), x <= y, "{x:e} <= {y:e}");
    if x != y {
        assert!(same(d(x).max_with(d(y)), x.max(y)), "max({x:e}, {y:e})");
        assert!(same(d(x).min_with(d(y)), x.min(y)), "min({x:e}, {y:e})");
    }
}

fn check_one(x: f64) {
    assert_eq!(d(x).to_u64(), x as u64, "{x:e} as u64");
    assert_eq!(d(x).round_to_u64(), x.round() as u64, "round({x:e})");
    assert_eq!(d(x).is_nan(), x.is_nan());
    assert_eq!(d(x).is_infinite(), x.is_infinite());
    assert_eq!(d(x).is_negative(), x.is_sign_negative());
}

#[test]
fn arithmetic_agrees_on_edges() {
    for &x in EDGES.iter() {
        check_one(x);
        for &y in EDGES.iter() {
            check_pair(x, y);
        }
    }
}

#[test]
fn arithmetic_agrees_on_any_bits() {
    let mut values = Values { state: 1 };
    for _ in 0..200_000 {
        let x = values.any();
        let y = values.any();
        check_one(x);
        check_pair(x, y);
        // Exponents close to each other, so that sums cancel and carry.
        let shift = (values.next() % 120) as i64 - 60;
        let near = (x.to_bits() as i64).wrapping_add(shift << 52) as u64;
        check_pair(x, f64::from_bits(near ^ (values.next() >> 12)));
        check_pair(x, -f64::from_bits(near ^ (values.next() >> 52)));
    }
}

#[test]
fn arithmetic_agrees_on_usual_values() {
    let mut values = Values { state: 2 };
    for _ in 0..200_000 {
        let x = values.usual();
        let y = values.usual();
        check_one(x);
        check_pair(x, y);
        check_one(x + 0.5);
    }
}

#[test]
fn integers_and_ratios_agree() {
    let mut values = Values { state: 3 };
    for n in [0, 1, 2, 3, u64::MAX, u64::MAX - 1, 1 << 53, (1 << 53) + 1, (1 << 53) + 3, 1 << 63] {
        assert!(same(Double::from_u64(n), n as f64), "{n}");
    }
    for _ in 0..200_000 {
        let n = values.next() >> (values.next() % 64);
        assert!(same(Double::from_u64(n), n as f64), "{n}");
        let wide = (values.next() as u128) << (values.next() % 63);
        assert!(same(Double::from_u128(wide), wide as f64), "{wide}");
        // Both are exact below two to the 53rd, so the quotient is rounded once.
        let p = values.next() >> 11;
        let q = (values.next() >> 11).max(1);
        assert!(same(Double::ratio(p, q), p as f64 / q as f64), "{p} / {q}");
    }
}

/// Integers below two to the 53rd come back unchanged and keep their order.
#[test]
fn small_integers_are_exact() {
    let mut values = Values { state: 4 };
    for _ in 0..10_000 {
        let a = values.next() >> 11;
        let b = values.next() >> 11;
        assert_eq!(Double::from_u64(a).to_u64(), a);
        assert_eq!(Double::from_u64(a).round_to_u64(), a);
        assert_eq!(Double::from_u64(a).is_less(Double::from_u64(b)), a < b);
        assert_eq!(Double::from_u64(a).is_at_most(Double::from_u64(b)), a <= b);
    }
    assert_ne!(Double::from_u64((1 << 53) + 1).to_u64(), (1 << 53) + 1);
}

#[test]
fn constants_are_the_nearest_doubles() {
    assert!(same(bbr3::params::startup_pacing_gain(), 2.773));
    assert!(same(bbr3::params::default_pacing_gain(), 1.0));
    assert!(same(bbr3::params::probe_bw_down_pacing_gain(), 0.9));
    assert!(same(bbr3::params::probe_bw_up_pacing_gain(), 1.25));
    assert!(same(bbr3::params::pacing_margin_percent(), 1.0));
    assert!(same(bbr3::params::default_cwnd_gain(), 2.0));
    assert!(same(bbr3::params::drain_pacing_gain(), 1.0 / 2.0));
    assert!(same(bbr3::params::probe_bw_up_cwnd_gain(), 2.25));
    assert!(same(bbr3::params::probe_rtt_cwnd_gain(), 0.5));
    assert!(same(bbr3::params::loss_thresh(), 0.02));
    assert!(same(bbr3::params::beta(), 0.7));
    assert!(same(bbr3::params::headroom(), 0.15));
    assert!(same(bbr3::params::full_bw_growth(), 1.25));
    assert!(same(bbr3::params::nominal_rtt(), 0.001));
    assert!(same(Double::positive_zero(), 0.0));
    assert!(same(Double::positive_infinity(), f64::INFINITY));
}

#[test]
fn seconds_agree() {
    let mut values = Values { state: 5 };
    for _ in 0..100_000 {
        let secs = values.next() >> (values.next() % 64);
        let nanos = (values.next() % 1_000_000_000) as u32;
        let ours = Duration { nanos: secs as u128 * 1_000_000_000 + nanos as u128 };
        let std = std::time::Duration::new(secs, nanos);
        assert!(same(ours.as_seconds(), std.as_secs_f64()), "{std:?}");
    }
    assert!(same(Duration::from_millis(25).as_seconds(), 0.025));
}

#[test]
fn instants_do_not_go_back() {
    let early = Instant { nanos: 5 };
    let late = Instant { nanos: 12 };
    assert_eq!(late.duration_since(early), Duration::from_nanos(7));
    assert_eq!(early.duration_since(late), Duration::from_nanos(0));
    assert_eq!(early.checked_add(Duration::from_nanos(7)), Some(late));
    assert_eq!(early.add_or_same(Duration::from_nanos(7)), late);
    let last = Instant { nanos: u128::MAX };
    assert_eq!(last.checked_add(Duration::from_nanos(1)), None);
    assert_eq!(last.add_or_same(Duration::from_secs(1)), last);
}
