//! Measurements held as bits, and the windows and tuning made of them.
use yamete::filters::RollingMax;
use yamete::scalar::{Scalar, Scalar64, NEG_INFINITY};
use yamete::tuning::{Config, GyroMode, Thresholds, Tiers};

fn s(x: f32) -> Scalar {
    Scalar { bits: x.to_bits() }
}

fn s64(x: f64) -> Scalar64 {
    Scalar64 { bits: x.to_bits() }
}

fn f(x: Scalar) -> f32 {
    f32::from_bits(x.bits)
}

const VALUES: [f32; 14] = [
    0.0,
    -0.0,
    1.0,
    -1.0,
    0.5,
    1e-45,
    -1e-45,
    1.1754942e-38,
    1.17549435e-38,
    f32::MAX,
    f32::MIN,
    f32::INFINITY,
    f32::NEG_INFINITY,
    f32::NAN,
];

#[test]
fn scalars_compare_as_the_numbers_they_hold() {
    for a in VALUES {
        for b in VALUES {
            assert_eq!(s(a).lt(s(b)), a < b, "{a} < {b}");
            assert_eq!(s(a).ge(s(b)), a >= b, "{a} >= {b}");
            let (x, y) = (f64::from(a), f64::from(b));
            assert_eq!(s64(x).lt(s64(y)), x < y, "{x} < {y}");
            assert_eq!(s64(x).le(s64(y)), x <= y, "{x} <= {y}");
        }
        assert_eq!(s(a).is_nan(), a.is_nan());
        assert_eq!(s64(f64::from(a)).is_nan(), a.is_nan());
    }
}

#[test]
fn extremes_are_as_std_has_them() {
    for a in VALUES {
        for b in VALUES {
            let (x, y) = (f(s(a).max(s(b))), a.max(b));
            assert!(x == y || (x.is_nan() && y.is_nan()), "max {a} {b}");
            let (x, y) = (f(s(a).min(s(b))), a.min(b));
            assert!(x == y || (x.is_nan() && y.is_nan()), "min {a} {b}");
            let (x, y) = (f64::from(a), f64::from(b));
            let z = f64::from_bits(s64(x).max(s64(y)).bits);
            assert!(z == x.max(y) || (z.is_nan() && x.max(y).is_nan()), "max {x} {y}");
        }
    }
}

#[test]
fn widening_keeps_the_number() {
    for a in VALUES {
        let wide = f64::from_bits(s(a).widen().bits);
        assert!(wide == f64::from(a) || (wide.is_nan() && a.is_nan()), "{a} became {wide}");
    }
    assert_eq!(s(0.75).widen(), s64(0.75));
    assert_eq!(s(1e-45).widen(), s64(f64::from(1e-45f32)));
}

#[test]
fn clamping_stays_between_the_bounds() {
    for a in VALUES {
        let (x, y) = (f(s(a).clamp(s(0.0), s(1.0))), a.clamp(0.0, 1.0));
        assert!(x == y || (x.is_nan() && y.is_nan()), "clamp {a}");
    }
}

#[test]
fn a_scalar_becomes_a_byte_by_truncation() {
    for (x, n) in [
        (0.0, 0u8),
        (-3.5, 0),
        (0.99, 0),
        (1.0, 1),
        (2.5, 2),
        (254.99, 254),
        (255.0, 255),
        (256.0, 255),
        (f32::INFINITY, 255),
        (f32::NEG_INFINITY, 0),
        (f32::NAN, 0),
    ] {
        assert_eq!(s(x).to_u8(), n, "{x}");
    }
}

#[test]
fn rolling_max_forgets_old_values() {
    let mut m = RollingMax::new(3);
    m.push(s(1.0));
    m.push(s(9.0));
    m.push(s(2.0));
    assert_eq!(m.max(), s(9.0));

    // Still within the 3-sample window: [9, 2, 3].
    m.push(s(3.0));
    assert_eq!(m.max(), s(9.0));

    // Now the 9.0 has aged out: [2, 3, 4].
    m.push(s(4.0));
    assert_eq!(m.max(), s(4.0), "the 9.0 should have rolled out of the window");
}

#[test]
fn a_window_that_saw_nothing_has_no_maximum() {
    let mut m = RollingMax::new(0);
    assert_eq!(m.max().bits, NEG_INFINITY);
    m.push(s(-4.0));
    assert_eq!(m.max(), s(-4.0));
    m.push(s(-5.0));
    assert_eq!(m.max(), s(-5.0));
    m.reset();
    assert_eq!(m.max().bits, NEG_INFINITY);
}

/// The factor by which the slider moves every gate.
fn sensitivity_scale(c: &Config) -> f32 {
    10f32.powf(-(f(c.sensitivity).clamp(0.0, 1.0) - 0.5) * 2.0 * 1.2 / 2.0)
}

#[test]
fn slider_is_clamped() {
    assert_eq!(Config::default().with_sensitivity(s(-5.0)).sensitivity, s(0.0));
    assert_eq!(Config::default().with_sensitivity(s(99.0)).sensitivity, s(1.0));
    // Out-of-range input must not produce a nonsensical multiplier.
    assert!(sensitivity_scale(&Config::default().with_sensitivity(s(99.0))) > 0.0);
}

#[test]
fn the_tuning_starts_at_its_measured_values() {
    let c = Config::default();
    assert_eq!(c.rate_hz, s(805.0));
    assert_eq!(c.highpass_hz, s(5.0));
    assert_eq!(c.sta_taus, [s(0.005), s(0.015), s(0.040)]);
    assert_eq!(c.lta_tau, s(0.5));
    assert_eq!(
        c.thresholds,
        Thresholds {
            sta_lta: s(15.0),
            cusum: s(200.0),
            kurtosis: s(1100.0),
            peak_mad: s(25.0),
            highpass_g: s(0.035),
        }
    );
    assert_eq!(c.tiers, Tiers { major_g: s(0.30), medium_g: s(0.12), micro_g: s(0.04) });
    assert_eq!(c.cooldown_s, s(0.75));
    assert_eq!(c.peak_hold_s, s(0.006));
    assert_eq!(c.cusum_leak, s(0.95));
    assert_eq!(c.gyro_mode, GyroMode::Require);
    assert_eq!(c.gyro_ratio_min, s(175.0));
    assert_eq!(c.gyro_peak_min, s(15.0));
    assert_eq!(c.gyro_window_s, s(0.030));
    assert_eq!(c.min_votes, 2);
    assert_eq!(c.full_scale_g, s(1.0));
    assert_eq!(c.sensitivity, s(0.5));
}
