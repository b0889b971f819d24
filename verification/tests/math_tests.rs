use flycam::fx::{clamp_e, fx_div_e, fx_mul_e, isqrt_u64, FX_ONE};
use flycam::trig::{cos_fx_e, sin_fx_e, wrap_to_pi_e, FX_HALF_PI, FX_PI, FX_TWO_PI};

#[test]
fn fx_mul_basics() {
    assert_eq!(fx_mul_e(500_000, 500_000), 250_000);
    assert_eq!(fx_mul_e(FX_ONE, 123_456), 123_456);
    assert_eq!(fx_mul_e(-1, 1), 0);
    assert_eq!(fx_mul_e(-1_500_000, 1), -1);
    assert_eq!(fx_mul_e(2_000_000, -3_000_000), -6_000_000);
}

#[test]
fn fx_div_basics() {
    assert_eq!(fx_div_e(2_414_214, 10_000), 241_421_400);
    assert_eq!(fx_div_e(1_000_000, 3_000_000), 333_333);
    assert_eq!(fx_div_e(-1_000_000, 3_000_000), -333_333);
}

#[test]
fn clamp_basics() {
    assert_eq!(clamp_e(5, 0, 10), 5);
    assert_eq!(clamp_e(-5, 0, 10), 0);
    assert_eq!(clamp_e(15, 0, 10), 10);
}

#[test]
fn isqrt_values() {
    assert_eq!(isqrt_u64(0), 0);
    assert_eq!(isqrt_u64(1), 1);
    assert_eq!(isqrt_u64(999_999), 999);
    assert_eq!(isqrt_u64(1_000_000), 1000);
    assert_eq!(isqrt_u64(2_000_000_000_000), 1_414_213);
}

#[test]
fn sin_exact_points() {
    assert_eq!(sin_fx_e(0), 0);
    assert_eq!(sin_fx_e(FX_HALF_PI), FX_ONE);
    assert_eq!(sin_fx_e(FX_PI), 0);
    assert_eq!(sin_fx_e(-FX_HALF_PI), -FX_ONE);
}

#[test]
fn cos_exact_points() {
    assert_eq!(cos_fx_e(0), FX_ONE);
    assert_eq!(cos_fx_e(FX_HALF_PI), 0);
    assert_eq!(cos_fx_e(FX_PI), -FX_ONE);
    assert_eq!(cos_fx_e(-FX_PI), -FX_ONE);
}

#[test]
fn sin_is_odd() {
    for &x in &[100_000i64, 523_599, 1_000_000, 3_000_000] {
        assert_eq!(sin_fx_e(-x), -sin_fx_e(x));
    }
}

#[test]
fn sin_near_true_value() {
    // sin(pi/6) = 0.5; the quadratic approximation is within 0.2 percent.
    let s = sin_fx_e(523_599);
    assert!((s - 500_000).abs() < 2_000, "sin(pi/6) approx {s}");
    // sin(pi/4) = 0.70711.
    let s = sin_fx_e(785_398);
    assert!((s - 707_107).abs() < 2_000, "sin(pi/4) approx {s}");
}

#[test]
fn wrap_angle() {
    assert_eq!(wrap_to_pi_e(0), 0);
    assert_eq!(wrap_to_pi_e(500_000), 500_000);
    assert_eq!(wrap_to_pi_e(FX_PI), -FX_PI);
    assert_eq!(wrap_to_pi_e(7_000_000), 7_000_000 - FX_TWO_PI);
    assert_eq!(wrap_to_pi_e(-7_000_000), FX_TWO_PI - 7_000_000);
    assert_eq!(wrap_to_pi_e(FX_TWO_PI * 3 + 1), 1);
}
