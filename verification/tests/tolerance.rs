use matcalc::utils::nearly_equal;

fn b(x: f64) -> u64 {
    x.to_bits()
}

#[test]
fn exact_equality_short_circuits() {
    assert!(nearly_equal(b(3.5), b(3.5)));
    assert!(nearly_equal(b(f64::INFINITY), b(f64::INFINITY)));
}

#[test]
fn the_two_zeros_are_equal() {
    assert!(nearly_equal(b(0.0), b(-0.0)));
    assert!(nearly_equal(b(0.0), b(0.0)));
}

#[test]
fn relative_error_below_epsilon_is_equal() {
    assert!(nearly_equal(b(1.0), b(1.0 + 1e-14)));
    assert!(nearly_equal(b(1e6), b(1e6 + 1e-7)));
}

#[test]
fn clearly_different_values_are_not_equal() {
    assert!(!nearly_equal(b(1.0), b(1.01)));
    assert!(!nearly_equal(b(1.0), b(-1.0)));
    assert!(!nearly_equal(b(100.0), b(101.0)));
}

#[test]
fn near_zero_uses_the_absolute_threshold() {
    // Against an exact zero the absolute difference is measured against
    // EPSILON times the smallest positive normal double, a subnormal
    // threshold around 2.2e-320.
    assert!(nearly_equal(b(1e-321), b(0.0)));
    assert!(!nearly_equal(b(1e-13), b(0.0)));
    assert!(!nearly_equal(b(1e-300), b(0.0)));
}

#[test]
fn tiny_magnitudes_compare_absolutely() {
    // Both operands far below the smallest normal double: the same
    // absolute threshold applies.
    assert!(nearly_equal(b(1e-310 + 1e-321), b(1e-310)));
}

#[test]
fn nan_is_not_equal_to_anything() {
    assert!(!nearly_equal(b(f64::NAN), b(f64::NAN)));
    assert!(!nearly_equal(b(f64::NAN), b(0.0)));
}
