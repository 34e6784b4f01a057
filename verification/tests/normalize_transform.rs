use digit_canvas::normalize::{normalize, normalize_value, NORM_MEAN, NORM_SCALE};
use digit_canvas::FIXED_ONE;

#[test]
fn binary_intensities_normalize_to_plus_minus_one() {
    let raw = vec![0, FIXED_ONE, 0, FIXED_ONE];
    let out = normalize(&raw, NORM_MEAN, NORM_SCALE);
    assert_eq!(out, vec![-FIXED_ONE, FIXED_ONE, -FIXED_ONE, FIXED_ONE]);
}

#[test]
fn normalize_is_invertible_on_exact_inputs() {
    // With the standard mean and scale of one half the division is exact,
    // so multiplying back by the scale and adding the mean recovers the raw
    // intensity: out * scale / FIXED_ONE + mean == raw.
    for raw in [0, FIXED_ONE] {
        let out = normalize_value(raw, NORM_MEAN, NORM_SCALE);
        assert_eq!(out * NORM_SCALE / FIXED_ONE + NORM_MEAN, raw);
    }
    // Another exact parameterization: mean 200, scale 100.
    for raw in [-300, 0, 200, 1000] {
        let out = normalize_value(raw, 200, 100);
        assert_eq!(out * 100 / FIXED_ONE + 200, raw);
    }
}

#[test]
fn normalize_keeps_length_and_order() {
    let raw = vec![0, 250, 500, 750, FIXED_ONE];
    let out = normalize(&raw, NORM_MEAN, NORM_SCALE);
    assert_eq!(out.len(), raw.len());
    assert_eq!(out, vec![-FIXED_ONE, -500, 0, 500, FIXED_ONE]);
}

#[test]
fn inexact_quotients_floor_toward_negative_infinity() {
    // (7 - 0) * 1000 / 3 floors to 2333.
    assert_eq!(normalize_value(7, 0, 3), 2333);
    // (1 - 2) * 1000 / 3 floors to -334, not -333.
    assert_eq!(normalize_value(1, 2, 3), -334);
}

#[test]
fn identity_parameters_rescale_into_thousandths() {
    assert_eq!(normalize_value(5, 0, FIXED_ONE), 5);
    assert_eq!(normalize_value(-5, 0, FIXED_ONE), -5);
    assert_eq!(normalize_value(5, 0, 1), 5000);
}
