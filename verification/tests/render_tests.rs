//! Tests of the fixed-point decimal rendering.

use light_rs_core::render::{dec_string, udec_string};

#[test]
fn integers_render_with_one_fraction_digit() {
    assert_eq!(dec_string(500_000_000), "50.0");
    assert_eq!(dec_string(0), "0.0");
    assert_eq!(dec_string(10_000_000), "1.0");
}

#[test]
fn fractions_drop_trailing_zeros_only() {
    assert_eq!(dec_string(5_000_000), "0.5");
    assert_eq!(dec_string(2_500_000), "0.25");
    assert_eq!(dec_string(1_234_567), "0.1234567");
    assert_eq!(dec_string(31_308), "0.0031308");
    assert_eq!(dec_string(1_010_000_000), "101.0");
}

#[test]
fn negative_values_carry_a_sign() {
    assert_eq!(dec_string(-2_500_000), "-0.25");
    assert_eq!(dec_string(-500_000_000), "-50.0");
}

#[test]
fn plain_digits() {
    assert_eq!(udec_string(0), "0");
    assert_eq!(udec_string(7), "7");
    assert_eq!(udec_string(1234567890), "1234567890");
}
