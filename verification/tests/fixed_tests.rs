//! Tests of the fixed-point arithmetic kernel.

use light_rs_core::fixed::{cbrt_fp, gamma_compress, gamma_expand, root5_fp, sqrt_fp, SCALE};

#[test]
fn floor_roots_are_exact_on_perfect_powers() {
    assert_eq!(sqrt_fp(0), 0);
    assert_eq!(sqrt_fp(1), 1);
    assert_eq!(sqrt_fp(100_000_000_000_000), 10_000_000);
    assert_eq!(cbrt_fp(1_000_000_000_000_000_000_000), 10_000_000);
    assert_eq!(root5_fp(100_000_000_000_000_000_000_000_000_000_000_000), 10_000_000);
}

#[test]
fn floor_roots_round_down() {
    assert_eq!(sqrt_fp(99_999_999_999_999), 9_999_999);
    assert_eq!(sqrt_fp(100_000_000_000_001), 10_000_000);
    assert_eq!(cbrt_fp(7), 1);
    assert_eq!(root5_fp(31), 1);
    assert_eq!(root5_fp(32), 2);
}

#[test]
fn gamma_expand_fixes_zero_and_one() {
    assert_eq!(gamma_expand(0), 0);
    assert_eq!(gamma_expand(SCALE), SCALE);
}

#[test]
fn gamma_expand_is_linear_below_the_knee() {
    // 0.04045 / 12.92, rounded down in fixed point.
    assert_eq!(gamma_expand(404_500), 404_500 * SCALE / 129_200_000);
    assert_eq!(gamma_expand(129_200), 10_000);
}

#[test]
fn gamma_compress_fixes_zero_and_one() {
    assert_eq!(gamma_compress(0), 0);
    assert_eq!(gamma_compress(SCALE), SCALE);
}

#[test]
fn gamma_compress_is_linear_below_the_knee() {
    assert_eq!(gamma_compress(20_000), 258_400);
    assert_eq!(gamma_compress(-50_000), -646_000);
}

#[test]
fn gamma_functions_invert_each_other_closely() {
    // Inside [0, 1] the two gamma curves are mutual inverses up to the
    // fixed-point granularity.
    for c in [100_000i64, 1_000_000, 2_500_000, 5_000_000, 7_500_000, 9_900_000] {
        let back = gamma_compress(gamma_expand(c));
        assert!((back - c).abs() <= 20, "{} -> {}", c, back);
    }
}
