//! Tests of the fixed-point color conversions.

use light_rs_core::{ColorRGB, ColorXY};

const SCALE: i64 = 10_000_000;

#[test]
fn rgb_to_xy_gray_exact() {
    let c = ColorRGB { r: 5_000_000, g: 5_000_000, b: 5_000_000 };
    let xy = c.as_xy();
    assert_eq!(xy, ColorXY { x: 3_127_300, y: 3_290_198, bri: 543_664_140 });
}

#[test]
fn rgb_to_xy_matches_real_arithmetic() {
    // The fixed-point pipeline tracks the same formulas evaluated in
    // floating point to well under one part in ten thousand.
    let c = ColorRGB { r: 5_000_000, g: 5_000_000, b: 5_000_000 };
    let xy = c.as_xy();
    let x = xy.x as f64 / SCALE as f64;
    let y = xy.y as f64 / SCALE as f64;
    let bri = xy.bri as f64 / SCALE as f64;
    assert!((x - 0.312730).abs() < 1e-4);
    assert!((y - 0.329020).abs() < 1e-4);
    assert!((bri - 54.36645).abs() < 1e-3);
}

#[test]
fn rgb_to_xy_pure_black_is_defined() {
    // X + Y + Z is zero for black; the conversion must not divide by it.
    let c = ColorRGB { r: 0, g: 0, b: 0 };
    let xy = c.as_xy();
    assert_eq!(xy, ColorXY { x: 0, y: 0, bri: 0 });
}

#[test]
fn rgb_to_xy_red_exact() {
    let c = ColorRGB { r: SCALE, g: 0, b: 0 };
    let xy = c.as_xy();
    assert_eq!(xy, ColorXY { x: 7_350_000, y: 2_649_999, bri: 595_190_580 });
}

#[test]
fn rgb_to_xy_white_exact() {
    let c = ColorRGB { r: SCALE, g: SCALE, b: SCALE };
    let xy = c.as_xy();
    assert_eq!(xy, ColorXY { x: 3_127_301, y: 3_290_198, bri: 2_540_000_000 });
}

#[test]
fn xy_to_rgb_zero_y_falls_back_to_black() {
    let xy = ColorXY { x: 3_000_000, y: 0, bri: 500_000_000 };
    let rgb = xy.as_rgb();
    assert_eq!(rgb, ColorRGB { r: 0, g: 0, b: 0 });
}

#[test]
fn xy_to_rgb_exact_and_unclamped() {
    // The backward conversion takes the brightness channel on its
    // 0..254 scale and does not clamp: components above 1.0 remain.
    let xy = ColorXY { x: 3_000_000, y: 3_000_000, bri: 500_000_000 };
    let rgb = xy.as_rgb();
    assert_eq!(rgb, ColorRGB { r: 51_290_869, g: 53_647_965, b: 65_889_002 });
    assert!(rgb.r > SCALE && rgb.g > SCALE && rgb.b > SCALE);
}

#[test]
fn black_round_trips_exactly() {
    let c = ColorRGB { r: 0, g: 0, b: 0 };
    let back = c.as_xy().as_rgb();
    assert_eq!(back, c);
}

#[test]
fn colorxy_new_matches_as_xy() {
    let xy = ColorXY::new(&[5_000_000, 5_000_000, 5_000_000]);
    let via = ColorRGB { r: 5_000_000, g: 5_000_000, b: 5_000_000 }.as_xy();
    assert_eq!(xy, via);
}
