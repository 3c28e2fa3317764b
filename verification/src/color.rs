//! Conversion between gamma-encoded RGB and the CIE xy chromaticity +
//! brightness representation that the bridge speaks, in fixed point.
//!
//! The conversion follows the classic lighting-SDK pipeline: inverse
//! gamma per channel, a fixed 3x3 matrix to XYZ, then normalization to
//! (x, y) with `brightness = Y * 254`; and its inverse with the given
//! (wide-gamut) back matrix.  The back conversion deliberately does not
//! clamp its result to [0, 1].

use vstd::arithmetic::div_mod::{lemma_div_is_ordered, lemma_div_multiples_vanish, lemma_div_nonincreasing};
use vstd::prelude::*;

use crate::fixed::{gamma_compress, gamma_expand, spec_gamma_compress, spec_gamma_expand, tdiv, SCALE};

verus! {

/// A gamma-encoded RGB color.  Components are fixed-point values
/// (`SCALE` is 1.0), nominally in `[0, SCALE]`.
#[derive(Debug, Clone, Copy, PartialEq, Eq, Structural)]
pub struct ColorRGB {
    pub r: i64,
    pub g: i64,
    pub b: i64,
}

/// A device-native color: CIE xy chromaticity in `[0, SCALE]` each,
/// plus a brightness channel.
#[derive(Debug, Clone, Copy, PartialEq, Eq, Structural)]
pub struct ColorXY {
    pub x: i64,
    pub y: i64,
    pub bri: i64,
}

/// A color in either representation.
#[derive(Debug, Clone, Copy)]
pub enum Color {
    XY(ColorXY),
    RGB(ColorRGB),
}

/// XYZ tristimulus values of a linear RGB triple, by the forward matrix.
pub open spec fn spec_xyz_of_linear(rl: int, gl: int, bl: int) -> (int, int, int) {
    (
        (rl * 6_499_260 + gl * 1_034_550 + bl * 1_971_090) / 10_000_000,
        (rl * 2_343_270 + gl * 7_430_750 + bl * 225_980) / 10_000_000,
        (gl * 530_770 + bl * 10_357_630) / 10_000_000,
    )
}

/// The whole forward pipeline: gamma expansion, matrix, normalization.
/// A pure black input (X + Y + Z = 0) maps to (0, 0, 0).
pub open spec fn spec_rgb_to_xy(r: int, g: int, b: int) -> (int, int, int) {
    let rl: int = spec_gamma_expand(r);
    let gl: int = spec_gamma_expand(g);
    let bl: int = spec_gamma_expand(b);
    let xyz: (int, int, int) = spec_xyz_of_linear(rl, gl, bl);
    let total: int = xyz.0 + xyz.1 + xyz.2;
    if total == 0 {
        (0, 0, 0)
    } else {
        (xyz.0 * 10_000_000 / total, xyz.1 * 10_000_000 / total, xyz.1 * 254)
    }
}

/// The whole backward pipeline: reconstruct XYZ from (x, y, brightness),
/// apply the back matrix, compress each channel.  A zero `y` (which
/// would divide by zero) maps to black.
pub open spec fn spec_xy_to_rgb(x: int, y: int, bri: int) -> (int, int, int) {
    if y == 0 {
        (0, 0, 0)
    } else {
        let z: int = 10_000_000 - x - y;
        let xx: int = bri * x / y;
        let zz: int = tdiv(bri * z, y);
        let rl: int = tdiv(xx * 14_628_067 - bri * 1_840_623 - zz * 2_743_606, 10_000_000);
        let gl: int = tdiv(-xx * 5_217_933 + bri * 14_472_381 + zz * 677_227, 10_000_000);
        let bl: int = tdiv(xx * 349_342 - bri * 968_930 + zz * 12_884_099, 10_000_000);
        (spec_gamma_compress(rl), spec_gamma_compress(gl), spec_gamma_compress(bl))
    }
}

/// `bri * c / y` with truncation toward zero; `c` may be negative.
fn scale_ratio(bri: i64, c: i64, y: i64) -> (q: i64)
    requires
        0 <= bri <= 10_000_000_000,
        -10_000_000 <= c <= 10_000_000,
        1 <= y <= 10_000_000,
    ensures
        q == tdiv(bri as int * c as int, y as int),
        -100_000_000_000_000_000 <= q <= 100_000_000_000_000_000,
{
    if c >= 0 {
        proof {
            assert(bri as int * c as int <= 100_000_000_000_000_000) by (nonlinear_arith)
                requires
                    0 <= bri as int <= 10_000_000_000,
                    0 <= c as int <= 10_000_000;
            lemma_div_nonincreasing(bri as int * c as int, y as int);
            lemma_div_pos(bri as int * c as int, y as int);
        }
        ((bri as u128) * (c as u128) / (y as u128)) as i64
    } else {
        proof {
            assert(bri as int * (-c) as int <= 100_000_000_000_000_000) by (nonlinear_arith)
                requires
                    0 <= bri as int <= 10_000_000_000,
                    0 <= (-c) as int <= 10_000_000;
            lemma_div_nonincreasing(bri as int * (-c) as int, y as int);
            lemma_div_pos(bri as int * (-c) as int, y as int);
            assert(bri as int * c as int == -(bri as int * (-c) as int)) by (nonlinear_arith);
        }
        -(((bri as u128) * ((-c) as u128) / (y as u128)) as i64)
    }
}

/// Truncating division of a signed wide value by the fixed-point unit.
fn div_scale_trunc(a: i128) -> (q: i128)
    requires
        -100_000_000_000_000_000_000_000_000_000 <= a <= 100_000_000_000_000_000_000_000_000_000,
    ensures
        q == tdiv(a as int, 10_000_000),
{
    if a >= 0 {
        ((a as u128) / 10_000_000) as i128
    } else {
        -((((-a) as u128) / 10_000_000) as i128)
    }
}

impl ColorRGB {
    /// Convert a gamma-encoded RGB color (components in `[0, 1]`) to the
    /// bridge's xy + brightness form.
    pub fn as_xy(&self) -> (res: ColorXY)
        requires
            0 <= self.r <= SCALE,
            0 <= self.g <= SCALE,
            0 <= self.b <= SCALE,
        ensures
            (res.x as int, res.y as int, res.bri as int)
                == spec_rgb_to_xy(self.r as int, self.g as int, self.b as int),
            0 <= res.x <= SCALE,
            0 <= res.y <= SCALE,
            0 <= res.bri <= 254 * SCALE,
            self.r == 0 && self.g == 0 && self.b == 0 ==> res.x == 0 && res.y == 0 && res.bri
                == 0,
    {
        let rl: i64 = gamma_expand(self.r);
        let gl: i64 = gamma_expand(self.g);
        let bl: i64 = gamma_expand(self.b);
        let xs: u128 = (rl as u128 * 6_499_260 + gl as u128 * 1_034_550 + bl as u128 * 1_971_090)
            / 10_000_000;
        let ys: u128 = (rl as u128 * 2_343_270 + gl as u128 * 7_430_750 + bl as u128 * 225_980)
            / 10_000_000;
        let zs: u128 = (gl as u128 * 530_770 + bl as u128 * 10_357_630) / 10_000_000;
        let total: u128 = xs + ys + zs;
        if total == 0 {
            ColorXY { x: 0, y: 0, bri: 0 }
        } else {
            proof {
                lemma_div_is_ordered(xs as int * 10_000_000, total as int * 10_000_000, total as int);
                lemma_div_multiples_vanish(10_000_000, total as int);
                lemma_div_is_ordered(ys as int * 10_000_000, total as int * 10_000_000, total as int);
            }
            let x: i64 = (xs * 10_000_000 / total) as i64;
            let y: i64 = (ys * 10_000_000 / total) as i64;
            let bri: i64 = (ys as i64) * 254;
            ColorXY { x, y, bri }
        }
    }
}

impl ColorXY {
    /// Build the xy + brightness form of an RGB triple given as fixed-point
    /// components in `[0, SCALE]`.
    pub fn new(rgb: &[i64; 3]) -> (res: ColorXY)
        requires
            0 <= rgb[0] <= SCALE,
            0 <= rgb[1] <= SCALE,
            0 <= rgb[2] <= SCALE,
        ensures
            (res.x as int, res.y as int, res.bri as int)
                == spec_rgb_to_xy(rgb[0] as int, rgb[1] as int, rgb[2] as int),
    {
        let c = ColorRGB { r: rgb[0], g: rgb[1], b: rgb[2] };
        c.as_xy()
    }

    /// Convert back to gamma-encoded RGB.  The result is not clamped to
    /// `[0, 1]`; out-of-gamut colors give components outside that range.
    /// A zero `y` gives black rather than dividing by zero.
    #[verifier::rlimit(80)]
    pub fn as_rgb(&self) -> (res: ColorRGB)
        requires
            0 <= self.x <= SCALE,
            0 <= self.y <= SCALE,
            0 <= self.bri <= 1000 * SCALE,
        ensures
            (res.r as int, res.g as int, res.b as int)
                == spec_xy_to_rgb(self.x as int, self.y as int, self.bri as int),
            self.y == 0 ==> res.r == 0 && res.g == 0 && res.b == 0,
    {
        if self.y == 0 {
            ColorRGB { r: 0, g: 0, b: 0 }
        } else {
            let x: i64 = self.x;
            let y: i64 = self.y;
            let bri: i64 = self.bri;
            let z: i64 = SCALE - x - y;
            let xx: i64 = scale_ratio(bri, x, y);
            let zz: i64 = scale_ratio(bri, z, y);
            let rl: i128 = div_scale_trunc(
                xx as i128 * 14_628_067 - bri as i128 * 1_840_623 - zz as i128 * 2_743_606,
            );
            let gl: i128 = div_scale_trunc(
                -(xx as i128) * 5_217_933 + bri as i128 * 14_472_381 + zz as i128 * 677_227,
            );
            let bl: i128 = div_scale_trunc(
                xx as i128 * 349_342 - bri as i128 * 968_930 + zz as i128 * 12_884_099,
            );
            let r: i64 = gamma_compress(rl as i64);
            let g: i64 = gamma_compress(gl as i64);
            let b: i64 = gamma_compress(bl as i64);
            ColorRGB { r, g, b }
        }
    }
}

/// Pure black round-trips exactly: the forward conversion of black is
/// (0, 0, 0), and the backward conversion of (0, 0, 0) is black again.
/// (General colors are not guaranteed to round-trip: the backward
/// matrix is not the inverse of the forward one, and the brightness
/// channel re-enters the backward conversion on its 0..254 scale.)
pub proof fn lemma_black_round_trip()
    ensures
        spec_rgb_to_xy(0, 0, 0) == (0int, 0int, 0int),
        spec_xy_to_rgb(0, 0, 0) == (0int, 0int, 0int),
{
    assert(spec_gamma_expand(0) == 0);
}

proof fn lemma_div_pos(a: int, b: int)
    requires
        a >= 0,
        b > 0,
    ensures
        a / b >= 0,
{
    vstd::arithmetic::div_mod::lemma_div_pos_is_pos(a, b);
}

} // verus!
