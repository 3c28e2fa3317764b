//! Fixed-point arithmetic base for the color conversions.
//!
//! A fixed-point value carries seven decimal places: the unit `SCALE`
//! stands for 1.0, so every constant of the color pipeline (matrix
//! entries, gamma thresholds) is represented exactly.  The fractional
//! powers of the gamma curve (exponents 12/5 and 5/12) are computed
//! from integer floor roots: a square root, a cube root and a fifth
//! root, each characterized exactly by its contract.

use vstd::prelude::*;

verus! {

/// Number of fixed-point units in 1.0 (seven decimal places).
pub const SCALE: i64 = 10_000_000;

pub open spec fn sq(r: int) -> int {
    r * r
}

pub open spec fn cube(r: int) -> int {
    r * r * r
}

pub open spec fn pow5(r: int) -> int {
    r * r * r * r * r
}

/// Largest `r` with `r * r <= v` (0 for negative `v`).
pub open spec fn floor_sqrt(v: int) -> int
    decreases v,
{
    if v <= 0 {
        0
    } else if sq(floor_sqrt(v - 1) + 1) <= v {
        floor_sqrt(v - 1) + 1
    } else {
        floor_sqrt(v - 1)
    }
}

/// Largest `r` with `cube(r) <= v` (0 for negative `v`).
pub open spec fn floor_cbrt(v: int) -> int
    decreases v,
{
    if v <= 0 {
        0
    } else if cube(floor_cbrt(v - 1) + 1) <= v {
        floor_cbrt(v - 1) + 1
    } else {
        floor_cbrt(v - 1)
    }
}

/// Largest `r` with `pow5(r) <= v` (0 for negative `v`).
pub open spec fn floor_root5(v: int) -> int
    decreases v,
{
    if v <= 0 {
        0
    } else if pow5(floor_root5(v - 1) + 1) <= v {
        floor_root5(v - 1) + 1
    } else {
        floor_root5(v - 1)
    }
}

proof fn lemma_sq_increases(a: int, b: int)
    by (nonlinear_arith)
    requires
        0 <= a <= b,
    ensures
        sq(a) <= sq(b),
{
}

proof fn lemma_cube_increases(a: int, b: int)
    by (nonlinear_arith)
    requires
        0 <= a <= b,
    ensures
        cube(a) <= cube(b),
{
}

proof fn lemma_pow5_increases(a: int, b: int)
    by (nonlinear_arith)
    requires
        0 <= a <= b,
    ensures
        pow5(a) <= pow5(b),
{
}

pub proof fn lemma_floor_sqrt(v: int)
    requires
        v >= 0,
    ensures
        0 <= floor_sqrt(v),
        sq(floor_sqrt(v)) <= v,
        v < sq(floor_sqrt(v) + 1),
    decreases v,
{
    if v == 0 {
        assert(sq(0) == 0);
        assert(sq(1) == 1);
    } else {
        lemma_floor_sqrt(v - 1);
        let r = floor_sqrt(v - 1);
        if sq(r + 1) <= v {
            lemma_sq_increases(r + 1, r + 2);
            assert(sq(r + 1) < sq(r + 2)) by (nonlinear_arith)
                requires r >= 0;
        }
    }
}

pub proof fn lemma_floor_sqrt_unique(v: int, r: int)
    requires
        v >= 0,
        0 <= r,
        sq(r) <= v,
        v < sq(r + 1),
    ensures
        r == floor_sqrt(v),
{
    lemma_floor_sqrt(v);
    let f = floor_sqrt(v);
    if r < f {
        lemma_sq_increases(r + 1, f);
    } else if f < r {
        lemma_sq_increases(f + 1, r);
    }
}

pub proof fn lemma_floor_cbrt(v: int)
    requires
        v >= 0,
    ensures
        0 <= floor_cbrt(v),
        cube(floor_cbrt(v)) <= v,
        v < cube(floor_cbrt(v) + 1),
    decreases v,
{
    if v == 0 {
        assert(cube(0) == 0);
        assert(cube(1) == 1);
    } else {
        lemma_floor_cbrt(v - 1);
        let r = floor_cbrt(v - 1);
        if cube(r + 1) <= v {
            assert(cube(r + 1) < cube(r + 2)) by (nonlinear_arith)
                requires r >= 0;
        }
    }
}

pub proof fn lemma_floor_cbrt_unique(v: int, r: int)
    requires
        v >= 0,
        0 <= r,
        cube(r) <= v,
        v < cube(r + 1),
    ensures
        r == floor_cbrt(v),
{
    lemma_floor_cbrt(v);
    let f = floor_cbrt(v);
    if r < f {
        lemma_cube_increases(r + 1, f);
    } else if f < r {
        lemma_cube_increases(f + 1, r);
    }
}

pub proof fn lemma_floor_root5(v: int)
    requires
        v >= 0,
    ensures
        0 <= floor_root5(v),
        pow5(floor_root5(v)) <= v,
        v < pow5(floor_root5(v) + 1),
    decreases v,
{
    if v == 0 {
        assert(pow5(0) == 0);
        assert(pow5(1) == 1);
    } else {
        lemma_floor_root5(v - 1);
        let r = floor_root5(v - 1);
        if pow5(r + 1) <= v {
            assert(pow5(r + 1) < pow5(r + 2)) by (nonlinear_arith)
                requires r >= 0;
        }
    }
}

pub proof fn lemma_floor_root5_unique(v: int, r: int)
    requires
        v >= 0,
        0 <= r,
        pow5(r) <= v,
        v < pow5(r + 1),
    ensures
        r == floor_root5(v),
{
    lemma_floor_root5(v);
    let f = floor_root5(v);
    if r < f {
        lemma_pow5_increases(r + 1, f);
    } else if f < r {
        lemma_pow5_increases(f + 1, r);
    }
}

pub proof fn lemma_floor_sqrt_le(v: int, b: int)
    requires
        0 <= v,
        0 <= b,
        v <= sq(b),
    ensures
        floor_sqrt(v) <= b,
{
    lemma_floor_sqrt(v);
    if floor_sqrt(v) > b {
        lemma_sq_increases(b + 1, floor_sqrt(v));
        assert(sq(b) < sq(b + 1)) by (nonlinear_arith)
            requires b >= 0;
    }
}

pub proof fn lemma_floor_cbrt_le(v: int, b: int)
    requires
        0 <= v,
        0 <= b,
        v <= cube(b),
    ensures
        floor_cbrt(v) <= b,
{
    lemma_floor_cbrt(v);
    if floor_cbrt(v) > b {
        lemma_cube_increases(b + 1, floor_cbrt(v));
        assert(cube(b) < cube(b + 1)) by (nonlinear_arith)
            requires b >= 0;
    }
}

pub proof fn lemma_floor_root5_le(v: int, b: int)
    requires
        0 <= v,
        0 <= b,
        v <= pow5(b),
    ensures
        floor_root5(v) <= b,
{
    lemma_floor_root5(v);
    if floor_root5(v) > b {
        lemma_pow5_increases(b + 1, floor_root5(v));
        assert(pow5(b) < pow5(b + 1)) by (nonlinear_arith)
            requires b >= 0;
    }
}

/// Binary search for the integer square root of values up to 2^82.
pub fn sqrt_fp(v: u128) -> (r: u128)
    requires
        v < 0x4_0000_0000_0000_0000_0000,
    ensures
        r == floor_sqrt(v as int),
        r < 0x200_0000_0000,
{
    let mut lo: u128 = 0;
    let mut hi: u128 = 0x200_0000_0000;
    proof {
        assert(sq(0x200_0000_0000) == 0x4_0000_0000_0000_0000_0000) by (nonlinear_arith);
    }
    while lo + 1 < hi
        invariant
            lo < hi <= 0x200_0000_0000,
            sq(lo as int) <= v as int,
            (v as int) < sq(hi as int),
        decreases hi - lo,
    {
        let mid = lo + (hi - lo) / 2;
        proof {
            assert(mid * mid <= 0x4_0000_0000_0000_0000_0000) by (nonlinear_arith)
                requires mid <= 0x200_0000_0000u128;
        }
        let m2 = mid * mid;
        if m2 <= v {
            lo = mid;
        } else {
            hi = mid;
        }
    }
    proof {
        lemma_floor_sqrt_unique(v as int, lo as int);
    }
    lo
}

/// Binary search for the integer cube root of values up to 2^90.
pub fn cbrt_fp(v: u128) -> (r: u128)
    requires
        v < 0x400_0000_0000_0000_0000_0000,
    ensures
        r == floor_cbrt(v as int),
        r < 0x4000_0000,
{
    let mut lo: u128 = 0;
    let mut hi: u128 = 0x4000_0000;
    proof {
        assert(cube(0x4000_0000) == 0x400_0000_0000_0000_0000_0000) by {
            assert(0x4000_0000int * 0x4000_0000 == 0x1000_0000_0000_0000);
            assert(0x1000_0000_0000_0000int * 0x4000_0000 == 0x400_0000_0000_0000_0000_0000);
        }
    }
    while lo + 1 < hi
        invariant
            lo < hi <= 0x4000_0000,
            cube(lo as int) <= v as int,
            (v as int) < cube(hi as int),
        decreases hi - lo,
    {
        let mid = lo + (hi - lo) / 2;
        proof {
            assert(mid * mid <= 0x1000_0000_0000_0000
                && mid * mid * mid <= 0x400_0000_0000_0000_0000_0000) by (nonlinear_arith)
                requires mid <= 0x4000_0000u128;
        }
        let m3 = mid * mid * mid;
        if m3 <= v {
            lo = mid;
        } else {
            hi = mid;
        }
    }
    proof {
        lemma_floor_cbrt_unique(v as int, lo as int);
    }
    lo
}

/// Binary search for the integer fifth root of values up to 2^120.
pub fn root5_fp(v: u128) -> (r: u128)
    requires
        v < 0x100_0000_0000_0000_0000_0000_0000_0000,
    ensures
        r == floor_root5(v as int),
        r < 0x100_0000,
{
    let mut lo: u128 = 0;
    let mut hi: u128 = 0x100_0000;
    proof {
        assert(pow5(0x100_0000) == 0x100_0000_0000_0000_0000_0000_0000_0000) by (nonlinear_arith);
    }
    while lo + 1 < hi
        invariant
            lo < hi <= 0x100_0000,
            pow5(lo as int) <= v as int,
            (v as int) < pow5(hi as int),
        decreases hi - lo,
    {
        let mid = lo + (hi - lo) / 2;
        proof {
            assert(mid * mid <= 0x1_0000_0000_0000
                && mid * mid * mid <= 0x1000_0000_0000_0000_0000
                && mid * mid * mid * mid <= 0x1000_0000_0000_0000_0000_0000_0000
                && mid * mid * mid * mid * mid <= 0x100_0000_0000_0000_0000_0000_0000_0000)
                by (nonlinear_arith)
                requires mid <= 0x100_0000u128;
        }
        let m5 = mid * mid * mid * mid * mid;
        if m5 <= v {
            lo = mid;
        } else {
            hi = mid;
        }
    }
    proof {
        lemma_floor_root5_unique(v as int, lo as int);
    }
    lo
}

/// Quotient rounded toward zero, as machine signed division computes it.
pub open spec fn tdiv(a: int, b: int) -> int
    recommends
        b > 0,
{
    if a >= 0 {
        a / b
    } else {
        -((-a) / b)
    }
}

/// Inverse gamma of one channel, in fixed point: `c / 12.92` below the
/// knee at 0.04045, `((c + 0.055) / 1.055) ^ (12/5)` above it.
pub open spec fn spec_gamma_expand(c: int) -> int {
    if c <= 404_500 {
        c * 10_000_000 / 129_200_000
    } else {
        let t: int = (c + 550_000) * 10_000_000 / 10_550_000;
        let t2: int = t * t / 10_000_000;
        let f: int = floor_root5(t * t * 10_000_000 * 10_000_000 * 10_000_000);
        t2 * f / 10_000_000
    }
}

/// Forward gamma of one linear channel, in fixed point: `12.92 * l`
/// below the knee at 0.0031308, `1.055 * l ^ (5/12) - 0.055` above it.
/// The root `l ^ (5/12)` is taken as `sqrt(sqrt(l)) * cbrt(sqrt(sqrt(l))^2)`.
pub open spec fn spec_gamma_compress(l: int) -> int {
    if l <= 31_308 {
        tdiv(l * 1292, 100)
    } else {
        let w: int = floor_sqrt(l * 10_000_000);
        let u: int = floor_sqrt(w * 10_000_000);
        let u23: int = floor_cbrt(u * u * 10_000_000);
        let p: int = u * u23 / 10_000_000;
        10_550_000 * p / 10_000_000 - 550_000
    }
}

/// Expand a gamma-encoded channel in `[0, 1]` to its linear value.
pub fn gamma_expand(c: i64) -> (r: i64)
    requires
        0 <= c <= SCALE,
    ensures
        r == spec_gamma_expand(c as int),
        0 <= r <= SCALE,
{
    if c <= 404_500 {
        ((c as u128) * 10_000_000 / 129_200_000) as i64
    } else {
        let t: u128 = (c as u128 + 550_000) * 10_000_000 / 10_550_000;
        proof {
            assert(t * t <= 100_000_000_000_000u128) by (nonlinear_arith)
                requires t <= 10_000_000u128;
        }
        let tt: u128 = t * t;
        let arg: u128 = tt * 10_000_000 * 10_000_000 * 10_000_000;
        proof {
            assert(pow5(10_000_000) == 100_000_000_000_000_000_000_000_000_000_000_000) by {
                assert(10_000_000int * 10_000_000 == 100_000_000_000_000);
                assert(100_000_000_000_000int * 10_000_000 == 1_000_000_000_000_000_000_000);
                assert(1_000_000_000_000_000_000_000int * 10_000_000
                    == 10_000_000_000_000_000_000_000_000_000);
                assert(10_000_000_000_000_000_000_000_000_000int * 10_000_000
                    == 100_000_000_000_000_000_000_000_000_000_000_000);
            }
            lemma_floor_root5_le(arg as int, 10_000_000);
        }
        let f: u128 = root5_fp(arg);
        let t2: u128 = tt / 10_000_000;
        proof {
            assert(t2 * f <= 100_000_000_000_000u128) by (nonlinear_arith)
                requires
                    t2 <= 10_000_000u128,
                    f <= 10_000_000u128;
        }
        (t2 * f / 10_000_000) as i64
    }
}

/// Compress a linear channel value (possibly negative or above 1) back
/// to its gamma-encoded value.
pub fn gamma_compress(l: i64) -> (r: i64)
    requires
        -220_000_000_000_000_000 <= l <= 220_000_000_000_000_000,
    ensures
        r == spec_gamma_compress(l as int),
{
    if l <= 31_308 {
        if l >= 0 {
            ((l as u128) * 1292 / 100) as i64
        } else {
            -((((-l) as u128) * 1292 / 100) as i64)
        }
    } else {
        let w: u128 = sqrt_fp((l as u128) * 10_000_000);
        proof {
            assert(1_490_000_000_000int * 1_490_000_000_000
                == 2_220_100_000_000_000_000_000_000);
            lemma_floor_sqrt_le((l as u128 * 10_000_000) as int, 1_490_000_000_000);
        }
        let u: u128 = sqrt_fp(w * 10_000_000);
        proof {
            assert(3_861_000_000int * 3_861_000_000 == 14_907_321_000_000_000_000);
            lemma_floor_sqrt_le((w * 10_000_000) as int, 3_861_000_000);
            assert(u * u <= 14_907_321_000_000_000_000u128
                && u * u * 10_000_000 <= 149_073_210_000_000_000_000_000_000u128)
                by (nonlinear_arith)
                requires u <= 3_861_000_000u128;
        }
        let u23: u128 = cbrt_fp(u * u * 10_000_000);
        proof {
            assert(531_000_000int * 531_000_000 == 281_961_000_000_000_000);
            assert(281_961_000_000_000_000int * 531_000_000
                == 149_721_291_000_000_000_000_000_000);
            assert(cube(531_000_000) == 149_721_291_000_000_000_000_000_000);
            lemma_floor_cbrt_le((u * u * 10_000_000) as int, 531_000_000);
            assert(u * u23 <= 2_050_191_000_000_000_000u128) by (nonlinear_arith)
                requires
                    u <= 3_861_000_000u128,
                    u23 <= 531_000_000u128;
        }
        let p: u128 = u * u23 / 10_000_000;
        (10_550_000 * p / 10_000_000) as i64 - 550_000
    }
}

} // verus!
