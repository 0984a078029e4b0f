//! Fixed-point scalar arithmetic.
//!
//! A scalar is an `i64` holding a real value times `SCALE`. All helpers here
//! have exact integer contracts; rounding is always toward negative infinity
//! (mathematical floor), which keeps every spec a plain `int` division.

use vstd::prelude::*;

verus! {

/// One world unit: every coordinate, color channel and ray parameter is a
/// real value multiplied by this factor and stored as an integer.
pub const SCALE: i64 = 65536;

/// Coordinate envelope: all scene coordinates, box bounds and accepted ray
/// parameters stay within `[-COORD_LIMIT, COORD_LIMIT]`, which keeps every
/// intermediate product inside `i128`.
pub const COORD_LIMIT: i64 = 134217728;

/// Geometry envelope: scene coordinates and radii given to constructors
/// stay within this smaller bound, so that padded bounding boxes still fit
/// the coordinate envelope.
pub const GEOM_LIMIT: i64 = 67000000;

/// For a positive divisor, `floor(a / b) == -ceil(-a / b)`.
proof fn lemma_neg_div(a: int, b: int)
    requires
        b > 0,
        a < 0,
    ensures
        a / b == -((-a + b - 1) / b),
{
    let m = -a;
    vstd::arithmetic::div_mod::lemma_fundamental_div_mod(a, b);
    let q = a / b;
    let r = a % b;
    vstd::arithmetic::div_mod::lemma_mod_bound(a, b);
    assert(m + b - 1 == b * (-q) + (b - 1 - r)) by (nonlinear_arith)
        requires
            a == b * q + r,
            m == -a,
    ;
    vstd::arithmetic::div_mod::lemma_fundamental_div_mod_converse(m + b - 1, b, -q, b - 1 - r);
}

/// Floor division by a positive divisor never grows in magnitude.
pub proof fn lemma_div_magnitude(a: int, b: int)
    requires
        b > 0,
    ensures
        a >= 0 ==> 0 <= a / b <= a,
        a < 0 ==> a <= a / b <= 0,
{
    vstd::arithmetic::div_mod::lemma_fundamental_div_mod(a, b);
    vstd::arithmetic::div_mod::lemma_mod_bound(a, b);
    let q = a / b;
    let r = a % b;
    if a >= 0 {
        assert(0 <= q <= a) by (nonlinear_arith)
            requires
                a == b * q + r,
                0 <= r < b,
                b > 0,
                a >= 0,
        ;
    } else {
        assert(a <= q <= 0) by (nonlinear_arith)
            requires
                a == b * q + r,
                0 <= r < b,
                b > 0,
                a < 0,
        ;
    }
}

/// Floor division by a positive divisor, exactly `int` division.
pub fn floor_div(a: i128, b: i128) -> (q: i128)
    requires
        b > 0,
        i128::MIN < a,
    ensures
        q == (a as int) / (b as int),
{
    proof {
        lemma_div_magnitude(a as int, b as int);
    }
    if a >= 0 {
        ((a as u128) / (b as u128)) as i128
    } else {
        let m = (-a) as u128;
        let d = b as u128;
        let c = (m + (d - 1)) / d;
        proof {
            lemma_neg_div(a as int, b as int);
        }
        -(c as i128)
    }
}

/// Floor division on the narrow scalar type. The result of a floor division
/// by a positive divisor never grows in magnitude, so it stays in range.
pub fn floor_div64(a: i64, b: i64) -> (q: i64)
    requires
        b > 0,
    ensures
        q == (a as int) / (b as int),
{
    proof {
        lemma_div_magnitude(a as int, b as int);
    }
    floor_div(a as i128, b as i128) as i64
}

/// Fixed-point product: the mathematical product rescaled into world units,
/// rounded toward negative infinity.
pub fn fmul(a: i64, b: i64) -> (r: i64)
    requires
        -0x8000_0000 <= a <= 0x8000_0000,
        -0x8000_0000 <= b <= 0x8000_0000,
    ensures
        r == (a * b) / (SCALE as int),
{
    proof {
        assert(-0x4000_0000_0000_0000 <= (a as int) * (b as int) <= 0x4000_0000_0000_0000)
            by (nonlinear_arith)
            requires
                -0x8000_0000 <= a <= 0x8000_0000,
                -0x8000_0000 <= b <= 0x8000_0000,
        ;
    }
    let p = (a as i128) * (b as i128);
    proof {
        lemma_div_magnitude(p as int, SCALE as int);
    }
    floor_div(p, SCALE as i128) as i64
}

/// Integer square root: the greatest integer whose square does not exceed `n`.
pub fn isqrt(n: u128) -> (r: u128)
    ensures
        (r as int) * (r as int) <= n as int,
        ((r as int) + 1) * ((r as int) + 1) > n as int,
{
    let mut lo: u128 = 0;
    let mut hi: u128 = 0x1_0000_0000_0000_0000;
    proof {
        assert((hi as int) * (hi as int) > n as int) by (nonlinear_arith)
            requires
                hi == 0x1_0000_0000_0000_0000u128,
                n <= u128::MAX,
        ;
    }
    while lo + 1 < hi
        invariant
            lo < hi,
            hi <= 0x1_0000_0000_0000_0000,
            (lo as int) * (lo as int) <= n as int,
            (hi as int) * (hi as int) > n as int,
        decreases hi - lo,
    {
        let mid = lo + (hi - lo) / 2;
        proof {
            assert((mid as int) * (mid as int) < u128::MAX as int) by (nonlinear_arith)
                requires
                    mid < 0x1_0000_0000_0000_0000u128,
            ;
        }
        let sq = mid * mid;
        if sq <= n {
            lo = mid;
        } else {
            hi = mid;
        }
    }
    proof {
        assert(((lo as int) + 1) * ((lo as int) + 1) >= (hi as int) * (hi as int))
            by (nonlinear_arith)
            requires
                lo < hi <= lo + 1,
        ;
    }
    lo
}

/// The smaller of two scalars.
pub fn imin(a: i64, b: i64) -> (r: i64)
    ensures
        r == if a <= b { a as int } else { b as int },
{
    if a <= b {
        a
    } else {
        b
    }
}

/// The larger of two scalars.
pub fn imax(a: i64, b: i64) -> (r: i64)
    ensures
        r == if a >= b { a as int } else { b as int },
{
    if a >= b {
        a
    } else {
        b
    }
}

} // verus!
