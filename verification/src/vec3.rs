//! Three-component vectors in fixed-point world units.
//!
//! A component holds a real value times `SCALE`. Sums and differences are
//! exact; a dot or cross product is the exact integer product, so it carries
//! the square of the unit (callers rescale where needed).

use vstd::prelude::*;

verus! {

use crate::num::{floor_div, fmul, isqrt, SCALE};

/// Bound on a single component for which a dot or cross product of two
/// vectors still fits comfortably in the scalar type.
pub const VEC_LIMIT: i64 = 0x4000_0000;

#[derive(Clone, Copy, PartialEq, Eq, Structural, Debug)]
pub struct Vec3 {
    pub x: i64,
    pub y: i64,
    pub z: i64,
}

/// The componentwise sum of two vectors, as stored values.
pub open spec fn spec_add(a: Vec3, b: Vec3) -> Vec3 {
    Vec3 { x: (a.x + b.x) as i64, y: (a.y + b.y) as i64, z: (a.z + b.z) as i64 }
}

/// The componentwise difference of two vectors, as stored values.
pub open spec fn spec_sub(a: Vec3, b: Vec3) -> Vec3 {
    Vec3 { x: (a.x - b.x) as i64, y: (a.y - b.y) as i64, z: (a.z - b.z) as i64 }
}

/// The componentwise negation, as stored values.
pub open spec fn spec_neg(a: Vec3) -> Vec3 {
    Vec3 { x: (-a.x) as i64, y: (-a.y) as i64, z: (-a.z) as i64 }
}

/// The componentwise fixed-point product with a scalar, as stored values.
pub open spec fn spec_scale(a: Vec3, k: int) -> Vec3 {
    Vec3 {
        x: ((a.x * k) / (SCALE as int)) as i64,
        y: ((a.y * k) / (SCALE as int)) as i64,
        z: ((a.z * k) / (SCALE as int)) as i64,
    }
}

/// The exact mathematical dot product (in squared units).
pub open spec fn spec_dot(a: Vec3, b: Vec3) -> int {
    a.x * b.x + a.y * b.y + a.z * b.z
}

/// The exact mathematical cross product (components in squared units).
pub open spec fn spec_cross(a: Vec3, b: Vec3) -> (int, int, int) {
    (
        a.y * b.z - a.z * b.y,
        -(a.x * b.z - a.z * b.x),
        a.x * b.y - a.y * b.x,
    )
}

impl Vec3 {
    /// Every component lies within `[-b, b]`.
    pub open spec fn bounded(self, b: int) -> bool {
        &&& -b <= self.x <= b
        &&& -b <= self.y <= b
        &&& -b <= self.z <= b
    }

    pub fn new(e0: i64, e1: i64, e2: i64) -> (v: Vec3)
        ensures
            v == (Vec3 { x: e0, y: e1, z: e2 }),
    {
        Vec3 { x: e0, y: e1, z: e2 }
    }

    pub fn x(&self) -> (r: i64)
        ensures
            r == self.x,
    {
        self.x
    }

    pub fn y(&self) -> (r: i64)
        ensures
            r == self.y,
    {
        self.y
    }

    pub fn z(&self) -> (r: i64)
        ensures
            r == self.z,
    {
        self.z
    }

    /// Red channel, when the vector is used as a color.
    pub fn r(&self) -> (r: i64)
        ensures
            r == self.x,
    {
        self.x
    }

    /// Green channel, when the vector is used as a color.
    pub fn g(&self) -> (r: i64)
        ensures
            r == self.y,
    {
        self.y
    }

    /// Blue channel, when the vector is used as a color.
    pub fn b(&self) -> (r: i64)
        ensures
            r == self.z,
    {
        self.z
    }

    /// Componentwise sum, exact.
    pub fn add(self, other: Vec3) -> (v: Vec3)
        requires
            self.bounded(0x2000_0000_0000_0000),
            other.bounded(0x2000_0000_0000_0000),
        ensures
            v.x == self.x + other.x,
            v.y == self.y + other.y,
            v.z == self.z + other.z,
    {
        Vec3 { x: self.x + other.x, y: self.y + other.y, z: self.z + other.z }
    }

    /// Componentwise difference, exact.
    pub fn sub(self, other: Vec3) -> (v: Vec3)
        requires
            self.bounded(0x2000_0000_0000_0000),
            other.bounded(0x2000_0000_0000_0000),
        ensures
            v.x == self.x - other.x,
            v.y == self.y - other.y,
            v.z == self.z - other.z,
    {
        Vec3 { x: self.x - other.x, y: self.y - other.y, z: self.z - other.z }
    }

    /// Componentwise negation, exact.
    pub fn neg(self) -> (v: Vec3)
        requires
            self.bounded(0x2000_0000_0000_0000),
        ensures
            v.x == -self.x,
            v.y == -self.y,
            v.z == -self.z,
    {
        Vec3 { x: -self.x, y: -self.y, z: -self.z }
    }

    /// Product with a fixed-point scalar, rescaled into world units.
    pub fn scale(self, k: i64) -> (v: Vec3)
        requires
            self.bounded(0x8000_0000),
            -0x8000_0000 <= k <= 0x8000_0000,
        ensures
            v.x == (self.x * k) / (SCALE as int),
            v.y == (self.y * k) / (SCALE as int),
            v.z == (self.z * k) / (SCALE as int),
    {
        Vec3 { x: fmul(self.x, k), y: fmul(self.y, k), z: fmul(self.z, k) }
    }

    /// Componentwise fixed-point product (used for color attenuation).
    pub fn mul(self, other: Vec3) -> (v: Vec3)
        requires
            self.bounded(0x8000_0000),
            other.bounded(0x8000_0000),
        ensures
            v.x == (self.x * other.x) / (SCALE as int),
            v.y == (self.y * other.y) / (SCALE as int),
            v.z == (self.z * other.z) / (SCALE as int),
    {
        Vec3 { x: fmul(self.x, other.x), y: fmul(self.y, other.y), z: fmul(self.z, other.z) }
    }

    /// Componentwise fixed-point division by another vector; a zero
    /// divisor component passes its dividend through unchanged (a
    /// deterministic stand-in for the undefined quotient).
    pub fn div(self, other: Vec3) -> (v: Vec3)
        requires
            self.bounded(0x8000_0000),
            other.bounded(0x8000_0000),
        ensures
            v.x == spec_fdiv(self.x as int, other.x as int),
            v.y == spec_fdiv(self.y as int, other.y as int),
            v.z == spec_fdiv(self.z as int, other.z as int),
    {
        Vec3 {
            x: div_component(self.x, other.x),
            y: div_component(self.y, other.y),
            z: div_component(self.z, other.z),
        }
    }

    /// One component of the vector by index: the sole consumer-facing way
    /// to pick components dynamically.
    pub fn index(&self, idx: usize) -> (r: i64)
        requires
            idx < 3,
        ensures
            r == if idx == 0 { self.x } else if idx == 1 { self.y } else { self.z },
    {
        if idx == 0 {
            self.x
        } else if idx == 1 {
            self.y
        } else {
            self.z
        }
    }

    /// The exact squared magnitude, in squared units.
    pub fn squared_length(&self) -> (r: i64)
        requires
            self.bounded(VEC_LIMIT as int),
        ensures
            r == spec_dot(*self, *self),
            r >= 0,
    {
        dot(self, self)
    }

    /// The magnitude in world units: the integer square root of the exact
    /// squared magnitude. The result is exact up to the floor rounding of
    /// the square root.
    pub fn length(&self) -> (r: i64)
        requires
            self.bounded(VEC_LIMIT as int),
        ensures
            r >= 0,
            r * r <= spec_dot(*self, *self),
            (r + 1) * (r + 1) > spec_dot(*self, *self),
    {
        let sq = self.squared_length();
        let r = isqrt(sq as u128);
        proof {
            assert((r as int) * (r as int) <= sq as int ==> r as int <= 0x8000_0000_0000)
                by (nonlinear_arith)
                requires
                    (r as int) * (r as int) <= sq as int,
                    sq <= i64::MAX,
            ;
        }
        r as i64
    }

    /// Rescales the vector in place to (floor-rounded) unit length; a zero
    /// vector is left unchanged.
    pub fn make_unit_vector(&mut self)
        requires
            old(self).bounded(VEC_LIMIT as int),
        ensures
            *final(self) == spec_unit_vector(*old(self)),
            final(self).bounded(SCALE as int),
    {
        *self = unit_vector(*self);
    }
}

/// The floor-rounded unit vector: each component times `SCALE`, divided by
/// the floor-rounded length. A zero vector maps to itself.
pub open spec fn spec_unit_vector(v: Vec3) -> Vec3 {
    let d = spec_dot(v, v);
    let len = spec_isqrt(d);
    if d == 0 {
        v
    } else {
        Vec3 {
            x: ((v.x * SCALE) / len) as i64,
            y: ((v.y * SCALE) / len) as i64,
            z: ((v.z * SCALE) / len) as i64,
        }
    }
}

/// The mathematical integer square root.
pub open spec fn spec_isqrt(n: int) -> int {
    choose|r: int| r >= 0 && #[trigger] (r * r) <= n && (r + 1) * (r + 1) > n
}

/// The integer square root exists and is unique, so `spec_isqrt` denotes it.
pub proof fn lemma_isqrt_unique(n: int, r: int)
    requires
        r >= 0,
        r * r <= n,
        (r + 1) * (r + 1) > n,
    ensures
        spec_isqrt(n) == r,
{
    assert(r >= 0 && r * r <= n && (r + 1) * (r + 1) > n);
    let w = choose|w: int| w >= 0 && #[trigger] (w * w) <= n && (w + 1) * (w + 1) > n;
    assert(w == r) by (nonlinear_arith)
        requires
            r >= 0,
            r * r <= n,
            (r + 1) * (r + 1) > n,
            w >= 0,
            w * w <= n,
            (w + 1) * (w + 1) > n,
    ;
}

/// The exact dot product of two vectors, in squared units.
pub fn dot(v1: &Vec3, v2: &Vec3) -> (r: i64)
    requires
        v1.bounded(VEC_LIMIT as int),
        v2.bounded(VEC_LIMIT as int),
    ensures
        r == spec_dot(*v1, *v2),
        spec_dot(*v1, *v1) >= 0,
        spec_dot(*v2, *v2) >= 0,
{
    proof {
        lemma_dot_bound(*v1, *v2, VEC_LIMIT as int);
        lemma_dot_self_nonneg(*v1);
        lemma_dot_self_nonneg(*v2);
        assert(-0x2000_0000_0000_0000 <= v1.x * v2.x <= 0x2000_0000_0000_0000
            && -0x2000_0000_0000_0000 <= v1.y * v2.y <= 0x2000_0000_0000_0000
            && -0x2000_0000_0000_0000 <= v1.z * v2.z <= 0x2000_0000_0000_0000)
            by (nonlinear_arith)
            requires
                v1.bounded(VEC_LIMIT as int),
                v2.bounded(VEC_LIMIT as int),
        ;
    }
    let p = (v1.x as i128) * (v2.x as i128) + (v1.y as i128) * (v2.y as i128) + (v1.z as i128)
        * (v2.z as i128);
    p as i64
}

/// A dot product of component-bounded vectors is bounded by three times the
/// squared bound.
pub proof fn lemma_dot_bound(a: Vec3, b: Vec3, m: int) by (nonlinear_arith)
    requires
        m >= 0,
        a.bounded(m),
        b.bounded(m),
    ensures
        -(3 * m * m) <= spec_dot(a, b) <= 3 * m * m,
{
}

/// A vector's dot product with itself is non-negative.
pub proof fn lemma_dot_self_nonneg(a: Vec3) by (nonlinear_arith)
    ensures
        spec_dot(a, a) >= 0,
{
}

/// The exact cross product, in squared units.
pub fn cross(v1: &Vec3, v2: &Vec3) -> (r: Vec3)
    requires
        v1.bounded(VEC_LIMIT as int),
        v2.bounded(VEC_LIMIT as int),
    ensures
        (r.x as int, r.y as int, r.z as int) == spec_cross(*v1, *v2),
{
    proof {
        assert(-0x2000_0000_0000_0000 <= v1.x * v2.x <= 0x2000_0000_0000_0000
            && -0x2000_0000_0000_0000 <= v1.x * v2.y <= 0x2000_0000_0000_0000
            && -0x2000_0000_0000_0000 <= v1.x * v2.z <= 0x2000_0000_0000_0000
            && -0x2000_0000_0000_0000 <= v1.y * v2.x <= 0x2000_0000_0000_0000
            && -0x2000_0000_0000_0000 <= v1.y * v2.y <= 0x2000_0000_0000_0000
            && -0x2000_0000_0000_0000 <= v1.y * v2.z <= 0x2000_0000_0000_0000
            && -0x2000_0000_0000_0000 <= v1.z * v2.x <= 0x2000_0000_0000_0000
            && -0x2000_0000_0000_0000 <= v1.z * v2.y <= 0x2000_0000_0000_0000
            && -0x2000_0000_0000_0000 <= v1.z * v2.z <= 0x2000_0000_0000_0000)
            by (nonlinear_arith)
            requires
                v1.bounded(VEC_LIMIT as int),
                v2.bounded(VEC_LIMIT as int),
        ;
    }
    let cx = ((v1.y as i128) * (v2.z as i128) - (v1.z as i128) * (v2.y as i128)) as i64;
    let cy = (-((v1.x as i128) * (v2.z as i128) - (v1.z as i128) * (v2.x as i128))) as i64;
    let cz = ((v1.x as i128) * (v2.y as i128) - (v1.y as i128) * (v2.x as i128)) as i64;
    Vec3 { x: cx, y: cy, z: cz }
}

/// One fixed-point scalar quotient, floor-rounded with the divisor's sign
/// folded into the numerator; a zero divisor passes the dividend through.
pub open spec fn spec_fdiv(a: int, b: int) -> int {
    if b == 0 {
        a
    } else if b > 0 {
        (a * SCALE) / b
    } else {
        (-(a * SCALE)) / (-b)
    }
}

/// One component of a componentwise fixed-point quotient.
fn div_component(a: i64, b: i64) -> (r: i64)
    requires
        -0x8000_0000 <= a <= 0x8000_0000,
        -0x8000_0000 <= b <= 0x8000_0000,
    ensures
        r == spec_fdiv(a as int, b as int),
{
    if b == 0 {
        return a;
    }
    proof {
        assert(-0x8000_0000_0000_0000 <= (a as int) * SCALE <= 0x8000_0000_0000_0000)
            by (nonlinear_arith)
            requires
                -0x8000_0000 <= a <= 0x8000_0000,
        ;
    }
    let num = (a as i128) * (SCALE as i128);
    let (n2, d2) = if b > 0 {
        (num, b as i128)
    } else {
        (-num, -(b as i128))
    };
    proof {
        crate::num::lemma_div_magnitude(n2 as int, d2 as int);
    }
    floor_div(n2, d2) as i64
}

/// The floor-rounded unit vector of `v`; the zero vector stays unchanged.
/// Every component of the result lies within one unit (`SCALE`).
pub fn unit_vector(v: Vec3) -> (r: Vec3)
    requires
        v.bounded(VEC_LIMIT as int),
    ensures
        r == spec_unit_vector(v),
        r.bounded(SCALE as int),
{
    let d = dot(&v, &v);
    if d == 0 {
        proof {
            lemma_component_le_isqrt(v, 0);
            assert(v.x == 0 && v.y == 0 && v.z == 0) by (nonlinear_arith)
                requires
                    spec_dot(v, v) == 0,
            ;
        }
        v
    } else {
        let len128 = isqrt(d as u128);
        let len = len128 as i64;
        proof {
            assert((len128 as int) * (len128 as int) <= d as int ==> len128 as int
                <= 0x8000_0000_0000) by (nonlinear_arith)
                requires
                    (len128 as int) * (len128 as int) <= d as int,
                    d <= i64::MAX,
            ;
            lemma_isqrt_unique(d as int, len128 as int);
            lemma_component_le_isqrt(v, len as int);
            assert(len > 0) by (nonlinear_arith)
                requires
                    len >= 0,
                    (len + 1) * (len + 1) > spec_dot(v, v),
                    spec_dot(v, v) > 0,
                    (len as int) * (len as int) <= spec_dot(v, v),
            ;
        }
        let rx = floor_div((v.x as i128) * (SCALE as i128), len as i128) as i64;
        let ry = floor_div((v.y as i128) * (SCALE as i128), len as i128) as i64;
        let rz = floor_div((v.z as i128) * (SCALE as i128), len as i128) as i64;
        proof {
            lemma_unit_component_bound(v.x as int, len as int);
            lemma_unit_component_bound(v.y as int, len as int);
            lemma_unit_component_bound(v.z as int, len as int);
        }
        Vec3 { x: rx, y: ry, z: rz }
    }
}

/// Each component of a vector is bounded in magnitude by the floor square
/// root of the vector's squared magnitude.
proof fn lemma_component_le_isqrt(v: Vec3, len: int) by (nonlinear_arith)
    requires
        len >= 0,
        len * len <= spec_dot(v, v),
        (len + 1) * (len + 1) > spec_dot(v, v),
    ensures
        -len <= v.x <= len,
        -len <= v.y <= len,
        -len <= v.z <= len,
{
}

/// A scaled vector's components stay within the rescaled product bound:
/// if the vector is bounded by `bv` and the scalar by `bk`, every component
/// of the fixed-point product lies within any `m` with `m * SCALE >= bv * bk`.
pub proof fn lemma_scale_bound(v: Vec3, k: int, bv: int, bk: int, m: int)
    requires
        v.bounded(bv),
        -bk <= k <= bk,
        bv >= 0,
        bk >= 0,
        m >= 0,
        m * SCALE >= bv * bk,
    ensures
        -m <= (v.x * k) / (SCALE as int) <= m,
        -m <= (v.y * k) / (SCALE as int) <= m,
        -m <= (v.z * k) / (SCALE as int) <= m,
{
    assert(-(m * SCALE) <= v.x * k <= m * SCALE && -(m * SCALE) <= v.y * k <= m * SCALE
        && -(m * SCALE) <= v.z * k <= m * SCALE) by (nonlinear_arith)
        requires
            v.bounded(bv),
            -bk <= k <= bk,
            bv >= 0,
            bk >= 0,
            m * SCALE >= bv * bk,
    ;
    lemma_ratio_bound(v.x * k, m, SCALE as int);
    lemma_ratio_bound(v.y * k, m, SCALE as int);
    lemma_ratio_bound(v.z * k, m, SCALE as int);
}

/// A floor quotient of a magnitude-bounded dividend by a positive divisor
/// stays within the scaled-down magnitude.
pub proof fn lemma_ratio_bound(a: int, m: int, d: int)
    requires
        d > 0,
        m >= 0,
        -(m * d) <= a <= m * d,
    ensures
        -m <= a / d <= m,
{
    assert(d * m == m * d && d * (-m) == -(m * d)) by (nonlinear_arith);
    vstd::arithmetic::div_mod::lemma_div_is_ordered(a, d * m, d);
    vstd::arithmetic::div_mod::lemma_div_is_ordered(d * (-m), a, d);
    vstd::arithmetic::div_mod::lemma_div_multiples_vanish(m, d);
    vstd::arithmetic::div_mod::lemma_div_multiples_vanish(-m, d);
}

/// Scaling a component bounded by `len` and floor-dividing by `len` keeps it
/// within one unit.
proof fn lemma_unit_component_bound(c: int, len: int)
    requires
        len > 0,
        -len <= c <= len,
    ensures
        -SCALE <= (c * SCALE) / len <= SCALE,
{
    assert(-((SCALE as int) * len) <= c * SCALE <= (SCALE as int) * len) by (nonlinear_arith)
        requires
            len > 0,
            -len <= c <= len,
    ;
    lemma_ratio_bound(c * SCALE, SCALE as int, len);
}

} // verus!
