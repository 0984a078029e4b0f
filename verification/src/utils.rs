//! Scattering helpers: random sampling, mirror reflection, Snell
//! refraction and Schlick's reflectance approximation, all in exact
//! fixed-point arithmetic.

use vstd::prelude::*;

verus! {

use crate::num::{floor_div, floor_div64, fmul, isqrt, SCALE};
use crate::rng::RandomSource;
use crate::vec3::{dot, spec_add, spec_dot, spec_isqrt, spec_scale, spec_unit_vector, unit_vector, Vec3};

/// Generates a point within the unit-radius sphere by bounded rejection
/// sampling: after a fixed number of failed draws (astronomically unlikely)
/// it falls back to the center. Of the random result only the bound is
/// promised.
pub fn random_point_in_unit_sphere(rng: &mut RandomSource) -> (p: Vec3)
    ensures
        p.bounded(SCALE as int),
        spec_dot(p, p) < (SCALE as int) * (SCALE as int),
{
    let mut tries: u32 = 0;
    while tries < 64
        invariant
            true,
        decreases 64 - tries,
    {
        let p = Vec3 { x: rng.next_symmetric(), y: rng.next_symmetric(), z: rng.next_symmetric() };
        let d = dot(&p, &p);
        if d < SCALE * SCALE {
            return p;
        }
        tries = tries + 1;
    }
    proof {
        assert(spec_dot(Vec3 { x: 0, y: 0, z: 0 }, Vec3 { x: 0, y: 0, z: 0 }) == 0);
    }
    Vec3 { x: 0, y: 0, z: 0 }
}

/// Generates a point within the unit-radius disk (zero third component),
/// by the same bounded rejection sampling.
pub fn random_point_in_unit_disk(rng: &mut RandomSource) -> (p: Vec3)
    ensures
        p.bounded(SCALE as int),
        p.z == 0,
        spec_dot(p, p) < (SCALE as int) * (SCALE as int),
{
    let mut tries: u32 = 0;
    while tries < 64
        invariant
            true,
        decreases 64 - tries,
    {
        let p = Vec3 { x: rng.next_symmetric(), y: rng.next_symmetric(), z: 0 };
        let d = dot(&p, &p);
        if d < SCALE * SCALE {
            return p;
        }
        tries = tries + 1;
    }
    proof {
        assert(spec_dot(Vec3 { x: 0, y: 0, z: 0 }, Vec3 { x: 0, y: 0, z: 0 }) == 0);
    }
    Vec3 { x: 0, y: 0, z: 0 }
}

/// The mirror reflection of `d` about the normal `n`, rescaled exactly:
/// `d - 2 (d . n) n`, with one floor division per component.
pub open spec fn spec_reflect(d: Vec3, n: Vec3) -> Vec3 {
    let k = 2 * spec_dot(d, n);
    let s2 = (SCALE as int) * (SCALE as int);
    Vec3 {
        x: (d.x - (n.x * k) / s2) as i64,
        y: (d.y - (n.y * k) / s2) as i64,
        z: (d.z - (n.z * k) / s2) as i64,
    }
}

/// Calculates the direction of a ray after reflecting off of a mirrored
/// surface, exactly as `spec_reflect` states.
pub fn reflect(dir: &Vec3, norm: &Vec3) -> (r: Vec3)
    requires
        dir.bounded(2 * SCALE as int),
        norm.bounded(2 * SCALE as int),
    ensures
        r == spec_reflect(*dir, *norm),
        r.bounded(64 * SCALE as int),
{
    let d = dot(dir, norm);
    proof {
        crate::vec3::lemma_dot_bound(*dir, *norm, 2 * SCALE as int);
        assert(3 * (2 * SCALE as int) * (2 * SCALE as int) == 51539607552
            && 24 * SCALE * SCALE == 103079215104
            && (SCALE as int) * (SCALE as int) == 0x1_0000_0000) by (nonlinear_arith);
    }
    let k = 2 * d;
    let s2 = (SCALE as i128) * (SCALE as i128);
    proof {
        lemma_reflect_component(dir.x as int, norm.x as int, k as int);
        lemma_reflect_component(dir.y as int, norm.y as int, k as int);
        lemma_reflect_component(dir.z as int, norm.z as int, k as int);
    }
    let rx = dir.x - floor_div((norm.x as i128) * (k as i128), s2) as i64;
    let ry = dir.y - floor_div((norm.y as i128) * (k as i128), s2) as i64;
    let rz = dir.z - floor_div((norm.z as i128) * (k as i128), s2) as i64;
    Vec3 { x: rx, y: ry, z: rz }
}

/// Bounds one component of the reflection formula.
proof fn lemma_reflect_component(d: int, n: int, k: int)
    requires
        -(2 * SCALE) <= d <= 2 * SCALE,
        -(2 * SCALE) <= n <= 2 * SCALE,
        -(24 * SCALE * SCALE) <= k <= 24 * SCALE * SCALE,
    ensures
        -(48 * SCALE) <= (n * k) / ((SCALE as int) * (SCALE as int)) <= 48 * SCALE,
        -(64 * SCALE) <= d - (n * k) / ((SCALE as int) * (SCALE as int)) <= 64 * SCALE,
{
    let s2 = (SCALE as int) * (SCALE as int);
    assert(-((48 * SCALE) * s2) <= n * k <= (48 * SCALE) * s2 && s2 > 0) by (nonlinear_arith)
        requires
            -(2 * SCALE) <= n <= 2 * SCALE,
            -(24 * SCALE * SCALE) <= k <= 24 * SCALE * SCALE,
            s2 == (SCALE as int) * (SCALE as int),
    ;
    crate::vec3::lemma_ratio_bound(n * k, 48 * SCALE, s2);
}

/// The refraction discriminant of Snell's law in fixed point: one unit
/// minus the squared index ratio times (one minus the squared cosine),
/// computed on the floor-rounded unit incoming direction.
pub open spec fn spec_refract_disc(d: Vec3, n: Vec3, ni_over_nt: int) -> int {
    let u = spec_unit_vector(d);
    let dt = spec_dot(u, n) / (SCALE as int);
    let dt2 = (dt * dt) / (SCALE as int);
    let nn = (ni_over_nt * ni_over_nt) / (SCALE as int);
    SCALE - (nn * (SCALE - dt2)) / (SCALE as int)
}

/// The refracted direction of Snell's construction, with every product
/// floor-rescaled: the tangential part of the unit incoming direction
/// scaled by the index ratio, minus the normal scaled by the square root
/// of the discriminant.
pub open spec fn spec_refracted(d: Vec3, n: Vec3, ni_over_nt: int) -> Vec3 {
    let u = spec_unit_vector(d);
    let dt = spec_dot(u, n) / (SCALE as int);
    let disc = spec_refract_disc(d, n, ni_over_nt);
    let sq = spec_isqrt(disc * SCALE);
    let a = Vec3 {
        x: (u.x - (n.x * dt) / (SCALE as int)) as i64,
        y: (u.y - (n.y * dt) / (SCALE as int)) as i64,
        z: (u.z - (n.z * dt) / (SCALE as int)) as i64,
    };
    let b = spec_scale(a, ni_over_nt);
    Vec3 {
        x: (b.x - (n.x * sq) / (SCALE as int)) as i64,
        y: (b.y - (n.y * sq) / (SCALE as int)) as i64,
        z: (b.z - (n.z * sq) / (SCALE as int)) as i64,
    }
}

/// Calculates the direction of a ray refracted through a dielectric
/// boundary with the given index ratio; `None` under total internal
/// reflection (non-positive discriminant). The returned direction is
/// exactly `spec_refracted`.
pub fn refract(dir: &Vec3, norm: &Vec3, ni_over_nt: i64) -> (r: Option<Vec3>)
    requires
        dir.bounded(crate::vec3::VEC_LIMIT as int),
        norm.bounded(2 * SCALE as int),
        0 < ni_over_nt <= 16 * SCALE,
    ensures
        r is Some <==> spec_refract_disc(*dir, *norm, ni_over_nt as int) > 0,
        r matches Some(v) ==> v == spec_refracted(*dir, *norm, ni_over_nt as int) && v.bounded(
            0x4000_0000,
        ),
{
    let unit_vec = unit_vector(*dir);
    proof {
        crate::vec3::lemma_dot_bound(unit_vec, *norm, 2 * SCALE as int);
        assert(3 * (2 * SCALE as int) * (2 * SCALE as int) == (12 * SCALE) * (SCALE as int)
            && -(3 * (2 * SCALE as int) * (2 * SCALE as int)) == -((12 * SCALE) * (
        SCALE as int))) by (nonlinear_arith);
        crate::vec3::lemma_ratio_bound(spec_dot(unit_vec, *norm), 12 * SCALE, SCALE as int);
    }
    let dt = floor_div64(dot(&unit_vec, norm), SCALE);
    proof {
        assert(0 <= dt * dt <= (144 * SCALE) * SCALE) by (nonlinear_arith)
            requires
                -(12 * SCALE) <= dt <= 12 * SCALE,
        ;
        crate::vec3::lemma_ratio_bound(dt * dt, 144 * SCALE, SCALE as int);
        vstd::arithmetic::div_mod::lemma_div_pos_is_pos(dt * dt, SCALE as int);
    }
    let dt2 = fmul(dt, dt);
    let inner = SCALE - dt2;
    proof {
        assert(0 <= ni_over_nt * ni_over_nt <= (256 * SCALE) * SCALE) by (nonlinear_arith)
            requires
                0 < ni_over_nt <= 16 * SCALE,
        ;
        crate::vec3::lemma_ratio_bound(ni_over_nt * ni_over_nt, 256 * SCALE, SCALE as int);
        vstd::arithmetic::div_mod::lemma_div_pos_is_pos(ni_over_nt * ni_over_nt, SCALE as int);
    }
    let nn = fmul(ni_over_nt, ni_over_nt);
    proof {
        assert(-((36864 * SCALE) * (SCALE as int)) <= nn * inner <= (36864 * SCALE) * (
        SCALE as int)) by (nonlinear_arith)
            requires
                0 <= nn <= 256 * SCALE,
                -(144 * SCALE) <= inner <= 144 * SCALE,
        ;
        crate::vec3::lemma_ratio_bound(nn * inner, 36864 * SCALE, SCALE as int);
    }
    let scaled = fmul(nn, inner);
    let discriminant = SCALE - scaled;
    if discriminant > 0 {
        proof {
            assert(0 < (discriminant as int) * (SCALE as int) < 0x1_0000_0000_0000_0000)
                by (nonlinear_arith)
                requires
                    0 < discriminant <= 36865 * SCALE,
            ;
        }
        let s = isqrt(((discriminant as i128) * (SCALE as i128)) as u128);
        proof {
            assert(0 <= (discriminant as int) * (SCALE as int) <= (36865 * SCALE) * (
            SCALE as int)) by (nonlinear_arith)
                requires
                    0 < discriminant <= 36865 * SCALE,
            ;
            assert((s as int) * (s as int) <= (36865 * SCALE) * (SCALE as int) ==> s
                < 0x100_0000) by (nonlinear_arith);
            crate::vec3::lemma_isqrt_unique(
                (discriminant as int) * (SCALE as int),
                s as int,
            );
        }
        let s64 = s as i64;
        proof {
            assert((24 * SCALE) * (SCALE as int) >= (2 * SCALE as int) * (12 * SCALE))
                by (nonlinear_arith);
            crate::vec3::lemma_scale_bound(*norm, dt as int, 2 * SCALE as int, 12 * SCALE,
                24 * SCALE);
        }
        let a = unit_vec.sub(norm.scale(dt));
        proof {
            assert((400 * SCALE) * (SCALE as int) >= (25 * SCALE) * (16 * SCALE))
                by (nonlinear_arith);
            crate::vec3::lemma_scale_bound(a, ni_over_nt as int, 25 * SCALE, 16 * SCALE,
                400 * SCALE);
        }
        let b = a.scale(ni_over_nt);
        proof {
            assert(0x200_0000 * (SCALE as int) >= (2 * SCALE as int) * 0x100_0000)
                by (nonlinear_arith);
            crate::vec3::lemma_scale_bound(*norm, s64 as int, 2 * SCALE as int, 0x100_0000,
                0x200_0000);
        }
        let c = norm.scale(s64);
        let out = b.sub(c);
        Some(out)
    } else {
        None
    }
}

/// Schlick's approximation of Fresnel reflectance in fixed point:
/// `r0 + (1 - r0) * (1 - cosine)^5` with `r0 = ((1 - n) / (1 + n))^2`,
/// every product floor-rescaled.
pub open spec fn spec_schlick(cosine: int, n: int) -> int {
    let s = SCALE as int;
    let r0 = ((s - n) * s) / (s + n);
    let r0s = (r0 * r0) / s;
    let om = s - cosine;
    let p2 = (om * om) / s;
    let p3 = (p2 * om) / s;
    let p4 = (p3 * om) / s;
    let p5 = (p4 * om) / s;
    r0s + ((s - r0s) * p5) / s
}

/// Calculates Schlick's approximation for specular reflection; the result
/// is a reflection probability within the unit interval.
pub fn schlick_approx(cosine: i64, refractive_index: i64) -> (r: i64)
    requires
        0 <= cosine <= SCALE,
        0 < refractive_index <= 16 * SCALE,
    ensures
        r == spec_schlick(cosine as int, refractive_index as int),
        0 <= r <= SCALE,
{
    let n = refractive_index;
    proof {
        assert(-16 * SCALE * SCALE <= (SCALE - n) * SCALE <= SCALE * SCALE) by (nonlinear_arith)
            requires
                0 < n <= 16 * SCALE,
        ;
        lemma_r0_unit(n as int);
    }
    let r0 = floor_div64((SCALE - n) * SCALE, SCALE + n);
    let r0s = fmul(r0, r0);
    proof {
        assert(0 <= r0 * r0 <= (SCALE as int) * (SCALE as int)) by (nonlinear_arith)
            requires
                -SCALE <= r0 <= SCALE,
        ;
        crate::vec3::lemma_ratio_bound(r0 * r0, SCALE as int, SCALE as int);
        vstd::arithmetic::div_mod::lemma_div_pos_is_pos(r0 * r0, SCALE as int);
    }
    let om = SCALE - cosine;
    let p2 = unit_mul(om, om);
    let p3 = unit_mul(p2, om);
    let p4 = unit_mul(p3, om);
    let p5 = unit_mul(p4, om);
    let tail = unit_mul(SCALE - r0s, p5);
    proof {
        assert(-(((SCALE - r0s) as int) * (SCALE as int)) <= ((SCALE - r0s) as int) * (
        p5 as int) <= ((SCALE - r0s) as int) * (SCALE as int)) by (nonlinear_arith)
            requires
                0 <= p5 <= SCALE,
                0 <= SCALE - r0s,
        ;
        crate::vec3::lemma_ratio_bound(
            ((SCALE - r0s) as int) * (p5 as int),
            (SCALE - r0s) as int,
            SCALE as int,
        );
    }
    r0s + tail
}

/// The base reflectance ratio lies within one unit in magnitude.
proof fn lemma_r0_unit(n: int)
    requires
        0 < n <= 16 * SCALE,
    ensures
        -SCALE <= ((SCALE - n) * SCALE) / (SCALE + n) <= SCALE,
{
    let s = SCALE as int;
    assert(-(s * (s + n)) <= (s - n) * s <= s * (s + n)) by (nonlinear_arith)
        requires
            0 < n,
            s == SCALE as int,
    ;
    crate::vec3::lemma_ratio_bound((s - n) * s, s, s + n);
}

/// Fixed-point product of two unit-interval scalars, staying in the unit
/// interval.
fn unit_mul(a: i64, b: i64) -> (r: i64)
    requires
        0 <= a <= SCALE,
        0 <= b <= SCALE,
    ensures
        r == (a * b) / (SCALE as int),
        0 <= r <= SCALE,
{
    proof {
        assert(0 <= a * b <= (SCALE as int) * (SCALE as int)) by (nonlinear_arith)
            requires
                0 <= a <= SCALE,
                0 <= b <= SCALE,
        ;
        vstd::arithmetic::div_mod::lemma_div_pos_is_pos(a * b, SCALE as int);
        crate::vec3::lemma_ratio_bound(a * b, SCALE as int, SCALE as int);
    }
    fmul(a, b)
}

/// The longitude coordinate of `get_sphere_uv`: the quadrant of the
/// horizontal direction plus a rational fraction within it, all over four.
pub open spec fn spec_sphere_u(n: Vec3) -> int {
    let ax = if n.x >= 0 { n.x as int } else { -n.x as int };
    let az = if n.z >= 0 { n.z as int } else { -n.z as int };
    if ax + az == 0 {
        0
    } else {
        let q = (az * SCALE) / (ax + az);
        let quadrant = if n.x >= 0 && n.z >= 0 {
            q
        } else if n.x < 0 && n.z >= 0 {
            2 * SCALE - q
        } else if n.x < 0 {
            2 * SCALE + q
        } else {
            4 * SCALE - q
        };
        quadrant / 4
    }
}

/// The texture coordinates of a point on the unit sphere: the latitude
/// mapped linearly from the normal's vertical component, and the longitude
/// by an exact piecewise-rational approximation of the azimuth (the
/// "diamond angle", exact on the axes and monotone around the equator).
pub fn get_sphere_uv(normal: &Vec3) -> (uv: (i64, i64))
    requires
        normal.bounded(SCALE as int),
    ensures
        uv.0 == spec_sphere_u(*normal),
        0 <= uv.0 <= SCALE,
        0 <= uv.1 <= SCALE,
        uv.1 == (normal.y + SCALE) / 2,
{
    let v = (normal.y + SCALE) / 2;
    let ax = if normal.x >= 0 {
        normal.x
    } else {
        -normal.x
    };
    let az = if normal.z >= 0 {
        normal.z
    } else {
        -normal.z
    };
    let u: i64;
    if ax + az == 0 {
        u = 0;
    } else {
        proof {
            assert(-(((SCALE as int)) * ((ax + az) as int)) <= az * SCALE <= (SCALE as int) * (
            (ax + az) as int)) by (nonlinear_arith)
                requires
                    0 <= az,
                    0 <= ax,
                    0 < ax + az,
            ;
            assert((SCALE as int) * ((ax + az) as int) == ((ax + az) as int) * (SCALE as int))
                by (nonlinear_arith);
            crate::vec3::lemma_ratio_bound(az * SCALE as int, SCALE as int, (ax + az) as int);
            vstd::arithmetic::div_mod::lemma_div_pos_is_pos(az * SCALE as int, (ax + az) as int);
        }
        let q = floor_div64(az * SCALE, ax + az);
        let quadrant: i64 = if normal.x >= 0 && normal.z >= 0 {
            q
        } else if normal.x < 0 && normal.z >= 0 {
            2 * SCALE - q
        } else if normal.x < 0 {
            2 * SCALE + q
        } else {
            4 * SCALE - q
        };
        u = quadrant / 4;
    }
    (u, v)
}

} // verus!
