//! Stationary and moving spheres.
//!
//! The stationary sphere's hit test is mirrored exactly by a specification
//! function (`spec_sphere_hit`): the quadratic is solved in exact integers,
//! the discriminant's root taken with the integer square root, and the
//! resulting record's fields pinned down including all floor roundings.

use vstd::prelude::*;

verus! {

use crate::hit_record::HitRecord;
use crate::material::{clone_material, Material};
use crate::num::{floor_div, floor_div64, imax, imin, COORD_LIMIT, GEOM_LIMIT, SCALE};
use crate::ray::{spec_point_coord, Ray};
use crate::utils::{get_sphere_uv, spec_sphere_u};
use crate::vec3::{dot, spec_dot, spec_isqrt, Vec3};
use std::sync::Arc;

/// Represents a stationary sphere.
pub struct Sphere {
    pub center: Vec3,
    pub radius: i64,
    pub material: Arc<Material>,
}

/// Represents a sphere that moves linearly from one center to another over
/// a specific timeframe.
pub struct MovingSphere {
    pub radius: i64,
    pub start_center: Vec3,
    pub end_center: Vec3,
    pub start_time: i64,
    pub end_time: i64,
    pub material: Arc<Material>,
}

impl Sphere {
    pub open spec fn wf(self) -> bool {
        &&& self.center.bounded(GEOM_LIMIT as int)
        &&& 0 < self.radius <= GEOM_LIMIT
        &&& self.material.wf()
    }
}

/// The elapsed fraction of the motion window at the given time, clipped
/// into the window, in fixed-point units.
pub open spec fn spec_clip_fraction(m: MovingSphere, time: int) -> int {
    let span = m.end_time - m.start_time;
    let el0 = time - m.start_time;
    let el = if el0 < 0 {
        0
    } else if el0 > span {
        span
    } else {
        el0
    };
    (el * SCALE) / span
}

/// The moving sphere's center at the given time: the start center plus the
/// clipped elapsed fraction of the displacement, floor-rounded per
/// component.
pub open spec fn spec_moving_center(m: MovingSphere, time: int) -> Vec3 {
    let f = spec_clip_fraction(m, time);
    Vec3 {
        x: (m.start_center.x + ((m.end_center.x - m.start_center.x) * f) / (SCALE as int)) as i64,
        y: (m.start_center.y + ((m.end_center.y - m.start_center.y) * f) / (SCALE as int)) as i64,
        z: (m.start_center.z + ((m.end_center.z - m.start_center.z) * f) / (SCALE as int)) as i64,
    }
}

/// The stationary sphere standing in for the moving sphere at one instant:
/// the interpolated center clipped into the geometry envelope, with the
/// same radius and material.
pub open spec fn spec_momentary(m: MovingSphere, time: int) -> Sphere {
    let c = spec_moving_center(m, time);
    Sphere {
        center: Vec3 {
            x: (if c.x < -GEOM_LIMIT {
                -GEOM_LIMIT as int
            } else if c.x > GEOM_LIMIT {
                GEOM_LIMIT as int
            } else {
                c.x as int
            }) as i64,
            y: (if c.y < -GEOM_LIMIT {
                -GEOM_LIMIT as int
            } else if c.y > GEOM_LIMIT {
                GEOM_LIMIT as int
            } else {
                c.y as int
            }) as i64,
            z: (if c.z < -GEOM_LIMIT {
                -GEOM_LIMIT as int
            } else if c.z > GEOM_LIMIT {
                GEOM_LIMIT as int
            } else {
                c.z as int
            }) as i64,
        },
        radius: m.radius,
        material: m.material,
    }
}

impl MovingSphere {
    pub open spec fn wf(self) -> bool {
        &&& self.start_center.bounded(GEOM_LIMIT as int)
        &&& self.end_center.bounded(GEOM_LIMIT as int)
        &&& 0 < self.radius <= GEOM_LIMIT
        &&& self.start_time < self.end_time
        &&& -COORD_LIMIT <= self.start_time
        &&& self.end_time <= COORD_LIMIT
        &&& self.material.wf()
    }

    /// Calculates the sphere's center at the given time: the start center
    /// plus the elapsed fraction of the window (clipped to it) times the
    /// total displacement.
    pub fn get_center(&self, time: i64) -> (c: Vec3)
        requires
            self.wf(),
            -COORD_LIMIT <= time <= COORD_LIMIT,
        ensures
            c == spec_moving_center(*self, time as int),
            c.bounded(GEOM_LIMIT as int + SCALE as int),
    {
        let span = self.end_time - self.start_time;
        let el = imax(0, imin(time - self.start_time, span));
        proof {
            assert(0 <= el * SCALE <= (0x4000_0000_0000 as int) * span) by (nonlinear_arith)
                requires
                    0 <= el <= span,
                    0 < span <= 0x1000_0000_0000,
            ;
            crate::vec3::lemma_ratio_bound(el * SCALE, 0x4000_0000_0000, span as int);
            vstd::arithmetic::div_mod::lemma_div_pos_is_pos(el * SCALE, span as int);
        }
        let frac = floor_div64(el * SCALE, span);
        proof {
            assert((el as int) * SCALE <= (SCALE as int) * span) by (nonlinear_arith)
                requires
                    0 <= el <= span,
                    0 < span,
            ;
            crate::vec3::lemma_ratio_bound(el * SCALE, SCALE as int, span as int);
        }
        let dx = self.end_center.x - self.start_center.x;
        let dy = self.end_center.y - self.start_center.y;
        let dz = self.end_center.z - self.start_center.z;
        proof {
            lemma_lerp_component(self.start_center.x as int, self.end_center.x as int,
                frac as int);
            lemma_lerp_component(self.start_center.y as int, self.end_center.y as int,
                frac as int);
            lemma_lerp_component(self.start_center.z as int, self.end_center.z as int,
                frac as int);
        }
        let off = Vec3 { x: dx, y: dy, z: dz }.scale(frac);
        Vec3 {
            x: self.start_center.x + off.x,
            y: self.start_center.y + off.y,
            z: self.start_center.z + off.z,
        }
    }
}

/// A clipped linear interpolation between two envelope-bounded scalars
/// stays within one unit of the envelope.
proof fn lemma_lerp_component(sc: int, ec: int, f: int)
    requires
        -GEOM_LIMIT <= sc <= GEOM_LIMIT,
        -GEOM_LIMIT <= ec <= GEOM_LIMIT,
        0 <= f <= SCALE,
    ensures
        -(GEOM_LIMIT as int) - SCALE <= sc + ((ec - sc) * f) / (SCALE as int) <= GEOM_LIMIT
            + SCALE,
{
    let d = ec - sc;
    if d >= 0 {
        assert(0 <= d * f <= d * SCALE) by (nonlinear_arith)
            requires
                0 <= f <= SCALE,
                d >= 0,
        ;
        assert(d * SCALE == (SCALE as int) * d) by (nonlinear_arith);
        crate::vec3::lemma_ratio_bound(d * f, d, SCALE as int);
        vstd::arithmetic::div_mod::lemma_div_pos_is_pos(d * f, SCALE as int);
    } else {
        assert(-((-d) * SCALE) <= d * f <= 0) by (nonlinear_arith)
            requires
                0 <= f <= SCALE,
                d < 0,
        ;
        assert((-d) * SCALE == SCALE * (-d)) by (nonlinear_arith);
        crate::vec3::lemma_ratio_bound(d * f, -d, SCALE as int);
        crate::num::lemma_div_magnitude(d * f, SCALE as int);
    }
}

/// The record a sphere hit produces at an accepted parameter `t`: the
/// floor-rounded ray point, the clamped rescaled outward normal and the
/// spherical texture coordinates — or nothing, when the rounded point
/// strays outside the tight bounds (a rounding guard that keeps every
/// reported hit inside the sphere's padded box).
pub open spec fn spec_sphere_record(
    center: Vec3,
    radius: int,
    material: Arc<Material>,
    r: Ray,
    t: int,
) -> Option<HitRecord> {
    let px = spec_point_coord(r.origin.x as int, r.direction.x as int, t);
    let py = spec_point_coord(r.origin.y as int, r.direction.y as int, t);
    let pz = spec_point_coord(r.origin.z as int, r.direction.z as int, t);
    if center.x - radius <= px <= center.x + radius && center.y - radius <= py <= center.y
        + radius && center.z - radius <= pz <= center.z + radius {
        let n = Vec3 {
            x: (clamp_unit(((px - center.x) * SCALE) / radius)) as i64,
            y: (clamp_unit(((py - center.y) * SCALE) / radius)) as i64,
            z: (clamp_unit(((pz - center.z) * SCALE) / radius)) as i64,
        };
        Some(
            HitRecord {
                t: t as i64,
                hit_point: Vec3 { x: px as i64, y: py as i64, z: pz as i64 },
                normal: n,
                material: Some(material),
                u: spec_sphere_u(n) as i64,
                v: ((n.y + SCALE) / 2) as i64,
            },
        )
    } else {
        None
    }
}

/// Clips a scalar into one unit in magnitude.
pub open spec fn clamp_unit(x: int) -> int {
    if x < -SCALE {
        -SCALE as int
    } else if x > SCALE {
        SCALE as int
    } else {
        x
    }
}

/// The exact meaning of the stationary sphere's hit test: solve the
/// quadratic; a positive discriminant yields two roots in ascending order,
/// and the first root strictly inside `(tmin, tmax)` produces the record.
pub open spec fn spec_sphere_hit(s: Sphere, r: Ray, tmin: int, tmax: int) -> Option<HitRecord> {
    let ocx = r.origin.x - s.center.x;
    let ocy = r.origin.y - s.center.y;
    let ocz = r.origin.z - s.center.z;
    let a = spec_dot(r.direction, r.direction);
    let b = ocx * r.direction.x + ocy * r.direction.y + ocz * r.direction.z;
    let c = ocx * ocx + ocy * ocy + ocz * ocz - s.radius * s.radius;
    let disc = b * b - a * c;
    if disc > 0 {
        let sq = spec_isqrt(disc);
        let t1 = ((-b - sq) * SCALE) / a;
        let t2 = ((-b + sq) * SCALE) / a;
        if tmin < t1 && t1 < tmax {
            spec_sphere_record(s.center, s.radius as int, s.material, r, t1)
        } else if tmin < t2 && t2 < tmax {
            spec_sphere_record(s.center, s.radius as int, s.material, r, t2)
        } else {
            None
        }
    } else {
        None
    }
}

impl Sphere {
    /// The stationary sphere's hit test, exactly `spec_sphere_hit`.
    pub fn hit(&self, ray: &Ray, t_min: i64, t_max: i64) -> (res: Option<HitRecord>)
        requires
            self.wf(),
            ray.wf(),
            -COORD_LIMIT <= t_min <= COORD_LIMIT,
            -COORD_LIMIT <= t_max <= COORD_LIMIT,
        ensures
            res == spec_sphere_hit(*self, *ray, t_min as int, t_max as int),
            res matches Some(rec) ==> rec.wf() && t_min < rec.t < t_max && rec.material is Some,
    {
        let oc = Vec3 {
            x: ray.origin.x - self.center.x,
            y: ray.origin.y - self.center.y,
            z: ray.origin.z - self.center.z,
        };
        let a = dot(&ray.direction, &ray.direction);
        let b = dot(&oc, &ray.direction);
        proof {
            crate::vec3::lemma_dot_bound(ray.direction, ray.direction, COORD_LIMIT as int);
            crate::vec3::lemma_dot_bound(
                Vec3 {
                    x: (ray.origin.x - self.center.x) as i64,
                    y: (ray.origin.y - self.center.y) as i64,
                    z: (ray.origin.z - self.center.z) as i64,
                },
                ray.direction,
                (COORD_LIMIT + GEOM_LIMIT) as int,
            );
            crate::vec3::lemma_dot_bound(
                Vec3 {
                    x: (ray.origin.x - self.center.x) as i64,
                    y: (ray.origin.y - self.center.y) as i64,
                    z: (ray.origin.z - self.center.z) as i64,
                },
                Vec3 {
                    x: (ray.origin.x - self.center.x) as i64,
                    y: (ray.origin.y - self.center.y) as i64,
                    z: (ray.origin.z - self.center.z) as i64,
                },
                (COORD_LIMIT + GEOM_LIMIT) as int,
            );
            assert(3 * (COORD_LIMIT as int) * (COORD_LIMIT as int) < 0x1000_0000_0000_0000
                && 3 * ((COORD_LIMIT + GEOM_LIMIT) as int) * ((COORD_LIMIT + GEOM_LIMIT) as int)
                < 0x800_0000_0000_0000 && 0 <= (GEOM_LIMIT as int) * (GEOM_LIMIT as int)
                < 0x800_0000_0000_0000) by (nonlinear_arith);
            assert(0 <= (self.radius as int) * (self.radius as int) <= (GEOM_LIMIT as int) * (
            GEOM_LIMIT as int)) by (nonlinear_arith)
                requires
                    0 < self.radius <= GEOM_LIMIT,
            ;
        }
        let c = dot(&oc, &oc) - self.radius * self.radius;
        proof {
            lemma_quadratic_ranges(a as int, b as int, c as int);
        }
        let disc = (b as i128) * (b as i128) - (a as i128) * (c as i128);
        if disc > 0 {
            proof {
                assert(a > 0) by (nonlinear_arith)
                    requires
                        a == spec_dot(ray.direction, ray.direction),
                        b == spec_dot(
                            Vec3 {
                                x: (ray.origin.x - self.center.x) as i64,
                                y: (ray.origin.y - self.center.y) as i64,
                                z: (ray.origin.z - self.center.z) as i64,
                            },
                            ray.direction,
                        ),
                        (b as int) * (b as int) - (a as int) * (c as int) > 0,
                        a >= 0,
                ;
            }
            let sq128 = crate::num::isqrt(disc as u128);
            proof {
                lemma_sqrt_range(disc as int, sq128 as int);
                crate::vec3::lemma_isqrt_unique(disc as int, sq128 as int);
            }
            let sq = sq128 as i128;
            let num1 = (-(b as i128) - sq) * (SCALE as i128);
            proof {
                lemma_root_num_range(b as int, sq as int);
                crate::num::lemma_div_magnitude(
                    ((-(b as int) - sq) * SCALE) as int,
                    a as int,
                );
            }
            let t1w = floor_div(num1, a as i128);
            if (t_min as i128) < t1w && t1w < (t_max as i128) {
                let t1 = t1w as i64;
                return self.make_record(ray, t1);
            }
            let num2 = (-(b as i128) + sq) * (SCALE as i128);
            proof {
                crate::num::lemma_div_magnitude(
                    ((-(b as int) + sq) * SCALE) as int,
                    a as int,
                );
            }
            let t2w = floor_div(num2, a as i128);
            if (t_min as i128) < t2w && t2w < (t_max as i128) {
                let t2 = t2w as i64;
                return self.make_record(ray, t2);
            }
            None
        } else {
            None
        }
    }

    /// Builds the hit record at an accepted parameter, exactly as
    /// `spec_sphere_record` states (including the rounding guard).
    fn make_record(&self, ray: &Ray, t: i64) -> (res: Option<HitRecord>)
        requires
            self.wf(),
            ray.wf(),
            -COORD_LIMIT <= t <= COORD_LIMIT,
        ensures
            res == spec_sphere_record(self.center, self.radius as int, self.material, *ray,
                t as int),
            res matches Some(rec) ==> rec.wf() && rec.t == t && rec.material is Some,
    {
        let p = ray.point_at_param(t);
        if self.center.x - self.radius <= p.x && p.x <= self.center.x + self.radius
            && self.center.y - self.radius <= p.y && p.y <= self.center.y + self.radius
            && self.center.z - self.radius <= p.z && p.z <= self.center.z + self.radius {
            let nx = clamp_unit_exec(scaled_offset(p.x, self.center.x, self.radius));
            let ny = clamp_unit_exec(scaled_offset(p.y, self.center.y, self.radius));
            let nz = clamp_unit_exec(scaled_offset(p.z, self.center.z, self.radius));
            let n = Vec3 { x: nx, y: ny, z: nz };
            let (u, v) = get_sphere_uv(&n);
            Some(
                HitRecord {
                    t,
                    hit_point: p,
                    normal: n,
                    material: Some(clone_material(&self.material)),
                    u,
                    v,
                },
            )
        } else {
            None
        }
    }
}

/// One component of the rescaled center-to-point offset.
fn scaled_offset(p: i64, c: i64, radius: i64) -> (r: i64)
    requires
        c - radius <= p <= c + radius,
        0 < radius <= GEOM_LIMIT,
        -COORD_LIMIT <= c <= COORD_LIMIT,
    ensures
        r == ((p - c) * SCALE) / (radius as int),
        -2 * SCALE <= r <= 2 * SCALE,
{
    proof {
        assert(-((2 * SCALE) * radius) <= (p - c) * SCALE <= (2 * SCALE) * radius)
            by (nonlinear_arith)
            requires
                c - radius <= p <= c + radius,
                0 < radius,
        ;
        crate::vec3::lemma_ratio_bound((p - c) * SCALE, 2 * SCALE, radius as int);
    }
    floor_div64((p - c) * SCALE, radius)
}

/// Clips a scalar into one unit in magnitude, exactly `clamp_unit`.
fn clamp_unit_exec(x: i64) -> (r: i64)
    ensures
        r == clamp_unit(x as int),
        -SCALE <= r <= SCALE,
{
    imax(-SCALE, imin(x, SCALE))
}

/// The quadratic's coefficients stay small enough for the discriminant to
/// be formed in wide arithmetic.
proof fn lemma_quadratic_ranges(a: int, b: int, c: int) by (nonlinear_arith)
    requires
        -0x1000_0000_0000_0000 <= a <= 0x1000_0000_0000_0000,
        -0x1000_0000_0000_0000 <= b <= 0x1000_0000_0000_0000,
        -0x1000_0000_0000_0000 <= c <= 0x1000_0000_0000_0000,
    ensures
        -0x100_0000_0000_0000_0000_0000_0000_0000 <= b * b
            <= 0x100_0000_0000_0000_0000_0000_0000_0000,
        -0x100_0000_0000_0000_0000_0000_0000_0000 <= a * c
            <= 0x100_0000_0000_0000_0000_0000_0000_0000,
{
}

/// The square root of the discriminant fits well under the coefficient
/// scale.
proof fn lemma_sqrt_range(disc: int, sq: int) by (nonlinear_arith)
    requires
        0 < disc <= 0x200_0000_0000_0000_0000_0000_0000_0000,
        sq >= 0,
        sq * sq <= disc,
    ensures
        sq <= 0x2_0000_0000_0000_0000,
{
}

/// The root numerator fits in wide arithmetic.
proof fn lemma_root_num_range(b: int, sq: int) by (nonlinear_arith)
    requires
        -0x1000_0000_0000_0000 <= b <= 0x1000_0000_0000_0000,
        0 <= sq <= 0x2_0000_0000_0000_0000,
    ensures
        -(0x4_0000_0000_0000_0000 * (SCALE as int)) <= (-b - sq) * SCALE <= 0x4_0000_0000_0000_0000
            * (SCALE as int),
        -(0x4_0000_0000_0000_0000 * (SCALE as int)) <= (-b + sq) * SCALE <= 0x4_0000_0000_0000_0000
            * (SCALE as int),
{
}

/// The round trip onto a sphere: a ray starting a distance `d` from the
/// sphere's center (at the origin) and aimed straight at it along an axis
/// with a unit direction reports a hit at parameter exactly `d - r`, at
/// the point where the axis pierces the sphere, with the exact outward
/// unit normal. (Along an axis every intermediate quantity is exact; for
/// general directions the same identities hold up to the floor roundings
/// that the hit test's specification spells out.)
pub proof fn lemma_sphere_round_trip(s: Sphere, r: Ray, d: i64)
    requires
        s.wf(),
        s.center == (Vec3 { x: 0, y: 0, z: 0 }),
        0 < s.radius < d <= GEOM_LIMIT,
        r.origin == (Vec3 { x: 0, y: 0, z: d }),
        r.direction == (Vec3 { x: 0, y: 0, z: (-SCALE) as i64 }),
        r.time == 0,
    ensures
        spec_sphere_hit(s, r, 0, COORD_LIMIT as int) matches Some(rec) ==> {
            &&& rec.t == d - s.radius
            &&& rec.hit_point == (Vec3 { x: 0, y: 0, z: s.radius })
            &&& rec.normal == (Vec3 { x: 0, y: 0, z: SCALE })
        },
        spec_sphere_hit(s, r, 0, COORD_LIMIT as int) is Some,
{
    let rad = s.radius as int;
    let a = spec_dot(r.direction, r.direction);
    let b = (r.origin.x - s.center.x) * r.direction.x + (r.origin.y - s.center.y) * r.direction.y
        + (r.origin.z - s.center.z) * r.direction.z;
    let c = d * d - rad * rad;
    let disc = b * b - a * c;
    assert(a == (SCALE as int) * SCALE && b == -(d * SCALE) && disc == ((SCALE * rad) as int) * (
    SCALE * rad)) by (nonlinear_arith)
        requires
            a == 0 * 0 + 0 * 0 + (-SCALE) * (-SCALE),
            b == 0 * 0 + 0 * 0 + d * (-SCALE),
            disc == b * b - a * (d * d - rad * rad),
            0 < rad < d,
    ;
    assert(disc > 0) by (nonlinear_arith)
        requires
            disc == ((SCALE * rad) as int) * (SCALE * rad),
            0 < rad <= GEOM_LIMIT,
    ;
    assert(((SCALE * rad) as int) * (SCALE * rad) <= disc && disc < ((SCALE * rad) as int + 1) * (
    (SCALE * rad) as int + 1)) by (nonlinear_arith)
        requires
            disc == ((SCALE * rad) as int) * (SCALE * rad),
            rad > 0,
    ;
    crate::vec3::lemma_isqrt_unique(disc, (SCALE * rad) as int);
    let sq = spec_isqrt(disc);
    assert(sq == SCALE * rad);
    // First root: ((d * SCALE - SCALE * rad) * SCALE) / (SCALE * SCALE) == d - rad.
    let t1 = ((-b - sq) * SCALE) / a;
    assert((-b - sq) * SCALE == (a as int) * (d - rad)) by (nonlinear_arith)
        requires
            b == -(d * SCALE),
            sq == SCALE * rad,
            a == (SCALE as int) * SCALE,
    ;
    vstd::arithmetic::div_mod::lemma_div_multiples_vanish(d - rad, a);
    assert(t1 == d - rad);
    assert(0 < t1 < COORD_LIMIT);
    // The point at the root: z = d + ((d - rad) * -SCALE) / SCALE == rad.
    assert(spec_point_coord(0, 0, t1) == 0) by {
        assert(t1 * 0 == 0) by (nonlinear_arith);
        vstd::arithmetic::div_mod::lemma_div_of0(SCALE as int);
    }
    assert(spec_point_coord(d as int, -SCALE as int, t1) == rad) by {
        assert(t1 * (-SCALE) == (SCALE as int) * (-(d - rad))) by (nonlinear_arith)
            requires
                t1 == d - rad,
        ;
        vstd::arithmetic::div_mod::lemma_div_multiples_vanish(-(d - rad), SCALE as int);
    }
    // The normal: ((rad - 0) * SCALE) / rad == SCALE, within the clamp.
    assert(((rad - 0) * SCALE) == (rad as int) * SCALE) by (nonlinear_arith);
    vstd::arithmetic::div_mod::lemma_div_multiples_vanish(SCALE as int, rad);
    assert((rad * SCALE) == rad * (SCALE as int)) by (nonlinear_arith);
    assert(((0 - 0) * SCALE as int) == 0) by (nonlinear_arith);
    vstd::arithmetic::div_mod::lemma_div_of0(rad);
    assert(clamp_unit(((rad - 0) * SCALE) / rad) == SCALE);
    assert(clamp_unit(((0 - 0) * SCALE) / rad) == 0);
}

} // verus!
