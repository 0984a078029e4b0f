//! Rays in fixed-point world units.
//!
//! A ray is an origin, a direction and a time (for motion-blurred
//! primitives). The point at parameter `t` is exact up to the floor rounding
//! of one fixed-point product per component; its contract states the rounded
//! value precisely.

use vstd::prelude::*;

verus! {

use crate::num::{floor_div64, COORD_LIMIT, SCALE};
use crate::vec3::Vec3;

#[derive(Clone, Copy, PartialEq, Eq, Structural, Debug)]
pub struct Ray {
    pub origin: Vec3,
    pub direction: Vec3,
    /// The instant (within the camera's shutter window) the ray samples.
    pub time: i64,
}

/// The coordinate of the ray's point at parameter `t` along one axis:
/// origin plus the rescaled product of parameter and direction.
pub open spec fn spec_point_coord(o: int, d: int, t: int) -> int {
    o + (t * d) / (SCALE as int)
}

impl Ray {
    /// The ray lies within the coordinate envelope.
    pub open spec fn wf(self) -> bool {
        &&& self.origin.bounded(COORD_LIMIT as int)
        &&& self.direction.bounded(COORD_LIMIT as int)
        &&& -COORD_LIMIT <= self.time <= COORD_LIMIT
    }

    pub fn new(origin: Vec3, direction: Vec3, time: i64) -> (r: Ray)
        ensures
            r == (Ray { origin, direction, time }),
    {
        Ray { origin, direction, time }
    }

    /// The point reached after traveling `t` (in fixed-point units) along
    /// the ray, exactly as `spec_point_coord` states per component.
    pub fn point_at_param(&self, t: i64) -> (p: Vec3)
        requires
            self.wf(),
            -COORD_LIMIT <= t <= COORD_LIMIT,
        ensures
            p.x == spec_point_coord(self.origin.x as int, self.direction.x as int, t as int),
            p.y == spec_point_coord(self.origin.y as int, self.direction.y as int, t as int),
            p.z == spec_point_coord(self.origin.z as int, self.direction.z as int, t as int),
    {
        Vec3 {
            x: point_coord(self.origin.x, self.direction.x, t),
            y: point_coord(self.origin.y, self.direction.y, t),
            z: point_coord(self.origin.z, self.direction.z, t),
        }
    }
}

/// One component of a ray's point at parameter `t`.
pub fn point_coord(o: i64, d: i64, t: i64) -> (r: i64)
    requires
        -COORD_LIMIT <= o <= COORD_LIMIT,
        -COORD_LIMIT <= d <= COORD_LIMIT,
        -COORD_LIMIT <= t <= COORD_LIMIT,
    ensures
        r == spec_point_coord(o as int, d as int, t as int),
{
    proof {
        assert(-0x40_0000_0000_0000 <= (t as int) * (d as int) <= 0x40_0000_0000_0000)
            by (nonlinear_arith)
            requires
                -COORD_LIMIT <= t <= COORD_LIMIT,
                -COORD_LIMIT <= d <= COORD_LIMIT,
        ;
        crate::num::lemma_div_magnitude((t as int) * (d as int), SCALE as int);
    }
    let p = t * d;
    o + floor_div64(p, SCALE)
}

} // verus!
