//! The result of a successful ray-primitive intersection.

use vstd::prelude::*;

verus! {

use crate::material::Material;
use crate::num::{COORD_LIMIT, SCALE};
use crate::vec3::Vec3;
use std::sync::Arc;

pub struct HitRecord {
    /// Ray parameter of the intersection, in fixed-point units.
    pub t: i64,
    pub hit_point: Vec3,
    /// Surface normal; roughly unit length (within two units, to leave room
    /// for flipping, interpolation and rotation round-off).
    pub normal: Vec3,
    /// The material at the hit point; `None` marks a fresh record that no
    /// primitive has filled (the integrator then renders background).
    pub material: Option<Arc<Material>>,
    pub u: i64,
    pub v: i64,
}

impl HitRecord {
    /// Everything a filled record promises its consumers: the hit data is
    /// inside the numeric envelope and the material (if any) is admissible.
    pub open spec fn wf(self) -> bool {
        &&& -COORD_LIMIT <= self.t <= COORD_LIMIT
        &&& self.hit_point.bounded(COORD_LIMIT as int)
        &&& self.normal.bounded(2 * SCALE as int)
        &&& 0 <= self.u <= SCALE
        &&& 0 <= self.v <= SCALE
        &&& match self.material {
            Some(m) => m.wf(),
            None => true,
        }
    }

    /// A blank record: parameter minus one unit, zero vectors, no material.
    pub fn new() -> (r: HitRecord)
        ensures
            r.t == -SCALE,
            r.hit_point == (Vec3 { x: 0, y: 0, z: 0 }),
            r.normal == (Vec3 { x: 0, y: 0, z: 0 }),
            r.material is None,
            r.u == 0,
            r.v == 0,
            r.wf(),
    {
        HitRecord {
            t: -SCALE,
            hit_point: Vec3 { x: 0, y: 0, z: 0 },
            normal: Vec3 { x: 0, y: 0, z: 0 },
            material: None,
            u: 0,
            v: 0,
        }
    }

    /// Updates the record with the values existing in `other`.
    pub fn from(&mut self, other: &HitRecord)
        ensures
            final(self).t == other.t,
            final(self).hit_point == other.hit_point,
            final(self).normal == other.normal,
            final(self).material == other.material,
            final(self).u == other.u,
            final(self).v == other.v,
    {
        self.t = other.t;
        self.hit_point = other.hit_point;
        self.normal = other.normal;
        self.material = match &other.material {
            Some(m) => Some(crate::material::clone_material(m)),
            None => None,
        };
        self.u = other.u;
        self.v = other.v;
    }
}

} // verus!
