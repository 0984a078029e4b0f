//! The path integrator: recursive radiance estimation.
//!
//! A ray is tested against the scene; a miss contributes the background
//! (black), a hit contributes the material's emission plus the attenuated
//! radiance of the scattered ray, recursing to a hard depth bound. The
//! estimate's channels are never negative and bounded by the emission cap
//! times the remaining depth budget; for deterministic scenes a miss is
//! exactly black, every hit contributes at least its emission, and a hit
//! on a light (which never scatters) is exactly its emission. The ghost
//! component counts scene queries, which never exceed one more than the
//! remaining depth budget.

use vstd::prelude::*;

verus! {

use crate::hit_record::HitRecord;
use crate::hitable::{spec_bvh_hit, wf_bvh_node, BvhNode};
use crate::material::{emissive_noise_free, spec_emit, Material};
use crate::num::{COORD_LIMIT, SCALE};
use crate::ray::Ray;
use crate::rng::RandomSource;
use crate::texture::{color_within, EMIT_LIMIT};
use crate::vec3::Vec3;

/// The recursion bound of the integrator.
pub const MAX_DEPTH: u32 = 10;

/// How many emission contributions a path starting at the given depth can
/// still gather (one, beyond the cutoff).
pub open spec fn depth_budget(depth: int) -> int {
    if depth >= MAX_DEPTH {
        1
    } else {
        MAX_DEPTH + 1 - depth
    }
}

/// Each channel of the first color is at least the corresponding channel
/// of the second.
pub open spec fn color_at_least(c: Vec3, e: Vec3) -> bool {
    &&& c.x >= e.x
    &&& c.y >= e.y
    &&& c.z >= e.z
}

/// Calculates a final color value for a given ray: the radiance estimate
/// gathered along one sampled light path. Never negative in any channel;
/// beyond the depth cutoff only the emission at the first hit is gathered.
pub fn get_color(ray: &Ray, world: &BvhNode, depth: u32, rng: &mut RandomSource) -> (c: Vec3)
    requires
        wf_bvh_node(*world),
        ray.wf(),
    ensures
        color_within(c, depth_budget(depth as int) * (EMIT_LIMIT as int)),
        ((*world.left).deterministic() && (*world.right).deterministic()) ==> match spec_bvh_hit(
            *world,
            *ray,
            1,
            COORD_LIMIT as int,
        ) {
            None => c == (Vec3 { x: 0, y: 0, z: 0 }),
            Some(rec) => rec.material matches Some(mt) ==> (emissive_noise_free(*mt) ==> {
                let emitted = spec_emit(*mt, rec.u as int, rec.v as int, rec.hit_point);
                &&& color_at_least(c, emitted)
                &&& ((*mt) is DiffuseLight ==> c == emitted)
            }),
        },
    decreases depth_budget(depth as int),
{
    let (c, _) = get_color_counted(ray, world, depth, rng);
    c
}

/// The radiance estimate together with the number of scene intersection
/// queries it performed (as a ghost value): the recursion is bounded by
/// the depth budget, so the query count never exceeds one more than the
/// remaining budget.
pub fn get_color_counted(ray: &Ray, world: &BvhNode, depth: u32, rng: &mut RandomSource) -> (res: (
    Vec3,
    Ghost<int>,
))
    requires
        wf_bvh_node(*world),
        ray.wf(),
    ensures
        color_within(res.0, depth_budget(depth as int) * (EMIT_LIMIT as int)),
        1 <= res.1@ <= depth_budget(depth as int),
        ((*world.left).deterministic() && (*world.right).deterministic()) ==> match spec_bvh_hit(
            *world,
            *ray,
            1,
            COORD_LIMIT as int,
        ) {
            None => res.0 == (Vec3 { x: 0, y: 0, z: 0 }),
            Some(rec) => rec.material matches Some(mt) ==> (emissive_noise_free(*mt) ==> {
                let emitted = spec_emit(*mt, rec.u as int, rec.v as int, rec.hit_point);
                &&& color_at_least(res.0, emitted)
                &&& ((*mt) is DiffuseLight ==> res.0 == emitted)
            }),
        },
    decreases depth_budget(depth as int),
{
    let mut rec = HitRecord::new();
    if world.hit(ray, 1, COORD_LIMIT, &mut rec, rng) {
        let material = match &rec.material {
            Some(m) => m,
            None => {
                return (Vec3 { x: 0, y: 0, z: 0 }, Ghost(1int));
            },
        };
        let (scattered_ray, attenuation, did_scatter) = (&**material).scatter(ray, &rec, rng);
        let emitted_light = (&**material).emit(rec.u, rec.v, &rec.hit_point);
        if depth < MAX_DEPTH && did_scatter {
            let (rest, count) = get_color_counted(&scattered_ray, world, depth + 1, rng);
            proof {
                lemma_attenuated_bound(attenuation.x as int, rest.x as int,
                    depth_budget(depth as int + 1));
                lemma_attenuated_bound(attenuation.y as int, rest.y as int,
                    depth_budget(depth as int + 1));
                lemma_attenuated_bound(attenuation.z as int, rest.z as int,
                    depth_budget(depth as int + 1));
            }
            let bounced = attenuation.mul(rest);
            let c = Vec3 {
                x: emitted_light.x + bounced.x,
                y: emitted_light.y + bounced.y,
                z: emitted_light.z + bounced.z,
            };
            (c, Ghost(count@ + 1))
        } else {
            (emitted_light, Ghost(1int))
        }
    } else {
        (Vec3 { x: 0, y: 0, z: 0 }, Ghost(1int))
    }
}

/// Attenuating a bounded channel by a unit-interval factor keeps it within
/// the same bound, and non-negative.
proof fn lemma_attenuated_bound(a: int, rest: int, budget: int)
    requires
        0 <= a <= SCALE,
        0 <= rest <= budget * EMIT_LIMIT,
        budget >= 0,
    ensures
        0 <= (a * rest) / (SCALE as int) <= budget * EMIT_LIMIT,
{
    assert(0 <= a * rest <= (budget * EMIT_LIMIT) * (SCALE as int)) by (nonlinear_arith)
        requires
            0 <= a <= SCALE,
            0 <= rest <= budget * EMIT_LIMIT,
    ;
    crate::vec3::lemma_ratio_bound(a * rest, budget * EMIT_LIMIT, SCALE as int);
    vstd::arithmetic::div_mod::lemma_div_pos_is_pos(a * rest, SCALE as int);
}

} // verus!
