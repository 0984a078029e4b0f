//! A Perlin-style gradient noise generator in fixed point.
//!
//! The tables are drawn once from the randomness capability; evaluation is
//! pure integer arithmetic. Contracts bound the noise amplitude — the exact
//! pattern is decorative, so no caller depends on particular values.

use vstd::prelude::*;

verus! {

use crate::num::{floor_div64, SCALE};
use crate::rng::RandomSource;
use crate::utils::random_point_in_unit_sphere;
use crate::vec3::{dot, spec_dot, unit_vector, Vec3};

/// Bound on the magnitude of a single noise sample.
pub const NOISE_LIMIT: i64 = 1572864;

/// Bound on the coordinates a noise lookup accepts (generous, so that
/// turbulence may rescale points upward).
pub const NOISE_ARG_LIMIT: i64 = 0x2000_0000_0000;

pub struct Perlin {
    pub rand_vec: Vec<Vec3>,
    pub x_perm: Vec<u8>,
    pub y_perm: Vec<u8>,
    pub z_perm: Vec<u8>,
}

impl Perlin {
    /// The tables have their full size and every gradient is unit-bounded.
    pub open spec fn wf(self) -> bool {
        &&& self.rand_vec@.len() == 256
        &&& forall|i: int|
            0 <= i < 256 ==> (#[trigger] self.rand_vec@[i]).bounded(SCALE as int)
        &&& self.x_perm@.len() == 256
        &&& self.y_perm@.len() == 256
        &&& self.z_perm@.len() == 256
    }

    /// Constructs a new generator: 256 random unit-bounded gradients and
    /// three shuffled permutations of the byte values.
    pub fn new(rng: &mut RandomSource) -> (p: Perlin)
        ensures
            p.wf(),
    {
        let mut rand_vec: Vec<Vec3> = Vec::new();
        let mut i: usize = 0;
        while i < 256
            invariant
                rand_vec@.len() == i as int,
                i <= 256,
                forall|k: int|
                    0 <= k < i as int ==> (#[trigger] rand_vec@[k]).bounded(SCALE as int),
            decreases 256 - i,
        {
            let v = unit_vector(random_point_in_unit_sphere(rng));
            rand_vec.push(v);
            i = i + 1;
        }
        Perlin { rand_vec, x_perm: gen_perm(rng), y_perm: gen_perm(rng), z_perm: gen_perm(rng) }
    }

    /// Calculates the noise value at the given point; bounded in magnitude
    /// by `NOISE_LIMIT` (twenty-four units).
    pub fn noise(&self, hit_point: &Vec3) -> (r: i64)
        requires
            self.wf(),
            hit_point.bounded(NOISE_ARG_LIMIT as int),
        ensures
            -NOISE_LIMIT <= r <= NOISE_LIMIT,
    {
        let i = floor_div64(hit_point.x, SCALE);
        let j = floor_div64(hit_point.y, SCALE);
        let k = floor_div64(hit_point.z, SCALE);
        proof {
            crate::num::lemma_div_magnitude(hit_point.x as int, SCALE as int);
            crate::num::lemma_div_magnitude(hit_point.y as int, SCALE as int);
            crate::num::lemma_div_magnitude(hit_point.z as int, SCALE as int);
            vstd::arithmetic::div_mod::lemma_fundamental_div_mod(hit_point.x as int, SCALE as int);
            vstd::arithmetic::div_mod::lemma_fundamental_div_mod(hit_point.y as int, SCALE as int);
            vstd::arithmetic::div_mod::lemma_fundamental_div_mod(hit_point.z as int, SCALE as int);
            vstd::arithmetic::div_mod::lemma_mod_bound(hit_point.x as int, SCALE as int);
            vstd::arithmetic::div_mod::lemma_mod_bound(hit_point.y as int, SCALE as int);
            vstd::arithmetic::div_mod::lemma_mod_bound(hit_point.z as int, SCALE as int);
        }
        let u = hit_point.x - i * SCALE;
        let v = hit_point.y - j * SCALE;
        let w = hit_point.z - k * SCALE;
        let mut acc: i64 = 0;
        let mut ci: usize = 0;
        while ci < 8
            invariant
                -((ci as int) * (196608 as int)) <= acc <= (ci as int) * 196608,
                ci <= 8,
                self.wf(),
                0 <= u < SCALE,
                0 <= v < SCALE,
                0 <= w < SCALE,
                -0x2000_0000_0000 <= i <= 0x2000_0000_0000,
                -0x2000_0000_0000 <= j <= 0x2000_0000_0000,
                -0x2000_0000_0000 <= k <= 0x2000_0000_0000,
            decreases 8 - ci,
        {
            let di = (ci % 2) as i64;
            let dj = ((ci / 2) % 2) as i64;
            let dk = (ci / 4) as i64;
            let xi = index_mod_256(i + di);
            let yi = index_mod_256(j + dj);
            let zi = index_mod_256(k + dk);
            let scrambled = (self.x_perm[xi] ^ self.y_perm[yi] ^ self.z_perm[zi]) as usize;
            let g = self.rand_vec[scrambled];
            let t = corner_term(g, u, v, w, di, dj, dk);
            acc = acc + t;
            ci = ci + 1;
        }
        acc
    }

    /// Calculates a composite noise value by summing `depth` noise samples
    /// with geometrically decreasing weights; the first weight also rescales
    /// the sample point.
    pub fn turbulance(&self, hit_point: Vec3, depth: u8, weight: i64) -> (r: i64)
        requires
            self.wf(),
            hit_point.bounded(crate::num::COORD_LIMIT as int),
            1 <= weight <= 0x100_0000,
            depth <= 16,
        ensures
            -0x2_0000_0000 <= r <= 0x2_0000_0000,
    {
        let mut acc: i64 = 0;
        let mut w = weight;
        let mut d: u8 = 0;
        while d < depth
            invariant
                1 <= w <= 0x100_0000,
                d <= depth <= 16,
                hit_point.bounded(crate::num::COORD_LIMIT as int),
                self.wf(),
                -((d as int) * 0x1800_0000) <= acc <= (d as int) * 0x1800_0000,
            decreases depth - d,
        {
            let px = floor_div64(hit_point.x * SCALE, w);
            let py = floor_div64(hit_point.y * SCALE, w);
            let pz = floor_div64(hit_point.z * SCALE, w);
            proof {
                lemma_turb_coord(hit_point.x as int, w as int);
                lemma_turb_coord(hit_point.y as int, w as int);
                lemma_turb_coord(hit_point.z as int, w as int);
            }
            let p = Vec3 { x: px, y: py, z: pz };
            let n = self.noise(&p);
            let sample = crate::num::fmul(w, n);
            proof {
                assert(-((0x100_0000 as int) * (NOISE_LIMIT as int)) <= (w as int) * (n as int)
                    <= (0x100_0000 as int) * (NOISE_LIMIT as int)) by (nonlinear_arith)
                    requires
                        1 <= w <= 0x100_0000,
                        -NOISE_LIMIT <= n <= NOISE_LIMIT,
                ;
                assert((0x100_0000 as int) * (NOISE_LIMIT as int) == (0x1800_0000 as int) * (
                SCALE as int)) by (nonlinear_arith);
                crate::vec3::lemma_ratio_bound(
                    (w as int) * (n as int),
                    0x1800_0000,
                    SCALE as int,
                );
            }
            acc = acc + sample;
            if w >= 2 {
                w = w / 2;
            }
            d = d + 1;
        }
        acc
    }
}

/// A rescaled turbulence coordinate stays within the noise argument bound.
proof fn lemma_turb_coord(c: int, w: int)
    requires
        -crate::num::COORD_LIMIT <= c <= crate::num::COORD_LIMIT,
        1 <= w,
    ensures
        -NOISE_ARG_LIMIT <= (c * SCALE) / w <= NOISE_ARG_LIMIT,
{
    assert(-((NOISE_ARG_LIMIT as int) * w) <= c * SCALE <= (NOISE_ARG_LIMIT as int) * w)
        by (nonlinear_arith)
        requires
            -crate::num::COORD_LIMIT <= c <= crate::num::COORD_LIMIT,
            1 <= w,
    ;
    crate::vec3::lemma_ratio_bound(c * SCALE, NOISE_ARG_LIMIT as int, w);
}

/// One corner's trilinearly smoothed contribution; bounded by three units.
fn corner_term(g: Vec3, u: i64, v: i64, w: i64, di: i64, dj: i64, dk: i64) -> (r: i64)
    requires
        g.bounded(SCALE as int),
        0 <= u < SCALE,
        0 <= v < SCALE,
        0 <= w < SCALE,
        0 <= di <= 1,
        0 <= dj <= 1,
        0 <= dk <= 1,
    ensures
        -196608 <= r <= 196608,
{
    let uu = smooth(u);
    let vv = smooth(v);
    let ww = smooth(w);
    let fu = if di == 1 {
        uu
    } else {
        SCALE - uu
    };
    let fv = if dj == 1 {
        vv
    } else {
        SCALE - vv
    };
    let fw = if dk == 1 {
        ww
    } else {
        SCALE - ww
    };
    let weight = Vec3 { x: u - di * SCALE, y: v - dj * SCALE, z: w - dk * SCALE };
    let d = dot(&g, &weight);
    proof {
        crate::vec3::lemma_dot_bound(g, weight, SCALE as int);
        assert(3 * (SCALE as int) * (SCALE as int) == (3 * SCALE) * (SCALE as int))
            by (nonlinear_arith);
        crate::vec3::lemma_ratio_bound(spec_dot(g, weight), 3 * SCALE, SCALE as int);
    }
    let dn = floor_div64(d, SCALE);
    let f1 = unit_frac_mul(fu, fv);
    let f2 = unit_frac_mul(f1, fw);
    proof {
        assert(-((3 * SCALE) * (SCALE as int)) <= (f2 as int) * (dn as int) <= (3 * SCALE) * (
        SCALE as int)) by (nonlinear_arith)
            requires
                0 <= f2 <= SCALE,
                -(3 * SCALE) <= dn <= 3 * SCALE,
        ;
        crate::vec3::lemma_ratio_bound((f2 as int) * (dn as int), 3 * SCALE, SCALE as int);
    }
    crate::num::fmul(f2, dn)
}

/// The cubic smoothstep `t * t * (3 - 2t)` in fixed point; maps the unit
/// interval into itself.
fn smooth(t: i64) -> (r: i64)
    requires
        0 <= t <= SCALE,
    ensures
        0 <= r <= SCALE,
{
    proof {
        assert(0 <= t * t <= (SCALE as int) * (SCALE as int)) by (nonlinear_arith)
            requires
                0 <= t <= SCALE,
        ;
        crate::vec3::lemma_ratio_bound(t * t, SCALE as int, SCALE as int);
        vstd::arithmetic::div_mod::lemma_div_pos_is_pos(t * t, SCALE as int);
    }
    let t2 = crate::num::fmul(t, t);
    let lin = 3 * SCALE - 2 * t;
    proof {
        assert(0 <= (t2 as int) * (lin as int) <= (3 * SCALE) * (SCALE as int))
            by (nonlinear_arith)
            requires
                0 <= t2 <= SCALE,
                SCALE <= lin <= 3 * SCALE,
        ;
        crate::vec3::lemma_ratio_bound((t2 as int) * (lin as int), 3 * SCALE, SCALE as int);
        vstd::arithmetic::div_mod::lemma_div_pos_is_pos((t2 as int) * (lin as int), SCALE as int);
    }
    crate::num::imin(crate::num::fmul(t2, lin), SCALE)
}

/// Product of two unit-interval fractions, staying in the unit interval.
fn unit_frac_mul(a: i64, b: i64) -> (r: i64)
    requires
        0 <= a <= SCALE,
        0 <= b <= SCALE,
    ensures
        0 <= r <= SCALE,
{
    proof {
        assert(0 <= a * b <= (SCALE as int) * (SCALE as int)) by (nonlinear_arith)
            requires
                0 <= a <= SCALE,
                0 <= b <= SCALE,
        ;
        crate::vec3::lemma_ratio_bound(a * b, SCALE as int, SCALE as int);
        vstd::arithmetic::div_mod::lemma_div_pos_is_pos(a * b, SCALE as int);
    }
    crate::num::fmul(a, b)
}

/// Reduces an arbitrary cell index into the table range.
fn index_mod_256(i: i64) -> (r: usize)
    requires
        -0x4000_0000_0000 <= i <= 0x4000_0000_0000,
    ensures
        r < 256,
{
    let q = floor_div64(i, 256);
    proof {
        vstd::arithmetic::div_mod::lemma_fundamental_div_mod(i as int, 256);
        vstd::arithmetic::div_mod::lemma_mod_bound(i as int, 256);
        crate::num::lemma_div_magnitude(i as int, 256);
    }
    (i - q * 256) as usize
}

/// Generates a randomly shuffled array of the discrete values 0-255.
fn gen_perm(rng: &mut RandomSource) -> (p: Vec<u8>)
    ensures
        p@.len() == 256,
{
    let mut perm: Vec<u8> = Vec::new();
    let mut i: usize = 0;
    while i < 256
        invariant
            perm@.len() == i as int,
            i <= 256,
        decreases 256 - i,
    {
        perm.push(i as u8);
        i = i + 1;
    }
    let mut j: usize = 255;
    while j > 0
        invariant
            perm@.len() == 256,
            j <= 255,
        decreases j,
    {
        let target = rng.sample_index((j + 1) as u64) as usize;
        let a = perm[j];
        let b = perm[target];
        perm.set(j, b);
        perm.set(target, a);
        j = j - 1;
    }
    perm
}

} // verus!
