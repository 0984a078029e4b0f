//! Participating media: volumes that stochastically scatter rays that pass
//! through a boundary, with constant or noise-modulated density.

use vstd::prelude::*;

verus! {

use crate::hitable::Hitable;
use crate::material::{Isotropic, Material};
use crate::num::{floor_div64, SCALE};
use crate::perlin::Perlin;
use crate::rng::RandomSource;
use crate::texture::Texture;
use std::sync::Arc;

/// The fixed-point natural logarithm of two.
pub const LN2_FIX: i64 = 45426;

/// Cap on a sampled free-flight logarithm (a draw of exactly one would
/// demand an infinite flight).
pub const LN_CAP: i64 = 1048576;

/// Represents a participating medium with a constant density.
pub struct ConstantMedium {
    /// The boundary within which the medium is contained.
    pub boundary: Arc<Hitable>,
    /// The density of the medium.
    pub density: i64,
    /// Describes the way light is scattered within the medium, as a
    /// material (the medium's phase function).
    pub phase_func: Arc<Material>,
}

/// Represents a participating medium whose density varies with a noise
/// field, up to a maximum density.
pub struct VariableMedium {
    pub boundary: Arc<Hitable>,
    pub max_density: i64,
    pub noise_func: Perlin,
    pub phase_func: Arc<Material>,
}

impl ConstantMedium {
    pub fn new(boundary: Arc<Hitable>, density: i64, texture: Arc<Texture>) -> (m: ConstantMedium)
        requires
            16 <= density <= 0x1000_0000,
            texture.wf(),
            texture.max_le(SCALE as int),
        ensures
            m.boundary == boundary,
            m.density == density,
            m.phase_func.wf(),
    {
        let phase_func = Arc::new(Material::Isotropic(Isotropic { albedo: texture }));
        ConstantMedium { boundary, density, phase_func }
    }
}

impl VariableMedium {
    pub fn new(
        boundary: Arc<Hitable>,
        max_density: i64,
        texture: Arc<Texture>,
        rng: &mut RandomSource,
    ) -> (m: VariableMedium)
        requires
            16 <= max_density <= 0x1000_0000,
            texture.wf(),
            texture.max_le(SCALE as int),
        ensures
            m.boundary == boundary,
            m.max_density == max_density,
            m.phase_func.wf(),
            m.noise_func.wf(),
    {
        let phase_func = Arc::new(Material::Isotropic(Isotropic { albedo: texture }));
        VariableMedium { boundary, max_density, noise_func: Perlin::new(rng), phase_func }
    }
}

/// The (approximate) negated logarithm of one minus a unit-interval draw:
/// the free-flight exponent of a homogeneous medium. The survival value
/// `1 - x` is halved into the top octave and the remainder interpolated
/// linearly, so the result is zero exactly for a draw of zero, positive
/// otherwise, and capped for a draw of one.
pub fn neg_ln_one_minus(x: i64) -> (r: i64)
    requires
        0 <= x <= SCALE,
    ensures
        0 <= r <= LN_CAP,
        (r == 0) <==> (x == 0),
{
    let y = SCALE - x;
    if y == 0 {
        return LN_CAP;
    }
    let mut y2 = y;
    let mut k: i64 = 0;
    while y2 <= SCALE / 2 && k < 17
        invariant
            1 <= y2 <= SCALE,
            0 <= k <= 17,
            y2 >= y,
            y >= 1,
            (k == 0) ==> y2 == y,
            (k >= 1) ==> y <= SCALE / 2,
        decreases 17 - k,
    {
        y2 = y2 * 2;
        k = k + 1;
    }
    let frac = SCALE - y2;
    proof {
        assert(0 <= 2 * LN2_FIX * frac <= (2 * LN2_FIX) * SCALE) by (nonlinear_arith)
            requires
                0 <= frac <= SCALE,
        ;
        crate::vec3::lemma_ratio_bound(2 * LN2_FIX * frac, 2 * LN2_FIX, SCALE as int);
        vstd::arithmetic::div_mod::lemma_div_pos_is_pos(2 * LN2_FIX * frac, SCALE as int);
        if frac >= 1 {
            assert(2 * LN2_FIX * frac >= SCALE) by (nonlinear_arith)
                requires
                    frac >= 1,
            ;
            assert((2 * LN2_FIX * frac) / (SCALE as int) >= 1) by {
                vstd::arithmetic::div_mod::lemma_div_is_ordered(
                    SCALE as int,
                    2 * LN2_FIX * frac,
                    SCALE as int,
                );
                vstd::arithmetic::div_mod::lemma_div_by_self(SCALE as int);
            }
        }
    }
    let tail = floor_div64(2 * LN2_FIX * frac, SCALE);
    let r = k * LN2_FIX + tail;
    proof {
        if x == 0 {
            assert(y == SCALE && k == 0 && y2 == SCALE && frac == 0);
            assert(2 * LN2_FIX * frac == 0) by (nonlinear_arith)
                requires
                    frac == 0,
            ;
            vstd::arithmetic::div_mod::lemma_div_of0(SCALE as int);
            assert(tail == 0 && r == 0);
        } else {
            if k == 0 {
                assert(y2 == y && frac == SCALE - y2 && frac >= 1);
                assert(tail >= 1);
            }
            assert(r >= 1);
        }
    }
    r
}

} // verus!
