//! Textures: pure functions from texture coordinates and hit point to color.
//!
//! Colors are vectors of non-negative fixed-point channels. `wf` bounds every
//! stored channel by `EMIT_LIMIT`; `max_le` gives the tighter bound (usually
//! one unit) that scattering albedos must satisfy so attenuation never
//! amplifies light.

use vstd::prelude::*;

verus! {

use crate::num::{floor_div64, imax, imin, SCALE};
use crate::vec3::Vec3;
use std::sync::Arc;

/// Upper bound on any color channel a texture may store or return
/// (emissive surfaces may exceed one unit, but not this).
pub const EMIT_LIMIT: i64 = 16777216;

/// The fixed-point value of pi, used by the checker pattern's cell size.
pub const PI_FIX: i64 = 205887;

/// A texture representing a constant color.
pub struct ConstantTexture {
    pub color: Vec3,
}

/// A checkerboard pattern alternating between two textures `even` and
/// `odd`, switching whenever the product of the sines of the scaled
/// coordinates changes sign.
pub struct CheckerTexture {
    pub even: Arc<Texture>,
    pub odd: Arc<Texture>,
}

/// A texture sampling a loaded image by texture coordinate.
pub struct ImageTexture {
    pub data: Vec<u8>,
    pub dimensions: (u32, u32),
}

/// A randomized marble-like pattern driven by gradient noise: the value is
/// a sine of one coordinate jittered by turbulence. Being built from a
/// randomly drawn table, its exact colors are specified only by their
/// range.
pub struct NoiseTexture {
    pub noise: crate::perlin::Perlin,
    pub frequency: i64,
    pub octaves: u8,
}

pub enum Texture {
    Constant(ConstantTexture),
    Checker(CheckerTexture),
    Noise(NoiseTexture),
    Image(ImageTexture),
}

impl NoiseTexture {
    /// Constructs a new noise texture; the generator's tables are drawn
    /// from the given randomness source.
    /// The `frequency` controls how fast the pattern varies; `octaves`
    /// how many noise layers are blended.
    pub fn new(frequency: i64, octaves: u8, rng: &mut crate::rng::RandomSource) -> (t:
        NoiseTexture)
        requires
            1 <= frequency <= 16 * SCALE,
            octaves <= 16,
        ensures
            t.noise.wf(),
            t.frequency == frequency,
            t.octaves == octaves,
    {
        NoiseTexture { noise: crate::perlin::Perlin::new(rng), frequency, octaves }
    }
}

/// Whether a texture's colors are a pure function of its stored data (no
/// randomized noise tables anywhere inside): the hypothesis under which
/// `value` is pinned exactly by `spec_value`.
pub open spec fn noise_free(t: Texture) -> bool
    decreases t,
{
    match t {
        Texture::Constant(_) => true,
        Texture::Checker(c) => noise_free(*c.even) && noise_free(*c.odd),
        Texture::Noise(_) => false,
        Texture::Image(_) => true,
    }
}

/// Every channel of the color lies in `[0, b]`.
pub open spec fn color_within(c: Vec3, b: int) -> bool {
    &&& 0 <= c.x <= b
    &&& 0 <= c.y <= b
    &&& 0 <= c.z <= b
}

/// The cell parity used by the checker pattern: the sign of the product of
/// the three sines `sin(10 * coord)` is negative exactly when the cell
/// indices (multiples of pi over the scaled coordinates) sum to an odd
/// number.
pub open spec fn spec_checker_odd(p: Vec3) -> bool {
    ((p.x * 10) / (PI_FIX as int) + (p.y * 10) / (PI_FIX as int) + (p.z * 10) / (PI_FIX as int))
        % 2 != 0
}

/// The image lookup: texture coordinates scaled to pixel indices (the `v`
/// axis flipped), clamped to the image, one byte per channel rescaled to
/// fixed point.
pub open spec fn spec_image_value(img: ImageTexture, u: int, v: int) -> Vec3 {
    let nx = img.dimensions.0 as int;
    let ny = img.dimensions.1 as int;
    let i0 = (u * nx) / (SCALE as int);
    let j0 = ((SCALE - v) * ny) / (SCALE as int);
    let i = if i0 < 0 { 0 } else if i0 > nx - 1 { nx - 1 } else { i0 };
    let j = if j0 < 0 { 0 } else if j0 > ny - 1 { ny - 1 } else { j0 };
    let idx = 3 * i + 3 * nx * j;
    Vec3 {
        x: ((img.data@[idx] as int) * SCALE / 255) as i64,
        y: ((img.data@[idx + 1] as int) * SCALE / 255) as i64,
        z: ((img.data@[idx + 2] as int) * SCALE / 255) as i64,
    }
}

/// The color a texture produces, as a mathematical function of the texture
/// coordinates and hit point.
pub open spec fn spec_value(t: Texture, u: int, v: int, p: Vec3) -> Vec3
    decreases t,
{
    match t {
        Texture::Constant(c) => c.color,
        Texture::Checker(c) => if spec_checker_odd(p) {
            spec_value(*c.odd, u, v, p)
        } else {
            spec_value(*c.even, u, v, p)
        },
        Texture::Noise(_) => Vec3 { x: 0, y: 0, z: 0 },
        Texture::Image(img) => spec_image_value(img, u, v),
    }
}

impl ImageTexture {
    /// The pixel data is laid out as three bytes per pixel, row by row, and
    /// the image is nonempty and small enough for exact index arithmetic.
    pub open spec fn wf(self) -> bool {
        &&& 1 <= self.dimensions.0 <= 4096
        &&& 1 <= self.dimensions.1 <= 4096
        &&& self.data@.len() == 3 * (self.dimensions.0 as int) * (self.dimensions.1 as int)
    }

    /// Wraps already-decoded pixel data (three bytes per pixel, rows from
    /// the top) as a texture. Decoding an image file is its caller's job.
    pub fn new(data: Vec<u8>, dimensions: (u32, u32)) -> (t: ImageTexture)
        requires
            1 <= dimensions.0 <= 4096,
            1 <= dimensions.1 <= 4096,
            data@.len() == 3 * (dimensions.0 as int) * (dimensions.1 as int),
        ensures
            t.wf(),
            t.data == data,
            t.dimensions == dimensions,
    {
        ImageTexture { data, dimensions }
    }
}

impl Texture {
    /// All stored colors are admissible: channels within `[0, EMIT_LIMIT]`,
    /// and image data well laid out.
    pub open spec fn wf(self) -> bool
        decreases self,
    {
        match self {
            Texture::Constant(c) => color_within(c.color, EMIT_LIMIT as int),
            Texture::Checker(c) => c.even.wf() && c.odd.wf(),
            Texture::Noise(n) => n.noise.wf() && 1 <= n.frequency <= 16 * SCALE && n.octaves
                <= 16,
            Texture::Image(img) => img.wf(),
        }
    }

    /// Every color this texture can produce is bounded by `b` per channel.
    pub open spec fn max_le(self, b: int) -> bool
        decreases self,
    {
        match self {
            Texture::Constant(c) => c.color.x <= b && c.color.y <= b && c.color.z <= b,
            Texture::Checker(c) => c.even.max_le(b) && c.odd.max_le(b),
            Texture::Noise(_) => b >= SCALE,
            Texture::Image(_) => b >= SCALE,
        }
    }

    /// Calculates the value for the texture given the coordinates `u`, `v`
    /// and the hit point of a ray: exactly `spec_value`.
    pub fn value(&self, u: i64, v: i64, hit_point: &Vec3) -> (r: Vec3)
        requires
            self.wf(),
            0 <= u <= SCALE,
            0 <= v <= SCALE,
            hit_point.bounded(0x1000_0000_0000),
        ensures
            noise_free(*self) ==> r == spec_value(*self, u as int, v as int, *hit_point),
            color_within(r, EMIT_LIMIT as int),
            forall|b: int| SCALE <= b && (#[trigger] self.max_le(b)) ==> color_within(r, b),
        decreases *self,
    {
        match self {
            Texture::Constant(c) => c.color,
            Texture::Checker(c) => {
                let cx = floor_div64(hit_point.x * 10, PI_FIX);
                let cy = floor_div64(hit_point.y * 10, PI_FIX);
                let cz = floor_div64(hit_point.z * 10, PI_FIX);
                let s = cx + cy + cz;
                let q = floor_div64(s, 2);
                let m = s - 2 * q;
                proof {
                    vstd::arithmetic::div_mod::lemma_fundamental_div_mod(s as int, 2);
                    assert(m == (s as int) % 2);
                }
                if m != 0 {
                    let rv = (&*c.odd).value(u, v, hit_point);
                    proof {
                        assert forall|b: int|
                            SCALE <= b && (#[trigger] self.max_le(b)) implies color_within(
                            rv,
                            b,
                        ) by {
                            assert(c.odd.max_le(b));
                        }
                    }
                    rv
                } else {
                    let rv = (&*c.even).value(u, v, hit_point);
                    proof {
                        assert forall|b: int|
                            SCALE <= b && (#[trigger] self.max_le(b)) implies color_within(
                            rv,
                            b,
                        ) by {
                            assert(c.even.max_le(b));
                        }
                    }
                    rv
                }
            },
            Texture::Noise(n) => {
                let cx = imax(-crate::num::COORD_LIMIT, imin(hit_point.x,
                    crate::num::COORD_LIMIT));
                proof {
                    assert(-((0x8000_0000 as int) * (SCALE as int)) <= (n.frequency as int) * (
                    cx as int) <= (0x8000_0000 as int) * (SCALE as int)) by (nonlinear_arith)
                        requires
                            1 <= n.frequency <= 16 * SCALE,
                            -crate::num::COORD_LIMIT <= cx <= crate::num::COORD_LIMIT,
                            crate::num::COORD_LIMIT == 134217728,
                    ;
                    crate::vec3::lemma_ratio_bound((n.frequency as int) * (cx as int),
                        0x8000_0000, SCALE as int);
                }
                let fx0 = crate::num::fmul(n.frequency, cx);
                let py = imax(-crate::num::COORD_LIMIT, imin(hit_point.y,
                    crate::num::COORD_LIMIT));
                let pz = imax(-crate::num::COORD_LIMIT, imin(hit_point.z,
                    crate::num::COORD_LIMIT));
                let sample_point = Vec3 {
                    x: imax(-crate::num::COORD_LIMIT, imin(fx0, crate::num::COORD_LIMIT)),
                    y: py,
                    z: pz,
                };
                let turb = n.noise.turbulance(sample_point, n.octaves, SCALE);
                let tabs = if turb >= 0 {
                    turb
                } else {
                    -turb
                };
                let arg = imax(
                    -0x100_0000_0000,
                    imin(fx0 + 5 * tabs, 0x100_0000_0000),
                );
                let sine = fixed_sin(arg);
                let half = (SCALE + sine) / 2;
                Vec3 { x: half, y: half, z: half }
            },
            Texture::Image(img) => {
                let nx = img.dimensions.0 as i64;
                let ny = img.dimensions.1 as i64;
                proof {
                    assert(0 <= u * nx <= 0x1000_0000_0000 && 0 <= (SCALE - v) * ny
                        <= 0x1000_0000_0000) by (nonlinear_arith)
                        requires
                            0 <= u <= SCALE,
                            0 <= v <= SCALE,
                            1 <= nx <= 4096,
                            1 <= ny <= 4096,
                    ;
                }
                let i0 = floor_div64(u * nx, SCALE);
                let j0 = floor_div64((SCALE - v) * ny, SCALE);
                let i = imax(0, imin(i0, nx - 1));
                let j = imax(0, imin(j0, ny - 1));
                proof {
                    assert(3 * i + 3 * nx * j + 2 < img.data@.len() && 3 * i + 3 * nx * j >= 0
                        && 0 <= 3 * nx * j <= 0x3000_0000
                        && img.data@.len() <= 0x3000_0000) by (nonlinear_arith)
                        requires
                            0 <= i <= nx - 1,
                            0 <= j <= ny - 1,
                            1 <= nx <= 4096,
                            1 <= ny <= 4096,
                            img.data@.len() == 3 * nx * ny,
                    ;
                }
                let idx = (3 * i + 3 * nx * j) as usize;
                let rv = (img.data[idx] as i64) * SCALE / 255;
                let gv = (img.data[idx + 1] as i64) * SCALE / 255;
                let bv = (img.data[idx + 2] as i64) * SCALE / 255;
                proof {
                    lemma_byte_channel(img.data@[idx as int] as int);
                    lemma_byte_channel(img.data@[idx as int + 1] as int);
                    lemma_byte_channel(img.data@[idx as int + 2] as int);
                }
                Vec3 { x: rv, y: gv, z: bv }
            },
        }
    }
}

/// One image byte rescaled to fixed point lies within the unit interval.
proof fn lemma_byte_channel(c: int)
    requires
        0 <= c <= 255,
    ensures
        0 <= (c * SCALE) / 255 <= SCALE,
{
    assert(-((SCALE as int) * 255) <= c * SCALE <= (SCALE as int) * 255) by (nonlinear_arith)
        requires
            0 <= c <= 255,
    ;
    crate::vec3::lemma_ratio_bound(c * SCALE, SCALE as int, 255);
    vstd::arithmetic::div_mod::lemma_div_pos_is_pos(c * SCALE, 255);
}

/// The fixed-point sine: the argument reduced into one period and each
/// half-wave approximated by the symmetric parabola through its zeros and
/// peak. The result always lies within one unit in magnitude.
fn fixed_sin(x: i64) -> (r: i64)
    requires
        -0x100_0000_0000 <= x <= 0x100_0000_0000,
    ensures
        -SCALE <= r <= SCALE,
{
    let two_pi = 2 * PI_FIX;
    let q = floor_div64(x, two_pi);
    proof {
        vstd::arithmetic::div_mod::lemma_fundamental_div_mod(x as int, two_pi as int);
        vstd::arithmetic::div_mod::lemma_mod_bound(x as int, two_pi as int);
        crate::num::lemma_div_magnitude(x as int, two_pi as int);
    }
    let m = x - q * two_pi;
    if m < PI_FIX {
        half_wave(m)
    } else {
        -half_wave(m - PI_FIX)
    }
}

/// One half-wave of the parabolic sine approximation, mapping the half
/// period into the unit interval.
fn half_wave(u: i64) -> (r: i64)
    requires
        0 <= u <= PI_FIX,
    ensures
        0 <= r <= SCALE,
{
    proof {
        assert(0 <= 4 * (u as int) * ((PI_FIX - u) as int) * (SCALE as int) <= (SCALE as int) * (
        (PI_FIX as int) * (PI_FIX as int))) by (nonlinear_arith)
            requires
                0 <= u <= PI_FIX,
        ;
        crate::vec3::lemma_ratio_bound(
            4 * (u as int) * ((PI_FIX - u) as int) * (SCALE as int),
            SCALE as int,
            (PI_FIX as int) * (PI_FIX as int),
        );
        vstd::arithmetic::div_mod::lemma_div_pos_is_pos(
            4 * (u as int) * ((PI_FIX - u) as int) * (SCALE as int),
            (PI_FIX as int) * (PI_FIX as int),
        );
    }
    let num = 4 * (u as i128) * ((PI_FIX - u) as i128) * (SCALE as i128);
    let den = (PI_FIX as i128) * (PI_FIX as i128);
    crate::num::floor_div(num, den) as i64
}

impl ConstantTexture {
    pub fn new(color: Vec3) -> (t: ConstantTexture)
        ensures
            t.color == color,
    {
        ConstantTexture { color }
    }
}

impl CheckerTexture {
    pub fn new(even: Arc<Texture>, odd: Arc<Texture>) -> (t: CheckerTexture)
        ensures
            t.even == even,
            t.odd == odd,
    {
        CheckerTexture { even, odd }
    }
}

} // verus!
