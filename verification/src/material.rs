//! The material scattering model.
//!
//! A material takes an incoming ray and a hit record and produces a
//! scattered ray, an attenuation color and a flag saying whether the ray
//! scattered at all; emissive materials contribute through `emit`. Every
//! scattered direction is normalized to (floor-rounded) unit length —
//! direction scaling carries no physical meaning, and unit directions keep
//! all fixed-point arithmetic inside the numeric envelope through any
//! number of bounces. Attenuations of admissible materials stay within one
//! unit per channel, so bounced light is never amplified.

use vstd::prelude::*;

verus! {

use crate::hit_record::HitRecord;
use crate::num::{floor_div64, fmul, imax, imin, COORD_LIMIT, SCALE};
use crate::ray::Ray;
use crate::rng::RandomSource;
use crate::texture::{color_within, noise_free, spec_value, ConstantTexture, Texture, EMIT_LIMIT};
use crate::utils::{random_point_in_unit_sphere, reflect, refract, schlick_approx};
use crate::utils::{spec_refract_disc, spec_refracted, spec_reflect};
use crate::vec3::{dot, spec_add, spec_dot, spec_neg, spec_scale, spec_unit_vector, unit_vector, Vec3};
use std::sync::Arc;

/// A Lambertian material is a matte, diffusely reflecting surface.
pub struct Lambertian {
    pub albedo: Arc<Texture>,
}

/// A metallic surface; fuzziness dictates how polished it appears.
pub struct Metal {
    pub albedo: Arc<Texture>,
    pub emittance_albedo: Arc<Texture>,
    pub fuzziness: i64,
}

/// A surface that splits light into reflected and refracted rays (glass,
/// water); each interaction randomly picks one, weighted by reflectance.
pub struct Dielectric {
    pub refractive_index: i64,
}

/// A material that emits diffused light and never scatters.
pub struct DiffuseLight {
    pub texture: Arc<Texture>,
}

/// A material that scatters uniformly in all directions; the phase
/// function of participating media.
pub struct Isotropic {
    pub albedo: Arc<Texture>,
}

/// A simulated glossy material: stochastically specular or diffuse,
/// weighted by Schlick reflectance.
pub struct Glossy {
    pub albedo: Arc<Texture>,
    pub specular_albedo: Arc<Texture>,
    pub emittance_albedo: Arc<Texture>,
    pub glossiness: i64,
    pub refractive_index: i64,
}

/// Membership in the open unit ball, the domain of the scattering draws.
pub open spec fn in_unit_ball(p: Vec3) -> bool {
    p.bounded(SCALE as int) && spec_dot(p, p) < (SCALE as int) * (SCALE as int)
}

/// The diffuse bounce direction produced from a drawn unit-ball point: the
/// normalized sum of the surface normal and the point.
pub open spec fn spec_diffuse_dir(normal: Vec3, p: Vec3) -> Vec3 {
    spec_unit_vector(spec_add(normal, p))
}

/// The (possibly fuzzed) specular bounce direction produced from a drawn
/// unit-ball point: the normalized mirror reflection of the unit incoming
/// direction, offset by the point scaled with the fuzz factor.
pub open spec fn spec_specular_dir(in_dir: Vec3, normal: Vec3, fuzz: int, p: Vec3) -> Vec3 {
    spec_unit_vector(spec_add(spec_reflect(spec_unit_vector(in_dir), normal), spec_scale(p, fuzz)))
}

/// The outward-facing boundary normal a dielectric refracts against: the
/// surface normal, negated when the ray comes from inside.
pub open spec fn spec_dielectric_outward(in_dir: Vec3, normal: Vec3) -> Vec3 {
    if spec_dot(in_dir, normal) > 0 {
        spec_neg(normal)
    } else {
        normal
    }
}

/// The index ratio a dielectric refracts with: the material's index when
/// exiting, its fixed-point reciprocal when entering.
pub open spec fn spec_dielectric_ratio(in_dir: Vec3, normal: Vec3, ri: int) -> int {
    if spec_dot(in_dir, normal) > 0 {
        ri
    } else {
        ((SCALE as int) * (SCALE as int)) / ri
    }
}

/// The emitted color of a material, as a mathematical function of the
/// texture coordinates and hit point (zero for non-emissive kinds).
pub open spec fn spec_emit(m: Material, u: int, v: int, p: Vec3) -> Vec3 {
    match m {
        Material::Metal(mm) => spec_value(*mm.emittance_albedo, u, v, p),
        Material::DiffuseLight(mm) => spec_value(*mm.texture, u, v, p),
        Material::Glossy(mm) => spec_value(*mm.emittance_albedo, u, v, p),
        _ => Vec3 { x: 0, y: 0, z: 0 },
    }
}

/// Whether the material's emissive texture is free of randomized noise, so
/// its emission is pinned by `spec_emit`.
pub open spec fn emissive_noise_free(m: Material) -> bool {
    match m {
        Material::Metal(mm) => noise_free(*mm.emittance_albedo),
        Material::DiffuseLight(mm) => noise_free(*mm.texture),
        Material::Glossy(mm) => noise_free(*mm.emittance_albedo),
        _ => true,
    }
}

pub enum Material {
    Lambertian(Lambertian),
    Metal(Metal),
    Dielectric(Dielectric),
    DiffuseLight(DiffuseLight),
    Isotropic(Isotropic),
    Glossy(Glossy),
}

/// Relies on `Arc::clone` of the standard library: the returned handle
/// refers to the same shared material value.
#[verifier::external_body]
pub fn clone_material(m: &Arc<Material>) -> (r: Arc<Material>)
    ensures
        r == *m,
{
    Arc::clone(m)
}

impl Material {
    /// Admissible materials: scattering albedos within one unit per
    /// channel, emission within the emission cap, parameters in range.
    pub open spec fn wf(self) -> bool {
        match self {
            Material::Lambertian(m) => m.albedo.wf() && m.albedo.max_le(SCALE as int),
            Material::Metal(m) => {
                &&& m.albedo.wf()
                &&& m.albedo.max_le(SCALE as int)
                &&& m.emittance_albedo.wf()
                &&& -SCALE <= m.fuzziness <= SCALE
            },
            Material::Dielectric(m) => SCALE / 16 <= m.refractive_index <= 16 * SCALE,
            Material::DiffuseLight(m) => m.texture.wf(),
            Material::Isotropic(m) => m.albedo.wf() && m.albedo.max_le(SCALE as int),
            Material::Glossy(m) => {
                &&& m.albedo.wf()
                &&& m.albedo.max_le(SCALE as int)
                &&& m.specular_albedo.wf()
                &&& m.specular_albedo.max_le(SCALE as int)
                &&& m.emittance_albedo.wf()
                &&& 0 <= m.glossiness <= SCALE
                &&& SCALE / 16 <= m.refractive_index <= 16 * SCALE
            },
        }
    }

    /// Scatters a given ray: produces the scattered ray, the attenuation
    /// of the scattered ray, and whether the input ray was scattered.
    /// The scattered ray starts at the hit point with a unit-bounded
    /// direction; attenuation channels stay within one unit; the scatter
    /// flag is pinned per material kind (metal and gloss scatter exactly
    /// when the new direction leaves the surface on the outward side).
    pub fn scatter(&self, input_ray: &Ray, hit_record: &HitRecord, rng: &mut RandomSource) -> (res:
        (Ray, Vec3, bool))
        requires
            self.wf(),
            input_ray.wf(),
            hit_record.wf(),
        ensures
            color_within(res.1, SCALE as int),
            res.0.origin == hit_record.hit_point,
            res.0.direction.bounded(SCALE as int),
            res.0.wf(),
            match self {
                Material::Lambertian(m) => res.2 && res.0.time == input_ray.time && (noise_free(
                    *m.albedo,
                ) ==> res.1 == spec_value(*m.albedo, hit_record.u as int, hit_record.v as int,
                    hit_record.hit_point)) && (exists|p: Vec3|
                    in_unit_ball(p) && res.0.direction == #[trigger] spec_diffuse_dir(
                        hit_record.normal,
                        p,
                    )),
                Material::Metal(m) => res.0.time == input_ray.time && (noise_free(*m.albedo)
                    ==> res.1 == spec_value(*m.albedo, hit_record.u as int, hit_record.v as int,
                    hit_record.hit_point)) && res.2 == (spec_dot(res.0.direction,
                    hit_record.normal) > 0) && (exists|p: Vec3|
                    in_unit_ball(p) && res.0.direction == #[trigger] spec_specular_dir(
                        input_ray.direction,
                        hit_record.normal,
                        m.fuzziness as int,
                        p,
                    )),
                Material::Dielectric(mm) => res.2 && res.0.time == input_ray.time && res.1
                    == (Vec3 { x: SCALE, y: SCALE, z: SCALE }) && (res.0.direction
                    == spec_unit_vector(
                    spec_reflect(spec_unit_vector(input_ray.direction), hit_record.normal),
                ) || ({
                    let ow = spec_dielectric_outward(input_ray.direction, hit_record.normal);
                    let ratio = spec_dielectric_ratio(input_ray.direction, hit_record.normal,
                        mm.refractive_index as int);
                    &&& spec_refract_disc(input_ray.direction, ow, ratio) > 0
                    &&& res.0.direction == spec_unit_vector(
                        spec_refracted(input_ray.direction, ow, ratio),
                    )
                })),
                Material::DiffuseLight(_) => !res.2 && res.1 == (Vec3 { x: 0, y: 0, z: 0 }),
                Material::Isotropic(m) => res.2 && res.0.time == input_ray.time && (noise_free(
                    *m.albedo,
                ) ==> res.1 == spec_value(*m.albedo, hit_record.u as int, hit_record.v as int,
                    hit_record.hit_point)) && (exists|p: Vec3|
                    in_unit_ball(p) && res.0.direction == #[trigger] spec_unit_vector(p)),
                Material::Glossy(m) => res.0.time == input_ray.time && res.2 == (spec_dot(
                    res.0.direction,
                    hit_record.normal,
                ) > 0) && ((noise_free(*m.albedo) && noise_free(*m.specular_albedo)) ==> (res.1
                    == spec_value(*m.albedo, hit_record.u as int, hit_record.v as int,
                    hit_record.hit_point) || res.1 == spec_value(*m.specular_albedo,
                    hit_record.u as int, hit_record.v as int, hit_record.hit_point))) && (
                exists|p: Vec3|
                    #![trigger spec_specular_dir(input_ray.direction, hit_record.normal, m.glossiness as int, p)]
                    #![trigger spec_diffuse_dir(hit_record.normal, p)]
                    in_unit_ball(p) && (res.0.direction == spec_specular_dir(
                        input_ray.direction,
                        hit_record.normal,
                        m.glossiness as int,
                        p,
                    ) || res.0.direction == spec_diffuse_dir(hit_record.normal, p))),
            },
    {
        match self {
            Material::Lambertian(m) => {
                let rp = random_point_in_unit_sphere(rng);
                let raw = hit_record.normal.add(rp);
                let dir = unit_vector(raw);
                proof {
                    assert(raw == spec_add(hit_record.normal, rp));
                    assert(in_unit_ball(rp));
                    assert(dir == spec_diffuse_dir(hit_record.normal, rp));
                    assert(exists|p: Vec3|
                        in_unit_ball(p) && dir == #[trigger] spec_diffuse_dir(
                            hit_record.normal,
                            p,
                        ));
                }
                let scattered = Ray::new(hit_record.hit_point, dir, input_ray.time);
                let attenuation = (&*m.albedo).value(
                    hit_record.u,
                    hit_record.v,
                    &hit_record.hit_point,
                );
                (scattered, attenuation, true)
            },
            Material::Metal(m) => {
                let unit_in = unit_vector(input_ray.direction);
                let refl = reflect(&unit_in, &hit_record.normal);
                let rp = random_point_in_unit_sphere(rng);
                proof {
                    assert((SCALE as int) * (SCALE as int) >= (SCALE as int) * (SCALE as int));
                    crate::vec3::lemma_scale_bound(rp, m.fuzziness as int, SCALE as int,
                        SCALE as int, SCALE as int);
                }
                let fuzz_off = rp.scale(m.fuzziness);
                let raw = refl.add(fuzz_off);
                let dir = unit_vector(raw);
                proof {
                    assert(fuzz_off == spec_scale(rp, m.fuzziness as int));
                    assert(raw == spec_add(refl, fuzz_off));
                    assert(in_unit_ball(rp));
                    assert(dir == spec_specular_dir(input_ray.direction, hit_record.normal,
                        m.fuzziness as int, rp));
                    assert(exists|p: Vec3|
                        in_unit_ball(p) && dir == #[trigger] spec_specular_dir(
                            input_ray.direction,
                            hit_record.normal,
                            m.fuzziness as int,
                            p,
                        ));
                }
                let scattered = Ray::new(hit_record.hit_point, dir, input_ray.time);
                let attenuation = (&*m.albedo).value(
                    hit_record.u,
                    hit_record.v,
                    &hit_record.hit_point,
                );
                let did_scatter = dot(&scattered.direction, &hit_record.normal) > 0;
                (scattered, attenuation, did_scatter)
            },
            Material::Dielectric(m) => {
                let attenuation = Vec3 { x: SCALE, y: SCALE, z: SCALE };
                let unit_in = unit_vector(input_ray.direction);
                let dot_prod = dot(&input_ray.direction, &hit_record.normal);
                proof {
                    crate::vec3::lemma_dot_bound(unit_in, hit_record.normal, 2 * SCALE as int);
                    assert(3 * (2 * SCALE as int) * (2 * SCALE as int) == (12 * SCALE) * (
                    SCALE as int) && -(3 * (2 * SCALE as int) * (2 * SCALE as int)) == -((12
                        * SCALE) * (SCALE as int))) by (nonlinear_arith);
                    crate::vec3::lemma_ratio_bound(spec_dot(unit_in, hit_record.normal),
                        12 * SCALE, SCALE as int);
                }
                let cos_base = floor_div64(dot(&unit_in, &hit_record.normal), SCALE);
                let (outward_normal, ni_over_nt, cosine_raw): (Vec3, i64, i64) = if dot_prod > 0 {
                    (hit_record.normal.neg(), m.refractive_index, fmul(m.refractive_index, cos_base))
                } else {
                    proof {
                        crate::num::lemma_div_magnitude(
                            (SCALE as int) * (SCALE as int),
                            m.refractive_index as int,
                        );
                        lemma_inverse_index_range(m.refractive_index as int);
                    }
                    (hit_record.normal, floor_div64(SCALE * SCALE, m.refractive_index), -cos_base)
                };
                let cosine = imax(0, imin(cosine_raw, SCALE));
                let (refracted, reflect_probability): (Vec3, i64) = match refract(
                    &input_ray.direction,
                    &outward_normal,
                    ni_over_nt,
                ) {
                    Some(r) => (r, schlick_approx(cosine, m.refractive_index)),
                    None => (Vec3 { x: 0, y: 0, z: 0 }, SCALE),
                };
                proof {
                    assert(outward_normal == spec_dielectric_outward(input_ray.direction,
                        hit_record.normal));
                    assert(ni_over_nt as int == spec_dielectric_ratio(input_ray.direction,
                        hit_record.normal, m.refractive_index as int));
                }
                let scattered: Ray;
                if rng.next_unit() <= reflect_probability {
                    let refl = reflect(&unit_in, &hit_record.normal);
                    scattered = Ray::new(hit_record.hit_point, unit_vector(refl), input_ray.time);
                    proof {
                        assert(scattered.direction == spec_unit_vector(
                            spec_reflect(spec_unit_vector(input_ray.direction),
                                hit_record.normal),
                        ));
                    }
                } else {
                    scattered = Ray::new(
                        hit_record.hit_point,
                        unit_vector(refracted),
                        input_ray.time,
                    );
                    proof {
                        assert(refracted == spec_refracted(input_ray.direction, outward_normal,
                            ni_over_nt as int));
                    }
                }
                (scattered, attenuation, true)
            },
            Material::DiffuseLight(_) => {
                let blank_ray = Ray::new(hit_record.hit_point, Vec3 { x: 0, y: 0, z: 0 }, 0);
                (blank_ray, Vec3 { x: 0, y: 0, z: 0 }, false)
            },
            Material::Isotropic(m) => {
                let rp = random_point_in_unit_sphere(rng);
                let dir = unit_vector(rp);
                proof {
                    assert(in_unit_ball(rp) && dir == spec_unit_vector(rp));
                }
                let scattered = Ray::new(hit_record.hit_point, dir, input_ray.time);
                let attenuation = (&*m.albedo).value(
                    hit_record.u,
                    hit_record.v,
                    &hit_record.hit_point,
                );
                (scattered, attenuation, true)
            },
            Material::Glossy(m) => {
                let unit_in = unit_vector(input_ray.direction);
                proof {
                    crate::vec3::lemma_dot_bound(unit_in, hit_record.normal, 2 * SCALE as int);
                    assert(3 * (2 * SCALE as int) * (2 * SCALE as int) == (12 * SCALE) * (
                    SCALE as int) && -(3 * (2 * SCALE as int) * (2 * SCALE as int)) == -((12
                        * SCALE) * (SCALE as int))) by (nonlinear_arith);
                    crate::vec3::lemma_ratio_bound(spec_dot(unit_in, hit_record.normal),
                        12 * SCALE, SCALE as int);
                }
                let cosine = imax(
                    0,
                    imin(-floor_div64(dot(&unit_in, &hit_record.normal), SCALE), SCALE),
                );
                let dir: Vec3;
                let attenuation: Vec3;
                if rng.next_unit() <= schlick_approx(cosine, m.refractive_index) {
                    let refl = reflect(&unit_in, &hit_record.normal);
                    let rp = random_point_in_unit_sphere(rng);
                    proof {
                        crate::vec3::lemma_scale_bound(rp, m.glossiness as int, SCALE as int,
                            SCALE as int, SCALE as int);
                    }
                    let off = rp.scale(m.glossiness);
                    let raw = refl.add(off);
                    dir = unit_vector(raw);
                    proof {
                        assert(off == spec_scale(rp, m.glossiness as int));
                        assert(raw == spec_add(refl, off));
                        assert(dir == spec_specular_dir(input_ray.direction, hit_record.normal,
                            m.glossiness as int, rp));
                        assert(in_unit_ball(rp));
                        assert(exists|p: Vec3|
                            #![trigger spec_specular_dir(input_ray.direction, hit_record.normal, m.glossiness as int, p)]
                            #![trigger spec_diffuse_dir(hit_record.normal, p)]
                            in_unit_ball(p) && (dir == spec_specular_dir(
                                input_ray.direction,
                                hit_record.normal,
                                m.glossiness as int,
                                p,
                            ) || dir == spec_diffuse_dir(hit_record.normal, p)));
                    }
                    attenuation = (&*m.specular_albedo).value(
                        hit_record.u,
                        hit_record.v,
                        &hit_record.hit_point,
                    );
                } else {
                    let rp = random_point_in_unit_sphere(rng);
                    let raw = hit_record.normal.add(rp);
                    dir = unit_vector(raw);
                    proof {
                        assert(raw == spec_add(hit_record.normal, rp));
                        assert(dir == spec_diffuse_dir(hit_record.normal, rp));
                        assert(in_unit_ball(rp));
                        assert(exists|p: Vec3|
                            #![trigger spec_specular_dir(input_ray.direction, hit_record.normal, m.glossiness as int, p)]
                            #![trigger spec_diffuse_dir(hit_record.normal, p)]
                            in_unit_ball(p) && (dir == spec_specular_dir(
                                input_ray.direction,
                                hit_record.normal,
                                m.glossiness as int,
                                p,
                            ) || dir == spec_diffuse_dir(hit_record.normal, p)));
                    }
                    attenuation = (&*m.albedo).value(
                        hit_record.u,
                        hit_record.v,
                        &hit_record.hit_point,
                    );
                }
                let scattered = Ray::new(hit_record.hit_point, dir, input_ray.time);
                let did_scatter = dot(&scattered.direction, &hit_record.normal) > 0;
                (scattered, attenuation, did_scatter)
            },
        }
    }

    /// Calculates a light's emitted color value; zero for non-emissive
    /// materials.
    pub fn emit(&self, u: i64, v: i64, hit_point: &Vec3) -> (r: Vec3)
        requires
            self.wf(),
            0 <= u <= SCALE,
            0 <= v <= SCALE,
            hit_point.bounded(COORD_LIMIT as int),
        ensures
            color_within(r, EMIT_LIMIT as int),
            emissive_noise_free(*self) ==> r == spec_emit(*self, u as int, v as int, *hit_point),
    {
        match self {
            Material::Metal(m) => (&*m.emittance_albedo).value(u, v, hit_point),
            Material::DiffuseLight(m) => (&*m.texture).value(u, v, hit_point),
            Material::Glossy(m) => (&*m.emittance_albedo).value(u, v, hit_point),
            _ => Vec3 { x: 0, y: 0, z: 0 },
        }
    }
}

/// The inverse of an index in `[1/16, 16]` units stays in `(0, 16]` units.
proof fn lemma_inverse_index_range(n: int)
    requires
        SCALE / 16 <= n <= 16 * SCALE,
    ensures
        0 < (SCALE * SCALE) / n <= 16 * SCALE,
{
    let s = SCALE as int;
    assert(s * s >= n && s * s <= (16 * s) * n && -((16 * s) * n) <= s * s) by (nonlinear_arith)
        requires
            s == SCALE as int,
            4096 <= n <= 16 * s,
    ;
    vstd::arithmetic::div_mod::lemma_div_non_zero(s * s, n);
    crate::vec3::lemma_ratio_bound(s * s, 16 * s, n);
}

impl Lambertian {
    /// A matte material with a black constant albedo, awaiting a real
    /// albedo from scene construction.
    pub fn new() -> (m: Lambertian)
        ensures
            Material::Lambertian(m).wf(),
            (*m.albedo) == Texture::Constant(ConstantTexture { color: Vec3 { x: 0, y: 0, z: 0 } }),
    {
        Lambertian {
            albedo: Arc::new(Texture::Constant(ConstantTexture::new(Vec3 { x: 0, y: 0, z: 0 }))),
        }
    }
}

impl Metal {
    /// A non-emitting metal (the emittance albedo is the zero constant
    /// texture, so `emit` is zero everywhere); fuzziness is clamped into
    /// one unit in magnitude — deliberately symmetric: a fuzz offset below
    /// minus one unit only mirrors the unit-ball draw, so the clamp keeps
    /// the offset within the ball without changing any physical choice.
    pub fn new(albedo: Arc<Texture>, fuzz: i64) -> (m: Metal)
        requires
            albedo.wf(),
            albedo.max_le(SCALE as int),
        ensures
            Material::Metal(m).wf(),
            m.albedo == albedo,
            (*m.emittance_albedo) == Texture::Constant(
                ConstantTexture { color: Vec3 { x: 0, y: 0, z: 0 } },
            ),
            m.fuzziness == crate::sphere::clamp_unit(fuzz as int),
    {
        Metal {
            albedo,
            emittance_albedo: Arc::new(
                Texture::Constant(ConstantTexture::new(Vec3 { x: 0, y: 0, z: 0 })),
            ),
            fuzziness: crate::num::imax(-SCALE, crate::num::imin(fuzz, SCALE)),
        }
    }

    /// A metal that also emits light through its emittance albedo;
    /// fuzziness is clamped into one unit in magnitude.
    pub fn new_emitting(albedo: Arc<Texture>, emittance_albedo: Arc<Texture>, fuzz: i64) -> (m:
        Metal)
        requires
            albedo.wf(),
            albedo.max_le(SCALE as int),
            emittance_albedo.wf(),
        ensures
            Material::Metal(m).wf(),
            m.albedo == albedo,
            m.emittance_albedo == emittance_albedo,
            m.fuzziness == crate::sphere::clamp_unit(fuzz as int),
    {
        Metal {
            albedo,
            emittance_albedo,
            fuzziness: crate::num::imax(-SCALE, crate::num::imin(fuzz, SCALE)),
        }
    }
}

impl Dielectric {
    pub fn new(refractive_index: i64) -> (m: Dielectric)
        requires
            SCALE / 16 <= refractive_index <= 16 * SCALE,
        ensures
            Material::Dielectric(m).wf(),
            m.refractive_index == refractive_index,
    {
        Dielectric { refractive_index }
    }
}

impl DiffuseLight {
    pub fn new(texture: Arc<Texture>) -> (m: DiffuseLight)
        requires
            texture.wf(),
        ensures
            Material::DiffuseLight(m).wf(),
            m.texture == texture,
    {
        DiffuseLight { texture }
    }
}

impl Glossy {
    /// A glossy material over the given diffuse albedo; glossiness is the
    /// complement of the given gloss when that lies in the unit interval,
    /// else zero. The specular albedo is white, the refractive index that
    /// of a typical coating.
    pub fn new(albedo: Arc<Texture>, gloss: i64) -> (m: Glossy)
        requires
            albedo.wf(),
            albedo.max_le(SCALE as int),
        ensures
            Material::Glossy(m).wf(),
            m.albedo == albedo,
            m.glossiness == if 0 <= gloss <= SCALE { (SCALE - gloss) as int } else { 0int },
            (*m.specular_albedo) == Texture::Constant(
                ConstantTexture { color: Vec3 { x: SCALE, y: SCALE, z: SCALE } },
            ),
            (*m.emittance_albedo) == Texture::Constant(
                ConstantTexture { color: Vec3 { x: 0, y: 0, z: 0 } },
            ),
            m.refractive_index == 95027,
    {
        Glossy {
            albedo,
            specular_albedo: Arc::new(
                Texture::Constant(ConstantTexture::new(Vec3 { x: SCALE, y: SCALE, z: SCALE })),
            ),
            emittance_albedo: Arc::new(
                Texture::Constant(ConstantTexture::new(Vec3 { x: 0, y: 0, z: 0 })),
            ),
            glossiness: if 0 <= gloss && gloss <= SCALE {
                SCALE - gloss
            } else {
                0
            },
            refractive_index: 95027,
        }
    }
}

} // verus!
