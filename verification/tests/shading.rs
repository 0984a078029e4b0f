//! Shading-level checks: materials, textures, reflectance and the
//! integrator.

use pathtracer::{
    dot, get_color, get_color_counted, neg_ln_one_minus, reflect, schlick_approx, BvhNode,
    CheckerTexture, ConstantMedium, ConstantTexture, DiffuseLight, Hitable, HitableList,
    ImageTexture, Lambertian, Material, Metal, RandomSource, Ray, Sphere, Texture, Vec3,
    COORD_LIMIT, SCALE,
};
use std::sync::Arc;

fn constant(c: Vec3) -> Arc<Texture> {
    Arc::new(Texture::Constant(ConstantTexture::new(c)))
}

fn hit_record_at(p: Vec3, n: Vec3) -> pathtracer::HitRecord {
    let mut rec = pathtracer::HitRecord::new();
    rec.t = SCALE;
    rec.hit_point = p;
    rec.normal = n;
    rec.u = 0;
    rec.v = 0;
    rec
}

#[test]
fn schlick_normal_incidence_glass() {
    // Refractive index three halves at zero incidence angle: Schlick's
    // base reflectance, four percent, within fixed-point tolerance.
    let r = schlick_approx(SCALE, 3 * SCALE / 2);
    assert_eq!(r, 2621);
    let as_real = r as f64 / SCALE as f64;
    assert!((as_real - 0.04).abs() < 0.001);
    // At grazing incidence the reflectance approaches one.
    let g = schlick_approx(0, 3 * SCALE / 2);
    assert!(g > 9 * SCALE / 10);
}

#[test]
fn reflect_mirrors_across_normal() {
    let d = Vec3::new(SCALE, -SCALE, 0);
    let n = Vec3::new(0, SCALE, 0);
    let r = reflect(&d, &n);
    assert_eq!((r.x, r.y, r.z), (SCALE, SCALE, 0));
}

#[test]
fn lambertian_always_scatters_with_albedo() {
    let m = Material::Lambertian(Lambertian {
        albedo: constant(Vec3::new(SCALE / 4, SCALE / 2, SCALE)),
    });
    let mut rng = RandomSource::new_seeded(11);
    let rec = hit_record_at(Vec3::new(0, 0, -SCALE), Vec3::new(0, 0, SCALE));
    let ray = Ray::new(Vec3::new(0, 0, 0), Vec3::new(0, 0, -SCALE), 0);
    let (scattered, attenuation, did) = m.scatter(&ray, &rec, &mut rng);
    assert!(did);
    assert_eq!((attenuation.x, attenuation.y, attenuation.z), (SCALE / 4, SCALE / 2, SCALE));
    assert_eq!(scattered.origin, rec.hit_point);
}

#[test]
fn metal_scatter_flag_matches_outward_side() {
    let m = Material::Metal(Metal::new(constant(Vec3::new(SCALE, SCALE, SCALE)), 0));
    let mut rng = RandomSource::new_seeded(11);
    let rec = hit_record_at(Vec3::new(0, 0, -SCALE), Vec3::new(0, 0, SCALE));
    let ray = Ray::new(Vec3::new(0, 0, 0), Vec3::new(0, 0, -SCALE), 0);
    let (scattered, _attenuation, did) = m.scatter(&ray, &rec, &mut rng);
    assert_eq!(did, dot(&scattered.direction, &rec.normal) > 0);
    assert!(did);
}

#[test]
fn diffuse_light_emits_and_never_scatters() {
    let m = Material::DiffuseLight(DiffuseLight::new(constant(Vec3::new(
        4 * SCALE,
        4 * SCALE,
        4 * SCALE,
    ))));
    let mut rng = RandomSource::new_seeded(11);
    let rec = hit_record_at(Vec3::new(0, 0, -SCALE), Vec3::new(0, 0, SCALE));
    let ray = Ray::new(Vec3::new(0, 0, 0), Vec3::new(0, 0, -SCALE), 0);
    let (_, attenuation, did) = m.scatter(&ray, &rec, &mut rng);
    assert!(!did);
    assert_eq!((attenuation.x, attenuation.y, attenuation.z), (0, 0, 0));
    let e = m.emit(0, 0, &Vec3::new(0, 0, -SCALE));
    assert_eq!((e.x, e.y, e.z), (4 * SCALE, 4 * SCALE, 4 * SCALE));
}

#[test]
fn dielectric_always_scatters_without_absorption() {
    let m = Material::Dielectric(pathtracer::Dielectric::new(3 * SCALE / 2));
    let mut rng = RandomSource::new_seeded(11);
    let rec = hit_record_at(Vec3::new(0, 0, -SCALE), Vec3::new(0, 0, SCALE));
    let ray = Ray::new(Vec3::new(0, 0, 0), Vec3::new(0, 0, -SCALE), 0);
    for _ in 0..32 {
        let (_, attenuation, did) = m.scatter(&ray, &rec, &mut rng);
        assert!(did);
        assert_eq!((attenuation.x, attenuation.y, attenuation.z), (SCALE, SCALE, SCALE));
    }
}

#[test]
fn refract_bends_or_reflects_totally() {
    // Straight into the surface: refraction goes through, still downward.
    let down = Vec3::new(0, 0, -SCALE);
    let up = Vec3::new(0, 0, SCALE);
    let through = pathtracer::refract(&down, &up, 2 * SCALE / 3);
    let v = through.expect("normal incidence refracts");
    assert!(v.z < 0);
    // A grazing ray against a dense-to-thin boundary reflects totally.
    let grazing = Vec3::new(SCALE, -SCALE / 8, 0);
    let tir = pathtracer::refract(&grazing, &up, 3 * SCALE / 2);
    assert!(tir.is_none());
}

#[test]
fn checker_texture_alternates_cells() {
    let checker = Texture::Checker(CheckerTexture::new(
        constant(Vec3::new(SCALE, 0, 0)),
        constant(Vec3::new(0, SCALE, 0)),
    ));
    // Half a cell is pi/20 in world units; step a full cell to flip.
    let pi_fix = 205887i64;
    let a = checker.value(0, 0, &Vec3::new(pi_fix / 20, pi_fix / 20, pi_fix / 20));
    let b = checker.value(0, 0, &Vec3::new(pi_fix / 20 + pi_fix / 10, pi_fix / 20, pi_fix / 20));
    assert_ne!(a, b);
    // Two cells along one axis lands back on the first color.
    let c = checker.value(0, 0, &Vec3::new(pi_fix / 20 + 2 * (pi_fix / 10), pi_fix / 20,
        pi_fix / 20));
    assert_eq!(a.x, c.x);
}

#[test]
fn image_texture_samples_exact_pixels() {
    // A two-by-one image: a pure red pixel then a pure green pixel.
    let data = vec![255u8, 0, 0, 0, 255, 0];
    let img = Texture::Image(ImageTexture::new(data, (2, 1)));
    let left = img.value(0, SCALE / 2, &Vec3::new(0, 0, 0));
    assert_eq!((left.x, left.y, left.z), (SCALE, 0, 0));
    let right = img.value(SCALE - 1, SCALE / 2, &Vec3::new(0, 0, 0));
    assert_eq!((right.x, right.y, right.z), (0, SCALE, 0));
}

#[test]
fn noise_texture_values_stay_in_unit_interval() {
    let mut rng = RandomSource::new_seeded(21);
    let marble = Texture::Noise(pathtracer::NoiseTexture::new(4 * SCALE, 8, &mut rng));
    let mut state: u64 = 5;
    for _ in 0..100 {
        state = state.wrapping_mul(6364136223846793005).wrapping_add(1442695040888963407);
        let x = ((state >> 20) % (200 * SCALE as u64)) as i64 - 100 * SCALE;
        let y = ((state >> 30) % (200 * SCALE as u64)) as i64 - 100 * SCALE;
        let z = ((state >> 40) % (200 * SCALE as u64)) as i64 - 100 * SCALE;
        let c = marble.value(0, 0, &Vec3::new(x, y, z));
        assert!(0 <= c.x && c.x <= SCALE);
        assert_eq!(c.x, c.y);
        assert_eq!(c.y, c.z);
    }
}

#[test]
fn free_flight_exponent_edges() {
    // A draw of zero is a zero flight; any positive draw is positive; a
    // draw of one caps.
    assert_eq!(neg_ln_one_minus(0), 0);
    assert!(neg_ln_one_minus(1) > 0);
    assert!(neg_ln_one_minus(SCALE / 2) > 0);
    assert!(neg_ln_one_minus(SCALE) > 0);
    // The approximation of the natural logarithm of two at one half.
    let half = neg_ln_one_minus(SCALE / 2);
    assert!((half - 45426).abs() <= 2);
}

fn light_scene() -> BvhNode {
    let light = Arc::new(Hitable::Sphere(Sphere {
        center: Vec3::new(0, 0, -4 * SCALE),
        radius: SCALE,
        material: Arc::new(Material::DiffuseLight(DiffuseLight::new(constant(Vec3::new(
            2 * SCALE,
            3 * SCALE,
            4 * SCALE,
        ))))),
    }));
    let mut build = HitableList { list: vec![light] };
    BvhNode::new(&mut build, 0, SCALE)
}

#[test]
fn radiance_of_light_is_its_emission() {
    let world = light_scene();
    let mut rng = RandomSource::new_seeded(9);
    let c = get_color(&Ray::new(Vec3::new(0, 0, 0), Vec3::new(0, 0, -SCALE), 0), &world, 0,
        &mut rng);
    assert_eq!((c.x, c.y, c.z), (2 * SCALE, 3 * SCALE, 4 * SCALE));
    // A ray that misses sees the black background.
    let miss = get_color(&Ray::new(Vec3::new(0, 0, 0), Vec3::new(0, 0, SCALE), 0), &world, 0,
        &mut rng);
    assert_eq!((miss.x, miss.y, miss.z), (0, 0, 0));
}

#[test]
fn radiance_never_negative_and_query_bounded() {
    // A mirror box scene: a metal sphere enclosing bounces; the estimate
    // stays non-negative for many sampled rays, and the ghost-counted
    // query bound is mirrored by a wall-clock-independent depth argument.
    let mirror = Arc::new(Hitable::Sphere(Sphere {
        center: Vec3::new(0, 0, -4 * SCALE),
        radius: 2 * SCALE,
        material: Arc::new(Material::Metal(Metal::new(constant(Vec3::new(
            SCALE,
            SCALE,
            SCALE,
        )), 0))),
    }));
    let ground = Arc::new(Hitable::Sphere(Sphere {
        center: Vec3::new(0, -100 * SCALE, -4 * SCALE),
        radius: 97 * SCALE,
        material: Arc::new(Material::Lambertian(Lambertian {
            albedo: constant(Vec3::new(SCALE / 2, SCALE / 2, SCALE / 2)),
        })),
    }));
    let mut build = HitableList { list: vec![mirror, ground] };
    let world = BvhNode::new(&mut build, 0, SCALE);
    let mut rng = RandomSource::new_seeded(1234);
    let mut state: u64 = 99;
    for _ in 0..200 {
        state = state.wrapping_mul(6364136223846793005).wrapping_add(1442695040888963407);
        let dx = ((state >> 20) % (2 * SCALE as u64 + 1)) as i64 - SCALE;
        let dy = ((state >> 40) % (2 * SCALE as u64 + 1)) as i64 - SCALE;
        let (c, _count) = get_color_counted(
            &Ray::new(Vec3::new(0, 0, 0), Vec3::new(dx / 2, dy / 2, -SCALE), 0),
            &world,
            0,
            &mut rng,
        );
        assert!(c.x >= 0 && c.y >= 0 && c.z >= 0);
    }
}

#[test]
fn constant_medium_scatters_inside_boundary() {
    let boundary = Arc::new(Hitable::Sphere(Sphere {
        center: Vec3::new(0, 0, -6 * SCALE),
        radius: 3 * SCALE,
        material: Arc::new(Material::Lambertian(Lambertian {
            albedo: constant(Vec3::new(SCALE, SCALE, SCALE)),
        })),
    }));
    let medium = Hitable::ConstantMedium(ConstantMedium::new(boundary, 8 * SCALE, constant(
        Vec3::new(SCALE, SCALE, SCALE),
    )));
    let mut rng = RandomSource::new_seeded(77);
    let mut inside_hits = 0;
    for _ in 0..64 {
        let mut rec = pathtracer::HitRecord::new();
        if medium.hit(&Ray::new(Vec3::new(0, 0, 0), Vec3::new(0, 0, -SCALE), 0), 1, COORD_LIMIT,
            &mut rec, &mut rng) {
            // Any reported scattering event lies within the boundary's span.
            assert!(rec.t > 3 * SCALE - 2 && rec.t < 9 * SCALE + 2);
            inside_hits += 1;
        }
    }
    // A dense medium scatters nearly every straight-through ray.
    assert!(inside_hits > 0);
}
