//! Scene-level checks: lists, the hierarchy, wrappers and meshes.

use pathtracer::{
    AxisAlignedBlock, BvhNode, ConstantTexture, FlipNormals, HitRecord, Hitable, HitableList,
    Lambertian, Material, Polygon, RandomSource, Ray, Sphere, Texture, Translate, Vec3,
    COORD_LIMIT, SCALE,
};
use std::sync::Arc;

fn gray() -> Arc<Material> {
    Arc::new(Material::Lambertian(Lambertian {
        albedo: Arc::new(Texture::Constant(ConstantTexture::new(Vec3::new(
            SCALE / 2,
            SCALE / 2,
            SCALE / 2,
        )))),
    }))
}

fn sphere_at(x: i64, y: i64, z: i64, r: i64) -> Arc<Hitable> {
    Arc::new(Hitable::Sphere(Sphere { center: Vec3::new(x, y, z), radius: r, material: gray() }))
}

/// A tiny deterministic pseudo-random stream for building test rays.
fn next_lcg(state: &mut u64) -> i64 {
    *state = state.wrapping_mul(6364136223846793005).wrapping_add(1442695040888963407);
    ((*state >> 24) % (2 * SCALE as u64 + 1)) as i64 - SCALE
}

#[test]
fn bvh_matches_brute_force_list() {
    // Two spheres whose boxes overlap while their geometry does not; the
    // hierarchy must agree with exhaustive list traversal on a large set
    // of sampled directions.
    let a = sphere_at(-SCALE, SCALE, -10 * SCALE, 78643);
    let b = sphere_at(SCALE, -SCALE, -10 * SCALE, 78643);
    let list = HitableList { list: vec![a.clone(), b.clone()] };
    let mut build = HitableList { list: vec![a, b] };
    let bvh = Hitable::Bvh(BvhNode::new(&mut build, 0, SCALE));
    let mut rng = RandomSource::new_seeded(7);
    let mut state: u64 = 42;
    let mut hits = 0;
    for _ in 0..1000 {
        let dx = next_lcg(&mut state) / 4;
        let dy = next_lcg(&mut state) / 4;
        let ray = Ray::new(Vec3::new(0, 0, 0), Vec3::new(dx, dy, -SCALE), 0);
        let mut rec_list = HitRecord::new();
        let mut rec_bvh = HitRecord::new();
        let hit_list = list.hit(&ray, 1, COORD_LIMIT, &mut rec_list, &mut rng);
        let hit_bvh = bvh.hit(&ray, 1, COORD_LIMIT, &mut rec_bvh, &mut rng);
        assert_eq!(hit_list, hit_bvh);
        if hit_list {
            hits += 1;
            assert_eq!(rec_list.t, rec_bvh.t);
            assert_eq!(rec_list.hit_point, rec_bvh.hit_point);
        }
    }
    // The sampling really exercised both outcomes.
    assert!(hits > 0 && hits < 1000);
}

#[test]
fn bvh_matches_brute_force_on_randomized_scene() {
    // A few dozen spheres at pseudo-random positions and radii: the
    // hierarchy and the exhaustive list must agree ray for ray.
    let mut state: u64 = 2024;
    let mut elements: Vec<Arc<Hitable>> = vec![];
    for _ in 0..24 {
        let x = next_lcg(&mut state) * 8;
        let y = next_lcg(&mut state) * 8;
        let z = -6 * SCALE + next_lcg(&mut state) * 8;
        let r = SCALE / 2 + (next_lcg(&mut state).abs() % SCALE);
        elements.push(sphere_at(x, y, z, r));
    }
    let list = HitableList { list: elements.clone() };
    let mut build = HitableList { list: elements };
    let bvh = Hitable::Bvh(BvhNode::new(&mut build, 0, SCALE));
    let mut rng = RandomSource::new_seeded(17);
    let mut agreements_with_hit = 0;
    for _ in 0..300 {
        let ox = next_lcg(&mut state);
        let oy = next_lcg(&mut state);
        let dx = next_lcg(&mut state);
        let dy = next_lcg(&mut state);
        let ray = Ray::new(Vec3::new(ox, oy, 0), Vec3::new(dx / 2, dy / 2, -SCALE), 0);
        let mut rec_list = HitRecord::new();
        let mut rec_bvh = HitRecord::new();
        let hit_list = list.hit(&ray, 1, COORD_LIMIT, &mut rec_list, &mut rng);
        let hit_bvh = bvh.hit(&ray, 1, COORD_LIMIT, &mut rec_bvh, &mut rng);
        assert_eq!(hit_list, hit_bvh);
        if hit_list {
            assert_eq!(rec_list.t, rec_bvh.t);
            agreements_with_hit += 1;
        }
    }
    assert!(agreements_with_hit > 0);
}

#[test]
fn bvh_of_empty_scene_always_misses() {
    let mut build = HitableList { list: vec![] };
    let node = BvhNode::new(&mut build, 0, SCALE);
    assert!(node.bounding_box.is_none());
    let bvh = Hitable::Bvh(node);
    let mut rng = RandomSource::new_seeded(1);
    let mut rec = HitRecord::new();
    assert!(!bvh.hit(&Ray::new(Vec3::new(0, 0, 0), Vec3::new(0, 0, -SCALE), 0), 1, COORD_LIMIT,
        &mut rec, &mut rng));
}

#[test]
fn list_returns_nearest_hit() {
    let near = sphere_at(0, 0, -4 * SCALE, SCALE);
    let far = sphere_at(0, 0, -10 * SCALE, SCALE);
    // Order in the list must not matter for the result.
    for l in [vec![near.clone(), far.clone()], vec![far, near]] {
        let list = HitableList { list: l };
        let mut rng = RandomSource::new_seeded(3);
        let mut rec = HitRecord::new();
        let hit = list.hit(&Ray::new(Vec3::new(0, 0, 0), Vec3::new(0, 0, -SCALE), 0), 1,
            COORD_LIMIT, &mut rec, &mut rng);
        assert!(hit);
        assert_eq!(rec.t, 3 * SCALE);
    }
}

#[test]
fn flip_normals_negates_normal() {
    let inner = sphere_at(0, 0, -3 * SCALE, SCALE);
    let flipped = Hitable::Flip(FlipNormals::new(inner));
    let mut rng = RandomSource::new_seeded(5);
    let mut rec = HitRecord::new();
    assert!(flipped.hit(&Ray::new(Vec3::new(0, 0, 0), Vec3::new(0, 0, -SCALE), 0), 1, COORD_LIMIT,
        &mut rec, &mut rng));
    assert_eq!((rec.normal.x, rec.normal.y, rec.normal.z), (0, 0, -SCALE));
}

#[test]
fn translate_shifts_hits() {
    let inner = sphere_at(0, 0, -3 * SCALE, SCALE);
    let moved = Hitable::Translate(Translate::new(inner, Vec3::new(2 * SCALE, 0, 0)));
    let mut rng = RandomSource::new_seeded(5);
    let mut rec = HitRecord::new();
    // The old position no longer hits.
    assert!(!moved.hit(&Ray::new(Vec3::new(0, 0, 0), Vec3::new(0, 0, -SCALE), 0), 1, COORD_LIMIT,
        &mut rec, &mut rng));
    // The shifted position does, and the reported point is in world space.
    assert!(moved.hit(&Ray::new(Vec3::new(2 * SCALE, 0, 0), Vec3::new(0, 0, -SCALE), 0), 1,
        COORD_LIMIT, &mut rec, &mut rng));
    assert_eq!(rec.t, 2 * SCALE);
    assert_eq!((rec.hit_point.x, rec.hit_point.y, rec.hit_point.z), (2 * SCALE, 0, -2 * SCALE));
}

#[test]
fn block_is_hit_on_each_face() {
    let block = Hitable::Block(AxisAlignedBlock::new(
        Vec3::new(-SCALE, -SCALE, -3 * SCALE),
        Vec3::new(SCALE, SCALE, -SCALE),
        gray(),
    ));
    let mut rng = RandomSource::new_seeded(5);
    let mut rec = HitRecord::new();
    // Straight on: the front face at one unit.
    assert!(block.hit(&Ray::new(Vec3::new(0, 0, 0), Vec3::new(0, 0, -SCALE), 0), 1, COORD_LIMIT,
        &mut rec, &mut rng));
    assert_eq!(rec.t, SCALE);
    // From the side.
    assert!(block.hit(&Ray::new(Vec3::new(-4 * SCALE, 0, -2 * SCALE), Vec3::new(SCALE, 0, 0), 0),
        1, COORD_LIMIT, &mut rec, &mut rng));
    assert_eq!(rec.t, 3 * SCALE);
    // Past the corner: miss.
    assert!(!block.hit(&Ray::new(Vec3::new(0, 3 * SCALE, 0), Vec3::new(0, 0, -SCALE), 0), 1,
        COORD_LIMIT, &mut rec, &mut rng));
}

#[test]
fn rectangle_hit_has_exact_coordinates() {
    let rect = Hitable::XY(pathtracer::XYRect {
        material: gray(),
        x_0: 0,
        x_1: 2 * SCALE,
        y_0: 0,
        y_1: 4 * SCALE,
        k: -3 * SCALE,
    });
    let mut rng = RandomSource::new_seeded(5);
    let mut rec = HitRecord::new();
    assert!(rect.hit(&Ray::new(Vec3::new(SCALE, SCALE, 0), Vec3::new(0, 0, -SCALE), 0), 1,
        COORD_LIMIT, &mut rec, &mut rng));
    assert_eq!(rec.t, 3 * SCALE);
    assert_eq!((rec.hit_point.x, rec.hit_point.y, rec.hit_point.z), (SCALE, SCALE, -3 * SCALE));
    assert_eq!((rec.normal.x, rec.normal.y, rec.normal.z), (0, 0, SCALE));
    // Texture coordinates are the exact rescaled offsets: 1/2 and 1/4.
    assert_eq!(rec.u, SCALE / 2);
    assert_eq!(rec.v, SCALE / 4);
    // A parallel ray misses deterministically.
    assert!(!rect.hit(&Ray::new(Vec3::new(SCALE, SCALE, 0), Vec3::new(SCALE, 0, 0), 0), 1,
        COORD_LIMIT, &mut rec, &mut rng));
}

#[test]
fn polygon_triangle_hit_and_miss() {
    let tri = Polygon::new(
        vec![
            Vec3::new(-2 * SCALE, -2 * SCALE, -3 * SCALE),
            Vec3::new(2 * SCALE, -2 * SCALE, -3 * SCALE),
            Vec3::new(0, 2 * SCALE, -3 * SCALE),
        ],
        gray(),
    );
    let inside = tri.hit(&Ray::new(Vec3::new(0, 0, 0), Vec3::new(0, 0, -SCALE), 0), 1, COORD_LIMIT);
    let rec = inside.expect("center of the triangle must hit");
    assert_eq!(rec.t, 3 * SCALE);
    let outside = tri.hit(
        &Ray::new(Vec3::new(3 * SCALE, 3 * SCALE, 0), Vec3::new(0, 0, -SCALE), 0),
        1,
        COORD_LIMIT,
    );
    assert!(outside.is_none());
}

#[test]
fn rotate_y_turns_geometry_about_the_axis() {
    // A quarter turn about the vertical axis: sine one, cosine zero. The
    // sphere sitting down the negative z axis turns onto the negative x
    // axis.
    let inner = sphere_at(0, 0, -4 * SCALE, SCALE);
    let turned = Hitable::RotateY(pathtracer::RotateY::new(inner, SCALE, 0));
    let mut rng = RandomSource::new_seeded(5);
    let mut rec = HitRecord::new();
    // The world ray along negative x maps into the inner frame's -z.
    assert!(turned.hit(&Ray::new(Vec3::new(0, 0, 0), Vec3::new(-SCALE, 0, 0), 0), 1, COORD_LIMIT,
        &mut rec, &mut rng));
    assert_eq!(rec.t, 3 * SCALE);
    // The original aim no longer hits.
    assert!(!turned.hit(&Ray::new(Vec3::new(0, 0, 0), Vec3::new(0, 0, -SCALE), 0), 1, COORD_LIMIT,
        &mut rec, &mut rng));
}

#[test]
fn degenerate_rectangle_always_misses() {
    // A zero-extent rectangle is admissible geometry and a deterministic
    // miss, never an error.
    let flat = Hitable::XY(pathtracer::XYRect {
        material: gray(),
        x_0: SCALE,
        x_1: SCALE,
        y_0: 0,
        y_1: 2 * SCALE,
        k: -3 * SCALE,
    });
    let mut rng = RandomSource::new_seeded(5);
    let mut rec = HitRecord::new();
    assert!(!flat.hit(&Ray::new(Vec3::new(SCALE, SCALE, 0), Vec3::new(0, 0, -SCALE), 0), 1,
        COORD_LIMIT, &mut rec, &mut rng));
}

#[test]
fn moving_sphere_behaves_as_momentary_sphere() {
    // At any instant the moving sphere hits exactly like the stationary
    // sphere at its interpolated center.
    let m = pathtracer::MovingSphere {
        radius: SCALE,
        start_center: Vec3::new(0, 0, -6 * SCALE),
        end_center: Vec3::new(4 * SCALE, 0, -6 * SCALE),
        start_time: 0,
        end_time: SCALE,
        material: gray(),
    };
    let time = SCALE / 2;
    let frozen = Sphere { center: m.get_center(time), radius: m.radius, material: gray() };
    let moving = Hitable::MovingSphere(m);
    let mut rng = RandomSource::new_seeded(5);
    for dx in [-2 * SCALE, 0, SCALE, 2 * SCALE, 4 * SCALE] {
        let ray = Ray::new(Vec3::new(dx, 0, 0), Vec3::new(0, 0, -SCALE), time);
        let mut rec = HitRecord::new();
        let hit_moving = moving.hit(&ray, 1, COORD_LIMIT, &mut rec, &mut rng);
        let frozen_hit = frozen.hit(&ray, 1, COORD_LIMIT);
        assert_eq!(hit_moving, frozen_hit.is_some());
        if let Some(fr) = frozen_hit {
            assert_eq!(rec.t, fr.t);
            assert_eq!(rec.hit_point, fr.hit_point);
        }
    }
}

#[test]
fn moving_sphere_interpolates_center() {
    let m = pathtracer::MovingSphere {
        radius: SCALE,
        start_center: Vec3::new(0, 0, 0),
        end_center: Vec3::new(4 * SCALE, 0, 0),
        start_time: 0,
        end_time: SCALE,
        material: gray(),
    };
    let c0 = m.get_center(0);
    assert_eq!((c0.x, c0.y, c0.z), (0, 0, 0));
    let c_half = m.get_center(SCALE / 2);
    assert_eq!((c_half.x, c_half.y, c_half.z), (2 * SCALE, 0, 0));
    let c1 = m.get_center(SCALE);
    assert_eq!((c1.x, c1.y, c1.z), (4 * SCALE, 0, 0));
    // Outside the window the center clips to the endpoints.
    let c_late = m.get_center(3 * SCALE);
    assert_eq!(c_late.x, 4 * SCALE);
}
