//! Geometry-level checks: vectors, boxes, the slab test and the sphere.

use pathtracer::{
    calc_surrounding_box, cross, dot, unit_vector, AxisAlignedBoundingBox, Ray, Sphere, Vec3,
    COORD_LIMIT, SCALE,
};
use std::sync::Arc;

fn unit_z_ray(origin: Vec3, flip: bool) -> Ray {
    Ray::new(origin, Vec3::new(0, 0, if flip { SCALE } else { -SCALE }), 0)
}

#[test]
fn vector_algebra_exact_values() {
    let a = Vec3::new(SCALE, 2 * SCALE, -SCALE);
    let b = Vec3::new(3 * SCALE, 0, SCALE);
    let s = a.add(b);
    assert_eq!((s.x(), s.y(), s.z()), (4 * SCALE, 2 * SCALE, 0));
    let d = a.sub(b);
    assert_eq!((d.x, d.y, d.z), (-2 * SCALE, 2 * SCALE, -2 * SCALE));
    // dot carries the square of the unit: 1*3 + 2*0 + (-1)*1 = 2.
    assert_eq!(dot(&a, &b), 2 * SCALE * SCALE);
    // cross of x and y axes is the z axis (in squared units).
    let x = Vec3::new(SCALE, 0, 0);
    let y = Vec3::new(0, SCALE, 0);
    let c = cross(&x, &y);
    assert_eq!((c.x, c.y, c.z), (0, 0, SCALE * SCALE));
    // normalizing a stretched axis recovers the unit axis exactly.
    let u = unit_vector(Vec3::new(0, 7 * SCALE, 0));
    assert_eq!((u.x, u.y, u.z), (0, SCALE, 0));
    assert_eq!(a.length(), ((6.0f64).sqrt() * SCALE as f64) as i64);
}

#[test]
fn surrounding_box_contains_both() {
    let b1 = AxisAlignedBoundingBox::new(Vec3::new(0, 0, 0), Vec3::new(SCALE, SCALE, SCALE));
    let b2 = AxisAlignedBoundingBox::new(
        Vec3::new(-SCALE, SCALE / 2, 0),
        Vec3::new(SCALE / 2, 3 * SCALE, SCALE),
    );
    let u12 = calc_surrounding_box(&b1, &b2);
    let u21 = calc_surrounding_box(&b2, &b1);
    // The union is order-independent.
    assert_eq!(u12.min_bound, u21.min_bound);
    assert_eq!(u12.max_bound, u21.max_bound);
    // And contains every corner of both inputs.
    for b in [&b1, &b2] {
        assert!(u12.min_bound.x <= b.min_bound.x && b.max_bound.x <= u12.max_bound.x);
        assert!(u12.min_bound.y <= b.min_bound.y && b.max_bound.y <= u12.max_bound.y);
        assert!(u12.min_bound.z <= b.min_bound.z && b.max_bound.z <= u12.max_bound.z);
    }
}

#[test]
fn box_hit_basic_and_parallel_ray() {
    let b = AxisAlignedBoundingBox::new(
        Vec3::new(-SCALE, -SCALE, -3 * SCALE),
        Vec3::new(SCALE, SCALE, -SCALE),
    );
    // Straight through the middle: hit.
    assert!(b.hit(&unit_z_ray(Vec3::new(0, 0, 0), false), 0, COORD_LIMIT));
    // Aimed away: miss.
    assert!(!b.hit(&unit_z_ray(Vec3::new(0, 0, 0), true), 0, COORD_LIMIT));
    // Offset outside the slab: miss.
    assert!(!b.hit(&unit_z_ray(Vec3::new(3 * SCALE, 0, 0), false), 0, COORD_LIMIT));
    // A ray parallel to a face, origin exactly on the boundary plane:
    // counted inside that slab (the deterministic zero-direction rule).
    assert!(b.hit(&unit_z_ray(Vec3::new(SCALE, 0, 0), false), 0, COORD_LIMIT));
    // Parallel and strictly outside: miss.
    assert!(!b.hit(&unit_z_ray(Vec3::new(SCALE + 1, 0, 0), false), 0, COORD_LIMIT));
}

#[test]
fn box_hit_reverse_ray_agrees() {
    let b = AxisAlignedBoundingBox::new(
        Vec3::new(-SCALE, -SCALE, -3 * SCALE),
        Vec3::new(SCALE, SCALE, -SCALE),
    );
    let cases = [
        (Vec3::new(0, 0, 0), Vec3::new(0, 0, -SCALE)),
        (Vec3::new(3 * SCALE, 0, 0), Vec3::new(0, 0, -SCALE)),
        (Vec3::new(0, 4 * SCALE, 0), Vec3::new(-SCALE / 4, -SCALE, -SCALE / 2)),
        (Vec3::new(-2 * SCALE, SCALE, SCALE), Vec3::new(SCALE, -SCALE / 3, -SCALE)),
    ];
    for (o, d) in cases {
        let fwd = Ray::new(o, d, 0);
        let rev = Ray::new(o, Vec3::new(-d.x, -d.y, -d.z), 0);
        let hit_fwd = b.hit(&fwd, -COORD_LIMIT, COORD_LIMIT);
        let hit_rev = b.hit(&rev, -COORD_LIMIT, COORD_LIMIT);
        assert_eq!(hit_fwd, hit_rev);
    }
}

fn lambertian_gray() -> Arc<pathtracer::Material> {
    Arc::new(pathtracer::Material::Lambertian(pathtracer::Lambertian {
        albedo: Arc::new(pathtracer::Texture::Constant(pathtracer::ConstantTexture::new(
            Vec3::new(SCALE / 2, SCALE / 2, SCALE / 2),
        ))),
    }))
}

#[test]
fn sphere_round_trip_exact() {
    // A unit sphere at the origin, a ray two units away aimed at the
    // center: the hit parameter is exactly the gap, the point is on the
    // sphere, and the normal is the exact outward unit axis.
    let s = Sphere { center: Vec3::new(0, 0, 0), radius: SCALE, material: lambertian_gray() };
    let ray = unit_z_ray(Vec3::new(0, 0, 3 * SCALE), false);
    let rec = s.hit(&ray, 0, COORD_LIMIT).expect("must hit");
    assert_eq!(rec.t, 2 * SCALE);
    assert_eq!((rec.hit_point.x, rec.hit_point.y, rec.hit_point.z), (0, 0, SCALE));
    assert_eq!((rec.normal.x, rec.normal.y, rec.normal.z), (0, 0, SCALE));
}

#[test]
fn sphere_inside_and_miss() {
    let s = Sphere { center: Vec3::new(0, 0, 0), radius: SCALE, material: lambertian_gray() };
    // From inside, the far root is used.
    let rec = s.hit(&unit_z_ray(Vec3::new(0, 0, 0), false), 0, COORD_LIMIT).expect("must hit");
    assert_eq!(rec.t, SCALE);
    // Aimed wide: miss.
    assert!(s.hit(&unit_z_ray(Vec3::new(3 * SCALE, 0, 0), false), 0, COORD_LIMIT).is_none());
    // Behind the interval: miss.
    assert!(s.hit(&unit_z_ray(Vec3::new(0, 0, 3 * SCALE), true), 0, COORD_LIMIT).is_none());
}

#[test]
fn sphere_lambertian_center_scenario() {
    // A Lambertian sphere of radius one half at minus one on the z axis,
    // camera at the origin looking down the axis: hit at one half, point
    // at minus one half, unit normal back along the axis.
    let s = Sphere {
        center: Vec3::new(0, 0, -SCALE),
        radius: SCALE / 2,
        material: lambertian_gray(),
    };
    let rec = s.hit(&unit_z_ray(Vec3::new(0, 0, 0), false), 0, COORD_LIMIT).expect("must hit");
    assert_eq!(rec.t, SCALE / 2);
    assert_eq!((rec.hit_point.x, rec.hit_point.y, rec.hit_point.z), (0, 0, -SCALE / 2));
    assert_eq!((rec.normal.x, rec.normal.y, rec.normal.z), (0, 0, SCALE));
}
