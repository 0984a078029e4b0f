//! An offline path-tracing renderer built on exact fixed-point arithmetic.
//!
//! Geometry, colors and ray parameters are stored as signed integers scaled
//! by `SCALE` (one world unit). All intersection and shading logic is exact
//! integer arithmetic, so every routine carries a precise contract.
//!
//! One convention holds throughout: every intersection query uses the open
//! parameter interval `(t_min, t_max)` — for primitives, collections, the
//! hierarchy and the box test alike. A single strict convention is what
//! lets a reported hit always witness a hit of its primitive's padded box,
//! which the pruning-equivalence theorem rests on; exact boundary touches
//! are misses by design.

mod aabb;
mod bvh_node;
mod equivalence;
mod hit_record;
mod integrator;
mod hitable;
mod material;
mod num;
mod perlin;
mod polygon;
mod ray;
mod rectangles;
mod sphere;
mod texture;
mod transformations;
mod utils;
mod volumes;
mod rng;
mod vec3;

pub use aabb::{calc_surrounding_box, lemma_box_hit_reverse, lemma_surrounding_box_commutes, lemma_surrounding_box_contains, spec_box_hit, spec_surrounding_box, AxisAlignedBoundingBox};
pub use num::{COORD_LIMIT, SCALE};
pub use hit_record::HitRecord;
pub use integrator::{color_at_least, depth_budget, get_color, get_color_counted, MAX_DEPTH};
pub use equivalence::{fully_boxed, lemma_built_scene_equivalence, lemma_bvh_equivalence, lemma_exhaustive_in_box, spec_exhaustive_hit};
pub use bvh_node::{counted_leaf, det_and_boxed, leaves_of, node_leaves, spec_box_pair};
pub use hitable::{medium_record_fields, spec_bvh_hit, spec_hit, spec_list_hit, spec_medium_span, spec_rotate_y_hit, BvhNode, Hitable, HitableList};
pub use material::{spec_emit, Dielectric, DiffuseLight, Glossy, Isotropic, Lambertian, Material, Metal};
pub use perlin::Perlin;
pub use polygon::{spec_polygon_hit, Polygon, PolygonMesh};
pub use ray::Ray;
pub use rectangles::{AxisAlignedBlock, XYRect, XZRect, YZRect};
pub use sphere::{lemma_sphere_round_trip, spec_momentary, spec_moving_center, spec_sphere_hit, MovingSphere, Sphere};
pub use texture::{CheckerTexture, ConstantTexture, ImageTexture, NoiseTexture, Texture};
pub use transformations::{FlipNormals, RotateY, Translate};
pub use volumes::{neg_ln_one_minus, ConstantMedium, VariableMedium};
pub use utils::{random_point_in_unit_disk, random_point_in_unit_sphere, reflect, refract, schlick_approx, spec_refracted};
pub use rng::RandomSource;
pub use vec3::{cross, dot, unit_vector, Vec3};
