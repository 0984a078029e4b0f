//! Arbitrary planar polygons and polygon meshes.
//!
//! A polygon intersects a ray by crossing its supporting plane and testing
//! the crossing point with the even-odd rule in a 2D projection (dropping
//! the axis of least bounding-box extent). The projection test is exact
//! integer arithmetic, mirrored by a crossing-parity specification.

use vstd::prelude::*;

verus! {

use crate::aabb::AxisAlignedBoundingBox;
use crate::hit_record::HitRecord;
use crate::material::{clone_material, Material};
use crate::num::{floor_div, imax, imin, COORD_LIMIT, GEOM_LIMIT, SCALE};
use crate::ray::Ray;
use crate::vec3::{spec_add, spec_dot, spec_scale, spec_sub, spec_unit_vector, unit_vector, Vec3};
use std::sync::Arc;

/// Represents an n-sided planar polygon.
pub struct Polygon {
    pub vertices: Vec<Vec3>,
    /// The unit-bounded face normal, fixed at construction.
    pub normal: Vec3,
    /// Optional per-vertex shading normals (exactly three, for triangles).
    pub vertex_normals: Option<Vec<Vec3>>,
    pub bounding_box: Option<AxisAlignedBoundingBox>,
    pub material: Arc<Material>,
}

/// Convenience wrapper around a list of polygons pre-organized into a
/// bounding volume hierarchy.
pub struct PolygonMesh {
    pub polygons: crate::hitable::BvhNode,
}

/// The signed area term of the barycentric interpolation: the face normal
/// against the exact cross product of two edge vectors.
pub open spec fn spec_plane_area(n: Vec3, e1: Vec3, e2: Vec3) -> int {
    let cx = e1.y * e2.z - e1.z * e2.y;
    let cy = -(e1.x * e2.z - e1.z * e2.x);
    let cz = e1.x * e2.y - e1.y * e2.x;
    n.x * cx + n.y * cy + n.z * cz
}

/// The ratio of two areas rescaled to fixed point (the divisor's sign
/// folded into the numerator) and clipped into the unit interval.
pub open spec fn spec_clip_frac(num: int, den: int) -> int {
    let q = if den > 0 {
        (num * SCALE) / den
    } else {
        (-(num * SCALE)) / (-den)
    };
    if q < 0 {
        0
    } else if q > SCALE {
        SCALE as int
    } else {
        q
    }
}

/// The interpolated shading normal at a point: without vertex normals (or
/// on a degenerate face) the flat face normal; otherwise the normalized
/// barycentric blend of the three vertex normals, each weight clipped into
/// the unit interval.
pub open spec fn spec_interpolate_normal(p: Polygon, hit_point: Vec3) -> Vec3 {
    match p.vertex_normals {
        None => p.normal,
        Some(ns) => {
            let a = p.vertices@[0];
            let b = p.vertices@[1];
            let c = p.vertices@[2];
            let area_abc = spec_plane_area(p.normal, spec_sub(b, a), spec_sub(c, a));
            if area_abc == 0 {
                p.normal
            } else {
                let area_pbc = spec_plane_area(p.normal, spec_sub(b, hit_point),
                    spec_sub(c, hit_point));
                let area_pca = spec_plane_area(p.normal, spec_sub(c, hit_point),
                    spec_sub(a, hit_point));
                let u = spec_clip_frac(area_pbc, area_abc);
                let v = spec_clip_frac(area_pca, area_abc);
                let w = if SCALE - u - v >= 0 {
                    SCALE - u - v
                } else {
                    0
                };
                spec_unit_vector(
                    spec_add(spec_add(spec_scale(ns@[0], u), spec_scale(ns@[1], v)),
                    spec_scale(ns@[2], w)),
                )
            }
        },
    }
}

/// The padded vertex-extent box: the componentwise minimum and maximum
/// over all vertices, each widened by the box padding.
pub open spec fn spec_vertex_bounds(s: Seq<Vec3>) -> Option<AxisAlignedBoundingBox>
    decreases s.len(),
{
    if s.len() == 0 {
        None
    } else if s.len() == 1 {
        Some(
            AxisAlignedBoundingBox {
                min_bound: Vec3 {
                    x: (s[0].x - crate::aabb::BOX_PAD) as i64,
                    y: (s[0].y - crate::aabb::BOX_PAD) as i64,
                    z: (s[0].z - crate::aabb::BOX_PAD) as i64,
                },
                max_bound: Vec3 {
                    x: (s[0].x + crate::aabb::BOX_PAD) as i64,
                    y: (s[0].y + crate::aabb::BOX_PAD) as i64,
                    z: (s[0].z + crate::aabb::BOX_PAD) as i64,
                },
            },
        )
    } else {
        match spec_vertex_bounds(s.drop_last()) {
            None => None,
            Some(bb) => {
                let v = s.last();
                Some(
                    AxisAlignedBoundingBox {
                        min_bound: Vec3 {
                            x: (if bb.min_bound.x <= v.x - crate::aabb::BOX_PAD {
                                bb.min_bound.x as int
                            } else {
                                v.x - crate::aabb::BOX_PAD
                            }) as i64,
                            y: (if bb.min_bound.y <= v.y - crate::aabb::BOX_PAD {
                                bb.min_bound.y as int
                            } else {
                                v.y - crate::aabb::BOX_PAD
                            }) as i64,
                            z: (if bb.min_bound.z <= v.z - crate::aabb::BOX_PAD {
                                bb.min_bound.z as int
                            } else {
                                v.z - crate::aabb::BOX_PAD
                            }) as i64,
                        },
                        max_bound: Vec3 {
                            x: (if bb.max_bound.x >= v.x + crate::aabb::BOX_PAD {
                                bb.max_bound.x as int
                            } else {
                                v.x + crate::aabb::BOX_PAD
                            }) as i64,
                            y: (if bb.max_bound.y >= v.y + crate::aabb::BOX_PAD {
                                bb.max_bound.y as int
                            } else {
                                v.y + crate::aabb::BOX_PAD
                            }) as i64,
                            z: (if bb.max_bound.z >= v.z + crate::aabb::BOX_PAD {
                                bb.max_bound.z as int
                            } else {
                                v.z + crate::aabb::BOX_PAD
                            }) as i64,
                        },
                    },
                )
            },
        }
    }
}

/// The Newell sum over the first `i` edges: cross products of successive
/// vertices, the last wrapping to the first.
pub open spec fn spec_newell_sum(s: Seq<Vec3>, i: nat) -> (int, int, int)
    decreases i,
{
    if i == 0 {
        (0, 0, 0)
    } else {
        let prev = spec_newell_sum(s, (i - 1) as nat);
        let a = s[i - 1];
        let b = s[if i == s.len() {
            0
        } else {
            i as int
        }];
        (
            prev.0 + (a.y * b.z - a.z * b.y),
            prev.1 + (-(a.x * b.z - a.z * b.x)),
            prev.2 + (a.x * b.y - a.y * b.x),
        )
    }
}

/// Whether all three components lie in the range the normalizer accepts.
pub open spec fn spec_halve_done(x: int, y: int, z: int) -> bool {
    &&& -0x2000_0000 <= x <= 0x2000_0000
    &&& -0x2000_0000 <= y <= 0x2000_0000
    &&& -0x2000_0000 <= z <= 0x2000_0000
}

/// Halves all three components (floor) until they fit the normalizer's
/// range or the fuel runs out.
pub open spec fn spec_halve(x: int, y: int, z: int, fuel: nat) -> (int, int, int)
    decreases fuel,
{
    if fuel == 0 || spec_halve_done(x, y, z) {
        (x, y, z)
    } else {
        spec_halve(x / 2, y / 2, z / 2, (fuel - 1) as nat)
    }
}

/// The face normal by Newell's method: the summed cross products halved
/// into range and normalized; the zero vector if the halving fuel runs
/// out.
pub open spec fn spec_newell_normal(s: Seq<Vec3>) -> Vec3 {
    let sum = spec_newell_sum(s, s.len());
    let h = spec_halve(sum.0, sum.1, sum.2, 100);
    if spec_halve_done(h.0, h.1, h.2) {
        spec_unit_vector(Vec3 { x: h.0 as i64, y: h.1 as i64, z: h.2 as i64 })
    } else {
        Vec3 { x: 0, y: 0, z: 0 }
    }
}

/// One vertex projected onto the two kept axes (the dropped axis given by
/// its index).
pub open spec fn spec_project(axis: int, v: Vec3) -> (i64, i64) {
    if axis == 0 {
        (v.y, v.z)
    } else if axis == 1 {
        (v.x, v.z)
    } else {
        (v.x, v.y)
    }
}

/// The exact meaning of the polygon's hit test: fewer than three vertices,
/// a missing box, a parallel ray, a crossing parameter outside the open
/// interval or a point outside the numeric envelope all miss; otherwise
/// the plane-crossing point is tested by the even-odd rule in the
/// projection dropping the axis of least box extent, and a pass produces
/// the record with the interpolated shading normal.
pub open spec fn spec_polygon_hit(p: Polygon, r: Ray, tmin: int, tmax: int) -> Option<HitRecord> {
    if p.vertices@.len() < 3 {
        None
    } else {
        match p.bounding_box {
            None => None,
            Some(bb) => {
                let den = spec_dot(p.normal, r.direction);
                if den == 0 {
                    None
                } else {
                    let num = spec_dot(p.normal, spec_sub(p.vertices@[0], r.origin));
                    let t = if den > 0 {
                        (num * SCALE) / den
                    } else {
                        (-(num * SCALE)) / (-den)
                    };
                    if tmin < t && t < tmax {
                        let px = crate::ray::spec_point_coord(r.origin.x as int,
                            r.direction.x as int, t);
                        let py = crate::ray::spec_point_coord(r.origin.y as int,
                            r.direction.y as int, t);
                        let pz = crate::ray::spec_point_coord(r.origin.z as int,
                            r.direction.z as int, t);
                        let hp = Vec3 { x: px as i64, y: py as i64, z: pz as i64 };
                        if -COORD_LIMIT <= px <= COORD_LIMIT && -COORD_LIMIT <= py <= COORD_LIMIT
                            && -COORD_LIMIT <= pz <= COORD_LIMIT && bb.min_bound.x < px && px
                            < bb.max_bound.x - 1 && bb.min_bound.y < py && py < bb.max_bound.y - 1
                            && bb.min_bound.z < pz && pz < bb.max_bound.z - 1 {
                            let xe = bb.max_bound.x - bb.min_bound.x;
                            let ye = bb.max_bound.y - bb.min_bound.y;
                            let ze = bb.max_bound.z - bb.min_bound.z;
                            let axis: int = if xe <= ye && xe <= ze {
                                0
                            } else if ye <= ze {
                                1
                            } else {
                                2
                            };
                            let pp = spec_project(axis, hp);
                            let poly = Seq::new(p.vertices@.len(), |k: int| spec_project(axis,
                                p.vertices@[k]));
                            if spec_in_poly(poly, pp.0 as int, pp.1 as int) {
                                Some(
                                    HitRecord {
                                        t: t as i64,
                                        hit_point: hp,
                                        normal: spec_interpolate_normal(p, hp),
                                        material: Some(p.material),
                                        u: 0,
                                        v: 0,
                                    },
                                )
                            } else {
                                None
                            }
                        } else {
                            None
                        }
                    } else {
                        None
                    }
                }
            },
        }
    }
}

impl Polygon {
    pub open spec fn wf(self) -> bool {
        &&& self.vertices@.len() <= 1024
        &&& forall|i: int|
            0 <= i < self.vertices@.len() ==> (#[trigger] self.vertices@[i]).bounded(
                GEOM_LIMIT as int,
            )
        &&& self.normal.bounded(SCALE as int)
        &&& match self.vertex_normals {
            Some(ns) => ns@.len() == 3 && forall|i: int|
                0 <= i < 3 ==> (#[trigger] ns@[i]).bounded(2 * SCALE as int),
            None => true,
        }
        &&& match self.bounding_box {
            Some(b) => b.wf(),
            None => true,
        }
        &&& self.material.wf()
    }

    /// Constructs a new polygon from the list of given vertices: the face
    /// normal comes from Newell's method and the bounding box from the
    /// vertices' extremes (padded).
    pub fn new(vertices: Vec<Vec3>, material: Arc<Material>) -> (p: Polygon)
        requires
            vertices@.len() <= 1024,
            forall|i: int|
                0 <= i < vertices@.len() ==> (#[trigger] vertices@[i]).bounded(GEOM_LIMIT as int),
            material.wf(),
        ensures
            p.wf(),
            p.vertices == vertices,
            p.vertex_normals is None,
            p.material == material,
            p.normal == spec_newell_normal(vertices@),
            p.bounding_box == spec_vertex_bounds(vertices@),
    {
        let bounding_box = vertex_bounds(&vertices);
        let normal = newell_normal(&vertices);
        Polygon { vertices, normal, vertex_normals: None, bounding_box, material }
    }

    /// Interpolates a triangle's vertex normals at a given hit point using
    /// barycentric areas (clipped into the unit simplex); without vertex
    /// normals, or for a degenerate face, the flat face normal is used.
    pub fn interpolate_normal(&self, hit_point: Vec3) -> (n: Vec3)
        requires
            self.wf(),
            self.vertices@.len() >= 3,
            hit_point.bounded(COORD_LIMIT as int),
        ensures
            n == spec_interpolate_normal(*self, hit_point),
            n.bounded(2 * SCALE as int),
    {
        match &self.vertex_normals {
            None => self.normal,
            Some(ns) => {
                let a = self.vertices[0];
                let b = self.vertices[1];
                let c = self.vertices[2];
                let area_abc = plane_area(&self.normal, &b.sub(a), &c.sub(a));
                if area_abc == 0 {
                    return self.normal;
                }
                let area_pbc = plane_area(
                    &self.normal,
                    &b.sub(hit_point),
                    &c.sub(hit_point),
                );
                let area_pca = plane_area(
                    &self.normal,
                    &c.sub(hit_point),
                    &a.sub(hit_point),
                );
                let u = clip_frac(area_pbc, area_abc);
                let v = clip_frac(area_pca, area_abc);
                let w = imax(0, SCALE - u - v);
                proof {
                    crate::vec3::lemma_scale_bound(ns@[0], u as int, 2 * SCALE as int,
                        SCALE as int, 2 * SCALE as int);
                    crate::vec3::lemma_scale_bound(ns@[1], v as int, 2 * SCALE as int,
                        SCALE as int, 2 * SCALE as int);
                    crate::vec3::lemma_scale_bound(ns@[2], w as int, 2 * SCALE as int,
                        SCALE as int, 2 * SCALE as int);
                    assert((2 * SCALE as int) * (SCALE as int) >= (2 * SCALE as int) * (
                    SCALE as int));
                }
                let mixed = ns[0].scale(u).add(ns[1].scale(v)).add(ns[2].scale(w));
                unit_vector(mixed)
            },
        }
    }
}

/// The signed area (times the normal's scale) spanned by two edge vectors
/// against the face normal, in wide arithmetic.
fn plane_area(n: &Vec3, e1: &Vec3, e2: &Vec3) -> (r: i128)
    requires
        n.bounded(SCALE as int),
        e1.bounded(0x2000_0000),
        e2.bounded(0x2000_0000),
    ensures
        r == spec_plane_area(*n, *e1, *e2),
        -0x20_0000_0000_0000_0000_0000 <= r <= 0x20_0000_0000_0000_0000_0000,
{
    proof {
        assert(forall|p: int, q: int|
            -0x2000_0000 <= p <= 0x2000_0000 && -0x2000_0000 <= q <= 0x2000_0000 ==> -(
            0x400_0000_0000_0000 as int) <= #[trigger] (p * q) <= 0x400_0000_0000_0000)
            by (nonlinear_arith);
    }
    let cx = (e1.y as i128) * (e2.z as i128) - (e1.z as i128) * (e2.y as i128);
    let cy = -((e1.x as i128) * (e2.z as i128) - (e1.z as i128) * (e2.x as i128));
    let cz = (e1.x as i128) * (e2.y as i128) - (e1.y as i128) * (e2.x as i128);
    proof {
        assert(forall|p: int, q: int|
            -(SCALE as int) <= p <= SCALE as int && -0x800_0000_0000_0000 <= q
                <= 0x800_0000_0000_0000 ==> -(0x8_0000_0000_0000_0000_0000 as int) <= #[trigger] (
            p * q) <= 0x8_0000_0000_0000_0000_0000) by (nonlinear_arith);
    }
    (n.x as i128) * cx + (n.y as i128) * cy + (n.z as i128) * cz
}

/// The ratio of two areas rescaled to fixed point and clipped into the
/// unit interval.
fn clip_frac(num: i128, den: i128) -> (r: i64)
    requires
        den != 0,
        -0x20_0000_0000_0000_0000_0000 <= num <= 0x20_0000_0000_0000_0000_0000,
        -0x20_0000_0000_0000_0000_0000 <= den <= 0x20_0000_0000_0000_0000_0000,
    ensures
        r == spec_clip_frac(num as int, den as int),
        0 <= r <= SCALE,
{
    let (n2, d2) = if den > 0 {
        (num, den)
    } else {
        (-num, -den)
    };
    proof {
        assert(-0x20_0000_0000_0000_0000_0000_0000 <= n2 * (SCALE as int)
            <= 0x20_0000_0000_0000_0000_0000_0000) by (nonlinear_arith)
            requires
                -0x20_0000_0000_0000_0000_0000 <= n2 <= 0x20_0000_0000_0000_0000_0000,
        ;
        crate::num::lemma_div_magnitude(n2 * (SCALE as int), d2 as int);
    }
    let q = floor_div(n2 * (SCALE as i128), d2);
    let clipped = if q < 0 {
        0
    } else if q > SCALE as i128 {
        SCALE
    } else {
        q as i64
    };
    clipped
}

/// The padded axis-aligned box of a vertex set; absent for no vertices.
pub fn vertex_bounds(vertices: &Vec<Vec3>) -> (b: Option<AxisAlignedBoundingBox>)
    requires
        vertices@.len() <= 1024,
        forall|i: int|
            0 <= i < vertices@.len() ==> (#[trigger] vertices@[i]).bounded(GEOM_LIMIT as int),
    ensures
        b == spec_vertex_bounds(vertices@),
        match b {
            Some(bb) => bb.wf() && vertices@.len() > 0,
            None => vertices@.len() == 0,
        },
{
    if vertices.len() == 0 {
        return None;
    }
    proof {
        assert(vertices@.take(1).len() == 1 && vertices@.take(1)[0] == vertices@[0]);
    }
    let mut lo = Vec3 {
        x: vertices[0].x - crate::aabb::BOX_PAD,
        y: vertices[0].y - crate::aabb::BOX_PAD,
        z: vertices[0].z - crate::aabb::BOX_PAD,
    };
    let mut hi = Vec3 {
        x: vertices[0].x + crate::aabb::BOX_PAD,
        y: vertices[0].y + crate::aabb::BOX_PAD,
        z: vertices[0].z + crate::aabb::BOX_PAD,
    };
    let mut i: usize = 1;
    while i < vertices.len()
        invariant
            1 <= i <= vertices@.len(),
            vertices@.len() <= 1024,
            forall|k: int|
                0 <= k < vertices@.len() ==> (#[trigger] vertices@[k]).bounded(GEOM_LIMIT as int),
            lo.bounded(GEOM_LIMIT as int + crate::aabb::BOX_PAD as int),
            hi.bounded(GEOM_LIMIT as int + crate::aabb::BOX_PAD as int),
            Some(AxisAlignedBoundingBox { min_bound: lo, max_bound: hi }) == spec_vertex_bounds(
                vertices@.take(i as int),
            ),
        decreases vertices@.len() - i,
    {
        proof {
            assert(vertices@.take(i as int + 1).drop_last() =~= vertices@.take(i as int));
            assert(vertices@.take(i as int + 1).last() == vertices@[i as int]);
        }
        let v = vertices[i];
        lo = Vec3 {
            x: imin(lo.x, v.x - crate::aabb::BOX_PAD),
            y: imin(lo.y, v.y - crate::aabb::BOX_PAD),
            z: imin(lo.z, v.z - crate::aabb::BOX_PAD),
        };
        hi = Vec3 {
            x: imax(hi.x, v.x + crate::aabb::BOX_PAD),
            y: imax(hi.y, v.y + crate::aabb::BOX_PAD),
            z: imax(hi.z, v.z + crate::aabb::BOX_PAD),
        };
        i = i + 1;
    }
    proof {
        assert(vertices@.take(vertices@.len() as int) =~= vertices@);
    }
    Some(AxisAlignedBoundingBox { min_bound: lo, max_bound: hi })
}

/// Calculates the face normal by Newell's method (the sum of successive
/// cross products), rescaled into the unit ball. For a degenerate
/// (zero-area) vertex set the zero vector results.
pub fn newell_normal(vertices: &Vec<Vec3>) -> (n: Vec3)
    requires
        vertices@.len() <= 1024,
        forall|i: int|
            0 <= i < vertices@.len() ==> (#[trigger] vertices@[i]).bounded(GEOM_LIMIT as int),
    ensures
        n == spec_newell_normal(vertices@),
        n.bounded(SCALE as int),
{
    let mut sx: i128 = 0;
    let mut sy: i128 = 0;
    let mut sz: i128 = 0;
    let n_verts = vertices.len();
    let mut i: usize = 0;
    proof {
        assert(forall|p: int, q: int|
            -GEOM_LIMIT <= p <= GEOM_LIMIT && -GEOM_LIMIT <= q <= GEOM_LIMIT ==> -(
            0x4000_0000_0000_0000 as int) <= #[trigger] (p * q) <= 0x4000_0000_0000_0000)
            by (nonlinear_arith);
    }
    while i < n_verts
        invariant
            i <= n_verts,
            n_verts == vertices@.len() <= 1024,
            forall|k: int|
                0 <= k < vertices@.len() ==> (#[trigger] vertices@[k]).bounded(GEOM_LIMIT as int),
            -((i as int) * 0x8000_0000_0000_0000) <= sx <= (i as int) * 0x8000_0000_0000_0000,
            -((i as int) * 0x8000_0000_0000_0000) <= sy <= (i as int) * 0x8000_0000_0000_0000,
            -((i as int) * 0x8000_0000_0000_0000) <= sz <= (i as int) * 0x8000_0000_0000_0000,
            (sx as int, sy as int, sz as int) == spec_newell_sum(vertices@, i as nat),
        decreases n_verts - i,
    {
        let a = vertices[i];
        let b = vertices[if i + 1 == n_verts {
            0
        } else {
            i + 1
        }];
        proof {
            assert(forall|p: int, q: int|
                -GEOM_LIMIT <= p <= GEOM_LIMIT && -GEOM_LIMIT <= q <= GEOM_LIMIT ==> -(
                0x4000_0000_0000_0000 as int) <= #[trigger] (p * q) <= 0x4000_0000_0000_0000)
                by (nonlinear_arith);
        }
        sx = sx + ((a.y as i128) * (b.z as i128) - (a.z as i128) * (b.y as i128));
        sy = sy + (-((a.x as i128) * (b.z as i128) - (a.z as i128) * (b.x as i128)));
        sz = sz + ((a.x as i128) * (b.y as i128) - (a.y as i128) * (b.x as i128));
        i = i + 1;
    }
    // Scale the accumulated (possibly huge) normal down into range, then
    // normalize; halving preserves the direction up to floor rounding.
    let ghost sum = (sx as int, sy as int, sz as int);
    let mut hx = sx;
    let mut hy = sy;
    let mut hz = sz;
    let mut guard: u32 = 0;
    while (hx > 0x2000_0000 || hx < -0x2000_0000 || hy > 0x2000_0000 || hy < -0x2000_0000 || hz
        > 0x2000_0000 || hz < -0x2000_0000) && guard < 100
        invariant
            guard <= 100,
            -0x4000_0000_0000_0000_0000 <= hx <= 0x4000_0000_0000_0000_0000,
            -0x4000_0000_0000_0000_0000 <= hy <= 0x4000_0000_0000_0000_0000,
            -0x4000_0000_0000_0000_0000 <= hz <= 0x4000_0000_0000_0000_0000,
            spec_halve(sum.0, sum.1, sum.2, 100) == spec_halve(hx as int, hy as int, hz as int,
                (100 - guard) as nat),
        decreases 100 - guard,
    {
        hx = floor_div(hx, 2);
        hy = floor_div(hy, 2);
        hz = floor_div(hz, 2);
        proof {
            crate::num::lemma_div_magnitude(hx as int, 2);
            crate::num::lemma_div_magnitude(hy as int, 2);
            crate::num::lemma_div_magnitude(hz as int, 2);
        }
        guard = guard + 1;
    }
    proof {
        assert(spec_halve(hx as int, hy as int, hz as int, (100 - guard) as nat) == (
        hx as int,
        hy as int,
        hz as int,
        ));
    }
    if hx > 0x2000_0000 || hx < -0x2000_0000 || hy > 0x2000_0000 || hy < -0x2000_0000 || hz
        > 0x2000_0000 || hz < -0x2000_0000 {
        return Vec3 { x: 0, y: 0, z: 0 };
    }
    unit_vector(Vec3 { x: hx as i64, y: hy as i64, z: hz as i64 })
}

impl PolygonMesh {
    /// Constructs a new polygon mesh: the given faces pre-organized into a
    /// bounding volume hierarchy whose leaves are exactly the given faces.
    pub fn new(polygons: Vec<Arc<crate::hitable::Hitable>>) -> (m: PolygonMesh)
        requires
            crate::hitable::wf_seq(polygons@),
        ensures
            crate::hitable::wf_bvh_node(m.polygons),
            (forall|q: int|
                0 <= q < polygons@.len() ==> crate::bvh_node::counted_leaf(
                    #[trigger] polygons@[q],
                )) ==> (forall|e: Arc<crate::hitable::Hitable>|
                (#[trigger] crate::bvh_node::node_leaves(m.polygons).count(e)) > 0
                    <==> polygons@.to_multiset().count(e) > 0),
    {
        let mut list = crate::hitable::HitableList { list: polygons };
        PolygonMesh { polygons: crate::hitable::BvhNode::new(&mut list, 0, 0) }
    }
}

/// One edge's crossing condition of the even-odd rule, decided exactly by
/// cross multiplication with the edge's vertical span.
pub open spec fn spec_cross_cond(pi: (i64, i64), pj: (i64, i64), u: int, v: int) -> bool {
    let xi = pi.0 as int;
    let yi = pi.1 as int;
    let xj = pj.0 as int;
    let yj = pj.1 as int;
    &&& ((yi > v) != (yj > v))
    &&& if yj > yi {
        (u - xi) * (yj - yi) < (xj - xi) * (v - yi)
    } else {
        (u - xi) * (yj - yi) > (xj - xi) * (v - yi)
    }
}

/// The parity of crossings among the first `i` edges (each vertex paired
/// with its predecessor, the first with the last).
pub open spec fn spec_crossing_parity(poly: Seq<(i64, i64)>, u: int, v: int, i: nat) -> bool
    decreases i,
{
    if i == 0 {
        false
    } else {
        let idx = (i - 1) as int;
        let jdx = if idx == 0 { poly.len() - 1 } else { idx - 1 };
        spec_crossing_parity(poly, u, v, (i - 1) as nat) != spec_cross_cond(
            poly[idx],
            poly[jdx],
            u,
            v,
        )
    }
}

/// The even-odd point-in-polygon rule: the parity of all edge crossings.
pub open spec fn spec_in_poly(poly: Seq<(i64, i64)>, u: int, v: int) -> bool {
    spec_crossing_parity(poly, u, v, poly.len())
}

impl Polygon {
    /// Calculates the surface normal of the polygon's plane (by Newell's
    /// method, rescaled to the unit ball).
    pub fn get_normal(&self) -> (n: Vec3)
        requires
            self.wf(),
        ensures
            n == spec_newell_normal(self.vertices@),
            n.bounded(SCALE as int),
    {
        newell_normal(&self.vertices)
    }

    /// Uses the even-odd test to determine whether the given projected
    /// point lies within the projected polygon — exactly the crossing
    /// parity of `spec_in_poly`.
    pub fn is_point_in_poly(&self, point: (i64, i64), poly: &Vec<(i64, i64)>) -> (r: bool)
        requires
            poly@.len() >= 1,
            -COORD_LIMIT <= point.0 <= COORD_LIMIT,
            -COORD_LIMIT <= point.1 <= COORD_LIMIT,
            forall|i: int|
                0 <= i < poly@.len() ==> -COORD_LIMIT <= (#[trigger] poly@[i]).0 <= COORD_LIMIT
                    && -COORD_LIMIT <= poly@[i].1 <= COORD_LIMIT,
        ensures
            r == spec_in_poly(poly@, point.0 as int, point.1 as int),
    {
        let len = poly.len();
        let mut j = len - 1;
        let mut answer = false;
        let (u, v) = point;
        let mut i: usize = 0;
        proof {
            assert(forall|p: int, q: int|
                -0x1000_0000_0000 <= p <= 0x1000_0000_0000 && -0x1000_0000_0000 <= q
                    <= 0x1000_0000_0000 ==> -(0x1_0000_0000_0000_0000_0000_0000 as int)
                    <= #[trigger] (p * q) <= 0x1_0000_0000_0000_0000_0000_0000)
                by (nonlinear_arith);
        }
        while i < len
            invariant
                len == poly@.len() >= 1,
                i <= len,
                j == (if i == 0 { len - 1 } else { i - 1 }),
                answer == spec_crossing_parity(poly@, u as int, v as int, i as nat),
                u == point.0,
                v == point.1,
                -COORD_LIMIT <= u <= COORD_LIMIT,
                -COORD_LIMIT <= v <= COORD_LIMIT,
                forall|k: int|
                    0 <= k < poly@.len() ==> -COORD_LIMIT <= (#[trigger] poly@[k]).0
                        <= COORD_LIMIT && -COORD_LIMIT <= poly@[k].1 <= COORD_LIMIT,
            decreases len - i,
        {
            proof {
                assert(forall|p: int, q: int|
                    -0x1000_0000_0000 <= p <= 0x1000_0000_0000 && -0x1000_0000_0000 <= q
                        <= 0x1000_0000_0000 ==> -(0x1_0000_0000_0000_0000_0000_0000 as int)
                        <= #[trigger] (p * q) <= 0x1_0000_0000_0000_0000_0000_0000)
                    by (nonlinear_arith);
            }
            let (xi, yi) = poly[i];
            let (xj, yj) = poly[j];
            if (yi > v) != (yj > v) {
                let lhs = ((u - xi) as i128) * ((yj - yi) as i128);
                let rhs = ((xj - xi) as i128) * ((v - yi) as i128);
                let crossed = if yj > yi {
                    lhs < rhs
                } else {
                    lhs > rhs
                };
                if crossed {
                    answer = !answer;
                }
            }
            j = i;
            i = i + 1;
        }
        answer
    }

    /// The polygon's hit test: cross the supporting plane, then apply the
    /// even-odd rule in the least-extent projection — exactly
    /// `spec_polygon_hit`. Degenerate input (a parallel ray, fewer than
    /// three vertices, a crossing point outside the numeric envelope or
    /// outside the polygon's padded box) is a deterministic miss.
    pub fn hit(&self, ray: &Ray, t_min: i64, t_max: i64) -> (res: Option<HitRecord>)
        requires
            self.wf(),
            ray.wf(),
            -COORD_LIMIT <= t_min <= COORD_LIMIT,
            -COORD_LIMIT <= t_max <= COORD_LIMIT,
        ensures
            res == spec_polygon_hit(*self, *ray, t_min as int, t_max as int),
            res matches Some(rec) ==> rec.wf() && t_min < rec.t < t_max && rec.material is Some,
    {
        if self.vertices.len() < 3 {
            return None;
        }
        let bb = match &self.bounding_box {
            None => {
                return None;
            },
            Some(b) => *b,
        };
        let point_on_plane = self.vertices[0];
        let denominator = crate::vec3::dot(&self.normal, &ray.direction);
        if denominator == 0 {
            return None;
        }
        let po = Vec3 {
            x: point_on_plane.x - ray.origin.x,
            y: point_on_plane.y - ray.origin.y,
            z: point_on_plane.z - ray.origin.z,
        };
        let num = crate::vec3::dot(&self.normal, &po);
        proof {
            crate::vec3::lemma_dot_bound(self.normal, po, 0x2000_0000);
            assert((3 as int) * 0x2000_0000 * 0x2000_0000 < 0x1_0000_0000_0000_0000)
                by (nonlinear_arith);
            assert(forall|p: int|
                -0x1_0000_0000_0000_0000 <= p <= 0x1_0000_0000_0000_0000 ==> -(
                0x1_0000_0000_0000_0000_0000 as int) <= #[trigger] (p * (SCALE as int))
                    <= 0x1_0000_0000_0000_0000_0000) by (nonlinear_arith);
        }
        let (tn, td) = if denominator > 0 {
            ((num as i128) * (SCALE as i128), denominator as i128)
        } else {
            (-((num as i128) * (SCALE as i128)), -(denominator as i128))
        };
        proof {
            crate::num::lemma_div_magnitude(tn as int, td as int);
        }
        let tw = floor_div(tn, td);
        if !((t_min as i128) < tw && tw < (t_max as i128)) {
            return None;
        }
        let t = tw as i64;
        let hit_point = ray.point_at_param(t);
        if hit_point.x > COORD_LIMIT || hit_point.x < -COORD_LIMIT || hit_point.y > COORD_LIMIT
            || hit_point.y < -COORD_LIMIT || hit_point.z > COORD_LIMIT || hit_point.z
            < -COORD_LIMIT {
            return None;
        }
        // The crossing point must sit strictly inside the polygon's padded
        // box (with a unit to spare), so every reported hit witnesses a
        // hit of the box the hierarchy prunes with; the padding makes this
        // a formality for genuine hits.
        if !(bb.min_bound.x < hit_point.x && hit_point.x < bb.max_bound.x - 1 && bb.min_bound.y
            < hit_point.y && hit_point.y < bb.max_bound.y - 1 && bb.min_bound.z < hit_point.z
            && hit_point.z < bb.max_bound.z - 1) {
            return None;
        }
        let x_extent = bb.max_bound.x - bb.min_bound.x;
        let y_extent = bb.max_bound.y - bb.min_bound.y;
        let z_extent = bb.max_bound.z - bb.min_bound.z;
        // Project onto the two axes with the larger extents.
        let axis_drop: u8 = if x_extent <= y_extent && x_extent <= z_extent {
            0
        } else if y_extent <= z_extent {
            1
        } else {
            2
        };
        let projected_hit_point: (i64, i64) = if axis_drop == 0 {
            (hit_point.y, hit_point.z)
        } else if axis_drop == 1 {
            (hit_point.x, hit_point.z)
        } else {
            (hit_point.x, hit_point.y)
        };
        let ghost spec_axis: int = axis_drop as int;
        let mut projected_polygon: Vec<(i64, i64)> = Vec::new();
        let mut i: usize = 0;
        while i < self.vertices.len()
            invariant
                i <= self.vertices@.len(),
                projected_polygon@.len() == i as int,
                self.wf(),
                spec_axis == axis_drop as int,
                axis_drop == 0 || axis_drop == 1 || axis_drop == 2,
                forall|k: int|
                    0 <= k < projected_polygon@.len() ==> #[trigger] projected_polygon@[k]
                        == spec_project(spec_axis, self.vertices@[k]),
                forall|k: int|
                    0 <= k < projected_polygon@.len() ==> -COORD_LIMIT <= (
                    #[trigger] projected_polygon@[k]).0 <= COORD_LIMIT && -COORD_LIMIT
                        <= projected_polygon@[k].1 <= COORD_LIMIT,
            decreases self.vertices@.len() - i,
        {
            let vtx = self.vertices[i];
            let pr: (i64, i64) = if axis_drop == 0 {
                (vtx.y, vtx.z)
            } else if axis_drop == 1 {
                (vtx.x, vtx.z)
            } else {
                (vtx.x, vtx.y)
            };
            projected_polygon.push(pr);
            i = i + 1;
        }
        proof {
            assert(projected_polygon@ =~= Seq::new(self.vertices@.len(), |k: int| spec_project(
                spec_axis,
                self.vertices@[k],
            )));
            assert(projected_hit_point == spec_project(spec_axis, hit_point));
        }
        if !self.is_point_in_poly(projected_hit_point, &projected_polygon) {
            return None;
        }
        let normal = self.interpolate_normal(hit_point);
        Some(
            HitRecord {
                t,
                hit_point,
                normal,
                material: Some(clone_material(&self.material)),
                u: 0,
                v: 0,
            },
        )
    }
}

} // verus!
