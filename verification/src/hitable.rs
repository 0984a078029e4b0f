//! The scene tree: every intersectable entity, its well-formedness, and
//! the uniform "intersect within an interval" query.
//!
//! The deterministic core of the tree — spheres, rectangles, blocks,
//! lists, the bounding volume hierarchy and the flip/translate wrappers —
//! is mirrored
//! exactly by specification functions (`spec_hit`, `spec_list_hit`,
//! `spec_bvh_hit`), so that equivalences between traversal strategies can
//! be stated and proved about them. Participating media and other
//! randomized or transcendental variants carry envelope contracts instead.

use vstd::prelude::*;

verus! {

use crate::aabb::{calc_surrounding_box, spec_box_hit, AxisAlignedBoundingBox, BOX_PAD};
use crate::hit_record::HitRecord;
use crate::num::{floor_div64, fmul, imax, imin, COORD_LIMIT, GEOM_LIMIT, SCALE};
use crate::polygon::{Polygon, PolygonMesh};
use crate::ray::Ray;
use crate::rectangles::{spec_plane_hit, AxisAlignedBlock, XYRect, XZRect, YZRect};
use crate::rng::RandomSource;
use crate::sphere::{spec_sphere_hit, MovingSphere, Sphere};
use crate::transformations::{clip_coord, FlipNormals, RotateY, Translate};
use crate::vec3::Vec3;
use crate::volumes::{neg_ln_one_minus, ConstantMedium, VariableMedium};
use std::sync::Arc;

/// Represents a list of hitable objects; a ray is tested against each in
/// turn and the nearest hit wins.
pub struct HitableList {
    pub list: Vec<Arc<Hitable>>,
}

/// Represents a node of a bounding volume hierarchy: two children and a
/// cached box covering everything beneath. An absent box marks the empty
/// hierarchy, which never hits.
pub struct BvhNode {
    pub left: Arc<Hitable>,
    pub right: Arc<Hitable>,
    pub bounding_box: Option<AxisAlignedBoundingBox>,
}

/// Every intersectable entity of the scene tree.
pub enum Hitable {
    Sphere(Sphere),
    MovingSphere(MovingSphere),
    XY(XYRect),
    XZ(XZRect),
    YZ(YZRect),
    Block(AxisAlignedBlock),
    Polygon(Polygon),
    PolygonMesh(PolygonMesh),
    Flip(FlipNormals),
    Translate(Translate),
    RotateY(RotateY),
    ConstantMedium(ConstantMedium),
    VariableMedium(VariableMedium),
    List(HitableList),
    Bvh(BvhNode),
}

/// The padded box of a sphere of the given center and radius.
pub open spec fn spec_sphere_box(center: Vec3, radius: int) -> AxisAlignedBoundingBox {
    AxisAlignedBoundingBox {
        min_bound: Vec3 {
            x: (center.x - radius - BOX_PAD) as i64,
            y: (center.y - radius - BOX_PAD) as i64,
            z: (center.z - radius - BOX_PAD) as i64,
        },
        max_bound: Vec3 {
            x: (center.x + radius + BOX_PAD) as i64,
            y: (center.y + radius + BOX_PAD) as i64,
            z: (center.z + radius + BOX_PAD) as i64,
        },
    }
}

/// The padded box of an axis-aligned body with the given tight corners.
pub open spec fn spec_pad_box(lo: Vec3, hi: Vec3) -> AxisAlignedBoundingBox {
    AxisAlignedBoundingBox {
        min_bound: Vec3 {
            x: (lo.x - BOX_PAD) as i64,
            y: (lo.y - BOX_PAD) as i64,
            z: (lo.z - BOX_PAD) as i64,
        },
        max_bound: Vec3 {
            x: (hi.x + BOX_PAD) as i64,
            y: (hi.y + BOX_PAD) as i64,
            z: (hi.z + BOX_PAD) as i64,
        },
    }
}

impl Hitable {
    /// Structural well-formedness of the tree: geometry and materials are
    /// admissible, and every hierarchy node's box covers the boxes of its
    /// deterministic children.
    pub open spec fn wf(self) -> bool
        decreases self,
    {
        match self {
            Hitable::Sphere(s) => s.wf(),
            Hitable::MovingSphere(m) => m.wf(),
            Hitable::XY(r) => r.wf(),
            Hitable::XZ(r) => r.wf(),
            Hitable::YZ(r) => r.wf(),
            Hitable::Block(b) => b.p_min.bounded(GEOM_LIMIT as int)
                && b.p_max.bounded(GEOM_LIMIT as int) && wf_seq(b.sides.list@),
            Hitable::Polygon(p) => p.wf(),
            Hitable::PolygonMesh(m) => wf_bvh_node(m.polygons),
            Hitable::Flip(f) => (*f.hitable).wf(),
            Hitable::Translate(t) => (*t.hitable).wf() && t.offset.bounded(
                GEOM_LIMIT as int,
            ) && (match spec_box(*t.hitable) {
                Some(bb) => bb.min_bound.bounded(COORD_LIMIT as int - GEOM_LIMIT)
                    && bb.max_bound.bounded(COORD_LIMIT as int - GEOM_LIMIT),
                None => true,
            }),
            Hitable::RotateY(r) => (*r.hitable).wf() && -SCALE <= r.sin_theta <= SCALE && -SCALE
                <= r.cos_theta <= SCALE && (match r.bounding_box {
                Some(b) => b.wf(),
                None => true,
            }),
            Hitable::ConstantMedium(m) => (*m.boundary).wf() && 16 <= m.density <= 0x1000_0000
                && m.phase_func.wf(),
            Hitable::VariableMedium(m) => (*m.boundary).wf() && 16 <= m.max_density
                <= 0x1000_0000 && m.phase_func.wf() && m.noise_func.wf(),
            Hitable::List(l) => wf_seq(l.list@),
            Hitable::Bvh(n) => wf_bvh_node(n),
        }
    }

    /// Whether the entity's hit test is a pure function of the ray and
    /// interval (no randomness, no rotation or polygon projection): the
    /// variants mirrored by `spec_hit`.
    pub open spec fn deterministic(self) -> bool
        decreases self,
    {
        match self {
            Hitable::Sphere(_) => true,
            Hitable::XY(_) => true,
            Hitable::XZ(_) => true,
            Hitable::YZ(_) => true,
            Hitable::Block(b) => det_seq(b.sides.list@),
            Hitable::Polygon(_) => true,
            Hitable::PolygonMesh(m) => (*m.polygons.left).deterministic()
                && (*m.polygons.right).deterministic(),
            Hitable::Flip(f) => (*f.hitable).deterministic(),
            Hitable::Translate(t) => (*t.hitable).deterministic(),
            Hitable::List(l) => det_seq(l.list@),
            Hitable::Bvh(n) => (*n.left).deterministic() && (*n.right).deterministic(),
            _ => false,
        }
    }
}

/// Well-formedness of every element of a sequence of entities.
pub open spec fn wf_seq(s: Seq<Arc<Hitable>>) -> bool
    decreases s,
{
    s.len() == 0 || ((*s[0]).wf() && wf_seq(s.drop_first()))
}

/// Well-formedness of a hierarchy node: both children, a well-formed box,
/// and the box covers the deterministic children's boxes.
pub open spec fn wf_bvh_node(n: BvhNode) -> bool
    decreases n,
{
    &&& (*n.left).wf()
    &&& (*n.right).wf()
    &&& match n.bounding_box {
        Some(bb) => {
            &&& bb.wf()
            &&& ((*n.left).deterministic() ==> match spec_box(*n.left) {
                Some(lb) => bb.subsumes(lb),
                None => true,
            })
            &&& ((*n.right).deterministic() ==> match spec_box(*n.right) {
                Some(rb) => bb.subsumes(rb),
                None => true,
            })
        },
        None => true,
    }
}

/// A well-formed hierarchy node's cached box is well-formed.
pub proof fn lemma_bvh_box_wf(n: BvhNode)
    requires
        wf_bvh_node(n),
    ensures
        match n.bounding_box {
            Some(bb) => bb.wf(),
            None => true,
        },
{
}

/// Unfolds a well-formed hierarchy node into facts about its parts.
pub proof fn lemma_wf_bvh_node_parts(n: &BvhNode)
    requires
        wf_bvh_node(*n),
    ensures
        (*n.left).wf(),
        (*n.right).wf(),
        match n.bounding_box {
            Some(bb) => bb.wf() && ((*n.left).deterministic() ==> match spec_box(*n.left) {
                Some(lb) => bb.subsumes(lb),
                None => true,
            }) && ((*n.right).deterministic() ==> match spec_box(*n.right) {
                Some(rb) => bb.subsumes(rb),
                None => true,
            }),
            None => true,
        },
{
}

/// Determinism of every element of a sequence of entities.
pub open spec fn det_seq(s: Seq<Arc<Hitable>>) -> bool
    decreases s,
{
    s.len() == 0 || ((*s[0]).deterministic() && det_seq(s.drop_first()))
}

/// The (time-free) padded bounding box of an entity, absent exactly where
/// the entity can be empty of geometry.
pub open spec fn spec_box(h: Hitable) -> Option<AxisAlignedBoundingBox>
    decreases h,
{
    match h {
        Hitable::Sphere(s) => Some(spec_sphere_box(s.center, s.radius as int)),
        Hitable::MovingSphere(m) => Some(
            crate::aabb::spec_surrounding_box(
                spec_sphere_box(m.start_center, m.radius as int),
                spec_sphere_box(m.end_center, m.radius as int),
            ),
        ),
        Hitable::XY(r) => Some(
            spec_pad_box(
                Vec3 { x: r.x_0, y: r.y_0, z: r.k },
                Vec3 { x: r.x_1, y: r.y_1, z: r.k },
            ),
        ),
        Hitable::XZ(r) => Some(
            spec_pad_box(
                Vec3 { x: r.x_0, y: r.k, z: r.z_0 },
                Vec3 { x: r.x_1, y: r.k, z: r.z_1 },
            ),
        ),
        Hitable::YZ(r) => Some(
            spec_pad_box(
                Vec3 { x: r.k, y: r.y_0, z: r.z_0 },
                Vec3 { x: r.k, y: r.y_1, z: r.z_1 },
            ),
        ),
        Hitable::Block(b) => Some(spec_pad_box(b.p_min, b.p_max)),
        Hitable::Polygon(p) => p.bounding_box,
        Hitable::PolygonMesh(m) => m.polygons.bounding_box,
        Hitable::Flip(f) => spec_box(*f.hitable),
        Hitable::Translate(t) => match spec_box(*t.hitable) {
            Some(bb) => Some(
                AxisAlignedBoundingBox {
                    min_bound: Vec3 {
                        x: (bb.min_bound.x + t.offset.x) as i64,
                        y: (bb.min_bound.y + t.offset.y) as i64,
                        z: (bb.min_bound.z + t.offset.z) as i64,
                    },
                    max_bound: Vec3 {
                        x: (bb.max_bound.x + t.offset.x) as i64,
                        y: (bb.max_bound.y + t.offset.y) as i64,
                        z: (bb.max_bound.z + t.offset.z) as i64,
                    },
                },
            ),
            None => None,
        },
        Hitable::RotateY(r) => r.bounding_box,
        Hitable::ConstantMedium(m) => spec_box(*m.boundary),
        Hitable::VariableMedium(m) => spec_box(*m.boundary),
        Hitable::List(l) => spec_box_seq(l.list@),
        Hitable::Bvh(n) => n.bounding_box,
    }
}

/// The folded box of a sequence: absent when the sequence is empty or any
/// element's box is absent.
pub open spec fn spec_box_seq(s: Seq<Arc<Hitable>>) -> Option<AxisAlignedBoundingBox>
    decreases s,
{
    if s.len() == 0 {
        None
    } else if s.len() == 1 {
        spec_box(*s[0])
    } else {
        match (spec_box(*s[0]), spec_box_seq(s.drop_first())) {
            (Some(a), Some(b)) => Some(crate::aabb::spec_surrounding_box(a, b)),
            _ => None,
        }
    }
}

/// The record produced by a rectangle hit in the X-Y orientation.
pub open spec fn spec_xy_record(
    r: XYRect,
    outcome: Option<(int, int, int, int, int, int)>,
) -> Option<HitRecord> {
    match outcome {
        None => None,
        Some((t, pa, pb, pc, u, v)) => Some(
            HitRecord {
                t: t as i64,
                hit_point: Vec3 { x: pa as i64, y: pb as i64, z: pc as i64 },
                normal: Vec3 { x: 0, y: 0, z: SCALE },
                material: Some(r.material),
                u: u as i64,
                v: v as i64,
            },
        ),
    }
}

/// The record produced by a rectangle hit in the X-Z orientation.
pub open spec fn spec_xz_record(
    r: XZRect,
    outcome: Option<(int, int, int, int, int, int)>,
) -> Option<HitRecord> {
    match outcome {
        None => None,
        Some((t, pa, pb, pc, u, v)) => Some(
            HitRecord {
                t: t as i64,
                hit_point: Vec3 { x: pa as i64, y: pc as i64, z: pb as i64 },
                normal: Vec3 { x: 0, y: SCALE, z: 0 },
                material: Some(r.material),
                u: u as i64,
                v: v as i64,
            },
        ),
    }
}

/// The record produced by a rectangle hit in the Y-Z orientation.
pub open spec fn spec_yz_record(
    r: YZRect,
    outcome: Option<(int, int, int, int, int, int)>,
) -> Option<HitRecord> {
    match outcome {
        None => None,
        Some((t, pa, pb, pc, u, v)) => Some(
            HitRecord {
                t: t as i64,
                hit_point: Vec3 { x: pc as i64, y: pa as i64, z: pb as i64 },
                normal: Vec3 { x: SCALE, y: 0, z: 0 },
                material: Some(r.material),
                u: u as i64,
                v: v as i64,
            },
        ),
    }
}

/// The mathematical meaning of the deterministic hit test, per variant.
/// Non-deterministic variants are mapped to a miss; their executable tests
/// are related to this function only under `deterministic`.
pub open spec fn spec_hit(h: Hitable, r: Ray, tmin: int, tmax: int) -> Option<HitRecord>
    decreases h,
{
    match h {
        Hitable::Sphere(s) => spec_sphere_hit(s, r, tmin, tmax),
        Hitable::XY(rc) => spec_xy_record(
            rc,
            spec_plane_hit(rc.x_0 as int, rc.x_1 as int, rc.y_0 as int, rc.y_1 as int,
                rc.k as int, r.origin.x as int, r.origin.y as int, r.origin.z as int,
                r.direction.x as int, r.direction.y as int, r.direction.z as int, tmin, tmax),
        ),
        Hitable::XZ(rc) => spec_xz_record(
            rc,
            spec_plane_hit(rc.x_0 as int, rc.x_1 as int, rc.z_0 as int, rc.z_1 as int,
                rc.k as int, r.origin.x as int, r.origin.z as int, r.origin.y as int,
                r.direction.x as int, r.direction.z as int, r.direction.y as int, tmin, tmax),
        ),
        Hitable::YZ(rc) => spec_yz_record(
            rc,
            spec_plane_hit(rc.y_0 as int, rc.y_1 as int, rc.z_0 as int, rc.z_1 as int,
                rc.k as int, r.origin.y as int, r.origin.z as int, r.origin.x as int,
                r.direction.y as int, r.direction.z as int, r.direction.x as int, tmin, tmax),
        ),
        Hitable::Flip(f) => match spec_hit(*f.hitable, r, tmin, tmax) {
            None => None,
            Some(rec) => Some(
                HitRecord {
                    normal: Vec3 {
                        x: (-rec.normal.x) as i64,
                        y: (-rec.normal.y) as i64,
                        z: (-rec.normal.z) as i64,
                    },
                    ..rec
                },
            ),
        },
        Hitable::Translate(tr) => {
            let ox = r.origin.x - tr.offset.x;
            let oy = r.origin.y - tr.offset.y;
            let oz = r.origin.z - tr.offset.z;
            if -COORD_LIMIT <= ox <= COORD_LIMIT && -COORD_LIMIT <= oy <= COORD_LIMIT
                && -COORD_LIMIT <= oz <= COORD_LIMIT {
                let moved = Ray {
                    origin: Vec3 { x: ox as i64, y: oy as i64, z: oz as i64 },
                    direction: r.direction,
                    time: r.time,
                };
                match spec_hit(*tr.hitable, moved, tmin, tmax) {
                    None => None,
                    Some(rec) => {
                        let hx = rec.hit_point.x + tr.offset.x;
                        let hy = rec.hit_point.y + tr.offset.y;
                        let hz = rec.hit_point.z + tr.offset.z;
                        if -COORD_LIMIT <= hx <= COORD_LIMIT && -COORD_LIMIT <= hy <= COORD_LIMIT
                            && -COORD_LIMIT <= hz <= COORD_LIMIT {
                            Some(
                                HitRecord {
                                    hit_point: Vec3 { x: hx as i64, y: hy as i64, z: hz as i64 },
                                    ..rec
                                },
                            )
                        } else {
                            None
                        }
                    },
                }
            } else {
                None
            }
        },
        Hitable::Block(b) => spec_list_hit(b.sides.list@, r, tmin, tmax),
        Hitable::Polygon(p) => crate::polygon::spec_polygon_hit(p, r, tmin, tmax),
        Hitable::PolygonMesh(m) => spec_bvh_hit(m.polygons, r, tmin, tmax),
        Hitable::List(l) => spec_list_hit(l.list@, r, tmin, tmax),
        Hitable::Bvh(n) => spec_bvh_hit(n, r, tmin, tmax),
        _ => None,
    }
}

/// The nearest-hit fold over a sequence: each element is queried with the
/// upper bound narrowed to the best parameter found so far, and a later
/// (necessarily nearer) hit supersedes the earlier one.
pub open spec fn spec_list_hit(s: Seq<Arc<Hitable>>, r: Ray, tmin: int, tmax: int) -> Option<
    HitRecord,
>
    decreases s,
{
    if s.len() == 0 {
        None
    } else {
        match spec_hit(*s[0], r, tmin, tmax) {
            None => spec_list_hit(s.drop_first(), r, tmin, tmax),
            Some(rec) => match spec_list_hit(s.drop_first(), r, tmin, rec.t as int) {
                Some(rec2) => Some(rec2),
                None => Some(rec),
            },
        }
    }
}

/// The nearer of two optional hits (ties go right).
pub open spec fn spec_combine(l: Option<HitRecord>, r: Option<HitRecord>) -> Option<HitRecord> {
    match (l, r) {
        (Some(lrec), Some(rrec)) => if lrec.t < rrec.t {
            Some(lrec)
        } else {
            Some(rrec)
        },
        (Some(lrec), None) => Some(lrec),
        (None, x) => x,
    }
}

/// The hierarchy traversal: prune by the cached box where one is cached,
/// query both children over the full interval, return the nearer hit
/// (ties go right).
pub open spec fn spec_bvh_hit(n: BvhNode, r: Ray, tmin: int, tmax: int) -> Option<HitRecord>
    decreases n,
{
    match n.bounding_box {
        None => spec_combine(
            spec_hit(*n.left, r, tmin, tmax),
            spec_hit(*n.right, r, tmin, tmax),
        ),
        Some(bb) => if !spec_box_hit(bb, r, tmin, tmax) {
            None
        } else {
            spec_combine(spec_hit(*n.left, r, tmin, tmax), spec_hit(*n.right, r, tmin, tmax))
        },
    }
}

impl HitableList {
    /// Returns the number of elements in the underlying list.
    pub fn len(&self) -> (n: usize)
        ensures
            n == self.list@.len(),
    {
        self.list.len()
    }

    /// Tests the ray against every element, keeping the nearest hit:
    /// exactly the fold `spec_list_hit` for deterministic elements. On a
    /// miss the record is left unchanged.
    pub fn hit(
        &self,
        ray: &Ray,
        t_min: i64,
        t_max: i64,
        rec: &mut HitRecord,
        rng: &mut RandomSource,
    ) -> (r: bool)
        requires
            wf_seq(self.list@),
            ray.wf(),
            -COORD_LIMIT <= t_min <= COORD_LIMIT,
            -COORD_LIMIT <= t_max <= COORD_LIMIT,
        ensures
            !r ==> *final(rec) == *old(rec),
            r ==> final(rec).wf() && t_min < final(rec).t < t_max && final(rec).material is Some,
            det_seq(self.list@) ==> match spec_list_hit(self.list@, *ray, t_min as int,
                t_max as int) {
                Some(sr) => r && *final(rec) == sr,
                None => !r,
            },
        decreases self,
    {
        let ghost s = self.list@;
        let mut best: Option<HitRecord> = None;
        let mut current_closest = t_max;
        let mut i: usize = 0;
        proof {
            assert(s.skip(0) =~= s);
        }
        while i < self.list.len()
            invariant
                s == self.list@,
                wf_seq(s),
                ray.wf(),
                -COORD_LIMIT <= t_min <= COORD_LIMIT,
                -COORD_LIMIT <= t_max <= COORD_LIMIT,
                i <= s.len(),
                match best {
                    None => current_closest == t_max,
                    Some(b) => b.wf() && t_min < b.t < t_max && b.material is Some
                        && current_closest == b.t,
                },
                det_seq(s) ==> spec_list_hit(s, *ray, t_min as int, t_max as int) == (match best {
                    None => spec_list_hit(s.skip(i as int), *ray, t_min as int, t_max as int),
                    Some(b) => match spec_list_hit(s.skip(i as int), *ray, t_min as int,
                        b.t as int) {
                        Some(rec2) => Some(rec2),
                        None => Some(b),
                    },
                }),
            decreases s.len() - i,
        {
            proof {
                lemma_wf_seq_index(s, i as int);
                if det_seq(s) {
                    lemma_det_seq_index(s, i as int);
                }
            }
            let mut sub = HitRecord::new();
            let element_hit = (&*self.list[i]).hit(ray, t_min, current_closest, &mut sub, rng);
            proof {
                assert(s.skip(i as int).drop_first() =~= s.skip(i as int + 1));
                if det_seq(s) {
                    assert(s.skip(i as int)[0] == s[i as int]);
                }
            }
            if element_hit {
                current_closest = sub.t;
                best = Some(sub);
            }
            i = i + 1;
        }
        proof {
            assert(s.skip(s.len() as int) =~= Seq::<Arc<Hitable>>::empty());
        }
        match best {
            None => false,
            Some(b) => {
                rec.from(&b);
                proof {
                    assert(*rec =~= b);
                }
                true
            },
        }
    }

    /// The folded bounding box over the elements at the given time window;
    /// absent when the list is empty or any element is boxless. For
    /// deterministic elements, exactly `spec_box_seq`.
    pub fn bounding_box(&self, start_time: i64, end_time: i64) -> (b: Option<
        AxisAlignedBoundingBox,
    >)
        requires
            wf_seq(self.list@),
            -COORD_LIMIT <= start_time <= COORD_LIMIT,
            -COORD_LIMIT <= end_time <= COORD_LIMIT,
        ensures
            b matches Some(bb) ==> bb.wf(),
            det_seq(self.list@) ==> b == spec_box_seq(self.list@),
        decreases self,
    {
        let ghost s = self.list@;
        if self.list.len() == 0 {
            return None;
        }
        proof {
            lemma_wf_seq_index(s, 0);
            if det_seq(s) {
                lemma_det_seq_index(s, 0);
            }
        }
        let first_box = (&*self.list[0]).bounding_box(start_time, end_time);
        proof {
            if det_seq(s) {
                assert(s.take(1).len() == 1 && s.take(1)[0] == s[0]);
                assert(spec_box_seq(s.take(1)) == spec_box(*s[0]));
            }
        }
        let mut bounding = match first_box {
            None => {
                proof {
                    if det_seq(s) {
                        lemma_box_seq_none(s, 0);
                    }
                }
                return None;
            },
            Some(b0) => b0,
        };
        let mut i: usize = 1;
        while i < self.list.len()
            invariant
                s == self.list@,
                wf_seq(s),
                -COORD_LIMIT <= start_time <= COORD_LIMIT,
                -COORD_LIMIT <= end_time <= COORD_LIMIT,
                1 <= i <= s.len(),
                bounding.wf(),
                det_seq(s) ==> Some(bounding) == spec_box_seq(s.take(i as int)),
            decreases s.len() - i,
        {
            proof {
                lemma_wf_seq_index(s, i as int);
                if det_seq(s) {
                    lemma_det_seq_index(s, i as int);
                }
            }
            match (&*self.list[i]).bounding_box(start_time, end_time) {
                None => {
                    proof {
                        if det_seq(s) {
                            lemma_box_seq_none(s, i as int);
                        }
                    }
                    return None;
                },
                Some(tb) => {
                    proof {
                        if det_seq(s) {
                            lemma_box_seq_extend(s, i as int, bounding, tb);
                        }
                    }
                    bounding = calc_surrounding_box(&bounding, &tb);
                },
            }
            i = i + 1;
        }
        proof {
            assert(s.take(s.len() as int) =~= s);
        }
        Some(bounding)
    }
}

/// Every element of a well-formed sequence is well-formed.
pub proof fn lemma_wf_seq_index(s: Seq<Arc<Hitable>>, i: int)
    requires
        wf_seq(s),
        0 <= i < s.len(),
    ensures
        (*s[i]).wf(),
    decreases s.len(),
{
    if i > 0 {
        lemma_wf_seq_index(s.drop_first(), i - 1);
    }
}

/// Every element of an all-deterministic sequence is deterministic.
pub proof fn lemma_det_seq_index(s: Seq<Arc<Hitable>>, i: int)
    requires
        det_seq(s),
        0 <= i < s.len(),
    ensures
        (*s[i]).deterministic(),
    decreases s.len(),
{
    if i > 0 {
        lemma_det_seq_index(s.drop_first(), i - 1);
    }
}

/// A boxless element anywhere makes the whole fold boxless.
proof fn lemma_box_seq_none(s: Seq<Arc<Hitable>>, i: int)
    requires
        0 <= i < s.len(),
        spec_box(*s[i]) is None,
    ensures
        spec_box_seq(s) is None,
    decreases s.len(),
{
    if s.len() > 1 {
        if i == 0 {
        } else {
            lemma_box_seq_none(s.drop_first(), i - 1);
        }
    }
}

/// Extending a box fold by one more boxed element unions the boxes.
proof fn lemma_box_seq_extend(
    s: Seq<Arc<Hitable>>,
    i: int,
    acc: AxisAlignedBoundingBox,
    tb: AxisAlignedBoundingBox,
)
    requires
        1 <= i < s.len(),
        spec_box_seq(s.take(i)) == Some(acc),
        spec_box(*s[i]) == Some(tb),
    ensures
        spec_box_seq(s.take(i + 1)) == Some(crate::aabb::spec_surrounding_box(acc, tb)),
{
    lemma_box_seq_snoc(s.take(i + 1));
    assert(s.take(i + 1).drop_last() =~= s.take(i));
    assert(s.take(i + 1).last() == s[i]);
}

/// The head-recursive box fold equals the fold over the last element and
/// the front.
proof fn lemma_box_seq_snoc(s: Seq<Arc<Hitable>>)
    requires
        s.len() >= 2,
    ensures
        spec_box_seq(s) == (match (spec_box_seq(s.drop_last()), spec_box(*s.last())) {
            (Some(a), Some(b)) => Some(crate::aabb::spec_surrounding_box(a, b)),
            _ => None,
        }),
    decreases s.len(),
{
    if s.len() == 2 {
        assert(s.drop_first().len() == 1);
        assert(s.drop_first()[0] == s[1]);
        assert(s.drop_last().len() == 1);
        assert(s.drop_last()[0] == s[0]);
        assert(spec_box_seq(s.drop_last()) == spec_box(*s[0]));
        assert(spec_box_seq(s.drop_first()) == spec_box(*s[1]));
    } else {
        lemma_box_seq_snoc(s.drop_first());
        assert(s.drop_first().drop_last() =~= s.drop_last().drop_first());
        assert(s.drop_first().last() == s.last());
        assert(s.drop_last().len() >= 2);
    }
}


/// Appending a well-formed element keeps a sequence well-formed.
pub proof fn lemma_wf_seq_push(s: Seq<Arc<Hitable>>, x: Arc<Hitable>)
    requires
        wf_seq(s),
        (*x).wf(),
    ensures
        wf_seq(s.push(x)),
    decreases s.len(),
{
    let p = s.push(x);
    assert(p.len() == s.len() + 1);
    if s.len() == 0 {
        assert(p[0] == x);
        assert(p.drop_first() =~= Seq::<Arc<Hitable>>::empty());
        assert(wf_seq(p.drop_first()));
        assert(wf_seq(p) == ((*p[0]).wf() && wf_seq(p.drop_first())));
    } else {
        assert(p[0] == s[0]);
        assert((*s[0]).wf());
        assert(p.drop_first() =~= s.drop_first().push(x));
        lemma_wf_seq_push(s.drop_first(), x);
        assert(wf_seq(p.drop_first()));
        assert(wf_seq(p) == ((*p[0]).wf() && wf_seq(p.drop_first())));
    }
}

/// Pushes a well-formed entity onto a well-formed vector of entities.
pub fn push_wf_element(list: &mut Vec<Arc<Hitable>>, x: Arc<Hitable>)
    requires
        wf_seq(old(list)@),
        (*x).wf(),
    ensures
        final(list)@ == old(list)@.push(x),
        wf_seq(final(list)@),
{
    proof {
        lemma_wf_seq_push(list@, x);
    }
    list.push(x);
}

impl Hitable {
    /// Computes the entity's bounding box over the given time window; for
    /// deterministic entities, exactly the (time-free) `spec_box`.
    #[verifier::rlimit(100)]
    #[verifier::spinoff_prover]
    pub fn bounding_box(&self, start_time: i64, end_time: i64) -> (b: Option<
        AxisAlignedBoundingBox,
    >)
        requires
            self.wf(),
            -COORD_LIMIT <= start_time <= COORD_LIMIT,
            -COORD_LIMIT <= end_time <= COORD_LIMIT,
        ensures
            b matches Some(bb) ==> bb.wf(),
            self.deterministic() ==> b == spec_box(*self),
            (*self) matches Hitable::MovingSphere(m) ==> b == Some(
                crate::aabb::spec_surrounding_box(
                    spec_sphere_box(
                        crate::sphere::spec_moving_center(m, start_time as int),
                        m.radius as int,
                    ),
                    spec_sphere_box(
                        crate::sphere::spec_moving_center(m, end_time as int),
                        m.radius as int,
                    ),
                ),
            ),
        decreases *self,
    {
        proof {
            assert(GEOM_LIMIT == 67000000 && COORD_LIMIT == 134217728 && BOX_PAD == 2052);
        }
        match self {
            Hitable::Sphere(s) => Some(
                AxisAlignedBoundingBox {
                    min_bound: Vec3 {
                        x: s.center.x - s.radius - BOX_PAD,
                        y: s.center.y - s.radius - BOX_PAD,
                        z: s.center.z - s.radius - BOX_PAD,
                    },
                    max_bound: Vec3 {
                        x: s.center.x + s.radius + BOX_PAD,
                        y: s.center.y + s.radius + BOX_PAD,
                        z: s.center.z + s.radius + BOX_PAD,
                    },
                },
            ),
            Hitable::MovingSphere(m) => {
                let c0 = m.get_center(start_time);
                let c1 = m.get_center(end_time);
                let b0 = AxisAlignedBoundingBox {
                    min_bound: Vec3 {
                        x: c0.x - m.radius - BOX_PAD,
                        y: c0.y - m.radius - BOX_PAD,
                        z: c0.z - m.radius - BOX_PAD,
                    },
                    max_bound: Vec3 {
                        x: c0.x + m.radius + BOX_PAD,
                        y: c0.y + m.radius + BOX_PAD,
                        z: c0.z + m.radius + BOX_PAD,
                    },
                };
                let b1 = AxisAlignedBoundingBox {
                    min_bound: Vec3 {
                        x: c1.x - m.radius - BOX_PAD,
                        y: c1.y - m.radius - BOX_PAD,
                        z: c1.z - m.radius - BOX_PAD,
                    },
                    max_bound: Vec3 {
                        x: c1.x + m.radius + BOX_PAD,
                        y: c1.y + m.radius + BOX_PAD,
                        z: c1.z + m.radius + BOX_PAD,
                    },
                };
                Some(calc_surrounding_box(&b0, &b1))
            },
            Hitable::XY(r) => Some(
                AxisAlignedBoundingBox {
                    min_bound: Vec3 { x: r.x_0 - BOX_PAD, y: r.y_0 - BOX_PAD, z: r.k - BOX_PAD },
                    max_bound: Vec3 { x: r.x_1 + BOX_PAD, y: r.y_1 + BOX_PAD, z: r.k + BOX_PAD },
                },
            ),
            Hitable::XZ(r) => Some(
                AxisAlignedBoundingBox {
                    min_bound: Vec3 { x: r.x_0 - BOX_PAD, y: r.k - BOX_PAD, z: r.z_0 - BOX_PAD },
                    max_bound: Vec3 { x: r.x_1 + BOX_PAD, y: r.k + BOX_PAD, z: r.z_1 + BOX_PAD },
                },
            ),
            Hitable::YZ(r) => Some(
                AxisAlignedBoundingBox {
                    min_bound: Vec3 { x: r.k - BOX_PAD, y: r.y_0 - BOX_PAD, z: r.z_0 - BOX_PAD },
                    max_bound: Vec3 { x: r.k + BOX_PAD, y: r.y_1 + BOX_PAD, z: r.z_1 + BOX_PAD },
                },
            ),
            Hitable::Block(b) => Some(
                AxisAlignedBoundingBox {
                    min_bound: Vec3 {
                        x: b.p_min.x - BOX_PAD,
                        y: b.p_min.y - BOX_PAD,
                        z: b.p_min.z - BOX_PAD,
                    },
                    max_bound: Vec3 {
                        x: b.p_max.x + BOX_PAD,
                        y: b.p_max.y + BOX_PAD,
                        z: b.p_max.z + BOX_PAD,
                    },
                },
            ),
            Hitable::Polygon(p) => p.bounding_box,
            Hitable::PolygonMesh(m) => {
                proof {
                    lemma_bvh_box_wf(m.polygons);
                }
                m.polygons.bounding_box
            },
            Hitable::Flip(f) => (&*f.hitable).bounding_box(start_time, end_time),
            Hitable::Translate(t) => match (&*t.hitable).bounding_box(start_time, end_time) {
                None => None,
                Some(bb) => Some(
                    AxisAlignedBoundingBox {
                        min_bound: Vec3 {
                            x: clip_coord(bb.min_bound.x + t.offset.x),
                            y: clip_coord(bb.min_bound.y + t.offset.y),
                            z: clip_coord(bb.min_bound.z + t.offset.z),
                        },
                        max_bound: Vec3 {
                            x: clip_coord(bb.max_bound.x + t.offset.x),
                            y: clip_coord(bb.max_bound.y + t.offset.y),
                            z: clip_coord(bb.max_bound.z + t.offset.z),
                        },
                    },
                ),
            },
            Hitable::RotateY(r) => r.bounding_box,
            Hitable::ConstantMedium(m) => (&*m.boundary).bounding_box(start_time, end_time),
            Hitable::VariableMedium(m) => (&*m.boundary).bounding_box(start_time, end_time),
            Hitable::List(l) => l.bounding_box(start_time, end_time),
            Hitable::Bvh(n) => {
                proof {
                    lemma_bvh_box_wf(*n);
                }
                n.bounding_box
            },
        }
    }

    /// Determines whether the given ray hits the entity strictly inside
    /// `(t_min, t_max)`, writing the nearest intersection into `rec`. For
    /// deterministic entities the outcome and the record are exactly
    /// `spec_hit`; for every entity, a hit yields a well-formed record
    /// with its parameter strictly inside the interval, and a miss leaves
    /// the record untouched.
    #[verifier::rlimit(80)]
    pub fn hit(
        &self,
        ray: &Ray,
        t_min: i64,
        t_max: i64,
        rec: &mut HitRecord,
        rng: &mut RandomSource,
    ) -> (r: bool)
        requires
            self.wf(),
            ray.wf(),
            -COORD_LIMIT <= t_min <= COORD_LIMIT,
            -COORD_LIMIT <= t_max <= COORD_LIMIT,
        ensures
            !r ==> *final(rec) == *old(rec),
            r ==> final(rec).wf() && t_min < final(rec).t < t_max && final(rec).material is Some,
            self.deterministic() ==> match spec_hit(*self, *ray, t_min as int, t_max as int) {
                Some(sr) => r && *final(rec) == sr,
                None => !r,
            },
            (*self) matches Hitable::MovingSphere(m) ==> match spec_sphere_hit(
                crate::sphere::spec_momentary(m, ray.time as int),
                *ray,
                t_min as int,
                t_max as int,
            ) {
                Some(sr) => r && *final(rec) == sr,
                None => !r,
            },
            (*self) matches Hitable::Polygon(p) ==> match crate::polygon::spec_polygon_hit(
                p,
                *ray,
                t_min as int,
                t_max as int,
            ) {
                Some(sr) => r && *final(rec) == sr,
                None => !r,
            },
            (*self) matches Hitable::RotateY(rt) ==> ((*rt.hitable).deterministic()
                ==> match spec_rotate_y_hit(rt, *ray, t_min as int, t_max as int) {
                Some(sr) => r && *final(rec) == sr,
                None => !r,
            }),
            (*self) matches Hitable::ConstantMedium(m) ==> (r ==> medium_record_fields(
                *final(rec),
                m.phase_func,
                *ray,
            )) && ((*m.boundary).deterministic() ==> match spec_medium_span(*m.boundary, *ray,
                t_min as int, t_max as int) {
                None => !r,
                Some((lo, hi)) => r ==> lo <= final(rec).t < hi,
            }),
            (*self) matches Hitable::VariableMedium(m) ==> (r ==> medium_record_fields(
                *final(rec),
                m.phase_func,
                *ray,
            )) && ((*m.boundary).deterministic() ==> match spec_medium_span(*m.boundary, *ray,
                t_min as int, t_max as int) {
                None => !r,
                Some((lo, hi)) => r ==> lo <= final(rec).t < hi,
            }),
        decreases *self,
    {
        match self {
            Hitable::Sphere(s) => match s.hit(ray, t_min, t_max) {
                Some(h) => {
                    rec.from(&h);
                    true
                },
                None => false,
            },
            Hitable::MovingSphere(m) => {
                let c = m.get_center(ray.time);
                let moment = Sphere {
                    center: Vec3 {
                        x: imax(-crate::num::GEOM_LIMIT, imin(c.x, crate::num::GEOM_LIMIT)),
                        y: imax(-crate::num::GEOM_LIMIT, imin(c.y, crate::num::GEOM_LIMIT)),
                        z: imax(-crate::num::GEOM_LIMIT, imin(c.z, crate::num::GEOM_LIMIT)),
                    },
                    radius: m.radius,
                    material: crate::material::clone_material(&m.material),
                };
                match moment.hit(ray, t_min, t_max) {
                    Some(h) => {
                        rec.from(&h);
                        true
                    },
                    None => false,
                }
            },
            Hitable::XY(rc) => {
                let outcome = crate::rectangles::plane_hit(rc.x_0, rc.x_1, rc.y_0, rc.y_1, rc.k,
                    ray.origin.x, ray.origin.y, ray.origin.z, ray.direction.x, ray.direction.y,
                    ray.direction.z, t_min, t_max);
                match outcome {
                    None => false,
                    Some((t, pa, pb, pc, u, v)) => {
                        let h = HitRecord {
                            t,
                            hit_point: Vec3 { x: pa, y: pb, z: pc },
                            normal: Vec3 { x: 0, y: 0, z: SCALE },
                            material: Some(crate::material::clone_material(&rc.material)),
                            u,
                            v,
                        };
                        rec.from(&h);
                        true
                    },
                }
            },
            Hitable::XZ(rc) => {
                let outcome = crate::rectangles::plane_hit(rc.x_0, rc.x_1, rc.z_0, rc.z_1, rc.k,
                    ray.origin.x, ray.origin.z, ray.origin.y, ray.direction.x, ray.direction.z,
                    ray.direction.y, t_min, t_max);
                match outcome {
                    None => false,
                    Some((t, pa, pb, pc, u, v)) => {
                        let h = HitRecord {
                            t,
                            hit_point: Vec3 { x: pa, y: pc, z: pb },
                            normal: Vec3 { x: 0, y: SCALE, z: 0 },
                            material: Some(crate::material::clone_material(&rc.material)),
                            u,
                            v,
                        };
                        rec.from(&h);
                        true
                    },
                }
            },
            Hitable::YZ(rc) => {
                let outcome = crate::rectangles::plane_hit(rc.y_0, rc.y_1, rc.z_0, rc.z_1, rc.k,
                    ray.origin.y, ray.origin.z, ray.origin.x, ray.direction.y, ray.direction.z,
                    ray.direction.x, t_min, t_max);
                match outcome {
                    None => false,
                    Some((t, pa, pb, pc, u, v)) => {
                        let h = HitRecord {
                            t,
                            hit_point: Vec3 { x: pc, y: pa, z: pb },
                            normal: Vec3 { x: SCALE, y: 0, z: 0 },
                            material: Some(crate::material::clone_material(&rc.material)),
                            u,
                            v,
                        };
                        rec.from(&h);
                        true
                    },
                }
            },
            Hitable::Block(b) => {
                proof {
                    if self.deterministic() {
                        assert(det_seq(b.sides.list@));
                        assert(spec_hit(*self, *ray, t_min as int, t_max as int) == spec_list_hit(
                            b.sides.list@,
                            *ray,
                            t_min as int,
                            t_max as int,
                        ));
                    }
                }
                b.sides.hit(ray, t_min, t_max, rec, rng)
            },
            Hitable::Polygon(p) => match p.hit(ray, t_min, t_max) {
                Some(h) => {
                    rec.from(&h);
                    true
                },
                None => false,
            },
            Hitable::PolygonMesh(m) => m.polygons.hit(ray, t_min, t_max, rec, rng),
            Hitable::Flip(f) => {
                let mut sub = HitRecord::new();
                if (&*f.hitable).hit(ray, t_min, t_max, &mut sub, rng) {
                    let h = HitRecord {
                        normal: Vec3 { x: -sub.normal.x, y: -sub.normal.y, z: -sub.normal.z },
                        ..sub
                    };
                    rec.from(&h);
                    true
                } else {
                    false
                }
            },
            Hitable::Translate(t) => {
                let ox = ray.origin.x - t.offset.x;
                let oy = ray.origin.y - t.offset.y;
                let oz = ray.origin.z - t.offset.z;
                if ox > COORD_LIMIT || ox < -COORD_LIMIT || oy > COORD_LIMIT || oy < -COORD_LIMIT
                    || oz > COORD_LIMIT || oz < -COORD_LIMIT {
                    return false;
                }
                let moved = Ray {
                    origin: Vec3 { x: ox, y: oy, z: oz },
                    direction: ray.direction,
                    time: ray.time,
                };
                let mut sub = HitRecord::new();
                if (&*t.hitable).hit(&moved, t_min, t_max, &mut sub, rng) {
                    let hx = sub.hit_point.x + t.offset.x;
                    let hy = sub.hit_point.y + t.offset.y;
                    let hz = sub.hit_point.z + t.offset.z;
                    if hx > COORD_LIMIT || hx < -COORD_LIMIT || hy > COORD_LIMIT || hy
                        < -COORD_LIMIT || hz > COORD_LIMIT || hz < -COORD_LIMIT {
                        return false;
                    }
                    let h = HitRecord { hit_point: Vec3 { x: hx, y: hy, z: hz }, ..sub };
                    rec.from(&h);
                    true
                } else {
                    false
                }
            },
            Hitable::RotateY(rt) => rotate_y_hit(rt, ray, t_min, t_max, rec, rng),
            Hitable::ConstantMedium(m) => constant_medium_hit(m, ray, t_min, t_max, rec, rng),
            Hitable::VariableMedium(m) => variable_medium_hit(m, ray, t_min, t_max, rec, rng),
            Hitable::List(l) => l.hit(ray, t_min, t_max, rec, rng),
            Hitable::Bvh(n) => n.hit(ray, t_min, t_max, rec, rng),
        }
    }
}

impl BvhNode {
    /// The hierarchy query: prune by the cached box, ask both children
    /// over the full interval, keep the nearer hit — exactly
    /// `spec_bvh_hit` for deterministic children.
    pub fn hit(
        &self,
        ray: &Ray,
        t_min: i64,
        t_max: i64,
        rec: &mut HitRecord,
        rng: &mut RandomSource,
    ) -> (r: bool)
        requires
            wf_bvh_node(*self),
            ray.wf(),
            -COORD_LIMIT <= t_min <= COORD_LIMIT,
            -COORD_LIMIT <= t_max <= COORD_LIMIT,
        ensures
            !r ==> *final(rec) == *old(rec),
            r ==> final(rec).wf() && t_min < final(rec).t < t_max && final(rec).material is Some,
            ((*self.left).deterministic() && (*self.right).deterministic()) ==> match spec_bvh_hit(
                *self,
                *ray,
                t_min as int,
                t_max as int,
            ) {
                Some(sr) => r && *final(rec) == sr,
                None => !r,
            },
        decreases *self,
    {
        match &self.bounding_box {
            None => {},
            Some(bb) => {
                if !bb.hit(ray, t_min, t_max) {
                    return false;
                }
            },
        }
        let mut left_rec = HitRecord::new();
        let mut right_rec = HitRecord::new();
        let left_hit = (&*self.left).hit(ray, t_min, t_max, &mut left_rec, rng);
        let right_hit = (&*self.right).hit(ray, t_min, t_max, &mut right_rec, rng);
        if left_hit && right_hit {
            if left_rec.t < right_rec.t {
                rec.from(&left_rec);
            } else {
                rec.from(&right_rec);
            }
            true
        } else if left_hit {
            rec.from(&left_rec);
            true
        } else if right_hit {
            rec.from(&right_rec);
            true
        } else {
            false
        }
    }
}

/// The clamped span a medium's ray traverses inside its boundary, as the
/// two boundary probes compute it (meaningful for deterministic
/// boundaries): the entry parameter clamped below by the query start and
/// zero, the exit parameter clamped above by the query end; absent when
/// either probe misses, the entry sits at the envelope edge, or the span
/// is empty.
pub open spec fn spec_medium_span(b: Hitable, r: Ray, tmin: int, tmax: int) -> Option<(int, int)> {
    match spec_hit(b, r, -COORD_LIMIT as int, COORD_LIMIT as int) {
        None => None,
        Some(rec1) => if rec1.t >= COORD_LIMIT - 1 {
            None
        } else {
            match spec_hit(b, r, rec1.t + 1, COORD_LIMIT as int) {
                None => None,
                Some(rec2) => {
                    let t1 = if rec1.t as int >= tmin {
                        rec1.t as int
                    } else {
                        tmin
                    };
                    let t2 = if rec2.t as int <= tmax {
                        rec2.t as int
                    } else {
                        tmax
                    };
                    if t1 >= t2 {
                        None
                    } else {
                        Some(((if t1 < 0 { 0int } else { t1 }), t2))
                    }
                },
            }
        },
    }
}

/// A scalar clipped into two units in magnitude (the normal envelope).
pub open spec fn clamp_two_units(x: int) -> int {
    if x < -2 * SCALE {
        -2 * SCALE
    } else if x > 2 * SCALE {
        2 * SCALE as int
    } else {
        x
    }
}

/// The exact meaning of the rotation wrapper's hit test for a
/// deterministic inner entity: the ray is turned into the inner frame
/// (each product floor-rescaled; leaving the coordinate envelope is a
/// miss), the inner test is run, and a hit is turned back out, the
/// returned normal clipped into its envelope.
pub open spec fn spec_rotate_y_hit(rt: RotateY, r: Ray, tmin: int, tmax: int) -> Option<
    HitRecord,
> {
    let s = SCALE as int;
    let ox = (rt.cos_theta * r.origin.x) / s - (rt.sin_theta * r.origin.z) / s;
    let oz = (rt.sin_theta * r.origin.x) / s + (rt.cos_theta * r.origin.z) / s;
    let dx = (rt.cos_theta * r.direction.x) / s - (rt.sin_theta * r.direction.z) / s;
    let dz = (rt.sin_theta * r.direction.x) / s + (rt.cos_theta * r.direction.z) / s;
    if -COORD_LIMIT <= ox <= COORD_LIMIT && -COORD_LIMIT <= oz <= COORD_LIMIT && -COORD_LIMIT
        <= dx <= COORD_LIMIT && -COORD_LIMIT <= dz <= COORD_LIMIT {
        let moved = Ray {
            origin: Vec3 { x: ox as i64, y: r.origin.y, z: oz as i64 },
            direction: Vec3 { x: dx as i64, y: r.direction.y, z: dz as i64 },
            time: r.time,
        };
        match spec_hit(*rt.hitable, moved, tmin, tmax) {
            None => None,
            Some(sub) => {
                let px = (rt.cos_theta * sub.hit_point.x) / s + (rt.sin_theta * sub.hit_point.z)
                    / s;
                let pz = -((rt.sin_theta * sub.hit_point.x) / s) + (rt.cos_theta
                    * sub.hit_point.z) / s;
                if -COORD_LIMIT <= px <= COORD_LIMIT && -COORD_LIMIT <= pz <= COORD_LIMIT {
                    let nx = clamp_two_units(
                        (rt.cos_theta * sub.normal.x) / s + (rt.sin_theta * sub.normal.z) / s,
                    );
                    let nz = clamp_two_units(
                        -((rt.sin_theta * sub.normal.x) / s) + (rt.cos_theta * sub.normal.z) / s,
                    );
                    Some(
                        HitRecord {
                            hit_point: Vec3 { x: px as i64, y: sub.hit_point.y, z: pz as i64 },
                            normal: Vec3 { x: nx as i64, y: sub.normal.y, z: nz as i64 },
                            ..sub
                        },
                    )
                } else {
                    None
                }
            },
        }
    } else {
        None
    }
}

/// What every medium hit promises of its record: the fixed stand-in
/// normal, the medium's phase function, zeroed texture coordinates, and
/// the hit point formed on the ray at the reported parameter.
pub open spec fn medium_record_fields(
    rec: HitRecord,
    phase: Arc<crate::material::Material>,
    r: Ray,
) -> bool {
    &&& rec.normal == (Vec3 { x: SCALE, y: 0, z: 0 })
    &&& rec.material == Some(phase)
    &&& rec.u == 0
    &&& rec.v == 0
    &&& rec.hit_point.x as int == crate::ray::spec_point_coord(r.origin.x as int,
        r.direction.x as int, rec.t as int)
    &&& rec.hit_point.y as int == crate::ray::spec_point_coord(r.origin.y as int,
        r.direction.y as int, rec.t as int)
    &&& rec.hit_point.z as int == crate::ray::spec_point_coord(r.origin.z as int,
        r.direction.z as int, rec.t as int)
}

/// A sampled free-flight distance accepted against the traversed length
/// converts back to a parameter step strictly below the span: if the
/// distance is below the rescaled span-times-length, the rescaled
/// distance-over-length is below the span.
proof fn lemma_flight_below_span(hd: int, len: int, span: int)
    requires
        len > 0,
        0 <= hd,
        hd < (span * len) / (SCALE as int),
    ensures
        0 < span,
        (hd * SCALE) / len < span,
{
    let s = SCALE as int;
    let dist = (span * len) / s;
    vstd::arithmetic::div_mod::lemma_fundamental_div_mod(span * len, s);
    vstd::arithmetic::div_mod::lemma_mod_bound(span * len, s);
    assert(dist * s <= span * len) by (nonlinear_arith)
        requires
            span * len == s * dist + (span * len) % s,
            0 <= (span * len) % s,
    ;
    assert(span > 0) by (nonlinear_arith)
        requires
            dist > 0,
            dist * s <= span * len,
            s > 0,
            len > 0,
    ;
    assert(hd * s <= dist * s - s) by (nonlinear_arith)
        requires
            hd <= dist - 1,
            s > 0,
    ;
    vstd::arithmetic::div_mod::lemma_div_is_ordered(hd * s, span * len - 1, len);
    assert(span * len - 1 == len * (span - 1) + (len - 1)) by (nonlinear_arith);
    vstd::arithmetic::div_mod::lemma_fundamental_div_mod_converse(span * len - 1, len, span - 1,
        len - 1);
}

/// The constant-density medium's hit test: probe the boundary twice
/// for the entry and exit parameters, then sample an exponential
/// free-flight distance against the traversed length.
fn constant_medium_hit(
    m: &ConstantMedium,
    ray: &Ray,
    t_min: i64,
    t_max: i64,
    rec: &mut HitRecord,
    rng: &mut RandomSource,
) -> (r: bool)
    requires
        (*m.boundary).wf(),
        16 <= m.density <= 0x1000_0000,
        m.phase_func.wf(),
        
        ray.wf(),
        -COORD_LIMIT <= t_min <= COORD_LIMIT,
        -COORD_LIMIT <= t_max <= COORD_LIMIT,
    ensures
        !r ==> *final(rec) == *old(rec),
        r ==> final(rec).wf() && t_min < final(rec).t < t_max && final(rec).material is Some,
        r ==> medium_record_fields(*final(rec), m.phase_func, *ray),
        (*m.boundary).deterministic() ==> match spec_medium_span(*m.boundary, *ray, t_min as int,
            t_max as int) {
            None => !r,
            Some((lo, hi)) => r ==> lo <= final(rec).t < hi,
        },
    decreases *m,
{
    let mut rec_1 = HitRecord::new();
    let mut rec_2 = HitRecord::new();
    if (&*m.boundary).hit(ray, -COORD_LIMIT, COORD_LIMIT, &mut rec_1, rng) {
        if rec_1.t >= COORD_LIMIT - 1 {
            return false;
        }
        if (&*m.boundary).hit(ray, rec_1.t + 1, COORD_LIMIT, &mut rec_2, rng) {
            let mut t1 = imax(rec_1.t, t_min);
            let t2 = imin(rec_2.t, t_max);
            if t1 >= t2 {
                return false;
            }
            if t1 < 0 {
                t1 = 0;
            }
            let hd_ln = neg_ln_one_minus(rng.next_unit());
            proof {
                assert(0 <= (hd_ln as int) * (SCALE as int) <= (0x10_0000_0000 as int) * (
                m.density as int)) by (nonlinear_arith)
                    requires
                        0 <= hd_ln <= crate::volumes::LN_CAP,
                        16 <= m.density,
                ;
                crate::vec3::lemma_ratio_bound((hd_ln as int) * (SCALE as int),
                    0x10_0000_0000, m.density as int);
                vstd::arithmetic::div_mod::lemma_div_pos_is_pos(
                    (hd_ln as int) * (SCALE as int),
                    m.density as int,
                );
            }
            let hit_distance = floor_div64(hd_ln * SCALE, m.density);
            let ray_length = ray.direction.length();
            if ray_length == 0 {
                return false;
            }
            proof {
                crate::vec3::lemma_dot_bound(ray.direction, ray.direction,
                    COORD_LIMIT as int);
                assert(ray_length <= 0x8000_0000) by (nonlinear_arith)
                    requires
                        ray_length >= 0,
                        (ray_length as int) * (ray_length as int)
                            <= crate::vec3::spec_dot(ray.direction, ray.direction),
                        crate::vec3::spec_dot(ray.direction, ray.direction) <= 3 * (
                        COORD_LIMIT as int) * (COORD_LIMIT as int),
                        COORD_LIMIT == 134217728,
                ;
            }
            let dist_inside = fmul(t2 - t1, ray_length);
            if hit_distance < dist_inside {
                proof {
                    assert(0 <= (hit_distance as int) * (SCALE as int) <= (
                    0x10_0000_0000_0000 as int) * (ray_length as int))
                        by (nonlinear_arith)
                        requires
                            0 <= hit_distance <= 0x10_0000_0000,
                            1 <= ray_length,
                    ;
                    crate::vec3::lemma_ratio_bound(
                        (hit_distance as int) * (SCALE as int),
                        0x10_0000_0000_0000,
                        ray_length as int,
                    );
                    vstd::arithmetic::div_mod::lemma_div_pos_is_pos(
                        (hit_distance as int) * (SCALE as int),
                        ray_length as int,
                    );
                }
                let dt = floor_div64(hit_distance * SCALE, ray_length);
                proof {
                    lemma_flight_below_span(hit_distance as int, ray_length as int,
                        (t2 - t1) as int);
                }
                if dt >= COORD_LIMIT - t1 {
                    return false;
                }
                let t = t1 + dt;
                if !(t_min < t && t < t_max) {
                    return false;
                }
                let p = ray.point_at_param(t);
                if p.x > COORD_LIMIT || p.x < -COORD_LIMIT || p.y > COORD_LIMIT
                    || p.y < -COORD_LIMIT || p.z > COORD_LIMIT || p.z < -COORD_LIMIT {
                    return false;
                }
                let h = HitRecord {
                    t,
                    hit_point: p,
                    normal: Vec3 { x: SCALE, y: 0, z: 0 },
                    material: Some(crate::material::clone_material(&m.phase_func)),
                    u: 0,
                    v: 0,
                };
                rec.from(&h);
                return true;
            }
        }
    }
    false
}

/// The variable-density medium's hit test: as the constant medium, but
/// the free-flight sampling is rejected against the turbulence field (with
/// a bounded number of draws).
fn variable_medium_hit(
    m: &VariableMedium,
    ray: &Ray,
    t_min: i64,
    t_max: i64,
    rec: &mut HitRecord,
    rng: &mut RandomSource,
) -> (r: bool)
    requires
        (*m.boundary).wf(),
        16 <= m.max_density <= 0x1000_0000,
        m.phase_func.wf(),
        m.noise_func.wf(),
        ray.wf(),
        -COORD_LIMIT <= t_min <= COORD_LIMIT,
        -COORD_LIMIT <= t_max <= COORD_LIMIT,
    ensures
        !r ==> *final(rec) == *old(rec),
        r ==> final(rec).wf() && t_min < final(rec).t < t_max && final(rec).material is Some,
        r ==> medium_record_fields(*final(rec), m.phase_func, *ray),
        (*m.boundary).deterministic() ==> match spec_medium_span(*m.boundary, *ray, t_min as int,
            t_max as int) {
            None => !r,
            Some((lo, hi)) => r ==> lo <= final(rec).t < hi,
        },
    decreases *m,
{
    let mut rec_1 = HitRecord::new();
    let mut rec_2 = HitRecord::new();
    if (&*m.boundary).hit(ray, -COORD_LIMIT, COORD_LIMIT, &mut rec_1, rng) {
        if rec_1.t >= COORD_LIMIT - 1 {
            return false;
        }
        if (&*m.boundary).hit(ray, rec_1.t + 1, COORD_LIMIT, &mut rec_2, rng) {
            let mut t1 = imax(rec_1.t, t_min);
            let t2 = imin(rec_2.t, t_max);
            if t1 >= t2 {
                return false;
            }
            if t1 < 0 {
                t1 = 0;
            }
            let ray_length = ray.direction.length();
            if ray_length == 0 {
                return false;
            }
            proof {
                crate::vec3::lemma_dot_bound(ray.direction, ray.direction,
                    COORD_LIMIT as int);
                assert(ray_length <= 0x8000_0000) by (nonlinear_arith)
                    requires
                        ray_length >= 0,
                        (ray_length as int) * (ray_length as int)
                            <= crate::vec3::spec_dot(ray.direction, ray.direction),
                        crate::vec3::spec_dot(ray.direction, ray.direction) <= 3 * (
                        COORD_LIMIT as int) * (COORD_LIMIT as int),
                        COORD_LIMIT == 134217728,
                ;
            }
            let unit_dir = crate::vec3::unit_vector(ray.direction);
            let dist_inside = fmul(t2 - t1, ray_length);
            let mut hit_distance: i64 = 0;
            let mut sampled = false;
            let mut tries: u32 = 0;
            while tries < 64
                invariant_except_break
                    0 <= hit_distance <= COORD_LIMIT,
                    !sampled,
                invariant
                    sampled ==> 0 <= hit_distance <= COORD_LIMIT,
                    m.noise_func.wf(),
                    16 <= m.max_density <= 0x1000_0000,
                    ray.wf(),
                    unit_dir.bounded(SCALE as int),
                decreases 64 - tries,
            {
                let x = rng.next_unit();
                let y = rng.next_unit();
                let step_ln = neg_ln_one_minus(x);
                proof {
                    assert(0 <= (step_ln as int) * (SCALE as int) <= (
                    0x10_0000_0000 as int) * (m.max_density as int))
                        by (nonlinear_arith)
                        requires
                            0 <= step_ln <= crate::volumes::LN_CAP,
                            16 <= m.max_density,
                    ;
                    crate::vec3::lemma_ratio_bound(
                        (step_ln as int) * (SCALE as int),
                        0x10_0000_0000,
                        m.max_density as int,
                    );
                    vstd::arithmetic::div_mod::lemma_div_pos_is_pos(
                        (step_ln as int) * (SCALE as int),
                        m.max_density as int,
                    );
                }
                hit_distance = hit_distance + floor_div64(
                    step_ln * SCALE,
                    m.max_density,
                );
                if hit_distance > COORD_LIMIT {
                    break ;
                }
                proof {
                    assert((COORD_LIMIT as int) * (SCALE as int) >= (SCALE as int) * (
                    COORD_LIMIT as int)) by (nonlinear_arith);
                    crate::vec3::lemma_scale_bound(unit_dir, hit_distance as int,
                        SCALE as int, COORD_LIMIT as int, COORD_LIMIT as int);
                }
                let off = unit_dir.scale(hit_distance);
                let temp_point = Vec3 {
                    x: ray.origin.x + off.x,
                    y: ray.origin.y + off.y,
                    z: ray.origin.z + off.z,
                };
                if temp_point.x > COORD_LIMIT || temp_point.x < -COORD_LIMIT
                    || temp_point.y > COORD_LIMIT || temp_point.y < -COORD_LIMIT
                    || temp_point.z > COORD_LIMIT || temp_point.z < -COORD_LIMIT {
                    break ;
                }
                let turb = m.noise_func.turbulance(temp_point, 8, 0x100_0000);
                proof {
                    assert(-((0x400_0000_0000_0000 as int) * (m.max_density as int)) <= (
                    turb as int) * (SCALE as int) <= (0x400_0000_0000_0000 as int) * (
                    m.max_density as int)) by (nonlinear_arith)
                        requires
                            -0x2_0000_0000 <= turb <= 0x2_0000_0000,
                            16 <= m.max_density,
                    ;
                    crate::vec3::lemma_ratio_bound((turb as int) * (SCALE as int),
                        0x400_0000_0000_0000, m.max_density as int);
                }
                let threshold = floor_div64(turb * SCALE, m.max_density);
                if y < threshold {
                    sampled = true;
                    break ;
                }
                tries = tries + 1;
            }
            if !sampled {
                return false;
            }
            if hit_distance < dist_inside {
                proof {
                    assert(0 <= (hit_distance as int) * (SCALE as int) <= (
                    0x10_0000_0000_0000 as int) * (ray_length as int))
                        by (nonlinear_arith)
                        requires
                            0 <= hit_distance <= COORD_LIMIT,
                            1 <= ray_length,
                    ;
                    crate::vec3::lemma_ratio_bound(
                        (hit_distance as int) * (SCALE as int),
                        0x10_0000_0000_0000,
                        ray_length as int,
                    );
                    vstd::arithmetic::div_mod::lemma_div_pos_is_pos(
                        (hit_distance as int) * (SCALE as int),
                        ray_length as int,
                    );
                }
                let dt = floor_div64(hit_distance * SCALE, ray_length);
                proof {
                    lemma_flight_below_span(hit_distance as int, ray_length as int,
                        (t2 - t1) as int);
                }
                if dt >= COORD_LIMIT - t1 {
                    return false;
                }
                let t = t1 + dt;
                if !(t_min < t && t < t_max) {
                    return false;
                }
                let p = ray.point_at_param(t);
                if p.x > COORD_LIMIT || p.x < -COORD_LIMIT || p.y > COORD_LIMIT
                    || p.y < -COORD_LIMIT || p.z > COORD_LIMIT || p.z < -COORD_LIMIT {
                    return false;
                }
                let h = HitRecord {
                    t,
                    hit_point: p,
                    normal: Vec3 { x: SCALE, y: 0, z: 0 },
                    material: Some(crate::material::clone_material(&m.phase_func)),
                    u: 0,
                    v: 0,
                };
                rec.from(&h);
                return true;
            }
            false
        } else {
            false
        }
    } else {
        false
    }
}

/// The rotation wrapper's hit test: rotate the ray into the inner frame,
/// delegate, and rotate the hit back out (normals clipped into their
/// envelope) — for a deterministic inner entity, exactly the conjugation
/// `spec_rotate_y_hit`.
fn rotate_y_hit(
    rt: &RotateY,
    ray: &Ray,
    t_min: i64,
    t_max: i64,
    rec: &mut HitRecord,
    rng: &mut RandomSource,
) -> (r: bool)
    requires
        (*rt.hitable).wf(),
        -SCALE <= rt.sin_theta <= SCALE,
        -SCALE <= rt.cos_theta <= SCALE,
        ray.wf(),
        -COORD_LIMIT <= t_min <= COORD_LIMIT,
        -COORD_LIMIT <= t_max <= COORD_LIMIT,
    ensures
        !r ==> *final(rec) == *old(rec),
        r ==> final(rec).wf() && t_min < final(rec).t < t_max && final(rec).material is Some,
        (*rt.hitable).deterministic() ==> match spec_rotate_y_hit(*rt, *ray, t_min as int,
            t_max as int) {
            Some(sr) => r && *final(rec) == sr,
            None => !r,
        },
    decreases *rt,
{
    proof {
        crate::transformations::lemma_rot_term(rt.cos_theta as int,
            ray.origin.x as int);
        crate::transformations::lemma_rot_term(rt.sin_theta as int,
            ray.origin.z as int);
        crate::transformations::lemma_rot_term(rt.sin_theta as int,
            ray.origin.x as int);
        crate::transformations::lemma_rot_term(rt.cos_theta as int,
            ray.origin.z as int);
        crate::transformations::lemma_rot_term(rt.cos_theta as int,
            ray.direction.x as int);
        crate::transformations::lemma_rot_term(rt.sin_theta as int,
            ray.direction.z as int);
        crate::transformations::lemma_rot_term(rt.sin_theta as int,
            ray.direction.x as int);
        crate::transformations::lemma_rot_term(rt.cos_theta as int,
            ray.direction.z as int);
    }
    let ox = fmul(rt.cos_theta, ray.origin.x) - fmul(rt.sin_theta, ray.origin.z);
    let oz = fmul(rt.sin_theta, ray.origin.x) + fmul(rt.cos_theta, ray.origin.z);
    let dx = fmul(rt.cos_theta, ray.direction.x) - fmul(rt.sin_theta, ray.direction.z);
    let dz = fmul(rt.sin_theta, ray.direction.x) + fmul(rt.cos_theta, ray.direction.z);
    if ox > COORD_LIMIT || ox < -COORD_LIMIT || oz > COORD_LIMIT || oz < -COORD_LIMIT
        || dx > COORD_LIMIT || dx < -COORD_LIMIT || dz > COORD_LIMIT || dz
        < -COORD_LIMIT {
        return false;
    }
    let rotated = Ray {
        origin: Vec3 { x: ox, y: ray.origin.y, z: oz },
        direction: Vec3 { x: dx, y: ray.direction.y, z: dz },
        time: ray.time,
    };
    let mut sub = HitRecord::new();
    if (&*rt.hitable).hit(&rotated, t_min, t_max, &mut sub, rng) {
        proof {
            crate::transformations::lemma_rot_term(rt.cos_theta as int,
                sub.hit_point.x as int);
            crate::transformations::lemma_rot_term(rt.sin_theta as int,
                sub.hit_point.z as int);
            crate::transformations::lemma_rot_term(rt.sin_theta as int,
                sub.hit_point.x as int);
            crate::transformations::lemma_rot_term(rt.cos_theta as int,
                sub.hit_point.z as int);
            crate::transformations::lemma_rot_term(rt.cos_theta as int,
                sub.normal.x as int);
            crate::transformations::lemma_rot_term(rt.sin_theta as int,
                sub.normal.z as int);
            crate::transformations::lemma_rot_term(rt.sin_theta as int,
                sub.normal.x as int);
            crate::transformations::lemma_rot_term(rt.cos_theta as int,
                sub.normal.z as int);
        }
        let px = fmul(rt.cos_theta, sub.hit_point.x) + fmul(
            rt.sin_theta,
            sub.hit_point.z,
        );
        let pz = -fmul(rt.sin_theta, sub.hit_point.x) + fmul(
            rt.cos_theta,
            sub.hit_point.z,
        );
        if px > COORD_LIMIT || px < -COORD_LIMIT || pz > COORD_LIMIT || pz
            < -COORD_LIMIT {
            return false;
        }
        let nx = imax(
            -2 * SCALE,
            imin(
                fmul(rt.cos_theta, sub.normal.x) + fmul(rt.sin_theta, sub.normal.z),
                2 * SCALE,
            ),
        );
        let nz = imax(
            -2 * SCALE,
            imin(
                -fmul(rt.sin_theta, sub.normal.x) + fmul(rt.cos_theta, sub.normal.z),
                2 * SCALE,
            ),
        );
        let h = HitRecord {
            hit_point: Vec3 { x: px, y: sub.hit_point.y, z: pz },
            normal: Vec3 { x: nx, y: sub.normal.y, z: nz },
            ..sub
        };
        rec.from(&h);
        true
    } else {
        false
    }
}

} // verus!
