//! The traversal equivalence: hierarchy pruning never changes the result.
//!
//! `spec_exhaustive_hit` is the unpruned traversal — every hierarchy node
//! queries both children unconditionally, so every primitive in the scene
//! is tested. The theorem `lemma_bvh_equivalence` states that for every
//! well-formed, deterministic, fully boxed scene and every ray and
//! interval, the pruned traversal (`spec_hit`, what the executable
//! hierarchy query computes) returns exactly the exhaustive result. It
//! rests on the soundness of the box test: a reported hit always lies
//! strictly inside the reporting primitive's padded box, so a node whose
//! box the ray misses cannot hide a hit.

use vstd::prelude::*;

verus! {

use crate::aabb::{ray_inside_at, spec_box_hit, strict_slab, AxisAlignedBoundingBox};
use crate::hit_record::HitRecord;
use crate::hitable::{
    spec_box, spec_box_seq, spec_combine, spec_hit, spec_list_hit, spec_sphere_box, Hitable,
};
use crate::num::{COORD_LIMIT, SCALE};
use crate::ray::{spec_point_coord, Ray};
use crate::rectangles::spec_plane_hit;
use crate::sphere::spec_sphere_hit;
use crate::vec3::Vec3;
use std::sync::Arc;

/// The unpruned traversal: as `spec_hit`, except that a hierarchy node
/// always queries both children — no box test stands between the ray and
/// any primitive.
pub open spec fn spec_exhaustive_hit(h: Hitable, r: Ray, tmin: int, tmax: int) -> Option<HitRecord>
    decreases h,
{
    match h {
        Hitable::Sphere(s) => spec_sphere_hit(s, r, tmin, tmax),
        Hitable::XY(rc) => crate::hitable::spec_xy_record(
            rc,
            spec_plane_hit(rc.x_0 as int, rc.x_1 as int, rc.y_0 as int, rc.y_1 as int,
                rc.k as int, r.origin.x as int, r.origin.y as int, r.origin.z as int,
                r.direction.x as int, r.direction.y as int, r.direction.z as int, tmin, tmax),
        ),
        Hitable::XZ(rc) => crate::hitable::spec_xz_record(
            rc,
            spec_plane_hit(rc.x_0 as int, rc.x_1 as int, rc.z_0 as int, rc.z_1 as int,
                rc.k as int, r.origin.x as int, r.origin.z as int, r.origin.y as int,
                r.direction.x as int, r.direction.z as int, r.direction.y as int, tmin, tmax),
        ),
        Hitable::YZ(rc) => crate::hitable::spec_yz_record(
            rc,
            spec_plane_hit(rc.y_0 as int, rc.y_1 as int, rc.z_0 as int, rc.z_1 as int,
                rc.k as int, r.origin.y as int, r.origin.z as int, r.origin.x as int,
                r.direction.y as int, r.direction.z as int, r.direction.x as int, tmin, tmax),
        ),
        Hitable::Flip(f) => match spec_exhaustive_hit(*f.hitable, r, tmin, tmax) {
            None => None,
            Some(rec) => Some(
                HitRecord {
                    normal: Vec3 {
                        x: (-rec.normal.x) as i64,
                        y: (-rec.normal.y) as i64,
                        z: (-rec.normal.z) as i64,
                    },
                    ..rec
                },
            ),
        },
        Hitable::Translate(tr) => {
            let ox = r.origin.x - tr.offset.x;
            let oy = r.origin.y - tr.offset.y;
            let oz = r.origin.z - tr.offset.z;
            if -COORD_LIMIT <= ox <= COORD_LIMIT && -COORD_LIMIT <= oy <= COORD_LIMIT
                && -COORD_LIMIT <= oz <= COORD_LIMIT {
                let moved = Ray {
                    origin: Vec3 { x: ox as i64, y: oy as i64, z: oz as i64 },
                    direction: r.direction,
                    time: r.time,
                };
                match spec_exhaustive_hit(*tr.hitable, moved, tmin, tmax) {
                    None => None,
                    Some(rec) => {
                        let hx = rec.hit_point.x + tr.offset.x;
                        let hy = rec.hit_point.y + tr.offset.y;
                        let hz = rec.hit_point.z + tr.offset.z;
                        if -COORD_LIMIT <= hx <= COORD_LIMIT && -COORD_LIMIT <= hy <= COORD_LIMIT
                            && -COORD_LIMIT <= hz <= COORD_LIMIT {
                            Some(
                                HitRecord {
                                    hit_point: Vec3 { x: hx as i64, y: hy as i64, z: hz as i64 },
                                    ..rec
                                },
                            )
                        } else {
                            None
                        }
                    },
                }
            } else {
                None
            }
        },
        Hitable::Block(b) => spec_exhaustive_list(b.sides.list@, r, tmin, tmax),
        Hitable::Polygon(p) => crate::polygon::spec_polygon_hit(p, r, tmin, tmax),
        Hitable::PolygonMesh(m) => spec_combine(
            spec_exhaustive_hit(*m.polygons.left, r, tmin, tmax),
            spec_exhaustive_hit(*m.polygons.right, r, tmin, tmax),
        ),
        Hitable::List(l) => spec_exhaustive_list(l.list@, r, tmin, tmax),
        Hitable::Bvh(n) => spec_combine(
            spec_exhaustive_hit(*n.left, r, tmin, tmax),
            spec_exhaustive_hit(*n.right, r, tmin, tmax),
        ),
        _ => None,
    }
}

/// The unpruned nearest-hit fold over a sequence.
pub open spec fn spec_exhaustive_list(s: Seq<Arc<Hitable>>, r: Ray, tmin: int, tmax: int) -> Option<
    HitRecord,
>
    decreases s,
{
    if s.len() == 0 {
        None
    } else {
        match spec_exhaustive_hit(*s[0], r, tmin, tmax) {
            None => spec_exhaustive_list(s.drop_first(), r, tmin, tmax),
            Some(rec) => match spec_exhaustive_list(s.drop_first(), r, tmin, rec.t as int) {
                Some(rec2) => Some(rec2),
                None => Some(rec),
            },
        }
    }
}

/// Every entity of the scene carries a bounding box (the one shape of
/// deterministic entity without one, an empty collection, carries no
/// geometry either): the hypothesis under which pruning is complete.
pub open spec fn fully_boxed(h: Hitable) -> bool
    decreases h,
{
    match h {
        Hitable::Sphere(_) => true,
        Hitable::XY(_) => true,
        Hitable::XZ(_) => true,
        Hitable::YZ(_) => true,
        Hitable::Block(b) => fb_seq(b.sides.list@) && (match spec_box_seq(b.sides.list@) {
            Some(sb) => crate::hitable::spec_pad_box(b.p_min, b.p_max).subsumes(sb),
            None => true,
        }),
        Hitable::Polygon(_) => true,
        Hitable::PolygonMesh(m) => fully_boxed(*m.polygons.left) && fully_boxed(
            *m.polygons.right,
        ) && (m.polygons.bounding_box is None ==> spec_box(*m.polygons.left) is None && spec_box(
            *m.polygons.right,
        ) is None),
        Hitable::Flip(f) => fully_boxed(*f.hitable),
        Hitable::Translate(t) => fully_boxed(*t.hitable),
        Hitable::List(l) => fb_seq(l.list@),
        Hitable::Bvh(n) => fully_boxed(*n.left) && fully_boxed(*n.right) && (n.bounding_box
            is None ==> spec_box(*n.left) is None && spec_box(*n.right) is None),
        _ => false,
    }
}

/// Every element of the sequence is fully boxed and has a box.
pub open spec fn fb_seq(s: Seq<Arc<Hitable>>) -> bool
    decreases s,
{
    s.len() == 0 || (fully_boxed(*s[0]) && spec_box(*s[0]) is Some && fb_seq(s.drop_first()))
}


/// The pruned hit of a shared entity (a helper for stating facts about
/// elements held behind shared handles).
pub open spec fn hit_of(a: &Arc<Hitable>, r: Ray, tmin: int, tmax: int) -> Option<HitRecord> {
    spec_hit(**a, r, tmin, tmax)
}

/// The exhaustive hit of a shared entity.
pub open spec fn exh_of(a: &Arc<Hitable>, r: Ray, tmin: int, tmax: int) -> Option<HitRecord> {
    spec_exhaustive_hit(**a, r, tmin, tmax)
}

/// The box of a shared entity.
pub open spec fn box_of(a: &Arc<Hitable>) -> Option<AxisAlignedBoundingBox> {
    spec_box(**a)
}

/// A point formed at an integer parameter with floor rounding witnesses
/// strict slab membership whenever it sits strictly inside the slab with a
/// unit to spare above.
pub proof fn lemma_point_in_slab(lo: int, hi: int, o: int, d: int, t: int, p: int)
    requires
        p == o + (t * d) / (SCALE as int),
        lo < p,
        p + 1 < hi,
    ensures
        strict_slab(lo, hi, o, d, t, 1),
{
    if d == 0 {
        assert(t * d == 0) by (nonlinear_arith)
            requires
                d == 0,
        ;
        vstd::arithmetic::div_mod::lemma_div_of0(SCALE as int);
        assert(p == o);
    } else {
        let s = SCALE as int;
        vstd::arithmetic::div_mod::lemma_fundamental_div_mod(t * d, s);
        vstd::arithmetic::div_mod::lemma_mod_bound(t * d, s);
        let q = (t * d) / s;
        let rem = (t * d) % s;
        assert(lo * 1 * s < o * 1 * s + t * d && o * 1 * s + t * d < hi * 1 * s)
            by (nonlinear_arith)
            requires
                t * d == s * q + rem,
                0 <= rem < s,
                p == o + q,
                lo < p,
                p + 1 < hi,
                s == SCALE as int,
        ;
    }
}

/// Shifting the slab and the ray origin together preserves strict
/// membership.
proof fn lemma_slab_shift(lo: int, hi: int, o: int, off: int, d: int, tn: int, td: int)
    by (nonlinear_arith)
    requires
        td > 0,
        strict_slab(lo, hi, o - off, d, tn, td),
    ensures
        strict_slab(lo + off, hi + off, o, d, tn, td),
{
}

/// A box hit within a subinterval is a box hit within any wider interval.
pub proof fn lemma_box_hit_widen(
    b: AxisAlignedBoundingBox,
    r: Ray,
    a1: int,
    b1: int,
    a2: int,
    b2: int,
)
    requires
        a2 <= a1,
        b1 <= b2,
        spec_box_hit(b, r, a1, b1),
    ensures
        spec_box_hit(b, r, a2, b2),
{
    let (tn, td) = choose|tn: int, td: int|
        td > 0 && a1 * td < tn && tn < b1 * td && #[trigger] ray_inside_at(b, r, tn, td);
    assert(a2 * td <= a1 * td && b1 * td <= b2 * td) by (nonlinear_arith)
        requires
            a2 <= a1,
            b1 <= b2,
            td > 0,
    ;
    assert(ray_inside_at(b, r, tn, td));
}

/// A box hit of an inner box is a box hit of any box that subsumes it.
pub proof fn lemma_box_hit_subsumes(
    outer: AxisAlignedBoundingBox,
    inner: AxisAlignedBoundingBox,
    r: Ray,
    tmin: int,
    tmax: int,
)
    requires
        outer.subsumes(inner),
        spec_box_hit(inner, r, tmin, tmax),
    ensures
        spec_box_hit(outer, r, tmin, tmax),
{
    let (tn, td) = choose|tn: int, td: int|
        td > 0 && tmin * td < tn && tn < tmax * td && #[trigger] ray_inside_at(inner, r, tn, td);
    crate::aabb::lemma_subsumes_inside(outer, inner, r, tn, td);
    assert(ray_inside_at(outer, r, tn, td));
}

/// The folded box of a fully boxed, nonempty sequence exists and subsumes
/// every element's box.
proof fn lemma_box_seq_covers(s: Seq<Arc<Hitable>>, i: int)
    requires
        fb_seq(s),
        0 <= i < s.len(),
    ensures
        spec_box_seq(s) is Some,
        spec_box(*s[i]) is Some,
        spec_box_seq(s) matches Some(bb) ==> (spec_box(*s[i]) matches Some(eb) && bb.subsumes(eb)),
    decreases s.len(),
{
    if s.len() == 1 {
    } else {
        lemma_box_seq_covers(s.drop_first(), if i == 0 {
            0
        } else {
            i - 1
        });
        if i > 0 {
            assert(s.drop_first()[i - 1] == s[i]);
        }
    }
}

/// The folded box of a sequence subsumes the folded box of its tail.
proof fn lemma_box_seq_covers_tail(s: Seq<Arc<Hitable>>)
    requires
        fb_seq(s),
        s.len() >= 2,
    ensures
        spec_box_seq(s) matches Some(bb) ==> (spec_box_seq(s.drop_first()) matches Some(db)
            && bb.subsumes(db)),
{
    lemma_box_seq_covers(s, 0);
    lemma_box_seq_covers(s.drop_first(), 0);
}

/// Soundness of the cached boxes: a hit reported by the exhaustive
/// traversal lies strictly inside the reporting scene's box, at a
/// parameter strictly inside the queried interval.
#[verifier::rlimit(100)]
#[verifier::spinoff_prover]
pub proof fn lemma_exhaustive_in_box(h: &Hitable, r: Ray, tmin: int, tmax: int)
    requires
        h.wf(),
        h.deterministic(),
        fully_boxed(*h),
        r.wf(),
        -COORD_LIMIT <= tmin,
        tmax <= COORD_LIMIT,
    ensures
        spec_exhaustive_hit(*h, r, tmin, tmax) matches Some(rec) ==> (spec_box(*h) matches Some(
            bb,
        ) && spec_box_hit(bb, r, tmin, tmax) && tmin < rec.t < tmax),
    decreases *h,
{
    if spec_exhaustive_hit(*h, r, tmin, tmax) is Some {
        let rec = spec_exhaustive_hit(*h, r, tmin, tmax)->Some_0;
        match h {
            Hitable::Sphere(s) => {
                lemma_sphere_hit_in_box(*s, r, tmin, tmax);
            },
            Hitable::XY(rc) => {
                let sp = spec_plane_hit(rc.x_0 as int, rc.x_1 as int, rc.y_0 as int,
                    rc.y_1 as int, rc.k as int, r.origin.x as int, r.origin.y as int,
                    r.origin.z as int, r.direction.x as int, r.direction.y as int,
                    r.direction.z as int, tmin, tmax);
                let (t, pa, pb, pc, u, v) = sp->Some_0;
                crate::rectangles::lemma_plane_coord(r.origin.z as int, r.direction.z as int,
                    rc.k as int, t);
                let bb = spec_box(*h)->Some_0;
                lemma_point_in_slab(bb.min_bound.x as int, bb.max_bound.x as int,
                    r.origin.x as int, r.direction.x as int, t, pa);
                lemma_point_in_slab(bb.min_bound.y as int, bb.max_bound.y as int,
                    r.origin.y as int, r.direction.y as int, t, pb);
                lemma_point_in_slab(bb.min_bound.z as int, bb.max_bound.z as int,
                    r.origin.z as int, r.direction.z as int, t, pc);
                assert(tmin * 1 < t && t < tmax * 1) by (nonlinear_arith)
                    requires
                        tmin < t < tmax,
                ;
                assert(ray_inside_at(bb, r, t, 1));
            },
            Hitable::XZ(rc) => {
                let sp = spec_plane_hit(rc.x_0 as int, rc.x_1 as int, rc.z_0 as int,
                    rc.z_1 as int, rc.k as int, r.origin.x as int, r.origin.z as int,
                    r.origin.y as int, r.direction.x as int, r.direction.z as int,
                    r.direction.y as int, tmin, tmax);
                let (t, pa, pb, pc, u, v) = sp->Some_0;
                crate::rectangles::lemma_plane_coord(r.origin.y as int, r.direction.y as int,
                    rc.k as int, t);
                let bb = spec_box(*h)->Some_0;
                lemma_point_in_slab(bb.min_bound.x as int, bb.max_bound.x as int,
                    r.origin.x as int, r.direction.x as int, t, pa);
                lemma_point_in_slab(bb.min_bound.z as int, bb.max_bound.z as int,
                    r.origin.z as int, r.direction.z as int, t, pb);
                lemma_point_in_slab(bb.min_bound.y as int, bb.max_bound.y as int,
                    r.origin.y as int, r.direction.y as int, t, pc);
                assert(tmin * 1 < t && t < tmax * 1) by (nonlinear_arith)
                    requires
                        tmin < t < tmax,
                ;
                assert(ray_inside_at(bb, r, t, 1));
            },
            Hitable::YZ(rc) => {
                let sp = spec_plane_hit(rc.y_0 as int, rc.y_1 as int, rc.z_0 as int,
                    rc.z_1 as int, rc.k as int, r.origin.y as int, r.origin.z as int,
                    r.origin.x as int, r.direction.y as int, r.direction.z as int,
                    r.direction.x as int, tmin, tmax);
                let (t, pa, pb, pc, u, v) = sp->Some_0;
                crate::rectangles::lemma_plane_coord(r.origin.x as int, r.direction.x as int,
                    rc.k as int, t);
                let bb = spec_box(*h)->Some_0;
                lemma_point_in_slab(bb.min_bound.y as int, bb.max_bound.y as int,
                    r.origin.y as int, r.direction.y as int, t, pa);
                lemma_point_in_slab(bb.min_bound.z as int, bb.max_bound.z as int,
                    r.origin.z as int, r.direction.z as int, t, pb);
                lemma_point_in_slab(bb.min_bound.x as int, bb.max_bound.x as int,
                    r.origin.x as int, r.direction.x as int, t, pc);
                assert(tmin * 1 < t && t < tmax * 1) by (nonlinear_arith)
                    requires
                        tmin < t < tmax,
                ;
                assert(ray_inside_at(bb, r, t, 1));
            },
            Hitable::Flip(f) => {
                lemma_exhaustive_in_box(&*f.hitable, r, tmin, tmax);
            },
            Hitable::Translate(tr) => {
                let moved = Ray {
                    origin: Vec3 {
                        x: (r.origin.x - tr.offset.x) as i64,
                        y: (r.origin.y - tr.offset.y) as i64,
                        z: (r.origin.z - tr.offset.z) as i64,
                    },
                    direction: r.direction,
                    time: r.time,
                };
                assert(moved.wf());
                lemma_exhaustive_in_box(&*tr.hitable, moved, tmin, tmax);
                let ib = box_of(&tr.hitable)->Some_0;
                let ob = spec_box(*h)->Some_0;
                let (tn, td) = choose|tn: int, td: int|
                    td > 0 && tmin * td < tn && tn < tmax * td && #[trigger] ray_inside_at(
                        ib,
                        moved,
                        tn,
                        td,
                    );
                lemma_slab_shift(ib.min_bound.x as int, ib.max_bound.x as int, r.origin.x as int,
                    tr.offset.x as int, r.direction.x as int, tn, td);
                lemma_slab_shift(ib.min_bound.y as int, ib.max_bound.y as int, r.origin.y as int,
                    tr.offset.y as int, r.direction.y as int, tn, td);
                lemma_slab_shift(ib.min_bound.z as int, ib.max_bound.z as int, r.origin.z as int,
                    tr.offset.z as int, r.direction.z as int, tn, td);
                assert(ray_inside_at(ob, r, tn, td));
            },
            Hitable::Block(b) => {
                lemma_exhaustive_list_in_box(b.sides.list@, r, tmin, tmax);
                lemma_box_hit_subsumes(
                    spec_box(*h)->Some_0,
                    spec_box_seq(b.sides.list@)->Some_0,
                    r,
                    tmin,
                    tmax,
                );
            },
            Hitable::Polygon(p) => {
                let sp = crate::polygon::spec_polygon_hit(*p, r, tmin, tmax);
                assert(sp is Some);
                assert(p.bounding_box is Some);
                let bb = p.bounding_box->Some_0;
                let t = sp->Some_0.t as int;
                let hp = sp->Some_0.hit_point;
                assert(hp.x as int == crate::ray::spec_point_coord(r.origin.x as int,
                    r.direction.x as int, t));
                assert(hp.y as int == crate::ray::spec_point_coord(r.origin.y as int,
                    r.direction.y as int, t));
                assert(hp.z as int == crate::ray::spec_point_coord(r.origin.z as int,
                    r.direction.z as int, t));
                assert(bb.min_bound.x < hp.x && hp.x + 1 < bb.max_bound.x);
                assert(bb.min_bound.y < hp.y && hp.y + 1 < bb.max_bound.y);
                assert(bb.min_bound.z < hp.z && hp.z + 1 < bb.max_bound.z);
                lemma_point_in_slab(bb.min_bound.x as int, bb.max_bound.x as int,
                    r.origin.x as int, r.direction.x as int, t, hp.x as int);
                lemma_point_in_slab(bb.min_bound.y as int, bb.max_bound.y as int,
                    r.origin.y as int, r.direction.y as int, t, hp.y as int);
                lemma_point_in_slab(bb.min_bound.z as int, bb.max_bound.z as int,
                    r.origin.z as int, r.direction.z as int, t, hp.z as int);
                assert(tmin * 1 < t && t < tmax * 1) by (nonlinear_arith)
                    requires
                        tmin < t < tmax,
                ;
                assert(ray_inside_at(bb, r, t, 1));
            },
            Hitable::PolygonMesh(me) => {
                crate::hitable::lemma_wf_bvh_node_parts(&me.polygons);
                let lres = exh_of(&me.polygons.left, r, tmin, tmax);
                let rres = exh_of(&me.polygons.right, r, tmin, tmax);
                lemma_exhaustive_in_box(&*me.polygons.left, r, tmin, tmax);
                lemma_exhaustive_in_box(&*me.polygons.right, r, tmin, tmax);
                match me.polygons.bounding_box {
                    None => {
                        assert(lres is None && rres is None);
                        assert(false);
                    },
                    Some(bb) => {
                        if lres is Some {
                            lemma_box_hit_subsumes(bb, box_of(&me.polygons.left)->Some_0, r,
                                tmin, tmax);
                        } else {
                            lemma_box_hit_subsumes(bb, box_of(&me.polygons.right)->Some_0, r,
                                tmin, tmax);
                        }
                    },
                }
            },
            Hitable::List(l) => {
                lemma_exhaustive_list_in_box(l.list@, r, tmin, tmax);
            },
            Hitable::Bvh(n) => {
                crate::hitable::lemma_wf_bvh_node_parts(n);
                let lres = exh_of(&n.left, r, tmin, tmax);
                let rres = exh_of(&n.right, r, tmin, tmax);
                lemma_exhaustive_in_box(&*n.left, r, tmin, tmax);
                lemma_exhaustive_in_box(&*n.right, r, tmin, tmax);
                match n.bounding_box {
                    None => {
                        // A fully boxed node without a box has boxless
                        // children, which therefore cannot hit.
                        assert(lres is None && rres is None);
                        assert(false);
                    },
                    Some(bb) => {
                        if lres is Some {
                            lemma_box_hit_subsumes(bb, box_of(&n.left)->Some_0, r, tmin, tmax);
                        } else {
                            lemma_box_hit_subsumes(bb, box_of(&n.right)->Some_0, r, tmin, tmax);
                        }
                    },
                }
            },
            _ => {
                assert(false);
            },
        }
    }
}

/// The list form of box soundness.
#[verifier::rlimit(100)]
#[verifier::spinoff_prover]
proof fn lemma_exhaustive_list_in_box(s: Seq<Arc<Hitable>>, r: Ray, tmin: int, tmax: int)
    requires
        crate::hitable::wf_seq(s),
        crate::hitable::det_seq(s),
        fb_seq(s),
        r.wf(),
        -COORD_LIMIT <= tmin,
        tmax <= COORD_LIMIT,
    ensures
        spec_exhaustive_list(s, r, tmin, tmax) matches Some(rec) ==> (spec_box_seq(s) matches Some(
            bb,
        ) && spec_box_hit(bb, r, tmin, tmax) && tmin < rec.t < tmax),
    decreases s,
{
    if spec_exhaustive_list(s, r, tmin, tmax) is Some {
        reveal_with_fuel(spec_exhaustive_list, 2);
        let rec = spec_exhaustive_list(s, r, tmin, tmax)->Some_0;
        let bb = spec_box_seq(s);
        lemma_box_seq_covers(s, 0);
        match exh_of(&s[0], r, tmin, tmax) {
            None => {
                assert(s.len() >= 2) by {
                    if s.len() == 1 {
                        assert(s.drop_first().len() == 0);
                        assert(spec_exhaustive_list(s.drop_first(), r, tmin, tmax) is None);
                    }
                }
                lemma_exhaustive_list_in_box(s.drop_first(), r, tmin, tmax);
                lemma_box_seq_covers_tail(s);
                lemma_box_hit_subsumes(
                    bb->Some_0,
                    spec_box_seq(s.drop_first())->Some_0,
                    r,
                    tmin,
                    tmax,
                );
            },
            Some(rec0) => {
                lemma_exhaustive_in_box(&*s[0], r, tmin, tmax);
                match spec_exhaustive_list(s.drop_first(), r, tmin, rec0.t as int) {
                    Some(rec2) => {
                        lemma_exhaustive_list_in_box(s.drop_first(), r, tmin, rec0.t as int);
                        lemma_box_seq_covers_tail(s);
                        lemma_box_hit_widen(
                            spec_box_seq(s.drop_first())->Some_0,
                            r,
                            tmin,
                            rec0.t as int,
                            tmin,
                            tmax,
                        );
                        lemma_box_hit_subsumes(
                            bb->Some_0,
                            spec_box_seq(s.drop_first())->Some_0,
                            r,
                            tmin,
                            tmax,
                        );
                    },
                    None => {
                        lemma_box_hit_subsumes(bb->Some_0, box_of(&s[0])->Some_0, r, tmin, tmax);
                    },
                }
            },
        }
    }
}

/// For a sphere, a reported hit witnesses a hit of the sphere's padded
/// box: the rounding guard keeps the computed point within the tight
/// bounds, and the exact ray point within a unit of it.
proof fn lemma_sphere_hit_in_box(s: crate::sphere::Sphere, r: Ray, tmin: int, tmax: int)
    requires
        s.wf(),
        r.wf(),
        -COORD_LIMIT <= tmin,
        tmax <= COORD_LIMIT,
    ensures
        spec_sphere_hit(s, r, tmin, tmax) matches Some(rec) ==> (spec_box_hit(
            spec_sphere_box(s.center, s.radius as int),
            r,
            tmin,
            tmax,
        ) && tmin < rec.t < tmax),
{
    if spec_sphere_hit(s, r, tmin, tmax) is Some {
        let bb = spec_sphere_box(s.center, s.radius as int);
        let ocx = r.origin.x - s.center.x;
        let ocy = r.origin.y - s.center.y;
        let ocz = r.origin.z - s.center.z;
        let a = crate::vec3::spec_dot(r.direction, r.direction);
        let b = ocx * r.direction.x + ocy * r.direction.y + ocz * r.direction.z;
        let c = ocx * ocx + ocy * ocy + ocz * ocz - s.radius * s.radius;
        let disc = b * b - a * c;
        let sq = crate::vec3::spec_isqrt(disc);
        let t1 = ((-b - sq) * SCALE) / (a as int);
        let t2 = ((-b + sq) * SCALE) / (a as int);
        let t = if tmin < t1 && t1 < tmax {
            t1
        } else {
            t2
        };
        let px = spec_point_coord(r.origin.x as int, r.direction.x as int, t);
        let py = spec_point_coord(r.origin.y as int, r.direction.y as int, t);
        let pz = spec_point_coord(r.origin.z as int, r.direction.z as int, t);
        lemma_point_in_slab(bb.min_bound.x as int, bb.max_bound.x as int, r.origin.x as int,
            r.direction.x as int, t, px);
        lemma_point_in_slab(bb.min_bound.y as int, bb.max_bound.y as int, r.origin.y as int,
            r.direction.y as int, t, py);
        lemma_point_in_slab(bb.min_bound.z as int, bb.max_bound.z as int, r.origin.z as int,
            r.direction.z as int, t, pz);
        assert(tmin * 1 < t && t < tmax * 1) by (nonlinear_arith)
            requires
                tmin < t < tmax,
        ;
        assert(ray_inside_at(bb, r, t, 1));
    }
}

/// The traversal equivalence: for every well-formed, deterministic, fully
/// boxed scene and every ray and interval, the pruned traversal returns
/// exactly what exhaustively testing every primitive returns.
pub proof fn lemma_bvh_equivalence(h: &Hitable, r: Ray, tmin: int, tmax: int)
    requires
        h.wf(),
        h.deterministic(),
        fully_boxed(*h),
        r.wf(),
        -COORD_LIMIT <= tmin,
        tmax <= COORD_LIMIT,
    ensures
        spec_hit(*h, r, tmin, tmax) == spec_exhaustive_hit(*h, r, tmin, tmax),
    decreases *h,
{
    match h {
        Hitable::Flip(f) => {
            lemma_bvh_equivalence(&*f.hitable, r, tmin, tmax);
        },
        Hitable::Translate(tr) => {
            let moved = Ray {
                origin: Vec3 {
                    x: (r.origin.x - tr.offset.x) as i64,
                    y: (r.origin.y - tr.offset.y) as i64,
                    z: (r.origin.z - tr.offset.z) as i64,
                },
                direction: r.direction,
                time: r.time,
            };
            if -COORD_LIMIT <= r.origin.x - tr.offset.x <= COORD_LIMIT && -COORD_LIMIT
                <= r.origin.y - tr.offset.y <= COORD_LIMIT && -COORD_LIMIT <= r.origin.z
                - tr.offset.z <= COORD_LIMIT {
                assert(moved.wf());
                lemma_bvh_equivalence(&*tr.hitable, moved, tmin, tmax);
            }
        },
        Hitable::Block(b) => {
            lemma_list_equivalence(b.sides.list@, r, tmin, tmax);
            assert(spec_hit(*h, r, tmin, tmax) == spec_list_hit(b.sides.list@, r, tmin, tmax));
            assert(spec_exhaustive_hit(*h, r, tmin, tmax) == spec_exhaustive_list(
                b.sides.list@,
                r,
                tmin,
                tmax,
            ));
        },
        Hitable::PolygonMesh(me) => {
            reveal_with_fuel(crate::hitable::spec_hit, 2);
            reveal_with_fuel(crate::hitable::spec_bvh_hit, 2);
            reveal_with_fuel(spec_exhaustive_hit, 2);
            crate::hitable::lemma_wf_bvh_node_parts(&me.polygons);
            lemma_bvh_equivalence(&*me.polygons.left, r, tmin, tmax);
            lemma_bvh_equivalence(&*me.polygons.right, r, tmin, tmax);
            match me.polygons.bounding_box {
                None => {},
                Some(bb) => {
                    if !spec_box_hit(bb, r, tmin, tmax) {
                        lemma_exhaustive_in_box(&*me.polygons.left, r, tmin, tmax);
                        lemma_exhaustive_in_box(&*me.polygons.right, r, tmin, tmax);
                        if exh_of(&me.polygons.left, r, tmin, tmax) is Some {
                            lemma_box_hit_subsumes(bb, box_of(&me.polygons.left)->Some_0, r,
                                tmin, tmax);
                        }
                        if exh_of(&me.polygons.right, r, tmin, tmax) is Some {
                            lemma_box_hit_subsumes(bb, box_of(&me.polygons.right)->Some_0, r,
                                tmin, tmax);
                        }
                    }
                },
            }
        },
        Hitable::List(l) => {
            lemma_list_equivalence(l.list@, r, tmin, tmax);
        },
        Hitable::Bvh(n) => {
            reveal_with_fuel(crate::hitable::spec_hit, 2);
            reveal_with_fuel(crate::hitable::spec_bvh_hit, 2);
            reveal_with_fuel(spec_exhaustive_hit, 2);
            crate::hitable::lemma_wf_bvh_node_parts(n);
            lemma_bvh_equivalence(&*n.left, r, tmin, tmax);
            lemma_bvh_equivalence(&*n.right, r, tmin, tmax);
            match n.bounding_box {
                None => {},
                Some(bb) => {
                    if !spec_box_hit(bb, r, tmin, tmax) {
                        lemma_exhaustive_in_box(&*n.left, r, tmin, tmax);
                        lemma_exhaustive_in_box(&*n.right, r, tmin, tmax);
                        if exh_of(&n.left, r, tmin, tmax) is Some {
                            lemma_box_hit_subsumes(bb, box_of(&n.left)->Some_0, r, tmin, tmax);
                        }
                        if exh_of(&n.right, r, tmin, tmax) is Some {
                            lemma_box_hit_subsumes(bb, box_of(&n.right)->Some_0, r, tmin, tmax);
                        }
                    }
                },
            }
        },
        _ => {},
    }
}

/// The traversal equivalence for a built scene: a hierarchy node whose
/// construction certified determinism and boxedness (which
/// `BvhNode::new` ensures whenever every input element is deterministic
/// and fully boxed) answers every query exactly as the unpruned
/// exhaustive traversal of its two children does.
pub proof fn lemma_built_scene_equivalence(n: crate::hitable::BvhNode, r: Ray, tmin: int, tmax: int)
    requires
        crate::hitable::wf_bvh_node(n),
        Hitable::Bvh(n).deterministic(),
        fully_boxed(Hitable::Bvh(n)),
        r.wf(),
        -COORD_LIMIT <= tmin,
        tmax <= COORD_LIMIT,
    ensures
        crate::hitable::spec_bvh_hit(n, r, tmin, tmax) == spec_combine(
            spec_exhaustive_hit(*n.left, r, tmin, tmax),
            spec_exhaustive_hit(*n.right, r, tmin, tmax),
        ),
{
    let h = Hitable::Bvh(n);
    assert(h.wf()) by {
        assert(crate::hitable::wf_bvh_node(n));
    }
    lemma_bvh_equivalence(&h, r, tmin, tmax);
    reveal_with_fuel(crate::hitable::spec_hit, 2);
    reveal_with_fuel(spec_exhaustive_hit, 2);
    assert(spec_hit(h, r, tmin, tmax) == crate::hitable::spec_bvh_hit(n, r, tmin, tmax));
    assert(spec_exhaustive_hit(h, r, tmin, tmax) == spec_combine(
        spec_exhaustive_hit(*n.left, r, tmin, tmax),
        spec_exhaustive_hit(*n.right, r, tmin, tmax),
    ));
}

/// The list form of the traversal equivalence.
proof fn lemma_list_equivalence(s: Seq<Arc<Hitable>>, r: Ray, tmin: int, tmax: int)
    requires
        crate::hitable::wf_seq(s),
        crate::hitable::det_seq(s),
        fb_seq(s),
        r.wf(),
        -COORD_LIMIT <= tmin,
        tmax <= COORD_LIMIT,
    ensures
        spec_list_hit(s, r, tmin, tmax) == spec_exhaustive_list(s, r, tmin, tmax),
    decreases s,
{
    if s.len() > 0 {
        lemma_bvh_equivalence(&*s[0], r, tmin, tmax);
        match hit_of(&s[0], r, tmin, tmax) {
            None => {
                lemma_list_equivalence(s.drop_first(), r, tmin, tmax);
            },
            Some(rec0) => {
                lemma_exhaustive_in_box(&*s[0], r, tmin, tmax);
                lemma_list_equivalence(s.drop_first(), r, tmin, rec0.t as int);
            },
        }
    }
}

} // verus!
