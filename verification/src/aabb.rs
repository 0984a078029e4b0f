//! Axis-aligned bounding boxes and the exact slab test.
//!
//! The slab test keeps the running parameter interval as exact rationals
//! (numerator over positive denominator) and compares them by cross
//! multiplication, so its result is characterized exactly: the ray meets the
//! box if and only if some rational parameter strictly inside the queried
//! interval puts the ray strictly between every pair of slab planes. A ray
//! that runs parallel to a slab (a direction component of exactly zero)
//! counts as inside that slab when its origin lies within the slab's bounds,
//! boundary included — a deterministic resolution of the classic
//! zero-direction edge case.

use vstd::prelude::*;

verus! {

use crate::num::{imax, imin, COORD_LIMIT, SCALE};
use crate::ray::Ray;
use crate::vec3::Vec3;

/// Padding added to each primitive's tight geometric bounds when it reports
/// its bounding box. Hit parameters and points are computed with floor
/// rounding, so the exact ray point at an accepted parameter can drift from
/// the rounded point: by under one unit for the point arithmetic itself,
/// plus up to `COORD_LIMIT / SCALE` units where a plane-crossing parameter
/// was rounded before the point was formed. This padding strictly covers
/// both, so every accepted hit lies strictly inside the reported box.
pub const BOX_PAD: i64 = 2052;

/// Bound on the numerators handled by the slab test's rational arithmetic:
/// interval endpoints are either query bounds (at most `COORD_LIMIT`) or
/// plane distances times `SCALE` (at most `2 * COORD_LIMIT * SCALE`).
pub const NUM_LIMIT: i64 = 0x2000_0000_0000;

#[derive(Clone, Copy, PartialEq, Eq, Structural, Debug)]
pub struct AxisAlignedBoundingBox {
    pub min_bound: Vec3,
    pub max_bound: Vec3,
}

/// `a/b < c/d`, for rationals with positive denominators.
pub open spec fn rlt(an: int, ad: int, bn: int, bd: int) -> bool {
    an * bd < bn * ad
}

/// Strict order on rationals, decided exactly by cross multiplication.
fn rat_lt(an: i64, ad: i64, bn: i64, bd: i64) -> (r: bool)
    requires
        0 < ad <= COORD_LIMIT,
        0 < bd <= COORD_LIMIT,
        -NUM_LIMIT <= an <= NUM_LIMIT,
        -NUM_LIMIT <= bn <= NUM_LIMIT,
    ensures
        r == rlt(an as int, ad as int, bn as int, bd as int),
{
    proof {
        assert(-0x1000_0000_0000_0000_0000 <= an * bd <= 0x1000_0000_0000_0000_0000
            && -0x1000_0000_0000_0000_0000 <= bn * ad <= 0x1000_0000_0000_0000_0000)
            by (nonlinear_arith)
            requires
                0 < ad <= COORD_LIMIT,
                0 < bd <= COORD_LIMIT,
                -NUM_LIMIT <= an <= NUM_LIMIT,
                -NUM_LIMIT <= bn <= NUM_LIMIT,
        ;
    }
    (an as i128) * (bd as i128) < (bn as i128) * (ad as i128)
}

/// Strict inequality between rationals is transitive.
proof fn lemma_rlt_trans(an: int, ad: int, bn: int, bd: int, cn: int, cd: int)
    by (nonlinear_arith)
    requires
        ad > 0,
        bd > 0,
        cd > 0,
        rlt(an, ad, bn, bd),
        rlt(bn, bd, cn, cd),
    ensures
        rlt(an, ad, cn, cd),
{
}

/// A weak bound on the left chains with a strict bound on the right.
proof fn lemma_rle_rlt_trans(an: int, ad: int, bn: int, bd: int, cn: int, cd: int)
    by (nonlinear_arith)
    requires
        ad > 0,
        bd > 0,
        cd > 0,
        !rlt(bn, bd, an, ad),
        rlt(bn, bd, cn, cd),
    ensures
        rlt(an, ad, cn, cd),
{
}

/// A strict bound on the left chains with a weak bound on the right.
proof fn lemma_rlt_rle_trans(an: int, ad: int, bn: int, bd: int, cn: int, cd: int)
    by (nonlinear_arith)
    requires
        ad > 0,
        bd > 0,
        cd > 0,
        rlt(an, ad, bn, bd),
        !rlt(cn, cd, bn, bd),
    ensures
        rlt(an, ad, cn, cd),
{
}

/// Whether the ray's point at rational parameter `tn / td` lies strictly
/// between the two slab planes of one axis. For a zero direction component
/// the parameter is irrelevant: the ray is inside the slab exactly when its
/// origin is (boundary included).
pub open spec fn strict_slab(lo: int, hi: int, o: int, d: int, tn: int, td: int) -> bool {
    if d == 0 {
        lo <= o <= hi
    } else {
        lo * td * SCALE < o * td * SCALE + tn * d && o * td * SCALE + tn * d < hi * td * SCALE
    }
}

/// The ray's point at rational parameter `tn / td` lies strictly inside the
/// box on every axis.
pub open spec fn ray_inside_at(b: AxisAlignedBoundingBox, r: Ray, tn: int, td: int) -> bool {
    &&& strict_slab(b.min_bound.x as int, b.max_bound.x as int, r.origin.x as int,
        r.direction.x as int, tn, td)
    &&& strict_slab(b.min_bound.y as int, b.max_bound.y as int, r.origin.y as int,
        r.direction.y as int, tn, td)
    &&& strict_slab(b.min_bound.z as int, b.max_bound.z as int, r.origin.z as int,
        r.direction.z as int, tn, td)
}

/// The exact meaning of the slab test: some rational parameter strictly
/// inside `(t_min, t_max)` puts the ray strictly inside the box.
pub open spec fn spec_box_hit(b: AxisAlignedBoundingBox, r: Ray, t_min: int, t_max: int) -> bool {
    exists|tn: int, td: int|
        td > 0 && t_min * td < tn && tn < t_max * td && #[trigger] ray_inside_at(b, r, tn, td)
}

/// One axis of the slab test, stated over exact rational interval
/// endpoints: the slab constraint of this axis is exactly the conjunction
/// of the two rational bounds derived from its plane distances.
proof fn lemma_axis_iff(
    lo: int,
    hi: int,
    o: int,
    d: int,
    tn: int,
    td: int,
    t0n: int,
    t0d: int,
    t1n: int,
    t1d: int,
)
    by (nonlinear_arith)
    requires
        td > 0,
        d != 0,
        d > 0 ==> t0n == (lo - o) * SCALE && t0d == d && t1n == (hi - o) * SCALE && t1d == d,
        d < 0 ==> t0n == (o - hi) * SCALE && t0d == -d && t1n == (o - lo) * SCALE && t1d == -d,
    ensures
        strict_slab(lo, hi, o, d, tn, td) <==> (rlt(t0n, t0d, tn, td) && rlt(tn, td, t1n, t1d)),
{
}

impl AxisAlignedBoundingBox {
    /// All bounds lie within the coordinate envelope.
    pub open spec fn wf(self) -> bool {
        &&& self.min_bound.bounded(COORD_LIMIT as int)
        &&& self.max_bound.bounded(COORD_LIMIT as int)
    }

    /// A point with integer coordinates lies within the box (closed).
    pub open spec fn contains_point(self, p: Vec3) -> bool {
        &&& self.min_bound.x <= p.x <= self.max_bound.x
        &&& self.min_bound.y <= p.y <= self.max_bound.y
        &&& self.min_bound.z <= p.z <= self.max_bound.z
    }

    /// Every point of `inner` (at any rational ray parameter) is also in
    /// `self`: the bounds of `self` are at least as wide.
    pub open spec fn subsumes(self, inner: AxisAlignedBoundingBox) -> bool {
        &&& self.min_bound.x <= inner.min_bound.x
        &&& self.min_bound.y <= inner.min_bound.y
        &&& self.min_bound.z <= inner.min_bound.z
        &&& inner.max_bound.x <= self.max_bound.x
        &&& inner.max_bound.y <= self.max_bound.y
        &&& inner.max_bound.z <= self.max_bound.z
    }

    /// Creates a new box with the given corner bounds.
    pub fn new(min_bound: Vec3, max_bound: Vec3) -> (b: AxisAlignedBoundingBox)
        ensures
            b == (AxisAlignedBoundingBox { min_bound, max_bound }),
    {
        AxisAlignedBoundingBox { min_bound, max_bound }
    }

    /// The exact slab test: returns whether some rational ray parameter
    /// strictly inside `(t_min, t_max)` places the ray strictly inside the
    /// box — `spec_box_hit`, exactly.
    pub fn hit(&self, ray: &Ray, t_min: i64, t_max: i64) -> (r: bool)
        requires
            self.wf(),
            ray.wf(),
            -COORD_LIMIT <= t_min <= COORD_LIMIT,
            -COORD_LIMIT <= t_max <= COORD_LIMIT,
        ensures
            r == spec_box_hit(*self, *ray, t_min as int, t_max as int),
    {
        let b = *self;
        let r = *ray;
        let mut ln: i64 = t_min;
        let mut ld: i64 = 1;
        let mut un: i64 = t_max;
        let mut ud: i64 = 1;
        proof {
            assert(forall|tn: int, td: int|
                td > 0 ==> ((rlt(ln as int, ld as int, tn, td) && rlt(tn, td, un as int, ud as int))
                    <==> (t_min * td < tn && tn < t_max * td)));
        }
        // X axis.
        match clip_axis(b.min_bound.x, b.max_bound.x, r.origin.x, r.direction.x, ln, ld, un, ud) {
            None => {
                proof {
                    assert forall|tn: int, td: int|
                        td > 0 implies !(t_min * td < tn && tn < t_max * td && ray_inside_at(
                        b,
                        r,
                        tn,
                        td,
                    )) by {
                        if t_min * td < tn && tn < t_max * td && ray_inside_at(b, r, tn, td) {
                            assert(rlt(ln as int, ld as int, tn, td) && rlt(
                                tn,
                                td,
                                un as int,
                                ud as int,
                            ));
                        }
                    }
                }
                return false;
            },
            Some((a, bb, c, d)) => {
                ln = a;
                ld = bb;
                un = c;
                ud = d;
            },
        }
        let ghost lx = ln as int;
        let ghost ldx = ld as int;
        let ghost ux = un as int;
        let ghost udx = ud as int;
        // Y axis.
        match clip_axis(b.min_bound.y, b.max_bound.y, r.origin.y, r.direction.y, ln, ld, un, ud) {
            None => {
                proof {
                    assert forall|tn: int, td: int|
                        td > 0 implies !(t_min * td < tn && tn < t_max * td && ray_inside_at(
                        b,
                        r,
                        tn,
                        td,
                    )) by {
                        if t_min * td < tn && tn < t_max * td && ray_inside_at(b, r, tn, td) {
                            assert(rlt(lx, ldx, tn, td) && rlt(tn, td, ux, udx));
                        }
                    }
                }
                return false;
            },
            Some((a, bb, c, d)) => {
                ln = a;
                ld = bb;
                un = c;
                ud = d;
            },
        }
        let ghost ly = ln as int;
        let ghost ldy = ld as int;
        let ghost uy = un as int;
        let ghost udy = ud as int;
        // Z axis.
        match clip_axis(b.min_bound.z, b.max_bound.z, r.origin.z, r.direction.z, ln, ld, un, ud) {
            None => {
                proof {
                    assert forall|tn: int, td: int|
                        td > 0 implies !(t_min * td < tn && tn < t_max * td && ray_inside_at(
                        b,
                        r,
                        tn,
                        td,
                    )) by {
                        if t_min * td < tn && tn < t_max * td && ray_inside_at(b, r, tn, td) {
                            assert(rlt(ly, ldy, tn, td) && rlt(tn, td, uy, udy));
                        }
                    }
                }
                return false;
            },
            Some((a, bb, c, d)) => {
                ln = a;
                ld = bb;
                un = c;
                ud = d;
            },
        }
        // The final interval is nonempty, so its open midpoint witnesses
        // the hit.
        proof {
            let mn = (ln as int) * (ud as int) + (un as int) * (ld as int);
            let md = 2 * (ld as int) * (ud as int);
            assert(md > 0 && rlt(ln as int, ld as int, mn, md) && rlt(mn, md, un as int, ud as int))
                by (nonlinear_arith)
                requires
                    rlt(ln as int, ld as int, un as int, ud as int),
                    ld > 0,
                    ud > 0,
                    mn == (ln as int) * (ud as int) + (un as int) * (ld as int),
                    md == 2 * (ld as int) * (ud as int),
            ;
            assert(t_min * md < mn && mn < t_max * md && ray_inside_at(b, r, mn, md));
            assert(spec_box_hit(b, r, t_min as int, t_max as int));
        }
        true
    }
}

/// Narrows the running rational interval by one axis' slab constraints.
/// `None` means no parameter in the incoming interval can satisfy this
/// axis; otherwise the returned interval is nonempty and captures exactly
/// the parameters that satisfy both the incoming interval and this axis.
fn clip_axis(lo: i64, hi: i64, o: i64, d: i64, ln: i64, ld: i64, un: i64, ud: i64) -> (res: Option<
    (i64, i64, i64, i64),
>)
    requires
        -COORD_LIMIT <= lo <= COORD_LIMIT,
        -COORD_LIMIT <= hi <= COORD_LIMIT,
        -COORD_LIMIT <= o <= COORD_LIMIT,
        -COORD_LIMIT <= d <= COORD_LIMIT,
        0 < ld <= COORD_LIMIT,
        0 < ud <= COORD_LIMIT,
        -NUM_LIMIT <= ln <= NUM_LIMIT,
        -NUM_LIMIT <= un <= NUM_LIMIT,
    ensures
        match res {
            None => forall|tn: int, td: int|
                td > 0 ==> !(rlt(ln as int, ld as int, tn, td) && rlt(tn, td, un as int, ud as int)
                    && strict_slab(lo as int, hi as int, o as int, d as int, tn, td)),
            Some((ln2, ld2, un2, ud2)) => {
                &&& 0 < ld2 <= COORD_LIMIT
                &&& 0 < ud2 <= COORD_LIMIT
                &&& -NUM_LIMIT <= ln2 <= NUM_LIMIT
                &&& -NUM_LIMIT <= un2 <= NUM_LIMIT
                &&& rlt(ln2 as int, ld2 as int, un2 as int, ud2 as int)
                &&& forall|tn: int, td: int|
                    td > 0 ==> ((rlt(ln2 as int, ld2 as int, tn, td) && rlt(
                        tn,
                        td,
                        un2 as int,
                        ud2 as int,
                    )) <==> (rlt(ln as int, ld as int, tn, td) && rlt(tn, td, un as int, ud as int)
                        && strict_slab(lo as int, hi as int, o as int, d as int, tn, td)))
            },
        },
{
    if d == 0 {
        if o < lo || o > hi {
            return None;
        }
        if rat_lt(ln, ld, un, ud) {
            return Some((ln, ld, un, ud));
        } else {
            proof {
                assert forall|tn: int, td: int|
                    td > 0 implies !(rlt(ln as int, ld as int, tn, td) && rlt(
                    tn,
                    td,
                    un as int,
                    ud as int,
                ) && strict_slab(lo as int, hi as int, o as int, d as int, tn, td)) by {
                    if rlt(ln as int, ld as int, tn, td) && rlt(tn, td, un as int, ud as int) {
                        lemma_rlt_trans(ln as int, ld as int, tn, td, un as int, ud as int);
                    }
                }
            }
            return None;
        }
    }
    let (t0n, t0d, t1n, t1d) = if d > 0 {
        ((lo - o) * SCALE, d, (hi - o) * SCALE, d)
    } else {
        ((o - hi) * SCALE, -d, (o - lo) * SCALE, -d)
    };
    let lower_grows = rat_lt(ln, ld, t0n, t0d);
    let (ln2, ld2) = if lower_grows {
        (t0n, t0d)
    } else {
        (ln, ld)
    };
    let upper_shrinks = rat_lt(t1n, t1d, un, ud);
    let (un2, ud2) = if upper_shrinks {
        (t1n, t1d)
    } else {
        (un, ud)
    };
    let alive = rat_lt(ln2, ld2, un2, ud2);
    proof {
        assert forall|tn: int, td: int|
            td > 0 implies ((rlt(ln2 as int, ld2 as int, tn, td) && rlt(
            tn,
            td,
            un2 as int,
            ud2 as int,
        )) <==> (rlt(ln as int, ld as int, tn, td) && rlt(tn, td, un as int, ud as int)
            && strict_slab(lo as int, hi as int, o as int, d as int, tn, td))) by {
            lemma_axis_iff(
                lo as int,
                hi as int,
                o as int,
                d as int,
                tn,
                td,
                t0n as int,
                t0d as int,
                t1n as int,
                t1d as int,
            );
            // The max of the two lower bounds is below tn/td exactly when
            // both are; dually for the min of the upper bounds.
            if lower_grows {
                if rlt(ln2 as int, ld2 as int, tn, td) {
                    lemma_rlt_trans(ln as int, ld as int, t0n as int, t0d as int, tn, td);
                }
            } else {
                if rlt(ln2 as int, ld2 as int, tn, td) {
                    lemma_rle_rlt_trans(t0n as int, t0d as int, ln as int, ld as int, tn, td);
                }
            }
            if upper_shrinks {
                if rlt(tn, td, un2 as int, ud2 as int) {
                    lemma_rlt_trans(tn, td, t1n as int, t1d as int, un as int, ud as int);
                }
            } else {
                if rlt(tn, td, un2 as int, ud2 as int) {
                    lemma_rlt_rle_trans(tn, td, un as int, ud as int, t1n as int, t1d as int);
                }
            }
        }
    }
    if alive {
        Some((ln2, ld2, un2, ud2))
    } else {
        proof {
            assert forall|tn: int, td: int|
                td > 0 implies !(rlt(ln as int, ld as int, tn, td) && rlt(
                tn,
                td,
                un as int,
                ud as int,
            ) && strict_slab(lo as int, hi as int, o as int, d as int, tn, td)) by {
                if rlt(ln as int, ld as int, tn, td) && rlt(tn, td, un as int, ud as int)
                    && strict_slab(lo as int, hi as int, o as int, d as int, tn, td) {
                    lemma_rlt_trans(ln2 as int, ld2 as int, tn, td, un2 as int, ud2 as int);
                }
            }
        }
        None
    }
}

/// Calculates a bounding box surrounding two separate bounding boxes: the
/// componentwise minimum of the min corners and maximum of the max corners.
pub fn calc_surrounding_box(
    box_1: &AxisAlignedBoundingBox,
    box_2: &AxisAlignedBoundingBox,
) -> (b: AxisAlignedBoundingBox)
    requires
        box_1.wf(),
        box_2.wf(),
    ensures
        b.wf(),
        b.subsumes(*box_1),
        b.subsumes(*box_2),
        b.min_bound.x == if box_1.min_bound.x <= box_2.min_bound.x {
            box_1.min_bound.x
        } else {
            box_2.min_bound.x
        },
        b.min_bound.y == if box_1.min_bound.y <= box_2.min_bound.y {
            box_1.min_bound.y
        } else {
            box_2.min_bound.y
        },
        b.min_bound.z == if box_1.min_bound.z <= box_2.min_bound.z {
            box_1.min_bound.z
        } else {
            box_2.min_bound.z
        },
        b.max_bound.x == if box_1.max_bound.x >= box_2.max_bound.x {
            box_1.max_bound.x
        } else {
            box_2.max_bound.x
        },
        b.max_bound.y == if box_1.max_bound.y >= box_2.max_bound.y {
            box_1.max_bound.y
        } else {
            box_2.max_bound.y
        },
        b.max_bound.z == if box_1.max_bound.z >= box_2.max_bound.z {
            box_1.max_bound.z
        } else {
            box_2.max_bound.z
        },
{
    let small_box = Vec3::new(
        imin(box_1.min_bound.x, box_2.min_bound.x),
        imin(box_1.min_bound.y, box_2.min_bound.y),
        imin(box_1.min_bound.z, box_2.min_bound.z),
    );
    let big_box = Vec3::new(
        imax(box_1.max_bound.x, box_2.max_bound.x),
        imax(box_1.max_bound.y, box_2.max_bound.y),
        imax(box_1.max_bound.z, box_2.max_bound.z),
    );
    AxisAlignedBoundingBox::new(small_box, big_box)
}

/// The surrounding box contains every point contained by either input box:
/// box union is monotone for point inclusion.
pub proof fn lemma_surrounding_box_contains(
    b1: AxisAlignedBoundingBox,
    b2: AxisAlignedBoundingBox,
    p: Vec3,
)
    requires
        b1.contains_point(p) || b2.contains_point(p),
    ensures
        spec_surrounding_box(b1, b2).contains_point(p),
{
}

/// The surrounding box of two boxes does not depend on their order.
pub proof fn lemma_surrounding_box_commutes(
    b1: AxisAlignedBoundingBox,
    b2: AxisAlignedBoundingBox,
    u12: AxisAlignedBoundingBox,
    u21: AxisAlignedBoundingBox,
)
    requires
        u12 == spec_surrounding_box(b1, b2),
        u21 == spec_surrounding_box(b2, b1),
    ensures
        u12 == u21,
{
}

/// The componentwise min/max box of two boxes, as `calc_surrounding_box`
/// computes it.
pub open spec fn spec_surrounding_box(
    b1: AxisAlignedBoundingBox,
    b2: AxisAlignedBoundingBox,
) -> AxisAlignedBoundingBox {
    AxisAlignedBoundingBox {
        min_bound: Vec3 {
            x: if b1.min_bound.x <= b2.min_bound.x { b1.min_bound.x } else { b2.min_bound.x },
            y: if b1.min_bound.y <= b2.min_bound.y { b1.min_bound.y } else { b2.min_bound.y },
            z: if b1.min_bound.z <= b2.min_bound.z { b1.min_bound.z } else { b2.min_bound.z },
        },
        max_bound: Vec3 {
            x: if b1.max_bound.x >= b2.max_bound.x { b1.max_bound.x } else { b2.max_bound.x },
            y: if b1.max_bound.y >= b2.max_bound.y { b1.max_bound.y } else { b2.max_bound.y },
            z: if b1.max_bound.z >= b2.max_bound.z { b1.max_bound.z } else { b2.max_bound.z },
        },
    }
}

/// A ray strictly inside a box at some parameter is strictly inside every
/// box that subsumes it at the same parameter.
pub proof fn lemma_subsumes_inside(
    outer: AxisAlignedBoundingBox,
    inner: AxisAlignedBoundingBox,
    r: Ray,
    tn: int,
    td: int,
)
    requires
        td > 0,
        outer.subsumes(inner),
        ray_inside_at(inner, r, tn, td),
    ensures
        ray_inside_at(outer, r, tn, td),
{
    lemma_subsumes_slab(outer.min_bound.x as int, outer.max_bound.x as int,
        inner.min_bound.x as int, inner.max_bound.x as int, r.origin.x as int,
        r.direction.x as int, tn, td);
    lemma_subsumes_slab(outer.min_bound.y as int, outer.max_bound.y as int,
        inner.min_bound.y as int, inner.max_bound.y as int, r.origin.y as int,
        r.direction.y as int, tn, td);
    lemma_subsumes_slab(outer.min_bound.z as int, outer.max_bound.z as int,
        inner.min_bound.z as int, inner.max_bound.z as int, r.origin.z as int,
        r.direction.z as int, tn, td);
}

/// Widening a slab keeps a strictly interior point strictly interior.
proof fn lemma_subsumes_slab(
    lo2: int,
    hi2: int,
    lo1: int,
    hi1: int,
    o: int,
    d: int,
    tn: int,
    td: int,
)
    by (nonlinear_arith)
    requires
        td > 0,
        lo2 <= lo1,
        hi1 <= hi2,
        strict_slab(lo1, hi1, o, d, tn, td),
    ensures
        strict_slab(lo2, hi2, o, d, tn, td),
{
}

/// A ray and its exact reverse (negated direction, origin unchanged, the
/// parameter interval mirrored) agree on whether they meet a box.
pub proof fn lemma_box_hit_reverse(
    b: AxisAlignedBoundingBox,
    r: Ray,
    rev: Ray,
    t_min: int,
    t_max: int,
)
    requires
        rev.origin == r.origin,
        rev.direction.x == -r.direction.x,
        rev.direction.y == -r.direction.y,
        rev.direction.z == -r.direction.z,
    ensures
        spec_box_hit(b, r, t_min, t_max) == spec_box_hit(b, rev, -t_max, -t_min),
{
    if spec_box_hit(b, r, t_min, t_max) {
        let (tn, td) = choose|tn: int, td: int|
            td > 0 && t_min * td < tn && tn < t_max * td && #[trigger] ray_inside_at(b, r, tn, td);
        lemma_reverse_inside(b, r, rev, tn, td);
        assert((-t_max) * td == -(t_max * td) && (-t_min) * td == -(t_min * td))
            by (nonlinear_arith);
        assert(-t_max * td < -tn && -tn < -t_min * td && ray_inside_at(b, rev, -tn, td));
    }
    if spec_box_hit(b, rev, -t_max, -t_min) {
        let (tn, td) = choose|tn: int, td: int|
            td > 0 && (-t_max) * td < tn && tn < (-t_min) * td && #[trigger] ray_inside_at(
                b,
                rev,
                tn,
                td,
            );
        lemma_reverse_inside(b, rev, r, tn, td);
        assert((-t_max) * td == -(t_max * td) && (-t_min) * td == -(t_min * td))
            by (nonlinear_arith);
        assert(t_min * td < -tn && -tn < t_max * td && ray_inside_at(b, r, -tn, td));
    }
}

/// Negating both the direction and the parameter leaves the ray's position
/// unchanged on every axis.
proof fn lemma_reverse_inside(
    b: AxisAlignedBoundingBox,
    r: Ray,
    rev: Ray,
    tn: int,
    td: int,
)
    requires
        td > 0,
        rev.origin == r.origin,
        rev.direction.x == -r.direction.x,
        rev.direction.y == -r.direction.y,
        rev.direction.z == -r.direction.z,
        ray_inside_at(b, r, tn, td),
    ensures
        ray_inside_at(b, rev, -tn, td),
{
    lemma_reverse_slab(b.min_bound.x as int, b.max_bound.x as int, r.origin.x as int,
        r.direction.x as int, tn, td);
    lemma_reverse_slab(b.min_bound.y as int, b.max_bound.y as int, r.origin.y as int,
        r.direction.y as int, tn, td);
    lemma_reverse_slab(b.min_bound.z as int, b.max_bound.z as int, r.origin.z as int,
        r.direction.z as int, tn, td);
}

/// One axis of the direction/parameter negation argument.
proof fn lemma_reverse_slab(lo: int, hi: int, o: int, d: int, tn: int, td: int)
    by (nonlinear_arith)
    requires
        td > 0,
        strict_slab(lo, hi, o, d, tn, td),
    ensures
        strict_slab(lo, hi, o, -d, -tn, td),
{
}

} // verus!
