//! Axis-aligned rectangles in the three orientations, and the block built
//! from six of them.
//!
//! All three rectangle hit tests share one plane-crossing routine, mirrored
//! exactly in specification functions: the crossing parameter is the exact
//! floor of the plane distance over the direction component (a zero
//! component is a deterministic miss), and the in-plane coordinates are
//! tested against the rectangle's bounds, boundary included.

use vstd::prelude::*;

verus! {

use crate::hitable::Hitable;
use crate::material::{clone_material, Material};
use crate::transformations::FlipNormals;
use crate::num::{floor_div64, COORD_LIMIT, GEOM_LIMIT, SCALE};
use crate::ray::{spec_point_coord, Ray};
use crate::vec3::Vec3;
use std::sync::Arc;

/// Represents a rectangle aligned along the X-Y axis.
pub struct XYRect {
    pub material: Arc<Material>,
    pub x_0: i64,
    pub x_1: i64,
    pub y_0: i64,
    pub y_1: i64,
    pub k: i64,
}

/// Represents a rectangle aligned along the X-Z axis.
pub struct XZRect {
    pub material: Arc<Material>,
    pub x_0: i64,
    pub x_1: i64,
    pub z_0: i64,
    pub z_1: i64,
    pub k: i64,
}

/// Represents a rectangle aligned along the Y-Z axis.
pub struct YZRect {
    pub material: Arc<Material>,
    pub y_0: i64,
    pub y_1: i64,
    pub z_0: i64,
    pub z_1: i64,
    pub k: i64,
}

impl XYRect {
    pub open spec fn wf(self) -> bool {
        &&& -GEOM_LIMIT <= self.x_0 <= self.x_1 <= GEOM_LIMIT
        &&& -GEOM_LIMIT <= self.y_0 <= self.y_1 <= GEOM_LIMIT
        &&& -GEOM_LIMIT <= self.k <= GEOM_LIMIT
        &&& self.material.wf()
    }
}

impl XZRect {
    pub open spec fn wf(self) -> bool {
        &&& -GEOM_LIMIT <= self.x_0 <= self.x_1 <= GEOM_LIMIT
        &&& -GEOM_LIMIT <= self.z_0 <= self.z_1 <= GEOM_LIMIT
        &&& -GEOM_LIMIT <= self.k <= GEOM_LIMIT
        &&& self.material.wf()
    }
}

impl YZRect {
    pub open spec fn wf(self) -> bool {
        &&& -GEOM_LIMIT <= self.y_0 <= self.y_1 <= GEOM_LIMIT
        &&& -GEOM_LIMIT <= self.z_0 <= self.z_1 <= GEOM_LIMIT
        &&& -GEOM_LIMIT <= self.k <= GEOM_LIMIT
        &&& self.material.wf()
    }
}

/// The exact plane-crossing parameter: the floor of `(k - o) * SCALE / d`,
/// evaluated with a positive divisor in both sign cases.
pub open spec fn spec_plane_t(k: int, o: int, d: int) -> int {
    if d > 0 {
        ((k - o) * SCALE) / d
    } else {
        ((o - k) * SCALE) / (-d)
    }
}

/// The shared meaning of a rectangle hit, stated over one plane axis
/// (fixed coordinate `k`, ray components `oc`/`dc`) and two in-plane axes:
/// the crossing parameter strictly inside the query interval, the in-plane
/// point inside the bounds, and the texture coordinates as exact rescaled
/// offsets.
pub open spec fn spec_plane_hit(
    a0: int,
    a1: int,
    b0: int,
    b1: int,
    k: int,
    oa: int,
    ob: int,
    oc: int,
    da: int,
    db: int,
    dc: int,
    tmin: int,
    tmax: int,
) -> Option<(int, int, int, int, int, int)> {
    if dc == 0 || a1 <= a0 || b1 <= b0 {
        None
    } else {
        let t = spec_plane_t(k, oc, dc);
        if tmin < t && t < tmax {
            let pa = spec_point_coord(oa, da, t);
            let pb = spec_point_coord(ob, db, t);
            if a0 <= pa <= a1 && b0 <= pb <= b1 {
                let pc = spec_point_coord(oc, dc, t);
                let u = ((pa - a0) * SCALE) / (a1 - a0);
                let v = ((pb - b0) * SCALE) / (b1 - b0);
                Some((t, pa, pb, pc, u, v))
            } else {
                None
            }
        } else {
            None
        }
    }
}

/// The shared rectangle hit routine, exactly `spec_plane_hit`: a parallel
/// ray or a degenerate (zero-extent) rectangle is a deterministic miss.
/// On a hit the plane coordinate of the returned point lies within the
/// crossing rounding slack of the plane.
pub fn plane_hit(
    a0: i64,
    a1: i64,
    b0: i64,
    b1: i64,
    k: i64,
    oa: i64,
    ob: i64,
    oc: i64,
    da: i64,
    db: i64,
    dc: i64,
    t_min: i64,
    t_max: i64,
) -> (res: Option<(i64, i64, i64, i64, i64, i64)>)
    requires
        -GEOM_LIMIT <= a0 <= GEOM_LIMIT,
        -GEOM_LIMIT <= a1 <= GEOM_LIMIT,
        -GEOM_LIMIT <= b0 <= GEOM_LIMIT,
        -GEOM_LIMIT <= b1 <= GEOM_LIMIT,
        -GEOM_LIMIT <= k <= GEOM_LIMIT,
        -COORD_LIMIT <= oa <= COORD_LIMIT,
        -COORD_LIMIT <= ob <= COORD_LIMIT,
        -COORD_LIMIT <= oc <= COORD_LIMIT,
        -COORD_LIMIT <= da <= COORD_LIMIT,
        -COORD_LIMIT <= db <= COORD_LIMIT,
        -COORD_LIMIT <= dc <= COORD_LIMIT,
        -COORD_LIMIT <= t_min <= COORD_LIMIT,
        -COORD_LIMIT <= t_max <= COORD_LIMIT,
    ensures
        ({
            let sp = spec_plane_hit(a0 as int, a1 as int, b0 as int, b1 as int, k as int,
                oa as int, ob as int, oc as int, da as int, db as int, dc as int, t_min as int,
                t_max as int);
            &&& match (res, sp) {
                (Some((t, pa, pb, pc, u, v)), Some((st, sa, sb, sc, su, sv))) => {
                    &&& t == st
                    &&& pa == sa
                    &&& pb == sb
                    &&& pc == sc
                    &&& u == su
                    &&& v == sv
                },
                (None, None) => true,
                _ => false,
            }
            &&& res matches Some((t, pa, pb, pc, u, v)) ==> {
                &&& t_min < t < t_max
                &&& a0 <= pa <= a1
                &&& b0 <= pb <= b1
                &&& k - 2050 <= pc <= k + 2050
                &&& 0 <= u <= SCALE
                &&& 0 <= v <= SCALE
            }
        }),
{
    if dc == 0 || a1 <= a0 || b1 <= b0 {
        return None;
    }
    let t = if dc > 0 {
        floor_div64((k - oc) * SCALE, dc)
    } else {
        floor_div64((oc - k) * SCALE, -dc)
    };
    if t_min < t && t < t_max {
        let pa = crate::ray::point_coord(oa, da, t);
        let pb = crate::ray::point_coord(ob, db, t);
        if a0 <= pa && pa <= a1 && b0 <= pb && pb <= b1 {
            let pc = crate::ray::point_coord(oc, dc, t);
            proof {
                lemma_plane_coord(oc as int, dc as int, k as int, t as int);
                lemma_unit_offset(pa as int, a0 as int, a1 as int);
                lemma_unit_offset(pb as int, b0 as int, b1 as int);
            }
            let u = floor_div64((pa - a0) * SCALE, a1 - a0);
            let v = floor_div64((pb - b0) * SCALE, b1 - b0);
            Some((t, pa, pb, pc, u, v))
        } else {
            None
        }
    } else {
        None
    }
}

/// A rescaled offset within a nonempty range lies in the unit interval.
proof fn lemma_unit_offset(p: int, a0: int, a1: int)
    requires
        a0 <= p <= a1,
        a0 < a1,
    ensures
        0 <= ((p - a0) * SCALE) / (a1 - a0) <= SCALE,
{
    let w = a1 - a0;
    assert(0 <= (p - a0) * SCALE <= (SCALE as int) * w) by (nonlinear_arith)
        requires
            a0 <= p <= a1,
            w == a1 - a0,
            0 < w,
    ;
    crate::vec3::lemma_ratio_bound((p - a0) * SCALE, SCALE as int, w);
    vstd::arithmetic::div_mod::lemma_div_pos_is_pos((p - a0) * SCALE, w);
}

/// The point formed at the floor-rounded plane-crossing parameter lies
/// within the crossing rounding slack of the plane itself.
pub proof fn lemma_plane_coord(o: int, d: int, k: int, t: int)
    requires
        d != 0,
        -COORD_LIMIT <= o <= COORD_LIMIT,
        -COORD_LIMIT <= d <= COORD_LIMIT,
        -COORD_LIMIT <= k <= COORD_LIMIT,
        t == spec_plane_t(k, o, d),
    ensures
        k - 2050 <= o + (t * d) / (SCALE as int) <= k + 2050,
{
    let s = SCALE as int;
    if d > 0 {
        let a = (k - o) * s;
        vstd::arithmetic::div_mod::lemma_fundamental_div_mod(a, d);
        vstd::arithmetic::div_mod::lemma_mod_bound(a, d);
        let r1 = a % d;
        assert(t * d == a - r1) by (nonlinear_arith)
            requires
                a == d * (a / d) + r1,
                t == a / d,
        ;
        // a - r1 lies in (a - d, a]; divide through by the scale.
        assert(s * (k - o - 2048) <= a - r1 && a - r1 <= s * (k - o)) by (nonlinear_arith)
            requires
                a == (k - o) * s,
                0 <= r1 < d,
                d <= COORD_LIMIT,
                s == SCALE as int,
                COORD_LIMIT == 2048 * SCALE,
        ;
        vstd::arithmetic::div_mod::lemma_div_is_ordered(s * (k - o - 2048), a - r1, s);
        vstd::arithmetic::div_mod::lemma_div_is_ordered(a - r1, s * (k - o), s);
        vstd::arithmetic::div_mod::lemma_div_multiples_vanish(k - o - 2048, s);
        vstd::arithmetic::div_mod::lemma_div_multiples_vanish(k - o, s);
    } else {
        let dd = -d;
        let b = (o - k) * s;
        vstd::arithmetic::div_mod::lemma_fundamental_div_mod(b, dd);
        vstd::arithmetic::div_mod::lemma_mod_bound(b, dd);
        let r2 = b % dd;
        assert(t * d == (k - o) * s + r2) by (nonlinear_arith)
            requires
                b == dd * (b / dd) + r2,
                t == b / dd,
                dd == -d,
                b == (o - k) * s,
        ;
        assert(s * (k - o) <= (k - o) * s + r2 && (k - o) * s + r2 <= s * (k - o + 2048))
            by (nonlinear_arith)
            requires
                0 <= r2 < dd,
                dd <= COORD_LIMIT,
                s == SCALE as int,
                COORD_LIMIT == 2048 * SCALE,
        ;
        vstd::arithmetic::div_mod::lemma_div_is_ordered(s * (k - o), (k - o) * s + r2, s);
        vstd::arithmetic::div_mod::lemma_div_is_ordered((k - o) * s + r2, s * (k - o + 2048), s);
        vstd::arithmetic::div_mod::lemma_div_multiples_vanish(k - o, s);
        vstd::arithmetic::div_mod::lemma_div_multiples_vanish(k - o + 2048, s);
    }
}

/// The six faces of the cuboid `[p_min, p_max]` with the given shared
/// material, in construction order; the min-side face of each axis pair is
/// wrapped so that its normal points out of the block.
pub open spec fn spec_block_sides(p_min: Vec3, p_max: Vec3, material: Arc<Material>) -> Seq<
    Arc<Hitable>,
> {
    seq![
        Arc::new(
            Hitable::YZ(
                YZRect {
                    material: material,
                    y_0: p_min.y,
                    y_1: p_max.y,
                    z_0: p_min.z,
                    z_1: p_max.z,
                    k: p_max.x,
                },
            ),
        ),
        Arc::new(
            Hitable::Flip(
                FlipNormals {
                    hitable: Arc::new(
                        Hitable::YZ(
                            YZRect {
                                material: material,
                                y_0: p_min.y,
                                y_1: p_max.y,
                                z_0: p_min.z,
                                z_1: p_max.z,
                                k: p_min.x,
                            },
                        ),
                    ),
                },
            ),
        ),
        Arc::new(
            Hitable::XY(
                XYRect {
                    material: material,
                    x_0: p_min.x,
                    x_1: p_max.x,
                    y_0: p_min.y,
                    y_1: p_max.y,
                    k: p_max.z,
                },
            ),
        ),
        Arc::new(
            Hitable::Flip(
                FlipNormals {
                    hitable: Arc::new(
                        Hitable::XY(
                            XYRect {
                                material: material,
                                x_0: p_min.x,
                                x_1: p_max.x,
                                y_0: p_min.y,
                                y_1: p_max.y,
                                k: p_min.z,
                            },
                        ),
                    ),
                },
            ),
        ),
        Arc::new(
            Hitable::Flip(
                FlipNormals {
                    hitable: Arc::new(
                        Hitable::XZ(
                            XZRect {
                                material: material,
                                x_0: p_min.x,
                                x_1: p_max.x,
                                z_0: p_min.z,
                                z_1: p_max.z,
                                k: p_min.y,
                            },
                        ),
                    ),
                },
            ),
        ),
        Arc::new(
            Hitable::XZ(
                XZRect {
                    material: material,
                    x_0: p_min.x,
                    x_1: p_max.x,
                    z_0: p_min.z,
                    z_1: p_max.z,
                    k: p_max.y,
                },
            ),
        ),
    ]
}

/// Represents a block (a six-sided cuboid): six rectangles wrapped as a
/// list, with one face of each axis pair flipped so every normal points
/// out of the block.
pub struct AxisAlignedBlock {
    pub p_min: Vec3,
    pub p_max: Vec3,
    pub sides: crate::hitable::HitableList,
}

impl AxisAlignedBlock {
    /// Constructs a new block between the two corner points with the given
    /// material on all six faces.
    pub fn new(p_min: Vec3, p_max: Vec3, material: Arc<Material>) -> (b: AxisAlignedBlock)
        requires
            p_min.bounded(GEOM_LIMIT as int),
            p_max.bounded(GEOM_LIMIT as int),
            p_min.x <= p_max.x,
            p_min.y <= p_max.y,
            p_min.z <= p_max.z,
            material.wf(),
        ensures
            b.p_min == p_min,
            b.p_max == p_max,
            crate::hitable::wf_seq(b.sides.list@),
            b.sides.list@.len() == 6,
            b.sides.list@ =~= spec_block_sides(p_min, p_max, material),
    {
        let left_wall = Arc::new(
            Hitable::YZ(
                YZRect {
                    material: clone_material(&material),
                    y_0: p_min.y,
                    y_1: p_max.y,
                    z_0: p_min.z,
                    z_1: p_max.z,
                    k: p_max.x,
                },
            ),
        );
        let right_inner = Arc::new(
            Hitable::YZ(
                YZRect {
                    material: clone_material(&material),
                    y_0: p_min.y,
                    y_1: p_max.y,
                    z_0: p_min.z,
                    z_1: p_max.z,
                    k: p_min.x,
                },
            ),
        );
        let right_wall = Arc::new(Hitable::Flip(FlipNormals { hitable: right_inner }));
        let back_wall = Arc::new(
            Hitable::XY(
                XYRect {
                    material: clone_material(&material),
                    x_0: p_min.x,
                    x_1: p_max.x,
                    y_0: p_min.y,
                    y_1: p_max.y,
                    k: p_max.z,
                },
            ),
        );
        let front_inner = Arc::new(
            Hitable::XY(
                XYRect {
                    material: clone_material(&material),
                    x_0: p_min.x,
                    x_1: p_max.x,
                    y_0: p_min.y,
                    y_1: p_max.y,
                    k: p_min.z,
                },
            ),
        );
        let front_wall = Arc::new(Hitable::Flip(FlipNormals { hitable: front_inner }));
        let floor_inner = Arc::new(
            Hitable::XZ(
                XZRect {
                    material: clone_material(&material),
                    x_0: p_min.x,
                    x_1: p_max.x,
                    z_0: p_min.z,
                    z_1: p_max.z,
                    k: p_min.y,
                },
            ),
        );
        let floor = Arc::new(Hitable::Flip(FlipNormals { hitable: floor_inner }));
        let ceiling = Arc::new(
            Hitable::XZ(
                XZRect {
                    material,
                    x_0: p_min.x,
                    x_1: p_max.x,
                    z_0: p_min.z,
                    z_1: p_max.z,
                    k: p_max.y,
                },
            ),
        );
        let mut list: Vec<Arc<Hitable>> = Vec::new();
        proof {
            assert(crate::hitable::wf_seq(list@));
            assert((*left_wall).wf());
            assert((*right_inner).wf());
            assert((*right_wall).wf());
            assert((*back_wall).wf());
            assert((*front_inner).wf());
            assert((*front_wall).wf());
            assert((*floor_inner).wf());
            assert((*floor).wf());
            assert((*ceiling).wf());
        }
        crate::hitable::push_wf_element(&mut list, left_wall);
        crate::hitable::push_wf_element(&mut list, right_wall);
        crate::hitable::push_wf_element(&mut list, back_wall);
        crate::hitable::push_wf_element(&mut list, front_wall);
        crate::hitable::push_wf_element(&mut list, floor);
        crate::hitable::push_wf_element(&mut list, ceiling);
        AxisAlignedBlock { p_min, p_max, sides: crate::hitable::HitableList { list } }
    }
}

} // verus!
