//! Wrapper intersectables: translation and rotation about the Y axis.
//!
//! Each wraps one inner intersectable; the hit logic (transform the ray
//! into the inner frame, delegate, transform the hit back) lives with the
//! scene tree's dispatcher.

use vstd::prelude::*;

verus! {

use crate::aabb::AxisAlignedBoundingBox;
use crate::hitable::Hitable;
use crate::num::{fmul, imax, imin, COORD_LIMIT, GEOM_LIMIT, SCALE};
use crate::vec3::Vec3;
use std::sync::Arc;

/// Wrapper struct that wraps a hitable and shifts it by a given offset.
pub struct Translate {
    pub hitable: Arc<Hitable>,
    pub offset: Vec3,
}

/// Wrapper struct that wraps a hitable and rotates it about the Y axis;
/// the rotation is given by the fixed-point sine and cosine of the angle,
/// and the bounding box of the rotated inner box is cached at
/// construction.
pub struct RotateY {
    pub hitable: Arc<Hitable>,
    pub sin_theta: i64,
    pub cos_theta: i64,
    pub bounding_box: Option<AxisAlignedBoundingBox>,
}

/// One rotated horizontal coordinate pair: the fixed-point rotation of
/// `(x, z)` about the vertical axis, each product floor-rounded and the
/// result clipped into the coordinate envelope.
pub open spec fn spec_rot_xz(sin_t: int, cos_t: int, x: int, z: int) -> (int, int) {
    (
        spec_clip((cos_t * x) / (SCALE as int) + (sin_t * z) / (SCALE as int)),
        spec_clip((-sin_t * x) / (SCALE as int) + (cos_t * z) / (SCALE as int)),
    )
}

/// A scalar clipped into the coordinate envelope.
pub open spec fn spec_clip(x: int) -> int {
    if x < -COORD_LIMIT {
        -COORD_LIMIT as int
    } else if x > COORD_LIMIT {
        COORD_LIMIT as int
    } else {
        x
    }
}

/// The axis-aligned box of the four rotated horizontal corners of a box,
/// widened by the box padding against the rotation's floor rounding (the
/// vertical extent passes through unchanged).
pub open spec fn spec_rotated_box(
    sin_t: int,
    cos_t: int,
    bb: AxisAlignedBoundingBox,
) -> AxisAlignedBoundingBox {
    let c00 = spec_rot_xz(sin_t, cos_t, bb.min_bound.x as int, bb.min_bound.z as int);
    let c10 = spec_rot_xz(sin_t, cos_t, bb.max_bound.x as int, bb.min_bound.z as int);
    let c01 = spec_rot_xz(sin_t, cos_t, bb.min_bound.x as int, bb.max_bound.z as int);
    let c11 = spec_rot_xz(sin_t, cos_t, bb.max_bound.x as int, bb.max_bound.z as int);
    AxisAlignedBoundingBox {
        min_bound: Vec3 {
            x: spec_clip(
                spec_min4(c00.0, c10.0, c01.0, c11.0) - crate::aabb::BOX_PAD,
            ) as i64,
            y: bb.min_bound.y,
            z: spec_clip(
                spec_min4(c00.1, c10.1, c01.1, c11.1) - crate::aabb::BOX_PAD,
            ) as i64,
        },
        max_bound: Vec3 {
            x: spec_clip(
                spec_max4(c00.0, c10.0, c01.0, c11.0) + crate::aabb::BOX_PAD,
            ) as i64,
            y: bb.max_bound.y,
            z: spec_clip(
                spec_max4(c00.1, c10.1, c01.1, c11.1) + crate::aabb::BOX_PAD,
            ) as i64,
        },
    }
}

/// The least of four scalars.
pub open spec fn spec_min4(a: int, b: int, c: int, d: int) -> int {
    let m1 = if a <= b { a } else { b };
    let m2 = if c <= d { c } else { d };
    if m1 <= m2 { m1 } else { m2 }
}

/// The greatest of four scalars.
pub open spec fn spec_max4(a: int, b: int, c: int, d: int) -> int {
    let m1 = if a >= b { a } else { b };
    let m2 = if c >= d { c } else { d };
    if m1 >= m2 { m1 } else { m2 }
}

/// Wrapper struct whose only purpose is to reverse its inner hitable's
/// surface normals.
pub struct FlipNormals {
    pub hitable: Arc<Hitable>,
}

impl FlipNormals {
    pub fn new(hitable: Arc<Hitable>) -> (f: FlipNormals)
        ensures
            f.hitable == hitable,
    {
        FlipNormals { hitable }
    }
}

impl Translate {
    /// Wraps `hitable`, shifted by `offset`.
    pub fn new(hitable: Arc<Hitable>, offset: Vec3) -> (t: Translate)
        requires
            offset.bounded(GEOM_LIMIT as int),
        ensures
            t.hitable == hitable,
            t.offset == offset,
    {
        Translate { hitable, offset }
    }
}

impl RotateY {
    /// Wraps `hitable`, rotated about the Y axis by the angle whose
    /// fixed-point sine and cosine are given. The cached box is the
    /// axis-aligned box of the inner box's rotated corners, widened by the
    /// box padding so the corner roundings never make it tighter than the
    /// rotated geometry away from the envelope edge; at the edge the clip
    /// can still cut it, which is why rotated nodes stay outside the
    /// deterministic class the pruning equivalence is proved for (their
    /// hits are pinned by the conjugation specification instead).
    #[verifier::rlimit(60)]
    pub fn new(hitable: Arc<Hitable>, sin_theta: i64, cos_theta: i64) -> (r: RotateY)
        requires
            -SCALE <= sin_theta <= SCALE,
            -SCALE <= cos_theta <= SCALE,
            hitable.wf(),
        ensures
            r.hitable == hitable,
            r.sin_theta == sin_theta,
            r.cos_theta == cos_theta,
            match r.bounding_box {
                Some(b) => b.wf(),
                None => true,
            },
            (*hitable).deterministic() ==> r.bounding_box == (match crate::hitable::spec_box(
                *hitable,
            ) {
                Some(bb) => Some(spec_rotated_box(sin_theta as int, cos_theta as int, bb)),
                None => None,
            }),
    {
        let inner_box = hitable.bounding_box(0, SCALE);
        match inner_box {
            None => RotateY { hitable, sin_theta, cos_theta, bounding_box: None },
            Some(bb) => {
                let (x00, z00) = rot_corner(sin_theta, cos_theta, bb.min_bound.x, bb.min_bound.z);
                let (x10, z10) = rot_corner(sin_theta, cos_theta, bb.max_bound.x, bb.min_bound.z);
                let (x01, z01) = rot_corner(sin_theta, cos_theta, bb.min_bound.x, bb.max_bound.z);
                let (x11, z11) = rot_corner(sin_theta, cos_theta, bb.max_bound.x, bb.max_bound.z);
                let rot_box = AxisAlignedBoundingBox {
                    min_bound: Vec3 {
                        x: clip_coord(imin(imin(x00, x10), imin(x01, x11)) - crate::aabb::BOX_PAD),
                        y: bb.min_bound.y,
                        z: clip_coord(imin(imin(z00, z10), imin(z01, z11)) - crate::aabb::BOX_PAD),
                    },
                    max_bound: Vec3 {
                        x: clip_coord(imax(imax(x00, x10), imax(x01, x11)) + crate::aabb::BOX_PAD),
                        y: bb.max_bound.y,
                        z: clip_coord(imax(imax(z00, z10), imax(z01, z11)) + crate::aabb::BOX_PAD),
                    },
                };
                RotateY { hitable, sin_theta, cos_theta, bounding_box: Some(rot_box) }
            },
        }
    }
}

/// Rotates one horizontal corner, exactly as `spec_rot_xz` states.
fn rot_corner(sin_theta: i64, cos_theta: i64, x: i64, z: i64) -> (res: (i64, i64))
    requires
        -SCALE <= sin_theta <= SCALE,
        -SCALE <= cos_theta <= SCALE,
        -COORD_LIMIT <= x <= COORD_LIMIT,
        -COORD_LIMIT <= z <= COORD_LIMIT,
    ensures
        (res.0 as int, res.1 as int) == spec_rot_xz(sin_theta as int, cos_theta as int, x as int,
            z as int),
        -COORD_LIMIT <= res.0 <= COORD_LIMIT,
        -COORD_LIMIT <= res.1 <= COORD_LIMIT,
{
    proof {
        lemma_rot_term(cos_theta as int, x as int);
        lemma_rot_term(sin_theta as int, z as int);
        lemma_rot_term(-sin_theta as int, x as int);
        lemma_rot_term(cos_theta as int, z as int);
    }
    let rx = clip_coord(fmul(cos_theta, x) + fmul(sin_theta, z));
    let rz = clip_coord(fmul(-sin_theta, x) + fmul(cos_theta, z));
    (rx, rz)
}

/// One rotation product, rescaled, stays within the coordinate envelope.
pub proof fn lemma_rot_term(c: int, x: int)
    requires
        -SCALE <= c <= SCALE,
        -COORD_LIMIT <= x <= COORD_LIMIT,
    ensures
        -COORD_LIMIT <= (c * x) / (SCALE as int) <= COORD_LIMIT,
{
    assert(-((COORD_LIMIT as int) * (SCALE as int)) <= c * x <= (COORD_LIMIT as int) * (
    SCALE as int)) by (nonlinear_arith)
        requires
            -SCALE <= c <= SCALE,
            -COORD_LIMIT <= x <= COORD_LIMIT,
    ;
    crate::vec3::lemma_ratio_bound(c * x, COORD_LIMIT as int, SCALE as int);
}

/// Clips a scalar into the coordinate envelope, exactly `spec_clip`.
pub fn clip_coord(x: i64) -> (r: i64)
    ensures
        r == spec_clip(x as int),
        -COORD_LIMIT <= r <= COORD_LIMIT,
        -COORD_LIMIT <= x <= COORD_LIMIT ==> r == x,
{
    imax(-COORD_LIMIT, imin(x, COORD_LIMIT))
}

} // verus!
