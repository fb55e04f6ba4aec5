//! Rigid transforms: a rotation, kept as three matrix rows, and a
//! translation.  Objects store the inverse (world-to-local) transform; the
//! inverse of a rotation is its transpose, so inversion is exact except for
//! the rescaling of the translation.

use vstd::prelude::*;

use crate::fixed::SCALE;
use crate::vec3::{bounded, svdot, svneg, Vec3, V3};

verus! {

/// Rotation rows plus translation: maps `p` to `rows * p + t`.
#[derive(Clone, Copy, Debug, PartialEq, Eq, Structural)]
pub struct Transform {
    pub r0: Vec3,
    pub r1: Vec3,
    pub r2: Vec3,
    pub t: Vec3,
}

/// The model of a `Transform` over unbounded integers.
pub ghost struct TransformV {
    pub r0: V3,
    pub r1: V3,
    pub r2: V3,
    pub t: V3,
}

impl View for Transform {
    type V = TransformV;

    open spec fn view(&self) -> TransformV {
        TransformV { r0: self.r0@, r1: self.r1@, r2: self.r2@, t: self.t@ }
    }
}

/// Rotation rows within one unit, translation within `tb`.
pub open spec fn transform_bounded(tr: TransformV, tb: int) -> bool {
    &&& bounded(tr.r0, SCALE as int)
    &&& bounded(tr.r1, SCALE as int)
    &&& bounded(tr.r2, SCALE as int)
    &&& bounded(tr.t, tb)
}

/// The transform applied to a point: rotate, then translate.
pub open spec fn tv_apply(tr: TransformV, p: V3) -> V3 {
    V3 {
        x: svdot(tr.r0, p) + tr.t.x,
        y: svdot(tr.r1, p) + tr.t.y,
        z: svdot(tr.r2, p) + tr.t.z,
    }
}

/// The transposed rotation: rows become columns.
pub open spec fn tv_transpose_rows(tr: TransformV) -> (V3, V3, V3) {
    (
        V3 { x: tr.r0.x, y: tr.r1.x, z: tr.r2.x },
        V3 { x: tr.r0.y, y: tr.r1.y, z: tr.r2.y },
        V3 { x: tr.r0.z, y: tr.r1.z, z: tr.r2.z },
    )
}

/// The inverse of a rigid transform: the transposed rotation, and the
/// negated rotated translation.
pub open spec fn tv_inverse(tr: TransformV) -> TransformV {
    let (c0, c1, c2) = tv_transpose_rows(tr);
    TransformV {
        r0: c0,
        r1: c1,
        r2: c2,
        t: svneg(V3 { x: svdot(c0, tr.t), y: svdot(c1, tr.t), z: svdot(c2, tr.t) }),
    }
}

impl Transform {
    /// Builds a transform from rotation rows and a translation.
    pub fn new(r0: Vec3, r1: Vec3, r2: Vec3, t: Vec3) -> (r: Transform)
        ensures
            r@ == (TransformV { r0: r0@, r1: r1@, r2: r2@, t: t@ }),
    {
        Transform { r0, r1, r2, t }
    }

    /// Applies the transform to a point.
    pub fn apply(&self, p: &Vec3) -> (r: Vec3)
        requires
            transform_bounded(self@, 0x400000000),
            bounded(p@, 0x100000000),
        ensures
            r@ == tv_apply(self@, p@),
            bounded(r@, 0x800000000),
    {
        proof {
            crate::vec3::lemma_svdot_bound(self@.r0, p@, SCALE as int, 0x100000000);
            crate::vec3::lemma_svdot_bound(self@.r1, p@, SCALE as int, 0x100000000);
            crate::vec3::lemma_svdot_bound(self@.r2, p@, SCALE as int, 0x100000000);
            assert((3 * (65536 * 0x100000000int)) / 65536int == 0x300000000int);
        }
        let dx = self.r0.dot(p);
        let dy = self.r1.dot(p);
        let dz = self.r2.dot(p);
        Vec3 { x: dx + self.t.x, y: dy + self.t.y, z: dz + self.t.z }
    }

    /// The inverse transform, valid for rotation-plus-translation transforms.
    pub fn inverse(&self) -> (r: Transform)
        requires
            transform_bounded(self@, 0x80000000),
        ensures
            r@ == tv_inverse(self@),
            transform_bounded(r@, 0x180000000),
    {
        let c0 = Vec3 { x: self.r0.x, y: self.r1.x, z: self.r2.x };
        let c1 = Vec3 { x: self.r0.y, y: self.r1.y, z: self.r2.y };
        let c2 = Vec3 { x: self.r0.z, y: self.r1.z, z: self.r2.z };
        proof {
            crate::vec3::lemma_svdot_bound(c0@, self@.t, SCALE as int, 0x80000000);
            crate::vec3::lemma_svdot_bound(c1@, self@.t, SCALE as int, 0x80000000);
            crate::vec3::lemma_svdot_bound(c2@, self@.t, SCALE as int, 0x80000000);
            crate::fixed::lemma_div_exact(65536int, 0x180000000int);
            assert(3 * (65536int * 0x80000000int) == 65536int * 0x180000000int);
        }
        let tx = c0.dot(&self.t);
        let ty = c1.dot(&self.t);
        let tz = c2.dot(&self.t);
        Transform { r0: c0, r1: c1, r2: c2, t: Vec3 { x: -tx, y: -ty, z: -tz } }
    }
}

/// The identity transform.
pub fn id() -> (r: Transform)
    ensures
        r@.r0 == (V3 { x: SCALE as int, y: 0, z: 0 }),
        r@.r1 == (V3 { x: 0, y: SCALE as int, z: 0 }),
        r@.r2 == (V3 { x: 0, y: 0, z: SCALE as int }),
        r@.t == (V3 { x: 0, y: 0, z: 0 }),
        transform_bounded(r@, 0),
{
    Transform {
        r0: Vec3 { x: SCALE, y: 0, z: 0 },
        r1: Vec3 { x: 0, y: SCALE, z: 0 },
        r2: Vec3 { x: 0, y: 0, z: SCALE },
        t: Vec3 { x: 0, y: 0, z: 0 },
    }
}

} // verus!
