//! Axis-aligned bounding boxes.

use vstd::prelude::*;

use crate::fixed::{smin_int as smin, smax_int as smax};
use crate::transform::{transform_bounded, tv_apply, Transform, TransformV};
use crate::vec3::{bounded, Vec3, V3};

verus! {

/// A box given by its two extreme corners; `min <= max` component-wise.
#[derive(Clone, Copy, Debug, PartialEq, Eq, Structural)]
pub struct AABB {
    pub min: Vec3,
    pub max: Vec3,
}

/// The model of an `AABB` over unbounded integers.
pub ghost struct AabbV {
    pub min: V3,
    pub max: V3,
}

impl View for AABB {
    type V = AabbV;

    open spec fn view(&self) -> AabbV {
        AabbV { min: self.min@, max: self.max@ }
    }
}

/// The box invariant: the corners are ordered component-wise.
pub open spec fn aabb_wf(b: AabbV) -> bool {
    &&& b.min.x <= b.max.x
    &&& b.min.y <= b.max.y
    &&& b.min.z <= b.max.z
}

/// Both corners within `[-wb, wb]` on every axis.
pub open spec fn aabb_bounded(b: AabbV, wb: int) -> bool {
    &&& bounded(b.min, wb)
    &&& bounded(b.max, wb)
}

/// The component-wise union of two boxes: the smallest box holding both.
pub open spec fn aabb_union(a: AabbV, b: AabbV) -> AabbV {
    AabbV {
        min: V3 {
            x: smin(a.min.x, b.min.x),
            y: smin(a.min.y, b.min.y),
            z: smin(a.min.z, b.min.z),
        },
        max: V3 {
            x: smax(a.max.x, b.max.x),
            y: smax(a.max.y, b.max.y),
            z: smax(a.max.z, b.max.z),
        },
    }
}

/// The corner of `b` selected by `i` in `0..8` (one bit per axis).
pub open spec fn aabb_corner(b: AabbV, i: int) -> V3 {
    V3 {
        x: if i % 2 == 0 {
            b.min.x
        } else {
            b.max.x
        },
        y: if (i / 2) % 2 == 0 {
            b.min.y
        } else {
            b.max.y
        },
        z: if (i / 4) % 2 == 0 {
            b.min.z
        } else {
            b.max.z
        },
    }
}

/// The least of eight values.
pub open spec fn smin8(
    a: int,
    b: int,
    c: int,
    d: int,
    e: int,
    f: int,
    g: int,
    h: int,
) -> int {
    smin(smin(smin(a, b), smin(c, d)), smin(smin(e, f), smin(g, h)))
}

/// The greatest of eight values.
pub open spec fn smax8(
    a: int,
    b: int,
    c: int,
    d: int,
    e: int,
    f: int,
    g: int,
    h: int,
) -> int {
    smax(smax(smax(a, b), smax(c, d)), smax(smax(e, f), smax(g, h)))
}

/// The envelope of eight points: the smallest box holding them all.
pub open spec fn env8_spec(
    c0: V3,
    c1: V3,
    c2: V3,
    c3: V3,
    c4: V3,
    c5: V3,
    c6: V3,
    c7: V3,
) -> AabbV {
    AabbV {
        min: V3 {
            x: smin8(c0.x, c1.x, c2.x, c3.x, c4.x, c5.x, c6.x, c7.x),
            y: smin8(c0.y, c1.y, c2.y, c3.y, c4.y, c5.y, c6.y, c7.y),
            z: smin8(c0.z, c1.z, c2.z, c3.z, c4.z, c5.z, c6.z, c7.z),
        },
        max: V3 {
            x: smax8(c0.x, c1.x, c2.x, c3.x, c4.x, c5.x, c6.x, c7.x),
            y: smax8(c0.y, c1.y, c2.y, c3.y, c4.y, c5.y, c6.y, c7.y),
            z: smax8(c0.z, c1.z, c2.z, c3.z, c4.z, c5.z, c6.z, c7.z),
        },
    }
}

/// The envelope of the eight transformed corners of `b` under `tr`: the
/// smallest axis-aligned box around the transformed box.
pub open spec fn aabb_transformed(b: AabbV, tr: TransformV) -> AabbV {
    env8_spec(
        tv_apply(tr, aabb_corner(b, 0)),
        tv_apply(tr, aabb_corner(b, 1)),
        tv_apply(tr, aabb_corner(b, 2)),
        tv_apply(tr, aabb_corner(b, 3)),
        tv_apply(tr, aabb_corner(b, 4)),
        tv_apply(tr, aabb_corner(b, 5)),
        tv_apply(tr, aabb_corner(b, 6)),
        tv_apply(tr, aabb_corner(b, 7)),
    )
}

/// Whether a point lies inside a box.
pub open spec fn aabb_contains(b: AabbV, p: V3) -> bool {
    &&& b.min.x <= p.x <= b.max.x
    &&& b.min.y <= p.y <= b.max.y
    &&& b.min.z <= p.z <= b.max.z
}

/// The envelope of eight points contains each of them.
pub proof fn lemma_env8_contains(
    c0: V3,
    c1: V3,
    c2: V3,
    c3: V3,
    c4: V3,
    c5: V3,
    c6: V3,
    c7: V3,
)
    ensures
        aabb_contains(env8_spec(c0, c1, c2, c3, c4, c5, c6, c7), c0),
        aabb_contains(env8_spec(c0, c1, c2, c3, c4, c5, c6, c7), c1),
        aabb_contains(env8_spec(c0, c1, c2, c3, c4, c5, c6, c7), c2),
        aabb_contains(env8_spec(c0, c1, c2, c3, c4, c5, c6, c7), c3),
        aabb_contains(env8_spec(c0, c1, c2, c3, c4, c5, c6, c7), c4),
        aabb_contains(env8_spec(c0, c1, c2, c3, c4, c5, c6, c7), c5),
        aabb_contains(env8_spec(c0, c1, c2, c3, c4, c5, c6, c7), c6),
        aabb_contains(env8_spec(c0, c1, c2, c3, c4, c5, c6, c7), c7),
{
}

/// The envelope of eight points is the smallest box around them: any box
/// containing all eight contains the envelope's corners too.
pub proof fn lemma_env8_minimal(
    c0: V3,
    c1: V3,
    c2: V3,
    c3: V3,
    c4: V3,
    c5: V3,
    c6: V3,
    c7: V3,
    other: AabbV,
)
    requires
        aabb_contains(other, c0),
        aabb_contains(other, c1),
        aabb_contains(other, c2),
        aabb_contains(other, c3),
        aabb_contains(other, c4),
        aabb_contains(other, c5),
        aabb_contains(other, c6),
        aabb_contains(other, c7),
    ensures
        ({
            let env = env8_spec(c0, c1, c2, c3, c4, c5, c6, c7);
            other.min.x <= env.min.x && other.min.y <= env.min.y && other.min.z <= env.min.z
                && env.max.x <= other.max.x && env.max.y <= other.max.y && env.max.z
                <= other.max.z
        }),
{
}

/// Taking the union with the same box twice equals taking it once.
pub proof fn lemma_union_idempotent(a: AabbV, b: AabbV)
    ensures
        aabb_union(aabb_union(a, b), b) == aabb_union(a, b),
{
}

/// The union of two boxes does not depend on their order.
pub proof fn lemma_union_commutative(a: AabbV, b: AabbV)
    ensures
        aabb_union(a, b) == aabb_union(b, a),
{
}

/// The union never shrinks either argument's bounds.
pub proof fn lemma_union_widens(a: AabbV, b: AabbV)
    ensures
        aabb_union(a, b).min.x <= a.min.x,
        aabb_union(a, b).min.y <= a.min.y,
        aabb_union(a, b).min.z <= a.min.z,
        aabb_union(a, b).max.x >= a.max.x,
        aabb_union(a, b).max.y >= a.max.y,
        aabb_union(a, b).max.z >= a.max.z,
        aabb_wf(a) && aabb_wf(b) ==> aabb_wf(aabb_union(a, b)),
{
}


/// The envelope of eight points: per-axis least and greatest coordinates.
#[verifier::rlimit(100)]
#[verifier::spinoff_prover]
fn envelope8(
    c0: Vec3,
    c1: Vec3,
    c2: Vec3,
    c3: Vec3,
    c4: Vec3,
    c5: Vec3,
    c6: Vec3,
    c7: Vec3,
) -> (r: AABB)
    ensures
        r@.min.x == smin8(c0@.x, c1@.x, c2@.x, c3@.x, c4@.x, c5@.x, c6@.x, c7@.x),
        r@.min.y == smin8(c0@.y, c1@.y, c2@.y, c3@.y, c4@.y, c5@.y, c6@.y, c7@.y),
        r@.min.z == smin8(c0@.z, c1@.z, c2@.z, c3@.z, c4@.z, c5@.z, c6@.z, c7@.z),
        r@.max.x == smax8(c0@.x, c1@.x, c2@.x, c3@.x, c4@.x, c5@.x, c6@.x, c7@.x),
        r@.max.y == smax8(c0@.y, c1@.y, c2@.y, c3@.y, c4@.y, c5@.y, c6@.y, c7@.y),
        r@.max.z == smax8(c0@.z, c1@.z, c2@.z, c3@.z, c4@.z, c5@.z, c6@.z, c7@.z),
        aabb_wf(r@),
{
    let minx = crate::fixed::minf(
        crate::fixed::minf(crate::fixed::minf(c0.x, c1.x), crate::fixed::minf(c2.x, c3.x)),
        crate::fixed::minf(crate::fixed::minf(c4.x, c5.x), crate::fixed::minf(c6.x, c7.x)),
    );
    let miny = crate::fixed::minf(
        crate::fixed::minf(crate::fixed::minf(c0.y, c1.y), crate::fixed::minf(c2.y, c3.y)),
        crate::fixed::minf(crate::fixed::minf(c4.y, c5.y), crate::fixed::minf(c6.y, c7.y)),
    );
    let minz = crate::fixed::minf(
        crate::fixed::minf(crate::fixed::minf(c0.z, c1.z), crate::fixed::minf(c2.z, c3.z)),
        crate::fixed::minf(crate::fixed::minf(c4.z, c5.z), crate::fixed::minf(c6.z, c7.z)),
    );
    let maxx = crate::fixed::maxf(
        crate::fixed::maxf(crate::fixed::maxf(c0.x, c1.x), crate::fixed::maxf(c2.x, c3.x)),
        crate::fixed::maxf(crate::fixed::maxf(c4.x, c5.x), crate::fixed::maxf(c6.x, c7.x)),
    );
    let maxy = crate::fixed::maxf(
        crate::fixed::maxf(crate::fixed::maxf(c0.y, c1.y), crate::fixed::maxf(c2.y, c3.y)),
        crate::fixed::maxf(crate::fixed::maxf(c4.y, c5.y), crate::fixed::maxf(c6.y, c7.y)),
    );
    let maxz = crate::fixed::maxf(
        crate::fixed::maxf(crate::fixed::maxf(c0.z, c1.z), crate::fixed::maxf(c2.z, c3.z)),
        crate::fixed::maxf(crate::fixed::maxf(c4.z, c5.z), crate::fixed::maxf(c6.z, c7.z)),
    );
    AABB { min: Vec3 { x: minx, y: miny, z: minz }, max: Vec3 { x: maxx, y: maxy, z: maxz } }
}

impl AABB {
    /// Builds a box from explicit corners.
    pub fn from_min_max(min: Vec3, max: Vec3) -> (r: AABB)
        ensures
            r@ == (AabbV { min: min@, max: max@ }),
    {
        AABB { min, max }
    }

    /// Builds a box around `origin` reaching `extents` on each axis;
    /// the extents must be strictly positive.
    pub fn from_origin_extents(origin: Vec3, extents: Vec3) -> (r: AABB)
        requires
            extents@.x > 0,
            extents@.y > 0,
            extents@.z > 0,
            bounded(origin@, 0x2000000000000000),
            bounded(extents@, 0x2000000000000000),
        ensures
            r@.min == crate::vec3::svsub(origin@, extents@),
            r@.max == crate::vec3::svadd(origin@, extents@),
            aabb_wf(r@),
    {
        AABB { min: origin.sub_v(&extents), max: origin.add_v(&extents) }
    }

    /// Widens this box to the union with `other`; bounds never shrink.
    pub fn stretch_to(&mut self, other: &AABB)
        ensures
            final(self)@ == aabb_union(old(self)@, other@),
    {
        if other.min.x < self.min.x {
            self.min.x = other.min.x;
        }
        if other.min.y < self.min.y {
            self.min.y = other.min.y;
        }
        if other.min.z < self.min.z {
            self.min.z = other.min.z;
        }
        if other.max.x > self.max.x {
            self.max.x = other.max.x;
        }
        if other.max.y > self.max.y {
            self.max.y = other.max.y;
        }
        if other.max.z > self.max.z {
            self.max.z = other.max.z;
        }
    }

    /// The smallest axis-aligned box around this box carried through `tr`:
    /// every one of the eight corners is transformed and enveloped.
    #[verifier::rlimit(100)]
    #[verifier::spinoff_prover]
    pub fn transformed(&self, tr: &Transform) -> (r: AABB)
        requires
            transform_bounded(tr@, 0x400000000),
            aabb_bounded(self@, 0x100000000),
        ensures
            r@ == aabb_transformed(self@, tr@),
            aabb_wf(r@),
            aabb_bounded(r@, 0x800000000),
    {
        let c0 = tr.apply(&Vec3 { x: self.min.x, y: self.min.y, z: self.min.z });
        let c1 = tr.apply(&Vec3 { x: self.max.x, y: self.min.y, z: self.min.z });
        let c2 = tr.apply(&Vec3 { x: self.min.x, y: self.max.y, z: self.min.z });
        let c3 = tr.apply(&Vec3 { x: self.max.x, y: self.max.y, z: self.min.z });
        let c4 = tr.apply(&Vec3 { x: self.min.x, y: self.min.y, z: self.max.z });
        let c5 = tr.apply(&Vec3 { x: self.max.x, y: self.min.y, z: self.max.z });
        let c6 = tr.apply(&Vec3 { x: self.min.x, y: self.max.y, z: self.max.z });
        let c7 = tr.apply(&Vec3 { x: self.max.x, y: self.max.y, z: self.max.z });
        proof {
            assert(aabb_corner(self@, 0) == (V3 { x: self@.min.x, y: self@.min.y, z: self@.min.z }));
            assert(aabb_corner(self@, 1) == (V3 { x: self@.max.x, y: self@.min.y, z: self@.min.z }));
            assert(aabb_corner(self@, 2) == (V3 { x: self@.min.x, y: self@.max.y, z: self@.min.z }));
            assert(aabb_corner(self@, 3) == (V3 { x: self@.max.x, y: self@.max.y, z: self@.min.z }));
            assert(aabb_corner(self@, 4) == (V3 { x: self@.min.x, y: self@.min.y, z: self@.max.z }));
            assert(aabb_corner(self@, 5) == (V3 { x: self@.max.x, y: self@.min.y, z: self@.max.z }));
            assert(aabb_corner(self@, 6) == (V3 { x: self@.min.x, y: self@.max.y, z: self@.max.z }));
            assert(aabb_corner(self@, 7) == (V3 { x: self@.max.x, y: self@.max.y, z: self@.max.z }));
        }
        let r = envelope8(c0, c1, c2, c3, c4, c5, c6, c7);
        proof {
            let tv = aabb_transformed(self@, tr@);
            assert(r@.min.x == tv.min.x);
            assert(r@.min.y == tv.min.y);
            assert(r@.min.z == tv.min.z);
            assert(r@.max.x == tv.max.x);
            assert(r@.max.y == tv.max.y);
            assert(r@.max.z == tv.max.z);
        }
        r
    }
}

} // verus!
