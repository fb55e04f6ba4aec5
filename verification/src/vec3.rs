//! Three-component vectors of fixed-point scalars.
//!
//! The mathematical model of a `Vec3` is a `V3`, the same triple over
//! unbounded integers; every operation's result is stated exactly over it.

use vstd::prelude::*;

use crate::fixed::{
    abs1, divt, fmul, sqrt_floor, SCALE, divt_i128, fmul_i64, isqrt_u128, lemma_abs_mul,
    lemma_divt_abs_div, lemma_divt_abs_le, lemma_mul_abs_bound, lemma_sqrt_floor_bracket,
};

verus! {

/// A point or direction: three raw fixed-point components.
#[derive(Clone, Copy, Debug, PartialEq, Eq, Structural)]
pub struct Vec3 {
    pub x: i64,
    pub y: i64,
    pub z: i64,
}

/// The model of a `Vec3`: the same components as unbounded integers.
pub ghost struct V3 {
    pub x: int,
    pub y: int,
    pub z: int,
}

impl View for Vec3 {
    type V = V3;

    open spec fn view(&self) -> V3 {
        V3 { x: self.x as int, y: self.y as int, z: self.z as int }
    }
}

/// The squared length of a direction considered unit: within six
/// smallest steps of exactly one (the worst truncation error of the
/// integer normalization).
pub const UNIT_NORM2_MIN: i64 = 65536 * 65536 - 6 * 65536;

/// The upper edge of the unit band.
pub const UNIT_NORM2_MAX: i64 = 65536 * 65536 + 6 * 65536;

/// A unit direction: components within one unit and squared length inside
/// the unit band.
pub open spec fn unit_dir(d: V3) -> bool {
    &&& bounded(d, SCALE as int)
    &&& UNIT_NORM2_MIN <= svnorm2(d) <= UNIT_NORM2_MAX
}

/// Every component within `[-b, b]`.
pub open spec fn bounded(v: V3, b: int) -> bool {
    &&& -b <= v.x <= b
    &&& -b <= v.y <= b
    &&& -b <= v.z <= b
}

/// Component-wise sum.
pub open spec fn svadd(a: V3, b: V3) -> V3 {
    V3 { x: a.x + b.x, y: a.y + b.y, z: a.z + b.z }
}

/// Component-wise difference.
pub open spec fn svsub(a: V3, b: V3) -> V3 {
    V3 { x: a.x - b.x, y: a.y - b.y, z: a.z - b.z }
}

/// Component-wise negation.
pub open spec fn svneg(a: V3) -> V3 {
    V3 { x: -a.x, y: -a.y, z: -a.z }
}

/// Scaling by a raw scalar.
pub open spec fn svmul_t(a: V3, t: int) -> V3 {
    V3 { x: fmul(a.x, t), y: fmul(a.y, t), z: fmul(a.z, t) }
}

/// The dot product: products summed before the single rescaling division.
pub open spec fn svdot(a: V3, b: V3) -> int {
    divt(a.x * b.x + a.y * b.y + a.z * b.z, SCALE as int)
}

/// The cross product, each component rescaled once.
pub open spec fn svcross(a: V3, b: V3) -> V3 {
    V3 {
        x: divt(a.y * b.z - a.z * b.y, SCALE as int),
        y: divt(a.z * b.x - a.x * b.z, SCALE as int),
        z: divt(a.x * b.y - a.y * b.x, SCALE as int),
    }
}

/// The squared length, kept at the doubled scale (no rescaling division).
pub open spec fn svnorm2(a: V3) -> int {
    a.x * a.x + a.y * a.y + a.z * a.z
}

/// The length as a raw scalar: the rounded-down root of the squared length.
pub open spec fn svlen(a: V3) -> int {
    sqrt_floor(svnorm2(a))
}

/// The unit vector along `a`: each component divided by the length.
pub open spec fn svnormalize(a: V3) -> V3 {
    V3 {
        x: divt(a.x * (SCALE as int), svlen(a)),
        y: divt(a.y * (SCALE as int), svlen(a)),
        z: divt(a.z * (SCALE as int), svlen(a)),
    }
}

/// A square is never negative.
proof fn lemma_square_nonneg(a: int)
    by (nonlinear_arith)
    ensures
        a * a >= 0,
{
}

/// The squared length bounds each component's square.
proof fn lemma_component_le_len(c: int, n2: int, len: int)
    by (nonlinear_arith)
    requires
        c * c <= n2,
        len >= 0,
        n2 < (len + 1) * (len + 1),
    ensures
        -len <= c <= len,
{
}

/// `svnorm2` of a vector with components in `[-b, b]` is at most `3 * b * b`.
pub proof fn lemma_norm2_bound(a: V3, b: int)
    requires
        bounded(a, b),
        b >= 0,
    ensures
        0 <= svnorm2(a) <= 3 * (b * b),
{
    lemma_square_nonneg(a.x);
    lemma_square_nonneg(a.y);
    lemma_square_nonneg(a.z);
    lemma_mul_abs_bound(a.x, a.x, b, b);
    lemma_mul_abs_bound(a.y, a.y, b, b);
    lemma_mul_abs_bound(a.z, a.z, b, b);
}

/// The dot product of bounded vectors is bounded by `3 * ab * bb`.
pub proof fn lemma_svdot_bound(a: V3, b: V3, ab: int, bb: int)
    requires
        bounded(a, ab),
        bounded(b, bb),
        ab >= 0,
        bb >= 0,
    ensures
        -(3 * (ab * bb)) <= a.x * b.x + a.y * b.y + a.z * b.z <= 3 * (ab * bb),
        -((3 * (ab * bb)) / 65536) <= svdot(a, b) <= (3 * (ab * bb)) / 65536,
        -(3 * (ab * bb)) <= svdot(a, b) <= 3 * (ab * bb),
{
    lemma_mul_abs_bound(a.x, b.x, ab, bb);
    lemma_mul_abs_bound(a.y, b.y, ab, bb);
    lemma_mul_abs_bound(a.z, b.z, ab, bb);
    lemma_divt_abs_div(a.x * b.x + a.y * b.y + a.z * b.z, SCALE as int, 3 * (ab * bb));
}

impl Vec3 {
    /// Builds a vector from raw components.
    pub fn new(x: i64, y: i64, z: i64) -> (r: Vec3)
        ensures
            r@ == (V3 { x: x as int, y: y as int, z: z as int }),
    {
        Vec3 { x, y, z }
    }

    /// The zero vector.
    pub fn zero() -> (r: Vec3)
        ensures
            r@ == (V3 { x: 0, y: 0, z: 0 }),
    {
        Vec3 { x: 0, y: 0, z: 0 }
    }

    /// Component-wise sum.
    pub fn add_v(&self, o: &Vec3) -> (r: Vec3)
        requires
            bounded(self@, 0x2000000000000000),
            bounded(o@, 0x2000000000000000),
        ensures
            r@ == svadd(self@, o@),
    {
        Vec3 { x: self.x + o.x, y: self.y + o.y, z: self.z + o.z }
    }

    /// Component-wise difference.
    pub fn sub_v(&self, o: &Vec3) -> (r: Vec3)
        requires
            bounded(self@, 0x2000000000000000),
            bounded(o@, 0x2000000000000000),
        ensures
            r@ == svsub(self@, o@),
    {
        Vec3 { x: self.x - o.x, y: self.y - o.y, z: self.z - o.z }
    }

    /// Component-wise negation.
    pub fn neg_v(&self) -> (r: Vec3)
        requires
            bounded(self@, 0x2000000000000000),
        ensures
            r@ == svneg(self@),
    {
        Vec3 { x: -self.x, y: -self.y, z: -self.z }
    }

    /// Scaling by a raw scalar.
    pub fn mul_t(&self, t: i64) -> (r: Vec3)
        requires
            bounded(self@, 0x2000000000),
            -0x2000000000 <= t <= 0x2000000000,
        ensures
            r@ == svmul_t(self@, t as int),
    {
        proof {
            lemma_mul_abs_bound(self@.x, t as int, 0x2000000000, 0x2000000000);
            lemma_mul_abs_bound(self@.y, t as int, 0x2000000000, 0x2000000000);
            lemma_mul_abs_bound(self@.z, t as int, 0x2000000000, 0x2000000000);
            lemma_abs_mul(self@.x, t as int);
            lemma_abs_mul(self@.y, t as int);
            lemma_abs_mul(self@.z, t as int);
        }
        Vec3 { x: fmul_i64(self.x, t), y: fmul_i64(self.y, t), z: fmul_i64(self.z, t) }
    }

    /// The dot product.
    pub fn dot(&self, o: &Vec3) -> (r: i64)
        requires
            bounded(self@, 0x4000000000),
            bounded(o@, 0x4000000000),
        ensures
            r == svdot(self@, o@),
            -0x3000000000000000 <= r <= 0x3000000000000000,
    {
        proof {
            lemma_mul_abs_bound(self@.x, o@.x, 0x4000000000, 0x4000000000);
            lemma_mul_abs_bound(self@.y, o@.y, 0x4000000000, 0x4000000000);
            lemma_mul_abs_bound(self@.z, o@.z, 0x4000000000, 0x4000000000);
        }
        let s: i128 = (self.x as i128) * (o.x as i128) + (self.y as i128) * (o.y as i128) + (
        self.z as i128) * (o.z as i128);
        let q = divt_i128(s, 65536);
        proof {
            lemma_divt_abs_div(s as int, 65536, 0x30000000000000000000int);
            assert(0x30000000000000000000int / 65536int == 0x3000000000000000int);
        }
        q as i64
    }

    /// The dot product over wide intermediates, for operands past the
    /// narrow bound of `dot`.
    pub fn dot_wide(&self, o: &Vec3) -> (r: i128)
        requires
            bounded(self@, 0x2000000000000),
            bounded(o@, 0x2000000000000),
        ensures
            r == svdot(self@, o@),
            -0xC000000000000000000000000 <= r <= 0xC000000000000000000000000,
    {
        proof {
            lemma_mul_abs_bound(self@.x, o@.x, 0x2000000000000, 0x2000000000000);
            lemma_mul_abs_bound(self@.y, o@.y, 0x2000000000000, 0x2000000000000);
            lemma_mul_abs_bound(self@.z, o@.z, 0x2000000000000, 0x2000000000000);
        }
        let s: i128 = (self.x as i128) * (o.x as i128) + (self.y as i128) * (o.y as i128) + (
        self.z as i128) * (o.z as i128);
        let q = divt_i128(s, 65536);
        proof {
            lemma_divt_abs_le(s as int, 65536, 0xC000000000000000000000000int);
        }
        q
    }

    /// The squared length at the doubled scale.
    pub fn norm2(&self) -> (r: i128)
        requires
            bounded(self@, 0x100000000000),
        ensures
            r == svnorm2(self@),
            r >= 0,
    {
        proof {
            lemma_square_nonneg(self@.x);
            lemma_square_nonneg(self@.y);
            lemma_square_nonneg(self@.z);
            lemma_mul_abs_bound(self@.x, self@.x, 0x100000000000, 0x100000000000);
            lemma_mul_abs_bound(self@.y, self@.y, 0x100000000000, 0x100000000000);
            lemma_mul_abs_bound(self@.z, self@.z, 0x100000000000, 0x100000000000);
        }
        (self.x as i128) * (self.x as i128) + (self.y as i128) * (self.y as i128) + (
        self.z as i128) * (self.z as i128)
    }

    /// The cross product.
    pub fn cross(&self, o: &Vec3) -> (r: Vec3)
        requires
            bounded(self@, 0x4000000000),
            bounded(o@, 0x4000000000),
        ensures
            r@ == svcross(self@, o@),
            bounded(r@, 0x2000000000000000),
    {
        proof {
            lemma_mul_abs_bound(self@.y, o@.z, 0x4000000000, 0x4000000000);
            lemma_mul_abs_bound(self@.z, o@.y, 0x4000000000, 0x4000000000);
            lemma_mul_abs_bound(self@.z, o@.x, 0x4000000000, 0x4000000000);
            lemma_mul_abs_bound(self@.x, o@.z, 0x4000000000, 0x4000000000);
            lemma_mul_abs_bound(self@.x, o@.y, 0x4000000000, 0x4000000000);
            lemma_mul_abs_bound(self@.y, o@.x, 0x4000000000, 0x4000000000);
        }
        let cx: i128 = (self.y as i128) * (o.z as i128) - (self.z as i128) * (o.y as i128);
        let cy: i128 = (self.z as i128) * (o.x as i128) - (self.x as i128) * (o.z as i128);
        let cz: i128 = (self.x as i128) * (o.y as i128) - (self.y as i128) * (o.x as i128);
        let qx = divt_i128(cx, 65536);
        let qy = divt_i128(cy, 65536);
        let qz = divt_i128(cz, 65536);
        proof {
            lemma_divt_abs_div(cx as int, 65536, 0x20000000000000000000int);
            lemma_divt_abs_div(cy as int, 65536, 0x20000000000000000000int);
            lemma_divt_abs_div(cz as int, 65536, 0x20000000000000000000int);
            assert(0x20000000000000000000int / 65536int == 0x2000000000000000int);
        }
        Vec3 { x: qx as i64, y: qy as i64, z: qz as i64 }
    }

    /// The unit vector along `self`; the result's components never exceed
    /// one whole unit in magnitude.
    pub fn normalized(&self) -> (r: Vec3)
        requires
            bounded(self@, 0x100000000000),
            svnorm2(self@) >= 1,
        ensures
            r@ == svnormalize(self@),
            bounded(r@, SCALE as int),
    {
        let n2 = self.norm2();
        let len128 = isqrt_u128(n2 as u128) as i128;
        proof {
            lemma_sqrt_floor_bracket(n2 as int);
            let len = svlen(self@);
            assert(len >= 1) by {
                if len == 0 {
                    assert((0int + 1) * (0int + 1) == 1);
                }
            }
            lemma_norm2_bound(self@, 0x100000000000);
            assert(len < 0x300000000000) by (nonlinear_arith)
                requires
                    len >= 0,
                    len * len <= svnorm2(self@),
                    svnorm2(self@) <= 3 * (0x100000000000 * 0x100000000000),
            ;
            lemma_square_nonneg(self@.x);
            lemma_square_nonneg(self@.y);
            lemma_square_nonneg(self@.z);
            lemma_component_le_len(self@.x, svnorm2(self@), len);
            lemma_component_le_len(self@.y, svnorm2(self@), len);
            lemma_component_le_len(self@.z, svnorm2(self@), len);
        }
        let px: i128 = (self.x as i128) * 65536;
        let py: i128 = (self.y as i128) * 65536;
        let pz: i128 = (self.z as i128) * 65536;
        let qx = divt_i128(px, len128);
        let qy = divt_i128(py, len128);
        let qz = divt_i128(pz, len128);
        proof {
            let len = svlen(self@);
            lemma_divt_abs_div(px as int, len, abs1(self@.x) * (SCALE as int));
            lemma_divt_abs_div(py as int, len, abs1(self@.y) * (SCALE as int));
            lemma_divt_abs_div(pz as int, len, abs1(self@.z) * (SCALE as int));
            lemma_abs_mul(self@.x, SCALE as int);
            lemma_abs_mul(self@.y, SCALE as int);
            lemma_abs_mul(self@.z, SCALE as int);
            lemma_div_le_scale(abs1(self@.x), len);
            lemma_div_le_scale(abs1(self@.y), len);
            lemma_div_le_scale(abs1(self@.z), len);
        }
        Vec3 { x: qx as i64, y: qy as i64, z: qz as i64 }
    }
}

/// Negation keeps the squared length.
pub proof fn lemma_svneg_norm2(a: V3)
    by (nonlinear_arith)
    ensures
        svnorm2(svneg(a)) == svnorm2(a),
{
}

/// Each scaled component is bounded by the rescaled product of the bounds.
pub proof fn lemma_svmul_t_bound(a: V3, t: int, ab: int, tb: int)
    requires
        bounded(a, ab),
        -tb <= t <= tb,
        ab >= 0,
        tb >= 0,
    ensures
        bounded(svmul_t(a, t), (ab * tb) / 65536),
{
    lemma_mul_abs_bound(a.x, t, ab, tb);
    lemma_mul_abs_bound(a.y, t, ab, tb);
    lemma_mul_abs_bound(a.z, t, ab, tb);
    lemma_divt_abs_div(a.x * t, SCALE as int, ab * tb);
    lemma_divt_abs_div(a.y * t, SCALE as int, ab * tb);
    lemma_divt_abs_div(a.z * t, SCALE as int, ab * tb);
}

/// Each cross-product component is bounded by the rescaled product of the
/// operand bounds.
pub proof fn lemma_svcross_bound(a: V3, b: V3, ab: int, bb: int)
    requires
        bounded(a, ab),
        bounded(b, bb),
        ab >= 0,
        bb >= 0,
    ensures
        bounded(svcross(a, b), (2 * (ab * bb)) / 65536),
{
    lemma_mul_abs_bound(a.y, b.z, ab, bb);
    lemma_mul_abs_bound(a.z, b.y, ab, bb);
    lemma_mul_abs_bound(a.z, b.x, ab, bb);
    lemma_mul_abs_bound(a.x, b.z, ab, bb);
    lemma_mul_abs_bound(a.x, b.y, ab, bb);
    lemma_mul_abs_bound(a.y, b.x, ab, bb);
    lemma_divt_abs_div(a.y * b.z - a.z * b.y, SCALE as int, 2 * (ab * bb));
    lemma_divt_abs_div(a.z * b.x - a.x * b.z, SCALE as int, 2 * (ab * bb));
    lemma_divt_abs_div(a.x * b.y - a.y * b.x, SCALE as int, 2 * (ab * bb));
}

/// `(c * SCALE) / len <= SCALE` whenever `c <= len`.
proof fn lemma_div_le_scale(c: int, len: int)
    requires
        0 <= c <= len,
        len >= 1,
    ensures
        (c * (SCALE as int)) / len <= SCALE as int,
{
    assert(c * (SCALE as int) <= len * (SCALE as int)) by (nonlinear_arith)
        requires
            0 <= c <= len,
    ;
    vstd::arithmetic::div_mod::lemma_div_is_ordered(
        c * (SCALE as int),
        len * (SCALE as int),
        len,
    );
    vstd::arithmetic::div_mod::lemma_div_multiples_vanish(SCALE as int, len);
}

} // verus!
