//! Rays, shapes, materials, objects and the linear scene query.
//!
//! Every shape intersects a ray in its own local frame; an object carries
//! the world-to-local transform and delegates.  The scene query is a linear
//! scan keeping the nearest strictly positive hit, earliest object winning
//! exact ties.

use vstd::prelude::*;

use crate::aabb::{aabb_bounded, aabb_wf, AABB};
use crate::fixed::{
    abs1, divt, fdiv, fmul, smax_int, smin_int, sqrt_floor, SCALE, divt_i128, fdiv_i64,
    lemma_divt_abs_le, lemma_divt_ordered, lemma_mul_abs_bound,
};
use crate::image::{rgb_wf, RGB};
use crate::transform::{transform_bounded, tv_apply, tv_inverse, Transform};
use crate::vec3::{
    bounded, lemma_svdot_bound, svadd, svcross, svdot, svnorm2, svnormalize, svsub, unit_dir,
    Vec3, V3,
};

verus! {

/// A world-space ray: an origin and a near-unit direction.
#[derive(Clone, Copy, Debug, PartialEq, Eq, Structural)]
pub struct Ray {
    pub pos: Vec3,
    pub dir: Vec3,
}

/// The model of a `Ray`.
pub ghost struct RayV {
    pub pos: V3,
    pub dir: V3,
}

impl View for Ray {
    type V = RayV;

    open spec fn view(&self) -> RayV {
        RayV { pos: self.pos@, dir: self.dir@ }
    }
}

/// A well-formed world ray: origin inside the world bounds, direction a
/// unit vector (squared length within the unit band).
pub open spec fn ray_wf(r: RayV) -> bool {
    &&& bounded(r.pos, 0x8000000)
    &&& unit_dir(r.dir)
}

/// A local ray as handed to a shape: origin within the widened local
/// bounds after the world-to-local transform, direction still unit.
pub open spec fn local_ray_wf(r: RayV) -> bool {
    &&& bounded(r.pos, 0x800000000)
    &&& unit_dir(r.dir)
}

/// The geometry of a primitive, in its own local frame.
#[derive(Clone, Copy, Debug, PartialEq, Eq, Structural)]
pub enum Shape {
    Sphere { radius: i64 },
    Box { aabb: AABB },
    Triangle { a: Vec3, b: Vec3, c: Vec3 },
}

/// A well-formed shape: positive bounded radius, ordered bounded box
/// corners, bounded vertices.
pub open spec fn shape_wf(s: Shape) -> bool {
    match s {
        Shape::Sphere { radius } => 0 < radius <= 0x8000000,
        Shape::Box { aabb } => aabb_wf(aabb@) && aabb_bounded(aabb@, 0x8000000),
        Shape::Triangle { a, b, c } => bounded(a@, 0x8000000) && bounded(b@, 0x8000000)
            && bounded(c@, 0x8000000),
    }
}

/// How a sampled bounce scatters.
#[derive(Clone, Copy, Debug, PartialEq, Eq, Structural)]
pub enum ReflectanceFunction {
    Diffuse,
    Specular,
}

/// A discrete distribution over the two scatter kinds; the weights are raw
/// fixed-point probabilities summing to exactly one.
#[derive(Clone, Copy, Debug, PartialEq, Eq, Structural)]
pub struct ReflectanceDistribution {
    pub diffuse: i64,
    pub specular: i64,
}

/// The distribution invariant: non-negative weights summing to one unit.
pub open spec fn rfd_wf(d: ReflectanceDistribution) -> bool {
    &&& 0 <= d.diffuse
    &&& 0 <= d.specular
    &&& d.diffuse + d.specular == SCALE
}

/// The outcome of sampling with the uniform draw `r`: diffuse for draws up
/// to the diffuse weight, specular beyond; no third outcome exists.
pub open spec fn sample_spec(d: ReflectanceDistribution, r: int) -> ReflectanceFunction {
    if r <= d.diffuse {
        ReflectanceFunction::Diffuse
    } else {
        ReflectanceFunction::Specular
    }
}

impl ReflectanceDistribution {
    /// Picks the scatter kind for one uniform draw: the draw falls either
    /// inside the diffuse weight or, since the weights sum to one and the
    /// draw is below one, inside the specular weight — never outside both.
    pub fn sample_with(&self, r: i64) -> (f: ReflectanceFunction)
        requires
            rfd_wf(*self),
            0 <= r < SCALE,
        ensures
            f == sample_spec(*self, r as int),
    {
        if r <= self.diffuse {
            ReflectanceFunction::Diffuse
        } else {
            proof {
                assert(r <= self.diffuse + self.specular);
            }
            ReflectanceFunction::Specular
        }
    }

    /// Samples the distribution with a fresh uniform draw.  Whatever the
    /// draw, the outcome follows `sample_spec` for it: an all-diffuse
    /// distribution always scatters diffusely, and no third outcome exists.
    pub fn sample(&self) -> (f: ReflectanceFunction)
        requires
            rfd_wf(*self),
        ensures
            self.diffuse == SCALE ==> f == ReflectanceFunction::Diffuse,
    {
        let r = crate::random::random_real();
        self.sample_with(r)
    }
}

/// What a surface does with light: its scatter distribution, reflectance
/// colour and emitted radiance.
#[derive(Clone, Copy, Debug, PartialEq, Eq, Structural)]
pub struct Material {
    pub rfd: ReflectanceDistribution,
    pub color: RGB,
    pub emission: RGB,
}

/// The material invariant.
pub open spec fn material_wf(m: Material) -> bool {
    &&& rfd_wf(m.rfd)
    &&& rgb_wf(m.color)
    &&& rgb_wf(m.emission)
}

impl Material {
    /// A purely diffuse material.
    pub fn diffuse(color: RGB, emission: RGB) -> (m: Material)
        requires
            rgb_wf(color),
            rgb_wf(emission),
        ensures
            m == (Material {
                rfd: ReflectanceDistribution { diffuse: SCALE, specular: 0i64 },
                color,
                emission,
            }),
            material_wf(m),
    {
        Material {
            rfd: ReflectanceDistribution { diffuse: SCALE, specular: 0 },
            color,
            emission,
        }
    }
}

/// The discriminant of the sphere quadratic, at the doubled scale.
pub open spec fn sphere_terms(rv: RayV, radius: int) -> (int, int, int) {
    let a = svdot(rv.dir, rv.dir);
    let b = 2 * svdot(rv.dir, rv.pos);
    let c = svdot(rv.pos, rv.pos) - fmul(radius, radius);
    (a, b, c)
}

/// The signed distance to a local sphere of the given radius: the smaller
/// root of `|P + tD|^2 = r^2`, or nothing when the discriminant is
/// negative.  No positivity filtering happens here.
pub open spec fn sphere_hit(rv: RayV, radius: int) -> Option<int> {
    let (a, b, c) = sphere_terms(rv, radius);
    let disc = b * b - 4 * (a * c);
    if disc < 0 {
        None
    } else {
        let sq = sqrt_floor(disc);
        let t1 = divt((-b + sq) * (SCALE as int), 2 * a);
        let t2 = divt((-b - sq) * (SCALE as int), 2 * a);
        Some(smin_int(t1, t2))
    }
}

/// Intersects a local ray with a sphere about the origin.
fn sphere_intersect(ray: &Ray, radius: i64) -> (r: Option<i64>)
    requires
        local_ray_wf(ray@),
        0 < radius <= 0x8000000,
    ensures
        match r {
            Some(d) => sphere_hit(ray@, radius as int) == Some(d as int) && -0x100000000000000
                <= d <= 0x100000000000000,
            None => sphere_hit(ray@, radius as int) is None,
        },
{
    proof {
        lemma_svdot_bound(ray@.dir, ray@.dir, SCALE as int, SCALE as int);
        lemma_svdot_bound(ray@.dir, ray@.pos, SCALE as int, 0x800000000);
        lemma_svdot_bound(ray@.pos, ray@.pos, 0x800000000, 0x800000000);
        lemma_mul_abs_bound(radius as int, radius as int, 0x8000000, 0x8000000);
        lemma_divt_abs_le(radius as int * radius as int, SCALE as int, 0x40000000000000int);
        assert((3 * (65536int * 65536)) / 65536int == 196608);
        assert((3 * (65536int * 0x800000000)) / 65536int == 0x1800000000);
        assert((3 * (0x800000000int * 0x800000000)) / 65536int == 0xC0000000000000);
        // The direction has length at least one half, so `a` is positive.
        lemma_divt_ordered(0x40000000, svnorm2(ray@.dir), SCALE as int);
        assert(divt(0x40000000, 65536) == 0x4000);
    }
    let a = ray.dir.dot(&ray.dir);
    let b = 2 * ray.dir.dot(&ray.pos);
    let c = ray.pos.dot(&ray.pos) - crate::fixed::fmul_i64(radius, radius);
    proof {
        lemma_mul_abs_bound(b as int, b as int, 0x3000000000, 0x3000000000);
        lemma_mul_abs_bound(a as int, c as int, 196608, 0x100000000000000);
    }
    let disc: i128 = (b as i128) * (b as i128) - 4 * ((a as i128) * (c as i128));
    if disc < 0 {
        return None;
    }
    let sq = crate::fixed::isqrt_u128(disc as u128) as i128;
    proof {
        crate::fixed::lemma_sqrt_floor_bracket(disc as int);
        assert(sq <= 0x6000000000) by (nonlinear_arith)
            requires
                sq >= 0,
                sq as int * sq as int <= disc,
                disc < 0x20000000000000000000,
        ;
    }
    let n1: i128 = (-(b as i128) + sq) * 65536;
    let n2: i128 = (-(b as i128) - sq) * 65536;
    let t1 = divt_i128(n1, 2 * (a as i128));
    let t2 = divt_i128(n2, 2 * (a as i128));
    proof {
        lemma_divt_abs_le(n1 as int, 2 * (a as int), 0x90000000000000int);
        lemma_divt_abs_le(n2 as int, 2 * (a as int), 0x90000000000000int);
    }
    if t1 < t2 {
        Some(t1 as i64)
    } else {
        Some(t2 as i64)
    }
}

/// A large sentinel distance, beyond any representable geometry: the slab
/// range of an axis the ray runs parallel to, inside the box.
pub const FAR_T: i64 = 0x1000000000000000;

/// The parameter range in which the ray stays inside one slab.  An axis
/// with a zero direction component constrains nothing when the origin lies
/// inside the slab and everything when it does not.
pub open spec fn slab_range(minc: int, maxc: int, p: int, d: int) -> Option<(int, int)> {
    if d == 0 {
        if minc <= p <= maxc {
            Some((-(FAR_T as int), FAR_T as int))
        } else {
            None
        }
    } else {
        let t1 = fdiv(minc - p, d);
        let t2 = fdiv(maxc - p, d);
        Some((smin_int(t1, t2), smax_int(t1, t2)))
    }
}

/// The slab-method distance to a local box: the latest slab entry, when it
/// does not come after the earliest slab exit and that exit is not behind
/// the origin.
pub open spec fn box_hit(bv: crate::aabb::AabbV, rv: RayV) -> Option<int> {
    let sx = slab_range(bv.min.x, bv.max.x, rv.pos.x, rv.dir.x);
    let sy = slab_range(bv.min.y, bv.max.y, rv.pos.y, rv.dir.y);
    let sz = slab_range(bv.min.z, bv.max.z, rv.pos.z, rv.dir.z);
    match (sx, sy, sz) {
        (Some((lx, hx)), Some((ly, hy)), Some((lz, hz))) => {
            let tmin = smax_int(lz, smax_int(ly, lx));
            let tmax = smin_int(hz, smin_int(hy, hx));
            if tmax >= smax_int(0, tmin) {
                Some(tmin)
            } else {
                None
            }
        },
        _ => None,
    }
}

/// One slab of the box test, on one axis.
fn slab_exec(minc: i64, maxc: i64, p: i64, d: i64) -> (r: Option<(i64, i64)>)
    requires
        -0x8000000 <= minc <= 0x8000000,
        -0x8000000 <= maxc <= 0x8000000,
        -0x800000000 <= p <= 0x800000000,
        -65536 <= d <= 65536,
    ensures
        match r {
            Some((lo, hi)) => slab_range(minc as int, maxc as int, p as int, d as int) == Some(
                ((lo as int, hi as int)),
            ) && -(FAR_T as int) <= lo <= hi <= FAR_T as int,
            None => slab_range(minc as int, maxc as int, p as int, d as int) is None,
        },
{
    if d == 0 {
        if minc <= p && p <= maxc {
            Some((-FAR_T, FAR_T))
        } else {
            None
        }
    } else {
        proof {
            lemma_divt_abs_le((minc - p) * 65536, d as int, 0x10000000000000int);
            lemma_divt_abs_le((maxc - p) * 65536, d as int, 0x10000000000000int);
        }
        let t1 = fdiv_i64(minc - p, d);
        let t2 = fdiv_i64(maxc - p, d);
        if t1 < t2 {
            Some((t1, t2))
        } else {
            Some((t2, t1))
        }
    }
}

/// Intersects a local ray with a box.
fn box_intersect(ray: &Ray, aabb: &AABB) -> (r: Option<i64>)
    requires
        local_ray_wf(ray@),
        aabb_wf(aabb@),
        aabb_bounded(aabb@, 0x8000000),
    ensures
        match r {
            Some(d) => box_hit(aabb@, ray@) == Some(d as int) && -(FAR_T as int) <= d
                <= FAR_T as int,
            None => box_hit(aabb@, ray@) is None,
        },
{
    let sx = match slab_exec(aabb.min.x, aabb.max.x, ray.pos.x, ray.dir.x) {
        Some(v) => v,
        None => {
            return None;
        },
    };
    let sy = match slab_exec(aabb.min.y, aabb.max.y, ray.pos.y, ray.dir.y) {
        Some(v) => v,
        None => {
            return None;
        },
    };
    let sz = match slab_exec(aabb.min.z, aabb.max.z, ray.pos.z, ray.dir.z) {
        Some(v) => v,
        None => {
            return None;
        },
    };
    let tmin = crate::fixed::maxf(sz.0, crate::fixed::maxf(sy.0, sx.0));
    let tmax = crate::fixed::minf(sz.1, crate::fixed::minf(sy.1, sx.1));
    if tmax >= crate::fixed::maxf(0, tmin) {
        Some(tmin)
    } else {
        None
    }
}

/// The Moller-Trumbore distance to a local triangle: nothing for a
/// near-zero determinant (ray close to parallel), for barycentric
/// coordinates outside the triangle, or for a distance beyond the far
/// sentinel; otherwise the signed distance along the ray.
pub open spec fn tri_hit(av: V3, bv: V3, cv: V3, rv: RayV) -> Option<int> {
    let e1 = svsub(bv, av);
    let e2 = svsub(cv, av);
    let h = svcross(rv.dir, e2);
    let det = svdot(e1, h);
    if -16 < det < 16 {
        None
    } else {
        let s = svsub(rv.pos, av);
        let u = fdiv(svdot(s, h), det);
        if u < 0 || u > SCALE {
            None
        } else {
            let q = svcross(s, e1);
            let v = fdiv(svdot(rv.dir, q), det);
            if v < 0 || u + v > SCALE {
                None
            } else {
                let t = fdiv(svdot(e2, q), det);
                if t < -(FAR_T as int) || t > FAR_T as int {
                    None
                } else {
                    Some(t)
                }
            }
        }
    }
}

/// Intersects a local ray with a triangle.
fn triangle_intersect(ray: &Ray, a: &Vec3, b: &Vec3, c: &Vec3) -> (r: Option<i64>)
    requires
        local_ray_wf(ray@),
        bounded(a@, 0x8000000),
        bounded(b@, 0x8000000),
        bounded(c@, 0x8000000),
    ensures
        match r {
            Some(d) => tri_hit(a@, b@, c@, ray@) == Some(d as int) && -(FAR_T as int) <= d
                <= FAR_T as int,
            None => tri_hit(a@, b@, c@, ray@) is None,
        },
{
    let e1 = b.sub_v(a);
    let e2 = c.sub_v(a);
    let h = ray.dir.cross(&e2);
    proof {
        crate::vec3::lemma_svcross_bound(ray@.dir, e2@, SCALE as int, 0x10000000);
        assert((2 * (65536int * 0x10000000)) / 65536int == 0x20000000);
    }
    let det = e1.dot(&h);
    if -16 < det && det < 16 {
        return None;
    }
    let s = ray.pos.sub_v(a);
    let dsh = s.dot(&h);
    let un: i128 = (dsh as i128) * 65536;
    let u = divt_i128(un, det as i128);
    if u < 0 || u > 65536 {
        return None;
    }
    let q = s.cross(&e1);
    proof {
        crate::vec3::lemma_svcross_bound(s@, e1@, 0x810000000, 0x10000000);
        assert((2 * (0x810000000int * 0x10000000)) / 65536int == 0x1020000000000);
    }
    let dirq = ray.dir.dot_wide(&q);
    let vn: i128 = dirq * 65536;
    proof {
        lemma_svdot_bound(ray@.dir, q@, SCALE as int, 0x1020000000000);
    }
    let v = divt_i128(vn, det as i128);
    if v < 0 || u + v > 65536 {
        return None;
    }
    let e2q = e2.dot_wide(&q);
    proof {
        lemma_svdot_bound(e2@, q@, 0x10000000, 0x1020000000000);
    }
    let tn: i128 = e2q * 65536;
    let t = divt_i128(tn, det as i128);
    if t < -FAR_T as i128 || t > FAR_T as i128 {
        return None;
    }
    Some(t as i64)
}

/// The local-frame difference that becomes the transformed direction.
pub open spec fn lr_diff(tr: crate::transform::TransformV, rv: RayV) -> V3 {
    svsub(tv_apply(tr, svadd(rv.pos, rv.dir)), tv_apply(tr, rv.pos))
}

/// The world ray carried into the local frame: the transformed origin, and
/// the re-normalized direction through a second transformed point.
pub open spec fn local_ray_of(tr: crate::transform::TransformV, rv: RayV) -> RayV {
    RayV { pos: tv_apply(tr, rv.pos), dir: svnormalize(lr_diff(tr, rv)) }
}

/// Whether the transform leaves the ray a usable direction: the rotated
/// direction must not collapse, and its normalization must land in the
/// unit band.
pub open spec fn local_ray_defined(tr: crate::transform::TransformV, rv: RayV) -> bool {
    &&& svnorm2(lr_diff(tr, rv)) >= 1
    &&& unit_dir(svnormalize(lr_diff(tr, rv)))
}

/// Carries a world ray into a local frame; nothing when the direction
/// collapses under the transform.
fn transform_ray(ray: &Ray, tr: &Transform) -> (r: Option<Ray>)
    requires
        ray_wf(ray@),
        transform_bounded(tr@, 0x400000000),
    ensures
        match r {
            Some(lr) => local_ray_defined(tr@, ray@) && lr@ == local_ray_of(tr@, ray@)
                && local_ray_wf(lr@),
            None => !local_ray_defined(tr@, ray@),
        },
{
    let apos = tr.apply(&ray.pos);
    let tpos = ray.pos.add_v(&ray.dir);
    let atpos = tr.apply(&tpos);
    let d = atpos.sub_v(&apos);
    let n2 = d.norm2();
    if n2 == 0 {
        return None;
    }
    let nd = d.normalized();
    let m2 = nd.norm2();
    if m2 < crate::vec3::UNIT_NORM2_MIN as i128 || m2 > crate::vec3::UNIT_NORM2_MAX as i128 {
        return None;
    }
    Some(Ray { pos: apos, dir: nd })
}

/// A geometric primitive placed in the world: the stored world-to-local
/// transform, the local shape, and the surface material.
#[derive(Clone, Copy, Debug, PartialEq, Eq, Structural)]
pub struct Object {
    pub inv_transform: Transform,
    pub shape: Shape,
    pub material: Material,
}

/// The object invariant: a bounded stored inverse transform, a well-formed
/// shape and material.
pub open spec fn object_wf(o: Object) -> bool {
    &&& transform_bounded(o.inv_transform@, 0x20000000)
    &&& shape_wf(o.shape)
    &&& material_wf(o.material)
}

/// The signed hit distance of a world ray on an object: the shape's local
/// answer on the transformed ray.
pub open spec fn object_hit(o: Object, rv: RayV) -> Option<int> {
    if !local_ray_defined(o.inv_transform@, rv) {
        None
    } else {
        let lr = local_ray_of(o.inv_transform@, rv);
        match o.shape {
            Shape::Sphere { radius } => sphere_hit(lr, radius as int),
            Shape::Box { aabb } => box_hit(aabb@, lr),
            Shape::Triangle { a, b, c } => tri_hit(a@, b@, c@, lr),
        }
    }
}

/// The outward unit normal at a box surface point, in the local frame:
/// whichever of the six faces the point lies on (within tolerance).
pub open spec fn box_normal(bv: crate::aabb::AabbV, lp: V3) -> Option<V3> {
    let c1 = svsub(lp, bv.min);
    let c2 = svsub(lp, bv.max);
    if abs1(c1.x) < 256 {
        Some(V3 { x: -(SCALE as int), y: 0, z: 0 })
    } else if abs1(c1.y) < 256 {
        Some(V3 { x: 0, y: -(SCALE as int), z: 0 })
    } else if abs1(c1.z) < 256 {
        Some(V3 { x: 0, y: 0, z: -(SCALE as int) })
    } else if abs1(c2.x) < 256 {
        Some(V3 { x: SCALE as int, y: 0, z: 0 })
    } else if abs1(c2.y) < 256 {
        Some(V3 { x: 0, y: SCALE as int, z: 0 })
    } else if abs1(c2.z) < 256 {
        Some(V3 { x: 0, y: 0, z: SCALE as int })
    } else {
        None
    }
}

/// The surface normal of an object at a world point: the sphere's local
/// radial direction, the box's matched face, or the triangle's plane
/// normal; nothing when the point lies on no face or a direction
/// degenerates.
pub open spec fn object_normal(o: Object, p: V3) -> Option<V3> {
    let lp = tv_apply(o.inv_transform@, p);
    match o.shape {
        Shape::Sphere { radius } => if svnorm2(lp) >= 1 && unit_dir(svnormalize(lp)) {
            Some(svnormalize(lp))
        } else {
            None
        },
        Shape::Box { aabb } => box_normal(aabb@, lp),
        Shape::Triangle { a, b, c } => {
            let n = svcross(svsub(b@, a@), svsub(c@, a@));
            if svnorm2(n) >= 1 && unit_dir(svnormalize(n)) {
                Some(svnormalize(n))
            } else {
                None
            }
        },
    }
}

impl Object {
    /// Places a shape in the world: the forward transform is inverted once
    /// and stored.
    pub fn new(transform: Transform, shape: Shape, material: Material) -> (o: Object)
        requires
            transform_bounded(transform@, 0x8000000),
            shape_wf(shape),
            material_wf(material),
        ensures
            o.inv_transform@ == tv_inverse(transform@),
            o.shape == shape,
            o.material == material,
            object_wf(o),
    {
        let inv = transform.inverse();
        proof {
            let (c0, c1, c2) = crate::transform::tv_transpose_rows(transform@);
            lemma_svdot_bound(c0, transform@.t, SCALE as int, 0x8000000);
            lemma_svdot_bound(c1, transform@.t, SCALE as int, 0x8000000);
            lemma_svdot_bound(c2, transform@.t, SCALE as int, 0x8000000);
            assert((3 * (65536int * 0x8000000)) / 65536int == 0x18000000);
        }
        Object { inv_transform: inv, shape, material }
    }

    /// The signed distance at which a world ray meets this object, if it
    /// does; no positivity filtering happens here.
    pub fn intersect(&self, ray: &Ray) -> (r: Option<i64>)
        requires
            object_wf(*self),
            ray_wf(ray@),
        ensures
            match r {
                Some(d) => object_hit(*self, ray@) == Some(d as int) && -(FAR_T as int) <= d
                    <= FAR_T as int,
                None => object_hit(*self, ray@) is None,
            },
    {
        let lr = match transform_ray(ray, &self.inv_transform) {
            Some(lr) => lr,
            None => {
                return None;
            },
        };
        match self.shape {
            Shape::Sphere { radius } => sphere_intersect(&lr, radius),
            Shape::Box { aabb } => box_intersect(&lr, &aabb),
            Shape::Triangle { a, b, c } => triangle_intersect(&lr, &a, &b, &c),
        }
    }

    /// The outward surface normal at a world point of this object, if the
    /// point indeed lies on the surface (within tolerance for the box).
    pub fn try_normal_at(&self, surface_pt: &Vec3) -> (r: Option<Vec3>)
        requires
            object_wf(*self),
            bounded(surface_pt@, 0x8000000),
        ensures
            match r {
                Some(n) => object_normal(*self, surface_pt@) == Some(n@) && unit_dir(n@),
                None => object_normal(*self, surface_pt@) is None,
            },
    {
        let lp = self.inv_transform.apply(surface_pt);
        match self.shape {
            Shape::Sphere { radius: _ } => {
                let n2 = lp.norm2();
                if n2 == 0 {
                    None
                } else {
                    let nn = lp.normalized();
                    let m2 = nn.norm2();
                    if m2 < crate::vec3::UNIT_NORM2_MIN as i128 || m2
                        > crate::vec3::UNIT_NORM2_MAX as i128 {
                        None
                    } else {
                        Some(nn)
                    }
                }
            },
            Shape::Box { aabb } => {
                let c1 = lp.sub_v(&aabb.min);
                let c2 = lp.sub_v(&aabb.max);
                if -256 < c1.x && c1.x < 256 {
                    Some(Vec3 { x: -SCALE, y: 0, z: 0 })
                } else if -256 < c1.y && c1.y < 256 {
                    Some(Vec3 { x: 0, y: -SCALE, z: 0 })
                } else if -256 < c1.z && c1.z < 256 {
                    Some(Vec3 { x: 0, y: 0, z: -SCALE })
                } else if -256 < c2.x && c2.x < 256 {
                    Some(Vec3 { x: SCALE, y: 0, z: 0 })
                } else if -256 < c2.y && c2.y < 256 {
                    Some(Vec3 { x: 0, y: SCALE, z: 0 })
                } else if -256 < c2.z && c2.z < 256 {
                    Some(Vec3 { x: 0, y: 0, z: SCALE })
                } else {
                    None
                }
            },
            Shape::Triangle { a, b, c } => {
                let e1 = b.sub_v(&a);
                let e2 = c.sub_v(&a);
                let n = e1.cross(&e2);
                proof {
                    crate::vec3::lemma_svcross_bound(e1@, e2@, 0x10000000, 0x10000000);
                    assert((2 * (0x10000000int * 0x10000000)) / 65536int == 0x20000000000);
                }
                let n2 = n.norm2();
                if n2 == 0 {
                    None
                } else {
                    let nn = n.normalized();
                    let m2 = nn.norm2();
                    if m2 < crate::vec3::UNIT_NORM2_MIN as i128 || m2
                        > crate::vec3::UNIT_NORM2_MAX as i128 {
                        None
                    } else {
                        Some(nn)
                    }
                }
            },
        }
    }

    /// The world-space normal at a point known to lie on the surface.
    pub fn normal_at(&self, surface_pt: &Vec3) -> (r: Vec3)
        requires
            object_wf(*self),
            bounded(surface_pt@, 0x8000000),
            object_normal(*self, surface_pt@) is Some,
        ensures
            object_normal(*self, surface_pt@) == Some(r@),
            unit_dir(r@),
    {
        match self.try_normal_at(surface_pt) {
            Some(n) => n,
            None => {
                proof {
                    assert(false);
                }
                Vec3 { x: 0, y: 0, z: 0 }
            },
        }
    }

    /// The world-space bounding box: the local extent of the shape carried
    /// through the forward transform, corner by corner.
    pub fn bounding_box(&self) -> (r: AABB)
        requires
            object_wf(*self),
        ensures
            r@ == object_bbox(*self),
            aabb_wf(r@),
    {
        let fwd = self.inv_transform.inverse();
        match self.shape {
            Shape::Sphere { radius } => {
                let local = AABB::from_origin_extents(
                    Vec3 { x: 0, y: 0, z: 0 },
                    Vec3 { x: radius, y: radius, z: radius },
                );
                local.transformed(&fwd)
            },
            Shape::Box { aabb } => aabb.transformed(&fwd),
            Shape::Triangle { a, b, c } => {
                let local = AABB {
                    min: Vec3 {
                        x: crate::fixed::minf(a.x, crate::fixed::minf(b.x, c.x)),
                        y: crate::fixed::minf(a.y, crate::fixed::minf(b.y, c.y)),
                        z: crate::fixed::minf(a.z, crate::fixed::minf(b.z, c.z)),
                    },
                    max: Vec3 {
                        x: crate::fixed::maxf(a.x, crate::fixed::maxf(b.x, c.x)),
                        y: crate::fixed::maxf(a.y, crate::fixed::maxf(b.y, c.y)),
                        z: crate::fixed::maxf(a.z, crate::fixed::maxf(b.z, c.z)),
                    },
                };
                local.transformed(&fwd)
            },
        }
    }
}

/// The local axis-aligned extent of a shape.
pub open spec fn shape_local_bbox(s: Shape) -> crate::aabb::AabbV {
    match s {
        Shape::Sphere { radius } => crate::aabb::AabbV {
            min: V3 { x: -radius as int, y: -radius as int, z: -radius as int },
            max: V3 { x: radius as int, y: radius as int, z: radius as int },
        },
        Shape::Box { aabb } => aabb@,
        Shape::Triangle { a, b, c } => crate::aabb::AabbV {
            min: V3 {
                x: smin_int(a@.x, smin_int(b@.x, c@.x)),
                y: smin_int(a@.y, smin_int(b@.y, c@.y)),
                z: smin_int(a@.z, smin_int(b@.z, c@.z)),
            },
            max: V3 {
                x: smax_int(a@.x, smax_int(b@.x, c@.x)),
                y: smax_int(a@.y, smax_int(b@.y, c@.y)),
                z: smax_int(a@.z, smax_int(b@.z, c@.z)),
            },
        },
    }
}

/// The world bounding box of an object: the local extent enveloped through
/// the forward (local-to-world) transform.
pub open spec fn object_bbox(o: Object) -> crate::aabb::AabbV {
    crate::aabb::aabb_transformed(shape_local_bbox(o.shape), tv_inverse(o.inv_transform@))
}

/// A hit found by a scene query: the distance along the ray and the index
/// of the object met, valid while the scene stands.
#[derive(Clone, Copy, Debug, PartialEq, Eq, Structural)]
pub struct Intersection {
    pub distance: i64,
    pub index: usize,
}

/// An ordered collection of objects answering nearest-hit queries by
/// linear scan.
pub struct LinearScene {
    pub objs: Vec<Object>,
}

/// The scene invariant: every object is well-formed.
pub open spec fn scene_wf(s: LinearScene) -> bool {
    forall|i: int| 0 <= i < s.objs.len() ==> object_wf(#[trigger] s.objs[i])
}

/// The nearest strictly positive hit among the first `n` objects, with the
/// index of the object that produced it; an earlier object keeps an exact
/// tie (a later one must be strictly closer to win).
pub open spec fn best_hit(objs: Seq<Object>, rv: RayV, n: int) -> Option<(int, int)>
    decreases n,
{
    if n <= 0 {
        None
    } else {
        let prev = best_hit(objs, rv, n - 1);
        match object_hit(objs[n - 1], rv) {
            Some(d) => if d > 0 {
                match prev {
                    None => Some((d, n - 1)),
                    Some(p) => if d < p.0 {
                        Some((d, n - 1))
                    } else {
                        prev
                    },
                }
            } else {
                prev
            },
            None => prev,
        }
    }
}

/// The nearest positive hit over the whole scene.
pub open spec fn scene_hit(objs: Seq<Object>, rv: RayV) -> Option<(int, int)> {
    best_hit(objs, rv, objs.len() as int)
}

/// The scene query is a true minimum, so iteration order cannot change the
/// reported distance: a hit names an object the ray meets at that strictly
/// positive distance, and no object is met at a smaller positive one; no
/// hit means no object is met at any positive distance.
pub proof fn lemma_scene_hit_nearest(objs: Seq<Object>, rv: RayV, n: int)
    requires
        0 <= n <= objs.len(),
    ensures
        match best_hit(objs, rv, n) {
            Some(p) => {
                &&& 0 <= p.1 < n
                &&& object_hit(objs[p.1], rv) == Some(p.0)
                &&& p.0 > 0
                &&& forall|j: int|
                    0 <= j < n ==> match #[trigger] object_hit(objs[j], rv) {
                        Some(dj) => dj > 0 ==> p.0 <= dj,
                        None => true,
                    }
            },
            None => forall|j: int|
                0 <= j < n ==> match #[trigger] object_hit(objs[j], rv) {
                    Some(dj) => dj <= 0,
                    None => true,
                },
        },
    decreases n,
{
    if n > 0 {
        lemma_scene_hit_nearest(objs, rv, n - 1);
    }
}

impl LinearScene {
    /// The nearest object met by the ray at a strictly positive distance,
    /// found by scanning every object; non-positive hits (at or behind the
    /// origin) are ignored, and earlier objects win exact ties.
    pub fn intersect(&self, ray: &Ray) -> (r: Option<Intersection>)
        requires
            scene_wf(*self),
            ray_wf(ray@),
        ensures
            match r {
                Some(i) => scene_hit(self.objs@, ray@) == Some(
                    ((i.distance as int, i.index as int)),
                ) && i.index < self.objs.len() && 0 < i.distance <= FAR_T,
                None => scene_hit(self.objs@, ray@) is None,
            },
{
        let n = self.objs.len();
        let mut closest: Option<Intersection> = None;
        let mut i: usize = 0;
        while i < n
            invariant
                scene_wf(*self),
                ray_wf(ray@),
                n == self.objs.len(),
                i <= n,
                match closest {
                    Some(c) => best_hit(self.objs@, ray@, i as int) == Some(
                        ((c.distance as int, c.index as int)),
                    ) && c.index < i && 0 < c.distance <= FAR_T,
                    None => best_hit(self.objs@, ray@, i as int) is None,
                },
            decreases n - i,
        {
            let cur = self.objs[i].intersect(ray);
            match cur {
                Some(d) => if d > 0 {
                    match closest {
                        None => {
                            closest = Some(Intersection { distance: d, index: i });
                        },
                        Some(c) => if d < c.distance {
                            closest = Some(Intersection { distance: d, index: i });
                        },
                    }
                },
                None => {},
            }
            i += 1;
        }
        closest
    }
}

} // verus!


