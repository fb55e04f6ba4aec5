//! The camera: a position, a look-at point, the tangent of half the
//! vertical field of view, and the aspect ratio, with a derived view basis
//! cached once and used to turn image-plane coordinates into primary rays.

use vstd::prelude::*;

use crate::fixed::{fdiv, fmul, SCALE};
use crate::scene::{ray_wf, Ray, RayV};
use crate::vec3::{
    bounded, svadd, svcross, svmul_t, svnorm2, svnormalize, svsub, Vec3, V3,
};

verus! {

/// The derived view basis: the unit forward direction and the two scaled
/// image-plane basis vectors.
#[derive(Clone, Copy, Debug, PartialEq, Eq, Structural)]
pub struct Cached {
    pub localat: Vec3,
    pub hori: Vec3,
    pub vert: Vec3,
}

/// A camera; the cache is filled by the constructor and never read before.
#[derive(Clone, Copy, Debug, PartialEq, Eq, Structural)]
pub struct Camera {
    pub position: Vec3,
    pub lookat: Vec3,
    pub half_fov_tan: i64,
    pub aspect: i64,
    pub cache: Option<Cached>,
}

/// The world-up reference.
pub open spec fn up_v3() -> V3 {
    V3 { x: 0, y: SCALE as int, z: 0 }
}

/// The unit forward direction: from the position toward the look-at point.
pub open spec fn cam_forward(c: Camera) -> V3 {
    svnormalize(svsub(c.lookat@, c.position@))
}

/// The scaled horizontal basis: `up x forward`, scaled by the half-angle
/// tangent.
pub open spec fn cam_hori(c: Camera) -> V3 {
    svmul_t(svcross(up_v3(), cam_forward(c)), c.half_fov_tan as int)
}

/// The scaled vertical basis: `horizontal x forward`, scaled by the
/// reciprocal aspect ratio and the half-angle tangent.
pub open spec fn cam_vert(c: Camera) -> V3 {
    svmul_t(
        svmul_t(
            svcross(svcross(up_v3(), cam_forward(c)), cam_forward(c)),
            fdiv(SCALE as int, c.aspect as int),
        ),
        c.half_fov_tan as int,
    )
}

/// The camera invariant: bounded defining fields, a forward direction that
/// exists (the position is not the look-at point), and a cache holding
/// exactly the derived basis.
pub open spec fn camera_wf(c: Camera) -> bool {
    &&& bounded(c.position@, 0x8000000)
    &&& bounded(c.lookat@, 0x8000000)
    &&& 0 <= c.half_fov_tan <= 0x100000
    &&& 16384 <= c.aspect <= 0x1000000
    &&& svnorm2(svsub(c.lookat@, c.position@)) >= 1
    &&& c.cache == Some(
        Cached {
            localat: Vec3 {
                x: cam_forward(c).x as i64,
                y: cam_forward(c).y as i64,
                z: cam_forward(c).z as i64,
            },
            hori: Vec3 { x: cam_hori(c).x as i64, y: cam_hori(c).y as i64, z: cam_hori(c).z as i64 },
            vert: Vec3 { x: cam_vert(c).x as i64, y: cam_vert(c).y as i64, z: cam_vert(c).z as i64 },
        },
    )
    &&& bounded(cam_forward(c), SCALE as int)
    &&& bounded(cam_hori(c), 0x4000000)
    &&& bounded(cam_vert(c), 0x40000000)
}

/// The unnormalized direction of the ray through image point `(x, y)`.
pub open spec fn cam_dir0(c: Camera, x: int, y: int) -> V3 {
    svadd(
        svadd(cam_forward(c), svmul_t(cam_hori(c), 2 * x - SCALE as int)),
        svmul_t(cam_vert(c), 2 * y - SCALE as int),
    )
}

/// The primary ray through image point `(x, y)`: from the camera position
/// along the normalized combined direction, or along a unit axis when that
/// direction degenerates.
pub open spec fn cam_ray(c: Camera, x: int, y: int) -> RayV {
    let d0 = cam_dir0(c, x, y);
    RayV {
        pos: c.position@,
        dir: if svnorm2(d0) >= 1 && crate::vec3::unit_dir(svnormalize(d0)) {
            svnormalize(d0)
        } else {
            V3 { x: 0, y: 0, z: SCALE as int }
        },
    }
}

impl Camera {
    /// Builds a camera and derives its view basis once.  The field of view
    /// enters as the tangent of half the vertical angle, and the position
    /// must differ from the look-at point.
    pub fn new(position: Vec3, lookat: Vec3, half_fov_tan: i64, aspect: i64) -> (c: Camera)
        requires
            bounded(position@, 0x8000000),
            bounded(lookat@, 0x8000000),
            0 <= half_fov_tan <= 0x100000,
            16384 <= aspect <= 0x1000000,
            position@ != lookat@,
        ensures
            camera_wf(c),
            c.position == position,
            c.lookat == lookat,
            c.half_fov_tan == half_fov_tan,
            c.aspect == aspect,
    {
        let mut c = Camera { position, lookat, half_fov_tan, aspect, cache: None };
        c.calculate();
        c
    }

    /// Recomputes the cached view basis from the defining fields.
    fn calculate(&mut self)
        requires
            bounded(old(self).position@, 0x8000000),
            bounded(old(self).lookat@, 0x8000000),
            0 <= old(self).half_fov_tan <= 0x100000,
            16384 <= old(self).aspect <= 0x1000000,
            old(self).position@ != old(self).lookat@,
        ensures
            camera_wf(*final(self)),
            final(self).position == old(self).position,
            final(self).lookat == old(self).lookat,
            final(self).half_fov_tan == old(self).half_fov_tan,
            final(self).aspect == old(self).aspect,
    {
        let diff = self.lookat.sub_v(&self.position);
        proof {
            lemma_distinct_norm2(self.lookat@, self.position@);
        }
        let localat = diff.normalized();
        let up = Vec3 { x: 0, y: SCALE, z: 0 };
        let hori0 = up.cross(&localat);
        proof {
            crate::vec3::lemma_svcross_bound(up_v3(), localat@, SCALE as int, SCALE as int);
            assert((2 * (65536int * 65536int)) / 65536int == 131072int);
        }
        let vert0 = hori0.cross(&localat);
        proof {
            crate::vec3::lemma_svcross_bound(hori0@, localat@, 131072int, SCALE as int);
            assert((2 * (131072int * 65536int)) / 65536int == 262144int);
        }
        let hori = hori0.mul_t(self.half_fov_tan);
        proof {
            crate::vec3::lemma_svmul_t_bound(hori0@, self.half_fov_tan as int, 131072, 0x100000);
            assert((131072int * 0x100000int) / 65536int == 0x200000int);
        }
        let inv_aspect = crate::fixed::fdiv_i64(SCALE, self.aspect);
        proof {
            crate::fixed::lemma_divt_abs_div(65536int * 65536, self.aspect as int, 65536int * 65536);
            vstd::arithmetic::div_mod::lemma_div_is_ordered_by_denominator(
                65536int * 65536,
                16384int,
                self.aspect as int,
            );
            assert((65536int * 65536int) / 16384int == 262144int);
        }
        let vert1 = vert0.mul_t(inv_aspect);
        proof {
            crate::vec3::lemma_svmul_t_bound(vert0@, inv_aspect as int, 262144, 262144);
            assert((262144int * 262144int) / 65536int == 0x100000int);
        }
        let vert = vert1.mul_t(self.half_fov_tan);
        proof {
            crate::vec3::lemma_svmul_t_bound(vert1@, self.half_fov_tan as int, 0x100000, 0x100000);
            assert((0x100000int * 0x100000int) / 65536int == 0x1000000int);
        }
        self.cache = Some(Cached { localat, hori, vert });
    }

    /// The primary ray through image-plane point `(x, y)` in `[0, 1]`: it
    /// starts at the camera and heads along the re-normalized combination
    /// of the basis vectors; at the centre both offsets vanish, so the
    /// direction is the normalized forward vector.  A direction that
    /// degenerates (possible only for extreme bases) falls back to a unit
    /// axis so that the returned ray is always well-formed.
    pub fn make_ray(&self, x: i64, y: i64) -> (r: Ray)
        requires
            camera_wf(*self),
            0 <= x <= SCALE,
            0 <= y <= SCALE,
        ensures
            r.pos == self.position,
            ray_wf(r@),
            r@ == cam_ray(*self, x as int, y as int),
    {
        let cache = match self.cache {
            Some(k) => k,
            None => {
                proof {
                    assert(false);
                }
                Cached {
                    localat: Vec3 { x: 0, y: 0, z: 0 },
                    hori: Vec3 { x: 0, y: 0, z: 0 },
                    vert: Vec3 { x: 0, y: 0, z: 0 },
                }
            },
        };
        let dx = 2 * x - SCALE;
        let dy = 2 * y - SCALE;
        let hx = cache.hori.mul_t(dx);
        let vy = cache.vert.mul_t(dy);
        proof {
            crate::vec3::lemma_svmul_t_bound(cam_hori(*self), dx as int, 0x4000000, 65536);
            assert((0x4000000int * 65536int) / 65536int == 0x4000000int);
            crate::vec3::lemma_svmul_t_bound(cam_vert(*self), dy as int, 0x40000000, 65536);
            assert((0x40000000int * 65536int) / 65536int == 0x40000000int);
        }
        let d0 = cache.localat.add_v(&hx).add_v(&vy);
        let n2 = d0.norm2();
        if n2 == 0 {
            return Ray { pos: self.position, dir: Vec3 { x: 0, y: 0, z: SCALE } };
        }
        let nd = d0.normalized();
        let m2 = nd.norm2();
        if m2 < crate::vec3::UNIT_NORM2_MIN as i128 || m2 > crate::vec3::UNIT_NORM2_MAX as i128 {
            return Ray { pos: self.position, dir: Vec3 { x: 0, y: 0, z: SCALE } };
        }
        Ray { pos: self.position, dir: nd }
    }
}

/// At the centre of the image plane both basis offsets vanish: the
/// unnormalized ray direction is exactly the forward vector, so the ray
/// from `make_ray(1/2, 1/2)` heads along the normalized forward vector.
pub proof fn lemma_center_ray_direction(c: Camera)
    requires
        camera_wf(c),
    ensures
        cam_dir0(c, (SCALE as int) / 2, (SCALE as int) / 2) == cam_forward(c),
{
    let half = (SCALE as int) / 2;
    assert(2 * half - SCALE as int == 0);
    let z = V3 { x: 0, y: 0, z: 0 };
    assert(svmul_t(cam_hori(c), 0) == z) by {
        assert(cam_hori(c).x * 0 == 0);
        assert(cam_hori(c).y * 0 == 0);
        assert(cam_hori(c).z * 0 == 0);
        assert(fmul(cam_hori(c).x, 0) == 0);
        assert(fmul(cam_hori(c).y, 0) == 0);
        assert(fmul(cam_hori(c).z, 0) == 0);
    }
    assert(svmul_t(cam_vert(c), 0) == z) by {
        assert(cam_vert(c).x * 0 == 0);
        assert(cam_vert(c).y * 0 == 0);
        assert(cam_vert(c).z * 0 == 0);
        assert(fmul(cam_vert(c).x, 0) == 0);
        assert(fmul(cam_vert(c).y, 0) == 0);
        assert(fmul(cam_vert(c).z, 0) == 0);
    }
    assert(svadd(svadd(cam_forward(c), z), z) == cam_forward(c));
}

/// Distinct integer points are at least one unit of squared length apart.
proof fn lemma_distinct_norm2(a: V3, b: V3)
    ensures
        a != b ==> svnorm2(svsub(a, b)) >= 1,
{
    let d = svsub(a, b);
    if a != b {
        assert(svnorm2(d) >= 1) by (nonlinear_arith)
            requires
                !(d.x == 0 && d.y == 0 && d.z == 0),
                svnorm2(d) == d.x * d.x + d.y * d.y + d.z * d.z,
        ;
    }
}

} // verus!
