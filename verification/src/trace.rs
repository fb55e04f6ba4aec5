//! The recursive radiance estimator with Russian-roulette termination, and
//! the full-frame tracer.

use vstd::prelude::*;

use crate::camera::{camera_wf, Camera};
use crate::fixed::{divt, smax_int, smin_int, SCALE};
use crate::image::{image_wf, rgb_le, rgb_wf, Image, RGB};
use crate::random::{random_real, random_vec};
use crate::scene::{
    object_normal, ray_wf, scene_hit, scene_wf, LinearScene, Ray, ReflectanceFunction,
};
use crate::vec3::{bounded, svdot, svmul_t, svneg, svnorm2, svsub, Vec3, V3};

verus! {

/// The hard recursion cap: roulette terminates paths in expectation, this
/// bounds worst-case stack use.
pub const MAX_DEPTH: u32 = 64;

/// The offset along a scattered direction that keeps a child ray from
/// immediately re-meeting the surface it left (about a thousandth).
pub const RAY_EPS: i64 = 66;

/// The longest hit distance a path will follow before giving up.
pub const MAX_DIST: i64 = 0x2000000000;

/// A fatal invariant violation met while tracing: the render must stop,
/// not silently recover.
#[derive(Clone, Copy, Debug, PartialEq, Eq, Structural)]
pub enum TraceError {
    /// A hit point lay on no face of its box within tolerance.
    OffSurfacePoint,
    /// A scattered ray degenerated past use (collapsed or escaped).
    DegenerateScatter,
}

/// The world point at which a ray meets a surface at distance `d`.
pub open spec fn hit_point(rv: crate::scene::RayV, d: int) -> V3 {
    crate::vec3::svadd(rv.pos, svmul_t(rv.dir, d))
}

/// The largest reflectance channel, the roulette survival weight.
pub open spec fn max_component(c: RGB) -> int {
    smax_int(c.r as int, smax_int(c.g as int, c.b as int))
}

/// Whether a path survives the roulette for one uniform draw: only draws
/// strictly below the largest reflectance channel continue.
pub open spec fn roulette_survives(maxc: int, r: int) -> bool {
    r < maxc
}

/// Decides the roulette for one uniform draw: survival (the caller then
/// rescales the colour by the reciprocal weight) exactly when the draw
/// falls below the largest reflectance channel; a zero weight never
/// survives.
pub fn roulette_with(maxc: i64, r: i64) -> (s: bool)
    requires
        0 <= r < SCALE,
        0 <= maxc,
    ensures
        s == roulette_survives(maxc as int, r as int),
        maxc == 0 ==> !s,
{
    r < maxc
}

/// A random direction flipped into the hemisphere of the normal.
pub open spec fn flip_to_hemisphere(d: V3, n: V3) -> V3 {
    if svdot(d, n) < 0 {
        svneg(d)
    } else {
        d
    }
}

/// The ideal mirror direction: `d - n * 2 * dot(n, d)`.
pub open spec fn reflect(d: V3, n: V3) -> V3 {
    svsub(d, svmul_t(n, 2 * svdot(n, d)))
}

/// Flips a sampled direction to the hemisphere matching the surface
/// normal, keeping its length.
pub fn diffuse_bounce(rand_dir: &Vec3, normal: &Vec3) -> (d: Vec3)
    requires
        bounded(rand_dir@, SCALE as int),
        bounded(normal@, SCALE as int),
    ensures
        d@ == flip_to_hemisphere(rand_dir@, normal@),
        bounded(d@, SCALE as int),
        svnorm2(d@) == svnorm2(rand_dir@),
{
    if rand_dir.dot(normal) < 0 {
        proof {
            crate::vec3::lemma_svneg_norm2(rand_dir@);
        }
        rand_dir.neg_v()
    } else {
        *rand_dir
    }
}

/// The ideal mirror reflection of an incoming direction about a normal.
pub fn specular_bounce(dir: &Vec3, normal: &Vec3) -> (d: Vec3)
    requires
        bounded(dir@, SCALE as int),
        bounded(normal@, SCALE as int),
    ensures
        d@ == reflect(dir@, normal@),
        bounded(d@, 0x80000),
{
    proof {
        crate::vec3::lemma_svdot_bound(normal@, dir@, SCALE as int, SCALE as int);
        assert((3 * (65536int * 65536int)) / 65536int == 196608int);
    }
    let nd = normal.dot(dir);
    let two_nd = 2 * nd;
    proof {
        crate::vec3::lemma_svmul_t_bound(normal@, two_nd as int, 65536, 0x60000);
        assert((65536int * 0x60000int) / 65536int == 0x60000int);
    }
    dir.sub_v(&normal.mul_t(two_nd))
}

/// The recursive radiance estimate for one ray.
///
/// A ray that meets nothing carries exactly zero radiance.  A hit on a
/// material whose reflectance colour is all black terminates at once with
/// the material's emission alone (the roulette survival weight is zero).
/// Otherwise the path continues with a sampled bounce and the result is
/// `emission + colour (*) child`, component-wise; every radiance returned
/// is well-formed.  An error reports a fatal invariant violation.
pub fn trace_ray(scene: &LinearScene, ray: &Ray, depth: u32) -> (res: Result<RGB, TraceError>)
    requires
        scene_wf(*scene),
        ray_wf(ray@),
        depth <= MAX_DEPTH,
    ensures
        scene_hit(scene.objs@, ray@) is None ==> res == Ok::<RGB, TraceError>(
            RGB { r: 0i64, g: 0i64, b: 0i64 },
        ),
        res is Ok ==> rgb_wf(res->Ok_0),
        ({
            let h = scene_hit(scene.objs@, ray@);
            h is Some && max_component(scene.objs@[h->Some_0.1].material.color) == 0
                ==> res == Ok::<RGB, TraceError>(scene.objs@[h->Some_0.1].material.emission)
        }),
        ({
            let h = scene_hit(scene.objs@, ray@);
            h is Some && depth == MAX_DEPTH ==> res == Ok::<RGB, TraceError>(
                scene.objs@[h->Some_0.1].material.emission,
            )
        }),
        ({
            let h = scene_hit(scene.objs@, ray@);
            h is Some && res is Ok ==> rgb_le(
                scene.objs@[h->Some_0.1].material.emission,
                res->Ok_0,
            )
        }),
        ({
            let h = scene_hit(scene.objs@, ray@);
            h is Some && depth <= 5 && max_component(scene.objs@[h->Some_0.1].material.color)
                != 0 && h->Some_0.0 > MAX_DIST ==> res == Err::<RGB, TraceError>(
                TraceError::DegenerateScatter,
            )
        }),
        ({
            let h = scene_hit(scene.objs@, ray@);
            h is Some && depth <= 5 && max_component(scene.objs@[h->Some_0.1].material.color)
                != 0 && h->Some_0.0 <= MAX_DIST && !bounded(
                hit_point(ray@, h->Some_0.0),
                0x7000000,
            ) ==> res == Err::<RGB, TraceError>(TraceError::DegenerateScatter)
        }),
        ({
            let h = scene_hit(scene.objs@, ray@);
            h is Some && depth <= 5 && max_component(scene.objs@[h->Some_0.1].material.color)
                != 0 && h->Some_0.0 <= MAX_DIST && bounded(hit_point(ray@, h->Some_0.0), 0x7000000)
                && object_normal(scene.objs@[h->Some_0.1], hit_point(ray@, h->Some_0.0)) is None
                ==> res == Err::<RGB, TraceError>(TraceError::OffSurfacePoint)
        }),
    decreases MAX_DEPTH - depth,
{
    let hit = match scene.intersect(ray) {
        None => {
            return Ok(RGB::black());
        },
        Some(h) => h,
    };
    let obj = scene.objs[hit.index];
    let emission = obj.material.emission;
    let color = obj.material.color;
    let maxc = crate::fixed::maxf(color.r, crate::fixed::maxf(color.g, color.b));
    if depth >= MAX_DEPTH {
        return Ok(emission);
    }
    let mut colr = color;
    if depth > 5 || maxc == 0 {
        let rr = random_real();
        if roulette_with(maxc, rr) {
            proof {
                crate::fixed::lemma_divt_abs_le(65536int * 65536, maxc as int, 0x100000000int);
                vstd::arithmetic::div_mod::lemma_div_pos_is_pos(65536int * 65536, maxc as int);
            }
            let inv = crate::fixed::fdiv_i64(SCALE, maxc);
            colr = color.mul_t(inv);
        } else {
            return Ok(emission);
        }
    }
    let rf = obj.material.rfd.sample();
    let dist = hit.distance;
    if dist > MAX_DIST {
        return Err(TraceError::DegenerateScatter);
    }
    let step = ray.dir.mul_t(dist);
    proof {
        crate::vec3::lemma_svmul_t_bound(ray@.dir, dist as int, 65536, 0x2000000000);
        crate::fixed::lemma_div_exact(65536int, 0x2000000000int);
    }
    let hp = ray.pos.add_v(&step);
    if hp.x < -0x7000000 || hp.x > 0x7000000 || hp.y < -0x7000000 || hp.y > 0x7000000 || hp.z
        < -0x7000000 || hp.z > 0x7000000 {
        return Err(TraceError::DegenerateScatter);
    }
    let normal = match obj.try_normal_at(&hp) {
        Some(n) => n,
        None => {
            return Err(TraceError::OffSurfacePoint);
        },
    };
    let nd = match rf {
        ReflectanceFunction::Diffuse => {
            let rv = random_vec();
            diffuse_bounce(&rv, &normal)
        },
        ReflectanceFunction::Specular => {
            let refl = specular_bounce(&ray.dir, &normal);
            let n2 = refl.norm2();
            if n2 == 0 {
                return Err(TraceError::DegenerateScatter);
            }
            let nn = refl.normalized();
            let m2 = nn.norm2();
            if m2 < crate::vec3::UNIT_NORM2_MIN as i128 || m2 > crate::vec3::UNIT_NORM2_MAX as i128 {
                return Err(TraceError::DegenerateScatter);
            }
            nn
        },
    };
    let off = nd.mul_t(RAY_EPS);
    let child_pos = hp.add_v(&off);
    let child = Ray { pos: child_pos, dir: nd };
    let sub = match trace_ray(scene, &child, depth + 1) {
        Ok(c) => c,
        Err(e) => {
            return Err(e);
        },
    };
    Ok(emission.add_v(&colr.mul_v(&sub)))
}

/// One primary sample: the camera ray through `(x, y)` traced at depth
/// zero.
pub fn trace_pixel(x: i64, y: i64, camera: &Camera, scene: &LinearScene) -> (res: Result<
    RGB,
    TraceError,
>)
    requires
        camera_wf(*camera),
        scene_wf(*scene),
        0 <= x <= SCALE,
        0 <= y <= SCALE,
    ensures
        res is Ok ==> rgb_wf(res->Ok_0),
        scene_hit(scene.objs@, crate::camera::cam_ray(*camera, x as int, y as int)) is None
            ==> res == Ok::<RGB, TraceError>(RGB { r: 0i64, g: 0i64, b: 0i64 }),
        ({
            let h = scene_hit(scene.objs@, crate::camera::cam_ray(*camera, x as int, y as int));
            h is Some && max_component(scene.objs@[h->Some_0.1].material.color) == 0
                ==> res == Ok::<RGB, TraceError>(scene.objs@[h->Some_0.1].material.emission)
        }),
        ({
            let h = scene_hit(scene.objs@, crate::camera::cam_ray(*camera, x as int, y as int));
            h is Some && res is Ok ==> rgb_le(
                scene.objs@[h->Some_0.1].material.emission,
                res->Ok_0,
            )
        }),
{
    let ray = camera.make_ray(x, y);
    trace_ray(scene, &ray, 0)
}

/// Whether every admissible jitter of pixel `(xi, yi)` sends its camera
/// ray past the whole scene.
pub open spec fn pixel_always_misses(
    scene: LinearScene,
    cam: Camera,
    w: int,
    h: int,
    xi: int,
    yi: int,
) -> bool {
    forall|jx: int, jy: int|
        #![trigger jitter_spec(xi, w, jx), jitter_spec(yi, h, jy)]
        0 <= jx < SCALE && 0 <= jy < SCALE ==> scene_hit(
            scene.objs@,
            crate::camera::cam_ray(cam, jitter_spec(xi, w, jx), jitter_spec(yi, h, jy)),
        ) is None
}

/// Whether every admissible jitter of pixel `(xi, yi)` meets an object of
/// all-black reflectance whose emission is `e`.
pub open spec fn pixel_always_emits(
    scene: LinearScene,
    cam: Camera,
    w: int,
    h: int,
    xi: int,
    yi: int,
    e: RGB,
) -> bool {
    forall|jx: int, jy: int|
        #![trigger jitter_spec(xi, w, jx), jitter_spec(yi, h, jy)]
        0 <= jx < SCALE && 0 <= jy < SCALE ==> {
            let hh = scene_hit(
                scene.objs@,
                crate::camera::cam_ray(cam, jitter_spec(xi, w, jx), jitter_spec(yi, h, jy)),
            );
            &&& hh is Some
            &&& max_component(scene.objs@[hh->Some_0.1].material.color) == 0
            &&& scene.objs@[hh->Some_0.1].material.emission == e
        }
}

/// Whether every admissible jitter of pixel `(xi, yi)` yields a ray that
/// either meets nothing or meets an object of all-black reflectance: the
/// tracer's deterministic terminal cases, on which a frame is owed.
pub open spec fn pixel_terminal(
    scene: LinearScene,
    cam: Camera,
    w: int,
    h: int,
    xi: int,
    yi: int,
) -> bool {
    forall|jx: int, jy: int|
        #![trigger jitter_spec(xi, w, jx), jitter_spec(yi, h, jy)]
        0 <= jx < SCALE && 0 <= jy < SCALE ==> {
            let hh = scene_hit(
                scene.objs@,
                crate::camera::cam_ray(cam, jitter_spec(xi, w, jx), jitter_spec(yi, h, jy)),
            );
            hh is Some ==> max_component(scene.objs@[hh->Some_0.1].material.color) == 0
        }
}

/// Distinct pixels have distinct row-major indices.
proof fn lemma_row_major_distinct(w: int, xi: int, yi: int, x2: int, y2: int)
    by (nonlinear_arith)
    requires
        0 <= xi < w,
        0 <= x2 < w,
        yi >= 0,
        y2 >= 0,
        !(xi == x2 && yi == y2),
    ensures
        yi * w + xi != y2 * w + x2,
{
}

/// A pixel's row-major index lies inside the buffer.
proof fn lemma_row_major_in_range(w: int, h: int, xi: int, yi: int)
    by (nonlinear_arith)
    requires
        0 <= xi < w,
        0 <= yi < h,
    ensures
        0 <= yi * w + xi < w * h,
{
}

/// Renders one complete frame: every pixel traced through a jittered
/// image-plane coordinate (the jitter spans about half a pixel, for
/// anti-aliasing under accumulation).  The frame reports no blended
/// iterations, and its buffer reflects the scene: a pixel whose camera
/// ray meets nothing under every admissible jitter is exactly black, and
/// one that meets an all-black-reflectance emitter under every jitter
/// holds exactly that emission.  A fatal trace error abandons the frame.
#[verifier::rlimit(100)]
#[verifier::spinoff_prover]
pub fn trace_image(
    opts: &crate::render::RenderOptions,
    camera: &Camera,
    scene: &LinearScene,
) -> (res: Result<Image, TraceError>)
    requires
        camera_wf(*camera),
        scene_wf(*scene),
        1 <= opts.width <= 0x8000,
        1 <= opts.height <= 0x8000,
    ensures
        match res {
            Ok(img) => {
                &&& image_wf(img)
                &&& img.w == opts.width
                &&& img.h == opts.height
                &&& img.iters == 0
                &&& forall|xi: int, yi: int|
                    0 <= xi < opts.width && 0 <= yi < opts.height
                        && #[trigger] pixel_always_misses(
                        *scene,
                        *camera,
                        opts.width as int,
                        opts.height as int,
                        xi,
                        yi,
                    ) ==> img.data@[yi * opts.width + xi] == (RGB { r: 0i64, g: 0i64, b: 0i64 })
                &&& forall|xi: int, yi: int, e: RGB|
                    0 <= xi < opts.width && 0 <= yi < opts.height
                        && #[trigger] pixel_always_emits(
                        *scene,
                        *camera,
                        opts.width as int,
                        opts.height as int,
                        xi,
                        yi,
                        e,
                    ) ==> img.data@[yi * opts.width + xi] == e
            },
            Err(_) => true,
        },
        (forall|xi: int, yi: int|
            0 <= xi < opts.width && 0 <= yi < opts.height ==> #[trigger] pixel_terminal(
                *scene,
                *camera,
                opts.width as int,
                opts.height as int,
                xi,
                yi,
            )) ==> res is Ok,
{
    let w = opts.width;
    let h = opts.height;
    let mut img = Image::new(w, h);
    let mut x: usize = 0;
    while x < w
        invariant
            camera_wf(*camera),
            scene_wf(*scene),
            w == opts.width,
            h == opts.height,
            1 <= w <= 0x8000,
            1 <= h <= 0x8000,
            image_wf(img),
            img.w == w,
            img.h == h,
            img.iters == 0,
            x <= w,
            forall|xi: int, yi: int|
                0 <= xi < x && 0 <= yi < h && #[trigger] pixel_always_misses(
                    *scene,
                    *camera,
                    w as int,
                    h as int,
                    xi,
                    yi,
                ) ==> img.data@[yi * w + xi] == (RGB { r: 0i64, g: 0i64, b: 0i64 }),
            forall|xi: int, yi: int, e: RGB|
                0 <= xi < x && 0 <= yi < h && #[trigger] pixel_always_emits(
                    *scene,
                    *camera,
                    w as int,
                    h as int,
                    xi,
                    yi,
                    e,
                ) ==> img.data@[yi * w + xi] == e,
        decreases w - x,
    {
        let mut y: usize = 0;
        while y < h
            invariant
                camera_wf(*camera),
                scene_wf(*scene),
                w == opts.width,
                h == opts.height,
                1 <= w <= 0x8000,
                1 <= h <= 0x8000,
                image_wf(img),
                img.w == w,
                img.h == h,
                img.iters == 0,
                x < w,
                y <= h,
                forall|xi: int, yi: int|
                    0 <= xi < w && 0 <= yi < h && (xi < x || (xi == x && yi < y))
                        && #[trigger] pixel_always_misses(
                        *scene,
                        *camera,
                        w as int,
                        h as int,
                        xi,
                        yi,
                    ) ==> img.data@[yi * w + xi] == (RGB { r: 0i64, g: 0i64, b: 0i64 }),
                forall|xi: int, yi: int, e: RGB|
                    0 <= xi < w && 0 <= yi < h && (xi < x || (xi == x && yi < y))
                        && #[trigger] pixel_always_emits(
                        *scene,
                        *camera,
                        w as int,
                        h as int,
                        xi,
                        yi,
                        e,
                    ) ==> img.data@[yi * w + xi] == e,
            decreases h - y,
        {
            let jx = random_real();
            let jy = random_real();
            let px = jittered_coord(x, w, jx);
            let py = jittered_coord(y, h, jy);
            let tp = trace_pixel(px, py, camera, scene);
            let c = match tp {
                Ok(c) => c,
                Err(e) => {
                    proof {
                        // An error contradicts an all-terminal frame: the
                        // drawn jitter of this pixel would have forced a
                        // successful trace.
                        if forall|xi: int, yi: int|
                            0 <= xi < opts.width && 0 <= yi < opts.height
                                ==> #[trigger] pixel_terminal(
                                *scene,
                                *camera,
                                opts.width as int,
                                opts.height as int,
                                xi,
                                yi,
                            ) {
                            assert(pixel_terminal(
                                *scene,
                                *camera,
                                opts.width as int,
                                opts.height as int,
                                x as int,
                                y as int,
                            ));
                            let cr = crate::camera::cam_ray(
                                *camera,
                                jitter_spec(x as int, opts.width as int, jx as int),
                                jitter_spec(y as int, opts.height as int, jy as int),
                            );
                            assert(cr == crate::camera::cam_ray(*camera, px as int, py as int));
                            let hh = scene_hit(scene.objs@, cr);
                            assert(hh is Some ==> max_component(
                                scene.objs@[hh->Some_0.1].material.color,
                            ) == 0);
                            assert(false);
                        }
                    }
                    return Err(e);
                },
            };
            proof {
                let wi = w as int;
                let hi = h as int;
                let cr = crate::camera::cam_ray(
                    *camera,
                    jitter_spec(x as int, wi, jx as int),
                    jitter_spec(y as int, hi, jy as int),
                );
                assert(cr == crate::camera::cam_ray(*camera, px as int, py as int));
                if pixel_always_misses(*scene, *camera, wi, hi, x as int, y as int) {
                    assert(scene_hit(scene.objs@, cr) is None);
                    assert(c == (RGB { r: 0i64, g: 0i64, b: 0i64 }));
                }
                assert forall|e: RGB|
                    #[trigger] pixel_always_emits(
                        *scene,
                        *camera,
                        wi,
                        hi,
                        x as int,
                        y as int,
                        e,
                    ) implies c == e by {
                    let hh = scene_hit(scene.objs@, cr);
                    assert(hh is Some && max_component(
                        scene.objs@[hh->Some_0.1].material.color,
                    ) == 0 && scene.objs@[hh->Some_0.1].material.emission == e);
                }
            }
            let ghost before = img.data@;
            img.set(x, y, c);
            proof {
                let wi = w as int;
                let hi = h as int;
                let widx = (y * w + x) as int;
                assert(img.data@ == before.update(widx, c));
                lemma_row_major_in_range(wi, hi, x as int, y as int);
                assert forall|xi: int, yi: int|
                    0 <= xi < w && 0 <= yi < h && (xi < x || (xi == x && yi < y + 1))
                        && #[trigger] pixel_always_misses(
                        *scene,
                        *camera,
                        wi,
                        hi,
                        xi,
                        yi,
                    ) implies img.data@[yi * wi + xi] == (RGB {
                    r: 0i64,
                    g: 0i64,
                    b: 0i64,
                }) by {
                    lemma_row_major_in_range(wi, hi, xi, yi);
                    if xi == x as int && yi == y as int {
                        assert(widx == yi * wi + xi);
                    } else {
                        lemma_row_major_distinct(wi, xi, yi, x as int, y as int);
                        assert(widx != yi * wi + xi);
                        assert(img.data@[yi * wi + xi] == before.update(widx, c)[yi * wi + xi]);
                        assert(img.data@[yi * wi + xi] == before[yi * wi + xi]);
                    }
                }
                assert forall|xi: int, yi: int, e: RGB|
                    0 <= xi < w && 0 <= yi < h && (xi < x || (xi == x && yi < y + 1))
                        && #[trigger] pixel_always_emits(
                        *scene,
                        *camera,
                        wi,
                        hi,
                        xi,
                        yi,
                        e,
                    ) implies img.data@[yi * wi + xi] == e by {
                    lemma_row_major_in_range(wi, hi, xi, yi);
                    if xi == x as int && yi == y as int {
                        assert(widx == yi * wi + xi);
                    } else {
                        lemma_row_major_distinct(wi, xi, yi, x as int, y as int);
                        assert(widx != yi * wi + xi);
                        assert(img.data@[yi * wi + xi] == before.update(widx, c)[yi * wi + xi]);
                        assert(img.data@[yi * wi + xi] == before[yi * wi + xi]);
                    }
                }
            }
            y += 1;
        }
        x += 1;
    }
    Ok(img)
}

/// The jittered fractional coordinate of pixel `i` among `n`: the pixel's
/// left edge plus a random sub-pixel offset, clamped into the image plane.
pub open spec fn jitter_spec(i: int, n: int, j: int) -> int {
    let raw = divt(i * (SCALE as int) + j - 32768, n);
    smax_int(0, smin_int(raw, SCALE as int))
}

/// Computes the jittered image-plane coordinate of one pixel.
fn jittered_coord(i: usize, n: usize, j: i64) -> (r: i64)
    requires
        i < n,
        n <= 0x8000,
        0 <= j < SCALE,
    ensures
        r == jitter_spec(i as int, n as int, j as int),
        0 <= r <= SCALE,
{
    let num = (i as i64) * 65536 + j - 32768;
    let raw = crate::fixed::divt_i64(num, n as i64);
    let clamped = crate::fixed::maxf(0, crate::fixed::minf(raw, SCALE));
    clamped
}

} // verus!
