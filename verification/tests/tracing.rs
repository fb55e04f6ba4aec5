//! Accumulation, sampling and path-tracing behaviour: exact blends, the
//! order-independence of accumulation, zero radiance for empty scenes,
//! reflectance sampling splits, and single-bounce convergence.

use rspt::image::{clamp, f2i, Image, RGB};
use rspt::render::{Progress, RenderOptions};
use rspt::scene::{
    LinearScene, Material, Object, Ray, ReflectanceDistribution, ReflectanceFunction, Shape,
};
use rspt::trace::{roulette_with, trace_image, trace_ray};
use rspt::transform::id;
use rspt::vec3::Vec3;
use rspt::camera::Camera;

const S: i64 = 65536;

fn v(x: i64, y: i64, z: i64) -> Vec3 {
    Vec3 { x, y, z }
}

fn rgb(r: i64, g: i64, b: i64) -> RGB {
    RGB { r, g, b }
}

fn one_pixel_frame(c: RGB) -> Image {
    let mut f = Image::new(1, 1);
    f.set(0, 0, c);
    f
}

#[test]
fn blend_accumulates_sums_and_count() {
    let mut acc = Image::new(1, 1);
    one_pixel_frame(rgb(6, 60, 600)).blend_into(&mut acc);
    one_pixel_frame(rgb(10, 20, 30)).blend_into(&mut acc);
    assert_eq!(acc.iters, 2);
    assert_eq!(acc.get(0, 0), rgb(16, 80, 630));
    assert_eq!(acc.average_at(0, 0), rgb(8, 40, 315));
}

#[test]
fn blend_order_does_not_matter() {
    let frames = [rgb(3, 1, 9), rgb(5, 4, 2), rgb(7, 100, 65536)];
    let orders: [[usize; 3]; 2] = [[0, 1, 2], [2, 0, 1]];
    let mut results: Vec<RGB> = Vec::new();
    for order in orders.iter() {
        let mut acc = Image::new(1, 1);
        for &i in order.iter() {
            one_pixel_frame(frames[i]).blend_into(&mut acc);
        }
        assert_eq!(acc.iters, 3);
        results.push(acc.get(0, 0));
    }
    assert_eq!(results[0], results[1]);
}

#[test]
fn each_coordinate_walks_columns_first() {
    let img = Image::new(2, 3);
    let coords = img.each_coordinate();
    assert_eq!(coords, vec![(0, 0), (0, 1), (0, 2), (1, 0), (1, 1), (1, 2)]);
}

#[test]
fn rgb_operations_are_exact() {
    assert_eq!(rgb(1, 2, 3).add_v(&rgb(4, 5, 6)), rgb(5, 7, 9));
    assert_eq!(rgb(S, 2 * S, S / 2).mul_v(&RGB::white()), rgb(S, 2 * S, S / 2));
    assert_eq!(rgb(S, 2 * S, 4 * S).mul_t(S / 2), rgb(S / 2, S, 2 * S));
    assert_eq!(RGB::black(), rgb(0, 0, 0));
    assert_eq!(RGB::red(), rgb(S, 0, 0));
    assert_eq!(RGB::blue(), rgb(0, 0, S));
}

#[test]
fn export_clamps_and_quantizes() {
    assert_eq!(clamp(2 * S), S);
    assert_eq!(clamp(1234), 1234);
    assert_eq!(f2i(0), 0);
    assert_eq!(f2i(S), 255);
    assert_eq!(f2i(10 * S), 255);
    assert_eq!(f2i(S / 2), 127);
}

#[test]
fn no_hit_is_exactly_black() {
    let empty = LinearScene { objs: Vec::new() };
    let ray = Ray { pos: v(0, 0, 0), dir: v(0, 0, S) };
    assert_eq!(trace_ray(&empty, &ray, 0), Ok(RGB::black()));

    let aside = LinearScene {
        objs: vec![Object::new(
            id(),
            Shape::Sphere { radius: S },
            Material::diffuse(RGB::white(), RGB::black()),
        )],
    };
    let missing = Ray { pos: v(0, 5 * S, -5 * S), dir: v(0, 0, S) };
    assert_eq!(trace_ray(&aside, &missing, 0), Ok(RGB::black()));
}

#[test]
fn reflectance_sampling_has_two_outcomes_exactly() {
    let d = ReflectanceDistribution { diffuse: 19661, specular: 45875 };
    assert_eq!(d.diffuse + d.specular, S);
    assert_eq!(d.sample_with(0), ReflectanceFunction::Diffuse);
    assert_eq!(d.sample_with(19661), ReflectanceFunction::Diffuse);
    assert_eq!(d.sample_with(19662), ReflectanceFunction::Specular);
    assert_eq!(d.sample_with(65535), ReflectanceFunction::Specular);
}

#[test]
fn reflectance_sampling_split_converges() {
    let d = ReflectanceDistribution { diffuse: 19661, specular: 45875 };
    let n = 20000;
    let mut diffuse_count = 0u32;
    let mut specular_count = 0u32;
    for _ in 0..n {
        match d.sample() {
            ReflectanceFunction::Diffuse => diffuse_count += 1,
            ReflectanceFunction::Specular => specular_count += 1,
        }
    }
    assert_eq!(diffuse_count + specular_count, n);
    // Expected 30% diffuse; many standard deviations of slack.
    assert!(diffuse_count > n / 4, "diffuse share fell to {diffuse_count}");
    assert!(diffuse_count < n * 7 / 20, "diffuse share rose to {diffuse_count}");
}

#[test]
fn single_bounce_radiance_converges_to_the_light() {
    // A white diffuse floor facing a broad light panel whose reflectance
    // is black: every surviving path carries exactly one bounce of the
    // panel's emission, so the sample mean approaches it.
    let floor = Object::new(
        id(),
        Shape::Triangle {
            a: v(-10 * S, -10 * S, 0),
            b: v(10 * S, -10 * S, 0),
            c: v(0, 10 * S, 0),
        },
        Material::diffuse(RGB::white(), RGB::black()),
    );
    let emission = rgb(10 * S, 10 * S, 10 * S);
    let panel = Object::new(
        id(),
        Shape::Box {
            aabb: rspt::aabb::AABB::from_min_max(
                v(-1000 * S, -1000 * S, 10 * S),
                v(1000 * S, 1000 * S, 11 * S),
            ),
        },
        Material::diffuse(RGB::black(), emission),
    );
    let scene = LinearScene { objs: vec![floor, panel] };
    let ray = Ray { pos: v(0, 0, -5 * S), dir: v(0, 0, S) };
    let n: i64 = 300;
    let mut sum: i64 = 0;
    for _ in 0..n {
        if let Ok(c) = trace_ray(&scene, &ray, 0) {
            assert!(c.r == 0 || c.r == 10 * S);
            sum += c.r;
        }
    }
    let avg = sum / n;
    let expected = 10 * S;
    assert!(avg > expected * 9 / 10, "average {avg} fell far below {expected}");
    assert!(avg <= expected, "average {avg} exceeded {expected}");
}

#[test]
fn traced_frame_has_the_requested_size() {
    let scene = LinearScene {
        objs: vec![Object::new(
            id(),
            Shape::Sphere { radius: S },
            Material::diffuse(RGB::white(), rgb(S, S, S)),
        )],
    };
    let cam = Camera::new(v(0, 0, -5 * S), v(0, 0, 0), S, S);
    let opts = RenderOptions { width: 4, height: 3 };
    let frame = trace_image(&opts, &cam, &scene).expect("a tiny frame renders");
    assert_eq!(frame.w, 4);
    assert_eq!(frame.h, 3);
    assert_eq!(frame.iters, 0);
    assert_eq!(frame.data.len(), 12);
}

#[test]
fn empty_scene_renders_an_all_black_frame() {
    let empty = LinearScene { objs: Vec::new() };
    let cam = Camera::new(v(0, 0, -5 * S), v(0, 0, 0), S, S);
    let opts = RenderOptions { width: 3, height: 2 };
    let frame = trace_image(&opts, &cam, &empty).expect("an empty scene renders");
    for p in frame.data.iter() {
        assert_eq!(*p, RGB::black());
    }
}

#[test]
fn roulette_survival_follows_the_draw() {
    assert!(roulette_with(100, 99));
    assert!(!roulette_with(100, 100));
    assert!(!roulette_with(0, 0));
    assert!(!roulette_with(0, 65535));
    assert!(roulette_with(S, 65535));
}

#[test]
fn progress_counters_drive_the_loop() {
    let mut p = Progress::new();
    assert!(p.should_spawn());
    for _ in 0..8 {
        p.spawned();
    }
    assert!(!p.should_spawn());
    p.frame_blended();
    assert_eq!(p.done, 1);
    assert!(p.should_spawn());
    assert!(!p.offer_due());
    for _ in 0..9 {
        p.spawned();
        p.frame_blended();
    }
    assert_eq!(p.done, 10);
    assert!(p.offer_due());
}

#[test]
fn random_directions_are_unit_length() {
    let lo = (S as i128) * (S as i128) - 6 * (S as i128);
    let hi = (S as i128) * (S as i128) + 6 * (S as i128);
    for _ in 0..200 {
        let d = rspt::random::random_vec();
        assert!(d.x.abs() <= S && d.y.abs() <= S && d.z.abs() <= S);
        let n2 = (d.x as i128) * (d.x as i128) + (d.y as i128) * (d.y as i128)
            + (d.z as i128) * (d.z as i128);
        assert!(lo <= n2 && n2 <= hi, "squared length {n2} left the unit band");
    }
}

#[test]
fn uniform_draws_stay_in_the_unit_range() {
    let mut seen_distinct = false;
    let first = rspt::random::random_real();
    for _ in 0..1000 {
        let r = rspt::random::random_real();
        assert!((0..65536).contains(&r));
        if r != first {
            seen_distinct = true;
        }
    }
    assert!(seen_distinct, "a thousand uniform draws never differed");
}

#[test]
fn radiance_saturates_at_the_cap() {
    let cap = 0x200000000000i64;
    let big = rgb(cap - 1, cap, 1);
    let sum = big.add_v(&rgb(5, 5, 5));
    assert_eq!(sum, rgb(cap, cap, 6));
    let product = rgb(cap, S, 0).mul_t(cap);
    assert_eq!(product.r, cap);
    assert_eq!(product.g, cap);
    assert_eq!(product.b, 0);
}

#[test]
fn all_diffuse_distribution_always_scatters_diffusely() {
    let d = ReflectanceDistribution { diffuse: S, specular: 0 };
    for _ in 0..200 {
        assert_eq!(d.sample(), ReflectanceFunction::Diffuse);
    }
}

#[test]
fn roulette_terminates_black_reflectors_with_their_emission() {
    // A panel with zero reflectance on every channel emits and stops.
    let emission = rgb(3 * S, 2 * S, S);
    let panel = Object::new(
        id(),
        Shape::Box {
            aabb: rspt::aabb::AABB::from_min_max(v(-S, -S, 0), v(S, S, S)),
        },
        Material::diffuse(RGB::black(), emission),
    );
    let scene = LinearScene { objs: vec![panel] };
    let ray = Ray { pos: v(0, 0, -5 * S), dir: v(0, 0, S) };
    assert_eq!(trace_ray(&scene, &ray, 0), Ok(emission));
}
