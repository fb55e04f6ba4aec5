//! Geometry scenarios: shape intersections, bounding boxes, transforms and
//! the camera's centre ray, all with exact expected fixed-point values.

use rspt::aabb::AABB;
use rspt::camera::Camera;
use rspt::image::RGB;
use rspt::scene::{LinearScene, Material, Object, Ray, Shape};
use rspt::transform::{id, Transform};
use rspt::vec3::Vec3;

const S: i64 = 65536;

fn v(x: i64, y: i64, z: i64) -> Vec3 {
    Vec3 { x, y, z }
}

fn plain_scene(shape: Shape) -> LinearScene {
    LinearScene {
        objs: vec![Object::new(id(), shape, Material::diffuse(RGB::white(), RGB::black()))],
    }
}

#[test]
fn sphere_intersection_distance() {
    let scene = plain_scene(Shape::Sphere { radius: S });
    let ray = Ray { pos: v(0, 0, -5 * S), dir: v(0, 0, S) };
    let hit = scene.intersect(&ray).expect("the ray points at the sphere");
    assert_eq!(hit.distance, 4 * S);
    assert_eq!(hit.index, 0);
}

#[test]
fn sphere_miss_gives_nothing() {
    let scene = plain_scene(Shape::Sphere { radius: S });
    let ray = Ray { pos: v(0, 0, -5 * S), dir: v(0, 0, -S) };
    // The smaller quadratic root lies behind the origin on this side; the
    // scene keeps only strictly positive hits.
    assert!(scene.intersect(&ray).is_none());
}

#[test]
fn box_intersection_distance() {
    let aabb = AABB::from_min_max(v(-S, -S, -S), v(S, S, S));
    let scene = plain_scene(Shape::Box { aabb });
    let ray = Ray { pos: v(0, 0, -5 * S), dir: v(0, 0, S) };
    let hit = scene.intersect(&ray).expect("the ray points at the box");
    assert_eq!(hit.distance, 4 * S);
}

#[test]
fn box_miss_gives_nothing() {
    let aabb = AABB::from_min_max(v(-S, -S, -S), v(S, S, S));
    let scene = plain_scene(Shape::Box { aabb });
    let ray = Ray { pos: v(-5 * S, 5 * S, 0), dir: v(S, 0, 0) };
    assert!(scene.intersect(&ray).is_none());
}

#[test]
fn triangle_intersection_distance() {
    let scene = plain_scene(Shape::Triangle { a: v(0, 0, 0), b: v(S, 0, 0), c: v(0, S, 0) });
    let ray = Ray { pos: v(S / 4, S / 4, -S), dir: v(0, 0, S) };
    let hit = scene.intersect(&ray).expect("the ray points inside the triangle");
    assert_eq!(hit.distance, S);
}

#[test]
fn triangle_outside_barycentric_gives_nothing() {
    let scene = plain_scene(Shape::Triangle { a: v(0, 0, 0), b: v(S, 0, 0), c: v(0, S, 0) });
    // u + v would exceed one at this point beyond the hypotenuse.
    let ray = Ray { pos: v(3 * S / 4, 3 * S / 4, -S), dir: v(0, 0, S) };
    assert!(scene.intersect(&ray).is_none());
}

#[test]
fn stretch_to_is_idempotent() {
    let a = AABB::from_min_max(v(0, 0, 0), v(2 * S, 2 * S, 2 * S));
    let b = AABB::from_min_max(v(-S, S, 0), v(S, 3 * S, S));
    let mut once = a;
    once.stretch_to(&b);
    let mut twice = once;
    twice.stretch_to(&b);
    assert_eq!(once, twice);
}

#[test]
fn stretch_to_is_commutative() {
    let a = AABB::from_min_max(v(0, 0, 0), v(2 * S, 2 * S, 2 * S));
    let b = AABB::from_min_max(v(-S, S, 0), v(S, 3 * S, S));
    let mut ab = a;
    ab.stretch_to(&b);
    let mut ba = b;
    ba.stretch_to(&a);
    assert_eq!(ab, ba);
    assert_eq!(ab.min, v(-S, 0, 0));
    assert_eq!(ab.max, v(2 * S, 3 * S, 2 * S));
}

#[test]
fn from_origin_extents_sets_corners() {
    let b = AABB::from_origin_extents(v(S, 0, -S), v(S, 2 * S, 3 * S));
    assert_eq!(b.min, v(0, -2 * S, -4 * S));
    assert_eq!(b.max, v(2 * S, 2 * S, 2 * S));
}

#[test]
fn transformed_box_follows_translation() {
    let b = AABB::from_min_max(v(-S, -S, -S), v(S, S, S));
    let tr = Transform::new(
        v(S, 0, 0),
        v(0, S, 0),
        v(0, 0, S),
        v(3 * S, -2 * S, S),
    );
    let moved = b.transformed(&tr);
    assert_eq!(moved.min, v(2 * S, -3 * S, 0));
    assert_eq!(moved.max, v(4 * S, -S, 2 * S));
}

#[test]
fn transformed_box_envelopes_rotation() {
    // A quarter turn about the z axis: the square's corners swap axes.
    let b = AABB::from_min_max(v(0, 0, 0), v(2 * S, S, S));
    let tr = Transform::new(v(0, -S, 0), v(S, 0, 0), v(0, 0, S), v(0, 0, 0));
    let moved = b.transformed(&tr);
    assert_eq!(moved.min, v(-S, 0, 0));
    assert_eq!(moved.max, v(0, 2 * S, S));
}

#[test]
fn sphere_bounding_box_is_exact() {
    let obj = Object::new(
        id(),
        Shape::Sphere { radius: S },
        Material::diffuse(RGB::white(), RGB::black()),
    );
    let bb = obj.bounding_box();
    assert_eq!(bb.min, v(-S, -S, -S));
    assert_eq!(bb.max, v(S, S, S));
}

#[test]
fn translated_sphere_intersects_where_it_stands() {
    let tr = Transform::new(v(S, 0, 0), v(0, S, 0), v(0, 0, S), v(0, 0, 3 * S));
    let obj = Object::new(tr, Shape::Sphere { radius: S }, Material::diffuse(
        RGB::white(),
        RGB::black(),
    ));
    let scene = LinearScene { objs: vec![obj] };
    let ray = Ray { pos: v(0, 0, -5 * S), dir: v(0, 0, S) };
    let hit = scene.intersect(&ray).expect("the sphere sits three units along z");
    assert_eq!(hit.distance, 7 * S);
}

#[test]
fn nearest_object_wins_and_ties_go_to_the_first() {
    let near = Object::new(id(), Shape::Sphere { radius: S }, Material::diffuse(
        RGB::white(),
        RGB::black(),
    ));
    let far_tr = Transform::new(v(S, 0, 0), v(0, S, 0), v(0, 0, S), v(0, 0, 10 * S));
    let far = Object::new(far_tr, Shape::Sphere { radius: S }, Material::diffuse(
        RGB::white(),
        RGB::black(),
    ));
    let scene = LinearScene { objs: vec![far, near] };
    let ray = Ray { pos: v(0, 0, -5 * S), dir: v(0, 0, S) };
    let hit = scene.intersect(&ray).expect("both spheres lie on the ray");
    assert_eq!(hit.index, 1);
    assert_eq!(hit.distance, 4 * S);

    let twin = LinearScene { objs: vec![near, near] };
    let hit2 = twin.intersect(&ray).expect("identical spheres");
    assert_eq!(hit2.index, 0);
}

#[test]
fn sphere_normal_points_outward() {
    let obj = Object::new(
        id(),
        Shape::Sphere { radius: S },
        Material::diffuse(RGB::white(), RGB::black()),
    );
    let n = obj.normal_at(&v(0, 0, -S));
    assert_eq!(n, v(0, 0, -S));
}

#[test]
fn box_normal_matches_face() {
    let aabb = AABB::from_min_max(v(-S, -S, -S), v(S, S, S));
    let obj = Object::new(id(), Shape::Box { aabb }, Material::diffuse(
        RGB::white(),
        RGB::black(),
    ));
    assert_eq!(obj.normal_at(&v(0, 0, -S)), v(0, 0, -S));
    assert_eq!(obj.normal_at(&v(S, 0, 0)), v(S, 0, 0));
    assert_eq!(obj.try_normal_at(&v(0, 0, 0)), None);
}

#[test]
fn triangle_normal_is_the_plane_normal() {
    let obj = Object::new(
        id(),
        Shape::Triangle { a: v(0, 0, 0), b: v(S, 0, 0), c: v(0, S, 0) },
        Material::diffuse(RGB::white(), RGB::black()),
    );
    assert_eq!(obj.normal_at(&v(0, 0, 0)), v(0, 0, S));
}

#[test]
fn center_ray_heads_at_the_lookat_target() {
    let cam = Camera::new(v(0, 0, -5 * S), v(0, 0, 0), S, S);
    let ray = cam.make_ray(S / 2, S / 2);
    assert_eq!(ray.pos, v(0, 0, -5 * S));
    assert_eq!(ray.dir, v(0, 0, S));
}

#[test]
fn corner_rays_spread_with_the_basis() {
    let cam = Camera::new(v(0, 0, -5 * S), v(0, 0, 0), S, S);
    let left = cam.make_ray(0, S / 2);
    let right = cam.make_ray(S, S / 2);
    assert!(left.dir.x != right.dir.x);
    assert_eq!(left.dir.x, -right.dir.x);
}
