//! Ray/sphere and scene intersection checks.

use vectors::fixed::{FIX_MAX, ONE};
use vectors::hittable::{HitRecord, Hittable, HittableEnum, HittableList, Sphere};
use vectors::interval::Interval;
use vectors::material::Material;
use vectors::ray::Ray;
use vectors::vec3::Vec3;

fn unit_half_sphere_at(z: i64, albedo: Vec3) -> Sphere {
    Sphere::new(Vec3(0, 0, z), ONE / 2, Material::Lambertian(albedo))
}

#[test]
fn head_on_hit_returns_entry_point() {
    // origin outside, direction at the center: t = distance - radius
    let s = unit_half_sphere_at(-2 * ONE, Vec3(ONE, 0, 0));
    let ray = Ray::new(Vec3(0, 0, 0), Vec3(0, 0, -ONE));
    let rec = s.hit(&ray, Interval::new(0, FIX_MAX)).unwrap();
    assert_eq!(rec.t, (3 * ONE) / 2, "entry at distance 2 less radius 0.5");
    assert!(rec.front_face);
    assert_eq!(rec.normal, Vec3(0, 0, ONE), "normal points away from center");
    assert_eq!(rec.point, Vec3(0, 0, -(3 * ONE) / 2));
    assert_eq!(rec.material, Material::Lambertian(Vec3(ONE, 0, 0)));
}

#[test]
fn hit_from_inside_flips_the_normal() {
    let s = unit_half_sphere_at(0, Vec3(ONE, 0, 0));
    let ray = Ray::new(Vec3(0, 0, 0), Vec3(0, 0, -ONE));
    let rec = s.hit(&ray, Interval::new(0, FIX_MAX)).unwrap();
    assert_eq!(rec.t, ONE / 2, "exit root accepted from inside");
    assert!(!rec.front_face);
    assert_eq!(rec.normal, Vec3(0, 0, ONE), "outward normal negated to face the ray");
}

#[test]
fn offset_beyond_radius_misses_for_every_window() {
    // perpendicular offset 2 exceeds the radius 0.5
    let s = unit_half_sphere_at(-2 * ONE, Vec3(ONE, 0, 0));
    let ray = Ray::new(Vec3(0, 2 * ONE, 0), Vec3(0, 0, -ONE));
    assert!(s.hit(&ray, Interval::new(0, FIX_MAX)).is_none());
    assert!(s.hit(&ray, Interval::universe()).is_none());
    assert!(s.hit(&ray, Interval::new(-FIX_MAX, ONE)).is_none());
}

#[test]
fn window_boundary_is_excluded() {
    let s = unit_half_sphere_at(-2 * ONE, Vec3(ONE, 0, 0));
    let ray = Ray::new(Vec3(0, 0, 0), Vec3(0, 0, -ONE));
    // the entry root is exactly 1.5; an acceptance window ending there
    // rejects it, and the exit root 2.5 as well
    assert!(s.hit(&ray, Interval::new(0, (3 * ONE) / 2)).is_none());
    let rec = s.hit(&ray, Interval::new(0, 3 * ONE)).unwrap();
    assert_eq!(rec.t, (3 * ONE) / 2);
}

#[test]
fn degenerate_ray_direction_hits_nothing() {
    let s = unit_half_sphere_at(-2 * ONE, Vec3(ONE, 0, 0));
    let ray = Ray::new(Vec3(0, 0, 0), Vec3(0, 0, 0));
    assert!(s.hit(&ray, Interval::universe()).is_none());
}

#[test]
fn list_returns_nearest_hit_regardless_of_order() {
    // two overlapping spheres ahead of the origin
    let near = unit_half_sphere_at(-2 * ONE, Vec3(ONE, 0, 0));
    let far = Sphere::new(
        Vec3(0, 0, -(5 * ONE) / 2),
        ONE / 2,
        Material::Lambertian(Vec3(0, ONE, 0)),
    );
    let ray = Ray::new(Vec3(0, 0, 0), Vec3(0, 0, -ONE));
    let window = Interval::new(0, FIX_MAX);

    let fwd = HittableList {
        objects: vec![HittableEnum::Sphere(near), HittableEnum::Sphere(far)],
    };
    let bwd = HittableList {
        objects: vec![HittableEnum::Sphere(far), HittableEnum::Sphere(near)],
    };
    let ra = fwd.hit(&ray, window).unwrap();
    let rb = bwd.hit(&ray, window).unwrap();
    assert_eq!(ra.t, (3 * ONE) / 2);
    assert_eq!(rb.t, (3 * ONE) / 2);
    assert_eq!(ra.material, Material::Lambertian(Vec3(ONE, 0, 0)));
    assert_eq!(rb.material, Material::Lambertian(Vec3(ONE, 0, 0)));
    assert_eq!(ra, rb);
}

#[test]
fn enum_dispatch_matches_the_sphere() {
    let s = unit_half_sphere_at(-2 * ONE, Vec3(ONE, 0, 0));
    let e = HittableEnum::Sphere(s);
    let ray = Ray::new(Vec3(0, 0, 0), Vec3(0, 0, -ONE));
    let window = Interval::new(0, FIX_MAX);
    assert_eq!(e.hit(&ray, window), s.hit(&ray, window));
}

#[test]
fn empty_scene_never_hits() {
    let world = HittableList { objects: vec![] };
    let ray = Ray::new(Vec3(0, 0, 0), Vec3(0, 0, -ONE));
    assert!(world.hit(&ray, Interval::universe()).is_none());
}

#[test]
fn set_face_normal_orients_against_the_ray() {
    let ray = Ray::new(Vec3(0, 0, 0), Vec3(0, 0, -ONE));
    let mut rec = HitRecord::new();
    rec.set_face_normal(&ray, Vec3(0, 0, ONE));
    assert!(rec.front_face);
    assert_eq!(rec.normal, Vec3(0, 0, ONE));
    rec.set_face_normal(&ray, Vec3(0, 0, -ONE));
    assert!(!rec.front_face);
    assert_eq!(rec.normal, Vec3(0, 0, ONE));
}

#[test]
fn ray_evaluates_along_its_direction() {
    let ray = Ray::new(Vec3(ONE, 0, 0), Vec3(0, 2 * ONE, 0));
    assert_eq!(ray.at(0), Vec3(ONE, 0, 0));
    assert_eq!(ray.at(ONE / 2), Vec3(ONE, ONE, 0));
    assert_eq!(ray.at(-ONE), Vec3(ONE, -2 * ONE, 0));
}
