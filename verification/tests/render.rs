//! Camera derivation and end-to-end rendering.

use vectors::camera::{background_color, Camera, HIT_EPS};
use vectors::constants::degrees_to_radians;
use vectors::fixed::{fxdiv, FIX_MAX, ONE};
use vectors::hittable::{Hittable, HittableEnum, HittableList, Sphere};
use vectors::interval::Interval;
use vectors::material::Material;
use vectors::ray::Ray;
use vectors::utils::Sampler;
use vectors::vec3::Vec3;

fn simple_scene() -> HittableList {
    let center = Sphere::new(
        Vec3(0, 0, -ONE),
        ONE / 2,
        Material::Lambertian(Vec3(ONE / 2, ONE / 2, ONE / 2)),
    );
    let ground = Sphere::new(
        Vec3(0, -(201 * ONE) / 2, -ONE),
        100 * ONE,
        Material::Lambertian(Vec3(ONE / 2, ONE / 2, 0)),
    );
    HittableList {
        objects: vec![HittableEnum::Sphere(center), HittableEnum::Sphere(ground)],
    }
}

fn simple_camera() -> Camera {
    Camera::new(
        fxdiv(16 * ONE, 9 * ONE),
        90 * ONE,
        400,
        1,
        1,
        Vec3(0, 0, 0),
        Vec3(0, 0, -ONE),
        Vec3(0, ONE, 0),
    )
}

#[test]
fn degrees_convert_to_radians() {
    // 90 degrees is pi/2: half of the raw pi constant
    assert_eq!(degrees_to_radians(90 * ONE), 102943);
    assert_eq!(degrees_to_radians(0), 0);
    assert_eq!(degrees_to_radians(180 * ONE), 205887);
}

#[test]
fn initialize_is_idempotent() {
    let mut a = simple_camera();
    a.initialize();
    let (h1, p1, du1, dv1, c1) =
        (a.image_height, a.pixel00_loc, a.pixel_delta_u, a.pixel_delta_v, a.center);
    a.initialize();
    assert_eq!(a.image_height, h1);
    assert_eq!(a.pixel00_loc, p1);
    assert_eq!(a.pixel_delta_u, du1);
    assert_eq!(a.pixel_delta_v, dv1);
    assert_eq!(a.center, c1);
}

#[test]
fn image_height_follows_the_aspect_ratio() {
    let mut cam = simple_camera();
    cam.initialize();
    // 400 / (16/9) floors to 225
    assert_eq!(cam.image_height, 225);
}

#[test]
fn background_blends_white_to_sky() {
    // straight up: fully sky blue
    let up = Ray::new(Vec3(0, 0, 0), Vec3(0, ONE, 0));
    assert_eq!(background_color(&up), Vec3(ONE / 2, 45875, ONE));
    // straight down: fully white
    let down = Ray::new(Vec3(0, 0, 0), Vec3(0, -ONE, 0));
    assert_eq!(background_color(&down), Vec3(ONE, ONE, ONE));
}

#[test]
fn ray_color_returns_background_on_a_miss() {
    let world = simple_scene();
    let cam = simple_camera();
    let up = Ray::new(Vec3(0, 0, 0), Vec3(0, ONE, 0));
    let mut s = Sampler::cycle(vec![ONE / 2]);
    let c = cam.ray_color(up, &world, 10, &mut s);
    assert_eq!(c, background_color(&up));
}

#[test]
fn ray_color_is_black_at_the_depth_floor() {
    let world = simple_scene();
    let cam = simple_camera();
    let r = Ray::new(Vec3(0, 0, 0), Vec3(0, 0, -ONE));
    let mut s = Sampler::cycle(vec![ONE / 2]);
    assert_eq!(cam.ray_color(r, &world, 0, &mut s), Vec3(0, 0, 0));
}

#[test]
fn get_ray_jitters_within_the_pixel_square() {
    let mut cam = simple_camera();
    cam.initialize();
    // a cycling zero draw puts both offsets at the square's low corner
    let mut s = Sampler::cycle(vec![0]);
    let jittered = cam.get_ray(3, 5, &mut s);
    let expected = cam.ray_for_pixel(3, 5, -(ONE / 2), -(ONE / 2));
    assert_eq!(jittered.origin, expected.origin);
    assert_eq!(jittered.dir, expected.dir);
}

#[test]
fn render_emits_the_full_pixel_grid() {
    // one sphere ahead, one ground sphere, 400x(16:9) at one unjittered
    // sample: the frame has 400 * 225 pixels, and the top-left pixel sees
    // no geometry, only the sky gradient
    let world = simple_scene();
    let mut cam = simple_camera();
    let mut sampler = Sampler::cycle(vec![ONE / 2]);
    let img = cam.render(&world, &mut sampler);
    assert_eq!(img.width, 400);
    assert_eq!(img.height, 225);
    assert_eq!(img.pixels.len(), 400 * 225);

    let mut reference = simple_camera();
    reference.initialize();
    let corner_ray = reference.ray_for_pixel(0, 0, 0, 0);
    assert!(
        world.hit(&corner_ray, Interval::new(HIT_EPS, FIX_MAX)).is_none(),
        "the top edge of this frame sees only sky"
    );
    let expected = background_color(&corner_ray).get_color();
    assert_eq!(img.pixels[0], expected);
}

#[test]
fn render_covers_geometry_pixels_too() {
    // the pixel at the image center looks straight at the near sphere;
    // with a cycling half-draw the diffuse bounce is deterministic, and
    // the result must differ from the sky gradient for the same ray
    let world = simple_scene();
    let mut cam = simple_camera();
    let mut sampler = Sampler::cycle(vec![ONE / 2]);
    let img = cam.render(&world, &mut sampler);

    let mut reference = simple_camera();
    reference.initialize();
    let center_ray = reference.ray_for_pixel(200, 112, 0, 0);
    assert!(world
        .hit(&center_ray, Interval::new(HIT_EPS, FIX_MAX))
        .is_some());
    let sky = background_color(&center_ray).get_color();
    let center_pixel = img.pixels[112 * 400 + 200];
    assert_ne!(center_pixel, sky);
}
