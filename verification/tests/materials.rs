//! Scattering behavior of the material variants.

use vectors::fixed::{fxdiv, ONE};
use vectors::material::Material;
use vectors::ray::Ray;
use vectors::utils::Sampler;
use vectors::vec3::Vec3;

/// Draws that make the rejection sampler accept `(0.5, 0, 0)` and so
/// produce the unit-sphere vector `(1, 0, 0)`.
fn unit_x_draws() -> Vec<i64> {
    vec![3 * ONE / 4, ONE / 2, ONE / 2]
}

/// Draws that make the rejection sampler accept `(0, 0, -0.5)` and so
/// produce the unit-sphere vector `(0, 0, -1)`.
fn unit_negz_draws() -> Vec<i64> {
    vec![ONE / 2, ONE / 2, ONE / 4]
}

#[test]
fn metal_with_zero_fuzz_is_an_exact_mirror() {
    let albedo = Vec3(3 * ONE / 4, 3 * ONE / 4, 3 * ONE / 4);
    let metal = Material::new_metal(albedo, 0);
    let r_in = Ray::new(Vec3(0, 0, 5 * ONE), Vec3(0, 0, -ONE));
    let normal = Vec3(0, 0, ONE);
    let point = Vec3(0, 0, 0);
    let mut s = Sampler::cycle(unit_x_draws());
    let (ok, scattered, attenuation) = metal.scatter(&r_in, point, normal, true, &mut s);
    assert!(ok);
    assert_eq!(attenuation, albedo);
    assert_eq!(scattered.origin, point);
    assert_eq!(scattered.dir, Vec3(0, 0, ONE), "flat-on ray reflects straight back");
}

#[test]
fn metal_fuzz_perturbs_the_mirror_direction() {
    let metal = Material::new_metal(Vec3(ONE, ONE, ONE), ONE / 2);
    let r_in = Ray::new(Vec3(0, 0, 5 * ONE), Vec3(0, 0, -ONE));
    let mut s = Sampler::cycle(unit_x_draws());
    let (ok, scattered, _) = metal.scatter(&r_in, Vec3(0, 0, 0), Vec3(0, 0, ONE), true, &mut s);
    assert!(ok);
    // mirror (0,0,1) plus 0.5 * (1,0,0)
    assert_eq!(scattered.dir, Vec3(ONE / 2, 0, ONE));
}

#[test]
fn new_metal_caps_the_fuzz_factor() {
    assert_eq!(
        Material::new_metal(Vec3(ONE, 0, 0), 3 * ONE),
        Material::Metal(Vec3(ONE, 0, 0), ONE)
    );
    assert_eq!(
        Material::new_metal(Vec3(ONE, 0, 0), ONE / 2),
        Material::Metal(Vec3(ONE, 0, 0), ONE / 2)
    );
}

#[test]
fn lambertian_scatters_normal_plus_unit_draw() {
    let albedo = Vec3(ONE / 2, ONE / 4, ONE / 8);
    let mat = Material::Lambertian(albedo);
    let r_in = Ray::new(Vec3(0, 0, 5 * ONE), Vec3(0, 0, -ONE));
    let normal = Vec3(0, 0, ONE);
    let mut s = Sampler::cycle(unit_x_draws());
    let (ok, scattered, attenuation) = mat.scatter(&r_in, Vec3(0, 0, 0), normal, true, &mut s);
    assert!(ok);
    assert_eq!(attenuation, albedo);
    assert_eq!(scattered.dir, Vec3(ONE, 0, ONE));
}

#[test]
fn lambertian_degenerate_sum_falls_back_to_the_normal() {
    let mat = Material::Lambertian(Vec3(ONE, ONE, ONE));
    let r_in = Ray::new(Vec3(0, 0, 5 * ONE), Vec3(0, 0, -ONE));
    let normal = Vec3(0, 0, ONE);
    // the unit draw is exactly -normal, so the sum cancels to zero
    let mut s = Sampler::cycle(unit_negz_draws());
    let (ok, scattered, _) = mat.scatter(&r_in, Vec3(0, 0, 0), normal, true, &mut s);
    assert!(ok);
    assert_eq!(scattered.dir, normal);
}

#[test]
fn dielectric_head_on_refracts_straight_through() {
    // index 1.5 from outside: ratio 1/1.5, cos near one, reflectance near
    // zero, so a draw of one half must refract
    let mat = Material::Dielectric(3 * ONE / 2);
    let r_in = Ray::new(Vec3(0, 0, 5 * ONE), Vec3(0, 0, -ONE));
    let normal = Vec3(0, 0, ONE);
    let mut s = Sampler::cycle(vec![ONE / 2]);
    let (ok, scattered, attenuation) = mat.scatter(&r_in, Vec3(0, 0, 0), normal, true, &mut s);
    assert!(ok);
    assert_eq!(attenuation, Vec3(ONE, ONE, ONE), "dielectrics absorb nothing");
    assert_eq!(scattered.dir, Vec3(0, 0, -ONE), "continues straight through");

    let ri = fxdiv(ONE, 3 * ONE / 2);
    let (dir, refracted) =
        Material::dielectric_direction(Vec3(0, 0, -ONE), normal, ri, ONE / 2);
    assert!(refracted);
    assert_eq!(dir, Vec3(0, 0, -ONE));
}

#[test]
fn dielectric_grazing_exit_reflects_totally() {
    // inside glass (index ratio 1.5) at sin = 0.8: 1.5 * 0.8 > 1, so the
    // boundary reflects for every draw
    let unit_dir = Vec3(52429, 0, -39322);
    let normal = Vec3(0, 0, ONE);
    let (dir, refracted) = Material::dielectric_direction(unit_dir, normal, 3 * ONE / 2, 0);
    assert!(!refracted);
    assert_eq!(dir, Vec3(52429, 0, 39322), "exact mirror about the normal");
}

#[test]
fn dielectric_reflects_when_the_draw_is_below_reflectance() {
    // head-on, reflectance about 0.04: a draw of zero reflects
    let mat = Material::Dielectric(3 * ONE / 2);
    let r_in = Ray::new(Vec3(0, 0, 5 * ONE), Vec3(0, 0, -ONE));
    let normal = Vec3(0, 0, ONE);
    let mut s = Sampler::cycle(vec![0]);
    let (ok, scattered, _) = mat.scatter(&r_in, Vec3(0, 0, 0), normal, true, &mut s);
    assert!(ok);
    assert_eq!(scattered.dir, Vec3(0, 0, ONE), "mirrored instead of refracted");
}

#[test]
fn schlick_reflectance_at_head_on_incidence() {
    // r0 = ((1 - 1.5) / (1 + 1.5))^2 is 0.04, about 2621 raw units
    let r = Material::reflectance(ONE, 3 * ONE / 2);
    assert_eq!(r, 2621);
}

#[test]
fn absorbing_material_stops_the_ray() {
    let r_in = Ray::new(Vec3(0, 0, 5 * ONE), Vec3(0, 0, -ONE));
    let mut s = Sampler::cycle(vec![0]);
    let (ok, scattered, attenuation) =
        Material::Absorbing.scatter(&r_in, Vec3(ONE, 0, 0), Vec3(0, 0, ONE), true, &mut s);
    assert!(!ok);
    assert_eq!(scattered.origin, Vec3(0, 0, 0));
    assert_eq!(scattered.dir, Vec3(0, 0, 0));
    assert_eq!(attenuation, Vec3(0, 0, 0));
}
