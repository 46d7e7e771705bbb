//! Surface materials and their scattering behavior.
//!
//! A material is a closed tagged variant: diffuse (`Lambertian`),
//! reflective (`Metal`), refractive (`Dielectric`), or the absorbing
//! placeholder (`Absorbing`).  `scatter` turns an incoming ray and a hit
//! into a secondary ray and an attenuation color.  Random choices are
//! drawn from the sampler; each contract pins the result down to an exact
//! function of the inputs and some in-range draw.

use crate::fixed::{fadd, fdiv, fmul, fsub, fxadd, fxdiv, fxmul, fxsub, ONE};
use crate::ray::Ray;
use crate::utils::{random_double, Sampler};
use crate::vec3::{
    is_unit_sample, near_zero, random_unit_vector, reflect, refract, vadd, vdot, vnear_zero, vneg,
    vreflect, vrefract, vscale, vunit, Color, Point3, Vec3, V3,
};
use vstd::prelude::*;

verus! {

#[derive(Clone, Copy, Debug, PartialEq, Eq, Structural)]
pub enum Material {
    /// Diffuse, with an albedo color.
    Lambertian(Color),
    /// Reflective, with an albedo color and a fuzz factor in `[0, 1]`.
    Metal(Vec3, i64),
    /// Refractive, with a relative refraction index.
    Dielectric(i64),
    /// The placeholder default: absorbs every ray.
    Absorbing,
}

/// Fifth power, as the exec code computes it: four successive products.
pub open spec fn pow5(x: int) -> int {
    fmul(fmul(fmul(fmul(x, x), x), x), x)
}

/// Schlick's reflectance approximation:
/// `r0 + (1 - r0) * (1 - cosine)^5` with `r0 = ((1 - n) / (1 + n))^2`.
pub open spec fn schlick(cosine: int, refraction_index: int) -> int {
    let r0x = fdiv(fsub(ONE as int, refraction_index), fadd(ONE as int, refraction_index));
    let r0 = fmul(r0x, r0x);
    fadd(r0, fmul(fsub(ONE as int, r0), pow5(fsub(ONE as int, cosine))))
}

/// The effective index ratio at a boundary crossing: inverted when the
/// ray meets the surface from outside.
pub open spec fn effective_index(index: int, front_face: bool) -> int {
    if front_face {
        fdiv(ONE as int, index)
    } else {
        index
    }
}

/// Cosine of the incidence angle, capped at one.
pub open spec fn dielectric_cos(unit_dir: V3, normal: V3) -> int {
    let d = vdot(vneg(unit_dir), normal);
    if d < ONE as int {
        d
    } else {
        ONE as int
    }
}

/// Sine of the incidence angle, from the cosine.
pub open spec fn dielectric_sin(unit_dir: V3, normal: V3) -> int {
    let cos = dielectric_cos(unit_dir, normal);
    crate::fixed::fsqrt(fsub(ONE as int, fmul(cos, cos)))
}

/// Whether the boundary reflects: either total internal reflection
/// (`ri * sin > 1`), or the Schlick reflectance exceeds the draw.
pub open spec fn dielectric_reflects(unit_dir: V3, normal: V3, ri: int, draw: int) -> bool {
    fmul(ri, dielectric_sin(unit_dir, normal)) > ONE as int || schlick(
        dielectric_cos(unit_dir, normal),
        ri,
    ) > draw
}

/// The scattered direction at a refractive boundary, for a given draw.
pub open spec fn dielectric_dir(unit_dir: V3, normal: V3, ri: int, draw: int) -> V3 {
    if dielectric_reflects(unit_dir, normal, ri, draw) {
        vreflect(unit_dir, normal)
    } else {
        vrefract(unit_dir, normal, ri)
    }
}

/// A diffuse scatter direction: the normal plus a unit-sphere draw, with
/// the normal alone as fallback when the sum degenerates to zero.
pub open spec fn lambertian_dir_ok(normal: V3, dir: V3) -> bool {
    exists|u: V3|
        is_unit_sample(u) && dir == (if vnear_zero(vadd(normal, u)) {
            normal
        } else {
            vadd(normal, u)
        })
}

/// A metal scatter direction: the mirror direction perturbed by a
/// fuzz-scaled unit-sphere draw.
pub open spec fn metal_dir_ok(in_dir: V3, normal: V3, fuzz: int, dir: V3) -> bool {
    exists|u: V3|
        is_unit_sample(u) && dir == vadd(vreflect(vunit(in_dir), normal), vscale(u, fuzz))
}

/// A dielectric scatter direction: reflection or refraction of the unit
/// incoming direction, decided by some in-range draw.
pub open spec fn dielectric_dir_ok(in_dir: V3, normal: V3, ri: int, dir: V3) -> bool {
    exists|draw: int| 0 <= draw < ONE as int && dir == dielectric_dir(vunit(in_dir), normal, ri, draw)
}

impl Material {
    /// Schlick's reflectance approximation for a cosine and an index.
    pub fn reflectance(cosine: i64, refraction_index: i64) -> (r: i64)
        ensures
            r as int == schlick(cosine as int, refraction_index as int),
    {
        let r0x = fxdiv(fxsub(ONE, refraction_index), fxadd(ONE, refraction_index));
        let r0 = fxmul(r0x, r0x);
        let omc = fxsub(ONE, cosine);
        let p5 = fxmul(fxmul(fxmul(fxmul(omc, omc), omc), omc), omc);
        fxadd(r0, fxmul(fxsub(ONE, r0), p5))
    }

    /// A metal with its fuzz factor capped at one.
    pub fn new_metal(albedo: Vec3, fuzz: i64) -> (r: Material)
        ensures
            r == Material::Metal(
                albedo,
                if fuzz < ONE {
                    fuzz
                } else {
                    ONE
                },
            ),
    {
        let f = if fuzz < ONE {
            fuzz
        } else {
            ONE
        };
        Material::Metal(albedo, f)
    }

    /// Scatter an incoming ray at a hit: whether the ray continues, the
    /// scattered ray, and the attenuation color.  Diffuse, reflective and
    /// refractive materials always scatter; the placeholder absorbs.
    pub fn scatter(
        &self,
        r_in: &Ray,
        point: Point3,
        normal: Vec3,
        front_face: bool,
        sampler: &mut Sampler,
    ) -> (r: (bool, Ray, Color))
        ensures
            match *self {
                Material::Lambertian(albedo) => r.0 && r.2 == albedo && r.1.origin == point
                    && lambertian_dir_ok(normal@, r.1.dir@),
                Material::Metal(albedo, fuzz) => r.0 && r.2 == albedo && r.1.origin == point
                    && metal_dir_ok(r_in.dir@, normal@, fuzz as int, r.1.dir@) && (fuzz == 0
                    ==> r.1.dir@ == vreflect(vunit(r_in.dir@), normal@)),
                Material::Dielectric(index) => r.0 && r.2 == Vec3(ONE, ONE, ONE) && r.1.origin
                    == point && dielectric_dir_ok(
                    r_in.dir@,
                    normal@,
                    effective_index(index as int, front_face),
                    r.1.dir@,
                ),
                Material::Absorbing => !r.0 && r.1.origin == Vec3(0, 0, 0) && r.1.dir == Vec3(
                    0,
                    0,
                    0,
                ) && r.2 == Vec3(0, 0, 0),
            },
    {
        match *self {
            Material::Lambertian(albedo) => {
                let u = random_unit_vector(sampler);
                let s = normal.add(u);
                let dir = if near_zero(s) {
                    normal
                } else {
                    s
                };
                proof {
                    let gu = u@;
                    assert(is_unit_sample(gu) && dir@ == (if vnear_zero(vadd(normal@, gu)) {
                        normal@
                    } else {
                        vadd(normal@, gu)
                    }));
                }
                (true, Ray { origin: point, dir }, albedo)
            },
            Material::Metal(albedo, fuzz) => {
                let reflected = reflect(r_in.dir.unit_vector(), normal);
                let u = random_unit_vector(sampler);
                let dir = reflected.add(u.scale(fuzz));
                proof {
                    let gu = u@;
                    assert(is_unit_sample(gu) && dir@ == vadd(
                        vreflect(vunit(r_in.dir@), normal@),
                        vscale(gu, fuzz as int),
                    ));
                    if fuzz == 0 {
                        assert(dir@ == vreflect(vunit(r_in.dir@), normal@));
                    }
                }
                (true, Ray { origin: point, dir }, albedo)
            },
            Material::Dielectric(index) => {
                let attenuation = Vec3(ONE, ONE, ONE);
                let ri = if front_face {
                    fxdiv(ONE, index)
                } else {
                    index
                };
                let unit_direction = r_in.dir.unit_vector();
                let draw = random_double(sampler);
                let (dir, _refracted) = Material::dielectric_direction(
                    unit_direction,
                    normal,
                    ri,
                    draw,
                );
                proof {
                    let gd = draw as int;
                    assert(0 <= gd < ONE as int && dir@ == dielectric_dir(
                        vunit(r_in.dir@),
                        normal@,
                        effective_index(index as int, front_face),
                        gd,
                    ));
                }
                (true, Ray { origin: point, dir }, attenuation)
            },
            Material::Absorbing => {
                (false, Ray::new(Vec3(0, 0, 0), Vec3(0, 0, 0)), Vec3(0, 0, 0))
            },
        }
    }

    /// The deterministic boundary decision for a dielectric, split out so
    /// it can be checked for every value of the draw: the direction and
    /// whether it was a refraction.
    pub fn dielectric_direction(unit_dir: Vec3, normal: Vec3, ri: i64, draw: i64) -> (r: (
        Vec3,
        bool,
    ))
        ensures
            r.1 == !dielectric_reflects(unit_dir@, normal@, ri as int, draw as int),
            r.0@ == dielectric_dir(unit_dir@, normal@, ri as int, draw as int),
    {
        let d = unit_dir.neg().dot(normal);
        let cos_theta = if d < ONE {
            d
        } else {
            ONE
        };
        let sin_theta = crate::fixed::fxsqrt(fxsub(ONE, fxmul(cos_theta, cos_theta)));
        let cannot_refract = fxmul(ri, sin_theta) > ONE;
        if cannot_refract || Material::reflectance(cos_theta, ri) > draw {
            (reflect(unit_dir, normal), false)
        } else {
            (refract(unit_dir, normal, ri), true)
        }
    }
}

} // verus!
