//! The camera: viewport derivation, per-pixel sample rays, and the
//! recursive color integrator.
//!
//! `initialize` derives the pixel grid from the configuration;
//! `render` walks the grid row-major, top to bottom, averaging jittered
//! samples per pixel into gamma-corrected byte triples.  The trigonometry
//! for the field of view uses truncated series for sine and cosine, stated
//! exactly as computed.

use crate::constants::{deg2rad, degrees_to_radians, HALF};
use crate::fixed::{
    divz, fadd, fdiv, fmul, fneg, fsub, fxadd, fxdiv, fxdivn, fxmul, fxneg, fxsub, FIX_MAX, ONE,
};
use crate::hittable::{Hittable, HitRec, HittableList};
use crate::interval::Interval;
use crate::ray::Ray;
use crate::utils::{random_double, Sampler};
use crate::vec3::{vadd, vcross, vdivs, vlen, vscale, vsub, vunit, Color, Point3, Vec3, V3};
use vstd::prelude::*;

verus! {

/// Acceptance window floor for secondary rays: a little above zero, so a
/// scattered ray does not re-hit the surface it left.
pub const HIT_EPS: i64 = 7;

/// Truncated sine series `x - x^3/6 + x^5/120 - x^7/5040`, as computed.
pub open spec fn sin_poly(x: int) -> int {
    let x2 = fmul(x, x);
    let x3 = fmul(x2, x);
    let x5 = fmul(x3, x2);
    let x7 = fmul(x5, x2);
    fsub(fadd(fsub(x, divz(x3, 6)), divz(x5, 120)), divz(x7, 5040))
}

/// Truncated cosine series `1 - x^2/2 + x^4/24 - x^6/720`, as computed.
pub open spec fn cos_poly(x: int) -> int {
    let x2 = fmul(x, x);
    let x4 = fmul(x2, x2);
    let x6 = fmul(x4, x2);
    fsub(fadd(fsub(ONE as int, divz(x2, 2)), divz(x4, 24)), divz(x6, 720))
}

/// Tangent as the ratio of the two series.
pub open spec fn tan_fx(x: int) -> int {
    fdiv(sin_poly(x), cos_poly(x))
}

/// Exec mirror of the truncated sine series.
fn sin_fx(x: i64) -> (r: i64)
    ensures
        r as int == sin_poly(x as int),
{
    let x2 = fxmul(x, x);
    let x3 = fxmul(x2, x);
    let x5 = fxmul(x3, x2);
    let x7 = fxmul(x5, x2);
    fxsub(fxadd(fxsub(x, fxdivn(x3, 6)), fxdivn(x5, 120)), fxdivn(x7, 5040))
}

/// Exec mirror of the truncated cosine series.
fn cos_fx(x: i64) -> (r: i64)
    ensures
        r as int == cos_poly(x as int),
{
    let x2 = fxmul(x, x);
    let x4 = fxmul(x2, x2);
    let x6 = fxmul(x4, x2);
    fxsub(fxadd(fxsub(ONE, fxdivn(x2, 2)), fxdivn(x4, 24)), fxdivn(x6, 720))
}

/// The state `initialize` derives from the configuration.
pub ghost struct CameraDerived {
    pub image_height: int,
    pub pixel_sample_scale: int,
    pub center: V3,
    pub w: V3,
    pub u: V3,
    pub v: V3,
    pub pixel00_loc: V3,
    pub pixel_delta_u: V3,
    pub pixel_delta_v: V3,
}

/// Everything the camera derives before rendering: image height from the
/// aspect ratio (floored, at least 1, saturated to its integer type), the
/// orthonormal basis from the look direction and the up hint, the
/// viewport from the vertical field of view and the focal distance, and
/// the pixel grid origin and deltas.
pub open spec fn camera_derive(
    aspect_ratio: int,
    vfov: int,
    image_width: int,
    samples_per_pixel: int,
    look_from: V3,
    look_at: V3,
    vup: V3,
) -> CameraDerived {
    let q = divz(fdiv(image_width * (ONE as int), aspect_ratio), ONE as int);
    let ih = if q > 0x7fff_ffff {
        0x7fff_ffff
    } else if q < 1 {
        1
    } else {
        q
    };
    let pss = fdiv(ONE as int, samples_per_pixel * (ONE as int));
    let center = look_from;
    let focal = vlen(vsub(look_at, look_from));
    let theta = deg2rad(vfov);
    let h = tan_fx(fdiv(theta, 2 * (ONE as int)));
    let viewport_height = fmul(fmul(h, 2 * (ONE as int)), focal);
    let viewport_width = fdiv(fmul(viewport_height, image_width * (ONE as int)), ih * (ONE as int));
    let wb = vunit(vsub(look_from, look_at));
    let ub = vunit(vcross(vup, wb));
    let vb = vcross(wb, ub);
    let viewport_u = vscale(ub, viewport_width);
    let viewport_v = vscale(vb, fneg(viewport_height));
    let pdu = vdivs(viewport_u, image_width * (ONE as int));
    let pdv = vdivs(viewport_v, ih * (ONE as int));
    let upper_left = vsub(
        vsub(vsub(center, vscale(wb, focal)), vdivs(viewport_u, 2 * (ONE as int))),
        vdivs(viewport_v, 2 * (ONE as int)),
    );
    let p00 = vadd(vadd(upper_left, vdivs(pdu, 2 * (ONE as int))), vdivs(pdv, 2 * (ONE as int)));
    CameraDerived {
        image_height: ih,
        pixel_sample_scale: pss,
        center: center,
        w: wb,
        u: ub,
        v: vb,
        pixel00_loc: p00,
        pixel_delta_u: pdu,
        pixel_delta_v: pdv,
    }
}

pub struct Camera {
    pub aspect_ratio: i64,
    pub image_width: i32,
    pub samples_per_pixel: i32,
    pub max_depth: i32,
    pub vfov: i64,
    pub u: Vec3,
    pub v: Vec3,
    pub w: Vec3,
    pub look_from: Point3,
    pub look_at: Point3,
    pub vup: Vec3,
    pub image_height: i32,
    pub center: Point3,
    pub pixel_sample_scale: i64,
    pub pixel00_loc: Point3,
    pub pixel_delta_u: Vec3,
    pub pixel_delta_v: Vec3,
}

/// The derived fields agree with what the configuration prescribes.
pub open spec fn is_initialized(c: Camera) -> bool {
    let d = camera_derive(
        c.aspect_ratio as int,
        c.vfov as int,
        c.image_width as int,
        c.samples_per_pixel as int,
        c.look_from@,
        c.look_at@,
        c.vup@,
    );
    &&& c.image_height as int == d.image_height
    &&& c.pixel_sample_scale as int == d.pixel_sample_scale
    &&& c.center@ == d.center
    &&& c.w@ == d.w
    &&& c.u@ == d.u
    &&& c.v@ == d.v
    &&& c.pixel00_loc@ == d.pixel00_loc
    &&& c.pixel_delta_u@ == d.pixel_delta_u
    &&& c.pixel_delta_v@ == d.pixel_delta_v
}

/// The configuration fields of two camera values agree.
pub open spec fn same_config(a: Camera, b: Camera) -> bool {
    &&& a.aspect_ratio == b.aspect_ratio
    &&& a.image_width == b.image_width
    &&& a.samples_per_pixel == b.samples_per_pixel
    &&& a.max_depth == b.max_depth
    &&& a.vfov == b.vfov
    &&& a.look_from == b.look_from
    &&& a.look_at == b.look_at
    &&& a.vup == b.vup
}

/// The direction from the eye through the sample point of pixel `(i, j)`
/// jittered by `(ox, oy)`.
pub open spec fn pixel_ray_dir(c: Camera, i: int, j: int, ox: int, oy: int) -> V3 {
    vsub(
        vadd(
            vadd(c.pixel00_loc@, vscale(c.pixel_delta_u@, fadd(i * (ONE as int), ox))),
            vscale(c.pixel_delta_v@, fadd(j * (ONE as int), oy)),
        ),
        c.center@,
    )
}

/// The background gradient: white blended toward sky blue by the
/// direction's normalized vertical component.
pub open spec fn background_spec(r: Ray) -> V3 {
    let ud = vunit(r.dir@);
    let a = fmul(HALF as int, fadd(ud.y, ONE as int));
    vadd(
        vscale(V3 { x: ONE as int, y: ONE as int, z: ONE as int }, fsub(ONE as int, a)),
        vscale(V3 { x: HALF as int, y: 45875, z: ONE as int }, a),
    )
}

/// The sky gradient a missing ray resolves to.
pub fn background_color(r: &Ray) -> (c: Color)
    ensures
        c@ == background_spec(*r),
{
    let ud = r.dir.unit_vector();
    let a = fxmul(HALF, fxadd(ud.y(), ONE));
    Vec3(ONE, ONE, ONE).scale(fxsub(ONE, a)).add(Vec3(HALF, 45875, ONE).scale(a))
}

/// One rendered frame: its dimensions, and one byte triple per pixel in
/// row-major order, top to bottom, left to right.
pub struct Image {
    pub width: i32,
    pub height: i32,
    pub pixels: Vec<(u8, u8, u8)>,
}

impl Camera {
    /// A camera holding its configuration, with the derived state zeroed
    /// until `initialize` runs.
    pub fn new(
        aspect_ratio: i64,
        vfov: i64,
        image_width: i32,
        samples_per_pixel: i32,
        max_depth: i32,
        look_from: Vec3,
        look_at: Vec3,
        vup: Vec3,
    ) -> (c: Camera)
        ensures
            c.aspect_ratio == aspect_ratio,
            c.vfov == vfov,
            c.image_width == image_width,
            c.samples_per_pixel == samples_per_pixel,
            c.max_depth == max_depth,
            c.look_from == look_from,
            c.look_at == look_at,
            c.vup == vup,
    {
        Camera {
            aspect_ratio,
            vfov,
            image_width,
            samples_per_pixel,
            max_depth,
            image_height: 0,
            pixel_sample_scale: 0,
            u: Vec3(0, 0, 0),
            v: Vec3(0, 0, 0),
            w: Vec3(0, 0, 0),
            look_at,
            look_from,
            vup,
            center: Vec3(0, 0, 0),
            pixel00_loc: Vec3(0, 0, 0),
            pixel_delta_u: Vec3(0, 0, 0),
            pixel_delta_v: Vec3(0, 0, 0),
        }
    }

    /// Derive the viewport and pixel grid from the configuration.  Runs
    /// once before rendering; idempotent for a fixed configuration.
    pub fn initialize(&mut self)
        ensures
            same_config(*final(self), *old(self)),
            is_initialized(*final(self)),
            final(self).image_height >= 1,
    {
        self.center = self.look_from;
        let wf: i64 = (self.image_width as i64) * ONE;
        let q = fxdivn(fxdiv(wf, self.aspect_ratio), ONE);
        self.image_height = if q > 0x7fff_ffff {
            0x7fff_ffffi32
        } else if q < 1 {
            1i32
        } else {
            q as i32
        };
        self.pixel_sample_scale = fxdiv(ONE, (self.samples_per_pixel as i64) * ONE);

        let focal_length = self.look_at.sub(self.look_from).length();

        let theta = degrees_to_radians(self.vfov);
        let ht = fxdiv(theta, 2 * ONE);
        let h = fxdiv(sin_fx(ht), cos_fx(ht));

        let viewport_height = fxmul(fxmul(h, 2 * ONE), focal_length);
        let viewport_width = fxdiv(
            fxmul(viewport_height, (self.image_width as i64) * ONE),
            (self.image_height as i64) * ONE,
        );

        self.w = self.look_from.sub(self.look_at).unit_vector();
        self.u = self.vup.cross(self.w).unit_vector();
        self.v = self.w.cross(self.u);

        let viewport_u = self.u.scale(viewport_width);
        let viewport_v = self.v.scale(fxneg(viewport_height));

        self.pixel_delta_u = viewport_u.div_scalar((self.image_width as i64) * ONE);
        self.pixel_delta_v = viewport_v.div_scalar((self.image_height as i64) * ONE);

        let upper_left_corner = self
            .center
            .sub(self.w.scale(focal_length))
            .sub(viewport_u.div_scalar(2 * ONE))
            .sub(viewport_v.div_scalar(2 * ONE));

        self.pixel00_loc = upper_left_corner
            .add(self.pixel_delta_u.div_scalar(2 * ONE))
            .add(self.pixel_delta_v.div_scalar(2 * ONE));
    }

    /// The ray through the sample point of pixel `(i, j)` at an explicit
    /// jitter offset, pinned exactly; `get_ray` draws the offset.
    pub fn ray_for_pixel(&self, i: i32, j: i32, ox: i64, oy: i64) -> (r: Ray)
        ensures
            r.origin == self.center,
            r.dir@ == pixel_ray_dir(*self, i as int, j as int, ox as int, oy as int),
    {
        let origin = self.center;
        let dir = self
            .pixel00_loc
            .add(self.pixel_delta_u.scale(fxadd((i as i64) * ONE, ox)))
            .add(self.pixel_delta_v.scale(fxadd((j as i64) * ONE, oy)))
            .sub(origin);
        Ray { origin, dir }
    }

    /// A ray toward pixel `(i, j)`, jittered within the pixel square.
    pub fn get_ray(&self, i: i32, j: i32, sampler: &mut Sampler) -> (r: Ray)
        ensures
            r.origin == self.center,
            exists|ox: int, oy: int|
                -(HALF as int) <= ox < HALF as int && -(HALF as int) <= oy < HALF as int
                    && r.dir@ == pixel_ray_dir(*self, i as int, j as int, ox, oy),
    {
        let offset = self.sample_square(sampler);
        let r = self.ray_for_pixel(i, j, offset.0, offset.1);
        proof {
            assert(-(HALF as int) <= (offset.0 as int) && (offset.0 as int) < HALF as int && -(
            HALF as int) <= (offset.1 as int) && (offset.1 as int) < HALF as int && r.dir@
                == pixel_ray_dir(*self, i as int, j as int, offset.0 as int, offset.1 as int));
        }
        r
    }

    /// A uniform jitter in the half-open unit pixel square around zero.
    pub fn sample_square(&self, sampler: &mut Sampler) -> (r: Vec3)
        ensures
            -HALF <= r.0 < HALF,
            -HALF <= r.1 < HALF,
            r.2 == 0,
    {
        let a = random_double(sampler);
        let b = random_double(sampler);
        Vec3(fxsub(a, HALF), fxsub(b, HALF), 0)
    }

    /// The recursive integrator: black at the depth floor; on a hit, the
    /// material's attenuation times the color of the scattered ray (white
    /// when the material absorbs); on a miss, the background gradient.
    pub fn ray_color(
        &self,
        r: Ray,
        world: &HittableList,
        depth: i32,
        sampler: &mut Sampler,
    ) -> (c: Color)
        ensures
            depth <= 0 ==> c == Vec3(0, 0, 0),
            depth > 0 && world.hit_spec(r, HIT_EPS as int, FIX_MAX as int)
                == Option::<HitRec>::None ==> c@ == background_spec(r),
            depth > 0 ==> (match world.hit_spec(r, HIT_EPS as int, FIX_MAX as int) {
                Option::Some(h) => h.material == crate::material::Material::Absorbing ==> c
                    == Vec3(ONE, ONE, ONE),
                Option::None => true,
            }),
        decreases depth,
    {
        if depth <= 0 {
            return Vec3(0, 0, 0);
        }
        match world.hit(&r, Interval::new(HIT_EPS, FIX_MAX)) {
            Option::Some(rec) => {
                let (ok, scattered, attenuation) = rec.material.scatter(
                    &r,
                    rec.point,
                    rec.normal,
                    rec.front_face,
                    sampler,
                );
                if ok {
                    attenuation.mul(self.ray_color(scattered, world, depth - 1, sampler))
                } else {
                    Vec3(ONE, ONE, ONE)
                }
            },
            Option::None => background_color(&r),
        }
    }

    /// Render the scene: derive the grid, then emit one averaged,
    /// gamma-corrected byte triple per pixel, row-major, top to bottom.
    pub fn render(&mut self, world: &HittableList, sampler: &mut Sampler) -> (img: Image)
        requires
            1 <= old(self).image_width,
            1 <= old(self).samples_per_pixel,
        ensures
            same_config(*final(self), *old(self)),
            is_initialized(*final(self)),
            img.width == final(self).image_width,
            img.height == final(self).image_height,
            img.pixels@.len() == (final(self).image_height as int) * (
            final(self).image_width as int),
    {
        self.initialize();

        let width = self.image_width;
        let height = self.image_height;
        let mut pixels: Vec<(u8, u8, u8)> = Vec::new();

        let mut j: i32 = 0;
        while j < height
            invariant
                0 <= j <= height,
                1 <= height,
                1 <= width,
                pixels@.len() == (j as int) * (width as int),
            decreases height - j,
        {
            let mut i: i32 = 0;
            while i < width
                invariant
                    0 <= i <= width,
                    0 <= j < height,
                    1 <= width,
                    pixels@.len() == (j as int) * (width as int) + (i as int),
                decreases width - i,
            {
                let mut acc = Vec3(0, 0, 0);
                let mut s: i32 = 0;
                let spp = self.samples_per_pixel;
                while s < spp
                    decreases spp - s,
                {
                    let ray = self.get_ray(i, j, sampler);
                    let sample = self.ray_color(ray, world, self.max_depth, sampler);
                    acc = acc.add(sample);
                    s = s + 1;
                }
                let pixel_color = acc.scale(self.pixel_sample_scale);
                pixels.push(pixel_color.get_color());
                proof {
                    assert(pixels@.len() == (j as int) * (width as int) + (i as int) + 1);
                }
                i = i + 1;
            }
            proof {
                assert((j as int) * (width as int) + (width as int) == ((j as int) + 1) * (
                width as int)) by (nonlinear_arith);
            }
            j = j + 1;
        }
        proof {
            assert(pixels@.len() == (height as int) * (width as int));
        }
        Image { width, height, pixels }
    }
}

} // verus!
