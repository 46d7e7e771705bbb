//! Ray/scene intersection.
//!
//! A sphere is the sole primitive; a `HittableList` aggregates primitives
//! and reports the nearest hit.  Each `hit` returns an optional immutable
//! record and is specified exactly by a spec-level mirror; on top of the
//! mirrors, lemmas state the geometric laws: a negative discriminant is a
//! miss for every acceptance window, and the list always reports the hit
//! with the least parameter, whatever the order of its elements.

use crate::fixed::{
    fadd, fdiv, fmul, fsqrt, fsub, fxadd, fxdiv, fxmul, fxsqrt, fxsub, lemma_divz_monotone,
    lemma_sqrt_floor_bounds, ONE,
};
use crate::interval::Interval;
use crate::material::Material;
use crate::ray::{ray_at, Ray};
use crate::vec3::{
    lemma_vlen2_nonneg, vdivs, vdot, vlen2, vneg, vsub, Point3, Vec3, V3,
};
use vstd::prelude::*;

verus! {

/// Mathematical model of a hit record.
pub ghost struct HitRec {
    pub point: V3,
    pub normal: V3,
    pub material: Material,
    pub t: int,
    pub front_face: bool,
}

/// The transient result of an intersection test: the hit point, the unit
/// normal facing against the incoming ray, the surface material, the ray
/// parameter, and whether the ray met the surface from outside.
#[derive(Clone, Copy, Debug, PartialEq, Eq, Structural)]
pub struct HitRecord {
    pub point: Point3,
    pub normal: Vec3,
    pub material: Material,
    pub t: i64,
    pub front_face: bool,
}

impl View for HitRecord {
    type V = HitRec;

    open spec fn view(&self) -> HitRec {
        HitRec {
            point: self.point@,
            normal: self.normal@,
            material: self.material,
            t: self.t as int,
            front_face: self.front_face,
        }
    }
}

/// The model of an optional record.
pub open spec fn opt_rec(r: Option<HitRecord>) -> Option<HitRec> {
    match r {
        Option::Some(h) => Option::Some(h@),
        Option::None => Option::None,
    }
}

impl HitRecord {
    /// A blank record: origin point and normal, diffuse black material.
    pub fn new() -> (r: HitRecord)
        ensures
            r.point == Vec3(0, 0, 0),
            r.normal == Vec3(0, 0, 0),
            r.material == Material::Lambertian(Vec3(0, 0, 0)),
            r.t == 0,
            !r.front_face,
    {
        HitRecord {
            point: Vec3(0, 0, 0),
            normal: Vec3(0, 0, 0),
            material: Material::Lambertian(Vec3(0, 0, 0)),
            t: 0,
            front_face: false,
        }
    }

    /// Record which side the ray met: the stored normal is the outward
    /// normal when the ray opposes it, else its negation, so that the
    /// normal always faces against the incoming ray.
    pub fn set_face_normal(&mut self, ray: &Ray, outward_normal: Vec3)
        ensures
            final(self).front_face == (vdot(ray.dir@, outward_normal@) < 0),
            final(self).normal@ == (if vdot(ray.dir@, outward_normal@) < 0 {
                outward_normal@
            } else {
                vneg(outward_normal@)
            }),
            final(self).point == old(self).point,
            final(self).material == old(self).material,
            final(self).t == old(self).t,
    {
        self.front_face = ray.dir.dot(outward_normal) < 0;
        self.normal = if self.front_face {
            outward_normal
        } else {
            outward_normal.neg()
        };
    }
}

/// The intersection protocol: a hit within the open acceptance window, or
/// nothing, exactly as the spec-level mirror `hit_spec` decides.
pub trait Hittable {
    spec fn hit_spec(&self, ray: Ray, tmin: int, tmax: int) -> Option<HitRec>;

    fn hit(&self, ray: &Ray, ray_t: Interval) -> (r: Option<HitRecord>)
        ensures
            opt_rec(r) == self.hit_spec(*ray, ray_t.min as int, ray_t.max as int),
    ;
}

#[derive(Clone, Copy, Debug, PartialEq, Eq, Structural)]
pub struct Sphere {
    pub center: Point3,
    pub radius: i64,
    pub material: Material,
}

impl Sphere {
    pub fn new(center: Point3, radius: i64, material: Material) -> (r: Sphere)
        ensures
            r.center == center,
            r.radius == radius,
            r.material == material,
    {
        Sphere { center, radius, material }
    }
}

/// Squared length of the ray direction: the quadratic's leading term.
pub open spec fn sph_a(s: Sphere, ray: Ray) -> int {
    vlen2(ray.dir@)
}

/// Half the linear term: direction dotted with origin-to-center.
pub open spec fn sph_h(s: Sphere, ray: Ray) -> int {
    vdot(ray.dir@, vsub(s.center@, ray.origin@))
}

/// The constant term: squared center distance less squared radius.
pub open spec fn sph_c(s: Sphere, ray: Ray) -> int {
    fsub(vlen2(vsub(s.center@, ray.origin@)), fmul(s.radius as int, s.radius as int))
}

/// The half-discriminant `h^2 - a c`; negative exactly when the ray's
/// line passes the center farther away than the radius.
pub open spec fn sphere_disc(s: Sphere, ray: Ray) -> int {
    fsub(fmul(sph_h(s, ray), sph_h(s, ray)), fmul(sph_a(s, ray), sph_c(s, ray)))
}

/// The smaller root `(h - sqrt(disc)) / a`: the entry point.
pub open spec fn sph_root1(s: Sphere, ray: Ray) -> int {
    fdiv(fsub(sph_h(s, ray), fsqrt(sphere_disc(s, ray))), sph_a(s, ray))
}

/// The larger root `(h + sqrt(disc)) / a`: the exit point.
pub open spec fn sph_root2(s: Sphere, ray: Ray) -> int {
    fdiv(fadd(sph_h(s, ray), fsqrt(sphere_disc(s, ray))), sph_a(s, ray))
}

/// The accepted ray parameter: the nearer root if it lies strictly inside
/// the window, else the farther root, else nothing.  A degenerate ray
/// direction (`a == 0`) hits nothing.
pub open spec fn sphere_hit_t(s: Sphere, ray: Ray, tmin: int, tmax: int) -> Option<int> {
    if sphere_disc(s, ray) < 0 || sph_a(s, ray) == 0 {
        Option::None
    } else if tmin < sph_root1(s, ray) < tmax {
        Option::Some(sph_root1(s, ray))
    } else if tmin < sph_root2(s, ray) < tmax {
        Option::Some(sph_root2(s, ray))
    } else {
        Option::None
    }
}

/// The record for a hit of `s` at parameter `t`.
pub open spec fn sphere_record(s: Sphere, ray: Ray, t: int) -> HitRec {
    let p = ray_at(ray, t);
    let outward = vdivs(vsub(p, s.center@), s.radius as int);
    let ff = vdot(ray.dir@, outward) < 0;
    HitRec {
        point: p,
        normal: if ff {
            outward
        } else {
            vneg(outward)
        },
        material: s.material,
        t: t,
        front_face: ff,
    }
}

impl Hittable for Sphere {
    open spec fn hit_spec(&self, ray: Ray, tmin: int, tmax: int) -> Option<HitRec> {
        match sphere_hit_t(*self, ray, tmin, tmax) {
            Option::Some(t) => Option::Some(sphere_record(*self, ray, t)),
            Option::None => Option::None,
        }
    }

    fn hit(&self, ray: &Ray, ray_t: Interval) -> (r: Option<HitRecord>)
        ensures
            opt_rec(r) == self.hit_spec(*ray, ray_t.min as int, ray_t.max as int),
    {
        let oc = self.center.sub(ray.origin);
        let a = ray.dir.length_squared();
        let h = ray.dir.dot(oc);
        let c = fxsub(oc.length_squared(), fxmul(self.radius, self.radius));
        let discriminant = fxsub(fxmul(h, h), fxmul(a, c));
        if discriminant < 0 {
            return Option::None;
        }
        if a == 0 {
            return Option::None;
        }
        let sqrtd = fxsqrt(discriminant);
        let mut root = fxdiv(fxsub(h, sqrtd), a);
        if !ray_t.surrounds(root) {
            root = fxdiv(fxadd(h, sqrtd), a);
            if !ray_t.surrounds(root) {
                return Option::None;
            }
        }
        let mut rec = HitRecord::new();
        rec.t = root;
        rec.point = ray.at(root);
        rec.material = self.material;
        let outward_normal = rec.point.sub(self.center).div_scalar(self.radius);
        rec.set_face_normal(ray, outward_normal);
        Option::Some(rec)
    }
}

/// The closed set of primitive kinds a scene may hold.
#[derive(Clone, Copy, Debug, PartialEq, Eq, Structural)]
pub enum HittableEnum {
    Sphere(Sphere),
}

impl Hittable for HittableEnum {
    open spec fn hit_spec(&self, ray: Ray, tmin: int, tmax: int) -> Option<HitRec> {
        match *self {
            HittableEnum::Sphere(s) => s.hit_spec(ray, tmin, tmax),
        }
    }

    fn hit(&self, ray: &Ray, ray_t: Interval) -> (r: Option<HitRecord>)
        ensures
            opt_rec(r) == self.hit_spec(*ray, ray_t.min as int, ray_t.max as int),
    {
        match self {
            HittableEnum::Sphere(sphere) => sphere.hit(ray, ray_t),
        }
    }
}

/// The nearest hit over the first `n` scene elements, folding the search
/// window down to each best hit so far.
pub open spec fn list_hit_prefix(
    objs: Seq<HittableEnum>,
    n: int,
    ray: Ray,
    tmin: int,
    tmax: int,
) -> Option<HitRec>
    decreases n,
{
    if n <= 0 {
        Option::None
    } else {
        let prev = list_hit_prefix(objs, n - 1, ray, tmin, tmax);
        let cmax = match prev {
            Option::Some(p) => p.t,
            Option::None => tmax,
        };
        match objs[n - 1].hit_spec(ray, tmin, cmax) {
            Option::Some(r) => Option::Some(r),
            Option::None => prev,
        }
    }
}

/// An insertion-ordered scene of primitives.
pub struct HittableList {
    pub objects: Vec<HittableEnum>,
}

impl Hittable for HittableList {
    open spec fn hit_spec(&self, ray: Ray, tmin: int, tmax: int) -> Option<HitRec> {
        list_hit_prefix(self.objects@, self.objects@.len() as int, ray, tmin, tmax)
    }

    fn hit(&self, ray: &Ray, ray_t: Interval) -> (r: Option<HitRecord>)
        ensures
            opt_rec(r) == self.hit_spec(*ray, ray_t.min as int, ray_t.max as int),
    {
        let mut best: Option<HitRecord> = Option::None;
        let mut i: usize = 0;
        while i < self.objects.len()
            invariant
                i <= self.objects.len(),
                opt_rec(best) == list_hit_prefix(
                    self.objects@,
                    i as int,
                    *ray,
                    ray_t.min as int,
                    ray_t.max as int,
                ),
            decreases self.objects.len() - i,
        {
            let closest = match best {
                Option::Some(b) => b.t,
                Option::None => ray_t.max,
            };
            let interval = Interval::new(ray_t.min, closest);
            let obj = self.objects[i];
            match obj.hit(ray, interval) {
                Option::Some(rec) => {
                    best = Option::Some(rec);
                },
                Option::None => {},
            }
            i = i + 1;
        }
        best
    }
}

/// Keep an optional parameter only when it lies below the cutoff.
pub open spec fn keep_t_below(o: Option<int>, c: int) -> Option<int> {
    match o {
        Option::Some(t) => if t < c {
            Option::Some(t)
        } else {
            Option::None
        },
        Option::None => Option::None,
    }
}

/// Keep an optional record only when its parameter lies below the cutoff.
pub open spec fn keep_below(o: Option<HitRec>, c: int) -> Option<HitRec> {
    match o {
        Option::Some(r) => if r.t < c {
            Option::Some(r)
        } else {
            Option::None
        },
        Option::None => Option::None,
    }
}

/// Either no hit, or one no nearer than `t`.
pub open spec fn rec_at_least(o: Option<HitRec>, t: int) -> bool {
    match o {
        Option::Some(r) => t <= r.t,
        Option::None => true,
    }
}

/// The full-window hit of the `k`-th scene element.
pub open spec fn full_hit(
    objs: Seq<HittableEnum>,
    k: int,
    ray: Ray,
    tmin: int,
    tmax: int,
) -> Option<HitRec> {
    objs[k].hit_spec(ray, tmin, tmax)
}

/// A negative discriminant misses for every acceptance window: the ray's
/// line passes the sphere entirely, so no choice of window finds a hit.
pub proof fn lemma_negative_discriminant_misses(s: Sphere, ray: Ray, tmin: int, tmax: int)
    requires
        sphere_disc(s, ray) < 0,
    ensures
        s.hit_spec(ray, tmin, tmax) == Option::<HitRec>::None,
{
}

/// A sphere hit is the entry point: the two candidate roots are ordered,
/// and whenever the nearer one lies inside the acceptance window it is the
/// one returned; the farther root is only ever used when the window
/// excludes the nearer one (a ray starting inside or past the entry).
pub proof fn lemma_sphere_hit_prefers_entry(s: Sphere, ray: Ray, tmin: int, tmax: int)
    requires
        sphere_disc(s, ray) >= 0,
        sph_a(s, ray) != 0,
    ensures
        sph_root1(s, ray) <= sph_root2(s, ray),
        tmin < sph_root1(s, ray) < tmax ==> sphere_hit_t(s, ray, tmin, tmax) == Option::Some(
            sph_root1(s, ray),
        ),
{
    let a = sph_a(s, ray);
    let h = sph_h(s, ray);
    let disc = sphere_disc(s, ray);
    let sq = fsqrt(disc);
    lemma_vlen2_nonneg(ray.dir@);
    if disc > 0 {
        lemma_sqrt_floor_bounds(disc * (ONE as int));
    }
    assert(sq >= 0);
    assert(fsub(h, sq) <= fadd(h, sq));
    lemma_divz_monotone(fsub(h, sq) * (ONE as int), fadd(h, sq) * (ONE as int), a);
}

/// An accepted parameter lies strictly inside the window.
pub proof fn lemma_sphere_hit_in_window(s: Sphere, ray: Ray, tmin: int, tmax: int)
    ensures
        (match s.hit_spec(ray, tmin, tmax) {
            Option::Some(r) => tmin < r.t < tmax,
            Option::None => true,
        }),
{
}

/// Shrinking the window's far end filters the accepted parameter: the
/// hit under the tighter window is the full-window hit when that one is
/// nearer than the cutoff, and nothing otherwise.
pub proof fn lemma_sphere_hit_shrink(s: Sphere, ray: Ray, tmin: int, c: int, tmax: int)
    requires
        c <= tmax,
    ensures
        sphere_hit_t(s, ray, tmin, c) == keep_t_below(sphere_hit_t(s, ray, tmin, tmax), c),
{
    if !(sphere_disc(s, ray) < 0 || sph_a(s, ray) == 0) {
        let a = sph_a(s, ray);
        let h = sph_h(s, ray);
        let disc = sphere_disc(s, ray);
        let sq = fsqrt(disc);
        lemma_vlen2_nonneg(ray.dir@);
        if disc > 0 {
            lemma_sqrt_floor_bounds(disc * (ONE as int));
        }
        assert(sq >= 0);
        assert(fsub(h, sq) <= fadd(h, sq));
        lemma_divz_monotone(fsub(h, sq) * (ONE as int), fadd(h, sq) * (ONE as int), a);
        assert(sph_root1(s, ray) <= sph_root2(s, ray));
    }
}

/// The record-level reading of the shrink law, for any scene element.
pub proof fn lemma_enum_hit_shrink(o: HittableEnum, ray: Ray, tmin: int, c: int, tmax: int)
    requires
        c <= tmax,
    ensures
        o.hit_spec(ray, tmin, c) == keep_below(o.hit_spec(ray, tmin, tmax), c),
{
    match o {
        HittableEnum::Sphere(s) => {
            lemma_sphere_hit_shrink(s, ray, tmin, c, tmax);
        },
    }
}

/// Window membership, lifted to scene elements.
pub proof fn lemma_enum_hit_in_window(o: HittableEnum, ray: Ray, tmin: int, tmax: int)
    ensures
        (match o.hit_spec(ray, tmin, tmax) {
            Option::Some(r) => tmin < r.t < tmax,
            Option::None => true,
        }),
{
    match o {
        HittableEnum::Sphere(s) => {
            lemma_sphere_hit_in_window(s, ray, tmin, tmax);
        },
    }
}

/// The list reports the nearest hit: its result is the full-window hit of
/// some element, no other element's full-window hit is nearer, and it is
/// empty exactly when every element misses the full window.  List order
/// can therefore only matter for ties in the parameter.
#[verifier::rlimit(100)]
pub proof fn lemma_list_hit_nearest(objs: Seq<HittableEnum>, n: int, ray: Ray, tmin: int, tmax: int)
    requires
        0 <= n <= objs.len(),
    ensures
        (match list_hit_prefix(objs, n, ray, tmin, tmax) {
            Option::None => forall|k: int|
                0 <= k < n ==> #[trigger] full_hit(objs, k, ray, tmin, tmax)
                    == Option::<HitRec>::None,
            Option::Some(r) => {
                &&& exists|k: int|
                    0 <= k < n && #[trigger] full_hit(objs, k, ray, tmin, tmax) == Option::Some(r)
                &&& forall|k: int|
                    0 <= k < n ==> rec_at_least(#[trigger] full_hit(objs, k, ray, tmin, tmax), r.t)
            },
        }),
    decreases n,
{
    if n > 0 {
        lemma_list_hit_nearest(objs, n - 1, ray, tmin, tmax);
        let prev = list_hit_prefix(objs, n - 1, ray, tmin, tmax);
        match prev {
            Option::Some(p) => {
                let k0 = choose|k: int|
                    0 <= k < n - 1 && #[trigger] full_hit(objs, k, ray, tmin, tmax)
                        == Option::Some(p);
                lemma_enum_hit_in_window(objs[k0], ray, tmin, tmax);
                lemma_enum_hit_shrink(objs[n - 1], ray, tmin, p.t, tmax);
            },
            Option::None => {
                lemma_enum_hit_in_window(objs[n - 1], ray, tmin, tmax);
                lemma_enum_hit_shrink(objs[n - 1], ray, tmin, tmax, tmax);
            },
        }
        let cmax = match prev {
            Option::Some(p) => p.t,
            Option::None => tmax,
        };
        let cur = objs[n - 1].hit_spec(ray, tmin, cmax);
        match cur {
            Option::Some(r) => {
                assert(full_hit(objs, n - 1, ray, tmin, tmax) == Option::Some(r));
                assert forall|k: int| 0 <= k < n implies rec_at_least(
                    #[trigger] full_hit(objs, k, ray, tmin, tmax),
                    r.t,
                ) by {
                    if k < n - 1 {
                        match prev {
                            Option::Some(p) => {
                                assert(rec_at_least(full_hit(objs, k, ray, tmin, tmax), p.t));
                            },
                            Option::None => {},
                        }
                    }
                }
            },
            Option::None => {
                match prev {
                    Option::Some(p) => {
                        assert(rec_at_least(full_hit(objs, n - 1, ray, tmin, tmax), p.t));
                    },
                    Option::None => {
                        assert(full_hit(objs, n - 1, ray, tmin, tmax) == Option::<HitRec>::None);
                    },
                }
            },
        }
    }
}

/// Over two elements that both hit the full window at different depths,
/// either ordering of the list yields the record of the nearer hit.
#[verifier::rlimit(100)]
pub proof fn lemma_nearest_hit_order_independent(
    a: HittableEnum,
    b: HittableEnum,
    ray: Ray,
    tmin: int,
    tmax: int,
    ra: HitRec,
    rb: HitRec,
)
    requires
        a.hit_spec(ray, tmin, tmax) == Option::Some(ra),
        b.hit_spec(ray, tmin, tmax) == Option::Some(rb),
        ra.t < rb.t,
    ensures
        list_hit_prefix(seq![a, b], 2, ray, tmin, tmax) == Option::Some(ra),
        list_hit_prefix(seq![b, a], 2, ray, tmin, tmax) == Option::Some(ra),
{
    reveal_with_fuel(list_hit_prefix, 3);
    lemma_enum_hit_in_window(a, ray, tmin, tmax);
    lemma_enum_hit_in_window(b, ray, tmin, tmax);
    let fwd = seq![a, b];
    let bwd = seq![b, a];
    assert(fwd[0] == a && fwd[1] == b);
    assert(bwd[0] == b && bwd[1] == a);
    assert(list_hit_prefix(fwd, 1, ray, tmin, tmax) == Option::Some(ra));
    lemma_enum_hit_shrink(b, ray, tmin, ra.t, tmax);
    assert(list_hit_prefix(fwd, 2, ray, tmin, tmax) == Option::Some(ra));
    assert(list_hit_prefix(bwd, 1, ray, tmin, tmax) == Option::Some(rb));
    lemma_enum_hit_shrink(a, ray, tmin, rb.t, tmax);
    assert(list_hit_prefix(bwd, 2, ray, tmin, tmax) == Option::Some(ra));
}

} // verus!
