//! Three-component vectors over fixed-point scalars.
//!
//! `Vec3` doubles as a point (`Point3`) and as an RGB radiance triple
//! (`Color`).  Every operation is specified exactly over the mathematical
//! model `V3`, a triple of unbounded integers holding the raw scalar
//! values; the view `@` maps a vector to its model.

use crate::fixed::{
    divz, fadd, fdiv, fmul, fneg, fsqrt, fsub, fxadd, fxdiv, fxdivn, fxmul, fxneg, fxsqrt, fxsub,
    lemma_divz_bounds, lemma_fmul_close, ONE,
};
use crate::interval::{iclamp, Interval};
use crate::utils::{random_double_with_range, Sampler};
use vstd::math::abs;
use vstd::prelude::*;

verus! {

/// Mathematical model of a vector: the three raw scalars, unbounded.
pub ghost struct V3 {
    pub x: int,
    pub y: int,
    pub z: int,
}

#[derive(Clone, Copy, Debug, PartialEq, Eq, Structural)]
pub struct Vec3(pub i64, pub i64, pub i64);

/// Points and colors are vectors under other names.
pub type Point3 = Vec3;

pub type Color = Vec3;

impl View for Vec3 {
    type V = V3;

    open spec fn view(&self) -> V3 {
        V3 { x: self.0 as int, y: self.1 as int, z: self.2 as int }
    }
}

pub open spec fn vadd(a: V3, b: V3) -> V3 {
    V3 { x: fadd(a.x, b.x), y: fadd(a.y, b.y), z: fadd(a.z, b.z) }
}

pub open spec fn vsub(a: V3, b: V3) -> V3 {
    V3 { x: fsub(a.x, b.x), y: fsub(a.y, b.y), z: fsub(a.z, b.z) }
}

/// Component-wise product (used for attenuating radiance by an albedo).
pub open spec fn vmul(a: V3, b: V3) -> V3 {
    V3 { x: fmul(a.x, b.x), y: fmul(a.y, b.y), z: fmul(a.z, b.z) }
}

pub open spec fn vscale(a: V3, s: int) -> V3 {
    V3 { x: fmul(a.x, s), y: fmul(a.y, s), z: fmul(a.z, s) }
}

/// Component-wise quotient.
pub open spec fn vdivv(a: V3, b: V3) -> V3 {
    V3 { x: fdiv(a.x, b.x), y: fdiv(a.y, b.y), z: fdiv(a.z, b.z) }
}

/// Division of every component by one scalar.
pub open spec fn vdivs(a: V3, s: int) -> V3 {
    V3 { x: fdiv(a.x, s), y: fdiv(a.y, s), z: fdiv(a.z, s) }
}

pub open spec fn vneg(a: V3) -> V3 {
    V3 { x: fneg(a.x), y: fneg(a.y), z: fneg(a.z) }
}

pub open spec fn vdot(a: V3, b: V3) -> int {
    fadd(fadd(fmul(a.x, b.x), fmul(a.y, b.y)), fmul(a.z, b.z))
}

pub open spec fn vcross(a: V3, b: V3) -> V3 {
    V3 {
        x: fsub(fmul(a.y, b.z), fmul(a.z, b.y)),
        y: fsub(fmul(a.z, b.x), fmul(a.x, b.z)),
        z: fsub(fmul(a.x, b.y), fmul(a.y, b.x)),
    }
}

pub open spec fn vlen2(a: V3) -> int {
    vdot(a, a)
}

pub open spec fn vlen(a: V3) -> int {
    fsqrt(vlen2(a))
}

/// Normalization: each component divided by the length.  Undefined inputs
/// (a zero-length vector) divide by zero and so collapse to the origin.
pub open spec fn vunit(a: V3) -> V3 {
    vdivs(a, vlen(a))
}

/// Mirror of `v` about the plane with normal `n`: `v - n * (v . n) * 2`.
pub open spec fn vreflect(v: V3, n: V3) -> V3 {
    vsub(v, vscale(vscale(n, vdot(v, n)), 2 * (ONE as int)))
}

/// Snell refraction of the unit direction `uv` at a surface with unit
/// normal `n`, for the index ratio `eta`: the transmitted direction is the
/// sum of its components perpendicular and parallel to the normal.
pub open spec fn vrefract(uv: V3, n: V3, eta: int) -> V3 {
    let d = vdot(vneg(uv), n);
    let cos = if d < ONE as int {
        d
    } else {
        ONE as int
    };
    let perp = vscale(vadd(uv, vscale(n, cos)), eta);
    let k = fsub(ONE as int, vlen2(perp));
    let par = vscale(n, fneg(fsqrt(abs(k) as int)));
    vadd(perp, par)
}

/// Only the zero vector counts as near zero: the finest representable
/// step (1/ONE) already exceeds the classical 1e-8 threshold.
pub open spec fn vnear_zero(v: V3) -> bool {
    v.x == 0 && v.y == 0 && v.z == 0
}

/// Mirror of `v` about the plane with normal `n`.
pub fn reflect(v: Vec3, n: Vec3) -> (r: Vec3)
    ensures
        r@ == vreflect(v@, n@),
{
    v.sub(n.scale(v.dot(n)).scale(2 * ONE))
}

/// Snell refraction of the unit direction `uv` at unit normal `n`.
pub fn refract(uv: Vec3, n: Vec3, etai_over_etat: i64) -> (r: Vec3)
    ensures
        r@ == vrefract(uv@, n@, etai_over_etat as int),
{
    let d = uv.neg().dot(n);
    let cos = if d < ONE {
        d
    } else {
        ONE
    };
    let perp = uv.add(n.scale(cos)).scale(etai_over_etat);
    let k = fxsub(ONE, perp.length_squared());
    let ka = if k < 0 {
        fxneg(k)
    } else {
        k
    };
    let par = n.scale(fxneg(fxsqrt(ka)));
    perp.add(par)
}

/// Gamma correction of one linear color channel: its square root, with
/// negative input mapped to black.
pub fn linear_to_gamma(value: i64) -> (r: i64)
    ensures
        r as int == fsqrt(value as int),
{
    if value >= 0 {
        fxsqrt(value)
    } else {
        0
    }
}

/// True when every component is negligibly small; guards degenerate
/// diffuse scatter directions.
pub fn near_zero(v: Vec3) -> (r: bool)
    ensures
        r == vnear_zero(v@),
{
    v.0 == 0 && v.1 == 0 && v.2 == 0
}

/// A vector with three independent draws in `[0, 1)` as components.
fn random(sampler: &mut Sampler) -> (r: Vec3)
    ensures
        0 <= r@.x < ONE as int,
        0 <= r@.y < ONE as int,
        0 <= r@.z < ONE as int,
{
    let x = crate::utils::random_double(sampler);
    let y = crate::utils::random_double(sampler);
    let z = crate::utils::random_double(sampler);
    Vec3(x, y, z)
}

/// A vector with three independent draws over `[min, max)` as components.
fn random_with_range(sampler: &mut Sampler, min: i64, max: i64) -> (r: Vec3)
    ensures
        -crate::fixed::FIX_MAX <= min <= max ==> min <= r.0 <= max && min <= r.1 <= max && min
            <= r.2 <= max,
{
    let x = random_double_with_range(sampler, min, max);
    let y = random_double_with_range(sampler, min, max);
    let z = random_double_with_range(sampler, min, max);
    Vec3(x, y, z)
}

/// An accepted rejection sample: comfortably away from the origin (so the
/// normalization divides by a healthy length) and inside the unit ball.
pub open spec fn sample_ok(p: V3) -> bool {
    &&& -(ONE as int) <= p.x <= ONE as int
    &&& -(ONE as int) <= p.y <= ONE as int
    &&& -(ONE as int) <= p.z <= ONE as int
    &&& (ONE as int) / 16 <= vlen2(p) < ONE as int
}

/// The result of normalizing some accepted rejection sample.
pub open spec fn is_unit_sample(u: V3) -> bool {
    exists|p: V3| sample_ok(p) && u == vunit(p)
}

/// Within fixed-point tolerance of unit length.
pub open spec fn approx_unit(u: V3) -> bool {
    &&& (ONE as int) - 192 <= vlen2(u) <= (ONE as int) + 192
    &&& (ONE as int) - 256 <= vlen(u) <= (ONE as int) + 256
}

/// Every normalized accepted sample is a unit vector up to tolerance.
pub proof fn lemma_unit_sample_approx(u: V3)
    requires
        is_unit_sample(u),
    ensures
        approx_unit(u),
{
    let p = choose|p: V3| sample_ok(p) && u == vunit(p);
    lemma_unit_vector_length(p);
}

/// A direction drawn uniformly from the unit sphere, by rejection sampling
/// the unit ball and normalizing.  The number of tries is bounded so the
/// draw provably returns; the fallback after the (vanishingly unlikely)
/// last rejection is the normalization of a fixed accepted sample.
pub fn random_unit_vector(sampler: &mut Sampler) -> (r: Vec3)
    ensures
        is_unit_sample(r@),
        approx_unit(r@),
{
    let mut tries: u32 = 0;
    while tries < 64
        invariant
            tries <= 64,
        decreases 64 - tries,
    {
        let p = random_with_range(sampler, -ONE, ONE);
        let ls = p.length_squared();
        if 4096 <= ls && ls < ONE {
            let u = p.unit_vector();
            proof {
                assert(sample_ok(p@));
                lemma_unit_sample_approx(u@);
            }
            return u;
        }
        tries = tries + 1;
    }
    let p = Vec3(32768, 0, 0);
    let u = p.unit_vector();
    proof {
        crate::fixed::lemma_divz_is(32768int * 32768int, ONE as int, 16384int, 0int);
        assert(fmul(32768, 32768) == 16384);
        assert(vlen2(p@) == 16384);
        assert(sample_ok(p@));
        lemma_unit_sample_approx(u@);
    }
    u
}

/// A unit-sphere draw folded onto the hemisphere around `normal`.
pub fn random_on_hemisphere(sampler: &mut Sampler, normal: Vec3) -> (r: Vec3)
    ensures
        exists|u: V3|
            is_unit_sample(u) && r@ == (if vdot(u, normal@) > 0 {
                u
            } else {
                vneg(u)
            }),
{
    let on_unit_sphere = random_unit_vector(sampler);
    if on_unit_sphere.dot(normal) > 0 {
        on_unit_sphere
    } else {
        on_unit_sphere.neg()
    }
}

impl Vec3 {
    pub fn x(&self) -> (r: i64)
        ensures
            r as int == self@.x,
    {
        self.0
    }

    pub fn y(&self) -> (r: i64)
        ensures
            r as int == self@.y,
    {
        self.1
    }

    pub fn z(&self) -> (r: i64)
        ensures
            r as int == self@.z,
    {
        self.2
    }

    pub fn new(x: i64, y: i64, z: i64) -> (r: Vec3)
        ensures
            r@ == (V3 { x: x as int, y: y as int, z: z as int }),
    {
        Vec3(x, y, z)
    }

    pub fn length_squared(&self) -> (r: i64)
        ensures
            r as int == vlen2(self@),
    {
        self.dot(*self)
    }

    pub fn length(&self) -> (r: i64)
        ensures
            r as int == vlen(self@),
            r >= 0,
    {
        fxsqrt(self.length_squared())
    }

    pub fn unit_vector(&self) -> (r: Vec3)
        ensures
            r@ == vunit(self@),
    {
        self.div_scalar(self.length())
    }

    pub fn dot(&self, other: Vec3) -> (r: i64)
        ensures
            r as int == vdot(self@, other@),
    {
        fxadd(fxadd(fxmul(self.0, other.0), fxmul(self.1, other.1)), fxmul(self.2, other.2))
    }

    pub fn cross(&self, other: Vec3) -> (r: Vec3)
        ensures
            r@ == vcross(self@, other@),
    {
        Vec3(
            fxsub(fxmul(self.1, other.2), fxmul(self.2, other.1)),
            fxsub(fxmul(self.2, other.0), fxmul(self.0, other.2)),
            fxsub(fxmul(self.0, other.1), fxmul(self.1, other.0)),
        )
    }

    /// One display byte per channel: gamma-corrected, clamped to unit
    /// intensity, and scaled to the 0..=255 range.
    pub fn get_color(&self) -> (r: (u8, u8, u8))
        ensures
            r.0 as int == pixel_byte(self@.x),
            r.1 as int == pixel_byte(self@.y),
            r.2 as int == pixel_byte(self@.z),
    {
        (color_byte(self.0), color_byte(self.1), color_byte(self.2))
    }

    pub fn add(self, other: Vec3) -> (r: Vec3)
        ensures
            r@ == vadd(self@, other@),
    {
        Vec3(fxadd(self.0, other.0), fxadd(self.1, other.1), fxadd(self.2, other.2))
    }

    pub fn sub(self, other: Vec3) -> (r: Vec3)
        ensures
            r@ == vsub(self@, other@),
    {
        Vec3(fxsub(self.0, other.0), fxsub(self.1, other.1), fxsub(self.2, other.2))
    }

    /// Component-wise product.
    pub fn mul(self, rhs: Vec3) -> (r: Vec3)
        ensures
            r@ == vmul(self@, rhs@),
    {
        Vec3(fxmul(self.0, rhs.0), fxmul(self.1, rhs.1), fxmul(self.2, rhs.2))
    }

    /// Product with one scalar.
    pub fn scale(self, rhs: i64) -> (r: Vec3)
        ensures
            r@ == vscale(self@, rhs as int),
    {
        Vec3(fxmul(self.0, rhs), fxmul(self.1, rhs), fxmul(self.2, rhs))
    }

    /// Component-wise quotient.
    pub fn div(self, rhs: Vec3) -> (r: Vec3)
        ensures
            r@ == vdivv(self@, rhs@),
    {
        Vec3(fxdiv(self.0, rhs.0), fxdiv(self.1, rhs.1), fxdiv(self.2, rhs.2))
    }

    /// Quotient by one scalar.
    pub fn div_scalar(self, rhs: i64) -> (r: Vec3)
        ensures
            r@ == vdivs(self@, rhs as int),
    {
        Vec3(fxdiv(self.0, rhs), fxdiv(self.1, rhs), fxdiv(self.2, rhs))
    }

    pub fn neg(self) -> (r: Vec3)
        ensures
            r@ == vneg(self@),
    {
        Vec3(fxneg(self.0), fxneg(self.1), fxneg(self.2))
    }

    pub fn add_assign(&mut self, other: Vec3)
        ensures
            final(self)@ == vadd(old(self)@, other@),
    {
        *self = self.add(other);
    }

    pub fn sub_assign(&mut self, other: Vec3)
        ensures
            final(self)@ == vsub(old(self)@, other@),
    {
        *self = self.sub(other);
    }

    pub fn mul_assign(&mut self, other: i64)
        ensures
            final(self)@ == vscale(old(self)@, other as int),
    {
        *self = self.scale(other);
    }

    pub fn div_assign(&mut self, other: i64)
        ensures
            final(self)@ == vdivs(old(self)@, other as int),
    {
        *self = self.div_scalar(other);
    }
}

/// Products of range-bounded factors are range-bounded.
proof fn lemma_mul_range(a: int, am: int, b: int, bm: int)
    by (nonlinear_arith)
    requires
        -am <= a <= am,
        -bm <= b <= bm,
        0 <= am,
        0 <= bm,
    ensures
        -(am * bm) <= a * b <= am * bm,
{
}

/// Reflection reverses the normal component: for a unit normal `n` (as
/// measured by the fixed-point dot product) and a vector of moderate
/// magnitude, the dot of `reflect(v, n)` with `n` is `-(v . n)` up to a
/// rounding error of at most `6 |v . n| / ONE + 16` raw units.
pub proof fn lemma_reflect_dot(v: V3, n: V3)
    requires
        vdot(n, n) == ONE as int,
        -0x1_0000_0000int <= v.x <= 0x1_0000_0000int,
        -0x1_0000_0000int <= v.y <= 0x1_0000_0000int,
        -0x1_0000_0000int <= v.z <= 0x1_0000_0000int,
        -0x2_0000int <= n.x <= 0x2_0000int,
        -0x2_0000int <= n.y <= 0x2_0000int,
        -0x2_0000int <= n.z <= 0x2_0000int,
    ensures
        abs(vdot(vreflect(v, n), n) + vdot(v, n)) * (ONE as int) <= 6 * abs(vdot(v, n)) + 16 * (
        ONE as int),
{
    let w = ONE as int;
    let vb = 0x1_0000_0000int;
    let nb = 0x2_0000int;

    // the exact sums
    let s = v.x * n.x + v.y * n.y + v.z * n.z;
    let nn = n.x * n.x + n.y * n.y + n.z * n.z;

    // d = vdot(v, n) is within 3 raw units of s / ONE
    lemma_mul_range(v.x, vb, n.x, nb);
    lemma_mul_range(v.y, vb, n.y, nb);
    lemma_mul_range(v.z, vb, n.z, nb);
    lemma_fmul_close(v.x, n.x);
    lemma_fmul_close(v.y, n.y);
    lemma_fmul_close(v.z, n.z);
    let d = vdot(v, n);
    assert(s - 3 * w < w * d < s + 3 * w);
    let db = 3 * (vb * nb) / w + 3;
    assert(-db <= d <= db);

    // nn is within 3 raw units of ONE * vdot(n, n) == ONE * ONE
    lemma_mul_range(n.x, nb, n.x, nb);
    lemma_mul_range(n.y, nb, n.y, nb);
    lemma_mul_range(n.z, nb, n.z, nb);
    lemma_fmul_close(n.x, n.x);
    lemma_fmul_close(n.y, n.y);
    lemma_fmul_close(n.z, n.z);
    assert(n.x * n.x >= 0 && n.y * n.y >= 0 && n.z * n.z >= 0) by (nonlinear_arith);
    assert(w * w <= nn < w * w + 3 * w);
    let nu = nn - w * w;

    // m = n scaled by d, with per-component error below one raw unit
    lemma_mul_range(n.x, nb, d, db);
    lemma_mul_range(n.y, nb, d, db);
    lemma_mul_range(n.z, nb, d, db);
    lemma_fmul_close(n.x, d);
    lemma_fmul_close(n.y, d);
    lemma_fmul_close(n.z, d);
    let m = vscale(n, d);
    let ex = w * m.x - n.x * d;
    let ey = w * m.y - n.y * d;
    let ez = w * m.z - n.z * d;
    assert(-w < ex < w && -w < ey < w && -w < ez < w);
    let mb = (nb * db + w) / w;
    assert(-mb <= m.x <= mb && -mb <= m.y <= mb && -mb <= m.z <= mb);

    // scaling by 2.0 is exact doubling
    lemma_mul_range(m.x, mb, 2 * w, 2 * w);
    lemma_mul_range(m.y, mb, 2 * w, 2 * w);
    lemma_mul_range(m.z, mb, 2 * w, 2 * w);
    lemma_fmul_close(m.x, 2 * w);
    lemma_fmul_close(m.y, 2 * w);
    lemma_fmul_close(m.z, 2 * w);
    let t = vscale(m, 2 * w);
    assert(t.x == 2 * m.x && t.y == 2 * m.y && t.z == 2 * m.z);

    // the reflected vector, exactly v - 2 m
    let r = vreflect(v, n);
    assert(r.x == v.x - 2 * m.x && r.y == v.y - 2 * m.y && r.z == v.z - 2 * m.z);
    let rb = vb + 2 * mb;
    assert(-rb <= r.x <= rb && -rb <= r.y <= rb && -rb <= r.z <= rb);

    // d1 = vdot(r, n) is within 3 raw units of (sum r_i n_i) / ONE
    lemma_mul_range(r.x, rb, n.x, nb);
    lemma_mul_range(r.y, rb, n.y, nb);
    lemma_mul_range(r.z, rb, n.z, nb);
    lemma_fmul_close(r.x, n.x);
    lemma_fmul_close(r.y, n.y);
    lemma_fmul_close(r.z, n.z);
    let d1 = vdot(r, n);
    let sr = r.x * n.x + r.y * n.y + r.z * n.z;
    assert(sr - 3 * w < w * d1 < sr + 3 * w);

    // sum r_i n_i == s - 2 * (sum m_i n_i)
    assert(r.x * n.x == v.x * n.x - 2 * (m.x * n.x)) by (nonlinear_arith)
        requires
            r.x == v.x - 2 * m.x,
    ;
    assert(r.y * n.y == v.y * n.y - 2 * (m.y * n.y)) by (nonlinear_arith)
        requires
            r.y == v.y - 2 * m.y,
    ;
    assert(r.z * n.z == v.z * n.z - 2 * (m.z * n.z)) by (nonlinear_arith)
        requires
            r.z == v.z - 2 * m.z,
    ;
    let msum = m.x * n.x + m.y * n.y + m.z * n.z;
    assert(sr == s - 2 * msum);

    // ONE * (sum m_i n_i) == nn * d + (sum e_i n_i)
    assert(w * (m.x * n.x) == n.x * n.x * d + ex * n.x) by (nonlinear_arith)
        requires
            w * m.x == n.x * d + ex,
    ;
    assert(w * (m.y * n.y) == n.y * n.y * d + ey * n.y) by (nonlinear_arith)
        requires
            w * m.y == n.y * d + ey,
    ;
    assert(w * (m.z * n.z) == n.z * n.z * d + ez * n.z) by (nonlinear_arith)
        requires
            w * m.z == n.z * d + ez,
    ;
    let esum = ex * n.x + ey * n.y + ez * n.z;
    assert(n.x * n.x * d + n.y * n.y * d + n.z * n.z * d == nn * d) by (nonlinear_arith)
        requires
            nn == n.x * n.x + n.y * n.y + n.z * n.z,
    ;
    assert(w * msum == nn * d + esum);

    // |sum e_i n_i| <= 3 * ONE * (ONE + 1): each n_i is nearly unit
    assert(n.x * n.x <= nn && n.y * n.y <= nn && n.z * n.z <= nn);
    assert(-(w + 1) <= n.x <= w + 1) by (nonlinear_arith)
        requires
            n.x * n.x < (w + 1) * (w + 1),
            w > 0,
    ;
    assert(-(w + 1) <= n.y <= w + 1) by (nonlinear_arith)
        requires
            n.y * n.y < (w + 1) * (w + 1),
            w > 0,
    ;
    assert(-(w + 1) <= n.z <= w + 1) by (nonlinear_arith)
        requires
            n.z * n.z < (w + 1) * (w + 1),
            w > 0,
    ;
    lemma_mul_range(ex, w, n.x, w + 1);
    lemma_mul_range(ey, w, n.y, w + 1);
    lemma_mul_range(ez, w, n.z, w + 1);
    assert(-(3 * w * (w + 1)) <= esum <= 3 * w * (w + 1));

    // nu * d is bounded relative to |d|
    let ad = abs(d) as int;
    assert(-ad <= d <= ad && 0 <= ad);
    assert(-(3 * w * ad) <= nu * d <= 3 * w * ad) by (nonlinear_arith)
        requires
            0 <= nu < 3 * w,
            -ad <= d <= ad,
            0 <= ad,
            w > 0,
    ;

    // combine: ONE^2 * (d1 + d) is a small error term
    let eta = w * d - s;
    assert(-(3 * w) < eta < 3 * w);
    assert(w * (w * d1) == w * w * d1) by (nonlinear_arith);
    assert(w * sr == w * s - 2 * (w * msum)) by (nonlinear_arith)
        requires
            sr == s - 2 * msum,
    ;
    assert(w * s == w * (w * d) - w * eta) by (nonlinear_arith)
        requires
            s == w * d - eta,
    ;
    assert(w * (w * d) == w * w * d) by (nonlinear_arith);
    assert(nn * d == w * w * d + nu * d) by (nonlinear_arith)
        requires
            nn == w * w + nu,
    ;
    // w * w * d1 lies within w * sr +/- 3 w^2, and
    // w * sr == w*w*d - w*eta - 2*(w*w*d + nu*d + esum)
    assert(w * sr - 3 * (w * w) < w * w * d1 && w * w * d1 < w * sr + 3 * (w * w));
    assert(w * sr == w * w * d - w * eta - 2 * (w * w * d + nu * d + esum));
    let y = d1 + d;
    assert(-(6 * w * ad + 13 * w * w) <= w * w * y <= 6 * w * ad + 13 * w * w)
        by (nonlinear_arith)
        requires
            w * sr - 3 * (w * w) < w * w * d1 < w * sr + 3 * (w * w),
            w * sr == w * w * d - w * eta - 2 * (w * w * d + nu * d + esum),
            -(3 * w) < eta < 3 * w,
            -(3 * w * ad) <= nu * d <= 3 * w * ad,
            -(3 * w * (w + 1)) <= esum <= 3 * w * (w + 1),
            y == d1 + d,
            w >= 8,
    ;
    // divide by ONE
    let x = abs(y) as int;
    assert(x == y || x == -y);
    assert(x * w <= 6 * ad + 16 * w) by (nonlinear_arith)
        requires
            -(6 * w * ad + 13 * w * w) <= w * w * y <= 6 * w * ad + 13 * w * w,
            x == y || x == -y,
            x >= 0,
            ad >= 0,
            w >= 8,
    ;
}

/// Squaring a one-divisor-accurate quotient: if `s * q` is `a + e`, then
/// `s^2 q^2` expands into the exact square plus cross and error terms.
#[verifier::rlimit(100)]
proof fn lemma_square_of_near(s: int, q: int, a: int, e: int)
    by (nonlinear_arith)
    requires
        s * q == a + e,
    ensures
        s * s * (q * q) == a * a + 2 * (a * e) + e * e,
{
}

/// Normalization yields a vector of length one, up to fixed-point
/// rounding: for a vector of moderate magnitude whose squared length is
/// at least a sixteenth, the squared length of `unit_vector` is within
/// 192 raw units of one, and its length within 256 raw units of one.
pub proof fn lemma_unit_vector_length(p: V3)
    requires
        -0x1_0000_0000int <= p.x <= 0x1_0000_0000int,
        -0x1_0000_0000int <= p.y <= 0x1_0000_0000int,
        -0x1_0000_0000int <= p.z <= 0x1_0000_0000int,
        vlen2(p) >= 4096,
    ensures
        (ONE as int) - 192 <= vlen2(vunit(p)) <= (ONE as int) + 192,
        (ONE as int) - 256 <= vlen(vunit(p)) <= (ONE as int) + 256,
{
    let w = ONE as int;
    let pb = 0x1_0000_0000int;
    let l = vlen2(p);

    // l is the truncated sum of squares: w * l <= sp < w * l + 3 * w
    lemma_mul_range(p.x, pb, p.x, pb);
    lemma_mul_range(p.y, pb, p.y, pb);
    lemma_mul_range(p.z, pb, p.z, pb);
    lemma_fmul_close(p.x, p.x);
    lemma_fmul_close(p.y, p.y);
    lemma_fmul_close(p.z, p.z);
    assert(p.x * p.x >= 0 && p.y * p.y >= 0 && p.z * p.z >= 0) by (nonlinear_arith);
    let sp = p.x * p.x + p.y * p.y + p.z * p.z;
    assert(w * l <= sp < w * l + 3 * w);

    // the length s brackets l * w between consecutive squares
    let s = vlen(p);
    crate::fixed::lemma_sqrt_floor_bounds(l * w);
    assert(s == crate::fixed::sqrt_floor(l * w));
    assert(s >= 0 && s * s <= l * w < (s + 1) * (s + 1));
    assert(s >= 16384) by (nonlinear_arith)
        requires
            s >= 0,
            (s + 1) * (s + 1) > l * w,
            l >= 4096,
            w == 65536,
    ;
    assert(l <= 3 * (pb * pb) / w + 3);
    assert(s < 0x2_0000_0000int) by (nonlinear_arith)
        requires
            s >= 0,
            s * s <= l * w,
            l <= 3 * (pb * pb) / w + 3,
            pb == 0x1_0000_0000,
            w == 65536,
    ;

    // each component is below s + 6 in magnitude
    assert(p.x * p.x <= sp && p.y * p.y <= sp && p.z * p.z <= sp);
    assert(sp < (s + 7) * (s + 7)) by (nonlinear_arith)
        requires
            sp < w * l + 3 * w,
            l * w < (s + 1) * (s + 1),
            s >= 16384,
            w == 65536,
    ;
    assert(-(s + 6) <= p.x <= s + 6) by (nonlinear_arith)
        requires
            p.x * p.x < (s + 7) * (s + 7),
            s >= 0,
    ;
    assert(-(s + 6) <= p.y <= s + 6) by (nonlinear_arith)
        requires
            p.y * p.y < (s + 7) * (s + 7),
            s >= 0,
    ;
    assert(-(s + 6) <= p.z <= s + 6) by (nonlinear_arith)
        requires
            p.z * p.z < (s + 7) * (s + 7),
            s >= 0,
    ;

    // the normalized components, each within one divisor of exact
    assert(abs(p.x) * w <= (crate::fixed::FIX_MAX as int) * s);
    assert(abs(p.y) * w <= (crate::fixed::FIX_MAX as int) * s);
    assert(abs(p.z) * w <= (crate::fixed::FIX_MAX as int) * s);
    crate::fixed::lemma_fdiv_close(p.x, s);
    crate::fixed::lemma_fdiv_close(p.y, s);
    crate::fixed::lemma_fdiv_close(p.z, s);
    let u = vunit(p);
    assert(u == vdivs(p, s));
    let ex = s * u.x - p.x * w;
    let ey = s * u.y - p.y * w;
    let ez = s * u.z - p.z * w;
    assert(-s < ex < s && -s < ey < s && -s < ez < s);

    // each normalized component is near or below one
    assert(-(w + 25) <= u.x <= w + 25) by (nonlinear_arith)
        requires
            s * u.x == p.x * w + ex,
            -(s + 6) <= p.x <= s + 6,
            -s < ex < s,
            s >= 16384,
            w == 65536,
    ;
    assert(-(w + 25) <= u.y <= w + 25) by (nonlinear_arith)
        requires
            s * u.y == p.y * w + ey,
            -(s + 6) <= p.y <= s + 6,
            -s < ey < s,
            s >= 16384,
            w == 65536,
    ;
    assert(-(w + 25) <= u.z <= w + 25) by (nonlinear_arith)
        requires
            s * u.z == p.z * w + ez,
            -(s + 6) <= p.z <= s + 6,
            -s < ez < s,
            s >= 16384,
            w == 65536,
    ;

    // the exact sum of squares of the normalized components
    let squ = u.x * u.x + u.y * u.y + u.z * u.z;
    lemma_square_of_near(s, u.x, p.x * w, ex);
    lemma_square_of_near(s, u.y, p.y * w, ey);
    lemma_square_of_near(s, u.z, p.z * w, ez);
    assert((p.x * w) * (p.x * w) == w * w * (p.x * p.x)) by (nonlinear_arith);
    assert((p.y * w) * (p.y * w) == w * w * (p.y * p.y)) by (nonlinear_arith);
    assert((p.z * w) * (p.z * w) == w * w * (p.z * p.z)) by (nonlinear_arith);
    assert(s * s * (u.x * u.x) == w * w * (p.x * p.x) + 2 * ((p.x * w) * ex) + ex * ex);
    assert(s * s * (u.y * u.y) == w * w * (p.y * p.y) + 2 * ((p.y * w) * ey) + ey * ey);
    assert(s * s * (u.z * u.z) == w * w * (p.z * p.z) + 2 * ((p.z * w) * ez) + ez * ez);
    assert(s * s * squ == s * s * (u.x * u.x) + s * s * (u.y * u.y) + s * s * (u.z * u.z))
        by (nonlinear_arith)
        requires
            squ == u.x * u.x + u.y * u.y + u.z * u.z,
    ;
    assert(w * w * sp == w * w * (p.x * p.x) + w * w * (p.y * p.y) + w * w * (p.z * p.z))
        by (nonlinear_arith)
        requires
            sp == p.x * p.x + p.y * p.y + p.z * p.z,
    ;
    assert(s * s * squ == w * w * sp + 2 * ((p.x * w) * ex + (p.y * w) * ey + (p.z * w) * ez) + (ex
        * ex + ey * ey + ez * ez));
    let cross = (p.x * w) * ex + (p.y * w) * ey + (p.z * w) * ez;
    let esq = ex * ex + ey * ey + ez * ez;
    assert(-(3 * ((s + 6) * w * s)) <= cross <= 3 * ((s + 6) * w * s)) by (nonlinear_arith)
        requires
            -(s + 6) <= p.x <= s + 6,
            -(s + 6) <= p.y <= s + 6,
            -(s + 6) <= p.z <= s + 6,
            -s < ex < s,
            -s < ey < s,
            -s < ez < s,
            cross == (p.x * w) * ex + (p.y * w) * ey + (p.z * w) * ez,
            s >= 16384,
            w == 65536,
    ;
    assert(0 <= esq <= 3 * (s * s)) by (nonlinear_arith)
        requires
            -s < ex < s,
            -s < ey < s,
            -s < ez < s,
            esq == ex * ex + ey * ey + ez * ez,
            s >= 1,
    ;

    // bracket the exact sum of squares around one
    assert(squ >= w * w - 7 * w) by (nonlinear_arith)
        requires
            s * s * squ == w * w * sp + 2 * cross + esq,
            w * l <= sp,
            s * s <= l * w,
            -(3 * ((s + 6) * w * s)) <= cross,
            esq >= 0,
            s >= 16384,
            w == 65536,
    ;
    assert(squ <= w * w + 80 * w) by (nonlinear_arith)
        requires
            s * s * squ == w * w * sp + 2 * cross + esq,
            sp < w * l + 3 * w,
            l * w < (s + 1) * (s + 1),
            cross <= 3 * ((s + 6) * w * s),
            esq <= 3 * (s * s),
            s >= 16384,
            w == 65536,
    ;

    // the truncated squared length of the normalized vector
    lemma_mul_range(u.x, w + 25, u.x, w + 25);
    lemma_mul_range(u.y, w + 25, u.y, w + 25);
    lemma_mul_range(u.z, w + 25, u.z, w + 25);
    lemma_fmul_close(u.x, u.x);
    lemma_fmul_close(u.y, u.y);
    lemma_fmul_close(u.z, u.z);
    assert(u.x * u.x >= 0 && u.y * u.y >= 0 && u.z * u.z >= 0) by (nonlinear_arith);
    let t = vlen2(u);
    assert(w * t <= squ < w * t + 3 * w);
    assert(w - 192 <= t <= w + 192) by (nonlinear_arith)
        requires
            w * t <= squ < w * t + 3 * w,
            w * w - 7 * w <= squ <= w * w + 80 * w,
            w == 65536,
    ;

    // the length of the normalized vector brackets its squared length
    crate::fixed::lemma_sqrt_floor_bounds(t * w);
    let sl = vlen(u);
    assert(t > 0);
    assert(sl == crate::fixed::sqrt_floor(t * w));
    assert(sl >= 0 && sl * sl <= t * w < (sl + 1) * (sl + 1));
    assert(w - 256 <= sl <= w + 256) by (nonlinear_arith)
        requires
            sl >= 0,
            sl * sl <= t * w < (sl + 1) * (sl + 1),
            w - 192 <= t <= w + 192,
            w == 65536,
    ;
}

/// A saturated square is never negative.
pub proof fn lemma_fmul_square_nonneg(x: int)
    ensures
        fmul(x, x) >= 0,
{
    assert(x * x >= 0) by (nonlinear_arith);
    vstd::arithmetic::div_mod::lemma_div_pos_is_pos(x * x, ONE as int);
}

/// A squared length is never negative.
pub proof fn lemma_vlen2_nonneg(a: V3)
    ensures
        vlen2(a) >= 0,
{
    lemma_fmul_square_nonneg(a.x);
    lemma_fmul_square_nonneg(a.y);
    lemma_fmul_square_nonneg(a.z);
}

/// The display byte for one linear channel value.
pub open spec fn pixel_byte(c: int) -> int {
    divz(iclamp(0, ONE as int, fsqrt(c)) * 255999, 65536000)
}

/// Gamma-correct, clamp and scale one channel to a display byte.
fn color_byte(c: i64) -> (r: u8)
    ensures
        r as int == pixel_byte(c as int),
{
    let g = linear_to_gamma(c);
    let intensity = Interval::new(0, ONE);
    let cl = intensity.clamp(g);
    let num = cl * 255999;
    let b = fxdivn(num, 65536000);
    proof {
        lemma_divz_bounds(num as int, 65536000);
    }
    b as u8
}

} // verus!
