//! Rays: an origin and a direction, evaluated at a parameter.

use crate::vec3::{vadd, vscale, Vec3, V3};
use vstd::prelude::*;

verus! {

#[derive(Clone, Copy, Debug, PartialEq, Eq, Structural)]
pub struct Ray {
    pub origin: Vec3,
    pub dir: Vec3,
}

/// The point a parameter `t` of the way along a ray: `origin + dir * t`.
pub open spec fn ray_at(r: Ray, t: int) -> V3 {
    vadd(r.origin@, vscale(r.dir@, t))
}

impl Ray {
    pub fn new(origin: Vec3, dir: Vec3) -> (r: Ray)
        ensures
            r.origin == origin,
            r.dir == dir,
    {
        Ray { origin, dir }
    }

    pub fn at(&self, t: i64) -> (r: Vec3)
        ensures
            r@ == ray_at(*self, t as int),
    {
        self.origin.add(self.dir.scale(t))
    }
}

} // verus!
