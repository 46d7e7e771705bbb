//! Closed scalar ranges.
//!
//! An interval is the set of scalars from `min` to `max`, both included.
//! The renderer uses one interval for the window of acceptable ray
//! parameters and another for clamping radiance into display range.  The
//! empty and universal ranges use the saturation bounds as stand-ins for
//! the infinities.

use crate::fixed::{fsub, fxsub, FIX_MAX};
use vstd::prelude::*;

verus! {

/// Saturation of `x` into `[lo, hi]`.
pub open spec fn iclamp(lo: int, hi: int, x: int) -> int {
    if x < lo {
        lo
    } else if x > hi {
        hi
    } else {
        x
    }
}

#[derive(Clone, Copy, Debug, PartialEq, Eq, Structural)]
pub struct Interval {
    pub min: i64,
    pub max: i64,
}

impl Interval {
    pub fn new(min: i64, max: i64) -> (r: Interval)
        ensures
            r.min == min,
            r.max == max,
    {
        Interval { min, max }
    }

    /// Width of the range (saturated; negative for an empty range).
    pub fn size(&self) -> (r: i64)
        ensures
            r as int == fsub(self.max as int, self.min as int),
    {
        fxsub(self.max, self.min)
    }

    /// Closed containment: both endpoints belong to the range.
    pub fn contains(&self, x: i64) -> (r: bool)
        ensures
            r == (self.min <= x && x <= self.max),
    {
        self.min <= x && x <= self.max
    }

    /// Open containment: the endpoints themselves do not count.  Hit
    /// acceptance uses this to skip exact boundary self-intersections.
    pub fn surrounds(&self, x: i64) -> (r: bool)
        ensures
            r == (self.min < x && x < self.max),
    {
        self.min < x && x < self.max
    }

    /// Saturate `x` into the range.
    pub fn clamp(&self, x: i64) -> (r: i64)
        ensures
            r as int == iclamp(self.min as int, self.max as int, x as int),
    {
        if x < self.min {
            self.min
        } else if x > self.max {
            self.max
        } else {
            x
        }
    }

    /// The empty range: above every scalar from below, below from above.
    pub fn empty() -> (r: Interval)
        ensures
            r.min == FIX_MAX,
            r.max == -FIX_MAX,
    {
        Interval { min: FIX_MAX, max: -FIX_MAX }
    }

    /// The range of every representable scalar.
    pub fn universe() -> (r: Interval)
        ensures
            r.min == -FIX_MAX,
            r.max == FIX_MAX,
    {
        Interval { min: -FIX_MAX, max: FIX_MAX }
    }
}

impl Default for Interval {
    /// The default range accepts every representable scalar.
    fn default() -> (r: Interval)
        ensures
            r.min == -FIX_MAX,
            r.max == FIX_MAX,
    {
        Interval { min: -FIX_MAX, max: FIX_MAX }
    }
}

/// Clamping a second time changes nothing: for a non-empty range, the
/// result of `clamp` is already inside it, so `clamp` fixes its own image.
pub proof fn lemma_clamp_idempotent(lo: int, hi: int, x: int)
    requires
        lo <= hi,
    ensures
        iclamp(lo, hi, iclamp(lo, hi, x)) == iclamp(lo, hi, x),
{
}

} // verus!
