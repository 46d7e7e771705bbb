//! Shared numeric constants and angle conversion.

use crate::fixed::{fdiv, fmul, fxdiv, fxmul, ONE};
use vstd::prelude::*;

verus! {

/// Pi in raw units.
pub const PI_FX: i64 = 205887;

/// Half of one in raw units.
pub const HALF: i64 = 32768;

/// Degrees to radians: `x * pi / 180`.
pub open spec fn deg2rad(x: int) -> int {
    fdiv(fmul(x, PI_FX as int), 180 * (ONE as int))
}

pub fn degrees_to_radians(degrees: i64) -> (r: i64)
    ensures
        r as int == deg2rad(degrees as int),
{
    fxdiv(fxmul(degrees, PI_FX), 180 * ONE)
}

} // verus!
