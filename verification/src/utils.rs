//! Scalar random draws, threaded through an explicit sampler handle.
//!
//! The renderer takes its randomness from a `Sampler` passed down the call
//! chain: either the process-wide generator, or a fixed cycle of raw values
//! for reproducible runs.  Contracts promise only what holds of every draw
//! (its range, and its shape as a function of some in-range draw), never a
//! particular value.

use crate::fixed::{fadd, fmul, fsub, divz, fxadd, fxmul, fxsub, FIX_MAX, ONE};
use vstd::arithmetic::div_mod::{lemma_div_by_multiple, lemma_div_is_ordered, lemma_div_pos_is_pos};
use vstd::arithmetic::mul::lemma_mul_is_commutative;
use vstd::math::abs;
use vstd::prelude::*;

verus! {

/// Relies on rand::random: an independent draw, uniform over all of u64.
#[verifier::external_body]
fn sys_random_u64() -> u64 {
    rand::random()
}

/// A source of uniform scalar draws in `[0, 1)`.
pub struct Sampler {
    system: bool,
    queue: Vec<i64>,
    next: usize,
}

/// A draw of `d` over the span from `min` to `max`: `min + d * (max - min)`.
pub open spec fn range_sample(min: int, max: int, d: int) -> int {
    fadd(min, fmul(d, fsub(max, min)))
}

impl Sampler {
    /// Draws come from the process-wide random number generator.
    pub fn system() -> (s: Sampler) {
        Sampler { system: true, queue: Vec::new(), next: 0 }
    }

    /// Draws cycle through the given raw values in order; a value outside
    /// `[0, ONE)` is read as 0.  For reproducible runs and tests.
    pub fn cycle(values: Vec<i64>) -> (s: Sampler) {
        Sampler { system: false, queue: values, next: 0 }
    }

    /// One uniform draw in `[0, 1)`, as a raw scalar in `[0, ONE)`.
    pub fn next_unit(&mut self) -> (r: i64)
        ensures
            0 <= r < ONE,
    {
        if self.system {
            let x = sys_random_u64();
            (x % 65536u64) as i64
        } else if self.queue.len() == 0 {
            0
        } else {
            let i = if self.next < self.queue.len() {
                self.next
            } else {
                0
            };
            let v = self.queue[i];
            self.next = if i + 1 < self.queue.len() {
                i + 1
            } else {
                0
            };
            if 0 <= v && v < ONE {
                v
            } else {
                0
            }
        }
    }
}

/// Scaling a nonnegative span by a draw below one stays within the span.
pub proof fn lemma_fmul_unit_range(d: int, delta: int)
    requires
        0 <= d < ONE as int,
        0 <= delta <= FIX_MAX as int,
    ensures
        0 <= fmul(d, delta) <= delta,
{
    assert(0 <= d * delta <= (ONE as int - 1) * delta) by (nonlinear_arith)
        requires
            0 <= d <= ONE as int - 1,
            0 <= delta,
    ;
    let n = d * delta;
    let q = n / (ONE as int);
    lemma_div_pos_is_pos(n, ONE as int);
    assert(abs(n) == n);
    assert(divz(n, ONE as int) == q);
    lemma_div_is_ordered(n, ONE as int * delta, ONE as int);
    lemma_mul_is_commutative(ONE as int, delta);
    lemma_div_by_multiple(delta, ONE as int);
    assert(q <= delta);
}

/// One uniform draw in `[0, 1)`.
pub fn random_double(sampler: &mut Sampler) -> (r: i64)
    ensures
        0 <= r < ONE,
{
    sampler.next_unit()
}

/// One uniform draw over `[min, max)`, as `min + d * (max - min)` for some
/// in-range `d`.
pub fn random_double_with_range(sampler: &mut Sampler, min: i64, max: i64) -> (r: i64)
    ensures
        exists|d: int|
            0 <= d < ONE as int && r as int == range_sample(min as int, max as int, d),
        -FIX_MAX <= min <= max ==> min <= r <= max,
{
    let d = sampler.next_unit();
    let r = fxadd(min, fxmul(d, fxsub(max, min)));
    proof {
        if min <= max {
            lemma_fmul_unit_range(d as int, fsub(max as int, min as int));
        }
        assert(r as int == range_sample(min as int, max as int, d as int));
    }
    r
}

} // verus!
