//! Scalar constants and the random source.
//!
//! The only trusted item of the crate lives here: a wrapper around the
//! `rand` crate that draws raw bits. Everything derived from it is verified
//! for every value those bits could take.

use vstd::prelude::*;
use crate::fx::{FX_ONE, FX_MAX, fxs_mul, fxs_div, fxs_from_int, in_range, fx_add, fx_sub, fx_mul, fx_div, fx_from_int, lemma_fxs_mul_bounds};

verus! {

/// Stands in for an unbounded upper ray parameter: the largest scalar.
pub const INFINITY: i64 = FX_MAX;

/// The circle constant in the fixed-point scale (`pi * FX_ONE`, rounded).
pub const PI: i64 = 205887;

/// Relies on `rand::random::<u64>`: draws one machine-random 64-bit value.
/// Nothing is promised of the result; callers state what holds of every
/// outcome.
#[verifier::external_body]
fn random_bits() -> u64 {
    rand::random::<u64>()
}

/// A uniformly distributed scalar in `[0, 1)`, i.e. in `[0, FX_ONE)`.
pub fn random_scalar() -> (r: i64)
    ensures
        0 <= r < FX_ONE,
{
    let bits = random_bits();
    (bits % (FX_ONE as u64)) as i64
}

/// A uniformly distributed scalar in `[min, max)` (degenerating to `min`
/// when the range is empty).
pub fn random_scalar_custom(min: i64, max: i64) -> (r: i64)
    requires
        in_range(min as int),
        min <= max,
    ensures
        min <= r <= max,
        min < max ==> r < max,
{
    let d = fx_sub(max, min);
    let u = random_scalar();
    let t = fx_mul(d, u);
    proof {
        lemma_fxs_mul_bounds(d as int, u as int);
    }
    fx_add(min, t)
}

/// Degrees to radians: `d * PI / 180`.
pub fn degrees_to_radians(degrees: i64) -> (r: i64)
    ensures
        r as int == fxs_div(fxs_mul(degrees as int, PI as int), fxs_from_int(180)),
{
    let circle = fx_mul(degrees, PI);
    let half_turn = fx_from_int(180);
    fx_div(circle, half_turn)
}

} // verus!
