//! The uniform random source used for apple placement.

use vstd::prelude::*;

verus! {

/// Relies on macroquad::rand::gen_range (quad-rand): for an integer type it
/// returns `low + (high - low) * f` truncated toward zero, with `f` drawn in
/// `[0, 1)`, so with `low = 0` and `high = bound >= 1` the result lies in
/// `[0, bound)`. Nothing more is assumed of the draw.
#[verifier::external_body]
pub(crate) fn rand_below(bound: i16) -> (r: i16)
    requires
        1 <= bound,
    ensures
        0 <= r < bound,
{
    macroquad::rand::gen_range(0, bound as i32) as i16
}

} // verus!
