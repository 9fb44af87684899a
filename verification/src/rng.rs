//! Pseudo-random draws, supplied by macroquad's process-wide generator.
//! Nothing can be promised of a random value beyond its range, so the
//! verified callers take whatever comes back and work for every outcome.

use vstd::prelude::*;

verus! {

/// Relies on macroquad::rand::gen_range::<i64>: a pseudo-random value drawn
/// from the given range.  Its source scales a 32-bit draw through `f64`
/// arithmetic, which keeps the result inside `[low, high]` as long as the
/// endpoints stay far below 2^52; the bound required here leaves rounding no
/// room to escape the range.
#[verifier::external_body]
pub fn gen_range_i64(low: i64, high: i64) -> (r: i64)
    requires
        low <= high,
        -0x4000_0000_0000 <= low,
        high <= 0x4000_0000_0000,
    ensures
        low <= r <= high,
{
    macroquad::rand::gen_range(low, high)
}

} // verus!
