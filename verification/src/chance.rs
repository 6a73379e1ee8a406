//! Chance: 32-bit draws from the `rand` crate, and the fixed-point number
//! that a draw stands for.
//!
//! A draw is read as `rand` itself reads one when it makes a real number in
//! `[0, 1)`: its upper 24 bits count steps of `2^-24`. Stretched over
//! `[-range, range)` this gives every weight, bias and mutation of the engine.

use vstd::prelude::*;

verus! {

/// The number of distinct fractions that a draw can stand for: `2^24`.
pub const FRACTIONS: i64 = 0x100_0000;

/// The upper 24 bits of a draw.
pub open spec fn fraction(draw: u32) -> int {
    (draw as int) / 256
}

/// The point of `[-range, range)` that a draw stands for:
/// `fraction / 2^24 * 2 * range - range`, rounded down.
pub open spec fn spread(draw: u32, range: int) -> int {
    (fraction(draw) * (2 * range)) / (FRACTIONS as int) - range
}

/// A draw never leaves the range it is spread over.
pub proof fn lemma_spread_bounds(draw: u32, range: int)
    requires
        0 <= range,
    ensures
        -range <= spread(draw, range) <= range,
        range > 0 ==> spread(draw, range) < range,
{
    let f = fraction(draw);
    assert(0 <= (f * (2 * range)) / (FRACTIONS as int) <= 2 * range && (range > 0 ==> (f * (2
        * range)) / (FRACTIONS as int) < 2 * range)) by (nonlinear_arith)
        requires
            0 <= f < FRACTIONS,
            0 <= range,
            FRACTIONS == 0x100_0000,
    ;
}

/// Spreads a draw over `[-range, range)`.
pub fn spread_of(draw: u32, range: u32) -> (r: i64)
    ensures
        r == spread(draw, range as int),
        -range <= r <= range,
{
    proof {
        lemma_spread_bounds(draw, range as int);
    }
    let f: i64 = (draw / 256) as i64;
    let width: i64 = 2 * (range as i64);
    assert(0 <= f * width <= 0x100_0000 * 0x2_0000_0000) by (nonlinear_arith)
        requires
            0 <= f < 0x100_0000,
            0 <= width < 0x2_0000_0000,
    ;
    (f * width) / FRACTIONS - (range as i64)
}

/// One draw from `rand::random::<u32>()`, the thread-local generator of the
/// `rand` crate. Nothing is claimed of the number that comes back: two calls
/// may give any two values. The generator seeds itself from the operating
/// system on first use and panics if that source fails.
#[verifier::external_body]
pub(crate) fn draw() -> u32 {
    rand::random::<u32>()
}

} // verus!
