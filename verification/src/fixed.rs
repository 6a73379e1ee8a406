//! Fixed-point arithmetic.
//!
//! Every real quantity of the engine (a weight, a position, a velocity, an
//! activation) is held as an `i64` that counts billionths: the real number `x`
//! is represented by `x * ONE`, rounded down. Time is counted in nanoseconds,
//! so one second is `ONE` as well. Results that leave the range of `i64` stay
//! at the nearest end of it.

use vstd::prelude::*;

verus! {

/// The representation of the real number one (and of one second).
pub const ONE: i64 = 1_000_000_000;

/// The value of `i64` nearest to `x`.
pub open spec fn saturate(x: int) -> int {
    if x < i64::MIN {
        i64::MIN as int
    } else if x > i64::MAX {
        i64::MAX as int
    } else {
        x
    }
}

/// The fixed-point product of `a` and `b`: the real product, rounded down to
/// a whole number of billionths.
pub open spec fn scaled(a: int, b: int) -> int {
    (a * b) / (ONE as int)
}

/// Brings a wide intermediate result back into `i64`.
pub fn narrow(x: i128) -> (r: i64)
    ensures
        r == saturate(x as int),
{
    if x < i64::MIN as i128 {
        i64::MIN
    } else if x > i64::MAX as i128 {
        i64::MAX
    } else {
        x as i64
    }
}

/// Sum of two fixed-point numbers.
pub fn plus(a: i64, b: i64) -> (r: i64)
    ensures
        r == saturate(a + b),
{
    narrow(a as i128 + b as i128)
}

/// Difference of two fixed-point numbers.
pub fn minus(a: i64, b: i64) -> (r: i64)
    ensures
        r == saturate(a - b),
{
    narrow(a as i128 - b as i128)
}

/// Divides by `ONE`, rounding down (towards negative infinity).
pub fn floor_one(p: i128) -> (q: i128)
    ensures
        q == (p as int) / (ONE as int),
{
    if p >= 0 {
        p / (ONE as i128)
    } else {
        let m: i128 = -(p + 1);
        -1 - m / (ONE as i128)
    }
}

/// What a rate `a` (per second) amounts to over `dt` nanoseconds.
pub fn over(a: i64, dt: u64) -> (r: i64)
    ensures
        r == saturate(scaled(a as int, dt as int)),
{
    assert(-0x8000_0000_0000_0000_0000_0000_0000_0000 < a * dt
        < 0x8000_0000_0000_0000_0000_0000_0000_0000) by (nonlinear_arith)
        requires
            -0x8000_0000_0000_0000 <= a < 0x8000_0000_0000_0000,
            0 <= dt < 0x1_0000_0000_0000_0000,
    ;
    let p: i128 = (a as i128) * (dt as i128);
    narrow(floor_one(p))
}

} // verus!
