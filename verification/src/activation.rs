//! The activation function of the network: the logistic sigmoid
//! `1 / (1 + e^-x)`, on fixed-point numbers.
//!
//! The exponential of a magnitude `m` is taken as the product of a tabulated
//! power of `e` for the whole part of `m` and a Taylor polynomial of degree
//! twelve for its fractional part. Magnitudes of `SATURATION` and above give
//! the outermost values `1` and `ONE - 1`, so every activation lies strictly
//! between zero and one.

use vstd::prelude::*;
use crate::fixed::{saturate, ONE};

verus! {

/// From this magnitude on the logistic no longer changes.
pub const SATURATION: i64 = 21_000_000_000;

/// The degree of the Taylor polynomial.
pub const EXP_DEGREE: u64 = 12;

/// `e^n` for `n` from 0 to 20, in billionths.
pub const EXP_WHOLE: [i64; 21] = [
    1_000_000_000,
    2_718_281_828,
    7_389_056_099,
    20_085_536_923,
    54_598_150_033,
    148_413_159_103,
    403_428_793_493,
    1_096_633_158_428,
    2_980_957_987_042,
    8_103_083_927_575,
    22_026_465_794_807,
    59_874_141_715_198,
    162_754_791_419_004,
    442_413_392_008_921,
    1_202_604_284_164_777,
    3_269_017_372_472_111,
    8_886_110_520_507_873,
    24_154_952_753_575_298,
    65_659_969_137_330_511,
    178_482_300_963_187_261,
    485_165_195_409_790_278,
];

/// The tail of the Taylor polynomial of `e^r` in Horner's form:
/// `1 + r/k * (1 + r/(k+1) * (... (1 + r/12)))`, each division rounded down.
pub open spec fn exp_tail(r: int, k: nat) -> int
    decreases EXP_DEGREE + 1 - k,
{
    if k > EXP_DEGREE {
        ONE as int
    } else {
        ONE + (r * exp_tail(r, k + 1)) / (k * ONE)
    }
}

/// `e^r` for a fraction `0 <= r < ONE`.
pub open spec fn exp_fraction(r: int) -> int {
    exp_tail(r, 1)
}

/// `e^m` for a magnitude `0 <= m < SATURATION`.
pub open spec fn exp_fixed(m: int) -> int {
    (EXP_WHOLE[m / (ONE as int)] * exp_fraction(m % (ONE as int))) / (ONE as int)
}

/// The logistic of a magnitude `m >= 0`: `e^m / (1 + e^m)`.
pub open spec fn logistic_upper(m: int) -> int {
    if m >= SATURATION {
        ONE - 1
    } else {
        (ONE * exp_fixed(m)) / (ONE + exp_fixed(m))
    }
}

/// The logistic sigmoid of `x`. Below zero it is the mirror image of the
/// upper half: `logistic(-x) == ONE - logistic(x)`.
pub open spec fn logistic(x: int) -> int {
    if x >= 0 {
        logistic_upper(x)
    } else {
        ONE - logistic_upper(-x)
    }
}

/// Every tail of the polynomial lies between one and three, and between one
/// and two from the second term on.
proof fn lemma_exp_tail_bounds(r: int, k: nat)
    requires
        0 <= r < ONE,
        1 <= k <= 13,
    ensures
        ONE <= exp_tail(r, k),
        exp_tail(r, k) <= 3 * ONE,
        k >= 2 ==> exp_tail(r, k) <= 2 * ONE,
    decreases 13 - k,
{
    if k <= 12 {
        lemma_exp_tail_bounds(r, k + 1);
        let t = exp_tail(r, k + 1);
        let d = k * ONE;
        assert(0 <= (r * t) / d <= 2 * ONE && (k >= 2 ==> (r * t) / d <= ONE)) by (nonlinear_arith)
            requires
                0 <= r < ONE,
                ONE <= t <= 2 * ONE,
                k >= 1,
                d == k * ONE,
        ;
    }
}

/// The tabulated powers are at least one.
proof fn lemma_exp_whole_bounds(n: int)
    requires
        0 <= n <= 20,
    ensures
        ONE <= EXP_WHOLE[n] <= 485_165_195_409_790_278,
{
}

/// `e^m` is at least one and stays far inside the range of `i64`.
proof fn lemma_exp_fixed_bounds(m: int)
    requires
        0 <= m < SATURATION,
    ensures
        ONE <= exp_fixed(m) <= 3 * 485_165_195_409_790_278,
{
    let n = m / (ONE as int);
    let r = m % (ONE as int);
    lemma_exp_whole_bounds(n);
    lemma_exp_tail_bounds(r, 1);
    let w = EXP_WHOLE[n] as int;
    let f = exp_fraction(r);
    assert(ONE * ONE <= w * f <= 485_165_195_409_790_278 * (3 * ONE)) by (nonlinear_arith)
        requires
            ONE <= w <= 485_165_195_409_790_278,
            ONE <= f <= 3 * ONE,
    ;
}

/// The upper half of the logistic runs from one half to just below one.
proof fn lemma_logistic_upper_bounds(m: int)
    requires
        0 <= m,
    ensures
        ONE / 2 <= logistic_upper(m) <= ONE - 1,
{
    if m < SATURATION {
        lemma_exp_fixed_bounds(m);
        let e = exp_fixed(m);
        assert(ONE / 2 <= (ONE * e) / (ONE + e) <= ONE - 1) by (nonlinear_arith)
            requires
                ONE <= e,
        ;
    }
}

/// Every activation lies strictly between zero and one.
pub proof fn lemma_logistic_bounds(x: int)
    ensures
        0 < logistic(x) < ONE,
        x >= 0 ==> logistic(x) >= ONE / 2,
        x < 0 ==> logistic(x) <= ONE / 2,
{
    if x >= 0 {
        lemma_logistic_upper_bounds(x);
    } else {
        lemma_logistic_upper_bounds(-x);
    }
}

/// The logistic is symmetric about the point `(0, 1/2)`.
pub proof fn lemma_logistic_symmetry(x: int)
    ensures
        logistic(x) + logistic(-x) == ONE,
{
    if x == 0 {
        reveal_with_fuel(exp_tail, 14);
        assert(exp_fraction(0) == ONE);
        assert((ONE * ONE) / (ONE + ONE) == ONE / 2) by (nonlinear_arith)
            requires
                ONE == 1_000_000_000,
        ;
    }
}

/// Beyond the range of `i64` the logistic has long stopped changing.
pub proof fn lemma_logistic_saturates(x: int)
    ensures
        logistic(saturate(x)) == logistic(x),
{
}

/// Computes `e^r` for a fraction `r`.
fn exp_of_fraction(r: i64) -> (f: i64)
    requires
        0 <= r < ONE,
    ensures
        f == exp_fraction(r as int),
        ONE <= f <= 3 * ONE,
{
    let mut h: i64 = ONE;
    let mut k: u64 = EXP_DEGREE;
    proof {
        reveal_with_fuel(exp_tail, 1);
    }
    while k >= 1
        invariant
            0 <= k <= 12,
            0 <= r < ONE,
            h == exp_tail(r as int, (k + 1) as nat),
        decreases k,
    {
        proof {
            lemma_exp_tail_bounds(r as int, (k + 1) as nat);
            assert(0 <= r * h <= ONE * (2 * ONE)) by (nonlinear_arith)
                requires
                    0 <= r < ONE,
                    ONE <= h <= 2 * ONE,
            ;
            lemma_exp_tail_bounds(r as int, k as nat);
        }
        let d: i64 = (k as i64) * ONE;
        h = ONE + (r * h) / d;
        k = k - 1;
    }
    proof {
        lemma_exp_tail_bounds(r as int, 1);
    }
    h
}

/// Computes the logistic of a magnitude.
fn logistic_of_magnitude(m: i64) -> (y: i64)
    requires
        0 <= m,
    ensures
        y == logistic_upper(m as int),
        ONE / 2 <= y <= ONE - 1,
{
    proof {
        lemma_logistic_upper_bounds(m as int);
    }
    if m >= SATURATION {
        return ONE - 1;
    }
    let n: usize = (m / ONE) as usize;
    let r: i64 = m % ONE;
    proof {
        lemma_exp_whole_bounds(n as int);
        lemma_exp_fixed_bounds(m as int);
    }
    let f: i64 = exp_of_fraction(r);
    let w: i64 = EXP_WHOLE[n];
    assert(0 <= w * f <= 485_165_195_409_790_278 * (3 * ONE)) by (nonlinear_arith)
        requires
            ONE <= w <= 485_165_195_409_790_278,
            ONE <= f <= 3 * ONE,
    ;
    let e: i128 = ((w as i128) * (f as i128)) / (ONE as i128);
    assert(0 <= ONE * e <= ONE * (3 * 485_165_195_409_790_278)) by (nonlinear_arith)
        requires
            ONE <= e <= 3 * 485_165_195_409_790_278,
    ;
    let y: i128 = ((ONE as i128) * e) / ((ONE as i128) + e);
    y as i64
}

/// The logistic sigmoid of `x`.
pub fn logistic_of(x: i64) -> (y: i64)
    ensures
        y == logistic(x as int),
        0 < y < ONE,
{
    proof {
        lemma_logistic_bounds(x as int);
    }
    if x >= 0 {
        logistic_of_magnitude(x)
    } else if x <= -SATURATION {
        1
    } else {
        ONE - logistic_of_magnitude(-x)
    }
}

} // verus!
