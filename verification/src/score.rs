//! Fixed-point fractions.
//!
//! Relevance scores, confidences and weights are fractions of one, held as a
//! whole number of millionths: `SCORE_ONE` stands for 1.0 and `500_000` for 0.5.

use vstd::prelude::*;

verus! {

/// The fixed-point representation of 1.0.
pub const SCORE_ONE: u32 = 1_000_000;

/// Seconds in one day.
pub const SECONDS_PER_DAY: i64 = 86_400;

/// `value` limited to the unit interval.
pub open spec fn spec_clamp_unit(value: int) -> int {
    if value < 0 {
        0
    } else if value > SCORE_ONE as int {
        SCORE_ONE as int
    } else {
        value
    }
}

/// The product of two fractions, rounded down to a millionth.
pub open spec fn spec_scale(value: int, weight: int) -> int {
    value * weight / (SCORE_ONE as int)
}

/// Multiplies two fixed-point fractions, rounding down.
pub fn scale(value: u32, weight: u32) -> (r: u64)
    ensures
        r == spec_scale(value as int, weight as int),
        value <= SCORE_ONE ==> r <= weight,
{
    let product: u64 = mul_wide(value, weight);
    let r: u64 = product / 1_000_000u64;
    proof {
        if value <= SCORE_ONE {
            assert(value as int * weight as int <= SCORE_ONE as int * weight as int)
                by (nonlinear_arith)
                requires
                    value <= SCORE_ONE,
                    0 <= weight,
            ;
            assert((SCORE_ONE as int * weight as int) / (SCORE_ONE as int) == weight as int)
                by (nonlinear_arith)
            ;
            assert(value as int * weight as int / (SCORE_ONE as int) <= (SCORE_ONE as int
                * weight as int) / (SCORE_ONE as int)) by (nonlinear_arith)
                requires
                    value as int * weight as int <= SCORE_ONE as int * weight as int,
            ;
        }
    }
    r
}

/// The exact product of two 32-bit values.
pub fn mul_wide(a: u32, b: u32) -> (r: u64)
    ensures
        r == a as int * b as int,
{
    assert(a as int * b as int <= 0xffff_ffff * 0xffff_ffff) by (nonlinear_arith)
        requires
            0 <= a <= 0xffff_ffff,
            0 <= b <= 0xffff_ffff,
    ;
    assert(0 <= a as int * b as int) by (nonlinear_arith)
        requires
            0 <= a,
            0 <= b,
    ;
    (a as u64) * (b as u64)
}

/// Limits a sum of fixed-point terms to the unit interval.
pub fn clamp_unit(value: u64) -> (r: u32)
    ensures
        r == spec_clamp_unit(value as int),
        r <= SCORE_ONE,
{
    if value > 1_000_000u64 {
        SCORE_ONE
    } else {
        value as u32
    }
}

/// The decimal logarithm of `n` in millionths, rounded to the nearest, for
/// `n` from 1 to 31; zero elsewhere. Larger arguments are never looked up:
/// every use caps the logarithm below that of 32.
pub open spec fn spec_log10(n: int) -> int {
    if n == 1 {
        0
    } else if n == 2 {
        301_030
    } else if n == 3 {
        477_121
    } else if n == 4 {
        602_060
    } else if n == 5 {
        698_970
    } else if n == 6 {
        778_151
    } else if n == 7 {
        845_098
    } else if n == 8 {
        903_090
    } else if n == 9 {
        954_243
    } else if n == 10 {
        1_000_000
    } else if n == 11 {
        1_041_393
    } else if n == 12 {
        1_079_181
    } else if n == 13 {
        1_113_943
    } else if n == 14 {
        1_146_128
    } else if n == 15 {
        1_176_091
    } else if n == 16 {
        1_204_120
    } else if n == 17 {
        1_230_449
    } else if n == 18 {
        1_255_273
    } else if n == 19 {
        1_278_754
    } else if n == 20 {
        1_301_030
    } else if n == 21 {
        1_322_219
    } else if n == 22 {
        1_342_423
    } else if n == 23 {
        1_361_728
    } else if n == 24 {
        1_380_211
    } else if n == 25 {
        1_397_940
    } else if n == 26 {
        1_414_973
    } else if n == 27 {
        1_431_364
    } else if n == 28 {
        1_447_158
    } else if n == 29 {
        1_462_398
    } else if n == 30 {
        1_477_121
    } else if n == 31 {
        1_491_362
    } else {
        0
    }
}

/// The decimal logarithm of `n` in millionths, for `n` from 1 to 31.
pub fn log10_millionths(n: u64) -> (r: u32)
    ensures
        r == spec_log10(n as int),
        r < 1_500_000,
{
    if n == 1 {
        0
    } else if n == 2 {
        301_030
    } else if n == 3 {
        477_121
    } else if n == 4 {
        602_060
    } else if n == 5 {
        698_970
    } else if n == 6 {
        778_151
    } else if n == 7 {
        845_098
    } else if n == 8 {
        903_090
    } else if n == 9 {
        954_243
    } else if n == 10 {
        1_000_000
    } else if n == 11 {
        1_041_393
    } else if n == 12 {
        1_079_181
    } else if n == 13 {
        1_113_943
    } else if n == 14 {
        1_146_128
    } else if n == 15 {
        1_176_091
    } else if n == 16 {
        1_204_120
    } else if n == 17 {
        1_230_449
    } else if n == 18 {
        1_255_273
    } else if n == 19 {
        1_278_754
    } else if n == 20 {
        1_301_030
    } else if n == 21 {
        1_322_219
    } else if n == 22 {
        1_342_423
    } else if n == 23 {
        1_361_728
    } else if n == 24 {
        1_380_211
    } else if n == 25 {
        1_397_940
    } else if n == 26 {
        1_414_973
    } else if n == 27 {
        1_431_364
    } else if n == 28 {
        1_447_158
    } else if n == 29 {
        1_462_398
    } else if n == 30 {
        1_477_121
    } else if n == 31 {
        1_491_362
    } else {
        0
    }
}

/// The table grows with its argument, from 0 at 1 to just over 1.0 at 10.
pub proof fn lemma_log10_monotone(a: int, b: int)
    requires
        1 <= a <= b <= 31,
    ensures
        0 <= spec_log10(a) <= spec_log10(b),
        spec_log10(1) == 0,
        spec_log10(10) == SCORE_ONE,
{
}

} // verus!
