//! The quantized gain curve: decibels to linear gain, in fixed point.
//!
//! The threshold parameter lives in hundredths of a decibel; the engine
//! compares amplitudes in linear gain units. This module maps one to the
//! other through three exact tables — whole decibels, tenths and
//! hundredths — multiplied together in fixed point, so the curve is a pure
//! integer function with the same value on every machine.

use vstd::prelude::*;
use vstd::arithmetic::div_mod::{
    lemma_div_is_ordered, lemma_div_multiples_vanish, lemma_fundamental_div_mod_converse,
};
use crate::db_text::valid_db;
use crate::engine::{lemma_mul_le, valid_threshold};
use crate::GAIN_ONE;

verus! {

/// The gain of the lowest representable threshold, -36 dB, in units.
pub const GAIN_FLOOR: u64 = 15_849;

/// The gain of the highest representable threshold, +36 dB, in units.
pub const GAIN_CEIL: u64 = 63_095_734;


/// Linear gain of a whole number of decibels.
pub open spec fn whole_gain_spec(w: int) -> int {
    if w == -36 {
        15849
    } else if w == -35 {
        17783
    } else if w == -34 {
        19953
    } else if w == -33 {
        22387
    } else if w == -32 {
        25119
    } else if w == -31 {
        28184
    } else if w == -30 {
        31623
    } else if w == -29 {
        35481
    } else if w == -28 {
        39811
    } else if w == -27 {
        44668
    } else if w == -26 {
        50119
    } else if w == -25 {
        56234
    } else if w == -24 {
        63096
    } else if w == -23 {
        70795
    } else if w == -22 {
        79433
    } else if w == -21 {
        89125
    } else if w == -20 {
        100000
    } else if w == -19 {
        112202
    } else if w == -18 {
        125893
    } else if w == -17 {
        141254
    } else if w == -16 {
        158489
    } else if w == -15 {
        177828
    } else if w == -14 {
        199526
    } else if w == -13 {
        223872
    } else if w == -12 {
        251189
    } else if w == -11 {
        281838
    } else if w == -10 {
        316228
    } else if w == -9 {
        354813
    } else if w == -8 {
        398107
    } else if w == -7 {
        446684
    } else if w == -6 {
        501187
    } else if w == -5 {
        562341
    } else if w == -4 {
        630957
    } else if w == -3 {
        707946
    } else if w == -2 {
        794328
    } else if w == -1 {
        891251
    } else if w == 0 {
        1000000
    } else if w == 1 {
        1122018
    } else if w == 2 {
        1258925
    } else if w == 3 {
        1412538
    } else if w == 4 {
        1584893
    } else if w == 5 {
        1778279
    } else if w == 6 {
        1995262
    } else if w == 7 {
        2238721
    } else if w == 8 {
        2511886
    } else if w == 9 {
        2818383
    } else if w == 10 {
        3162278
    } else if w == 11 {
        3548134
    } else if w == 12 {
        3981072
    } else if w == 13 {
        4466836
    } else if w == 14 {
        5011872
    } else if w == 15 {
        5623413
    } else if w == 16 {
        6309573
    } else if w == 17 {
        7079458
    } else if w == 18 {
        7943282
    } else if w == 19 {
        8912509
    } else if w == 20 {
        10000000
    } else if w == 21 {
        11220185
    } else if w == 22 {
        12589254
    } else if w == 23 {
        14125375
    } else if w == 24 {
        15848932
    } else if w == 25 {
        17782794
    } else if w == 26 {
        19952623
    } else if w == 27 {
        22387211
    } else if w == 28 {
        25118864
    } else if w == 29 {
        28183829
    } else if w == 30 {
        31622777
    } else if w == 31 {
        35481339
    } else if w == 32 {
        39810717
    } else if w == 33 {
        44668359
    } else if w == 34 {
        50118723
    } else if w == 35 {
        56234133
    } else {
        63095734
    }
}

/// Linear gain of tenths of a decibel.
pub open spec fn tenth_gain_spec(d: int) -> int {
    if d == 0 {
        1000000
    } else if d == 1 {
        1011579
    } else if d == 2 {
        1023293
    } else if d == 3 {
        1035142
    } else if d == 4 {
        1047129
    } else if d == 5 {
        1059254
    } else if d == 6 {
        1071519
    } else if d == 7 {
        1083927
    } else if d == 8 {
        1096478
    } else {
        1109175
    }
}

/// Linear gain of hundredths of a decibel.
pub open spec fn hundredth_gain_spec(d: int) -> int {
    if d == 0 {
        1000000
    } else if d == 1 {
        1001152
    } else if d == 2 {
        1002305
    } else if d == 3 {
        1003460
    } else if d == 4 {
        1004616
    } else if d == 5 {
        1005773
    } else if d == 6 {
        1006932
    } else if d == 7 {
        1008092
    } else if d == 8 {
        1009253
    } else {
        1010416
    }
}

/// The curve itself: split the value into whole decibels and a fractional
/// remainder in [0, 100), look the parts up, and multiply in fixed point.
pub open spec fn gain_units_spec(v: int) -> int {
    let w = v / 100;
    let r = v % 100;
    whole_gain_spec(w) * tenth_gain_spec(r / 10) / (GAIN_ONE as int) * hundredth_gain_spec(
        r % 10,
    ) / (GAIN_ONE as int)
}

/// Every whole-decibel gain lies between the floor and the +36 dB gain.
pub proof fn lemma_whole_gain_bounds(w: int)
    requires
        -36 <= w <= 36,
    ensures
        GAIN_FLOOR <= whole_gain_spec(w) <= 63_095_734,
{
}

/// Every fractional multiplier is at least unity and below 10^(1/10).
pub proof fn lemma_frac_gain_bounds(d: int)
    requires
        0 <= d <= 9,
    ensures
        GAIN_ONE <= tenth_gain_spec(d) <= 1_109_175,
        GAIN_ONE <= hundredth_gain_spec(d) <= 1_010_416,
{
}

pub fn whole_gain(w: i64) -> (g: u64)
    requires
        -36 <= w <= 36,
    ensures
        g == whole_gain_spec(w as int),
{
    match w {
        -36 => 15849,
        -35 => 17783,
        -34 => 19953,
        -33 => 22387,
        -32 => 25119,
        -31 => 28184,
        -30 => 31623,
        -29 => 35481,
        -28 => 39811,
        -27 => 44668,
        -26 => 50119,
        -25 => 56234,
        -24 => 63096,
        -23 => 70795,
        -22 => 79433,
        -21 => 89125,
        -20 => 100000,
        -19 => 112202,
        -18 => 125893,
        -17 => 141254,
        -16 => 158489,
        -15 => 177828,
        -14 => 199526,
        -13 => 223872,
        -12 => 251189,
        -11 => 281838,
        -10 => 316228,
        -9 => 354813,
        -8 => 398107,
        -7 => 446684,
        -6 => 501187,
        -5 => 562341,
        -4 => 630957,
        -3 => 707946,
        -2 => 794328,
        -1 => 891251,
        0 => 1000000,
        1 => 1122018,
        2 => 1258925,
        3 => 1412538,
        4 => 1584893,
        5 => 1778279,
        6 => 1995262,
        7 => 2238721,
        8 => 2511886,
        9 => 2818383,
        10 => 3162278,
        11 => 3548134,
        12 => 3981072,
        13 => 4466836,
        14 => 5011872,
        15 => 5623413,
        16 => 6309573,
        17 => 7079458,
        18 => 7943282,
        19 => 8912509,
        20 => 10000000,
        21 => 11220185,
        22 => 12589254,
        23 => 14125375,
        24 => 15848932,
        25 => 17782794,
        26 => 19952623,
        27 => 22387211,
        28 => 25118864,
        29 => 28183829,
        30 => 31622777,
        31 => 35481339,
        32 => 39810717,
        33 => 44668359,
        34 => 50118723,
        35 => 56234133,
        _ => 63095734,
    }
}

pub fn tenth_gain(d: i64) -> (g: u64)
    requires
        0 <= d <= 9,
    ensures
        g == tenth_gain_spec(d as int),
{
    match d {
        0 => 1000000,
        1 => 1011579,
        2 => 1023293,
        3 => 1035142,
        4 => 1047129,
        5 => 1059254,
        6 => 1071519,
        7 => 1083927,
        8 => 1096478,
        _ => 1109175,
    }
}

pub fn hundredth_gain(d: i64) -> (g: u64)
    requires
        0 <= d <= 9,
    ensures
        g == hundredth_gain_spec(d as int),
{
    match d {
        0 => 1000000,
        1 => 1001152,
        2 => 1002305,
        3 => 1003460,
        4 => 1004616,
        5 => 1005773,
        6 => 1006932,
        7 => 1008092,
        8 => 1009253,
        _ => 1010416,
    }
}

/// A product bounded below by the product of the lower bounds.
proof fn lemma_mul_ge(x: int, xl: int, y: int, yl: int)
    requires
        0 <= xl <= x,
        0 <= yl <= y,
    ensures
        x * y >= xl * yl,
{
    assert(x * y >= xl * yl) by (nonlinear_arith)
        requires
            0 <= xl <= x,
            0 <= yl <= y,
    ;
}

/// Convert a parameter value in hundredths of a decibel to linear gain
/// units. The result is always a valid, strictly positive threshold for the
/// engine, at least the -36 dB gain and at most the +36 dB gain.
pub fn gain_units(v: i64) -> (g: u64)
    requires
        valid_db(v),
    ensures
        g == gain_units_spec(v as int),
        valid_threshold(g),
        GAIN_FLOOR <= g <= GAIN_CEIL,
{
    let (w, r): (i64, i64) = if v >= 0 {
        (v / 100, v % 100)
    } else {
        let m: i64 = -v;
        let w0: i64 = m / 100;
        let r0: i64 = m % 100;
        if r0 == 0 {
            (-w0, 0)
        } else {
            (-w0 - 1, 100 - r0)
        }
    };
    proof {
        lemma_fundamental_div_mod_converse(v as int, 100, w as int, r as int);
    }
    let wg: u64 = whole_gain(w);
    let tg: u64 = tenth_gain(r / 10);
    let hg: u64 = hundredth_gain(r % 10);
    proof {
        lemma_whole_gain_bounds(w as int);
        lemma_frac_gain_bounds(r as int / 10);
        lemma_frac_gain_bounds(r as int % 10);
        lemma_mul_le(wg as int, 63_095_734, tg as int, 1_109_175);
        lemma_mul_ge(wg as int, GAIN_FLOOR as int, tg as int, GAIN_ONE as int);
        lemma_div_is_ordered(
            (GAIN_FLOOR * GAIN_ONE) as int,
            wg as int * tg as int,
            GAIN_ONE as int,
        );
        lemma_div_multiples_vanish(GAIN_FLOOR as int, GAIN_ONE as int);
    }
    let step: u64 = wg * tg / GAIN_ONE;
    proof {
        lemma_mul_le(step as int, 69_984_210, hg as int, 1_010_416);
        lemma_mul_ge(step as int, GAIN_FLOOR as int, hg as int, GAIN_ONE as int);
        lemma_div_is_ordered(
            (GAIN_FLOOR * GAIN_ONE) as int,
            step as int * hg as int,
            GAIN_ONE as int,
        );
    }
    let g: u64 = step * hg / GAIN_ONE;
    proof {
        // The +36 dB ceiling: at the top of the range the fractional parts
        // are exactly unity, and below it the joint bound stays under it.
        if w == 36 {
            assert(r == 0);
            lemma_div_multiples_vanish(wg as int, GAIN_ONE as int);
            lemma_div_multiples_vanish(step as int, GAIN_ONE as int);
        } else {
            assert(wg <= 56_234_133);
            lemma_mul_le(wg as int, 56_234_133, tg as int, 1_109_175);
            lemma_div_is_ordered(
                wg as int * tg as int,
                56_234_133int * 1_109_175,
                GAIN_ONE as int,
            );
            assert(step <= 62_373_494);
            lemma_mul_le(step as int, 62_373_494, hg as int, 1_010_416);
            lemma_div_is_ordered(
                step as int * hg as int,
                62_373_494int * 1_010_416,
                GAIN_ONE as int,
            );
        }
    }
    g
}

} // verus!
