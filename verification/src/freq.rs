//! The frequency table: pitch index to fundamental frequency, in microhertz.
//!
//! The table realizes `13.75 Hz * 2^((pitch - 9) / 12)` in fixed point: one
//! octave is split by twelve tabulated semitone ratios (scaled by `2^32`), and
//! the octave itself is a power-of-two divisor. At every pitch that is a whole
//! number of octaves above pitch 9 the result is exact.

use vstd::prelude::*;

verus! {

/// Ratio `2^(k/12)` scaled by `2^32`, rounded to the nearest integer.
pub open spec fn spec_semitone_ratio(k: int) -> int {
    if k == 0 {
        4294967296
    } else if k == 1 {
        4550359342
    } else if k == 2 {
        4820937788
    } else if k == 3 {
        5107605667
    } else if k == 4 {
        5411319705
    } else if k == 5 {
        5733093519
    } else if k == 6 {
        6074001000
    } else if k == 7 {
        6435179895
    } else if k == 8 {
        6817835604
    } else if k == 9 {
        7223245206
    } else if k == 10 {
        7652761717
    } else {
        8107818609
    }
}

/// `2^(42 - o)` for the octave numbers that pitches 0..=127 reach.
pub open spec fn spec_octave_divisor(o: int) -> int {
    if o <= 9 {
        8589934592
    } else if o == 10 {
        4294967296
    } else if o == 11 {
        2147483648
    } else if o == 12 {
        1073741824
    } else if o == 13 {
        536870912
    } else if o == 14 {
        268435456
    } else if o == 15 {
        134217728
    } else if o == 16 {
        67108864
    } else if o == 17 {
        33554432
    } else if o == 18 {
        16777216
    } else {
        8388608
    }
}

/// Frequency of `pitch` in microhertz: the pitch is split into octave `o` and
/// semitone `k` relative to pitch 9 (13.75 Hz), offset so both are nonnegative.
pub open spec fn spec_frequency_micro(pitch: int) -> int {
    let n = pitch + 111;
    (13_750_000 * spec_semitone_ratio(n % 12)) / spec_octave_divisor(n / 12)
}

fn semitone_ratio(k: u64) -> (r: u64)
    requires
        k < 12,
    ensures
        r == spec_semitone_ratio(k as int),
        4294967296 <= r <= 8107818609,
{
    match k {
        0 => 4294967296,
        1 => 4550359342,
        2 => 4820937788,
        3 => 5107605667,
        4 => 5411319705,
        5 => 5733093519,
        6 => 6074001000,
        7 => 6435179895,
        8 => 6817835604,
        9 => 7223245206,
        10 => 7652761717,
        _ => 8107818609,
    }
}

fn octave_divisor(o: u64) -> (r: u64)
    requires
        9 <= o <= 19,
    ensures
        r == spec_octave_divisor(o as int),
        r >= 1,
{
    match o {
        9 => 8589934592,
        10 => 4294967296,
        11 => 2147483648,
        12 => 1073741824,
        13 => 536870912,
        14 => 268435456,
        15 => 134217728,
        16 => 67108864,
        17 => 33554432,
        18 => 16777216,
        _ => 8388608,
    }
}

/// Fundamental frequency of a pitch, in microhertz.
pub fn frequency_micro(pitch: u8) -> (r: u64)
    requires
        pitch < 128,
    ensures
        r == spec_frequency_micro(pitch as int),
        pitch == 9 ==> r == 13_750_000,
        pitch == 21 ==> r == 27_500_000,
        pitch == 69 ==> r == 440_000_000,
{
    let n: u64 = pitch as u64 + 111;
    let o: u64 = n / 12;
    let k: u64 = n % 12;
    let ratio = semitone_ratio(k);
    let divisor = octave_divisor(o);
    proof {
        vstd::arithmetic::mul::lemma_mul_inequality(ratio as int, 8107818609, 13_750_000);
        assert(13_750_000 * ratio == ratio * 13_750_000) by (nonlinear_arith);
        assert(8107818609 * 13_750_000 == 13_750_000 * 8107818609) by (nonlinear_arith);
    }
    (13_750_000 * ratio) / divisor
}

} // verus!
