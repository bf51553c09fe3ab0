//! The affine mapping of a value from an observed range onto an output range.

use vstd::prelude::*;

verus! {

/// The largest beat intensity.
pub const MAX_BEAT_VOLUME: u8 = 255;

/// Integer division rounding toward zero, for a positive divisor.
pub open spec fn trunc_div(a: int, b: int) -> int {
    if a >= 0 {
        a / b
    } else {
        -((-a) / b)
    }
}

/// The width of the input range, floored to 1.
pub open spec fn range_divisor(in_min: int, in_max: int) -> int {
    if in_max - in_min >= 1 {
        in_max - in_min
    } else {
        1
    }
}

/// The mapped value before the floor at 0.
pub open spec fn affine_raw(x: int, in_min: int, in_max: int, out_min: int, out_max: int) -> int {
    trunc_div((x - in_min) * (out_max - out_min), range_divisor(in_min, in_max)) + out_min
}

/// `x` carried from `[in_min, in_max]` onto `[out_min, out_max]`, floored at 0.
pub open spec fn affine_map(x: int, in_min: int, in_max: int, out_min: int, out_max: int) -> int {
    let v = affine_raw(x, in_min, in_max, out_min, out_max);
    if v >= 0 {
        v
    } else {
        0
    }
}

/// Maps `x` from `[in_min, in_max]` onto `[out_min, out_max]`; the divisor is floored
/// to 1 and the result to 0. The intermediate values must fit in `isize`.
pub fn map(x: isize, in_min: isize, in_max: isize, out_min: isize, out_max: isize) -> (r: usize)
    requires
        isize::MIN <= x - in_min <= isize::MAX,
        isize::MIN <= in_max - in_min <= isize::MAX,
        isize::MIN <= out_max - out_min <= isize::MAX,
        isize::MIN <= (x - in_min) * (out_max - out_min) <= isize::MAX,
        isize::MIN <= affine_raw(x as int, in_min as int, in_max as int, out_min as int, out_max as int) <= isize::MAX,
    ensures
        r == affine_map(x as int, in_min as int, in_max as int, out_min as int, out_max as int),
{
    let span = in_max as i128 - in_min as i128;
    let divisor: i128 = if span >= 1 { span } else { 1 };
    let num: i128 = (x as i128 - in_min as i128) * (out_max as i128 - out_min as i128);
    let q: i128 = if num >= 0 {
        ((num as u128) / (divisor as u128)) as i128
    } else {
        0 - (((0 - num) as u128) / (divisor as u128)) as i128
    };
    proof {
        let a: int = if num >= 0 { num as int } else { -(num as int) };
        assert(0 <= a / (divisor as int) <= a) by (nonlinear_arith)
            requires
                divisor >= 1,
                a >= 0,
        ;
    }
    let v: i128 = q + out_min as i128;
    if v >= 0 {
        v as usize
    } else {
        0
    }
}

/// The beat intensity of `curr` within a window whose minimum and maximum are `lo` and
/// `hi`: the affine map onto `[0, MAX_BEAT_VOLUME]`.
pub fn beat_index(curr: usize, lo: usize, hi: usize) -> (r: u8)
    requires
        lo <= curr <= hi,
    ensures
        r == affine_map(curr as int, lo as int, hi as int, 0, MAX_BEAT_VOLUME as int),
{
    let divisor: usize = if hi - lo >= 1 { hi - lo } else { 1 };
    let num: u128 = (curr - lo) as u128 * 255;
    let q: u128 = num / divisor as u128;
    proof {
        let a = (curr - lo) as int;
        let d = divisor as int;
        assert(a * 255 / d <= 255) by (nonlinear_arith)
            requires
                0 <= a <= d,
                d >= 1,
        ;
        assert(a * 255 / d >= 0) by (nonlinear_arith)
            requires
                0 <= a,
                d >= 1,
        ;
    }
    q as u8
}

/// When the input range is flat and the value sits on it, the result is the lower
/// output bound: the floored divisor keeps the division defined.
pub proof fn lemma_flat_range_gives_out_min(x: int, v: int, out_min: int, out_max: int)
    requires
        x == v,
        out_min >= 0,
    ensures
        affine_map(x, v, v, out_min, out_max) == out_min,
{
    assert(range_divisor(v, v) == 1);
    assert((x - v) * (out_max - out_min) == 0);
}

} // verus!
