//! Fixed-point arithmetic shared by the whole engine.
//!
//! Every fractional quantity (window values, envelope levels, gains, pitch
//! ratios, cursor positions) is an unsigned integer counted in steps of
//! 1/65536, so `ONE` stands for 1.0. Results that land between two steps are
//! truncated toward zero, and results that leave the 16-bit sample range
//! saturate at its ends.
use vstd::prelude::*;

verus! {

/// The fixed-point representation of 1.0.
pub const ONE: u32 = 65536;

/// The square of `ONE`: the scale of a product of two fixed-point factors.
pub const ONE_SQUARED: u64 = 4294967296;

/// Integer division that rounds toward zero for either sign of `a`.
pub open spec fn trunc_div(a: int, b: int) -> int {
    if a >= 0 {
        a / b
    } else {
        -((-a) / b)
    }
}

/// The nearest value inside the signed 16-bit sample range.
pub open spec fn clamp_sample(x: int) -> int {
    if x < -32768 {
        -32768
    } else if x > 32767 {
        32767
    } else {
        x
    }
}

/// `sample × factor`, truncated toward zero and saturated to the sample range.
pub open spec fn scaled(sample: int, factor: int) -> int {
    clamp_sample(trunc_div(sample * factor, ONE as int))
}

/// The point a fraction `t` of the way from `a` to `b`, truncated toward zero
/// and saturated to the sample range.
pub open spec fn interpolated(a: int, b: int, t: int) -> int {
    clamp_sample(trunc_div(a * (ONE - t) + b * t, ONE as int))
}

/// The smaller of a level and `ONE`.
pub open spec fn capped(level: int) -> int {
    if level > ONE {
        ONE as int
    } else {
        level
    }
}

/// The point a fraction `t` of the way from level `a` to level `b`; a
/// fraction beyond `ONE` counts as `ONE`.
pub open spec fn interpolated_level(a: int, b: int, t: int) -> int {
    (a * (ONE - capped(t)) + b * capped(t)) / (ONE as int)
}

/// The gain, on the scale of `ONE_SQUARED`, that a window value `window`
/// applies at blend depth `depth`: `depth × window + (1 − depth)`.
pub open spec fn window_gain(depth: int, window: int) -> int {
    capped(depth) * capped(window) + (ONE - capped(depth)) * ONE
}

/// A sample attenuated by a window value at a blend depth.
pub open spec fn windowed(sample: int, depth: int, window: int) -> int {
    trunc_div(sample * window_gain(depth, window), ONE_SQUARED as int)
}

/// Multiplies a sample by a fixed-point factor.
pub fn scale(sample: i16, factor: u32) -> (out: i16)
    ensures
        out == scaled(sample as int, factor as int),
{
    let wide: i64 = sample as i64;
    let by: i64 = factor as i64;
    assert(-140737488355328 <= wide * by <= 140737488355328) by (nonlinear_arith)
        requires
            -32768 <= wide <= 32767,
            0 <= by <= 4294967295,
    ;
    let product: i64 = wide * by;
    let quotient: i64 = product / 65536;
    if quotient > 32767 {
        32767
    } else if quotient < -32768 {
        -32768
    } else {
        quotient as i16
    }
}

/// Attenuates a sample by a window value at a blend depth. Depth and window
/// value are capped at `ONE`.
pub fn apply_window(sample: i16, depth: u32, window: u32) -> (out: i16)
    ensures
        out == windowed(sample as int, depth as int, window as int),
        sample >= 0 ==> 0 <= out <= sample,
        sample <= 0 ==> sample <= out <= 0,
        capped(depth as int) == 0 || capped(window as int) == ONE ==> out == sample,
{
    let d: i64 = if depth > ONE { 65536 } else { depth as i64 };
    let w: i64 = if window > ONE { 65536 } else { window as i64 };
    assert(0 <= d * w <= 4294967296) by (nonlinear_arith)
        requires
            0 <= d <= 65536,
            0 <= w <= 65536,
    ;
    assert(0 <= (65536 - d) * 65536 <= 4294967296) by (nonlinear_arith)
        requires
            0 <= d <= 65536,
    ;
    assert(d * w + (65536 - d) * 65536 <= 4294967296) by (nonlinear_arith)
        requires
            0 <= d <= 65536,
            0 <= w <= 65536,
    ;
    let gain: i64 = d * w + (65536 - d) * 65536;
    assert(d == 0 || w == 65536 ==> gain == 4294967296) by (nonlinear_arith)
        requires
            gain == d * w + (65536 - d) * 65536,
    ;
    let wide: i64 = sample as i64;
    assert(-140737488355328 <= wide * gain <= 140737488355328) by (nonlinear_arith)
        requires
            -32768 <= wide <= 32767,
            0 <= gain <= 4294967296,
    ;
    proof {
        lemma_attenuated(wide as int, gain as int);
    }
    let product: i64 = wide * gain;
    (product / 4294967296) as i16
}

/// A weighted mean of two numbers lies between them, before and after the
/// division by the sum of the weights.
pub proof fn lemma_weighted_between(a: int, b: int, t: int)
    requires
        0 <= t <= ONE,
    ensures
        a <= b ==> a * (ONE as int) <= a * (ONE - t) + b * t <= b * (ONE as int),
        b <= a ==> b * (ONE as int) <= a * (ONE - t) + b * t <= a * (ONE as int),
        a <= b ==> a <= trunc_div(a * (ONE - t) + b * t, ONE as int) <= b,
        b <= a ==> b <= trunc_div(a * (ONE - t) + b * t, ONE as int) <= a,
        a >= 0 && b >= 0 && a <= b ==> a <= (a * (ONE - t) + b * t) / (ONE as int) <= b,
        a >= 0 && b >= 0 && b <= a ==> b <= (a * (ONE - t) + b * t) / (ONE as int) <= a,
        t == 0 ==> a * (ONE - t) + b * t == a * (ONE as int),
        t == ONE ==> a * (ONE - t) + b * t == b * (ONE as int),
{
    let one = ONE as int;
    let mix = a * (one - t) + b * t;
    assert(mix == a * one + (b - a) * t) by (nonlinear_arith)
        requires
            mix == a * (one - t) + b * t,
    ;
    assert(mix == b * one - (b - a) * (one - t)) by (nonlinear_arith)
        requires
            mix == a * (one - t) + b * t,
    ;
    if a <= b {
        assert(0 <= (b - a) * t) by (nonlinear_arith)
            requires
                a <= b,
                0 <= t,
        ;
        assert(0 <= (b - a) * (one - t)) by (nonlinear_arith)
            requires
                a <= b,
                t <= one,
        ;
    } else {
        assert((b - a) * t <= 0) by (nonlinear_arith)
            requires
                b <= a,
                0 <= t,
        ;
        assert((b - a) * (one - t) <= 0) by (nonlinear_arith)
            requires
                b <= a,
                t <= one,
        ;
    }
    if t == one {
        assert((b - a) * (one - t) == 0) by (nonlinear_arith)
            requires
                t == one,
        ;
    }
    let lo = if a <= b { a } else { b };
    let hi = if a <= b { b } else { a };
    lemma_trunc_div_between(mix, lo, hi);
}

/// Truncating division by `ONE` keeps a value between two multiples of `ONE`
/// between the two quotients.
pub proof fn lemma_trunc_div_between(x: int, lo: int, hi: int)
    requires
        lo * (ONE as int) <= x <= hi * (ONE as int),
    ensures
        lo <= trunc_div(x, ONE as int) <= hi,
        x >= 0 ==> trunc_div(x, ONE as int) == x / (ONE as int),
{
    let one = ONE as int;
    if x >= 0 {
        assert(lo <= x / one <= hi) by (nonlinear_arith)
            requires
                lo * one <= x <= hi * one,
                one == 65536,
        ;
    } else {
        assert(-hi <= (-x) / one <= -lo) by (nonlinear_arith)
            requires
                lo * one <= x <= hi * one,
                one == 65536,
                x < 0,
        ;
    }
}

/// A gain of at most 1.0 never moves a sample away from zero.
pub proof fn lemma_attenuated(sample: int, gain: int)
    requires
        0 <= gain <= ONE_SQUARED,
    ensures
        sample >= 0 ==> 0 <= trunc_div(sample * gain, ONE_SQUARED as int) <= sample,
        sample <= 0 ==> sample <= trunc_div(sample * gain, ONE_SQUARED as int) <= 0,
        gain == ONE_SQUARED ==> trunc_div(sample * gain, ONE_SQUARED as int) == sample,
{
    let unit = ONE_SQUARED as int;
    if sample >= 0 {
        assert(0 <= sample * gain <= sample * unit) by (nonlinear_arith)
            requires
                0 <= sample,
                0 <= gain <= unit,
        ;
        assert(0 <= (sample * gain) / unit <= sample) by (nonlinear_arith)
            requires
                0 <= sample * gain <= sample * unit,
                unit == 4294967296,
        ;
        if gain == unit {
            assert((sample * unit) / unit == sample) by (nonlinear_arith)
                requires
                    unit == 4294967296,
            ;
        }
    } else {
        assert(0 <= (-sample) * gain <= (-sample) * unit) by (nonlinear_arith)
            requires
                sample < 0,
                0 <= gain <= unit,
        ;
        assert(-(sample * gain) == (-sample) * gain) by (nonlinear_arith);
        assert(0 <= ((-sample) * gain) / unit <= -sample) by (nonlinear_arith)
            requires
                0 <= (-sample) * gain <= (-sample) * unit,
                unit == 4294967296,
        ;
        if gain == unit {
            assert(((-sample) * unit) / unit == -sample) by (nonlinear_arith)
                requires
                    unit == 4294967296,
            ;
        }
    }
}

} // verus!
