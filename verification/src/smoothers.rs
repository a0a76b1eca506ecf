//! Windowing: the attenuation a grain applies across its length so that it
//! starts and ends without a click.
//!
//! A window answers one question: which multiplier, between 0 and `ONE`,
//! belongs to a grain-relative index. The Hann window answers with the raised
//! cosine `sin²(π i / n)`, which is `cos²(π (i / n - 0.5))`: 0 at both ends of
//! the grain and `ONE` at its middle. It is computed where it is asked for,
//! from the power series of `sin²`, so changing the length of a window costs
//! nothing.
use vstd::prelude::*;
use crate::fixed::ONE;

verus! {

/// One whole window on the scale of phases: the place `i` of `n` has the
/// phase `i / n` of a turn.
pub const TURN: u64 = 4294967296;

/// Half a turn: the middle of a window.
pub const HALF_TURN: u64 = 2147483648;

/// A quarter of a turn.
pub const QUARTER_TURN: u64 = 1073741824;

/// The coefficients of `sin²(π y) = c1 y² - c2 y⁴ + c3 y⁶ - c4 y⁸ + c5 y¹⁰`,
/// the series cut off after five terms, each in steps of 1/16777216:
/// `π²`, `π⁴ / 3`, `2 π⁶ / 45`, `π⁸ / 315` and `2 π¹⁰ / 14175`.
pub const SERIES_1: u64 = 165584485;

pub const SERIES_2: u64 = 544751120;

pub const SERIES_3: u64 = 716863740;

pub const SERIES_4: u64 = 505368681;

pub const SERIES_5: u64 = 221679509;

/// The product of a squared phase and a partial sum of the series, back on
/// the scale of the coefficients.
pub open spec fn series_term(square: int, sum: int) -> int {
    (square * sum) / (TURN as int)
}

/// `sin²(π y)` for a phase `y` of at most a quarter turn, from the series
/// in nested form, rounded to the nearest fixed-point step.
pub open spec fn sine_squared(phase: int) -> int {
    let square = (phase * phase) / (TURN as int);
    let fourth = SERIES_4 - series_term(square, SERIES_5 as int);
    let third = SERIES_3 - series_term(square, fourth);
    let second = SERIES_2 - series_term(square, third);
    let first = SERIES_1 - series_term(square, second);
    (series_term(square, first) + 128) / 256
}

/// The raised cosine at a phase between no turn and a whole one. The second
/// half of the turn mirrors the first, and the second quarter is what the
/// first leaves of `ONE`, as `sin²` is what `cos²` leaves.
pub open spec fn raised_cosine(phase: int) -> int {
    let folded = if phase > HALF_TURN {
        TURN - phase
    } else {
        phase
    };
    if folded <= QUARTER_TURN {
        sine_squared(folded)
    } else {
        ONE - sine_squared(HALF_TURN - folded)
    }
}

/// The phase of index `index` in a window of `length` samples.
pub open spec fn phase_of(index: int, length: int) -> int {
    (index * TURN) / length
}

/// The value of the Hann window of `length` samples at `index`.
pub open spec fn hann_value(index: int, length: int) -> int {
    raised_cosine(phase_of(index, length))
}

/// What a window is: none, or the Hann window over a number of samples.
pub enum WindowView {
    NoOp,
    Hann(nat),
}

impl WindowView {
    /// The multiplier at a grain-relative index. Without a window it is
    /// `ONE` everywhere; the Hann window is 0 at and past its end.
    pub open spec fn value_at(self, index: int) -> int {
        match self {
            WindowView::NoOp => ONE as int,
            WindowView::Hann(length) => if 0 <= index < length {
                hann_value(index, length as int)
            } else {
                0
            },
        }
    }

    /// The same window over `length` samples.
    pub open spec fn resized(self, length: nat) -> WindowView {
        match self {
            WindowView::NoOp => WindowView::NoOp,
            WindowView::Hann(_) => WindowView::Hann(length),
        }
    }
}

/// A window over a grain.
pub trait Smoother: Sized {
    /// What the window is.
    spec fn window(&self) -> WindowView;

    /// Looks up the multiplier at a grain-relative index. Any index is
    /// answered, also those at or past the window's end.
    fn get_index(&self, index: usize) -> (value: u32)
        ensures
            value == self.window().value_at(index as int),
            value <= ONE,
    ;

    /// Stretches the window over `length` samples.
    fn set_length(&mut self, length: usize)
        ensures
            final(self).window() == old(self).window().resized(length as nat),
    ;
}

/// The window that leaves every sample as it is.
pub struct NoSmoother {}

impl NoSmoother {
    pub fn new() -> (smoother: Self) {
        Self {  }
    }
}

impl Smoother for NoSmoother {
    open spec fn window(&self) -> WindowView {
        WindowView::NoOp
    }

    fn get_index(&self, index: usize) -> (value: u32) {
        ONE
    }

    fn set_length(&mut self, length: usize) {
    }
}

/// One term of the series: `square × sum`, back on the scale of the
/// coefficients.
fn term(square: u64, sum: u64) -> (product: u64)
    requires
        square <= 268435456,
        sum <= 1073741824,
    ensures
        product == series_term(square as int, sum as int),
        16 * product <= sum,
{
    assert(square * sum <= 268435456 * 1073741824) by (nonlinear_arith)
        requires
            square <= 268435456,
            sum <= 1073741824,
    ;
    assert(16 * ((square * sum) / 4294967296) <= sum) by (nonlinear_arith)
        requires
            0 <= square <= 268435456,
            0 <= sum,
    ;
    (square * sum) / 4294967296
}

/// `sin²(π y)` for a phase of at most a quarter turn.
fn sine_squared_of(phase: u64) -> (value: u32)
    requires
        phase <= QUARTER_TURN,
    ensures
        value == sine_squared(phase as int),
        value <= ONE,
{
    assert(phase * phase <= 1073741824 * 1073741824) by (nonlinear_arith)
        requires
            phase <= 1073741824,
    ;
    assert((phase * phase) / 4294967296 <= 268435456) by (nonlinear_arith)
        requires
            0 <= phase * phase <= 1073741824 * 1073741824,
    ;
    let square: u64 = (phase * phase) / 4294967296;
    let fourth: u64 = SERIES_4 - term(square, SERIES_5);
    let third: u64 = SERIES_3 - term(square, fourth);
    let second: u64 = SERIES_2 - term(square, third);
    let first: u64 = SERIES_1 - term(square, second);
    ((term(square, first) + 128) / 256) as u32
}

/// The Hann window: the raised cosine over the length of a grain.
pub struct HannSmoother {
    length: usize,
}

impl HannSmoother {
    /// The number of samples the window spans.
    pub closed spec fn length(&self) -> nat {
        self.length as nat
    }

    /// The Hann window over zero samples.
    pub fn new() -> (smoother: Self)
        ensures
            smoother.length() == 0,
    {
        Self { length: 0 }
    }
}

impl Smoother for HannSmoother {
    open spec fn window(&self) -> WindowView {
        WindowView::Hann(self.length())
    }

    fn get_index(&self, index: usize) -> (value: u32) {
        if index < self.length {
            let place: u128 = index as u128;
            let span: u128 = self.length as u128;
            proof {
                lemma_phase_in_turn(place as int, span as int);
            }
            let phase: u64 = ((place * 4294967296) / span) as u64;
            let folded: u64 = if phase > HALF_TURN {
                TURN - phase
            } else {
                phase
            };
            if folded <= QUARTER_TURN {
                sine_squared_of(folded)
            } else {
                ONE - sine_squared_of(HALF_TURN - folded)
            }
        } else {
            0
        }
    }

    fn set_length(&mut self, length: usize) {
        self.length = length;
    }
}

/// The closed set of windows a grain can carry.
pub enum Window {
    NoOp(NoSmoother),
    Hann(HannSmoother),
}

impl Smoother for Window {
    open spec fn window(&self) -> WindowView {
        match self {
            Window::NoOp(inner) => inner.window(),
            Window::Hann(inner) => inner.window(),
        }
    }

    fn get_index(&self, index: usize) -> (value: u32) {
        match self {
            Window::NoOp(inner) => inner.get_index(index),
            Window::Hann(inner) => inner.get_index(index),
        }
    }

    fn set_length(&mut self, length: usize) {
        match self {
            Window::NoOp(inner) => inner.set_length(length),
            Window::Hann(inner) => inner.set_length(length),
        }
    }
}

/// The phase of an index inside a window lies inside the turn, and the
/// product it is computed from fits 128 bits.
pub proof fn lemma_phase_in_turn(index: int, length: int)
    requires
        0 <= index < length,
        length <= usize::MAX,
    ensures
        0 <= index * TURN <= u128::MAX,
        0 <= phase_of(index, length) < TURN,
{
    assert(0 <= index * 4294967296 <= 0xFFFF_FFFF_FFFF_FFFF * 4294967296) by (nonlinear_arith)
        requires
            0 <= index <= 0xFFFF_FFFF_FFFF_FFFF,
    ;
    assert(0 <= (index * 4294967296) / length < 4294967296) by (nonlinear_arith)
        requires
            0 <= index < length,
    ;
}

/// Inside the first quarter turn every partial sum of the series stays
/// between 0 and its leading coefficient, so `sin²` is at most its first
/// term, `π² y²`, and at most `ONE`.
pub proof fn lemma_series_bounds(phase: int)
    requires
        0 <= phase <= QUARTER_TURN,
    ensures
        0 <= (phase * phase) / (TURN as int) <= 268435456,
        0 <= sine_squared(phase) <= (series_term((phase * phase) / (TURN as int), SERIES_1 as int)
            + 128) / 256,
        sine_squared(phase) <= ONE,
{
    assert(0 <= phase * phase <= 1073741824 * 1073741824) by (nonlinear_arith)
        requires
            0 <= phase <= 1073741824,
    ;
    let square = (phase * phase) / (TURN as int);
    assert(0 <= square <= 268435456) by (nonlinear_arith)
        requires
            0 <= phase * phase <= 1073741824 * 1073741824,
            square == (phase * phase) / 4294967296,
    ;
    lemma_term_bounds(square, SERIES_5 as int);
    let fourth = SERIES_4 - series_term(square, SERIES_5 as int);
    lemma_term_bounds(square, fourth);
    let third = SERIES_3 - series_term(square, fourth);
    lemma_term_bounds(square, third);
    let second = SERIES_2 - series_term(square, third);
    lemma_term_bounds(square, second);
    let first = SERIES_1 - series_term(square, second);
    lemma_term_bounds(square, first);
    lemma_term_bounds(square, SERIES_1 as int);
    assert(series_term(square, first) <= series_term(square, SERIES_1 as int)) by (nonlinear_arith)
        requires
            0 <= square,
            0 <= first <= SERIES_1,
            series_term(square, first) == (square * first) / 4294967296,
            series_term(square, SERIES_1 as int) == (square * SERIES_1) / 4294967296,
    ;
}

/// A term of the series is not negative and at most a sixteenth of the sum
/// it is taken of.
pub proof fn lemma_term_bounds(square: int, sum: int)
    requires
        0 <= square <= 268435456,
        0 <= sum,
    ensures
        0 <= series_term(square, sum),
        16 * series_term(square, sum) <= sum,
{
    assert(0 <= (square * sum) / 4294967296 && 16 * ((square * sum) / 4294967296) <= sum) by (nonlinear_arith)
        requires
            0 <= square <= 268435456,
            0 <= sum,
    ;
}

/// At a phase of at most a hundredth of a turn, `sin²` is at most a
/// thousandth.
pub proof fn lemma_small_angle(phase: int)
    requires
        0 <= phase <= 42949673,
    ensures
        0 <= sine_squared(phase) <= ONE / 1000,
{
    lemma_series_bounds(phase);
    let square = (phase * phase) / (TURN as int);
    assert(square <= 429496) by (nonlinear_arith)
        requires
            0 <= phase <= 42949673,
            square == (phase * phase) / 4294967296,
    ;
    assert(series_term(square, SERIES_1 as int) <= 16558) by (nonlinear_arith)
        requires
            0 <= square <= 429496,
            series_term(square, SERIES_1 as int) == (square * 165584485) / 4294967296,
    ;
}

/// The Hann window is down at its ends and up at its middle wherever the
/// raised cosine is. At the first index it is 0, whatever the length. At the
/// middle index it is `ONE` for an even length and within a thousandth of
/// `ONE` for an odd length from 51 on. At the last index it is within a
/// thousandth of 0 for a length from 100 on. On shorter windows the raised
/// cosine itself is further off at those indices: over three samples it is
/// 0.75 at the middle and at the last index.
pub proof fn lemma_hann_ends(length: nat)
    requires
        0 < length <= usize::MAX,
    ensures
        WindowView::Hann(length).value_at(0) == 0,
        length % 2 == 0 ==> WindowView::Hann(length).value_at((length / 2) as int) == ONE,
        length >= 51 ==> ONE - ONE / 1000 <= WindowView::Hann(length).value_at((length / 2) as int)
            <= ONE,
        length >= 100 ==> 0 <= WindowView::Hann(length).value_at(length - 1) <= ONE / 1000,
{
    let span = length as int;
    let middle = span / 2;
    assert(phase_of(0, span) == 0) by (nonlinear_arith)
        requires
            span > 0,
            phase_of(0, span) == (0int * 4294967296) / span,
    ;
    assert(sine_squared(0) == 0) by {
        lemma_series_bounds(0);
        assert(series_term(0, SERIES_1 as int) == 0) by (nonlinear_arith)
            requires
                series_term(0, SERIES_1 as int) == (0int * 165584485) / 4294967296,
        ;
    }
    if length % 2 == 0 {
        assert(phase_of(middle, span) == 2147483648) by (nonlinear_arith)
            requires
                span == 2 * middle,
                middle > 0,
                phase_of(middle, span) == (middle * 4294967296) / span,
        ;
    } else if length >= 51 {
        let phase = phase_of(middle, span);
        assert(2147483648 - 42107523 <= phase < 2147483648) by (nonlinear_arith)
            requires
                span == 2 * middle + 1,
                span >= 51,
                phase == (middle * 4294967296) / span,
        ;
        lemma_small_angle(HALF_TURN - phase);
    }
    if length >= 100 {
        let phase = phase_of(span - 1, span);
        assert(4294967296 - 42949673 <= phase < 4294967296) by (nonlinear_arith)
            requires
                span >= 100,
                phase == ((span - 1) * 4294967296) / span,
        ;
        lemma_small_angle(TURN - phase);
    }
}

/// The coefficients are those of the series of `sin²(π y)` in powers of
/// `y²`: with `c` for the first, the others are `c² / 3`, `2 c³ / 45`,
/// `c⁴ / 315` and `2 c⁵ / 14175`, each to within three steps; and the first
/// is `π²`, for which the series gives one half at a quarter turn, as `sin²`
/// is at 45 degrees.
pub proof fn lemma_series_of_sine_squared()
    ensures
        -3 * 3 * 16777216 <= SERIES_1 * SERIES_1 - 3 * 16777216 * SERIES_2 <= 3 * 3 * 16777216,
        -3 * 45 * 16777216 <= 2 * SERIES_1 * SERIES_2 * 3 - 45 * 16777216 * SERIES_3 <= 3 * 45
            * 16777216,
        -3 * 315 * 16777216 <= 45 * SERIES_1 * SERIES_3 - 2 * 315 * 16777216 * SERIES_4 <= 3 * 315
            * 16777216,
        -3 * 14175 * 16777216 <= 2 * 315 * SERIES_1 * SERIES_4 - 14175 * 16777216 * SERIES_5 <= 3
            * 14175 * 16777216,
        sine_squared(QUARTER_TURN as int) == ONE / 2,
{
    let square = (1073741824int * 1073741824) / 4294967296;
    assert(square == 268435456) by (nonlinear_arith)
        requires
            square == (1073741824int * 1073741824) / 4294967296,
    ;
    let t5 = series_term(square, SERIES_5 as int);
    assert(t5 == 13854969) by (nonlinear_arith)
        requires
            t5 == (268435456int * 221679509) / 4294967296,
    ;
    let t4 = series_term(square, SERIES_4 - t5);
    assert(t4 == 30719607) by (nonlinear_arith)
        requires
            t4 == (268435456int * (505368681 - 13854969)) / 4294967296,
    ;
    let t3 = series_term(square, SERIES_3 - t4);
    assert(t3 == 42884008) by (nonlinear_arith)
        requires
            t3 == (268435456int * (716863740 - 30719607)) / 4294967296,
    ;
    let t2 = series_term(square, SERIES_2 - t3);
    assert(t2 == 31366694) by (nonlinear_arith)
        requires
            t2 == (268435456int * (544751120 - 42884008)) / 4294967296,
    ;
    let t1 = series_term(square, SERIES_1 - t2);
    assert(t1 == 8388611) by (nonlinear_arith)
        requires
            t1 == (268435456int * (165584485 - 31366694)) / 4294967296,
    ;
}

} // verus!
