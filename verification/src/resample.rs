//! Resampling: a fractional read position that moves through a range of
//! samples at a chosen rate, and the equal-temperament pitch ratios that
//! serve as rates.
//!
//! Positions and rates are fixed-point numbers (see `fixed`): a position of
//! `3 * ONE + ONE / 2` lies halfway between the fourth and the fifth sample,
//! and a rate of `2 * ONE` plays one octave up.
use vstd::prelude::*;
use crate::fixed::{interpolated, ONE};
use crate::interpolators::lerp;

verus! {

/// The length, in fixed-point steps, of a range of `limit` whole samples.
pub open spec fn span(limit: nat) -> nat {
    limit * (ONE as nat)
}

/// Whether moving by `rate` from `position` leaves a range of `limit` whole
/// samples.
pub open spec fn wraps(position: nat, rate: nat, limit: nat) -> bool {
    position + rate >= span(limit)
}

/// A position brought back into a range of `limit` whole samples. An empty
/// range holds position 0 only.
pub open spec fn reduced(position: nat, limit: nat) -> nat {
    if limit == 0 {
        0
    } else {
        position % span(limit)
    }
}

/// The position after moving by `rate`, wrapped back into the range.
pub open spec fn advanced(position: nat, rate: nat, limit: nat) -> nat {
    reduced(position + rate, limit)
}

/// The position after `times` moves by `rate`.
pub open spec fn advanced_times(position: nat, rate: nat, limit: nat, times: nat) -> nat
    decreases times,
{
    if times == 0 {
        position
    } else {
        advanced(advanced_times(position, rate, limit, (times - 1) as nat), rate, limit)
    }
}

/// A fractional read position inside a range of `limit` whole samples.
pub struct ResamplingCursor {
    position: u128,
    limit: usize,
}

impl ResamplingCursor {
    /// The position, in fixed-point steps.
    pub closed spec fn position(&self) -> nat {
        self.position as nat
    }

    /// The number of whole samples the position ranges over.
    pub closed spec fn limit(&self) -> nat {
        self.limit as nat
    }

    /// The position lies inside the range.
    pub open spec fn wf(&self) -> bool {
        self.position() == reduced(self.position(), self.limit())
    }

    /// A cursor at the start of a range of `limit` whole samples.
    pub fn new(limit: usize) -> (cursor: Self)
        ensures
            cursor.wf(),
            cursor.position() == 0,
            cursor.limit() == limit,
    {
        proof {
            lemma_span_fits(limit as nat);
            if limit > 0 {
                vstd::arithmetic::div_mod::lemma_small_mod(0, span(limit as nat));
            }
        }
        Self { position: 0, limit }
    }

    /// The position, in fixed-point steps.
    pub fn get_position(&self) -> (position: u128)
        ensures
            position == self.position(),
    {
        self.position
    }

    /// The number of whole samples the position ranges over.
    pub fn get_limit(&self) -> (limit: usize)
        ensures
            limit == self.limit(),
    {
        self.limit
    }

    /// The whole-sample part of the position.
    pub fn whole(&self) -> (index: usize)
        requires
            self.wf(),
        ensures
            index == self.position() / (ONE as nat),
            self.limit() > 0 ==> index < self.limit(),
            self.limit() == 0 ==> index == 0,
    {
        proof {
            lemma_in_range(self.position(), self.limit());
        }
        (self.position / 65536) as usize
    }

    /// The fractional part of the position.
    pub fn fraction(&self) -> (part: u32)
        ensures
            part == self.position() % (ONE as nat),
            part < ONE,
    {
        (self.position % 65536) as u32
    }

    /// Moves the position by `rate` and reports whether it left the range;
    /// if so, the position is wrapped back into it.
    pub fn advance(&mut self, rate: u64) -> (wrapped: bool)
        requires
            old(self).wf(),
        ensures
            final(self).wf(),
            final(self).limit() == old(self).limit(),
            final(self).position() == advanced(old(self).position(), rate as nat, old(self).limit()),
            wrapped == wraps(old(self).position(), rate as nat, old(self).limit()),
    {
        proof {
            lemma_in_range(self.position(), self.limit());
            lemma_span_fits(self.limit());
        }
        if self.limit == 0 {
            return true;
        }
        let range: u128 = (self.limit as u128) * 65536;
        let sum: u128 = self.position + (rate as u128);
        proof {
            lemma_reduced_in_range((sum as nat), self.limit());
        }
        if sum >= range {
            self.position = sum % range;
            true
        } else {
            proof {
                vstd::arithmetic::div_mod::lemma_small_mod(sum as nat, range as nat);
            }
            self.position = sum;
            false
        }
    }

    /// Changes the range to `limit` whole samples; a position outside the
    /// new range is wrapped into it.
    pub fn set_limit(&mut self, limit: usize)
        ensures
            final(self).wf(),
            final(self).limit() == limit,
            final(self).position() == reduced(old(self).position(), limit as nat),
    {
        proof {
            lemma_span_fits(limit as nat);
            lemma_reduced_in_range(self.position(), limit as nat);
        }
        self.limit = limit;
        if limit == 0 {
            self.position = 0;
        } else {
            let range: u128 = (limit as u128) * 65536;
            self.position = self.position % range;
        }
    }

    /// Moves the position to the whole sample `index`, wrapped into the
    /// range.
    pub fn seek(&mut self, index: usize)
        ensures
            final(self).wf(),
            final(self).limit() == old(self).limit(),
            final(self).position() == reduced(span(index as nat), old(self).limit()),
    {
        proof {
            lemma_span_fits(self.limit());
            lemma_span_fits(index as nat);
            lemma_reduced_in_range(span(index as nat), self.limit());
        }
        if self.limit == 0 {
            self.position = 0;
        } else {
            let range: u128 = (self.limit as u128) * 65536;
            self.position = ((index as u128) * 65536) % range;
        }
    }
}

/// A range of whole samples, in fixed-point steps, fits 128 bits with room
/// for one rate on top.
pub proof fn lemma_span_fits(limit: nat)
    requires
        limit <= usize::MAX,
    ensures
        span(limit) == limit * 65536,
        span(limit) + u64::MAX <= u128::MAX,
{
    assert(limit * 65536 <= 0xFFFF_FFFF_FFFF_FFFF * 65536) by (nonlinear_arith)
        requires
            limit <= 0xFFFF_FFFF_FFFF_FFFF,
    ;
}

/// A reduced position lies inside its range, and reducing it again changes
/// nothing.
pub proof fn lemma_reduced_in_range(position: nat, limit: nat)
    ensures
        limit > 0 ==> reduced(position, limit) < span(limit),
        limit == 0 ==> reduced(position, limit) == 0,
        reduced(reduced(position, limit), limit) == reduced(position, limit),
{
    if limit > 0 {
        assert(span(limit) > 0) by (nonlinear_arith)
            requires
                limit > 0,
                span(limit) == limit * 65536,
        ;
        vstd::arithmetic::div_mod::lemma_mod_bound(position as int, span(limit) as int);
        vstd::arithmetic::div_mod::lemma_small_mod(reduced(position, limit), span(limit));
    }
}

/// A position that reduction leaves alone lies inside the range: its whole
/// part is below the limit.
pub proof fn lemma_in_range(position: nat, limit: nat)
    requires
        position == reduced(position, limit),
    ensures
        limit > 0 ==> position < span(limit),
        limit > 0 ==> position / (ONE as nat) < limit,
        limit == 0 ==> position == 0,
{
    lemma_reduced_in_range(position, limit);
    if limit > 0 {
        assert(position / 65536 < limit) by (nonlinear_arith)
            requires
                position < limit * 65536,
        ;
    }
}

/// At rate 1.0 a cursor over `length` samples does not wrap before it has to.
/// Started anywhere in the first sample, each of the first `length - 2` moves
/// adds exactly one sample to the position without a wrap; the move after
/// those is the first that wraps.
pub proof fn lemma_unit_rate_wraps_on_time(length: nat, fraction: nat, moves: nat)
    requires
        length >= 2,
        fraction < ONE,
        moves <= length - 2,
    ensures
        advanced_times(fraction, ONE as nat, (length - 1) as nat, moves) == fraction + span(moves),
        moves < length - 2 ==> !wraps(
            advanced_times(fraction, ONE as nat, (length - 1) as nat, moves),
            ONE as nat,
            (length - 1) as nat,
        ),
        moves == length - 2 ==> wraps(
            advanced_times(fraction, ONE as nat, (length - 1) as nat, moves),
            ONE as nat,
            (length - 1) as nat,
        ),
    decreases moves,
{
    let limit = (length - 1) as nat;
    assert(span(limit) == limit * 65536);
    assert(span(moves) == moves * 65536);
    if moves > 0 {
        let before = (moves - 1) as nat;
        lemma_unit_rate_wraps_on_time(length, fraction, before);
        assert(span(before) == before * 65536);
        let at = advanced_times(fraction, ONE as nat, limit, before);
        assert(at + ONE < span(limit));
        vstd::arithmetic::div_mod::lemma_small_mod((at + ONE) as nat, span(limit));
    }
}

/// A linear-interpolation resampler over a borrowed run of samples.
///
/// Its position ranges over `[0, len - 1)`, so that the sample after the
/// position's whole part always exists.
pub struct LinearResampler<'a> {
    buffer: &'a [i16],
    cursor: ResamplingCursor,
    pitch_factor: u64,
}

/// The number of whole samples a resampler's position ranges over.
pub open spec fn resampler_limit(len: nat) -> nat {
    if len == 0 {
        0
    } else {
        (len - 1) as nat
    }
}

/// The sample at a fractional position: the two nearest samples,
/// interpolated by the position's fractional part.
pub open spec fn sample_at(buffer: Seq<i16>, position: nat) -> int {
    let index = (position / (ONE as nat)) as int;
    interpolated(buffer[index] as int, buffer[index + 1] as int, (position % (ONE as nat)) as int)
}

impl<'a> LinearResampler<'a> {
    /// The samples read from.
    pub closed spec fn buffer(&self) -> Seq<i16> {
        self.buffer@
    }

    /// The read position, in fixed-point steps.
    pub closed spec fn position(&self) -> nat {
        self.cursor.position()
    }

    /// The rate the position moves at.
    pub closed spec fn pitch_factor(&self) -> nat {
        self.pitch_factor as nat
    }

    /// The position lies inside `[0, len - 1)`.
    pub closed spec fn wf(&self) -> bool {
        &&& self.cursor.wf()
        &&& self.cursor.limit() == resampler_limit(self.buffer@.len())
    }

    /// A well-formed resampler's position has a sample on either side.
    pub proof fn lemma_position_in_range(&self)
        requires
            self.wf(),
        ensures
            self.position() == reduced(self.position(), resampler_limit(self.buffer().len())),
            self.buffer().len() >= 2 ==> self.position() / (ONE as nat) + 1 < self.buffer().len(),
    {
        lemma_in_range(self.cursor.position(), self.cursor.limit());
    }

    /// A resampler at the start of `collection`.
    pub fn new(collection: &'a [i16], pitch_factor: u64) -> (resampler: Self)
        ensures
            resampler.wf(),
            resampler.buffer() == collection@,
            resampler.position() == 0,
            resampler.pitch_factor() == pitch_factor,
    {
        let limit: usize = if collection.len() == 0 { 0 } else { collection.len() - 1 };
        Self { buffer: collection, cursor: ResamplingCursor::new(limit), pitch_factor }
    }

    /// Sets the rate, a ratio to the recorded pitch.
    pub fn set_factor(&mut self, factor: u64)
        ensures
            final(self).buffer() == old(self).buffer(),
            final(self).position() == old(self).position(),
            final(self).pitch_factor() == factor,
            old(self).wf() ==> final(self).wf(),
    {
        self.pitch_factor = factor;
    }

    /// Replaces the samples read from; the position wraps into the new
    /// range.
    pub fn set_buffer(&mut self, buffer: &'a [i16])
        ensures
            final(self).wf(),
            final(self).buffer() == buffer@,
            final(self).pitch_factor() == old(self).pitch_factor(),
            final(self).position() == reduced(
                old(self).position(),
                resampler_limit(buffer@.len()),
            ),
    {
        let limit: usize = if buffer.len() == 0 { 0 } else { buffer.len() - 1 };
        self.buffer = buffer;
        self.cursor.set_limit(limit);
    }

    /// The read position, in fixed-point steps.
    pub fn get_position(&self) -> (position: u128)
        ensures
            position == self.position(),
    {
        self.cursor.get_position()
    }

    /// The rate the position moves at.
    pub fn get_pitch_freq(&self) -> (factor: u64)
        ensures
            factor == self.pitch_factor(),
    {
        self.pitch_factor
    }

    /// Moves the position by the rate. Returns whether it left
    /// `[0, len - 1)` and was wrapped back.
    pub fn increment(&mut self) -> (wrapped: bool)
        requires
            old(self).wf(),
        ensures
            final(self).wf(),
            final(self).buffer() == old(self).buffer(),
            final(self).pitch_factor() == old(self).pitch_factor(),
            final(self).position() == advanced(
                old(self).position(),
                old(self).pitch_factor(),
                resampler_limit(old(self).buffer().len()),
            ),
            wrapped == wraps(
                old(self).position(),
                old(self).pitch_factor(),
                resampler_limit(old(self).buffer().len()),
            ),
    {
        self.cursor.advance(self.pitch_factor)
    }

    /// Reads the sample at the position, then moves on by the rate. A buffer
    /// of fewer than two samples has nothing to interpolate.
    pub fn next(&mut self) -> (sample: Option<i16>)
        requires
            old(self).wf(),
        ensures
            final(self).wf(),
            final(self).buffer() == old(self).buffer(),
            final(self).pitch_factor() == old(self).pitch_factor(),
            old(self).buffer().len() < 2 ==> sample.is_none() && final(self).position() == old(
                self,
            ).position(),
            old(self).buffer().len() >= 2 ==> sample == Some(
                sample_at(old(self).buffer(), old(self).position()) as i16,
            ) && final(self).position() == advanced(
                old(self).position(),
                old(self).pitch_factor(),
                resampler_limit(old(self).buffer().len()),
            ),
    {
        if self.buffer.len() < 2 {
            return None;
        }
        let index: usize = self.cursor.whole();
        let sample: i16 = lerp(self.buffer[index], self.buffer[index + 1], self.cursor.fraction());
        self.cursor.advance(self.pitch_factor);
        Some(sample)
    }
}

/// The fixed-point ratio of `k` semitones above a root, for `k` within one
/// octave: `2^(k/12)` rounded to the nearest step.
pub open spec fn semitone_step(k: int) -> int {
    if k == 0 {
        65536
    } else if k == 1 {
        69433
    } else if k == 2 {
        73562
    } else if k == 3 {
        77936
    } else if k == 4 {
        82570
    } else if k == 5 {
        87480
    } else if k == 6 {
        92682
    } else if k == 7 {
        98193
    } else if k == 8 {
        104032
    } else if k == 9 {
        110218
    } else if k == 10 {
        116772
    } else {
        123715
    }
}

/// `base` doubled `times` times.
pub open spec fn doubled(base: int, times: nat) -> int
    decreases times,
{
    if times == 0 {
        base
    } else {
        2 * doubled(base, (times - 1) as nat)
    }
}

/// `base` halved `times` times, truncating each time.
pub open spec fn halved(base: int, times: nat) -> int
    decreases times,
{
    if times == 0 {
        base
    } else {
        halved(base, (times - 1) as nat) / 2
    }
}

/// The equal-temperament ratio of `step` semitones: the ratio within the
/// octave, doubled once per octave above and halved once per octave below.
pub open spec fn semitone_ratio(step: int) -> int {
    if step >= 0 {
        doubled(semitone_step(step % 12), (step / 12) as nat)
    } else {
        halved(semitone_step(step % 12), (-(step / 12)) as nat)
    }
}

fn semitone_within_octave(k: u8) -> (ratio: u32)
    requires
        k < 12,
    ensures
        ratio == semitone_step(k as int),
{
    match k {
        0 => 65536,
        1 => 69433,
        2 => 73562,
        3 => 77936,
        4 => 82570,
        5 => 87480,
        6 => 92682,
        7 => 98193,
        8 => 104032,
        9 => 110218,
        10 => 116772,
        _ => 123715,
    }
}

/// The ratio of the note `step` semitones above a root (below, for a
/// negative `step`): 12 semitones double the frequency.
pub fn semitone_to_hz_ratio(step: i8) -> (ratio: u32)
    ensures
        ratio == semitone_ratio(step as int),
        0 < ratio,
{
    let shifted: i32 = step as i32 + 132;
    let k: u8 = (shifted % 12) as u8;
    let octave: i32 = shifted / 12 - 11;
    let base: u32 = semitone_within_octave(k);
    let mut ratio: u32 = base;
    let mut done: i32 = 0;
    if octave >= 0 {
        while done < octave
            invariant
                0 <= done <= octave <= 10,
                65536 <= base <= 123715,
                ratio == doubled(base as int, done as nat),
                base as int <= ratio <= 123715 * 1024,
                done < 10 ==> ratio <= 123715 * 512,
                done < 9 ==> ratio <= 123715 * 256,
                done < 8 ==> ratio <= 123715 * 128,
                done < 7 ==> ratio <= 123715 * 64,
                done < 6 ==> ratio <= 123715 * 32,
                done < 5 ==> ratio <= 123715 * 16,
                done < 4 ==> ratio <= 123715 * 8,
                done < 3 ==> ratio <= 123715 * 4,
                done < 2 ==> ratio <= 123715 * 2,
                done < 1 ==> ratio <= 123715,
            decreases octave - done,
        {
            ratio = ratio * 2;
            done = done + 1;
        }
    } else {
        let down: i32 = -octave;
        while done < down
            invariant
                0 <= done <= down <= 11,
                ratio == halved(base as int, done as nat),
                done <= 11 ==> ratio >= 32,
                done <= 10 ==> ratio >= 64,
                done <= 9 ==> ratio >= 128,
                done <= 8 ==> ratio >= 256,
                done <= 7 ==> ratio >= 512,
                done <= 6 ==> ratio >= 1024,
                done <= 5 ==> ratio >= 2048,
                done <= 4 ==> ratio >= 4096,
                done <= 3 ==> ratio >= 8192,
                done <= 2 ==> ratio >= 16384,
                done <= 1 ==> ratio >= 32768,
                done <= 0 ==> ratio >= 65536,
            decreases down - done,
        {
            ratio = ratio / 2;
            done = done + 1;
        }
    }
    ratio
}

/// The twelfth power of `x`.
pub open spec fn twelfth_power(x: int) -> int {
    let squared = x * x;
    let fourth = squared * squared;
    fourth * fourth * fourth
}

/// The ratio table is equal temperament: the ratio of `k` semitones, raised
/// to the twelfth power, is `2^k`, as closely as the fixed-point steps allow.
/// No neighbouring step is closer to the twelfth root of `2^k`.
pub proof fn lemma_equal_temperament(k: nat)
    requires
        k < 12,
    ensures
        twelfth_power(2 * semitone_step(k as int) - 1) <= doubled(twelfth_power(2 * ONE), k),
        doubled(twelfth_power(2 * ONE), k) < twelfth_power(2 * semitone_step(k as int) + 1),
{
    reveal_with_fuel(doubled, 12);
    let unit = twelfth_power(2 * ONE);
    assert(unit == 25711008708143844408671393477458601640355247900524685364822016) by (nonlinear_arith)
        requires
            unit == twelfth_power(2 * ONE),
    ;
    let t = semitone_step(k as int);
    let below = twelfth_power(2 * t - 1);
    let above = twelfth_power(2 * t + 1);
    assert(below <= doubled(unit, k) < above) by (nonlinear_arith)
        requires
            k < 12,
            t == semitone_step(k as int),
            below == twelfth_power(2 * t - 1),
            above == twelfth_power(2 * t + 1),
            unit == 25711008708143844408671393477458601640355247900524685364822016,
            doubled(unit, k) == if k == 0 {
                unit
            } else if k == 1 {
                2 * unit
            } else if k == 2 {
                4 * unit
            } else if k == 3 {
                8 * unit
            } else if k == 4 {
                16 * unit
            } else if k == 5 {
                32 * unit
            } else if k == 6 {
                64 * unit
            } else if k == 7 {
                128 * unit
            } else if k == 8 {
                256 * unit
            } else if k == 9 {
                512 * unit
            } else if k == 10 {
                1024 * unit
            } else {
                2048 * unit
            },
    ;
}

/// Octaves are exact: no semitones leave the pitch alone, twelve up double
/// it, twelve down halve it, and twelve more semitones always double the
/// ratio of a step at or above the root.
pub proof fn lemma_octaves(step: int)
    ensures
        semitone_ratio(0) == ONE,
        semitone_ratio(12) == 2 * ONE,
        semitone_ratio(-12) == ONE / 2,
        step >= 0 ==> semitone_ratio(step + 12) == 2 * semitone_ratio(step),
{
    reveal_with_fuel(doubled, 3);
    reveal_with_fuel(halved, 3);
    if step >= 0 {
        assert((step + 12) % 12 == step % 12);
        assert((step + 12) / 12 == step / 12 + 1);
    }
}

} // verus!
