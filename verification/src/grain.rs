//! Grains and their manager.
//!
//! A `Grain` is a bounded fragment `[lower, upper)` of a shared, read-only
//! sample buffer that can be played on its own: forward or reversed, at any
//! pitch ratio, under a window. Changes of its range can be deferred until
//! its cursor next wraps, so that they never cut into a running pass.
//!
//! A `GrainManager` owns an ordered collection of grains built by one of
//! three population modes, mixes them into one sample per tick and gates the
//! result with an envelope.
use vstd::prelude::*;
use crate::fixed::{apply_window, interpolated, interpolated_level, windowed, ONE};
use crate::interpolators::{lerp, lerp_level};
use crate::resample::{
    advanced, lemma_in_range, lemma_reduced_in_range, reduced, semitone_ratio,
    semitone_to_hz_ratio, span, wraps, ResamplingCursor,
};
use crate::envelope::{ADSREnvelope, EnvelopeView};
use crate::fixed::{scale, scaled, trunc_div};
use crate::random::{draw_chance, draw_choice, draw_depth};
use crate::smoothers::{HannSmoother, NoSmoother, Smoother, Window, WindowView};

verus! {

/// What makes a request to the engine unusable.
#[derive(Clone, Copy, Debug, PartialEq, Eq)]
pub enum GrainError {
    /// A grain's range would hold no sample.
    EmptyRange,
    /// A population parameter lies outside what the source or the mode
    /// allows.
    OutOfRange,
    /// A grain index lies beyond the collection.
    InvalidIndex,
}

/// Hands out consecutive indices, starting at 0.
#[derive(Default)]
pub struct IdManager {
    next_id: usize,
}

impl View for IdManager {
    type V = nat;

    /// The index handed out next.
    closed spec fn view(&self) -> nat {
        self.next_id as nat
    }
}

impl IdManager {
    pub fn new() -> (manager: Self)
        ensures
            manager@ == 0,
    {
        Self { next_id: 0 }
    }

    /// Returns the next index; the one after it is one larger.
    pub fn get_next_id(&mut self) -> (id: usize)
        requires
            old(self)@ < usize::MAX,
        ensures
            id == old(self)@,
            final(self)@ == old(self)@ + 1,
    {
        let id = self.next_id;
        self.next_id = self.next_id + 1;
        id
    }
}

/// `value` brought into `[low, high]`.
pub open spec fn clamped(value: int, low: int, high: int) -> int {
    if value < low {
        low
    } else if value > high {
        high
    } else {
        value
    }
}

/// The state of a grain.
pub struct GrainView {
    /// The shared samples the grain reads.
    pub source: Seq<i16>,
    /// The first index of the active range.
    pub lower: nat,
    /// One past the last index of the active range.
    pub upper: nat,
    /// The bounds asked for last. When the cursor next wraps they become the
    /// active range, fitted to hold a sample inside the source where they
    /// do not; they equal the active bounds when no change is pending.
    pub next_lower: nat,
    pub next_upper: nat,
    /// The grain's index in its collection.
    pub id: nat,
    /// The index of the grain played after this one.
    pub next_id: nat,
    /// The size of the collection.
    pub count: nat,
    pub reverse: bool,
    pub looping: bool,
    /// Whether changes of the range wait for the next wrap.
    pub locked: bool,
    pub window: WindowView,
    /// How much of the window is applied: 0 for none, `ONE` for all of it.
    pub depth: nat,
    /// The read position inside the active range, in fixed-point steps.
    pub position: nat,
    /// The pitch ratio the grain was given for itself.
    pub base_rate: nat,
    /// The pitch ratio the position moves at when pitch-shifting is on: the
    /// grain's own, raised by the transposition set last.
    pub rate: nat,
    pub pitch_enabled: bool,
}

impl GrainView {
    /// The number of samples in the active range.
    pub open spec fn len(self) -> nat {
        (self.upper - self.lower) as nat
    }

    /// The active range holds at least one sample and lies inside the
    /// source, the position lies inside the active range, and the successor
    /// is this grain if it loops and the next one in ring order if not.
    pub open spec fn wf(self) -> bool {
        &&& self.lower < self.upper <= self.source.len()
        &&& self.next_lower <= usize::MAX
        &&& self.next_upper <= usize::MAX
        &&& self.source.len() <= usize::MAX
        &&& self.id < self.count <= usize::MAX
        &&& self.next_id == self.successor(self.looping)
        &&& self.position == reduced(self.position, self.len())
        &&& self.depth <= ONE
        &&& self.base_rate <= u64::MAX
        &&& self.rate <= u64::MAX
    }

    /// The index played after this grain.
    pub open spec fn successor(self, looping: bool) -> nat {
        if looping {
            self.id
        } else {
            (((self.id + 1) as int) % (self.count as int)) as nat
        }
    }

    /// The whole-sample part of the position.
    pub open spec fn whole(self) -> nat {
        self.position / (ONE as nat)
    }

    /// The fractional part of the position.
    pub open spec fn fraction(self) -> nat {
        self.position % (ONE as nat)
    }

    /// The source index under the position: counted up from the lower bound,
    /// or, reversed, down from the last sample of the range.
    pub open spec fn base_index(self) -> int {
        if self.reverse {
            self.upper - 1 - self.whole()
        } else {
            (self.lower + self.whole()) as int
        }
    }

    /// The source index the position is moving toward: the next one in
    /// playing direction, held at the base index where the source ends.
    pub open spec fn neighbour_index(self) -> int {
        if self.reverse {
            if self.base_index() > 0 {
                self.base_index() - 1
            } else {
                self.base_index()
            }
        } else if self.base_index() + 1 < self.source.len() {
            self.base_index() + 1
        } else {
            self.base_index()
        }
    }

    /// The sample at the position, before windowing: with pitch-shifting on,
    /// interpolated between the base and its neighbour.
    pub open spec fn raw_sample(self) -> int {
        if self.pitch_enabled {
            interpolated(
                self.source[self.base_index()] as int,
                self.source[self.neighbour_index()] as int,
                self.fraction() as int,
            )
        } else {
            self.source[self.base_index()] as int
        }
    }

    /// The window value at the position: with pitch-shifting on, interpolated
    /// between the values at the whole position and one past it.
    pub open spec fn window_level(self) -> int {
        if self.pitch_enabled {
            interpolated_level(
                self.window.value_at(self.whole() as int),
                self.window.value_at((self.whole() + 1) as int),
                self.fraction() as int,
            )
        } else {
            self.window.value_at(self.whole() as int)
        }
    }

    /// The next sample the grain gives.
    pub open spec fn output(self, smoothed: bool) -> int {
        if smoothed {
            windowed(self.raw_sample(), self.depth as int, self.window_level())
        } else {
            self.raw_sample()
        }
    }

    /// The rate the position moves at: the pitch ratio, or one sample per
    /// call with pitch-shifting off.
    pub open spec fn step_rate(self) -> nat {
        if self.pitch_enabled {
            self.rate
        } else {
            ONE as nat
        }
    }

    /// Whether the next move takes the position past the end of the range.
    pub open spec fn wraps(self) -> bool {
        wraps(self.position, self.step_rate(), self.len())
    }

    /// The state after a change of the active range to `[lower, upper)`: the
    /// window is stretched over the new length and the position wrapped into
    /// it.
    pub open spec fn with_range(self, lower: nat, upper: nat) -> GrainView {
        GrainView {
            lower,
            upper,
            position: reduced(self.position, (upper - lower) as nat),
            window: self.window.resized((upper - lower) as nat),
            ..self
        }
    }

    /// The upper bound that the pending bounds are committed with: the one
    /// asked for, held inside the source and above its first index.
    pub open spec fn committed_upper(self) -> nat {
        clamped(self.next_upper as int, 1, self.source.len() as int) as nat
    }

    /// The lower bound that the pending bounds are committed with: the one
    /// asked for, held at least one sample below the committed upper bound.
    pub open spec fn committed_lower(self) -> nat {
        self.fitted_lower(self.next_lower, self.committed_upper())
    }

    /// The state after the next sample was given: the position has moved on,
    /// and if it wrapped, the pending bounds have been committed. Bounds
    /// that hold a sample inside the source are committed as they are.
    pub open spec fn stepped(self) -> GrainView {
        let moved = GrainView {
            position: advanced(self.position, self.step_rate(), self.len()),
            ..self
        };
        if self.wraps() {
            moved.with_range(self.committed_lower(), self.committed_upper())
        } else {
            moved
        }
    }

    /// The upper bound that a request for `upper` gives a range starting at
    /// `lower`: at least one sample long and inside the source.
    pub open spec fn fitted_upper(self, lower: nat, upper: nat) -> nat {
        clamped(upper as int, (lower + 1) as int, self.source.len() as int) as nat
    }

    /// The lower bound that a request for `lower` gives a range ending at
    /// `upper`: at least one sample before the end.
    pub open spec fn fitted_lower(self, lower: nat, upper: nat) -> nat {
        if lower >= upper {
            (upper - 1) as nat
        } else {
            lower
        }
    }

    /// The lower bound that a request to move to `pos` gives a range of the
    /// active length: `pos`, or the last position at which the range still
    /// fits the source.
    pub open spec fn fitted_pos(self, pos: nat) -> nat {
        if pos + self.len() > self.source.len() {
            (self.source.len() - self.len()) as nat
        } else {
            pos
        }
    }

    /// The state after a new upper bound was asked for. A locked grain keeps
    /// the bound as asked until it wraps; an unlocked one takes it at once,
    /// fitted to leave a sample in the range and to stay inside the source.
    pub open spec fn with_upper(self, upper: nat) -> GrainView {
        if self.locked {
            GrainView { next_upper: upper, ..self }
        } else {
            let fitted = self.fitted_upper(self.lower, upper);
            GrainView { next_upper: fitted, ..self }.with_range(self.lower, fitted)
        }
    }

    /// The state after a new lower bound was asked for. A locked grain keeps
    /// the bound as asked until it wraps; an unlocked one takes it at once,
    /// fitted to leave a sample in the range.
    pub open spec fn with_lower(self, lower: nat) -> GrainView {
        if self.locked {
            GrainView { next_lower: lower, ..self }
        } else {
            let fitted = self.fitted_lower(lower, self.upper);
            GrainView { next_lower: fitted, ..self }.with_range(fitted, self.upper)
        }
    }

    /// The state after a request for the range `[lower, upper)`: pending if
    /// the grain is locked, active at once if not.
    pub open spec fn requested(self, lower: nat, upper: nat) -> GrainView {
        if self.locked {
            GrainView { next_lower: lower, next_upper: upper, ..self }
        } else {
            GrainView { next_lower: lower, next_upper: upper, ..self }.with_range(lower, upper)
        }
    }

    /// The state under the Hann window over the active range, or without a
    /// window.
    pub open spec fn windowed_by(self, hann: bool) -> GrainView {
        GrainView {
            window: if hann {
                WindowView::Hann(self.len())
            } else {
                WindowView::NoOp
            },
            ..self
        }
    }

    /// The state with a new blend depth, a new choice of pitch-shifting, or
    /// both; a depth above `ONE` counts as `ONE`.
    pub open spec fn voiced(self, smooth_factor: Option<u32>, pitch_enable: Option<bool>) -> GrainView {
        GrainView {
            depth: match smooth_factor {
                Some(factor) => crate::fixed::capped(factor as int) as nat,
                None => self.depth,
            },
            pitch_enabled: match pitch_enable {
                Some(on_off) => on_off,
                None => self.pitch_enabled,
            },
            ..self
        }
    }

    /// The state after the grain's own pitch ratio was set: it is the ratio
    /// the position moves at until a transposition is set.
    pub open spec fn pitched(self, ratio: nat) -> GrainView {
        GrainView { base_rate: ratio, rate: ratio, ..self }
    }

    /// The state after a transposition by `semitones` was set: the position
    /// moves at the grain's own ratio raised by that many semitones, whatever
    /// transposition was set before.
    pub open spec fn transposed(self, semitones: int) -> GrainView {
        GrainView { rate: repitched(self.base_rate, semitones), ..self }
    }
}

/// How far a cloud voice's range is widened on either side:
/// `variation / 2 × depth × length`, with `variation` and `depth` in
/// fixed-point steps, truncated to whole samples.
pub open spec fn cloud_spread(length: nat, variation: nat, depth: nat) -> nat {
    (((variation as int) * (depth as int)) * (length as int) / 8589934592) as nat
}

/// The lower bound of a cloud voice: `spread` before `start`, held at 0.
pub open spec fn cloud_lower(start: nat, spread: nat) -> nat {
    if spread > start {
        0
    } else {
        (start - spread) as nat
    }
}

/// The upper bound of a cloud voice: `spread` past the end of
/// `[start, start + length)`, held at the end of the source.
pub open spec fn cloud_upper(source_len: nat, start: nat, length: nat, spread: nat) -> nat {
    if start + length + spread > source_len {
        source_len
    } else {
        start + length + spread
    }
}

impl GrainView {
    /// The state after the grain was placed as a voice of a cloud.
    pub open spec fn placed_in_cloud(
        self,
        length: nat,
        variation: nat,
        start: nat,
        depth: nat,
        pitch: int,
        reverse: bool,
    ) -> GrainView {
        let spread = cloud_spread(length, variation, depth);
        let ranged = self.requested(
            cloud_lower(start, spread),
            cloud_upper(self.source.len(), start, length, spread),
        );
        GrainView {
            looping: true,
            next_id: self.id,
            reverse,
            base_rate: semitone_ratio(pitch) as nat,
            rate: semitone_ratio(pitch) as nat,
            locked: true,
            ..ranged
        }
    }
}

/// A fragment of a shared sample buffer that plays on its own.
pub struct Grain<'a> {
    audio_buffer: &'a Vec<i16>,
    upper_index: usize,
    lower_index: usize,
    grain_id: usize,
    next_id: usize,
    index_mod: usize,
    reverse: bool,
    looping: bool,
    smoother: Window,
    smooth_factor: u32,
    lock_playback: bool,
    next_upper: usize,
    next_lower: usize,
    resampler: ResamplingCursor,
    base_ratio: u64,
    pitch_ratio: u64,
    pitch_enable: bool,
}

impl<'a> View for Grain<'a> {
    type V = GrainView;

    closed spec fn view(&self) -> GrainView {
        GrainView {
            source: self.audio_buffer@,
            lower: self.lower_index as nat,
            upper: self.upper_index as nat,
            next_lower: self.next_lower as nat,
            next_upper: self.next_upper as nat,
            id: self.grain_id as nat,
            next_id: self.next_id as nat,
            count: self.index_mod as nat,
            reverse: self.reverse,
            looping: self.looping,
            locked: self.lock_playback,
            window: self.smoother.window(),
            depth: self.smooth_factor as nat,
            position: self.resampler.position(),
            base_rate: self.base_ratio as nat,
            rate: self.pitch_ratio as nat,
            pitch_enabled: self.pitch_enable,
        }
    }
}

impl<'a> Grain<'a> {
    /// The grain's state is well-formed and its cursor ranges over the
    /// active range.
    pub closed spec fn wf(&self) -> bool {
        &&& self@.wf()
        &&& self.resampler.limit() == self@.len()
    }

    /// A well-formed grain has a well-formed state.
    pub proof fn lemma_wf(&self)
        requires
            self.wf(),
        ensures
            self@.wf(),
    {
    }

    /// A grain over the whole of `audio_buffer`, with index `id` in a
    /// collection of `index_mod` grains, pitched `pitch` semitones from the
    /// recorded pitch. It plays forward, once through to its successor,
    /// unlocked, with pitch-shifting on and under the Hann window at full
    /// depth.
    pub fn new(audio_buffer: &'a Vec<i16>, id: usize, index_mod: usize, pitch: i8) -> (grain: Result<
        Self,
        GrainError,
    >)
        ensures
            audio_buffer@.len() == 0 ==> grain == Err::<Self, GrainError>(GrainError::EmptyRange),
            audio_buffer@.len() > 0 && id >= index_mod ==> grain == Err::<Self, GrainError>(
                GrainError::InvalidIndex,
            ),
            audio_buffer@.len() > 0 && id < index_mod ==> grain.is_ok(),
            grain matches Ok(g) ==> g.wf() && g@ == fresh_grain(
                audio_buffer@,
                index_mod as nat,
                id as nat,
            ).pitched(semitone_ratio(pitch as int) as nat),
    {
        if audio_buffer.len() == 0 {
            return Err(GrainError::EmptyRange);
        }
        if id >= index_mod {
            return Err(GrainError::InvalidIndex);
        }
        Ok(Self::over(audio_buffer, id, index_mod, pitch))
    }

    /// The grain that `new` gives where it gives one.
    fn over(audio_buffer: &'a Vec<i16>, id: usize, index_mod: usize, pitch: i8) -> (grain: Self)
        requires
            audio_buffer@.len() > 0,
            id < index_mod,
        ensures
            grain.wf(),
            grain@ == fresh_grain(audio_buffer@, index_mod as nat, id as nat).pitched(
                semitone_ratio(pitch as int) as nat,
            ),
    {
        let ratio: u64 = semitone_to_hz_ratio(pitch) as u64;
        let mut smoother = Window::Hann(HannSmoother::new());
        smoother.set_length(audio_buffer.len());
        Self {
            audio_buffer,
            upper_index: audio_buffer.len(),
            lower_index: 0,
            grain_id: id,
            next_id: (id + 1) % index_mod,
            index_mod,
            reverse: false,
            looping: false,
            smoother,
            smooth_factor: ONE,
            lock_playback: false,
            next_upper: audio_buffer.len(),
            next_lower: 0,
            resampler: ResamplingCursor::new(audio_buffer.len()),
            base_ratio: ratio,
            pitch_ratio: ratio,
            pitch_enable: true,
        }
    }

    /// Returns the next sample and moves the cursor on. With `smoothed`, the
    /// sample is attenuated by the window at the blend depth. When the
    /// cursor wraps, the pending range becomes the active one.
    pub fn get_next_sample(&mut self, smoothed: bool) -> (sample: i16)
        requires
            old(self).wf(),
        ensures
            final(self).wf(),
            final(self)@ == old(self)@.stepped(),
            sample == old(self)@.output(smoothed),
    {
        proof {
            lemma_in_range(self.resampler.position(), self.resampler.limit());
        }
        let whole: usize = self.resampler.whole();
        let base: usize = if self.reverse {
            self.upper_index - 1 - whole
        } else {
            self.lower_index + whole
        };
        let raw: i16;
        let level: u32;
        if self.pitch_enable {
            let fraction: u32 = self.resampler.fraction();
            let neighbour: usize = if self.reverse {
                if base > 0 {
                    base - 1
                } else {
                    base
                }
            } else if base + 1 < self.audio_buffer.len() {
                base + 1
            } else {
                base
            };
            raw = lerp(self.audio_buffer[base], self.audio_buffer[neighbour], fraction);
            level =
            lerp_level(
                self.smoother.get_index(whole),
                self.smoother.get_index(whole + 1),
                fraction,
            );
        } else {
            raw = self.audio_buffer[base];
            level = self.smoother.get_index(whole);
        }
        let sample: i16 = if smoothed {
            apply_window(raw, self.smooth_factor, level)
        } else {
            raw
        };
        let rate: u64 = if self.pitch_enable {
            self.pitch_ratio
        } else {
            ONE as u64
        };
        if self.resampler.advance(rate) {
            let upper: usize = if self.next_upper > self.audio_buffer.len() {
                self.audio_buffer.len()
            } else if self.next_upper == 0 {
                1
            } else {
                self.next_upper
            };
            self.lower_index = if self.next_lower >= upper {
                upper - 1
            } else {
                self.next_lower
            };
            self.upper_index = upper;
            let length: usize = self.upper_index - self.lower_index;
            self.smoother.set_length(length);
            self.resampler.set_limit(length);
            proof {
                lemma_reduced_in_range(
                    advanced(old(self)@.position, old(self)@.step_rate(), old(self)@.len()),
                    self@.len(),
                );
            }
        } else {
            proof {
                lemma_reduced_in_range(
                    old(self)@.position + old(self)@.step_rate(),
                    old(self)@.len(),
                );
            }
        }
        sample
    }

    /// Sets the index of the grain played after this one.
    fn set_next_id(&mut self, id: usize)
        ensures
            *final(self) == (Grain { next_id: id, ..*old(self) }),
    {
        self.next_id = id;
    }

    /// Moves the cursor to the whole sample `index` of the active range; an
    /// index at or past the end of the range wraps around.
    pub fn set_sample_index(&mut self, index: usize)
        requires
            old(self).wf(),
        ensures
            final(self).wf(),
            final(self)@ == (GrainView {
                position: reduced(span(index as nat), old(self)@.len()),
                ..old(self)@
            }),
    {
        self.resampler.seek(index);
        proof {
            lemma_reduced_in_range(span(index as nat), old(self)@.len());
        }
    }

    /// Switches reversed playback on or off.
    pub fn set_reverse(&mut self, on_off: bool)
        ensures
            final(self)@ == (GrainView { reverse: on_off, ..old(self)@ }),
            old(self).wf() ==> final(self).wf(),
    {
        self.reverse = on_off;
    }

    /// Locks playback: from now on, changes of the range wait until the
    /// cursor wraps.
    pub fn lock_playback(&mut self)
        ensures
            final(self)@ == (GrainView { locked: true, ..old(self)@ }),
            old(self).wf() ==> final(self).wf(),
    {
        self.lock_playback = true;
    }

    /// Unlocks playback: from now on, changes of the range apply at once.
    pub fn unlock_playback(&mut self)
        ensures
            final(self)@ == (GrainView { locked: false, ..old(self)@ }),
            old(self).wf() ==> final(self).wf(),
    {
        self.lock_playback = false;
    }

    /// Switches looping on or off. A looping grain is its own successor; one
    /// that does not loop hands over to the next grain in ring order.
    pub fn set_looping(&mut self, on_off: bool)
        requires
            old(self).wf(),
        ensures
            final(self).wf(),
            final(self)@ == (GrainView {
                looping: on_off,
                next_id: old(self)@.successor(on_off),
                ..old(self)@
            }),
    {
        self.looping = on_off;
        if on_off {
            self.set_next_id(self.grain_id);
        } else {
            self.set_next_id((self.grain_id + 1) % self.index_mod);
        }
    }

    /// The number of samples in the active range.
    pub fn len(&self) -> (length: usize)
        requires
            self.wf(),
        ensures
            length == self@.len(),
            length > 0,
    {
        self.upper_index - self.lower_index
    }

    /// Whether the active range holds no sample. A well-formed grain is
    /// never empty.
    pub fn is_empty(&self) -> (empty: bool)
        ensures
            empty == (self@.upper <= self@.lower),
            self.wf() ==> !empty,
    {
        self.upper_index <= self.lower_index
    }

    /// Gives the grain a new window, stretched over the active range.
    pub fn set_smoothing(&mut self, smoother_object: Window)
        requires
            old(self).wf(),
        ensures
            final(self).wf(),
            final(self)@ == (GrainView {
                window: smoother_object.window().resized(old(self)@.len()),
                ..old(self)@
            }),
    {
        self.smoother = smoother_object;
        self.smoother.set_length(self.upper_index - self.lower_index);
    }

    /// Sets how much of the window is applied, between 0 and `ONE`; more
    /// than `ONE` counts as `ONE`.
    pub fn set_smooth_factor(&mut self, factor: u32)
        ensures
            final(self)@ == (GrainView {
                depth: crate::fixed::capped(factor as int) as nat,
                ..old(self)@
            }),
            old(self).wf() ==> final(self).wf(),
    {
        self.smooth_factor = if factor > ONE {
            ONE
        } else {
            factor
        };
    }

    /// Applies a range that is at least one sample long and inside the
    /// source: pending if the grain is locked, active at once if not.
    fn request_range(&mut self, lower: usize, upper: usize)
        requires
            old(self).wf(),
            lower < upper <= old(self)@.source.len(),
        ensures
            final(self).wf(),
            final(self)@ == old(self)@.requested(lower as nat, upper as nat),
    {
        self.next_lower = lower;
        self.next_upper = upper;
        if !self.lock_playback {
            self.apply_range(lower, upper);
        }
    }

    /// Makes `[lower, upper)`, which holds a sample inside the source, the
    /// active range.
    fn apply_range(&mut self, lower: usize, upper: usize)
        requires
            old(self).wf(),
            lower < upper <= old(self)@.source.len(),
        ensures
            final(self).wf(),
            final(self)@ == old(self)@.with_range(lower as nat, upper as nat),
    {
        self.lower_index = lower;
        self.upper_index = upper;
        let length: usize = upper - lower;
        self.smoother.set_length(length);
        self.resampler.set_limit(length);
        proof {
            lemma_reduced_in_range(old(self)@.position, length as nat);
        }
    }

    /// Asks for a new upper bound. A locked grain keeps the bound as asked
    /// and takes it when its cursor next wraps; an unlocked grain takes it at
    /// once, fitted to leave at least one sample in the range and to stay
    /// inside the source.
    pub fn set_upper_index(&mut self, upper_index: usize)
        requires
            old(self).wf(),
        ensures
            final(self).wf(),
            final(self)@ == old(self)@.with_upper(upper_index as nat),
    {
        if self.lock_playback {
            self.next_upper = upper_index;
        } else {
            let upper: usize = if upper_index <= self.lower_index {
                self.lower_index + 1
            } else if upper_index > self.audio_buffer.len() {
                self.audio_buffer.len()
            } else {
                upper_index
            };
            self.next_upper = upper;
            self.apply_range(self.lower_index, upper);
        }
    }

    /// Asks for a new lower bound. A locked grain keeps the bound as asked
    /// and takes it when its cursor next wraps; an unlocked grain takes it at
    /// once, fitted to leave at least one sample in the range.
    pub fn set_lower_index(&mut self, lower_index: usize)
        requires
            old(self).wf(),
        ensures
            final(self).wf(),
            final(self)@ == old(self)@.with_lower(lower_index as nat),
    {
        if self.lock_playback {
            self.next_lower = lower_index;
        } else {
            let lower: usize = if lower_index >= self.upper_index {
                self.upper_index - 1
            } else {
                lower_index
            };
            self.next_lower = lower;
            self.apply_range(lower, self.upper_index);
        }
    }

    /// Stretches the window over the active range.
    pub fn update_smoother(&mut self)
        requires
            old(self).wf(),
        ensures
            final(self).wf(),
            final(self)@ == (GrainView {
                window: old(self)@.window.resized(old(self)@.len()),
                ..old(self)@
            }),
    {
        self.smoother.set_length(self.upper_index - self.lower_index);
    }

    /// Sets the grain's own pitch as a number of semitones from the recorded
    /// pitch. A transposition set before no longer applies.
    pub fn set_pitch(&mut self, pitch: i8)
        ensures
            final(self)@ == old(self)@.pitched(semitone_ratio(pitch as int) as nat),
            old(self).wf() ==> final(self).wf(),
    {
        let ratio: u64 = semitone_to_hz_ratio(pitch) as u64;
        self.base_ratio = ratio;
        self.pitch_ratio = ratio;
    }

    /// Sets the grain's own pitch as a frequency ratio to the recorded
    /// pitch. A transposition set before no longer applies.
    pub fn set_pitch_freq(&mut self, freq: u64)
        ensures
            final(self)@ == old(self)@.pitched(freq as nat),
            old(self).wf() ==> final(self).wf(),
    {
        self.base_ratio = freq;
        self.pitch_ratio = freq;
    }

    /// Transposes the grain by `pitch` semitones: it plays at its own pitch
    /// ratio raised by that many semitones. A transposition set before is
    /// replaced, not built on.
    pub fn transpose(&mut self, pitch: i8)
        ensures
            final(self)@ == old(self)@.transposed(pitch as int),
            old(self).wf() ==> final(self).wf(),
    {
        let ratio: u128 = semitone_to_hz_ratio(pitch) as u128;
        let own: u128 = self.base_ratio as u128;
        assert(own * ratio <= 0xFFFF_FFFF_FFFF_FFFF * 0xFFFF_FFFF) by (nonlinear_arith)
            requires
                own <= 0xFFFF_FFFF_FFFF_FFFF,
                ratio <= 0xFFFF_FFFF,
        ;
        let product: u128 = (own * ratio) / 65536;
        self.pitch_ratio = if product > u64::MAX as u128 {
            u64::MAX
        } else {
            product as u64
        };
    }

    /// Switches pitch-shifting on or off. With it off, the grain plays one
    /// source sample per call, whatever its pitch ratio.
    pub fn set_pitch_enable(&mut self, on_off: bool)
        ensures
            final(self)@ == (GrainView { pitch_enabled: on_off, ..old(self)@ }),
            old(self).wf() ==> final(self).wf(),
    {
        self.pitch_enable = on_off;
    }

    /// Asks to move the range to start at `pos` without changing its length.
    /// Where the range would run past the end of the source, it is moved
    /// left until it fits.
    pub fn set_pos(&mut self, pos: usize)
        requires
            old(self).wf(),
        ensures
            final(self).wf(),
            final(self)@ == old(self)@.requested(
                old(self)@.fitted_pos(pos as nat),
                old(self)@.fitted_pos(pos as nat) + old(self)@.len(),
            ),
    {
        let length: usize = self.upper_index - self.lower_index;
        let last: usize = self.audio_buffer.len() - length;
        let lower: usize = if pos > last {
            last
        } else {
            pos
        };
        self.request_range(lower, lower + length);
    }

    /// Places the grain as one voice of a cloud around `start`: the range
    /// `[start, start + length)` is widened on both sides by
    /// `variation / 2 × depth × length` samples, held inside the source, and
    /// the grain loops, locked, at `pitch` semitones, reversed or not as
    /// told. `variation` is a fixed-point factor and `depth` a fixed-point
    /// fraction of a whole. A start beyond the source and a length of zero
    /// are refused, and the grain is left as it was.
    pub fn place_in_cloud(
        &mut self,
        length: usize,
        variation: u32,
        start: usize,
        depth: u16,
        pitch: i8,
        reverse: bool,
    ) -> (placed: Result<(), GrainError>)
        requires
            old(self).wf(),
        ensures
            final(self).wf(),
            start >= old(self)@.source.len() ==> placed == Err::<(), GrainError>(
                GrainError::OutOfRange,
            ),
            start < old(self)@.source.len() && length == 0 ==> placed == Err::<(), GrainError>(
                GrainError::EmptyRange,
            ),
            start < old(self)@.source.len() && length > 0 ==> placed.is_ok(),
            placed.is_err() ==> final(self)@ == old(self)@,
            placed.is_ok() ==> final(self)@ == old(self)@.placed_in_cloud(
                length as nat,
                variation as nat,
                start as nat,
                depth as nat,
                pitch as int,
                reverse,
            ),
    {
        if start >= self.audio_buffer.len() {
            return Err(GrainError::OutOfRange);
        }
        if length == 0 {
            return Err(GrainError::EmptyRange);
        }
        assert((variation as u128) * (depth as u128) <= 0xFFFF_FFFF * 0xFFFF) by (nonlinear_arith)
            requires
                variation <= 0xFFFF_FFFF,
                depth <= 0xFFFF,
        ;
        let factor: u128 = (variation as u128) * (depth as u128);
        assert(factor * (length as u128) <= 0xFFFF_FFFF * 0xFFFF * 0xFFFF_FFFF_FFFF_FFFF) by (nonlinear_arith)
            requires
                factor == (variation as u128) * (depth as u128),
                variation <= 0xFFFF_FFFF,
                depth <= 0xFFFF,
                length <= 0xFFFF_FFFF_FFFF_FFFF,
        ;
        let wide: u128 = (factor * (length as u128)) / 8589934592;
        proof {
            assert(wide == cloud_spread(length as nat, variation as nat, depth as nat)) by (nonlinear_arith)
                requires
                    wide == (((variation as int) * (depth as int)) * (length as int)) / 8589934592,
                    cloud_spread(length as nat, variation as nat, depth as nat) == (((variation as int)
                        * (depth as int)) * (length as int)) / 8589934592,
            ;
        }
        let spread: usize = if wide > usize::MAX as u128 {
            usize::MAX
        } else {
            wide as usize
        };
        let lower: usize = if spread > start {
            0
        } else {
            start - spread
        };
        let reach: usize = if spread > usize::MAX - length {
            usize::MAX
        } else {
            length + spread
        };
        let end: usize = if reach > usize::MAX - start {
            usize::MAX
        } else {
            start + reach
        };
        let upper: usize = if end > self.audio_buffer.len() {
            self.audio_buffer.len()
        } else {
            end
        };
        self.request_range(lower, upper);
        self.set_looping(true);
        self.set_reverse(reverse);
        self.set_pitch(pitch);
        self.lock_playback();
        Ok(())
    }

    /// The index of the grain played after this one.
    pub fn next_id(&self) -> (id: usize)
        ensures
            id == self@.next_id,
    {
        self.next_id
    }

    /// The first index of the active range.
    pub fn lower_index(&self) -> (lower: usize)
        ensures
            lower == self@.lower,
    {
        self.lower_index
    }

    /// One past the last index of the active range.
    pub fn upper_index(&self) -> (upper: usize)
        ensures
            upper == self@.upper,
    {
        self.upper_index
    }

    /// The pitch ratio the grain plays at.
    pub fn pitch_freq(&self) -> (freq: u64)
        ensures
            freq == self@.rate,
    {
        self.pitch_ratio
    }

    /// The pitch ratio the grain was given for itself, before any
    /// transposition.
    pub fn base_pitch_freq(&self) -> (freq: u64)
        ensures
            freq == self@.base_rate,
    {
        self.base_ratio
    }

    /// The read position inside the active range, in fixed-point steps.
    pub fn position(&self) -> (position: u128)
        ensures
            position == self@.position,
    {
        self.resampler.get_position()
    }
}

/// How a manager populates and plays its grains.
#[derive(Clone, Copy, Debug, PartialEq, Eq)]
pub enum GrainMode {
    /// Contiguous grains in source order, played one at a time in ring
    /// order.
    Sequence,
    /// Grains over the span `(lower, upper)` that share its upper bound and
    /// start at staggered offsets; all loop and play at once.
    Cascade(usize, usize),
    /// Grains scattered around a centre, `(length, variation, start)`; all
    /// loop and play at once. `variation` is a fixed-point factor of the
    /// grain length.
    Cloud(usize, u32, usize),
}

/// Why a population cannot be built, if it cannot: no grains at all, then
/// per mode a parameter outside the source or a range without samples.
pub open spec fn population_error(count: nat, source_len: nat, mode: GrainMode) -> Option<
    GrainError,
> {
    if count == 0 {
        Some(GrainError::OutOfRange)
    } else {
        match mode {
            GrainMode::Sequence => if source_len / count == 0 {
                Some(GrainError::EmptyRange)
            } else {
                None
            },
            GrainMode::Cascade(lower, upper) => if upper > source_len {
                Some(GrainError::OutOfRange)
            } else if lower >= upper {
                Some(GrainError::EmptyRange)
            } else {
                None
            },
            GrainMode::Cloud(length, variation, start) => if start >= source_len {
                Some(GrainError::OutOfRange)
            } else if length == 0 {
                Some(GrainError::EmptyRange)
            } else {
                None
            },
        }
    }
}

/// Grain `i` of `count` as it starts out: over the whole source, under the
/// Hann window, at the recorded pitch, handing over to the next grain in ring
/// order.
pub open spec fn fresh_grain(source: Seq<i16>, count: nat, i: nat) -> GrainView {
    GrainView {
        source,
        lower: 0,
        upper: source.len(),
        next_lower: 0,
        next_upper: source.len(),
        id: i,
        next_id: (((i + 1) as int) % (count as int)) as nat,
        count,
        reverse: false,
        looping: false,
        locked: false,
        window: WindowView::Hann(source.len()),
        depth: ONE as nat,
        position: 0,
        base_rate: ONE as nat,
        rate: ONE as nat,
        pitch_enabled: true,
    }
}

/// Grain `i` of a sequence: the `i`-th of `count` equal, contiguous slices
/// of the source, locked.
pub open spec fn sequence_grain(source: Seq<i16>, count: nat, i: nat) -> GrainView {
    let length = source.len() / count;
    GrainView {
        lower: i * length,
        upper: (i + 1) * length,
        next_lower: i * length,
        next_upper: (i + 1) * length,
        locked: true,
        window: WindowView::Hann(length),
        ..fresh_grain(source, count, i)
    }
}

/// Grain `i` of a cascade over `[lower, upper)`: it starts `i` equal steps
/// into the span and ends where the span ends, looping and locked.
pub open spec fn cascade_grain(source: Seq<i16>, count: nat, lower: nat, upper: nat, i: nat) -> GrainView {
    let step = ((upper - lower) as nat) / count;
    GrainView {
        lower: lower + i * step,
        upper,
        next_lower: lower + i * step,
        next_upper: upper,
        looping: true,
        next_id: i,
        locked: true,
        window: WindowView::Hann((upper - (lower + i * step)) as nat),
        ..fresh_grain(source, count, i)
    }
}

/// Grain `i` of a cloud, for one outcome of its three draws: the depth by
/// which its range is widened, its octave and its direction.
pub open spec fn cloud_grain(
    source: Seq<i16>,
    count: nat,
    length: nat,
    variation: nat,
    start: nat,
    i: nat,
    depth: nat,
    octave: int,
    reverse: bool,
) -> GrainView {
    fresh_grain(source, count, i).placed_in_cloud(
        length,
        variation,
        start,
        depth,
        12 * octave,
        reverse,
    )
}

/// Whether `grain` is grain `i` of a population of `count` grains over
/// `source` in `mode`. A cloud leaves the depth, the octave (one down, none
/// or one up) and the direction of each grain to chance.
pub open spec fn populates(grain: GrainView, source: Seq<i16>, count: nat, mode: GrainMode, i: nat) -> bool {
    match mode {
        GrainMode::Sequence => grain == sequence_grain(source, count, i),
        GrainMode::Cascade(lower, upper) => grain == cascade_grain(
            source,
            count,
            lower as nat,
            upper as nat,
            i,
        ),
        GrainMode::Cloud(length, variation, start) => exists|depth: nat, octave: int, reverse: bool|
            depth <= u16::MAX && -1 <= octave <= 1 && grain == #[trigger] cloud_grain(
                source,
                count,
                length as nat,
                variation as nat,
                start as nat,
                i,
                depth,
                octave,
                reverse,
            ),
    }
}

/// The envelope a new manager starts with: 2.5 s of attack, 1 s of decay to
/// a sustain level of 0.75 and 2 s of release at 44100 samples per second,
/// all along straight lines.
pub open spec fn default_envelope() -> EnvelopeView {
    EnvelopeView {
        cursor: 0,
        last_value: 0,
        attack_time: 110250,
        attack_curve: Seq::<u32>::empty(),
        decay_time: 44100,
        decay_curve: Seq::<u32>::empty(),
        sustain_level: 49152,
        release_time: 88200,
        release_curve: Seq::<u32>::empty(),
        attack_decay: Seq::<u32>::empty(),
        release: Seq::<u32>::empty(),
        ad_stage_done: false,
        gate: false,
    }
}

/// Whether every grain of a collection is well-formed and knows its index
/// and the size of the collection.
pub open spec fn in_place(grains: Seq<GrainView>) -> bool {
    forall|i: int|
        0 <= i < grains.len() ==> {
            &&& (#[trigger] grains[i]).wf()
            &&& grains[i].id == i
            &&& grains[i].count == grains.len()
        }
}

/// The state of a grain manager.
pub struct ManagerView {
    pub grains: Seq<GrainView>,
    /// The index of the grain a sequence is playing.
    pub active: nat,
    /// How many samples a sequence has taken from the active grain.
    pub counter: nat,
    pub mode: GrainMode,
    /// The fixed-point gain that makes up for the quietness of short or
    /// averaged grains.
    pub makeup_gain: nat,
    /// The pitch set last for all grains, in semitones.
    pub global_pitch: int,
    pub envelope: EnvelopeView,
}

impl ManagerView {
    /// Every grain is well-formed and knows its place in the collection, the
    /// active index lies inside the collection, and the envelope is
    /// well-formed.
    pub open spec fn wf(self) -> bool {
        &&& self.grains.len() <= usize::MAX
        &&& in_place(self.grains)
        &&& self.grains.len() > 0 ==> self.active < self.grains.len()
        &&& self.grains.len() == 0 ==> self.active == 0
        &&& self.counter <= usize::MAX
        &&& self.makeup_gain <= u32::MAX
        &&& self.envelope.wf()
    }

    /// Whether this is the state that populating from `before` leaves: the
    /// grains are those of the mode, play starts at the first grain, the
    /// envelope's tables are built anew, and gain and pitch are kept.
    pub open spec fn populated_from(
        self,
        before: ManagerView,
        count: nat,
        source: Seq<i16>,
        mode: GrainMode,
    ) -> bool {
        &&& self.grains.len() == count
        &&& forall|i: int| 0 <= i < count ==> populates(#[trigger] self.grains[i], source, count, mode, i as nat)
        &&& self.active == 0
        &&& self.counter == 0
        &&& self.mode == mode
        &&& self.makeup_gain == before.makeup_gain
        &&& self.global_pitch == before.global_pitch
        &&& self.envelope == before.envelope.rebuilt()
    }
}

/// The sum of the next samples of all `grains`, each under its window.
pub open spec fn sum_outputs(grains: Seq<GrainView>) -> int
    decreases grains.len(),
{
    if grains.len() == 0 {
        0
    } else {
        sum_outputs(grains.drop_last()) + grains.last().output(true)
    }
}

/// A pitch ratio raised by `semitones`: the product of the ratio and the
/// ratio of the semitones, held at the largest ratio there is.
pub open spec fn repitched(rate: nat, semitones: int) -> nat {
    let product = (rate * semitone_ratio(semitones)) / (ONE as int);
    if product > u64::MAX {
        u64::MAX as nat
    } else {
        product as nat
    }
}

impl ManagerView {
    /// The state with `change` applied to every grain.
    pub open spec fn with_each_grain(self, change: spec_fn(GrainView) -> GrainView) -> ManagerView {
        ManagerView {
            grains: Seq::new(self.grains.len(), |i: int| change(self.grains[i])),
            ..self
        }
    }

    /// Whether a sequence has reached the last sample it takes from the
    /// active grain.
    pub open spec fn at_boundary(self) -> bool {
        self.counter + 1 >= self.grains[self.active as int].len()
    }

    /// The next sample before the envelope. A sequence takes it from the
    /// active grain and applies the makeup gain where it hands over to the
    /// next grain; the other modes take the truncated average over all
    /// grains and apply the makeup gain to it. Without grains there is
    /// silence.
    pub open spec fn mixed(self) -> int {
        if self.grains.len() == 0 {
            0
        } else {
            match self.mode {
                GrainMode::Sequence => {
                    let raw = self.grains[self.active as int].output(true);
                    if self.at_boundary() {
                        scaled(raw, self.makeup_gain as int)
                    } else {
                        raw
                    }
                },
                _ => scaled(
                    trunc_div(sum_outputs(self.grains), self.grains.len() as int),
                    self.makeup_gain as int,
                ),
            }
        }
    }

    /// The next sample: the mix under the envelope's next level.
    pub open spec fn output(self) -> int {
        scaled(self.mixed(), self.envelope.level() as int)
    }

    /// The grains after the next sample. A sequence moves the active grain
    /// on and, where it hands over, sets that grain's cursor back to the
    /// start; the other modes move every grain on.
    pub open spec fn stepped_grains(self) -> Seq<GrainView> {
        if self.grains.len() == 0 {
            self.grains
        } else {
            match self.mode {
                GrainMode::Sequence => {
                    let played = self.grains[self.active as int].stepped();
                    if self.at_boundary() {
                        self.grains.update(self.active as int, GrainView { position: 0, ..played })
                    } else {
                        self.grains.update(self.active as int, played)
                    }
                },
                _ => Seq::new(self.grains.len(), |i: int| self.grains[i].stepped()),
            }
        }
    }

    /// The state after the next sample: the grains have moved, a sequence
    /// has counted the sample or handed over to the active grain's
    /// successor, and the envelope has moved on by one level.
    pub open spec fn stepped(self) -> ManagerView {
        let hands_over = self.grains.len() > 0 && self.mode == GrainMode::Sequence
            && self.at_boundary();
        let counts = self.grains.len() > 0 && self.mode == GrainMode::Sequence
            && !self.at_boundary();
        ManagerView {
            grains: self.stepped_grains(),
            active: if hands_over {
                self.grains[self.active as int].next_id
            } else {
                self.active
            },
            counter: if hands_over {
                0
            } else if counts {
                self.counter + 1
            } else {
                self.counter
            },
            envelope: self.envelope.stepped(),
            ..self
        }
    }
}

/// The states of a collection of grains.
pub open spec fn grain_views<'a>(grains: Seq<Grain<'a>>) -> Seq<GrainView> {
    Seq::new(grains.len(), |i: int| grains[i]@)
}

/// Whether every grain of a collection is well-formed.
pub open spec fn all_wf<'a>(grains: Seq<Grain<'a>>) -> bool {
    forall|i: int| 0 <= i < grains.len() ==> (#[trigger] grains[i]).wf()
}

/// Grains that stay well-formed and keep their index and the size of their
/// collection stay in place.
pub proof fn lemma_grains_stay_in_place<'a>(before: Seq<Grain<'a>>, after: Seq<Grain<'a>>)
    requires
        in_place(grain_views(before)),
        after.len() == before.len(),
        all_wf(after),
        forall|i: int|
            0 <= i < after.len() ==> (#[trigger] after[i])@.id == before[i]@.id && after[i]@.count
                == before[i]@.count,
    ensures
        in_place(grain_views(after)),
{
    assert forall|i: int| 0 <= i < after.len() implies {
        &&& (#[trigger] grain_views(after)[i]).wf()
        &&& grain_views(after)[i].id == i
        &&& grain_views(after)[i].count == after.len()
    } by {
        assert(after[i].wf());
        assert(grain_views(before)[i].wf());
        assert(after[i]@.id == before[i]@.id);
    }
}

/// Takes the next sample from every grain and returns the sum.
fn play_all<'a>(grains: &mut Vec<Grain<'a>>) -> (total: i128)
    requires
        all_wf(old(grains)@),
    ensures
        all_wf(final(grains)@),
        final(grains)@.len() == old(grains)@.len(),
        forall|i: int|
            0 <= i < old(grains)@.len() ==> (#[trigger] final(grains)@[i])@ == old(grains)@[i]@.stepped(),
        total == sum_outputs(grain_views(old(grains)@)),
        -32768 * old(grains)@.len() <= total <= 32767 * old(grains)@.len(),
{
    let ghost before = grains@;
    let count: usize = grains.len();
    let mut total: i128 = 0;
    let mut index: usize = 0;
    while index < count
        invariant
            index <= count,
            grains@.len() == count,
            before.len() == count,
            all_wf(before),
            forall|i: int| 0 <= i < index ==> (#[trigger] grains@[i]).wf() && grains@[i]@ == before[i]@.stepped(),
            forall|i: int| index <= i < count ==> #[trigger] grains@[i] == before[i],
            total == sum_outputs(grain_views(before).take(index as int)),
            -32768 * index <= total <= 32767 * index,
        decreases count - index,
    {
        assert(grains@[index as int] == before[index as int]);
        assert(before[index as int].wf());
        let sample: i16 = grains[index].get_next_sample(true);
        proof {
            let views = grain_views(before);
            assert(views.take(index + 1).drop_last() =~= views.take(index as int));
            assert(views.take(index + 1).last() == before[index as int]@);
        }
        total = total + sample as i128;
        index = index + 1;
    }
    proof {
        assert(grain_views(before).take(count as int) =~= grain_views(before));
    }
    total
}

/// The truncated average of samples lies in the sample range.
pub proof fn lemma_average_in_range(total: int, count: int)
    requires
        count > 0,
        -32768 * count <= total <= 32767 * count,
    ensures
        -32768 <= trunc_div(total, count) <= 32767,
{
    if total >= 0 {
        assert(total / count <= 32767) by (nonlinear_arith)
            requires
                count > 0,
                0 <= total <= 32767 * count,
        ;
        assert(0 <= total / count) by (nonlinear_arith)
            requires
                count > 0,
                0 <= total,
        ;
    } else {
        assert(0 <= (-total) / count <= 32768) by (nonlinear_arith)
            requires
                count > 0,
                0 <= -total <= 32768 * count,
        ;
    }
}

/// Orchestrates a collection of grains over one source and keeps their
/// playback in step.
pub struct GrainManager<'a> {
    id_manager: IdManager,
    grains: Vec<Grain<'a>>,
    grain_index: usize,
    sample_index: usize,
    grain_count: usize,
    mode: GrainMode,
    makeup_gain: u32,
    global_pitch: i8,
    env: ADSREnvelope,
}

impl<'a> View for GrainManager<'a> {
    type V = ManagerView;

    closed spec fn view(&self) -> ManagerView {
        ManagerView {
            grains: grain_views(self.grains@),
            active: self.grain_index as nat,
            counter: self.sample_index as nat,
            mode: self.mode,
            makeup_gain: self.makeup_gain as nat,
            global_pitch: self.global_pitch as int,
            envelope: self.env@,
        }
    }
}

impl<'a> Default for GrainManager<'a> {
    /// A sequence manager without grains, with a makeup gain of 3.0.
    fn default() -> (manager: Self)
        ensures
            manager.wf(),
            manager@ == (ManagerView {
                grains: Seq::<GrainView>::empty(),
                active: 0,
                counter: 0,
                mode: GrainMode::Sequence,
                makeup_gain: 3 * ONE as nat,
                global_pitch: 1,
                envelope: default_envelope(),
            }),
    {
        let manager = Self {
            id_manager: IdManager::new(),
            grains: Vec::new(),
            grain_index: 0,
            sample_index: 0,
            grain_count: 0,
            mode: GrainMode::Sequence,
            makeup_gain: 196608,
            global_pitch: 1,
            env: ADSREnvelope::new(110250, 44100, 49152, 88200),
        };
        proof {
            assert(manager@.grains =~= Seq::<GrainView>::empty());
        }
        manager
    }
}

/// Tells why a population cannot be built, if it cannot.
pub fn check_population(grain_count: usize, source_len: usize, mode: GrainMode) -> (refusal: Option<
    GrainError,
>)
    ensures
        refusal == population_error(grain_count as nat, source_len as nat, mode),
{
    if grain_count == 0 {
        return Some(GrainError::OutOfRange);
    }
    match mode {
        GrainMode::Sequence => {
            if source_len / grain_count == 0 {
                Some(GrainError::EmptyRange)
            } else {
                None
            }
        },
        GrainMode::Cascade(lower, upper) => {
            if upper > source_len {
                Some(GrainError::OutOfRange)
            } else if lower >= upper {
                Some(GrainError::EmptyRange)
            } else {
                None
            }
        },
        GrainMode::Cloud(length, _, start) => {
            if start >= source_len {
                Some(GrainError::OutOfRange)
            } else if length == 0 {
                Some(GrainError::EmptyRange)
            } else {
                None
            }
        },
    }
}

impl<'a> GrainManager<'a> {
    /// The state is well-formed, and so is every grain.
    pub closed spec fn wf(&self) -> bool {
        &&& self@.wf()
        &&& self.grain_count == self.grains@.len()
        &&& forall|i: int| 0 <= i < self.grains@.len() ==> (#[trigger] self.grains@[i]).wf()
    }

    /// A well-formed manager has a well-formed state.
    pub proof fn lemma_wf(&self)
        requires
            self.wf(),
        ensures
            self@.wf(),
    {
    }

    /// A manager without grains that will work in `mode` once populated.
    pub fn new(mode: GrainMode) -> (manager: Self)
        ensures
            manager.wf(),
            manager@ == (ManagerView {
                grains: Seq::<GrainView>::empty(),
                active: 0,
                counter: 0,
                mode,
                makeup_gain: 3 * ONE as nat,
                global_pitch: 1,
                envelope: default_envelope(),
            }),
    {
        let manager = Self {
            id_manager: IdManager::new(),
            grains: Vec::new(),
            grain_index: 0,
            sample_index: 0,
            grain_count: 0,
            mode,
            makeup_gain: 196608,
            global_pitch: 1,
            env: ADSREnvelope::new(110250, 44100, 49152, 88200),
        };
        proof {
            assert(manager@.grains =~= Seq::<GrainView>::empty());
        }
        manager
    }

    /// Makes the next grain of a population: the one with the next index,
    /// over the whole source.
    fn new_member(audio_buffer: &'a Vec<i16>, ids: &mut IdManager, grain_count: usize) -> (grain: Grain<'a>)
        requires
            audio_buffer@.len() > 0,
            old(ids)@ < grain_count,
        ensures
            final(ids)@ == old(ids)@ + 1,
            grain.wf(),
            grain@ == fresh_grain(audio_buffer@, grain_count as nat, old(ids)@),
    {
        let id: usize = ids.get_next_id();
        proof {
            crate::resample::lemma_octaves(0);
        }
        Grain::over(audio_buffer, id, grain_count, 0)
    }

    /// Replaces the grains by `grain_count` new ones over `audio_buffer`,
    /// laid out as `mode` says, and builds the envelope's tables anew. Play
    /// starts over at the first grain. A population that would hold no grain,
    /// a grain without samples or a parameter outside the source is refused,
    /// and the manager is left as it was.
    pub fn populate_grains(
        &mut self,
        grain_count: usize,
        audio_buffer: &'a Vec<i16>,
        mode: GrainMode,
    ) -> (populated: Result<(), GrainError>)
        requires
            old(self).wf(),
        ensures
            final(self).wf(),
            population_error(grain_count as nat, audio_buffer@.len(), mode) matches Some(refusal)
                ==> populated == Err::<(), GrainError>(refusal) && final(self)@ == old(self)@,
            population_error(grain_count as nat, audio_buffer@.len(), mode) is None
                ==> populated.is_ok() && final(self)@.populated_from(
                old(self)@,
                grain_count as nat,
                audio_buffer@,
                mode,
            ),
    {
        match check_population(grain_count, audio_buffer.len(), mode) {
            Some(refusal) => {
                return Err(refusal);
            },
            None => {},
        }
        let ghost source = audio_buffer@;
        let ghost count = grain_count as nat;
        let mut ids = IdManager::new();
        let mut grains: Vec<Grain<'a>> = Vec::new();
        match mode {
            GrainMode::Sequence => {
                let grain_len: usize = audio_buffer.len() / grain_count;
                let mut index: usize = 0;
                while index < grain_count
                    invariant
                        index <= grain_count,
                        grain_count > 0,
                        source == audio_buffer@,
                        count == grain_count,
                        grain_len == source.len() / count,
                        grain_len > 0,
                        ids@ == index,
                        grains@.len() == index,
                        forall|k: int|
                            0 <= k < index ==> (#[trigger] grains@[k]).wf() && grains@[k]@
                                == sequence_grain(source, count, k as nat),
                    decreases grain_count - index,
                {
                    proof {
                        lemma_slices_fit(source.len(), count, index as nat);
                    }
                    let mut grain = Self::new_member(audio_buffer, &mut ids, grain_count);
                    grain.set_lower_index(index * grain_len);
                    grain.set_upper_index((index + 1) * grain_len);
                    grain.update_smoother();
                    grain.lock_playback();
                    proof {
                        lemma_reduced_in_range(0, grain_len as nat);
                        vstd::arithmetic::div_mod::lemma_small_mod(0, span(grain_len as nat));
                        assert(grain@ == sequence_grain(source, count, index as nat));
                    }
                    grains.push(grain);
                    index = index + 1;
                }
            },
            GrainMode::Cloud(grain_len, variation, start_index) => {
                let mut generator = rand::thread_rng();
                let octaves: Vec<i8> = vec![-1, 0, 1];
                let mut index: usize = 0;
                while index < grain_count
                    invariant
                        index <= grain_count,
                        source == audio_buffer@,
                        count == grain_count,
                        start_index < source.len(),
                        grain_len > 0,
                        octaves@ == seq![-1i8, 0i8, 1i8],
                        ids@ == index,
                        grains@.len() == index,
                        forall|k: int|
                            0 <= k < index ==> (#[trigger] grains@[k]).wf() && populates(
                                grains@[k]@,
                                source,
                                count,
                                GrainMode::Cloud(grain_len, variation, start_index),
                                k as nat,
                            ),
                    decreases grain_count - index,
                {
                    let variation_depth: u16 = draw_depth(&mut generator);
                    let octave: i8 = match draw_choice(&mut generator, octaves.as_slice()) {
                        Some(picked) => picked,
                        None => 0,
                    };
                    let reverse: bool = draw_chance(&mut generator, 1, 4);
                    let mut grain = Self::new_member(audio_buffer, &mut ids, grain_count);
                    let _placed = grain.place_in_cloud(
                        grain_len,
                        variation,
                        start_index,
                        variation_depth,
                        12 * octave,
                        reverse,
                    );
                    proof {
                        assert(grain@ == cloud_grain(
                            source,
                            count,
                            grain_len as nat,
                            variation as nat,
                            start_index as nat,
                            index as nat,
                            variation_depth as nat,
                            octave as int,
                            reverse,
                        ));
                    }
                    grains.push(grain);
                    index = index + 1;
                }
            },
            GrainMode::Cascade(lower, upper) => {
                let grain_len: usize = (upper - lower) / grain_count;
                let mut index: usize = 0;
                while index < grain_count
                    invariant
                        index <= grain_count,
                        grain_count > 0,
                        source == audio_buffer@,
                        count == grain_count,
                        lower < upper <= source.len(),
                        grain_len == ((upper - lower) as nat) / count,
                        ids@ == index,
                        grains@.len() == index,
                        forall|k: int|
                            0 <= k < index ==> (#[trigger] grains@[k]).wf() && grains@[k]@
                                == cascade_grain(source, count, lower as nat, upper as nat, k as nat),
                    decreases grain_count - index,
                {
                    proof {
                        lemma_steps_fit((upper - lower) as nat, count, index as nat);
                    }
                    let mut grain = Self::new_member(audio_buffer, &mut ids, grain_count);
                    grain.set_lower_index((index * grain_len) + lower);
                    grain.set_upper_index(upper);
                    grain.set_looping(true);
                    grain.update_smoother();
                    grain.lock_playback();
                    proof {
                        let length = (upper - (lower + index * grain_len)) as nat;
                        lemma_reduced_in_range(0, length);
                        vstd::arithmetic::div_mod::lemma_small_mod(0, span(length));
                        assert(grain@ == cascade_grain(
                            source,
                            count,
                            lower as nat,
                            upper as nat,
                            index as nat,
                        ));
                    }
                    grains.push(grain);
                    index = index + 1;
                }
            },
        }
        self.env.setup();
        self.id_manager = ids;
        self.grains = grains;
        self.grain_count = grain_count;
        self.grain_index = 0;
        self.sample_index = 0;
        self.mode = mode;
        proof {
            assert forall|i: int| 0 <= i < count implies populates(
                #[trigger] self@.grains[i],
                source,
                count,
                mode,
                i as nat,
            ) by {
                assert(self@.grains[i] == self.grains@[i]@);
                assert(self.grains@[i].wf());
            }
            assert(in_place(self@.grains)) by {
                assert forall|i: int| 0 <= i < count implies {
                    &&& (#[trigger] self@.grains[i]).wf()
                    &&& self@.grains[i].id == i
                    &&& self@.grains[i].count == count
                } by {
                    assert(self.grains@[i].wf());
                    assert(populates(self@.grains[i], source, count, mode, i as nat));
                }
            }
        }
        Ok(())
    }

    /// Makes the successor of the active grain the active one and returns
    /// the index of the grain that was active.
    pub fn read_next_grain(&mut self) -> (played: usize)
        requires
            old(self).wf(),
            old(self)@.grains.len() > 0,
        ensures
            final(self).wf(),
            played == old(self)@.active,
            final(self)@ == (ManagerView {
                active: old(self)@.grains[old(self)@.active as int].next_id,
                ..old(self)@
            }),
    {
        let played: usize = self.grain_index;
        proof {
            assert(self@.grains[played as int] == self.grains@[played as int]@);
            assert(self@.grains[played as int].wf());
            lemma_successor_in_collection(self@.grains[played as int]);
        }
        self.grain_index = self.grains[played].next_id();
        proof {
            assert(self@.grains =~= old(self)@.grains);
        }
        played
    }

    /// Transposes every grain by `pitch` semitones: each plays at its own
    /// pitch ratio raised by that many semitones. The transposition builds on
    /// the octave a cloud gave the grain and replaces the global pitch set
    /// before.
    pub fn set_global_pitch(&mut self, pitch: i8)
        requires
            old(self).wf(),
        ensures
            final(self).wf(),
            final(self)@ == (ManagerView {
                global_pitch: pitch as int,
                ..old(self)@.with_each_grain(|grain: GrainView| grain.transposed(pitch as int))
            }),
    {
        self.global_pitch = pitch;
        let count: usize = self.grains.len();
        let ghost before = self.grains@;
        let mut index: usize = 0;
        while index < count
            invariant
                index <= count,
                self.grains@.len() == count,
                before.len() == count,
                self.grain_count == old(self).grain_count,
                self.grain_index == old(self).grain_index,
                self.sample_index == old(self).sample_index,
                self.mode == old(self).mode,
                self.makeup_gain == old(self).makeup_gain,
                self.global_pitch == pitch,
                self.env == old(self).env,
                all_wf(before),
                forall|i: int|
                    0 <= i < index ==> (#[trigger] self.grains@[i]).wf() && self.grains@[i]@
                        == before[i]@.transposed(pitch as int),
                forall|i: int| index <= i < count ==> #[trigger] self.grains@[i] == before[i],
            decreases count - index,
        {
            assert(self.grains@[index as int] == before[index as int]);
            assert(before[index as int].wf());
            self.grains[index].transpose(pitch);
            index = index + 1;
        }
        proof {
            let target = old(self)@.with_each_grain(
                |grain: GrainView| grain.transposed(pitch as int),
            );
            assert(self@.grains =~= target.grains);
            lemma_grains_stay_in_place(before, self.grains@);
        }
    }

    /// Sets the makeup gain, a fixed-point factor.
    pub fn set_makeup_gain(&mut self, gain: u32)
        ensures
            final(self)@ == (ManagerView { makeup_gain: gain as nat, ..old(self)@ }),
            old(self).wf() ==> final(self).wf(),
    {
        self.makeup_gain = gain;
        proof {
            assert(self@.grains =~= old(self)@.grains);
        }
    }

    /// Returns the next sample of the mix and moves everything on by one
    /// tick: a sequence plays its active grain and hands over to the
    /// successor once it has taken as many samples as the grain is long;
    /// the other modes play every grain and average. The envelope gates the
    /// result and moves on once per call.
    pub fn get_next_sample(&mut self) -> (sample: i16)
        requires
            old(self).wf(),
        ensures
            final(self).wf(),
            final(self)@ == old(self)@.stepped(),
            sample == old(self)@.output(),
    {
        let ghost before = self@;
        let ghost grains_before = self.grains@;
        let mixed: i16;
        if self.grains.len() == 0 {
            mixed = 0;
            proof {
                assert(self@.grains =~= before.stepped_grains());
            }
        } else {
            match self.mode {
                GrainMode::Sequence => {
                    let active: usize = self.grain_index;
                    proof {
                        assert(before.grains[active as int] == grains_before[active as int]@);
                        assert(grains_before[active as int].wf());
                        assert(before.grains[active as int].wf());
                        lemma_successor_in_collection(before.grains[active as int]);
                    }
                    let boundary: bool = self.sample_index >= self.grains[active].len() - 1;
                    let raw: i16 = self.grains[active].get_next_sample(true);
                    if !boundary {
                        self.sample_index = self.sample_index + 1;
                        mixed = raw;
                    } else {
                        self.grains[active].set_sample_index(0);
                        self.grain_index = self.grains[active].next_id();
                        self.sample_index = 0;
                        mixed = scale(raw, self.makeup_gain);
                        proof {
                            let length = self.grains@[active as int]@.len();
                            vstd::arithmetic::div_mod::lemma_small_mod(0, span(length));
                        }
                    }
                    proof {
                        assert(self.grains@.len() == grains_before.len());
                        assert forall|i: int| 0 <= i < self.grains@.len() && i != active implies self.grains@[i]
                            == grains_before[i] by {}
                        assert(self@.grains =~= before.stepped_grains()) by {
                            assert forall|i: int| 0 <= i < self@.grains.len() implies self@.grains[i]
                                == before.stepped_grains()[i] by {
                                assert(before.grains[i] == grains_before[i]@);
                            }
                        }
                    }
                },
                _ => {
                    let count: usize = self.grains.len();
                    let total: i128 = play_all(&mut self.grains);
                    proof {
                        assert(grain_views(grains_before) =~= before.grains);
                        lemma_average_in_range(total as int, count as int);
                        assert(self@.grains =~= before.stepped_grains()) by {
                            assert forall|i: int| 0 <= i < self@.grains.len() implies self@.grains[i]
                                == before.stepped_grains()[i] by {
                                assert(before.grains[i] == grains_before[i]@);
                            }
                        }
                    }
                    let average: i16 = (total / (count as i128)) as i16;
                    mixed = scale(average, self.makeup_gain);
                },
            }
        }
        let level: u32 = self.env.get_next_sample();
        proof {
            lemma_grains_stay_in_place(grains_before, self.grains@);
        }
        scale(mixed, level)
    }

    /// Puts every grain under the Hann window over its range, or takes the
    /// window off every grain.
    fn smooth(&mut self, hann: bool)
        requires
            old(self).wf(),
        ensures
            final(self).wf(),
            final(self)@ == old(self)@.with_each_grain(|grain: GrainView| grain.windowed_by(hann)),
    {
        let count: usize = self.grains.len();
        let ghost before = self.grains@;
        let mut index: usize = 0;
        while index < count
            invariant
                index <= count,
                self.grains@.len() == count,
                before.len() == count,
                before == old(self).grains@,
                self.grain_count == old(self).grain_count,
                self.grain_index == old(self).grain_index,
                self.sample_index == old(self).sample_index,
                self.mode == old(self).mode,
                self.makeup_gain == old(self).makeup_gain,
                self.global_pitch == old(self).global_pitch,
                self.env == old(self).env,
                all_wf(before),
                forall|i: int|
                    0 <= i < index ==> (#[trigger] self.grains@[i]).wf() && self.grains@[i]@
                        == before[i]@.windowed_by(hann),
                forall|i: int| index <= i < count ==> #[trigger] self.grains@[i] == before[i],
            decreases count - index,
        {
            assert(self.grains@[index as int] == before[index as int]);
            assert(before[index as int].wf());
            if hann {
                self.grains[index].set_smoothing(Window::Hann(HannSmoother::new()));
            } else {
                self.grains[index].set_smoothing(Window::NoOp(NoSmoother::new()));
            }
            index = index + 1;
        }
        proof {
            let target = old(self)@.with_each_grain(|grain: GrainView| grain.windowed_by(hann));
            assert(self@.grains =~= target.grains);
            lemma_grains_stay_in_place(before, self.grains@);
        }
    }

    /// Puts every grain under the Hann window over its range.
    pub fn set_smoothing(&mut self)
        requires
            old(self).wf(),
        ensures
            final(self).wf(),
            final(self)@ == old(self)@.with_each_grain(|grain: GrainView| grain.windowed_by(true)),
    {
        self.smooth(true);
        proof {
            let target = old(self)@.with_each_grain(|grain: GrainView| grain.windowed_by(true));
            assert(self@.grains =~= target.grains);
        }
    }

    /// Takes the window off every grain.
    pub fn clear_smoothing(&mut self)
        requires
            old(self).wf(),
        ensures
            final(self).wf(),
            final(self)@ == old(self)@.with_each_grain(|grain: GrainView| grain.windowed_by(false)),
    {
        self.smooth(false);
        proof {
            let target = old(self)@.with_each_grain(|grain: GrainView| grain.windowed_by(false));
            assert(self@.grains =~= target.grains);
        }
    }

    /// Sets, for every grain, how much of its window is applied, or whether
    /// it shifts pitch, or both.
    fn configure(&mut self, smooth_factor: Option<u32>, pitch_enable: Option<bool>)
        requires
            old(self).wf(),
        ensures
            final(self).wf(),
            final(self)@ == old(self)@.with_each_grain(
                |grain: GrainView| grain.voiced(smooth_factor, pitch_enable),
            ),
    {
        let count: usize = self.grains.len();
        let ghost before = self.grains@;
        let mut index: usize = 0;
        while index < count
            invariant
                index <= count,
                self.grains@.len() == count,
                before.len() == count,
                before == old(self).grains@,
                self.grain_count == old(self).grain_count,
                self.grain_index == old(self).grain_index,
                self.sample_index == old(self).sample_index,
                self.mode == old(self).mode,
                self.makeup_gain == old(self).makeup_gain,
                self.global_pitch == old(self).global_pitch,
                self.env == old(self).env,
                all_wf(before),
                forall|i: int|
                    0 <= i < index ==> (#[trigger] self.grains@[i]).wf() && self.grains@[i]@
                        == before[i]@.voiced(smooth_factor, pitch_enable),
                forall|i: int| index <= i < count ==> #[trigger] self.grains@[i] == before[i],
            decreases count - index,
        {
            assert(self.grains@[index as int] == before[index as int]);
            assert(before[index as int].wf());
            match smooth_factor {
                Some(factor) => {
                    self.grains[index].set_smooth_factor(factor);
                },
                None => {},
            }
            match pitch_enable {
                Some(on_off) => {
                    self.grains[index].set_pitch_enable(on_off);
                },
                None => {},
            }
            index = index + 1;
        }
        proof {
            let target = old(self)@.with_each_grain(
                |grain: GrainView| grain.voiced(smooth_factor, pitch_enable),
            );
            assert(self@.grains =~= target.grains) by {
                assert forall|i: int| 0 <= i < count implies self@.grains[i] == target.grains[i] by {
                    assert(self.grains@[i].wf());
                    assert(old(self)@.grains[i] == before[i]@);
                }
            }
            lemma_grains_stay_in_place(before, self.grains@);
        }
    }

    /// Sets, for every grain, how much of its window is applied, between 0
    /// and `ONE`; more than `ONE` counts as `ONE`.
    pub fn set_smooth_factor(&mut self, factor: u32)
        requires
            old(self).wf(),
        ensures
            final(self).wf(),
            final(self)@ == old(self)@.with_each_grain(
                |grain: GrainView|
                    GrainView { depth: crate::fixed::capped(factor as int) as nat, ..grain },
            ),
    {
        self.configure(Some(factor), None);
        proof {
            let target = old(self)@.with_each_grain(
                |grain: GrainView|
                    GrainView { depth: crate::fixed::capped(factor as int) as nat, ..grain },
            );
            assert(self@.grains =~= target.grains);
        }
    }

    /// Switches pitch-shifting on or off for every grain.
    pub fn set_pitch_enable(&mut self, on_off: bool)
        requires
            old(self).wf(),
        ensures
            final(self).wf(),
            final(self)@ == old(self)@.with_each_grain(
                |grain: GrainView| GrainView { pitch_enabled: on_off, ..grain },
            ),
    {
        self.configure(None, Some(on_off));
        proof {
            let target = old(self)@.with_each_grain(
                |grain: GrainView| GrainView { pitch_enabled: on_off, ..grain },
            );
            assert(self@.grains =~= target.grains);
        }
    }

    /// The grain at `index`, if the collection reaches that far.
    pub fn grain(&self, index: usize) -> (found: Result<&Grain<'a>, GrainError>)
        requires
            self.wf(),
        ensures
            index >= self@.grains.len() ==> found == Err::<&Grain<'a>, GrainError>(
                GrainError::InvalidIndex,
            ),
            index < self@.grains.len() ==> found.is_ok(),
            found matches Ok(grain) ==> grain.wf() && grain@ == self@.grains[index as int],
    {
        if index >= self.grains.len() {
            Err(GrainError::InvalidIndex)
        } else {
            Ok(&self.grains[index])
        }
    }

    /// The number of grains.
    pub fn grain_count(&self) -> (count: usize)
        requires
            self.wf(),
        ensures
            count == self@.grains.len(),
    {
        self.grain_count
    }

    /// The mode the manager plays in.
    pub fn mode(&self) -> (mode: GrainMode)
        ensures
            mode == self@.mode,
    {
        self.mode
    }

    /// The index of the grain a sequence is playing.
    pub fn active_index(&self) -> (active: usize)
        ensures
            active == self@.active,
    {
        self.grain_index
    }

    /// The envelope that gates the output.
    pub fn envelope(&self) -> (env: &ADSREnvelope)
        ensures
            env@ == self@.envelope,
    {
        &self.env
    }

    /// Sets the shapes of the envelope's stages for the next population.
    pub fn set_curves(
        &mut self,
        attack: crate::envelope::Curve,
        decay: crate::envelope::Curve,
        release: crate::envelope::Curve,
    )
        requires
            old(self).wf(),
            attack.wf(),
            decay.wf(),
            release.wf(),
        ensures
            final(self).wf(),
            final(self)@ == (ManagerView {
                envelope: EnvelopeView {
                    attack_curve: attack.points(),
                    decay_curve: decay.points(),
                    release_curve: release.points(),
                    ..old(self)@.envelope
                },
                ..old(self)@
            }),
    {
        self.env.set_curves(attack, decay, release);
        proof {
            assert(self@.grains =~= old(self)@.grains);
        }
    }

    /// Sets the length of the envelope's attack, in samples, for the next
    /// population.
    pub fn set_attack(&mut self, attack_time: usize)
        requires
            old(self).wf(),
        ensures
            final(self).wf(),
            final(self)@ == (ManagerView {
                envelope: EnvelopeView {
                    attack_time: attack_time as nat,
                    decay_time: if attack_time + old(self)@.envelope.decay_time > usize::MAX {
                        (usize::MAX - attack_time) as nat
                    } else {
                        old(self)@.envelope.decay_time
                    },
                    ..old(self)@.envelope
                },
                ..old(self)@
            }),
    {
        self.env.set_attack(attack_time);
        proof {
            assert(self@.grains =~= old(self)@.grains);
        }
    }

    /// Sets the length of the envelope's decay, in samples, for the next
    /// population.
    pub fn set_decay(&mut self, decay_time: usize)
        requires
            old(self).wf(),
        ensures
            final(self).wf(),
            final(self)@ == (ManagerView {
                envelope: EnvelopeView {
                    decay_time: if old(self)@.envelope.attack_time + decay_time > usize::MAX {
                        (usize::MAX - old(self)@.envelope.attack_time) as nat
                    } else {
                        decay_time as nat
                    },
                    ..old(self)@.envelope
                },
                ..old(self)@
            }),
    {
        self.env.set_decay(decay_time);
        proof {
            assert(self@.grains =~= old(self)@.grains);
        }
    }

    /// Sets the envelope's sustain level.
    pub fn set_sustain(&mut self, sustain_level: u32)
        requires
            old(self).wf(),
        ensures
            final(self).wf(),
            final(self)@ == (ManagerView {
                envelope: EnvelopeView {
                    sustain_level: crate::fixed::capped(sustain_level as int) as nat,
                    ..old(self)@.envelope
                },
                ..old(self)@
            }),
    {
        self.env.set_sustain(sustain_level);
        proof {
            assert(self@.grains =~= old(self)@.grains);
        }
    }

    /// Sets the length of the envelope's release, in samples, for the next
    /// population.
    pub fn set_release(&mut self, release_time: usize)
        requires
            old(self).wf(),
        ensures
            final(self).wf(),
            final(self)@ == (ManagerView {
                envelope: EnvelopeView {
                    release_time: release_time as nat,
                    ..old(self)@.envelope
                },
                ..old(self)@
            }),
    {
        self.env.set_release(release_time);
        proof {
            assert(self@.grains =~= old(self)@.grains);
        }
    }

    /// Switches the envelope's gate.
    pub fn gate_trigger(&mut self, on_off: bool)
        ensures
            final(self)@ == (ManagerView {
                envelope: old(self)@.envelope.triggered(on_off),
                ..old(self)@
            }),
            old(self).wf() ==> final(self).wf(),
    {
        self.env.trigger_gate(on_off);
        proof {
            assert(self@.grains =~= old(self)@.grains);
        }
    }
}

/// The successor of a well-formed grain lies inside its collection.
pub proof fn lemma_successor_in_collection(grain: GrainView)
    requires
        grain.wf(),
    ensures
        grain.next_id < grain.count,
        grain.stepped().next_id == grain.next_id,
{
    if !grain.looping {
        vstd::arithmetic::div_mod::lemma_mod_bound((grain.id + 1) as int, grain.count as int);
    }
}

/// The `i`-th of `count` equal slices of `len` samples lies inside them.
pub proof fn lemma_slices_fit(len: nat, count: nat, i: nat)
    requires
        i < count,
        len / count > 0,
    ensures
        i * (len / count) < (i + 1) * (len / count) <= len,
        (i + 1) * (len / count) == i * (len / count) + len / count,
{
    let step = len / count;
    assert((i + 1) * step == i * step + step) by (nonlinear_arith);
    assert((i + 1) * step <= count * step) by (nonlinear_arith)
        requires
            i + 1 <= count,
            0 <= step,
    ;
    assert(count * step <= len) by (nonlinear_arith)
        requires
            step == len / count,
            count > 0,
    ;
}

/// The `i`-th of `count` equal steps into a span of `width` samples starts
/// before the span ends.
pub proof fn lemma_steps_fit(width: nat, count: nat, i: nat)
    requires
        i < count,
        width > 0,
    ensures
        0 <= i * (width / count) < width,
{
    let step = width / count;
    assert(i * step <= (count - 1) * step) by (nonlinear_arith)
        requires
            i <= count - 1,
            0 <= step,
    ;
    assert(count * step <= width) by (nonlinear_arith)
        requires
            step == width / count,
            count > 0,
    ;
    assert((count - 1) * step == count * step - step) by (nonlinear_arith);
    if step == 0 {
        assert(i * step == 0) by (nonlinear_arith)
            requires
                step == 0,
        ;
    }
}

} // verus!
