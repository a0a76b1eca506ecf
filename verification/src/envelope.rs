//! The amplitude envelope that gates the engine's output: attack and decay
//! toward a sustain level while its gate is held, release toward silence once
//! it is let go.
//!
//! Levels are fixed-point numbers between 0 and `ONE`, stage lengths are
//! counted in samples. A stage follows a `Curve`: a shape that rises from 0
//! toward `ONE`, linear unless the caller hands in a sampled one.
use vstd::prelude::*;
use crate::fixed::{capped, ONE};

verus! {

/// How far the level at which release resumes may lie from the level at which
/// the held stage was cut off: 0.01.
pub const MAX_DELTA: u32 = 655;

/// Whether a sampled shape never falls.
pub open spec fn rising(points: Seq<u32>) -> bool {
    forall|i: int, j: int| 0 <= i <= j < points.len() ==> points[i] <= points[j]
}

/// The value of a shape at `index` of `length`: for a shape without points
/// the straight line `index / length`, otherwise the point at the same
/// relative position, capped at `ONE`.
pub open spec fn shape(points: Seq<u32>, index: int, length: int) -> int {
    if points.len() == 0 {
        (index * ONE) / length
    } else {
        capped(points[(index * points.len()) / length] as int)
    }
}

/// The shape of one envelope stage.
pub struct Curve {
    points: Vec<u32>,
}

/// What makes an envelope configuration unusable.
#[derive(Clone, Copy, Debug, PartialEq, Eq)]
pub enum EnvelopeError {
    /// A sampled shape falls somewhere, so the stage built from it would not
    /// move steadily toward its target.
    NotMonotonic,
    /// A sampled shape does not start at 0, so the stage built from it would
    /// not start where the stage before it ends.
    NotFromZero,
}

/// Whether a sampled shape starts at 0, as every stage shape does.
pub open spec fn grounded(points: Seq<u32>) -> bool {
    points.len() > 0 ==> points[0] == 0
}

/// Why a sampled shape cannot serve, if it cannot.
pub open spec fn shape_error(points: Seq<u32>) -> Option<EnvelopeError> {
    if !rising(points) {
        Some(EnvelopeError::NotMonotonic)
    } else if !grounded(points) {
        Some(EnvelopeError::NotFromZero)
    } else {
        None
    }
}

impl Curve {
    /// The sampled points; none for the straight line.
    pub closed spec fn points(&self) -> Seq<u32> {
        self.points@
    }

    /// The shape never falls.
    pub open spec fn wf(&self) -> bool {
        rising(self.points()) && grounded(self.points())
    }

    /// The straight line from 0 to `ONE`.
    pub fn linear() -> (curve: Self)
        ensures
            curve.wf(),
            curve.points().len() == 0,
    {
        Self { points: Vec::new() }
    }

    /// The shape through `points`, where `points[k]` is the value at
    /// `k / points.len()` of the way through the stage. A shape that falls
    /// anywhere is refused; one without points is the straight line.
    pub fn sampled(points: Vec<u32>) -> (curve: Result<Self, EnvelopeError>)
        ensures
            shape_error(points@) matches Some(refusal) ==> curve == Err::<Self, EnvelopeError>(
                refusal,
            ),
            shape_error(points@) is None ==> curve.is_ok(),
            curve matches Ok(c) ==> c.wf() && c.points() == points@,
    {
        let mut at: usize = 1;
        while at < points.len()
            invariant
                1 <= at,
                forall|i: int, j: int| 0 <= i <= j < at && j < points.len() ==> points[i] <= points[j],
            decreases points.len() - at,
        {
            if points[at - 1] > points[at] {
                return Err(EnvelopeError::NotMonotonic);
            }
            proof {
                assert forall|i: int, j: int| 0 <= i <= j < at + 1 && j < points.len() implies points[i]
                    <= points[j] by {
                    if j == at && i < at {
                        assert(points[i] <= points[at - 1]);
                    }
                }
            }
            at = at + 1;
        }
        if points.len() > 0 && points[0] != 0 {
            return Err(EnvelopeError::NotFromZero);
        }
        Ok(Self { points })
    }

    /// The value of the shape at `index` of `length`.
    pub fn value(&self, index: usize, length: usize) -> (level: u32)
        requires
            index < length,
        ensures
            level == shape(self.points(), index as int, length as int),
            level <= ONE,
    {
        let at: u128 = index as u128;
        let span: u128 = length as u128;
        if self.points.len() == 0 {
            proof {
                lemma_line(index as int, length as int);
            }
            ((at * 65536) / span) as u32
        } else {
            let count: u128 = self.points.len() as u128;
            proof {
                lemma_stretched_index(at as int, count as int, span as int);
            }
            let point: usize = ((at * count) / span) as usize;
            let level: u32 = self.points[point];
            if level > ONE {
                ONE
            } else {
                level
            }
        }
    }
}

/// Scaling an index below `span` onto `points` curve points stays below
/// `points`, and the product fits 128 bits.
pub proof fn lemma_stretched_index(index: int, points: int, span: int)
    requires
        0 <= index < span,
        0 < points,
        span <= usize::MAX,
        points <= usize::MAX,
    ensures
        0 <= index * points <= u128::MAX,
        0 <= (index * points) / span < points,
        (index * points) / span <= usize::MAX,
{
    assert(0 <= index * points <= 0xFFFF_FFFF_FFFF_FFFF * 0xFFFF_FFFF_FFFF_FFFF) by (nonlinear_arith)
        requires
            0 <= index <= 0xFFFF_FFFF_FFFF_FFFF,
            0 <= points <= 0xFFFF_FFFF_FFFF_FFFF,
    ;
    assert(0 <= (index * points) / span < points) by (nonlinear_arith)
        requires
            0 <= index < span,
            0 < points,
    ;
}

/// The straight line stays below `ONE` inside the stage.
pub proof fn lemma_line(index: int, length: int)
    requires
        0 <= index < length,
        length <= usize::MAX,
    ensures
        0 <= index * ONE <= u128::MAX,
        0 <= (index * ONE) / length < ONE,
{
    assert(0 <= index * 65536 <= 0xFFFF_FFFF_FFFF_FFFF * 65536) by (nonlinear_arith)
        requires
            0 <= index <= 0xFFFF_FFFF_FFFF_FFFF,
    ;
    assert(0 <= (index * 65536) / length < 65536) by (nonlinear_arith)
        requires
            0 <= index < length,
    ;
}

/// A rising shape gives values that never fall along the stage and never
/// exceed `ONE`.
pub proof fn lemma_shape_rises(points: Seq<u32>, i: int, j: int, length: int)
    requires
        rising(points),
        0 <= i <= j < length,
    ensures
        0 <= shape(points, i, length) <= shape(points, j, length) <= ONE,
{
    if points.len() == 0 {
        assert(0 <= (i * 65536) / length <= (j * 65536) / length < 65536) by (nonlinear_arith)
            requires
                0 <= i <= j < length,
        ;
    } else {
        let n = points.len() as int;
        assert(0 <= (i * n) / length <= (j * n) / length < n) by (nonlinear_arith)
            requires
                0 <= i <= j < length,
                0 < n,
        ;
    }
}

/// Whether every entry of a table is a level: at most `ONE`.
pub open spec fn levels(table: Seq<u32>) -> bool {
    forall|i: int| 0 <= i < table.len() ==> table[i] <= ONE
}

/// Whether a table never rises.
pub open spec fn falling(table: Seq<u32>) -> bool {
    forall|i: int, j: int| 0 <= i <= j < table.len() ==> table[i] >= table[j]
}

/// The first index whose entry is at most `bound`; the table's length if
/// there is none.
pub open spec fn first_at_most(table: Seq<u32>, bound: int) -> nat
    decreases table.len(),
{
    if table.len() == 0 || table[0] <= bound {
        0
    } else {
        1 + first_at_most(table.drop_first(), bound)
    }
}

/// Where release resumes after a held stage was cut off at `amplitude`: at
/// the start if the amplitude is above the sustain level, else at the first
/// entry that is no louder than the amplitude plus `MAX_DELTA`. In a falling
/// table that is the entry within `MAX_DELTA` of the amplitude, if there is
/// one.
pub open spec fn matching_index(release: Seq<u32>, amplitude: nat, sustain_level: nat) -> nat {
    if amplitude > sustain_level {
        0
    } else {
        first_at_most(release, amplitude + MAX_DELTA)
    }
}

/// Where an envelope is in its course.
#[derive(Clone, Copy, Debug, PartialEq, Eq)]
pub enum Stage {
    /// Its gate is off and the release has run out: silence.
    Idle,
    /// Its gate is on and the held stage is being read.
    AttackDecay,
    /// Its gate is on and the held stage has run out: the sustain level.
    Sustain,
    /// Its gate is off and the release is being read.
    Release,
}

/// The state of an envelope.
pub struct EnvelopeView {
    /// The index of the next table entry to read.
    pub cursor: nat,
    /// The level emitted last.
    pub last_value: nat,
    /// The length of the attack stage, in samples.
    pub attack_time: nat,
    pub attack_curve: Seq<u32>,
    /// The length of the decay stage, in samples.
    pub decay_time: nat,
    pub decay_curve: Seq<u32>,
    /// The level held while its gate stays on.
    pub sustain_level: nat,
    /// The length of the release stage, in samples.
    pub release_time: nat,
    pub release_curve: Seq<u32>,
    /// The attack followed by the decay, as built by the last `setup`.
    pub attack_decay: Seq<u32>,
    /// The release, as built by the last `setup`.
    pub release: Seq<u32>,
    /// Whether the held stage has run to its end since its gate went on.
    pub ad_stage_done: bool,
    pub gate: bool,
}

impl EnvelopeView {
    /// Levels are levels, shapes rise, the release never rises, and the held
    /// stage fits the address space.
    pub open spec fn wf(self) -> bool {
        &&& self.cursor <= usize::MAX
        &&& self.last_value <= ONE
        &&& self.sustain_level <= ONE
        &&& self.attack_time + self.decay_time <= usize::MAX
        &&& self.release_time <= usize::MAX
        &&& rising(self.attack_curve) && grounded(self.attack_curve)
        &&& rising(self.decay_curve) && grounded(self.decay_curve)
        &&& rising(self.release_curve) && grounded(self.release_curve)
        &&& levels(self.attack_decay)
        &&& levels(self.release)
        &&& falling(self.release)
    }

    /// Entry `i` of the held stage that the parameters describe: the attack
    /// shape as it is, then the decay shape turned over and rescaled to fall
    /// from `ONE` to the sustain level.
    pub open spec fn attack_decay_entry(self, i: int) -> int {
        if i < self.attack_time {
            shape(self.attack_curve, i, self.attack_time as int)
        } else {
            ONE - ((ONE - self.sustain_level) * shape(
                self.decay_curve,
                i - self.attack_time,
                self.decay_time as int,
            )) / (ONE as int)
        }
    }

    /// Entry `i` of the release that the parameters describe: the release
    /// shape turned over and rescaled to fall from the sustain level to 0.
    pub open spec fn release_entry(self, i: int) -> int {
        self.sustain_level - (self.sustain_level * shape(
            self.release_curve,
            i,
            self.release_time as int,
        )) / (ONE as int)
    }

    /// The held stage that the parameters describe.
    pub open spec fn attack_decay_table(self) -> Seq<u32> {
        Seq::new(self.attack_time + self.decay_time, |i: int| self.attack_decay_entry(i) as u32)
    }

    /// The release that the parameters describe.
    pub open spec fn release_table(self) -> Seq<u32> {
        Seq::new(self.release_time, |i: int| self.release_entry(i) as u32)
    }

    /// The state after the tables were built anew from the parameters.
    pub open spec fn rebuilt(self) -> EnvelopeView {
        EnvelopeView {
            attack_decay: self.attack_decay_table(),
            release: self.release_table(),
            ..self
        }
    }

    /// The state after its gate was switched: the cursor starts over, and
    /// switching on opens a new held stage.
    pub open spec fn triggered(self, on_off: bool) -> EnvelopeView {
        EnvelopeView {
            cursor: 0,
            ad_stage_done: if on_off {
                false
            } else {
                self.ad_stage_done
            },
            gate: on_off,
            ..self
        }
    }

    /// Whether the held stage has nothing left to read.
    pub open spec fn held_stage_exhausted(self) -> bool {
        self.cursor >= self.attack_decay.len()
    }

    /// The index the next level is read at: the cursor, but for the first
    /// sample after a held stage was cut off, where release resumes at the
    /// level it was cut off at.
    pub open spec fn read_index(self) -> nat {
        if !self.gate && !self.ad_stage_done {
            matching_index(self.release, self.last_value, self.sustain_level)
        } else {
            self.cursor
        }
    }

    /// The stage the next level comes from.
    pub open spec fn stage(self) -> Stage {
        if self.gate {
            if self.held_stage_exhausted() {
                Stage::Sustain
            } else {
                Stage::AttackDecay
            }
        } else if self.read_index() + 1 >= self.release.len() {
            Stage::Idle
        } else {
            Stage::Release
        }
    }

    /// The next level.
    pub open spec fn level(self) -> nat {
        if self.gate {
            if self.held_stage_exhausted() {
                self.sustain_level
            } else {
                self.attack_decay[self.cursor as int] as nat
            }
        } else if self.read_index() + 1 >= self.release.len() {
            0
        } else {
            self.release[self.read_index() as int] as nat
        }
    }

    /// The state after the next level was read.
    pub open spec fn stepped(self) -> EnvelopeView {
        EnvelopeView {
            cursor: if self.read_index() < usize::MAX {
                self.read_index() + 1
            } else {
                self.read_index()
            },
            last_value: self.level(),
            ad_stage_done: if self.gate {
                self.ad_stage_done || self.held_stage_exhausted()
            } else {
                true
            },
            ..self
        }
    }
}

/// A four-stage attack, decay, sustain and release envelope, driven by a
/// gate.
pub struct ADSREnvelope {
    current_index: usize,
    last_value: u32,
    attack_time: usize,
    attack_curve: Curve,
    decay_time: usize,
    decay_curve: Curve,
    sustain_level: u32,
    release_time: usize,
    release_curve: Curve,
    ad_discrete: Vec<u32>,
    r_discrete: Vec<u32>,
    finished_ad_stage: bool,
    gate: bool,
}

impl View for ADSREnvelope {
    type V = EnvelopeView;

    closed spec fn view(&self) -> EnvelopeView {
        EnvelopeView {
            cursor: self.current_index as nat,
            last_value: self.last_value as nat,
            attack_time: self.attack_time as nat,
            attack_curve: self.attack_curve.points(),
            decay_time: self.decay_time as nat,
            decay_curve: self.decay_curve.points(),
            sustain_level: self.sustain_level as nat,
            release_time: self.release_time as nat,
            release_curve: self.release_curve.points(),
            attack_decay: self.ad_discrete@,
            release: self.r_discrete@,
            ad_stage_done: self.finished_ad_stage,
            gate: self.gate,
        }
    }
}

impl ADSREnvelope {
    /// An idle envelope with straight-line stages of the given lengths in
    /// samples. A sustain level above `ONE` counts as `ONE`; a decay too long
    /// to fit the address space together with the attack is cut to fit. The
    /// tables are empty until `setup` builds them.
    pub fn new(attack_time: usize, decay_time: usize, sustain_level: u32, release_time: usize) -> (env:
        Self)
        ensures
            env@.wf(),
            env@ == (EnvelopeView {
                cursor: 0,
                last_value: 0,
                attack_time: attack_time as nat,
                attack_curve: Seq::<u32>::empty(),
                decay_time: if attack_time + decay_time > usize::MAX {
                    (usize::MAX - attack_time) as nat
                } else {
                    decay_time as nat
                },
                decay_curve: Seq::<u32>::empty(),
                sustain_level: capped(sustain_level as int) as nat,
                release_time: release_time as nat,
                release_curve: Seq::<u32>::empty(),
                attack_decay: Seq::<u32>::empty(),
                release: Seq::<u32>::empty(),
                ad_stage_done: false,
                gate: false,
            }),
    {
        let room: usize = usize::MAX - attack_time;
        let env = Self {
            current_index: 0,
            last_value: 0,
            attack_time,
            attack_curve: Curve::linear(),
            decay_time: if decay_time > room { room } else { decay_time },
            decay_curve: Curve::linear(),
            sustain_level: if sustain_level > ONE { ONE } else { sustain_level },
            release_time,
            release_curve: Curve::linear(),
            ad_discrete: Vec::new(),
            r_discrete: Vec::new(),
            finished_ad_stage: false,
            gate: false,
        };
        proof {
            assert(env@.attack_curve =~= Seq::<u32>::empty());
            assert(env@.decay_curve =~= Seq::<u32>::empty());
            assert(env@.release_curve =~= Seq::<u32>::empty());
        }
        env
    }

    /// Builds the tables of the held stage and of the release from the stage
    /// lengths, shapes and sustain level, replacing the tables built before.
    pub fn setup(&mut self)
        requires
            old(self)@.wf(),
        ensures
            final(self)@.wf(),
            final(self)@ == old(self)@.rebuilt(),
    {
        let ghost v = self@;
        let sustain: u64 = self.sustain_level as u64;
        let mut held: Vec<u32> = Vec::new();
        let mut i: usize = 0;
        while i < self.attack_time
            invariant
                i <= self.attack_time,
                self@ == v,
                v.wf(),
                held@.len() == i,
                forall|k: int| 0 <= k < i ==> held@[k] == v.attack_decay_entry(k) as u32,
            decreases self.attack_time - i,
        {
            let level: u32 = self.attack_curve.value(i, self.attack_time);
            held.push(level);
            i = i + 1;
        }
        let mut j: usize = 0;
        while j < self.decay_time
            invariant
                j <= self.decay_time,
                self@ == v,
                v.wf(),
                sustain == v.sustain_level,
                held@.len() == v.attack_time + j,
                forall|k: int| 0 <= k < v.attack_time + j ==> held@[k] == v.attack_decay_entry(k) as u32,
            decreases self.decay_time - j,
        {
            let along: u64 = self.decay_curve.value(j, self.decay_time) as u64;
            assert((65536 - sustain) * along <= 65536 * 65536) by (nonlinear_arith)
                requires
                    sustain <= 65536,
                    along <= 65536,
            ;
            let drop: u64 = ((65536 - sustain) * along) / 65536;
            held.push((65536 - drop) as u32);
            j = j + 1;
        }
        let mut release: Vec<u32> = Vec::new();
        let mut k: usize = 0;
        while k < self.release_time
            invariant
                k <= self.release_time,
                self@ == v,
                v.wf(),
                sustain == v.sustain_level,
                release@.len() == k,
                forall|n: int| 0 <= n < k ==> release@[n] == v.release_entry(n) as u32,
            decreases self.release_time - k,
        {
            let along: u64 = self.release_curve.value(k, self.release_time) as u64;
            assert(sustain * along <= sustain * 65536) by (nonlinear_arith)
                requires
                    along <= 65536,
            ;
            let fall: u64 = (sustain * along) / 65536;
            release.push((sustain - fall) as u32);
            k = k + 1;
        }
        proof {
            assert(held@ =~= v.attack_decay_table());
            assert(release@ =~= v.release_table());
            lemma_tables_wf(v);
        }
        self.ad_discrete = held;
        self.r_discrete = release;
    }

    /// Sets the length of the attack stage, in samples, for the next
    /// `setup`. The decay is cut where the two no longer fit the address
    /// space together.
    pub fn set_attack(&mut self, attack_time: usize)
        requires
            old(self)@.wf(),
        ensures
            final(self)@.wf(),
            final(self)@ == (EnvelopeView {
                attack_time: attack_time as nat,
                decay_time: if attack_time + old(self)@.decay_time > usize::MAX {
                    (usize::MAX - attack_time) as nat
                } else {
                    old(self)@.decay_time
                },
                ..old(self)@
            }),
    {
        let room: usize = usize::MAX - attack_time;
        self.attack_time = attack_time;
        if self.decay_time > room {
            self.decay_time = room;
        }
    }

    /// Sets the length of the decay stage, in samples, for the next `setup`;
    /// it is cut where it no longer fits the address space together with the
    /// attack.
    pub fn set_decay(&mut self, decay_time: usize)
        requires
            old(self)@.wf(),
        ensures
            final(self)@.wf(),
            final(self)@ == (EnvelopeView {
                decay_time: if old(self)@.attack_time + decay_time > usize::MAX {
                    (usize::MAX - old(self)@.attack_time) as nat
                } else {
                    decay_time as nat
                },
                ..old(self)@
            }),
    {
        let room: usize = usize::MAX - self.attack_time;
        self.decay_time = if decay_time > room {
            room
        } else {
            decay_time
        };
    }

    /// Sets the sustain level, for the held gate at once and for the tables
    /// at the next `setup`; more than `ONE` counts as `ONE`.
    pub fn set_sustain(&mut self, sustain_level: u32)
        requires
            old(self)@.wf(),
        ensures
            final(self)@.wf(),
            final(self)@ == (EnvelopeView {
                sustain_level: capped(sustain_level as int) as nat,
                ..old(self)@
            }),
    {
        self.sustain_level = if sustain_level > ONE {
            ONE
        } else {
            sustain_level
        };
    }

    /// Sets the length of the release stage, in samples, for the next
    /// `setup`.
    pub fn set_release(&mut self, release_time: usize)
        requires
            old(self)@.wf(),
        ensures
            final(self)@.wf(),
            final(self)@ == (EnvelopeView { release_time: release_time as nat, ..old(self)@ }),
    {
        self.release_time = release_time;
    }

    /// Sets the shapes of the three stages for the next `setup`.
    pub fn set_curves(&mut self, attack: Curve, decay: Curve, release: Curve)
        requires
            old(self)@.wf(),
            attack.wf(),
            decay.wf(),
            release.wf(),
        ensures
            final(self)@.wf(),
            final(self)@ == (EnvelopeView {
                attack_curve: attack.points(),
                decay_curve: decay.points(),
                release_curve: release.points(),
                ..old(self)@
            }),
    {
        self.attack_curve = attack;
        self.decay_curve = decay;
        self.release_curve = release;
    }

    /// The stage the next level comes from.
    pub fn stage(&self) -> (stage: Stage)
        requires
            self@.wf(),
        ensures
            stage == self@.stage(),
    {
        if self.gate {
            if self.current_index >= self.ad_discrete.len() {
                Stage::Sustain
            } else {
                Stage::AttackDecay
            }
        } else {
            let index: usize = if self.finished_ad_stage {
                self.current_index
            } else {
                self.find_same_amp_release(self.last_value)
            };
            if self.r_discrete.len() == 0 || index >= self.r_discrete.len() - 1 {
                Stage::Idle
            } else {
                Stage::Release
            }
        }
    }

    /// The level emitted last.
    pub fn last_value(&self) -> (level: u32)
        ensures
            level == self@.last_value,
    {
        self.last_value
    }

    /// The level held while its gate stays on.
    pub fn sustain_level(&self) -> (level: u32)
        ensures
            level == self@.sustain_level,
    {
        self.sustain_level
    }

    /// Whether its gate is on.
    pub fn gate(&self) -> (on: bool)
        ensures
            on == self@.gate,
    {
        self.gate
    }

    /// The number of entries in the table of the held stage.
    pub fn attack_decay_len(&self) -> (length: usize)
        ensures
            length == self@.attack_decay.len(),
    {
        self.ad_discrete.len()
    }

    /// The number of entries in the release table.
    pub fn release_len(&self) -> (length: usize)
        ensures
            length == self@.release.len(),
    {
        self.r_discrete.len()
    }

    /// Switches its gate and starts the cursor over. Switching on opens a new
    /// held stage; switching off lets the release begin.
    pub fn trigger_gate(&mut self, on_off: bool)
        ensures
            final(self)@ == old(self)@.triggered(on_off),
            old(self)@.wf() ==> final(self)@.wf(),
    {
        self.current_index = 0;
        if on_off {
            self.finished_ad_stage = false;
        }
        self.gate = on_off;
    }

    /// Finds where in the release table to resume after the held stage was
    /// cut off at `amplitude`, by bisecting the table on its values.
    pub fn find_same_amp_release(&self, amplitude: u32) -> (index: usize)
        requires
            self@.wf(),
        ensures
            index == matching_index(self@.release, amplitude as nat, self@.sustain_level),
            index <= self@.release.len(),
    {
        if amplitude > self.sustain_level {
            return 0;
        }
        let bound: u64 = amplitude as u64 + MAX_DELTA as u64;
        let mut lower: usize = 0;
        let mut upper: usize = self.r_discrete.len();
        while lower < upper
            invariant
                lower <= upper <= self.r_discrete@.len(),
                falling(self.r_discrete@),
                forall|i: int| 0 <= i < lower ==> self.r_discrete@[i] > bound,
                forall|i: int| upper <= i < self.r_discrete@.len() ==> self.r_discrete@[i] <= bound,
            decreases upper - lower,
        {
            let mid: usize = lower + (upper - lower) / 2;
            if self.r_discrete[mid] as u64 <= bound {
                upper = mid;
            } else {
                lower = mid + 1;
            }
        }
        proof {
            lemma_first_at_most(self.r_discrete@, bound as int, lower as nat);
        }
        lower
    }

    /// Returns the next level and moves on. While its gate is on, the held
    /// stage is read in order and then the sustain level is held; once the
    /// gate is off, the release is read, from the matching level if the held
    /// stage was cut off, and then silence is held.
    pub fn get_next_sample(&mut self) -> (level: u32)
        requires
            old(self)@.wf(),
        ensures
            final(self)@.wf(),
            final(self)@ == old(self)@.stepped(),
            level == old(self)@.level(),
            level <= ONE,
    {
        let value: u32;
        if self.gate {
            if self.current_index >= self.ad_discrete.len() {
                self.finished_ad_stage = true;
                value = self.sustain_level;
            } else {
                value = self.ad_discrete[self.current_index];
            }
        } else {
            if !self.finished_ad_stage {
                self.current_index = self.find_same_amp_release(self.last_value);
                self.finished_ad_stage = true;
            }
            if self.r_discrete.len() == 0 || self.current_index >= self.r_discrete.len() - 1 {
                value = 0;
            } else {
                value = self.r_discrete[self.current_index];
            }
        }
        if self.current_index < usize::MAX {
            self.current_index = self.current_index + 1;
        }
        self.last_value = value;
        value
    }
}

/// An index that every earlier entry is above `bound` at, and that is the
/// table's end or holds an entry at most `bound`, is the first such index.
pub proof fn lemma_first_at_most(table: Seq<u32>, bound: int, index: nat)
    requires
        index <= table.len(),
        forall|i: int| 0 <= i < index ==> table[i] > bound,
        index < table.len() ==> table[index as int] <= bound,
    ensures
        first_at_most(table, bound) == index,
    decreases index,
{
    if index > 0 {
        let rest = table.drop_first();
        assert forall|i: int| 0 <= i < index - 1 implies rest[i] > bound by {
            assert(rest[i] == table[i + 1]);
        }
        if index < table.len() {
            assert(rest[index - 1] == table[index as int]);
        }
        lemma_first_at_most(rest, bound, (index - 1) as nat);
    }
}

/// The first entry at most `bound` lies inside the table or at its end, with
/// only louder entries before it.
pub proof fn lemma_first_at_most_is_first(table: Seq<u32>, bound: int)
    ensures
        first_at_most(table, bound) <= table.len(),
        forall|i: int| 0 <= i < first_at_most(table, bound) ==> table[i] > bound,
        first_at_most(table, bound) < table.len() ==> table[first_at_most(table, bound) as int]
            <= bound,
    decreases table.len(),
{
    if !(table.len() == 0 || table[0] <= bound) {
        let rest = table.drop_first();
        lemma_first_at_most_is_first(rest, bound);
        assert forall|i: int| 0 <= i < first_at_most(table, bound) implies table[i] > bound by {
            if i > 0 {
                assert(table[i] == rest[i - 1]);
            }
        }
        if first_at_most(table, bound) < table.len() {
            assert(table[first_at_most(table, bound) as int] == rest[first_at_most(rest, bound) as int]);
        }
    }
}

/// The tables built from well-formed parameters hold levels, and the release
/// never rises.
pub proof fn lemma_tables_wf(v: EnvelopeView)
    requires
        v.wf(),
    ensures
        v.rebuilt().wf(),
        forall|i: int| 0 <= i < v.attack_time + v.decay_time ==> 0 <= #[trigger] v.attack_decay_entry(i) <= ONE,
        forall|i: int| 0 <= i < v.release_time ==> 0 <= #[trigger] v.release_entry(i) <= v.sustain_level,
{
    let held = v.attack_decay_table();
    let release = v.release_table();
    assert forall|i: int| 0 <= i < v.attack_time + v.decay_time implies 0 <= #[trigger] v.attack_decay_entry(i) <= ONE by {
        if i < v.attack_time {
            lemma_shape_rises(v.attack_curve, i, i, v.attack_time as int);
        } else {
            lemma_shape_rises(v.decay_curve, i - v.attack_time, i - v.attack_time, v.decay_time as int);
            let along = shape(v.decay_curve, i - v.attack_time, v.decay_time as int);
            let gap = ONE - v.sustain_level;
            assert(0 <= (gap * along) / 65536 <= 65536) by (nonlinear_arith)
                requires
                    0 <= gap <= 65536,
                    0 <= along <= 65536,
            ;
        }
    }
    assert forall|i: int| 0 <= i < v.release_time implies 0 <= #[trigger] v.release_entry(i) <= v.sustain_level by {
        lemma_shape_rises(v.release_curve, i, i, v.release_time as int);
        let along = shape(v.release_curve, i, v.release_time as int);
        let s = v.sustain_level as int;
        assert(0 <= (s * along) / 65536 <= s) by (nonlinear_arith)
            requires
                0 <= s,
                0 <= along <= 65536,
        ;
    }
    assert forall|i: int, j: int| 0 <= i <= j < release.len() implies release[i] >= release[j] by {
        lemma_shape_rises(v.release_curve, i, j, v.release_time as int);
        let early = shape(v.release_curve, i, v.release_time as int);
        let late = shape(v.release_curve, j, v.release_time as int);
        let s = v.sustain_level as int;
        assert((s * early) / 65536 <= (s * late) / 65536) by (nonlinear_arith)
            requires
                0 <= s,
                0 <= early <= late,
        ;
        assert(0 <= v.release_entry(i) <= v.sustain_level);
        assert(0 <= v.release_entry(j) <= v.sustain_level);
    }
    assert forall|i: int| 0 <= i < held.len() implies held[i] <= ONE by {
        assert(0 <= v.attack_decay_entry(i) <= ONE);
    }
    assert forall|i: int| 0 <= i < release.len() implies release[i] <= ONE by {
        assert(0 <= v.release_entry(i) <= v.sustain_level);
    }
}

/// Continuity at a cut-off: when its gate goes off before the held stage has
/// run to its end, and the release table holds, before its last entry, a
/// level within `MAX_DELTA` of the level emitted last, which is not above the
/// sustain level, then the first level of the release is within `MAX_DELTA`
/// of the level emitted last.
pub proof fn lemma_release_continuity(v: EnvelopeView, witness: int)
    requires
        v.wf(),
        !v.ad_stage_done,
        v.last_value <= v.sustain_level,
        0 <= witness,
        witness + 1 < v.release.len(),
        v.last_value - MAX_DELTA <= v.release[witness] <= v.last_value + MAX_DELTA,
    ensures
        v.last_value - MAX_DELTA <= v.triggered(false).level() <= v.last_value + MAX_DELTA,
{
    let bound = v.last_value + MAX_DELTA;
    lemma_first_at_most_is_first(v.release, bound);
    let found = first_at_most(v.release, bound);
    assert(found <= witness) by {
        if found > witness {
            assert(v.release[witness] > bound);
        }
    }
    assert(v.release[found as int] >= v.release[witness]);
    assert(v.triggered(false).read_index() == found);
}

/// A cut-off above the sustain level resumes at the start of the release.
pub proof fn lemma_release_from_above(v: EnvelopeView)
    requires
        v.wf(),
        !v.ad_stage_done,
        v.last_value > v.sustain_level,
        v.release.len() >= 2,
    ensures
        v.triggered(false).level() == v.release[0],
{
}

/// Each stage gives its own level: the held stage and the release read
/// their tables, sustain holds the sustain level, and idle is silent.
pub proof fn lemma_level_by_stage(v: EnvelopeView)
    ensures
        v.stage() == Stage::Idle ==> v.level() == 0,
        v.stage() == Stage::Sustain ==> v.level() == v.sustain_level,
        v.stage() == Stage::AttackDecay ==> v.level() == v.attack_decay[v.cursor as int],
        v.stage() == Stage::Release ==> v.level() == v.release[v.read_index() as int],
{
}

/// Every stage starts where the one before it ends: the attack at 0, the
/// decay at `ONE` and the release at the sustain level.
pub proof fn lemma_stages_start_in_place(v: EnvelopeView)
    requires
        v.wf(),
    ensures
        v.attack_time > 0 ==> v.attack_decay_entry(0) == 0,
        v.decay_time > 0 ==> v.attack_decay_entry(v.attack_time as int) == ONE,
        v.release_time > 0 ==> v.release_entry(0) == v.sustain_level,
{
    let attack = v.attack_time as int;
    let decay = v.decay_time as int;
    let release = v.release_time as int;
    if attack > 0 {
        lemma_shape_starts_at_zero(v.attack_curve, attack);
    }
    if decay > 0 {
        lemma_shape_starts_at_zero(v.decay_curve, decay);
        assert(((ONE - v.sustain_level) * 0) / (ONE as int) == 0) by (nonlinear_arith);
    }
    if release > 0 {
        lemma_shape_starts_at_zero(v.release_curve, release);
        assert(((v.sustain_level as int) * 0) / (ONE as int) == 0) by (nonlinear_arith);
    }
}

/// A shape that starts at 0 is 0 at the start of its stage.
pub proof fn lemma_shape_starts_at_zero(points: Seq<u32>, length: int)
    requires
        grounded(points),
        length > 0,
    ensures
        shape(points, 0, length) == 0,
{
    if points.len() == 0 {
        assert((0int * ONE) / length == 0) by (nonlinear_arith)
            requires
                length > 0,
        ;
    } else {
        assert((0int * points.len()) / length == 0) by (nonlinear_arith)
            requires
                length > 0,
        ;
    }
}

} // verus!
