//! Musical time: the length of a note value at a tempo, counted in samples.
use vstd::prelude::*;

verus! {

/// A note value, as a division of a bar of four beats.
#[derive(Clone, Copy, Default, PartialEq, Eq, Debug)]
pub enum TimeDiv {
    /// A bar.
    Whole,
    /// Half a bar.
    Half,
    /// A quarter of a bar: one beat.
    #[default]
    Quarter,
    /// An eighth of a bar.
    Eighth,
    /// A sixteenth of a bar.
    Sixteenth,
}

/// What is done to the plain length of a note value.
#[non_exhaustive]
#[derive(Clone, Copy, Default, PartialEq, Eq, Debug)]
pub enum NoteModifier {
    /// The plain length.
    #[default]
    Regular,
    /// One and a half times the plain length.
    Dotted,
    /// Two thirds of the plain length.
    Triplet,
}

/// How many of a note value make a bar.
pub open spec fn per_bar(division: TimeDiv) -> int {
    match division {
        TimeDiv::Whole => 1,
        TimeDiv::Half => 2,
        TimeDiv::Quarter => 4,
        TimeDiv::Eighth => 8,
        TimeDiv::Sixteenth => 16,
    }
}

/// The numerator of the factor a modifier applies.
pub open spec fn stretch_numerator(modifier: NoteModifier) -> int {
    match modifier {
        NoteModifier::Regular => 1,
        NoteModifier::Dotted => 3,
        NoteModifier::Triplet => 2,
    }
}

/// The denominator of the factor a modifier applies.
pub open spec fn stretch_denominator(modifier: NoteModifier) -> int {
    match modifier {
        NoteModifier::Regular => 1,
        NoteModifier::Dotted => 2,
        NoteModifier::Triplet => 3,
    }
}

/// The whole samples a note lasts at `sample_rate` samples per second. A bar
/// of four beats lasts `240 / bpm` seconds; the note is its division of the
/// bar, stretched by its modifier. At a tempo of zero every note is endless,
/// unless the sample rate is zero too; at a negative tempo no note has any
/// length. A length beyond the address space counts as the largest there is.
pub open spec fn note_samples(division: TimeDiv, bpm: int, modifier: NoteModifier, sample_rate: nat) -> int {
    if bpm < 0 || sample_rate == 0 {
        0
    } else if bpm == 0 {
        usize::MAX as int
    } else {
        let exact = (240 * sample_rate * stretch_numerator(modifier)) / (bpm * per_bar(division)
            * stretch_denominator(modifier));
        if exact > usize::MAX {
            usize::MAX as int
        } else {
            exact
        }
    }
}

/// The state of a `Timing`.
pub struct TimingView {
    pub division: TimeDiv,
    /// Beats per minute.
    pub bpm: int,
    pub modifier: NoteModifier,
}

/// A note value at a tempo.
#[derive(Clone, Copy)]
pub struct Timing {
    division: TimeDiv,
    bpm: i16,
    modifier: NoteModifier,
}

impl View for Timing {
    type V = TimingView;

    closed spec fn view(&self) -> TimingView {
        TimingView { division: self.division, bpm: self.bpm as int, modifier: self.modifier }
    }
}

impl Timing {
    pub fn new(div: TimeDiv, bpm: i16, modifier: NoteModifier) -> (timing: Self)
        ensures
            timing@ == (TimingView { division: div, bpm: bpm as int, modifier }),
    {
        Self { division: div, bpm, modifier }
    }

    /// The whole samples the note lasts at `sample_rate` samples per second.
    pub fn to_samples(&self, sample_rate: u32) -> (samples: usize)
        ensures
            samples == note_samples(self@.division, self@.bpm, self@.modifier, sample_rate as nat),
    {
        if self.bpm < 0 || sample_rate == 0 {
            return 0;
        }
        if self.bpm == 0 {
            return usize::MAX;
        }
        let divisor: u64 = match self.division {
            TimeDiv::Whole => 1,
            TimeDiv::Half => 2,
            TimeDiv::Quarter => 4,
            TimeDiv::Eighth => 8,
            TimeDiv::Sixteenth => 16,
        };
        let numerator: u64 = match self.modifier {
            NoteModifier::Regular => 1,
            NoteModifier::Dotted => 3,
            NoteModifier::Triplet => 2,
        };
        let denominator: u64 = match self.modifier {
            NoteModifier::Regular => 1,
            NoteModifier::Dotted => 2,
            NoteModifier::Triplet => 3,
        };
        let above: u64 = 240 * (sample_rate as u64) * numerator;
        let below: u64 = (self.bpm as u64) * divisor * denominator;
        let exact: u64 = above / below;
        if exact > usize::MAX as u64 {
            usize::MAX
        } else {
            exact as usize
        }
    }

    pub fn set_division(&mut self, division: TimeDiv)
        ensures
            final(self)@ == (TimingView { division, ..old(self)@ }),
    {
        self.division = division;
    }

    pub fn set_bpm(&mut self, bpm: i16)
        ensures
            final(self)@ == (TimingView { bpm: bpm as int, ..old(self)@ }),
    {
        self.bpm = bpm;
    }

    pub fn set_modifier(&mut self, modifier: NoteModifier)
        ensures
            final(self)@ == (TimingView { modifier, ..old(self)@ }),
    {
        self.modifier = modifier;
    }

    pub fn division(&self) -> (division: TimeDiv)
        ensures
            division == self@.division,
    {
        self.division
    }

    pub fn bpm(&self) -> (bpm: i16)
        ensures
            bpm == self@.bpm,
    {
        self.bpm
    }

    pub fn modifier(&self) -> (modifier: NoteModifier)
        ensures
            modifier == self@.modifier,
    {
        self.modifier
    }
}

impl Default for Timing {
    /// A plain quarter note at 120 beats per minute.
    fn default() -> (timing: Self)
        ensures
            timing@ == (TimingView {
                division: TimeDiv::Quarter,
                bpm: 120,
                modifier: NoteModifier::Regular,
            }),
    {
        Self { division: TimeDiv::Quarter, bpm: 120, modifier: NoteModifier::Regular }
    }
}

} // verus!
