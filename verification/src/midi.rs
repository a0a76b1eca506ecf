//! Note events: a pitch, named the way musicians name it, that lasts for a
//! number of samples, and a manager that holds the event in force and tells
//! how far its pitch lies from middle C.
use vstd::prelude::*;
use vstd::string::StrSliceExecFns;
use crate::resample::{semitone_ratio, semitone_to_hz_ratio};

verus! {

/// Whether `c` is a note letter, `A` to `G` in either case.
pub open spec fn is_note_letter(c: char) -> bool {
    65 <= c as u32 <= 71 || 97 <= c as u32 <= 103
}

/// Whether `c` is a sharp or a flat sign.
pub open spec fn is_accidental(c: char) -> bool {
    c == '#' || c == 'b'
}

/// Whether `c` is an octave number, `0` to `8`.
pub open spec fn is_octave(c: char) -> bool {
    48 <= c as u32 <= 56
}

/// Whether `name` names a note: a letter, at most one accidental, and an
/// octave number.
pub open spec fn valid_note_name(name: Seq<char>) -> bool {
    ||| name.len() == 2 && is_note_letter(name[0]) && is_octave(name[1])
    ||| name.len() == 3 && is_note_letter(name[0]) && is_accidental(name[1]) && is_octave(name[2])
}

/// The semitones from A to the plain note of a letter within one octave
/// number, which runs from C up to B.
pub open spec fn letter_offset(c: char) -> int {
    let upper = if c as u32 >= 97 {
        c as u32 - 32
    } else {
        c as u32 as int
    };
    if upper == 65 {
        0
    } else if upper == 66 {
        2
    } else if upper == 67 {
        -9
    } else if upper == 68 {
        -7
    } else if upper == 69 {
        -5
    } else if upper == 70 {
        -4
    } else {
        -2
    }
}

/// The semitones from A to a note with its accidental. A sharp B and a flat
/// C stay inside their octave number: they are its C and its B.
pub open spec fn note_offset(letter: char, accidental: int) -> int {
    let raw = letter_offset(letter) + accidental;
    if raw > 2 {
        raw - 12
    } else if raw < -9 {
        raw + 12
    } else {
        raw
    }
}

/// The MIDI number of a named note: A0 is 21, and each octave number adds
/// 12.
pub open spec fn midi_number(name: Seq<char>) -> int {
    let octave = name[name.len() - 1] as u32 - 48;
    let accidental = if name.len() == 2 {
        0int
    } else if name[1] == '#' {
        1int
    } else {
        -1int
    };
    note_offset(name[0], accidental) + 21 + 12 * octave
}

fn letter_semitones(c: char) -> (offset: i8)
    requires
        is_note_letter(c),
    ensures
        offset == letter_offset(c),
{
    let code: u32 = c as u32;
    let upper: u32 = if code >= 97 {
        code - 32
    } else {
        code
    };
    if upper == 65 {
        0
    } else if upper == 66 {
        2
    } else if upper == 67 {
        -9
    } else if upper == 68 {
        -7
    } else if upper == 69 {
        -5
    } else if upper == 70 {
        -4
    } else {
        -2
    }
}

fn note_letter(c: char) -> (is: bool)
    ensures
        is == is_note_letter(c),
{
    let code: u32 = c as u32;
    (65 <= code && code <= 71) || (97 <= code && code <= 103)
}

fn octave_number(c: char) -> (is: bool)
    ensures
        is == is_octave(c),
{
    let code: u32 = c as u32;
    48 <= code && code <= 56
}

/// A note, or none, that lasts for a number of samples.
pub struct NoteMessage {
    note: Option<u8>,
    time: usize,
}

/// The state of a note message.
pub struct NoteView {
    /// The MIDI number of the note, if there is one.
    pub note: Option<u8>,
    /// How long the note lasts, in samples.
    pub time: nat,
}

impl View for NoteMessage {
    type V = NoteView;

    closed spec fn view(&self) -> NoteView {
        NoteView { note: self.note, time: self.time as nat }
    }
}

impl NoteMessage {
    /// A note lies in the range that note names reach.
    #[verifier::type_invariant]
    closed spec fn in_range(self) -> bool {
        self.note matches Some(number) ==> number <= 119
    }

    /// Tells whether `name` names a note: `C5`, `Db6` and `e#4` do; `H2`,
    /// which has no such letter, and `C`, which has no octave, do not.
    pub fn valid_name(name: &str) -> (valid: bool)
        ensures
            valid == valid_note_name(name@),
    {
        let length: usize = name.unicode_len();
        if length == 2 {
            note_letter(name.get_char(0)) && octave_number(name.get_char(1))
        } else if length == 3 {
            let sign: char = name.get_char(1);
            note_letter(name.get_char(0)) && (sign == '#' || sign == 'b') && octave_number(
                name.get_char(2),
            )
        } else {
            false
        }
    }

    /// The MIDI number of a named note. The name must be valid.
    pub fn midi_note_from_name(name: &str) -> (number: u8)
        requires
            valid_note_name(name@),
        ensures
            number == midi_number(name@),
            12 <= number <= 119,
    {
        let length: usize = name.unicode_len();
        let octave: u8 = ((name.get_char(length - 1) as u32 - 48) * 12) as u8;
        let accidental: i8 = if length == 2 {
            0
        } else if name.get_char(1) == '#' {
            1
        } else {
            -1
        };
        let raw: i8 = letter_semitones(name.get_char(0)) + accidental;
        let note: i8 = if raw > 2 {
            raw - 12
        } else if raw < -9 {
            raw + 12
        } else {
            raw
        };
        (note + (21 + octave) as i8) as u8
    }

    /// The named note, lasting `time` samples; none if the name is not
    /// valid.
    pub fn new(name: &str, time: usize) -> (message: Option<Self>)
        ensures
            valid_note_name(name@) <==> message.is_some(),
            message matches Some(m) ==> m@ == (NoteView {
                note: Some(midi_number(name@) as u8),
                time: time as nat,
            }),
    {
        if Self::valid_name(name) {
            Some(Self { note: Some(Self::midi_note_from_name(name)), time })
        } else {
            None
        }
    }

    /// No note, lasting no time: the event that is in force when nothing
    /// sounds.
    pub fn none() -> (message: Self)
        ensures
            message@ == (NoteView { note: None, time: 0 }),
    {
        Self { note: None, time: 0 }
    }

    /// How long the note lasts, in samples.
    pub fn get_time(&self) -> (time: usize)
        ensures
            time == self@.time,
    {
        self.time
    }

    /// The MIDI number of the note, or 0 if there is none.
    pub fn get_note(&self) -> (number: u8)
        ensures
            number == self@.note.unwrap_or(0),
            number <= 119,
    {
        proof {
            use_type_invariant(self);
        }
        match self.note {
            Some(number) => number,
            None => 0,
        }
    }
}

/// The state of a MIDI manager.
pub struct MidiView {
    /// The note in force, if there is one.
    pub note: Option<u8>,
    /// How many more samples the event stays in force.
    pub timer: nat,
}

impl MidiView {
    /// The semitones from middle C, MIDI number 72, to the note in force;
    /// without a note, those to MIDI number 0.
    pub open spec fn semitones(self) -> int {
        self.note.unwrap_or(0) - 72
    }
}

/// Holds the note event in force and counts its time down.
pub struct MidiManager {
    current_event: NoteMessage,
    current_timer: usize,
}

impl View for MidiManager {
    type V = MidiView;

    closed spec fn view(&self) -> MidiView {
        MidiView { note: self.current_event@.note, timer: self.current_timer as nat }
    }
}

impl MidiManager {
    /// A manager with no note in force.
    pub fn new() -> (manager: Self)
        ensures
            manager@ == (MidiView { note: None, timer: 0 }),
    {
        Self { current_event: NoteMessage::none(), current_timer: 0 }
    }

    /// Puts `event` in force for as long as it lasts.
    pub fn set_note_event(&mut self, event: NoteMessage)
        ensures
            final(self)@ == (MidiView { note: event@.note, timer: event@.time }),
    {
        self.current_timer = event.get_time();
        self.current_event = event;
    }

    /// Counts one sample down. The event stays in force while its time
    /// lasts, and one sample more; then no note is in force.
    pub fn tick(&mut self)
        ensures
            old(self)@.timer > 0 ==> final(self)@ == (MidiView {
                timer: (old(self)@.timer - 1) as nat,
                ..old(self)@
            }),
            old(self)@.timer == 0 ==> final(self)@ == (MidiView { note: None, timer: 0 }),
    {
        if self.current_timer == 0 {
            self.current_event = NoteMessage::none();
        } else {
            self.current_timer = self.current_timer - 1;
        }
    }

    /// Whether a note is in force. MIDI number 0 counts as none.
    pub fn get_gate(&self) -> (gate: bool)
        ensures
            gate == (self@.note.unwrap_or(0) != 0),
    {
        self.current_event.get_note() != 0
    }

    /// The pitch ratio from middle C to the note in force.
    pub fn get_ratio(&self) -> (ratio: u32)
        ensures
            ratio == semitone_ratio(self@.semitones()),
    {
        semitone_to_hz_ratio(self.get_semitones())
    }

    /// The semitones from middle C to the note in force.
    pub fn get_semitones(&self) -> (semitones: i8)
        ensures
            semitones == self@.semitones(),
    {
        let note: i8 = self.current_event.get_note() as i8;
        note - 72
    }
}

} // verus!
