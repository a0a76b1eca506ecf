use granular_plugin::lfo::LFOMode;
use granular_plugin::timing::{NoteModifier, TimeDiv, Timing};

#[test]
fn max_time() {
    println!(
        "{}",
        Timing::new(TimeDiv::Whole, 30, NoteModifier::Dotted).to_samples(44100)
    )
}

#[test]
fn longest_note_lasts_twelve_seconds() {
    assert_eq!(
        Timing::new(TimeDiv::Whole, 30, NoteModifier::Dotted).to_samples(44100),
        529200
    );
}

#[test]
fn divisions_halve_the_bar() {
    let lengths: Vec<usize> = [
        TimeDiv::Whole,
        TimeDiv::Half,
        TimeDiv::Quarter,
        TimeDiv::Eighth,
        TimeDiv::Sixteenth,
    ]
    .into_iter()
    .map(|division| Timing::new(division, 140, NoteModifier::Regular).to_samples(44100))
    .collect();
    assert_eq!(lengths, vec![75600, 37800, 18900, 9450, 4725]);
}

#[test]
fn modifiers_stretch_the_note() {
    let quarter = |modifier| Timing::new(TimeDiv::Quarter, 120, modifier).to_samples(48000);
    assert_eq!(quarter(NoteModifier::Regular), 24000);
    assert_eq!(quarter(NoteModifier::Dotted), 36000);
    assert_eq!(quarter(NoteModifier::Triplet), 16000);
    assert_eq!(
        Timing::new(TimeDiv::Sixteenth, 7, NoteModifier::Triplet).to_samples(1000),
        1428
    );
}

#[test]
fn tempo_of_zero_or_less_has_no_finite_length() {
    assert_eq!(
        Timing::new(TimeDiv::Quarter, 0, NoteModifier::Regular).to_samples(44100),
        usize::MAX
    );
    assert_eq!(
        Timing::new(TimeDiv::Quarter, 0, NoteModifier::Regular).to_samples(0),
        0
    );
    assert_eq!(
        Timing::new(TimeDiv::Quarter, -120, NoteModifier::Regular).to_samples(44100),
        0
    );
    assert_eq!(
        Timing::new(TimeDiv::Quarter, 120, NoteModifier::Regular).to_samples(0),
        0
    );
}

#[test]
fn timing_keeps_what_it_is_given() {
    let mut timing = Timing::default();
    assert!(timing.division() == TimeDiv::Quarter);
    assert_eq!(timing.bpm(), 120);
    assert!(timing.modifier() == NoteModifier::Regular);
    timing.set_division(TimeDiv::Eighth);
    timing.set_bpm(90);
    timing.set_modifier(NoteModifier::Triplet);
    assert!(timing.division() == TimeDiv::Eighth);
    assert_eq!(timing.bpm(), 90);
    assert!(timing.modifier() == NoteModifier::Triplet);
    let copy = timing.clone();
    assert_eq!(copy.to_samples(44100), timing.to_samples(44100));
    assert!(TimeDiv::default() == TimeDiv::Quarter);
    assert!(NoteModifier::default() == NoteModifier::Regular);
}

#[test]
fn sine_is_the_default_waveform() {
    assert_eq!(LFOMode::default(), LFOMode::Sine);
    assert_ne!(LFOMode::Triangle, LFOMode::Square);
}
