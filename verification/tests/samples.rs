use granular_plugin::samples::{interleave, IntSamples, PhonicMode, Samples};

#[test]
fn test_int_new() {
    let samples = IntSamples::new(vec![0, 0, 1, 1, 2, 2, 3, 3, 4, 4, 5, 5]);
    assert_eq!(samples.samples(), [0, 0, 1, 1, 2, 2, 3, 3, 4, 4, 5, 5])
}

#[test]
fn test_int_from_mono() {
    let samples = IntSamples::from_mono(&[0, 1, 2, 3, 4, 5]);
    assert_eq!(samples.samples(), [0, 0, 1, 1, 2, 2, 3, 3, 4, 4, 5, 5])
}

#[test]
fn test_int_from_stereo() {
    let samples = IntSamples::from_stereo(&[0, 1, 2, 3, 4, 5], &[0, 1, 2, 3, 4, 5]);
    assert_eq!(samples.samples(), [0, 0, 1, 1, 2, 2, 3, 3, 4, 4, 5, 5])
}

#[test]
fn test_int_get_frames() {
    let samples = IntSamples::new(vec![0, 0, 1, 1, 2, 2, 3, 3, 4, 4, 5, 5]);
    assert_eq!(
        samples.get_frames(),
        [(0, 0), (1, 1), (2, 2), (3, 3), (4, 4), (5, 5)]
    )
}

#[test]
fn interleave_keeps_left_before_right() {
    let woven = interleave(&[1i16, 3, 5], &[2i16, 4, 6]);
    assert_eq!(woven, vec![1, 2, 3, 4, 5, 6]);
}

#[test]
fn interleave_of_nothing_is_nothing() {
    let left: [i16; 0] = [];
    let right: [i16; 0] = [];
    assert!(interleave(&left, &right).is_empty());
    assert!(IntSamples::from_mono(&left).get_frames().is_empty());
}

#[test]
fn frames_pair_up_two_different_channels() {
    let samples = IntSamples::from_stereo(&[10, 20, 30], &[-1, -2, -3]);
    assert_eq!(samples.get_frames(), [(10, -1), (20, -2), (30, -3)]);
}

#[test]
fn default_samples_are_empty_and_default_mode_is_stereo() {
    assert!(IntSamples::default().samples().is_empty());
    assert!(matches!(PhonicMode::default(), PhonicMode::Stereo));
}
