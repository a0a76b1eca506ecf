use granular_plugin::fixed::ONE;
use granular_plugin::grain::{Grain, GrainError, GrainManager, GrainMode};
use granular_plugin::smoothers::{HannSmoother, NoSmoother, Window};

/// Two interleaved channels of a few seconds of a slowly swelling triangle
/// wave, standing in for a recording.
fn recording() -> Vec<i16> {
    let frames: usize = 44100 * 4;
    let mut samples: Vec<i16> = Vec::with_capacity(frames * 2);
    for frame in 0..frames {
        let phase = (frame % 200) as i32;
        let triangle = if phase < 100 { phase - 50 } else { 150 - phase };
        let swell = 1 + (frame / 2205) as i32;
        let left = triangle * swell * 6;
        samples.push(left as i16);
        samples.push((-left / 2) as i16);
    }
    samples
}

fn get_left(v: Vec<i16>) -> Vec<i16> {
    (0..(v.len() / 2)).map(|index| v[index * 2]).collect()
}

fn get_right(v: Vec<i16>) -> Vec<i16> {
    (0..(v.len() / 2)).map(|index| v[(index * 2) + 1]).collect()
}

#[test]
fn test_init() {
    let audio_buffer = recording();
    let _ = Grain::new(&audio_buffer, 0, 1, 0);
}

#[test]
fn test_get() {
    let audio_buffer = recording();

    let mut grain = Grain::new(&audio_buffer, 0, 1, 0).unwrap();
    for _ in 0..(44100 * 5) {
        grain.get_next_sample(false);
    }
}

#[test]
fn test_set() {
    let audio_buffer = recording();

    let mut grain = Grain::new(&audio_buffer, 0, 1, 0).unwrap();

    grain.set_reverse(true);

    grain.set_smoothing(Window::NoOp(NoSmoother::new()))
}

#[test]
fn test_octaves() {
    let left_audio_buffer = get_left(recording());
    let right_audio_buffer = get_right(recording());

    let mut manager_left = GrainManager::new(GrainMode::Cloud(0, 0, 0));
    manager_left
        .populate_grains(
            6,
            &left_audio_buffer,
            GrainMode::Cloud(left_audio_buffer.len() / 256, 4 * ONE, 44100),
        )
        .unwrap();

    let mut manager_right = GrainManager::new(GrainMode::Cloud(0, 0, 0));
    manager_right
        .populate_grains(
            6,
            &right_audio_buffer,
            GrainMode::Cloud(left_audio_buffer.len() / 256, 4 * ONE, 44100),
        )
        .unwrap();

    let mut out_left: Vec<i16> = Vec::new();
    let mut out_right: Vec<i16> = Vec::new();

    for _ in 0..(44100 * 2) {
        out_left.push(manager_left.get_next_sample());
        out_right.push(manager_right.get_next_sample());
    }
    for pitch in [4, 7, 11, 12] {
        manager_left.set_global_pitch(pitch);
        manager_right.set_global_pitch(pitch);
        for _ in 0..(44100 * 2) {
            out_left.push(manager_left.get_next_sample());
            out_right.push(manager_right.get_next_sample());
        }
    }

    assert_eq!(out_left.len(), 44100 * 10);
    assert_eq!(out_right.len(), 44100 * 10);
}

#[test]
fn test_adsr() {
    let left_audio_buffer = get_left(recording());
    let right_audio_buffer = get_right(recording());

    let mut manager_left = GrainManager::new(GrainMode::Cloud(0, 0, 0));
    manager_left
        .populate_grains(
            32,
            &left_audio_buffer,
            GrainMode::Cloud(left_audio_buffer.len() / 256, 4 * ONE, 44100),
        )
        .unwrap();
    manager_left.set_makeup_gain(6 * ONE);

    let mut manager_right = GrainManager::new(GrainMode::Cloud(0, 0, 0));
    manager_right
        .populate_grains(
            32,
            &right_audio_buffer,
            GrainMode::Cloud(left_audio_buffer.len() / 256, 4 * ONE, 44100),
        )
        .unwrap();
    manager_left.set_makeup_gain(6 * ONE);

    let mut out_left: Vec<i16> = Vec::new();
    let mut out_right: Vec<i16> = Vec::new();

    for _ in 0..4 {
        manager_left.gate_trigger(true);
        manager_right.gate_trigger(true);
        for _ in 0..(44100 * 3) {
            out_left.push(manager_left.get_next_sample());
            out_right.push(manager_right.get_next_sample());
        }
        manager_left.gate_trigger(false);
        manager_right.gate_trigger(false);
        for _ in 0..(44100 * 3) {
            out_left.push(manager_left.get_next_sample());
            out_right.push(manager_right.get_next_sample());
        }
    }

    assert_eq!(out_left.len(), 44100 * 24);
    // Three seconds after its gate went off, a release of two seconds has
    // run out.
    assert_eq!(out_left[44100 * 6 - 1], 0);
    assert_eq!(out_right[44100 * 6 - 1], 0);
}

#[test]
fn test_chord() {
    let left_audio_buffer = get_left(recording());
    let right_audio_buffer = get_right(recording());

    let mut root = GrainManager::new(GrainMode::Cloud(0, 0, 0));
    root.populate_grains(
        32,
        &left_audio_buffer,
        GrainMode::Cloud(left_audio_buffer.len() / 16, 16 * ONE, 0),
    )
    .unwrap();
    let mut third = GrainManager::new(GrainMode::Cloud(0, 0, 0));
    third
        .populate_grains(
            32,
            &right_audio_buffer,
            GrainMode::Cloud(left_audio_buffer.len() / 16, 16 * ONE, 44100),
        )
        .unwrap();
    third.set_global_pitch(4);
    let mut fifth = GrainManager::new(GrainMode::Cloud(0, 0, 0));
    fifth
        .populate_grains(
            32,
            &left_audio_buffer,
            GrainMode::Cloud(left_audio_buffer.len() / 16, 16 * ONE, 0),
        )
        .unwrap();
    fifth.set_global_pitch(7);
    let mut seventh = GrainManager::new(GrainMode::Cloud(0, 0, 0));
    seventh
        .populate_grains(
            32,
            &right_audio_buffer,
            GrainMode::Cloud(left_audio_buffer.len() / 16, 16 * ONE, 44100),
        )
        .unwrap();
    seventh.set_global_pitch(11);

    root.gate_trigger(true);
    let mut out: Vec<i16> = Vec::new();
    for i in 0..(44100 * 15) {
        if i == 44100 {
            third.gate_trigger(true);
        }
        if i == 88200 {
            fifth.gate_trigger(true);
        }
        if i == 176400 {
            seventh.gate_trigger(true);
        }
        if i == (44100 * 12) {
            root.gate_trigger(false);
            third.gate_trigger(false);
            fifth.gate_trigger(false);
            seventh.gate_trigger(false);
        }
        out.push(
            (root.get_next_sample() / 4
                + third.get_next_sample() / 4
                + fifth.get_next_sample() / 4
                + seventh.get_next_sample() / 4)
                * 3,
        )
    }
    assert_eq!(out.len(), 44100 * 15);
}

#[test]
fn grain_plays_its_range_and_wraps() {
    let source: Vec<i16> = vec![5, 6, 7, 8, 9];
    let mut grain = Grain::new(&source, 0, 1, 0).unwrap();
    grain.set_lower_index(1);
    grain.set_upper_index(4);
    assert_eq!(grain.len(), 3);
    let out: Vec<i16> = (0..7).map(|_| grain.get_next_sample(false)).collect();
    assert_eq!(out, vec![6, 7, 8, 6, 7, 8, 6]);
    assert_eq!(grain.position(), ONE as u128);
}

#[test]
fn reversed_grain_starts_at_its_last_sample() {
    let source: Vec<i16> = vec![5, 6, 7, 8, 9];
    let mut grain = Grain::new(&source, 0, 1, 0).unwrap();
    grain.set_lower_index(1);
    grain.set_upper_index(4);
    grain.set_reverse(true);
    let out: Vec<i16> = (0..4).map(|_| grain.get_next_sample(false)).collect();
    assert_eq!(out, vec![8, 7, 6, 8]);
    grain.set_pitch_enable(false);
    let out: Vec<i16> = (0..3).map(|_| grain.get_next_sample(false)).collect();
    assert_eq!(out, vec![7, 6, 8]);
}

#[test]
fn reversed_grain_interpolates_downward() {
    let source: Vec<i16> = vec![0, 100, 200, 300];
    let mut grain = Grain::new(&source, 0, 1, -12).unwrap();
    grain.set_reverse(true);
    let out: Vec<i16> = (0..8).map(|_| grain.get_next_sample(false)).collect();
    assert_eq!(out, vec![300, 250, 200, 150, 100, 50, 0, 0]);
}

#[test]
fn locked_grain_changes_its_range_when_it_wraps() {
    let source: Vec<i16> = vec![0, 1, 2, 3, 4, 5, 6, 7];
    let mut grain = Grain::new(&source, 0, 1, 0).unwrap();
    grain.set_upper_index(3);
    grain.lock_playback();
    grain.set_pos(4);
    assert_eq!((grain.lower_index(), grain.upper_index()), (0, 3));
    let out: Vec<i16> = (0..7).map(|_| grain.get_next_sample(false)).collect();
    assert_eq!(out, vec![0, 1, 2, 4, 5, 6, 4]);
    assert_eq!((grain.lower_index(), grain.upper_index()), (4, 7));
    grain.set_upper_index(8);
    grain.set_lower_index(6);
    assert_eq!((grain.lower_index(), grain.upper_index()), (4, 7));
    let out: Vec<i16> = (0..4).map(|_| grain.get_next_sample(false)).collect();
    assert_eq!(out, vec![5, 6, 6, 7]);
    assert_eq!((grain.lower_index(), grain.upper_index()), (6, 8));
}

#[test]
fn unlocked_grain_changes_its_range_at_once() {
    let source: Vec<i16> = vec![0, 1, 2, 3, 4, 5, 6, 7];
    let mut grain = Grain::new(&source, 0, 1, 0).unwrap();
    grain.lock_playback();
    grain.unlock_playback();
    grain.set_upper_index(3);
    grain.set_pos(4);
    assert_eq!((grain.lower_index(), grain.upper_index()), (4, 7));
    assert_eq!(grain.get_next_sample(false), 4);
}

#[test]
fn set_pos_moves_left_where_the_source_ends() {
    let source: Vec<i16> = vec![0, 1, 2, 3, 4, 5, 6, 7];
    let mut grain = Grain::new(&source, 0, 1, 0).unwrap();
    grain.set_upper_index(3);
    grain.set_pos(5);
    assert_eq!((grain.lower_index(), grain.upper_index()), (5, 8));
    grain.set_pos(6);
    assert_eq!((grain.lower_index(), grain.upper_index()), (5, 8));
    grain.set_pos(usize::MAX);
    assert_eq!((grain.lower_index(), grain.upper_index()), (5, 8));
    grain.set_pos(0);
    assert_eq!((grain.lower_index(), grain.upper_index()), (0, 3));
}

#[test]
fn bounds_are_fitted_to_keep_a_sample_inside_the_source() {
    let source: Vec<i16> = vec![0, 1, 2, 3, 4, 5, 6, 7];
    let mut grain = Grain::new(&source, 0, 1, 0).unwrap();
    grain.set_upper_index(100);
    assert_eq!(grain.upper_index(), 8);
    grain.set_lower_index(100);
    assert_eq!((grain.lower_index(), grain.upper_index()), (7, 8));
    grain.set_upper_index(0);
    assert_eq!((grain.lower_index(), grain.upper_index()), (7, 8));
    grain.set_lower_index(2);
    grain.set_upper_index(2);
    assert_eq!((grain.lower_index(), grain.upper_index()), (2, 3));
    assert!(!grain.is_empty());
}

#[test]
fn shrinking_the_range_wraps_the_cursor_into_it() {
    let source: Vec<i16> = vec![0, 1, 2, 3, 4, 5, 6, 7];
    let mut grain = Grain::new(&source, 0, 1, 0).unwrap();
    for _ in 0..5 {
        grain.get_next_sample(false);
    }
    grain.set_upper_index(3);
    assert_eq!(grain.position(), 2 * ONE as u128);
    assert_eq!(grain.get_next_sample(false), 2);
}

#[test]
fn set_sample_index_wraps_around_the_range() {
    let source: Vec<i16> = vec![10, 11, 12, 13];
    let mut grain = Grain::new(&source, 0, 1, 0).unwrap();
    grain.set_sample_index(2);
    assert_eq!(grain.get_next_sample(false), 12);
    grain.set_sample_index(7);
    assert_eq!(grain.get_next_sample(false), 13);
    grain.set_sample_index(4);
    assert_eq!(grain.position(), 0);
}

#[test]
fn looping_decides_the_successor() {
    let source: Vec<i16> = vec![1, 2, 3];
    let mut grain = Grain::new(&source, 1, 3, 0).unwrap();
    assert_eq!(grain.next_id(), 2);
    grain.set_looping(true);
    assert_eq!(grain.next_id(), 1);
    grain.set_looping(false);
    assert_eq!(grain.next_id(), 2);
    let mut last = Grain::new(&source, 2, 3, 0).unwrap();
    last.set_looping(false);
    assert_eq!(last.next_id(), 0);
}

#[test]
fn window_is_blended_by_the_smooth_factor() {
    let source: Vec<i16> = vec![1000, -1000, 1000, -1000];
    let mut grain = Grain::new(&source, 0, 1, 0).unwrap();
    grain.set_pitch_enable(false);
    let full: Vec<i16> = (0..4).map(|_| grain.get_next_sample(true)).collect();
    assert_eq!(full, vec![0, -500, 1000, -500]);
    grain.set_smooth_factor(ONE / 2);
    let half: Vec<i16> = (0..4).map(|_| grain.get_next_sample(true)).collect();
    assert_eq!(half, vec![500, -750, 1000, -750]);
    grain.set_smooth_factor(0);
    let none: Vec<i16> = (0..4).map(|_| grain.get_next_sample(true)).collect();
    assert_eq!(none, vec![1000, -1000, 1000, -1000]);
    grain.set_smooth_factor(ONE);
    let plain: Vec<i16> = (0..4).map(|_| grain.get_next_sample(false)).collect();
    assert_eq!(plain, vec![1000, -1000, 1000, -1000]);
    grain.set_smoothing(Window::NoOp(NoSmoother::new()));
    let cleared: Vec<i16> = (0..4).map(|_| grain.get_next_sample(true)).collect();
    assert_eq!(cleared, vec![1000, -1000, 1000, -1000]);
}

#[test]
fn window_is_interpolated_under_pitch_shift() {
    let source: Vec<i16> = vec![1000, 1000, 1000, 1000];
    let mut grain = Grain::new(&source, 0, 1, -12).unwrap();
    let out: Vec<i16> = (0..8).map(|_| grain.get_next_sample(true)).collect();
    // Past the end of the window its value is 0.
    assert_eq!(out, vec![0, 250, 500, 750, 1000, 750, 500, 250]);
}

#[test]
fn update_smoother_keeps_the_window_on_the_range() {
    let source: Vec<i16> = vec![1000; 6];
    let mut grain = Grain::new(&source, 0, 1, 0).unwrap();
    grain.set_pitch_enable(false);
    grain.set_upper_index(2);
    grain.update_smoother();
    let out: Vec<i16> = (0..2).map(|_| grain.get_next_sample(true)).collect();
    assert_eq!(out, vec![0, 1000]);
    grain.set_smoothing(Window::Hann(HannSmoother::new()));
    let again: Vec<i16> = (0..2).map(|_| grain.get_next_sample(true)).collect();
    assert_eq!(again, vec![0, 1000]);
}

#[test]
fn pitch_is_set_in_semitones_or_as_a_ratio() {
    let source: Vec<i16> = vec![0, 10, 20, 30, 40, 50];
    let mut grain = Grain::new(&source, 0, 1, 0).unwrap();
    grain.set_pitch(12);
    assert_eq!(grain.pitch_freq(), (2 * ONE) as u64);
    grain.set_pitch_freq((3 * ONE) as u64);
    let out: Vec<i16> = (0..3).map(|_| grain.get_next_sample(false)).collect();
    assert_eq!(out, vec![0, 30, 0]);
    grain.set_pitch_freq((ONE + ONE / 2) as u64);
    grain.set_sample_index(0);
    let out: Vec<i16> = (0..5).map(|_| grain.get_next_sample(false)).collect();
    assert_eq!(out, vec![0, 15, 30, 45, 0]);
}

#[test]
fn cloud_placement_follows_the_draws() {
    let source: Vec<i16> = vec![0; 1000];
    let mut grain = Grain::new(&source, 3, 8, 0).unwrap();
    // Half of 2.0, at a depth of one half, of 100 samples: 50 on each side.
    grain.place_in_cloud(100, 2 * ONE, 400, 32768, -12, true).unwrap();
    assert_eq!((grain.lower_index(), grain.upper_index()), (350, 550));
    assert_eq!(grain.next_id(), 3);
    assert_eq!(grain.pitch_freq(), (ONE / 2) as u64);
    assert_eq!(grain.get_next_sample(false), 0);
    // A locked grain takes its new place when it wraps.
    grain.place_in_cloud(100, 64 * ONE, 10, 65535, 0, false).unwrap();
    assert_eq!((grain.lower_index(), grain.upper_index()), (350, 550));
    for _ in 0..400 {
        grain.get_next_sample(false);
    }
    assert_eq!((grain.lower_index(), grain.upper_index()), (0, 1000));
}

#[test]
fn cloud_placement_without_depth_or_variation_keeps_the_plain_range() {
    let source: Vec<i16> = vec![0; 1000];
    let mut grain = Grain::new(&source, 0, 1, 0).unwrap();
    grain.place_in_cloud(100, 64 * ONE, 400, 0, 0, false).unwrap();
    assert_eq!((grain.lower_index(), grain.upper_index()), (400, 500));
    let mut other = Grain::new(&source, 0, 1, 0).unwrap();
    other.place_in_cloud(100, 0, 950, 65535, 0, false).unwrap();
    assert_eq!((other.lower_index(), other.upper_index()), (950, 1000));
}

#[test]
fn cloud_placement_refuses_what_has_no_sample() {
    let source: Vec<i16> = vec![0; 10];
    let mut grain = Grain::new(&source, 0, 1, 0).unwrap();
    assert_eq!(
        grain.place_in_cloud(4, ONE, 10, 0, 0, false),
        Err(GrainError::OutOfRange)
    );
    assert_eq!(
        grain.place_in_cloud(0, ONE, 9, 0, 0, false),
        Err(GrainError::EmptyRange)
    );
    assert_eq!(
        grain.place_in_cloud(0, ONE, 10, 0, 0, false),
        Err(GrainError::OutOfRange)
    );
    assert_eq!((grain.lower_index(), grain.upper_index()), (0, 10));
}

#[test]
fn locked_bounds_are_kept_as_asked_in_either_order() {
    let source: Vec<i16> = vec![0, 1, 2, 3, 4, 5, 6, 7, 8];
    let mut grain = Grain::new(&source, 0, 1, 0).unwrap();
    grain.set_smoothing(Window::NoOp(NoSmoother::new()));
    grain.set_upper_index(3);
    grain.lock_playback();
    grain.set_lower_index(5);
    grain.set_upper_index(8);
    assert_eq!((grain.lower_index(), grain.upper_index()), (0, 3));
    let out: Vec<i16> = (0..6).map(|_| grain.get_next_sample(false)).collect();
    assert_eq!(out, vec![0, 1, 2, 5, 6, 7]);
    assert_eq!((grain.lower_index(), grain.upper_index()), (5, 8));

    let mut other = Grain::new(&source, 0, 1, 0).unwrap();
    other.set_upper_index(3);
    other.lock_playback();
    other.set_upper_index(8);
    other.set_lower_index(5);
    let out: Vec<i16> = (0..6).map(|_| other.get_next_sample(false)).collect();
    assert_eq!(out, vec![0, 1, 2, 5, 6, 7]);
}

#[test]
fn locked_bounds_without_a_sample_are_fitted_when_they_are_committed() {
    let source: Vec<i16> = vec![0, 1, 2, 3, 4, 5, 6, 7, 8];
    let mut grain = Grain::new(&source, 0, 1, 0).unwrap();
    grain.set_upper_index(3);
    grain.lock_playback();
    // Pending bounds (5, 3) hold no sample: the lower one gives way.
    grain.set_lower_index(5);
    let out: Vec<i16> = (0..5).map(|_| grain.get_next_sample(false)).collect();
    assert_eq!(out, vec![0, 1, 2, 2, 2]);
    assert_eq!((grain.lower_index(), grain.upper_index()), (2, 3));
    // Pending bounds (5, 100) reach past the source: the upper one is held
    // at its end.
    grain.set_upper_index(100);
    let out: Vec<i16> = (0..5).map(|_| grain.get_next_sample(false)).collect();
    assert_eq!(out, vec![2, 5, 6, 7, 8]);
    assert_eq!((grain.lower_index(), grain.upper_index()), (5, 9));
    // Pending bounds (5, 0): one sample at the start of the source.
    grain.set_upper_index(0);
    for _ in 0..4 {
        grain.get_next_sample(false);
    }
    assert_eq!((grain.lower_index(), grain.upper_index()), (0, 1));
    assert_eq!(grain.get_next_sample(false), 0);
}

#[test]
fn transposition_builds_on_the_pitch_of_the_grain() {
    let source: Vec<i16> = vec![0, 10, 20, 30, 40, 50, 60, 70];
    let mut grain = Grain::new(&source, 0, 1, 12).unwrap();
    assert_eq!(grain.base_pitch_freq(), (2 * ONE) as u64);
    grain.transpose(12);
    assert_eq!(grain.pitch_freq(), (4 * ONE) as u64);
    grain.transpose(12);
    assert_eq!(grain.pitch_freq(), (4 * ONE) as u64);
    grain.transpose(-12);
    assert_eq!(grain.pitch_freq(), ONE as u64);
    assert_eq!(grain.base_pitch_freq(), (2 * ONE) as u64);
    grain.set_pitch(0);
    assert_eq!((grain.base_pitch_freq(), grain.pitch_freq()), (ONE as u64, ONE as u64));
    grain.set_pitch_freq(u64::MAX);
    grain.transpose(12);
    assert_eq!(grain.pitch_freq(), u64::MAX);
}

#[test]
fn hann_window_tapers_a_grain() {
    let source: Vec<i16> = vec![1000; 8];
    let mut grain = Grain::new(&source, 0, 1, 0).unwrap();
    grain.set_pitch_enable(false);
    let out: Vec<i16> = (0..8).map(|_| grain.get_next_sample(true)).collect();
    assert_eq!(out, vec![0, 146, 500, 853, 1000, 853, 500, 146]);
}

#[test]
fn new_grain_starts_under_the_hann_window() {
    let source: Vec<i16> = vec![100, 100, 100, 100, 100, 100, 100, 100];
    let mut grain = Grain::new(&source, 0, 1, 0).unwrap();
    grain.set_lower_index(4);
    grain.set_smooth_factor(ONE);
    let out: Vec<i16> = (0..5).map(|_| grain.get_next_sample(true)).collect();
    assert_eq!(out, vec![0, 50, 100, 50, 0]);
}

