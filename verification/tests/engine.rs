use granular_plugin::fixed::ONE;
use granular_plugin::grain::{check_population, Grain, GrainError, GrainManager, GrainMode, IdManager};
use granular_plugin::stat;

/// A manager whose envelope lets every sample through unchanged.
fn open_manager<'a>(mode: GrainMode) -> GrainManager<'a> {
    let mut manager = GrainManager::new(mode);
    manager.set_attack(0);
    manager.set_decay(0);
    manager.set_sustain(ONE);
    manager.gate_trigger(true);
    manager
}

#[test]
fn sequence_of_three_grains_replays_the_source() {
    let source: Vec<i16> = vec![0, 1, 2, 3, 4, 5, 6, 7, 8];
    let mut manager = open_manager(GrainMode::Sequence);
    manager.populate_grains(3, &source, GrainMode::Sequence).unwrap();
    manager.clear_smoothing();
    manager.set_makeup_gain(ONE);
    let mut out: Vec<i16> = Vec::new();
    for _ in 0..27 {
        out.push(manager.get_next_sample());
    }
    let expected: Vec<i16> = (0..27).map(|tick| (tick % 9) as i16).collect();
    assert_eq!(out, expected);
}

#[test]
fn sequence_leaves_out_the_remainder_of_an_uneven_split() {
    let source: Vec<i16> = vec![10, 11, 12, 13, 14, 15, 16];
    let mut manager = open_manager(GrainMode::Sequence);
    manager.populate_grains(3, &source, GrainMode::Sequence).unwrap();
    manager.clear_smoothing();
    manager.set_makeup_gain(ONE);
    let out: Vec<i16> = (0..12).map(|_| manager.get_next_sample()).collect();
    assert_eq!(out, vec![10, 11, 12, 13, 14, 15, 10, 11, 12, 13, 14, 15]);
}

#[test]
fn sequence_applies_makeup_gain_where_it_hands_over() {
    let source: Vec<i16> = vec![1, 2, 3, 4, 5, 6];
    let mut manager = open_manager(GrainMode::Sequence);
    manager.populate_grains(2, &source, GrainMode::Sequence).unwrap();
    manager.clear_smoothing();
    manager.set_makeup_gain(2 * ONE);
    let out: Vec<i16> = (0..6).map(|_| manager.get_next_sample()).collect();
    assert_eq!(out, vec![1, 2, 6, 4, 5, 12]);
}

#[test]
fn cascade_of_two_averages_the_staggered_starts() {
    let source: Vec<i16> = vec![7, 1, 1, 1, 1, 10, 1, 1, 1, 1];
    let mut manager = open_manager(GrainMode::Cascade(0, 10));
    manager.populate_grains(2, &source, GrainMode::Cascade(0, 10)).unwrap();
    manager.clear_smoothing();
    // (7 + 10) / 2 truncates to 8; the default makeup gain is 3.0.
    assert_eq!(manager.get_next_sample(), 24);
    manager.set_makeup_gain(ONE / 2);
    // (1 + 1) / 2 is 1; half of it truncates to 0.
    assert_eq!(manager.get_next_sample(), 0);
}

#[test]
fn cascade_average_truncates_toward_zero() {
    let source: Vec<i16> = vec![-7, 0, 0, 0, 0, -10, 0, 0, 0, 0];
    let mut manager = open_manager(GrainMode::Cascade(0, 10));
    manager.populate_grains(2, &source, GrainMode::Cascade(0, 10)).unwrap();
    manager.clear_smoothing();
    manager.set_makeup_gain(ONE);
    assert_eq!(manager.get_next_sample(), -8);
}

#[test]
fn cascade_grains_share_the_upper_bound() {
    let source: Vec<i16> = vec![0; 12];
    let mut manager = GrainManager::new(GrainMode::Cascade(2, 11));
    manager.populate_grains(3, &source, GrainMode::Cascade(2, 11)).unwrap();
    manager.clear_smoothing();
    let bounds: Vec<(usize, usize)> = (0..3)
        .map(|index| {
            let grain = manager.grain(index).unwrap();
            (grain.lower_index(), grain.upper_index())
        })
        .collect();
    assert_eq!(bounds, vec![(2, 11), (5, 11), (8, 11)]);
    assert_eq!(manager.grain(1).unwrap().next_id(), 1);
}

#[test]
fn output_saturates_at_the_sample_range() {
    let source: Vec<i16> = vec![30000, -30000];
    let mut manager = open_manager(GrainMode::Sequence);
    manager.populate_grains(2, &source, GrainMode::Sequence).unwrap();
    manager.clear_smoothing();
    manager.set_makeup_gain(4 * ONE);
    assert_eq!(manager.get_next_sample(), 32767);
    assert_eq!(manager.get_next_sample(), -32768);
}

#[test]
fn manager_without_grains_is_silent() {
    let mut manager = open_manager(GrainMode::Sequence);
    assert_eq!(manager.get_next_sample(), 0);
    assert_eq!(manager.grain_count(), 0);
    assert_eq!(manager.grain(0).err(), Some(GrainError::InvalidIndex));
}

#[test]
fn closed_gate_silences_the_mix() {
    let source: Vec<i16> = vec![100, 200, 300];
    let mut manager = GrainManager::new(GrainMode::Sequence);
    manager.populate_grains(1, &source, GrainMode::Sequence).unwrap();
    manager.clear_smoothing();
    manager.set_makeup_gain(ONE);
    assert_eq!(manager.get_next_sample(), 0);
}

#[test]
fn every_population_keeps_its_grains_inside_the_source() {
    let source: Vec<i16> = (0..1000).map(|value| value as i16).collect();
    let modes = [
        GrainMode::Sequence,
        GrainMode::Cascade(100, 900),
        GrainMode::Cloud(50, 64 * ONE, 500),
        GrainMode::Cloud(5000, 64 * ONE, 999),
        GrainMode::Cloud(1, 0, 0),
    ];
    for mode in modes {
        let mut manager = GrainManager::new(mode);
        manager.populate_grains(16, &source, mode).unwrap();
        manager.clear_smoothing();
        assert_eq!(manager.grain_count(), 16);
        assert_eq!(manager.mode(), mode);
        for index in 0..16 {
            let grain = manager.grain(index).unwrap();
            assert!(grain.lower_index() < grain.upper_index());
            assert!(grain.upper_index() <= source.len());
            assert!(!grain.is_empty());
        }
    }
}

#[test]
fn cloud_grains_loop_around_the_start_at_an_octave() {
    let source: Vec<i16> = (0..1000).map(|value| value as i16).collect();
    let mode = GrainMode::Cloud(100, 2 * ONE, 400);
    let mut manager = GrainManager::new(mode);
    manager.populate_grains(64, &source, mode).unwrap();
    manager.clear_smoothing();
    let mut ratios_seen = [false; 3];
    for index in 0..64 {
        let grain = manager.grain(index).unwrap();
        // The spread is at most 2.0 / 2 * 1.0 * 100 samples.
        assert!(grain.lower_index() > 300 && grain.lower_index() <= 400);
        assert!(grain.upper_index() >= 500 && grain.upper_index() < 600);
        assert_eq!(400 - grain.lower_index(), grain.upper_index() - 500);
        assert_eq!(grain.next_id(), index);
        let ratio = grain.pitch_freq();
        assert!(ratio == (ONE / 2) as u64 || ratio == ONE as u64 || ratio == (2 * ONE) as u64);
        if ratio == (ONE / 2) as u64 {
            ratios_seen[0] = true;
        } else if ratio == ONE as u64 {
            ratios_seen[1] = true;
        } else {
            ratios_seen[2] = true;
        }
    }
    // 64 draws from three octaves miss one of them about once in 10^11 runs.
    assert_eq!(ratios_seen, [true, true, true]);
}

#[test]
fn populations_that_cannot_be_built_are_refused() {
    let source: Vec<i16> = vec![0; 10];
    let empty: Vec<i16> = Vec::new();
    let mut manager = GrainManager::new(GrainMode::Sequence);
    manager.populate_grains(2, &source, GrainMode::Sequence).unwrap();
    let refused = [
        (0, GrainMode::Sequence, GrainError::OutOfRange),
        (11, GrainMode::Sequence, GrainError::EmptyRange),
        (2, GrainMode::Cascade(0, 11), GrainError::OutOfRange),
        (2, GrainMode::Cascade(5, 5), GrainError::EmptyRange),
        (2, GrainMode::Cascade(6, 5), GrainError::EmptyRange),
        (2, GrainMode::Cloud(4, ONE, 10), GrainError::OutOfRange),
        (2, GrainMode::Cloud(0, ONE, 9), GrainError::EmptyRange),
    ];
    for (count, mode, error) in refused {
        assert_eq!(check_population(count, source.len(), mode), Some(error));
        assert_eq!(manager.populate_grains(count, &source, mode), Err(error));
        assert_eq!(manager.grain_count(), 2);
        assert_eq!(manager.mode(), GrainMode::Sequence);
    }
    assert_eq!(
        manager.populate_grains(1, &empty, GrainMode::Sequence),
        Err(GrainError::EmptyRange)
    );
    assert_eq!(check_population(10, 10, GrainMode::Sequence), None);
    assert_eq!(check_population(1, 10, GrainMode::Cascade(9, 10)), None);
}

#[test]
fn repopulating_starts_the_ring_over() {
    let source: Vec<i16> = vec![1, 2, 3, 4];
    let mut manager = open_manager(GrainMode::Sequence);
    manager.populate_grains(2, &source, GrainMode::Sequence).unwrap();
    manager.clear_smoothing();
    manager.set_makeup_gain(ONE);
    assert_eq!(manager.get_next_sample(), 1);
    assert_eq!(manager.get_next_sample(), 2);
    assert_eq!(manager.get_next_sample(), 3);
    assert_eq!(manager.active_index(), 1);
    manager.populate_grains(4, &source, GrainMode::Sequence).unwrap();
    manager.clear_smoothing();
    assert_eq!(manager.active_index(), 0);
    assert_eq!(manager.grain(3).unwrap().next_id(), 0);
    manager.gate_trigger(true);
    let out: Vec<i16> = (0..5).map(|_| manager.get_next_sample()).collect();
    assert_eq!(out, vec![1, 2, 3, 4, 1]);
}

#[test]
fn read_next_grain_follows_the_successor() {
    let source: Vec<i16> = vec![0; 9];
    let mut manager = GrainManager::new(GrainMode::Sequence);
    manager.populate_grains(3, &source, GrainMode::Sequence).unwrap();
    manager.clear_smoothing();
    assert_eq!(manager.read_next_grain(), 0);
    assert_eq!(manager.read_next_grain(), 1);
    assert_eq!(manager.read_next_grain(), 2);
    assert_eq!(manager.active_index(), 0);
}

#[test]
fn global_pitch_replaces_the_global_pitch_set_before() {
    let source: Vec<i16> = (0..100).map(|value| value as i16).collect();
    let mut manager = GrainManager::new(GrainMode::Sequence);
    manager.populate_grains(2, &source, GrainMode::Sequence).unwrap();
    manager.clear_smoothing();
    manager.set_global_pitch(12);
    assert_eq!(manager.grain(0).unwrap().pitch_freq(), (2 * ONE) as u64);
    manager.set_global_pitch(12);
    assert_eq!(manager.grain(0).unwrap().pitch_freq(), (2 * ONE) as u64);
    manager.set_global_pitch(-12);
    assert_eq!(manager.grain(1).unwrap().pitch_freq(), (ONE / 2) as u64);
    manager.set_global_pitch(7);
    assert_eq!(manager.grain(1).unwrap().pitch_freq(), 98193);
    manager.set_global_pitch(0);
    assert_eq!(manager.grain(1).unwrap().pitch_freq(), ONE as u64);
    assert_eq!(manager.grain(1).unwrap().base_pitch_freq(), ONE as u64);
}

#[test]
fn global_pitch_composes_with_the_octave_of_a_cloud_grain() {
    let source: Vec<i16> = (0..1000).map(|value| value as i16).collect();
    let mode = GrainMode::Cloud(100, 2 * ONE, 400);
    let mut manager = GrainManager::new(mode);
    manager.populate_grains(32, &source, mode).unwrap();
    manager.clear_smoothing();
    let own: Vec<u64> = (0..32)
        .map(|index| manager.grain(index).unwrap().pitch_freq())
        .collect();
    for pitch in [12i8, 12, -12, 7, 0] {
        manager.set_global_pitch(pitch);
        let ratio = granular_plugin::resample::semitone_to_hz_ratio(pitch) as u64;
        for index in 0..32 {
            let grain = manager.grain(index).unwrap();
            assert_eq!(grain.base_pitch_freq(), own[index]);
            assert_eq!(grain.pitch_freq(), own[index] * ratio / ONE as u64);
        }
    }
}

#[test]
fn an_octave_up_plays_every_other_sample() {
    let source: Vec<i16> = vec![0, 10, 20, 30, 40, 50, 60, 70];
    let mut manager = open_manager(GrainMode::Cascade(0, 8));
    manager.populate_grains(1, &source, GrainMode::Cascade(0, 8)).unwrap();
    manager.clear_smoothing();
    manager.set_makeup_gain(ONE);
    manager.set_global_pitch(12);
    let out: Vec<i16> = (0..6).map(|_| manager.get_next_sample()).collect();
    assert_eq!(out, vec![0, 20, 40, 60, 0, 20]);
}

#[test]
fn an_octave_down_interpolates_between_samples() {
    let source: Vec<i16> = vec![0, 10, 20, 30];
    let mut manager = open_manager(GrainMode::Cascade(0, 4));
    manager.populate_grains(1, &source, GrainMode::Cascade(0, 4)).unwrap();
    manager.clear_smoothing();
    manager.set_makeup_gain(ONE);
    manager.set_global_pitch(-12);
    let out: Vec<i16> = (0..9).map(|_| manager.get_next_sample()).collect();
    // The last sample of the source has no neighbour and is held.
    assert_eq!(out, vec![0, 5, 10, 15, 20, 25, 30, 30, 0]);
}

#[test]
fn hann_window_shapes_every_grain_of_the_manager() {
    let source: Vec<i16> = vec![1000; 8];
    let mut manager = open_manager(GrainMode::Sequence);
    manager.populate_grains(2, &source, GrainMode::Sequence).unwrap();
    manager.set_makeup_gain(ONE);
    manager.set_pitch_enable(false);
    let out: Vec<i16> = (0..8).map(|_| manager.get_next_sample()).collect();
    assert_eq!(out, vec![0, 500, 1000, 500, 0, 500, 1000, 500]);
    manager.set_smooth_factor(ONE / 2);
    let out: Vec<i16> = (0..4).map(|_| manager.get_next_sample()).collect();
    assert_eq!(out, vec![500, 750, 1000, 750]);
    manager.clear_smoothing();
    let out: Vec<i16> = (0..4).map(|_| manager.get_next_sample()).collect();
    assert_eq!(out, vec![1000, 1000, 1000, 1000]);
    manager.set_smoothing();
    manager.set_smooth_factor(ONE);
    let out: Vec<i16> = (0..4).map(|_| manager.get_next_sample()).collect();
    assert_eq!(out, vec![0, 500, 1000, 500]);
}

#[test]
fn id_manager_counts_up_from_zero() {
    let mut ids = IdManager::new();
    assert_eq!(ids.get_next_id(), 0);
    assert_eq!(ids.get_next_id(), 1);
    assert_eq!(ids.get_next_id(), 2);
    let mut other = IdManager::default();
    assert_eq!(other.get_next_id(), 0);
}

#[test]
fn new_grain_refuses_an_empty_source_and_a_stray_index() {
    let empty: Vec<i16> = Vec::new();
    let source: Vec<i16> = vec![1, 2, 3];
    assert_eq!(Grain::new(&empty, 0, 1, 0).err(), Some(GrainError::EmptyRange));
    assert_eq!(Grain::new(&source, 1, 1, 0).err(), Some(GrainError::InvalidIndex));
    assert_eq!(Grain::new(&source, 0, 0, 0).err(), Some(GrainError::InvalidIndex));
    let grain = Grain::new(&source, 2, 3, 12).unwrap();
    assert_eq!(grain.next_id(), 0);
    assert_eq!(grain.pitch_freq(), (2 * ONE) as u64);
    assert_eq!((grain.lower_index(), grain.upper_index()), (0, 3));
}

#[test]
fn library_is_linked() {
    assert_eq!(stat(), 200);
}
