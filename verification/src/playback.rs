//! What a populated manager plays: statements over many ticks, proved from
//! the single tick that `GrainManager::get_next_sample` performs.
use vstd::prelude::*;
use vstd::arithmetic::div_mod::{
    lemma_add_mod_noop, lemma_fundamental_div_mod, lemma_fundamental_div_mod_converse,
    lemma_mod_bound, lemma_mod_breakdown, lemma_mod_self_0, lemma_small_mod,
};
use crate::fixed::{lemma_attenuated, scaled, ONE};
use crate::envelope::EnvelopeView;
use crate::grain::{
    cloud_grain, cloud_lower, cloud_spread, cloud_upper, lemma_slices_fit, lemma_steps_fit,
    population_error, populates, sequence_grain, GrainMode, GrainView, ManagerView,
};
use crate::resample::span;

verus! {

/// Every grain of every population lies inside the source and holds at
/// least one sample; it is well-formed altogether.
pub proof fn lemma_population_in_source(
    grain: GrainView,
    source: Seq<i16>,
    count: nat,
    mode: GrainMode,
    i: nat,
)
    requires
        source.len() <= usize::MAX,
        count <= usize::MAX,
        population_error(count, source.len(), mode) is None,
        i < count,
        populates(grain, source, count, mode, i),
    ensures
        0 <= grain.lower < grain.upper <= source.len(),
        grain.source == source,
        grain.wf(),
{
    if count > 1 || i + 1 < count {
        if i + 1 < count {
            lemma_small_mod(i + 1, count);
        } else {
            lemma_mod_self_0(count as int);
        }
    } else {
        lemma_mod_self_0(count as int);
    }
    crate::resample::lemma_octaves(0);
    match mode {
        GrainMode::Sequence => {
            lemma_slices_fit(source.len(), count, i);
            let length = (grain.upper - grain.lower) as nat;
            lemma_small_mod(0, span(length));
        },
        GrainMode::Cascade(lower, upper) => {
            lemma_steps_fit((upper - lower) as nat, count, i);
            let length = (grain.upper - grain.lower) as nat;
            lemma_small_mod(0, span(length));
        },
        GrainMode::Cloud(length, variation, start) => {
            let (depth, octave, reverse) = choose|depth: nat, octave: int, reverse: bool|
                depth <= u16::MAX && -1 <= octave <= 1 && grain == #[trigger] cloud_grain(
                    source,
                    count,
                    length as nat,
                    variation as nat,
                    start as nat,
                    i,
                    depth,
                    octave,
                    reverse,
                );
            let spread = cloud_spread(length as nat, variation as nat, depth);
            let lower = cloud_lower(start as nat, spread);
            let upper = cloud_upper(source.len(), start as nat, length as nat, spread);
            assert(lower <= start < upper <= source.len());
            crate::resample::lemma_reduced_in_range(0, (upper - lower) as nat);
            lemma_small_mod(0, span((upper - lower) as nat));
            crate::resample::lemma_octaves(0);
            reveal_with_fuel(crate::resample::doubled, 3);
            reveal_with_fuel(crate::resample::halved, 3);
            assert(0 <= crate::resample::semitone_ratio(12 * octave) <= u64::MAX);
        },
    }
}

/// The state after `count` ticks.
pub open spec fn ticks(manager: ManagerView, count: nat) -> ManagerView
    decreases count,
{
    if count == 0 {
        manager
    } else {
        ticks(manager, (count - 1) as nat).stepped()
    }
}

/// Whether `manager` holds a sequence of `count` grains over `source` that
/// has not played yet and whose windows were taken off.
pub open spec fn sequence_start(manager: ManagerView, source: Seq<i16>, count: nat) -> bool {
    &&& manager.mode == GrainMode::Sequence
    &&& manager.grains.len() == count
    &&& forall|i: int|
        0 <= i < count ==> #[trigger] manager.grains[i] == sequence_grain(
            source,
            count,
            i as nat,
        ).windowed_by(false)
    &&& manager.active == 0
    &&& manager.counter == 0
}

/// Whether `manager` holds that sequence after `played` ticks: it is in
/// grain `played / length` of the ring, `played % length` samples into it,
/// and every other grain rests at its start.
pub open spec fn sequence_after(manager: ManagerView, source: Seq<i16>, count: nat, played: nat) -> bool {
    let length = source.len() / count;
    &&& manager.mode == GrainMode::Sequence
    &&& manager.grains.len() == count
    &&& manager.active == (played / length) % count
    &&& manager.counter == played % length
    &&& forall|i: int|
        0 <= i < count ==> #[trigger] manager.grains[i] == (GrainView {
            position: if i == manager.active {
                span(manager.counter)
            } else {
                0
            },
            ..sequence_grain(source, count, i as nat).windowed_by(false)
        })
}

/// Whether an envelope lets everything through for good: its gate is on and
/// it holds a sustain level of `ONE` from the first sample.
pub open spec fn held_open(envelope: EnvelopeView) -> bool {
    &&& envelope.gate
    &&& envelope.attack_decay.len() == 0
    &&& envelope.sustain_level == ONE
}

/// A sample scaled by `ONE` is the sample.
pub proof fn lemma_scaled_by_one(sample: int)
    requires
        -32768 <= sample <= 32767,
    ensures
        scaled(sample, ONE as int) == sample,
{
    if sample >= 0 {
        assert((sample * 65536) / 65536 == sample) by (nonlinear_arith);
    } else {
        assert(((-sample) * 65536) / 65536 == -sample) by (nonlinear_arith);
        assert(-(sample * 65536) == (-sample) * 65536) by (nonlinear_arith);
    }
}

/// What the active grain of a running sequence gives next, and where it is
/// after that.
proof fn lemma_sequence_grain_plays(source: Seq<i16>, count: nat, i: nat, at: nat)
    requires
        source.len() <= usize::MAX,
        population_error(count, source.len(), GrainMode::Sequence) is None,
        i < count,
        at < source.len() / count,
    ensures
        ({
            let length = source.len() / count;
            let grain = GrainView { position: span(at), ..sequence_grain(source, count, i).windowed_by(false) };
            &&& grain.len() == length
            &&& i * length + at < source.len()
            &&& grain.output(true) == source[(i * length + at) as int]
            &&& grain.next_id == ((i + 1) as int) % (count as int)
            &&& grain.wraps() == (at + 1 >= length)
            &&& at + 1 < length ==> grain.stepped() == (GrainView {
                position: span(at + 1),
                ..sequence_grain(source, count, i).windowed_by(false)
            })
            &&& at + 1 >= length ==> grain.stepped() == (GrainView {
                position: 0,
                ..sequence_grain(source, count, i).windowed_by(false)
            })
        }),
{
    let length = source.len() / count;
    let grain = GrainView { position: span(at), ..sequence_grain(source, count, i).windowed_by(false) };
    lemma_slices_fit(source.len(), count, i);
    assert(grain.len() == length);
    assert(span(at) == at * 65536);
    assert(span(length) == length * 65536);
    assert(grain.whole() == at && grain.fraction() == 0) by {
        lemma_fundamental_div_mod_converse(span(at) as int, 65536, at as int, 0);
    }
    let base = grain.base_index();
    assert(base == i * length + at);
    let sample = source[base] as int;
    assert(grain.raw_sample() == sample) by {
        assert(sample * (ONE - 0) + (source[grain.neighbour_index()] as int) * 0 == sample * 65536);
        lemma_scaled_by_one(sample);
    }
    assert(grain.window_level() == ONE) by {
        assert((65536 * (65536 - 0) + 65536 * 0) / 65536 == 65536);
    }
    assert(grain.output(true) == sample) by {
        assert(crate::fixed::window_gain(ONE as int, ONE as int) == 4294967296);
        lemma_attenuated(sample, 4294967296);
    }
    if at + 1 < length {
        assert(span(at + 1) == span(at) + ONE);
        lemma_small_mod(span(at + 1), span(length));
    } else {
        assert(span(at) + ONE == span(length));
        lemma_mod_self_0(span(length) as int);
        lemma_small_mod(0, span(length));
        assert(grain.stepped().window == grain.window);
    }
}

/// A sequence without windows walks the source. After any number of ticks a
/// sequence over
/// `count` equal slices is at the place `sequence_after` describes, and the
/// sample it takes from its active grain is the source sample at that
/// number of ticks, counted around the `count` slices. No sample of the
/// slices is skipped and none comes twice in a pass. With a makeup gain of
/// `ONE` under an envelope held open, that sample is the output.
pub proof fn lemma_sequence_traverses(manager: ManagerView, source: Seq<i16>, count: nat, played: nat)
    requires
        source.len() <= usize::MAX,
        population_error(count, source.len(), GrainMode::Sequence) is None,
        sequence_start(manager, source, count),
    ensures
        sequence_after(ticks(manager, played), source, count, played),
        ticks(manager, played).makeup_gain == manager.makeup_gain,
        held_open(manager.envelope) ==> held_open(ticks(manager, played).envelope),
        0 <= played % ((source.len() / count) * count) < source.len(),
        ticks(manager, played).grains[ticks(manager, played).active as int].output(true) == source[(played
            % ((source.len() / count) * count)) as int],
        manager.makeup_gain == ONE && held_open(manager.envelope) ==> ticks(manager, played).output()
            == source[(played % ((source.len() / count) * count)) as int],
    decreases played,
{
    let length = source.len() / count;
    let now = ticks(manager, played);
    if played == 0 {
        lemma_small_mod(0, length);
        assert(0nat / length == 0) by {
            lemma_fundamental_div_mod_converse(0, length as int, 0, 0);
        }
        lemma_small_mod(0, count);
        assert(span(0) == 0);
        assert(sequence_after(now, source, count, 0));
    } else {
        let earlier = (played - 1) as nat;
        lemma_sequence_traverses(manager, source, count, earlier);
        let before = ticks(manager, earlier);
        let round = earlier / length;
        let at = earlier % length;
        let active = before.active;
        lemma_fundamental_div_mod(earlier as int, length as int);
        lemma_mod_bound(earlier as int, length as int);
        lemma_mod_bound(round as int, count as int);
        assert(before.grains[active as int] == (GrainView {
            position: span(at),
            ..sequence_grain(source, count, active).windowed_by(false)
        }));
        lemma_sequence_grain_plays(source, count, active, at);
        assert(length * round == round * length) by (nonlinear_arith);
        if at + 1 < length {
            lemma_fundamental_div_mod_converse(played as int, length as int, round as int, (at + 1) as int);
            assert(now.grains =~= before.stepped_grains());
            assert(sequence_after(now, source, count, played));
        } else {
            assert(played == (round + 1) * length + 0) by (nonlinear_arith)
                requires
                    played == earlier + 1,
                    earlier == length * round + at,
                    at + 1 == length,
            ;
            lemma_fundamental_div_mod_converse(played as int, length as int, (round + 1) as int, 0);
            lemma_add_mod_noop(round as int, 1, count as int);
            if count == 1 {
                lemma_mod_self_0(1);
                assert(1int % 1 == 0);
            } else {
                lemma_small_mod(1, count);
            }
            assert((((round % count) + 1) as int) % (count as int) == ((round + 1) as int) % (count as int));
            assert(span(0) == 0);
            assert(now.active == (played / length) % count);
            assert forall|i: int| 0 <= i < count implies #[trigger] now.grains[i] == (GrainView {
                position: if i == now.active {
                    span(now.counter)
                } else {
                    0
                },
                ..sequence_grain(source, count, i as nat).windowed_by(false)
            }) by {
                if i == active {
                } else {
                    assert(now.grains[i] == before.grains[i]);
                }
            }
            assert(sequence_after(now, source, count, played));
        }
    }
    let round = played / length;
    let at = played % length;
    lemma_fundamental_div_mod(played as int, length as int);
    lemma_mod_bound(played as int, length as int);
    lemma_mod_bound(round as int, count as int);
    lemma_mod_breakdown(played as int, length as int, count as int);
    lemma_sequence_grain_plays(source, count, now.active, at);
    assert(length * now.active == now.active * length) by (nonlinear_arith);
    assert(now.grains[now.active as int] == (GrainView {
        position: span(at),
        ..sequence_grain(source, count, now.active).windowed_by(false)
    }));
    let sample = source[(played % (length * count)) as int] as int;
    assert(now.grains[now.active as int].output(true) == sample);
    if manager.makeup_gain == ONE && held_open(manager.envelope) {
        lemma_scaled_by_one(sample);
        assert(now.mixed() == sample);
        assert(now.envelope.level() == ONE);
    }
}

} // verus!
