//! Containers for interleaved stereo samples, with conversions from one or
//! two mono channels and into frames.
use vstd::prelude::*;

verus! {

/// Whether a run of samples holds two channels or one.
#[derive(Default)]
pub enum PhonicMode {
    /// Two channels, interleaved.
    #[default]
    Stereo,
    /// One channel.
    Mono,
}

/// Two channels of equal length woven into one: left, right, left, right.
pub open spec fn interleaving<T>(left: Seq<T>, right: Seq<T>) -> Seq<T> {
    Seq::new(
        2 * left.len(),
        |i: int|
            if i % 2 == 0 {
                left[i / 2]
            } else {
                right[i / 2]
            },
    )
}

/// Interleaved samples cut into pairs of a left and a right sample.
pub open spec fn frames_of<T>(samples: Seq<T>) -> Seq<(T, T)> {
    Seq::new(samples.len() / 2, |i: int| (samples[2 * i], samples[2 * i + 1]))
}

/// A container of interleaved stereo samples.
pub trait Samples<T>: Sized {
    /// The samples held, left and right in turn.
    spec fn interleaved(&self) -> Seq<T>;

    /// The samples as pairs of left and right. The samples must come in
    /// pairs.
    fn get_frames(&self) -> (frames: Vec<(T, T)>)
        requires
            self.interleaved().len() % 2 == 0,
        ensures
            frames@ == frames_of(self.interleaved()),
    ;

    /// Stereo samples with the mono channel on both sides.
    fn from_mono(samples: &[T]) -> (stereo: Self)
        ensures
            stereo.interleaved() == interleaving(samples@, samples@),
    ;

    /// Stereo samples from a left and a right channel of equal length.
    fn from_stereo(left: &[T], right: &[T]) -> (stereo: Self)
        requires
            left@.len() == right@.len(),
        ensures
            stereo.interleaved() == interleaving(left@, right@),
    ;
}

/// Weaves two channels of equal length into one.
pub fn interleave<T: Copy>(left: &[T], right: &[T]) -> (output: Vec<T>)
    requires
        left@.len() == right@.len(),
    ensures
        output@ == interleaving(left@, right@),
{
    let mut output: Vec<T> = Vec::new();
    let mut index: usize = 0;
    while index < left.len()
        invariant
            index <= left@.len(),
            left@.len() == right@.len(),
            output@.len() == 2 * index,
            forall|i: int| 0 <= i < 2 * index ==> output@[i] == interleaving(left@, right@)[i],
        decreases left@.len() - index,
    {
        output.push(left[index]);
        output.push(right[index]);
        index = index + 1;
    }
    assert(output@ =~= interleaving(left@, right@));
    output
}

/// Interleaved stereo samples of 16 bits.
#[derive(Default)]
pub struct IntSamples {
    samples: Vec<i16>,
}

impl View for IntSamples {
    type V = Seq<i16>;

    closed spec fn view(&self) -> Seq<i16> {
        self.samples@
    }
}

impl IntSamples {
    /// Wraps samples that are interleaved already.
    pub fn new(samples: Vec<i16>) -> (wrapped: Self)
        ensures
            wrapped@ == samples@,
    {
        Self { samples }
    }

    /// A copy of the samples.
    pub fn samples(&self) -> (copy: Vec<i16>)
        ensures
            copy@ == self@,
    {
        let mut copy: Vec<i16> = Vec::new();
        let mut index: usize = 0;
        while index < self.samples.len()
            invariant
                index <= self.samples@.len(),
                copy@ == self.samples@.take(index as int),
            decreases self.samples@.len() - index,
        {
            copy.push(self.samples[index]);
            proof {
                assert(copy@ =~= self.samples@.take(index + 1));
            }
            index = index + 1;
        }
        proof {
            assert(self.samples@.take(self.samples@.len() as int) =~= self.samples@);
        }
        copy
    }
}

impl Samples<i16> for IntSamples {
    open spec fn interleaved(&self) -> Seq<i16> {
        self@
    }

    fn get_frames(&self) -> (frames: Vec<(i16, i16)>) {
        let mut frames: Vec<(i16, i16)> = Vec::new();
        let total: usize = self.samples.len();
        let pairs: usize = total / 2;
        let mut index: usize = 0;
        while index < pairs
            invariant
                index <= pairs,
                total == self.samples@.len(),
                pairs == total / 2,
                self.samples@.len() % 2 == 0,
                frames@.len() == index,
                forall|i: int| 0 <= i < index ==> frames@[i] == frames_of(self.samples@)[i],
            decreases pairs - index,
        {
            assert(2 * index + 1 < total);
            frames.push((self.samples[2 * index], self.samples[2 * index + 1]));
            index = index + 1;
        }
        assert(frames@ =~= frames_of(self.samples@));
        frames
    }

    fn from_mono(samples: &[i16]) -> (stereo: Self) {
        Self { samples: interleave(samples, samples) }
    }

    fn from_stereo(left: &[i16], right: &[i16]) -> (stereo: Self) {
        Self { samples: interleave(left, right) }
    }
}

/// Cutting the weave of two channels into frames pairs the channels up
/// again, sample by sample.
pub proof fn lemma_frames_of_interleaving<T>(left: Seq<T>, right: Seq<T>)
    requires
        left.len() == right.len(),
    ensures
        frames_of(interleaving(left, right)).len() == left.len(),
        forall|i: int|
            0 <= i < left.len() ==> #[trigger] frames_of(interleaving(left, right))[i] == (
                left[i],
                right[i],
            ),
{
    let woven = interleaving(left, right);
    assert forall|i: int| 0 <= i < left.len() implies #[trigger] frames_of(woven)[i] == (
        left[i],
        right[i],
    ) by {
        assert(woven[2 * i] == left[i]);
        assert(woven[2 * i + 1] == right[i]);
    }
}

} // verus!
