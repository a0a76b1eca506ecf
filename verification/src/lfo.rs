//! The waveforms of the low-frequency oscillator.
use vstd::prelude::*;

verus! {

/// The waveforms an oscillator can take. Sample and hold is a source of its
/// own and not among them.
#[derive(Default, PartialEq, Debug)]
pub enum LFOMode {
    #[default]
    Sine,
    Triangle,
    Square,
}

} // verus!
