//! A granular-synthesis engine: grains cut from a shared sample buffer,
//! repitched, windowed and mixed under a population strategy, and gated by an
//! amplitude envelope.
pub mod delay_buffer;
pub mod diffusion;
pub mod envelope;
pub mod fixed;
pub mod grain;
pub mod interpolators;
pub mod lfo;
pub mod midi;
pub mod playback;
mod random;
pub mod resample;
pub mod samples;
pub mod smoothers;
pub mod timing;

use vstd::prelude::*;

verus! {

/// A fixed value by which a caller can tell that the library is linked.
pub fn stat() -> (value: i16)
    ensures
        value == 200,
{
    200
}

} // verus!
