//! The channel shuffle of a diffuser: which input channel each output channel
//! takes, and with which polarity.
use vstd::prelude::*;
use crate::random::{draw_choice, shuffle_indices};

verus! {

/// The channels `0` to `count - 1`, in order.
pub open spec fn channels_in_order(count: nat) -> Seq<usize> {
    Seq::new(count, |i: int| i as usize)
}

/// The input channels a plan takes, by output channel.
pub open spec fn plan_channels(plan: Seq<(usize, i8)>) -> Seq<usize> {
    Seq::new(plan.len(), |i: int| plan[i].0)
}

/// Draws a plan for `channels` channels: for each output channel the input
/// channel it takes and the polarity, 1 or -1, it takes it with. Whatever is
/// drawn, every input channel is taken exactly once.
pub fn shuffle_and_flip(channels: usize) -> (plan: Vec<(usize, i8)>)
    ensures
        plan@.len() == channels,
        plan_channels(plan@).to_multiset() == channels_in_order(channels as nat).to_multiset(),
        forall|i: int| 0 <= i < channels ==> (#[trigger] plan@[i]).0 < channels,
        forall|i: int| 0 <= i < channels ==> (#[trigger] plan@[i]).1 == 1 || plan@[i].1 == -1,
{
    let mut generator = rand::thread_rng();
    let polarities: Vec<i8> = vec![-1, 1];
    let mut indices: Vec<usize> = Vec::new();
    let mut made: usize = 0;
    while made < channels
        invariant
            made <= channels,
            indices@ == channels_in_order(made as nat),
        decreases channels - made,
    {
        indices.push(made);
        made = made + 1;
        assert(indices@ =~= channels_in_order(made as nat));
    }
    let ghost ordered = indices@;
    shuffle_indices(&mut generator, &mut indices);
    proof {
        ordered.to_multiset_ensures();
        indices@.to_multiset_ensures();
        assert(indices@.len() == channels);
        assert forall|i: int| 0 <= i < channels implies (#[trigger] indices@[i]) < channels by {
            assert(indices@.to_multiset().count(indices@[i]) > 0);
            assert(ordered.contains(indices@[i]));
        }
    }
    let mut plan: Vec<(usize, i8)> = Vec::new();
    let mut at: usize = 0;
    while at < channels
        invariant
            at <= channels,
            indices@.len() == channels,
            polarities@ == seq![-1i8, 1i8],
            plan@.len() == at,
            forall|i: int| 0 <= i < at ==> (#[trigger] plan@[i]).0 == indices@[i],
            forall|i: int| 0 <= i < at ==> (#[trigger] plan@[i]).1 == 1 || plan@[i].1 == -1,
        decreases channels - at,
    {
        let polarity: i8 = match draw_choice(&mut generator, polarities.as_slice()) {
            Some(polarity) => polarity,
            None => 1,
        };
        plan.push((indices[at], polarity));
        at = at + 1;
    }
    proof {
        assert(plan_channels(plan@) =~= indices@);
    }
    plan
}

} // verus!
