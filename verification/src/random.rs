//! The random draws of the cloud population and of the channel shuffle, taken
//! from the `rand` crate's thread-local generator. Nothing here is proved: each contract states what
//! `rand` documents of every outcome, and no more.
use vstd::prelude::*;
use rand::rngs::ThreadRng;
use rand::seq::SliceRandom;
use rand::Rng;

verus! {

/// `rand::rngs::ThreadRng`, the handle to the thread-local generator. Its
/// state is of no concern to the engine; it is only handed from draw to draw.
#[verifier::external_type_specification]
#[verifier::external_body]
pub struct ExThreadRng(ThreadRng);

/// `rand::thread_rng`: retrieves the thread-local generator. Nothing is
/// claimed of it.
pub assume_specification[ rand::thread_rng ]() -> (generator: ThreadRng)
;

/// `Rng::gen::<u16>`: a value drawn uniformly from all of `u16`. Read as a
/// fixed-point fraction it is a depth in `[0, 1)`. Nothing is claimed of it
/// beyond its type.
#[verifier::external_body]
pub(crate) fn draw_depth(generator: &mut ThreadRng) -> (depth: u16) {
    generator.gen::<u16>()
}

/// `SliceRandom::choose` on a slice of `i8`: one element of the slice, or
/// `None` if and only if the slice is empty.
#[verifier::external_body]
pub(crate) fn draw_choice(generator: &mut ThreadRng, options: &[i8]) -> (choice: Option<i8>)
    ensures
        options@.len() == 0 <==> choice.is_none(),
        choice matches Some(picked) ==> options@.contains(picked),
{
    options.choose(generator).copied()
}

/// `Rng::gen_ratio`: `true` with a chance of `numerator` in `denominator`.
/// `rand` panics on a zero denominator and on a numerator above the
/// denominator, so those are excluded. A numerator of 0 always gives
/// `false`, one equal to the denominator always `true`.
#[verifier::external_body]
pub(crate) fn draw_chance(generator: &mut ThreadRng, numerator: u32, denominator: u32) -> (hit: bool)
    requires
        denominator > 0,
        numerator <= denominator,
    ensures
        numerator == 0 ==> !hit,
        numerator == denominator ==> hit,
{
    generator.gen_ratio(numerator, denominator)
}

/// `SliceRandom::shuffle` on a vector of indices: the elements are swapped
/// among themselves in place, so the same elements are there afterwards,
/// each as often as before. Nothing is claimed of their order.
#[verifier::external_body]
pub(crate) fn shuffle_indices(generator: &mut ThreadRng, indices: &mut Vec<usize>)
    ensures
        final(indices)@.to_multiset() == old(indices)@.to_multiset(),
{
    indices.shuffle(generator)
}

} // verus!
