//! The random draws, made by the `rand` crate. This is the one part of the
//! library that is believed, not proved: nothing is claimed of what a draw
//! returns, so every caller is verified for every outcome.

use crate::split_tree::Direction;
use rand::seq::SliceRandom;
use vstd::prelude::*;

verus! {

/// The generator type of `rand`, carried from `rand::thread_rng` to
/// `SliceRandom::choose` and never looked into.
#[verifier::external_type_specification]
#[verifier::external_body]
pub struct ExThreadRng(rand::rngs::ThreadRng);

/// `rand::thread_rng` hands out the calling thread's generator. Nothing is
/// claimed of it.
pub assume_specification[ rand::thread_rng ]() -> (rng: rand::rngs::ThreadRng);

/// One draw of `rand::random::<u32>()`: 32 bits from the thread's
/// generator. Nothing is claimed of the value.
#[verifier::external_body]
pub(crate) fn draw_bits() -> (bits: u32) {
    rand::random::<u32>()
}

/// One of the two directions, picked by `SliceRandom::choose` on `rng`.
/// Nothing is claimed of which one, nor of `rng` afterwards. `choose`
/// returns `None` on an empty slice only; this slice has two items.
#[verifier::external_body]
pub(crate) fn choose_direction(rng: &mut rand::rngs::ThreadRng) -> (direction: Direction) {
    *[Direction::X, Direction::Y].choose(rng).unwrap()
}

} // verus!
