//! The calls into the random number generator.
use rand::seq::SliceRandom;
use rand::Rng;

use vstd::prelude::*;

use crate::Crew;

verus! {

/// Relies on rand's `Rng::gen_range` over `0..bound` on the thread-local
/// generator: the value lies in the range. It panics on an empty range, which
/// `requires` leaves out.
#[verifier::external_body]
pub(crate) fn roll_below(bound: u8) -> (r: u8)
    requires
        bound > 0,
    ensures
        r < bound,
{
    rand::thread_rng().gen_range(0..bound)
}

/// Relies on rand's `SliceRandom::shuffle` with the thread-local generator:
/// it only swaps elements, so the pieces come back in some order, none added
/// or lost.
#[verifier::external_body]
pub(crate) fn shuffle_pieces(pieces: &mut Vec<Crew>)
    ensures
        final(pieces)@.len() == old(pieces)@.len(),
        final(pieces)@.to_multiset() == old(pieces)@.to_multiset(),
{
    pieces.shuffle(&mut rand::thread_rng());
}

} // verus!
