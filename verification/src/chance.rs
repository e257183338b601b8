//! The random source of the rollouts.

use vstd::prelude::*;
use crate::types::Move;
use rand::seq::SliceRandom;

verus! {

/// `SliceRandom::choose` with the generator of the current thread: one of the moves,
/// and none only where there is none to choose from. Which one is left to chance.
#[verifier::external_body]
pub(crate) fn choose_move(moves: &Vec<Move>) -> (r: Option<Move>)
    ensures
        match r {
            Some(m) => moves@.contains(m),
            None => moves@.len() == 0,
        },
{
    moves.choose(&mut rand::thread_rng()).copied()
}

} // verus!
