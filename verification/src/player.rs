use crate::moves::Move;
use crate::state::GameState;
use vstd::prelude::*;

verus! {

/// A source of moves: a person at the board, or a program.
///
/// Nothing is asked of the move that comes back: it need not be legal,
/// and whoever takes moves from a player that it does not trust holds
/// them against the legal moves of the state.
pub trait Player {
    fn get_move(&self, state: &GameState) -> Move;
}

} // verus!
