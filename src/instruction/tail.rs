//! The right half of an instruction.

use vstd::prelude::*;

use crate::instruction::{Move, State};

verus! {

/// What an instruction does: the next state, the symbol to write and the
/// head movement.
#[derive(Clone, Debug, PartialEq, Eq)]
pub struct Tail<S> {
    pub state: State,
    pub symbol: S,
    pub movement: Move,
}

impl<S> Tail<S> {
    pub fn new(state: State, symbol: S, movement: Move) -> (r: Tail<S>)
        ensures
            r.state == state,
            r.symbol == symbol,
            r.movement == movement,
    {
        Tail { state, symbol, movement }
    }
}

} // verus!
