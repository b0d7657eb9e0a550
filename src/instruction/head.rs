//! The left half of an instruction.

use vstd::prelude::*;

use crate::instruction::State;

verus! {

/// The condition under which an instruction applies: the current state and
/// the symbol under the head.
#[derive(Clone, Debug, PartialEq, Eq)]
pub struct Head<S> {
    pub state: State,
    pub symbol: S,
}

impl<S> Head<S> {
    pub fn new(state: State, symbol: S) -> (r: Head<S>)
        ensures
            r.state == state,
            r.symbol == symbol,
    {
        Head { state, symbol }
    }
}

} // verus!
