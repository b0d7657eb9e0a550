//! Instructions: a head `(state, symbol)` and a tail `(state, symbol, move)`.

mod head;
mod movement;
mod state;
mod tail;

pub use head::Head;
pub use movement::Move;
pub use state::State;
pub use tail::Tail;

use vstd::prelude::*;

use crate::traits::Symbol;

verus! {

/// One transition: when the machine is in `head.state` and reads
/// `head.symbol`, it writes `tail.symbol`, moves by `tail.movement` and
/// enters `tail.state`.
#[derive(Clone, Debug, PartialEq, Eq)]
pub struct Instruction<S> {
    pub head: Head<S>,
    pub tail: Tail<S>,
}

impl<S> Instruction<S> {
    pub fn new(head: Head<S>, tail: Tail<S>) -> (r: Instruction<S>)
        ensures
            r.head == head,
            r.tail == tail,
    {
        Instruction { head, tail }
    }

    pub fn build(h_state: State, h_symbol: S, t_state: State, t_symbol: S, t_movement: Move) -> (r:
        Instruction<S>)
        ensures
            r.head == (Head { state: h_state, symbol: h_symbol }),
            r.tail == (Tail { state: t_state, symbol: t_symbol, movement: t_movement }),
    {
        Instruction::new(Head::new(h_state, h_symbol), Tail::new(t_state, t_symbol, t_movement))
    }
}

impl<S: Symbol> Head<S> {
    /// An exact copy.
    pub fn duplicate(&self) -> (r: Head<S>)
        ensures
            r == *self,
    {
        Head { state: self.state, symbol: self.symbol.duplicate() }
    }

    /// Tells whether `self` and `other` are the same head.
    pub fn same_as(&self, other: &Head<S>) -> (r: bool)
        ensures
            r == (*self == *other),
    {
        self.state.0 == other.state.0 && self.symbol.same_as(&other.symbol)
    }
}

impl<S: Symbol> Tail<S> {
    /// An exact copy.
    pub fn duplicate(&self) -> (r: Tail<S>)
        ensures
            r == *self,
    {
        Tail { state: self.state, symbol: self.symbol.duplicate(), movement: self.movement }
    }
}

impl<S: Symbol> Instruction<S> {
    /// An exact copy.
    pub fn duplicate(&self) -> (r: Instruction<S>)
        ensures
            r == *self,
    {
        Instruction { head: self.head.duplicate(), tail: self.tail.duplicate() }
    }
}

} // verus!
