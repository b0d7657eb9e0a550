//! The failures that the interpreter reports.

use vstd::prelude::*;

use crate::instruction::{Head, State};
use crate::traits::Symbol;

verus! {

/// Every failure of the library, as a value the caller can inspect.
#[derive(Clone, Debug, PartialEq, Eq)]
pub enum TuringError<S> {
    /// An instruction was given state `0` in its head; `0` only ever halts.
    HaltStateInHead,
    /// An instruction names a symbol that is not in the program's alphabet.
    SymbolNotInAlphabet,
    /// An instruction names a state above the program's last state.
    StateAboveLast { state: State, last: State },
    /// A lookup asked for a state above the program's last state.
    QueryAboveLast { state: State, last: State },
    /// A head index does not lie on the tape.
    IndexOutOfBounds { len: usize, index: usize },
    /// A machine's blank symbol is not in its program's alphabet.
    BlankNotInAlphabet,
    /// Two programs to be composed have different alphabets.
    AlphabetMismatch,
    /// Two machines to be composed have different blank symbols.
    BlankMismatch,
    /// The composed program would number more states than `usize` holds.
    StateCountOverflow,
    /// The program has no instruction for the head that was reached.
    UncoveredCase { head: Head<S> },
    /// A run took `u64::MAX` steps without meeting its stop condition.
    StepBudgetExhausted,
}

impl<S: Symbol> TuringError<S> {
    /// An exact copy.
    pub fn duplicate(&self) -> (r: TuringError<S>)
        ensures
            r == *self,
    {
        match self {
            TuringError::HaltStateInHead => TuringError::HaltStateInHead,
            TuringError::SymbolNotInAlphabet => TuringError::SymbolNotInAlphabet,
            TuringError::StateAboveLast { state, last } => TuringError::StateAboveLast { state: *state, last: *last },
            TuringError::QueryAboveLast { state, last } => TuringError::QueryAboveLast { state: *state, last: *last },
            TuringError::IndexOutOfBounds { len, index } => TuringError::IndexOutOfBounds { len: *len, index: *index },
            TuringError::BlankNotInAlphabet => TuringError::BlankNotInAlphabet,
            TuringError::AlphabetMismatch => TuringError::AlphabetMismatch,
            TuringError::BlankMismatch => TuringError::BlankMismatch,
            TuringError::StateCountOverflow => TuringError::StateCountOverflow,
            TuringError::UncoveredCase { head } => TuringError::UncoveredCase { head: head.duplicate() },
            TuringError::StepBudgetExhausted => TuringError::StepBudgetExhausted,
        }
    }
}

} // verus!
