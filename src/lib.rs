//! An interpreter for single-tape Turing machines.
//!
//! A machine is a [`program::Program`] (a validated transition table over a
//! fixed alphabet and a numbered set of states) run by a
//! [`machines::Classic`] engine against a [`state::Configuration`]: a tape,
//! a head position and a current state. State `0` is the halt signal.
//! Programs compose with [`With`]: the first machine's halt leads into the
//! second machine's first state.

pub mod error;
pub mod instruction;
pub mod machines;
pub mod program;
pub mod state;
mod traits;
mod turing;

pub use crate::error::TuringError;
pub use crate::traits::Symbol;
pub use crate::traits::With;
pub use crate::turing::TuringMachine;

