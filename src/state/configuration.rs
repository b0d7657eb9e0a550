//! A tape with a head position and a current state.

use vstd::prelude::*;

use crate::error::TuringError;
use crate::instruction::{Move, State};
use crate::state::Tape;

verus! {

/// The mathematical value of a [`Configuration`].
pub struct ConfigurationView<S> {
    pub tape: Seq<S>,
    pub index: int,
    pub state: State,
}

impl<S> ConfigurationView<S> {
    /// The head lies on the tape.
    pub open spec fn wf(self) -> bool {
        0 <= self.index < self.tape.len()
    }

    /// The symbol under the head.
    pub open spec fn symbol(self) -> S {
        self.tape[self.index]
    }

    /// The configuration after `symbol` is written under the head.
    pub open spec fn written(self, symbol: S) -> ConfigurationView<S> {
        ConfigurationView { tape: self.tape.update(self.index, symbol), ..self }
    }

    /// The configuration after the head moves by `movement`; a move past
    /// either edge adds one `blank` cell there.
    pub open spec fn shifted(self, movement: Move, blank: S) -> ConfigurationView<S> {
        match movement {
            Move::Left => if self.index == 0 {
                ConfigurationView { tape: seq![blank] + self.tape, ..self }
            } else {
                ConfigurationView { index: self.index - 1, ..self }
            },
            Move::Stay => self,
            Move::Right => if self.index + 1 == self.tape.len() {
                ConfigurationView { tape: self.tape.push(blank), index: self.index + 1, ..self }
            } else {
                ConfigurationView { index: self.index + 1, ..self }
            },
        }
    }

    /// Whether a move by `movement` goes past an edge of the tape.
    pub open spec fn moves_past_edge(self, movement: Move) -> bool {
        ||| movement == Move::Left && self.index == 0
        ||| movement == Move::Right && self.index + 1 == self.tape.len()
    }
}

/// A tape, the index of the cell under the head, and the current state.
#[derive(Clone, Debug, PartialEq, Eq)]
pub struct Configuration<S> {
    tape: Tape<S>,
    index: usize,
    pub state: State,
}

impl<S> View for Configuration<S> {
    type V = ConfigurationView<S>;

    closed spec fn view(&self) -> ConfigurationView<S> {
        ConfigurationView { tape: self.tape@, index: self.index as int, state: self.state }
    }
}

impl<S> Configuration<S> {
    /// The head lies on the tape.
    pub open spec fn wf(&self) -> bool {
        self@.wf()
    }

    /// A configuration with the head at `index`; fails when `index` is not on the tape.
    pub fn new(tape: Tape<S>, index: usize, state: State) -> (r: Result<Configuration<S>, TuringError<S>>)
        ensures
            index < tape@.len() <==> r is Ok,
            r matches Ok(c) ==> c.wf() && c@ == (ConfigurationView { tape: tape@, index: index as int, state }),
            r matches Err(e) ==> e == (TuringError::<S>::IndexOutOfBounds { len: tape@.len() as usize, index }),
    {
        if index < tape.len() {
            Ok(Configuration { tape, index, state })
        } else {
            let len = tape.len();
            Err(TuringError::IndexOutOfBounds { len, index })
        }
    }

    /// The "normal" configuration: head on the first cell, state `1`.
    pub fn new_nrm(tape: Tape<S>) -> (r: Result<Configuration<S>, TuringError<S>>)
        ensures
            tape@.len() > 0 <==> r is Ok,
            r matches Ok(c) ==> c.wf() && c@ == (ConfigurationView { tape: tape@, index: 0, state: State(1) }),
            r matches Err(e) ==> e == (TuringError::<S>::IndexOutOfBounds { len: 0, index: 0 }),
    {
        Configuration::new(tape, 0, State(1))
    }

    /// The "standard" configuration: head on the last cell, state `1`.
    pub fn new_std(tape: Tape<S>) -> (r: Result<Configuration<S>, TuringError<S>>)
        ensures
            tape@.len() > 0 <==> r is Ok,
            r matches Ok(c) ==> c.wf() && c@ == (ConfigurationView {
                tape: tape@,
                index: tape@.len() - 1,
                state: State(1),
            }),
            r matches Err(e) ==> e == (TuringError::<S>::IndexOutOfBounds { len: 0, index: 0 }),
    {
        if tape.is_empty() {
            return Err(TuringError::IndexOutOfBounds { len: 0, index: 0 });
        }
        let last = tape.len() - 1;
        Configuration::new(tape, last, State(1))
    }

    /// Takes the configuration apart into its tape, index and state.
    pub fn destruct(self) -> (r: (Tape<S>, usize, State))
        ensures
            r.0@ == self@.tape,
            r.1 == self@.index,
            r.2 == self@.state,
    {
        (self.tape, self.index, self.state)
    }

    pub fn tape(&self) -> (r: &Tape<S>)
        ensures
            r@ == self@.tape,
    {
        &self.tape
    }

    pub fn into_tape(self) -> (r: Tape<S>)
        ensures
            r@ == self@.tape,
    {
        self.tape
    }

    /// The symbol under the head.
    pub fn get_symbol(&self) -> (r: &S)
        requires
            self.wf(),
        ensures
            *r == self@.symbol(),
    {
        &self.tape.as_vec()[self.index]
    }

    pub fn index(&self) -> (r: usize)
        ensures
            r == self@.index,
    {
        self.index
    }

    pub fn is_empty(&self) -> (r: bool)
        ensures
            r == (self@.tape.len() == 0),
    {
        self.tape.is_empty()
    }

    pub fn len(&self) -> (r: usize)
        ensures
            r == self@.tape.len(),
    {
        self.tape.len()
    }

    /// The current state.
    pub fn state(&self) -> (r: State)
        ensures
            r == self@.state,
    {
        self.state
    }

    /// Tells whether the configuration is in the halt state `0`.
    pub fn is_halted(&self) -> (r: bool)
        ensures
            r == (self@.state.0 == 0),
    {
        self.state.0 == 0
    }

    /// Enters `state`; the tape and the head stay as they are.
    pub fn set_state(&mut self, state: State)
        ensures
            final(self)@ == (ConfigurationView { state, ..old(self)@ }),
    {
        self.state = state;
    }

    /// Overwrites the cell under the head.
    pub fn set_symbol(&mut self, symbol: S)
        requires
            old(self).wf(),
        ensures
            final(self)@ == old(self)@.written(symbol),
            final(self).wf(),
    {
        self.tape.set(self.index, symbol);
    }

    /// Moves the head; a move past either edge adds one `default` cell there.
    pub fn shift(&mut self, movement: Move, default: S)
        requires
            old(self).wf(),
        ensures
            final(self)@ == old(self)@.shifted(movement, default),
            final(self).wf(),
    {
        match movement {
            Move::Left => {
                if self.index == 0 {
                    self.tape.insert(0, default);
                } else {
                    self.index = self.index - 1;
                }
            },
            Move::Stay => {},
            Move::Right => {
                let len = self.tape.len();
                self.index = self.index + 1;
                if self.index == len {
                    let end = self.index;
                    self.tape.insert(end, default);
                }
            },
        }
        proof {
            let o = old(self)@;
            if movement == Move::Left && o.index == 0 {
                assert(o.tape.insert(0, default) =~= seq![default] + o.tape);
            }
            if movement == Move::Right && o.index + 1 == o.tape.len() {
                assert(o.tape.insert(o.tape.len() as int, default) =~= o.tape.push(default));
            }
        }
    }
}

} // verus!
