//! State numbers.

use vstd::prelude::*;

verus! {

/// A state number. `State(0)` is the halt signal: it never heads an
/// instruction, and reaching it ends a run.
#[derive(Clone, Copy, Debug, PartialEq, Eq, Structural, PartialOrd, Ord, Hash)]
pub struct State(pub usize);

impl State {
    /// Tells whether this is the halt signal.
    pub fn is_halt(&self) -> (r: bool)
        ensures
            r == (self.0 == 0),
    {
        self.0 == 0
    }
}

impl std::ops::Add for State {
    type Output = State;

    fn add(self, rhs: State) -> (r: State)
        ensures
            r.0 == self.0 + rhs.0,
    {
        State(self.0 + rhs.0)
    }
}

impl vstd::std_specs::ops::AddSpecImpl for State {
    open spec fn obeys_add_spec() -> bool {
        true
    }

    open spec fn add_req(self, rhs: State) -> bool {
        self.0 + rhs.0 <= usize::MAX
    }

    open spec fn add_spec(self, rhs: State) -> State {
        State((self.0 + rhs.0) as usize)
    }
}

} // verus!
