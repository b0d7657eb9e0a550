//! The reference execution engine.

use vstd::prelude::*;

use crate::error::TuringError;
use crate::instruction::{Head, Tail};
use crate::program::{Program, ProgramView};
use crate::state::{Configuration, ConfigurationView};
use crate::traits::{Symbol, With};
use crate::turing::{TuringMachine, STEP_BUDGET, declined_at, declined_before, run, until_outcome};

verus! {

/// The mathematical value of a [`Classic`] machine.
pub struct ClassicView<S> {
    pub program: ProgramView<S>,
    /// The symbol that fills new cells when the head moves past an edge.
    pub blank: S,
}

/// The configuration after the instruction tail `tail` is carried out:
/// enter its state, write its symbol, move its way.
pub open spec fn applied<S>(c: ConfigurationView<S>, tail: Tail<S>, blank: S) -> ConfigurationView<S> {
    ConfigurationView { state: tail.state, ..c }.written(tail.symbol).shifted(tail.movement, blank)
}

impl<S> ClassicView<S> {
    /// A valid program, and a blank symbol in its alphabet.
    pub open spec fn wf(self) -> bool {
        self.program.wf() && self.program.alphabet.contains(self.blank)
    }

    /// One step: look up the current state and the symbol under the head,
    /// then carry out the instruction found; with none, the step fails.
    pub open spec fn step(self, c: ConfigurationView<S>) -> Result<ConfigurationView<S>, TuringError<S>> {
        let head = Head { state: c.state, symbol: c.symbol() };
        match self.program.get_result(head) {
            Err(e) => Err(e),
            Ok(None) => Err(TuringError::UncoveredCase { head }),
            Ok(Some(inst)) => Ok(applied(c, inst.tail, self.blank)),
        }
    }

    /// What composing `self` with `other` gives.
    pub open spec fn compose_result(self, other: ClassicView<S>) -> Result<ClassicView<S>, TuringError<S>> {
        if self.blank != other.blank {
            Err(TuringError::BlankMismatch)
        } else {
            match self.program.compose_result(other.program) {
                Ok(p) => Ok(ClassicView { program: p, blank: self.blank }),
                Err(e) => Err(e),
            }
        }
    }
}

/// A program together with the blank symbol that fills new cells.
#[derive(Debug, PartialEq, Eq)]
pub struct Classic<S> {
    default: S,
    program: Program<S>,
}

impl<S> View for Classic<S> {
    type V = ClassicView<S>;

    closed spec fn view(&self) -> ClassicView<S> {
        ClassicView { program: self.program@, blank: self.default }
    }
}

impl<S> Classic<S> {
    #[verifier::type_invariant]
    closed spec fn inv(self) -> bool {
        self.program@.alphabet.contains(self.default)
    }
}

impl<S: Symbol> Classic<S> {
    /// A machine running `program` with `default` as its blank; fails when
    /// `default` is not in the program's alphabet.
    pub fn new(program: Program<S>, default: S) -> (r: Result<Classic<S>, TuringError<S>>)
        ensures
            r is Ok <==> program@.alphabet.contains(default),
            r matches Ok(m) ==> m@ == (ClassicView { program: program@, blank: default }),
            r matches Err(e) ==> e == TuringError::<S>::BlankNotInAlphabet,
    {
        if crate::program::contains_symbol(program.alphabet(), &default) {
            Ok(Classic { program, default })
        } else {
            Err(TuringError::BlankNotInAlphabet)
        }
    }
}

impl<S: Symbol> Clone for Classic<S> {
    fn clone(&self) -> (r: Classic<S>)
        ensures
            r@ == self@,
    {
        proof {
            use_type_invariant(self);
        }
        Classic { program: self.program.clone(), default: self.default.duplicate() }
    }
}

impl<S: Symbol> TuringMachine<S> for Classic<S> {
    open spec fn step(&self, c: ConfigurationView<S>) -> Result<ConfigurationView<S>, TuringError<S>> {
        self@.step(c)
    }

    fn execute_once(&self, conf: Configuration<S>) -> (r: Result<Configuration<S>, TuringError<S>>) {
        let mut conf = conf;
        let head = Head::new(conf.state(), conf.get_symbol().duplicate());
        proof {
            assert(head == (Head { state: conf@.state, symbol: conf@.symbol() }));
        }
        let inst = match self.program.get(&head) {
            Ok(Some(inst)) => inst,
            Ok(None) => return Err(TuringError::UncoveredCase { head }),
            Err(e) => return Err(e),
        };
        conf.set_state(inst.tail.state);
        conf.set_symbol(inst.tail.symbol.duplicate());
        conf.shift(inst.tail.movement, self.default.duplicate());
        Ok(conf)
    }

    fn execute_until<F: Fn(&Configuration<S>) -> bool>(&self, conf: Configuration<S>, until: F) -> (r: Result<
        Configuration<S>,
        TuringError<S>,
    >) {
        let ghost c0 = conf@;
        let ghost m = self.step_fn();
        let mut cur = conf;
        let mut steps: u64 = 0;
        loop
            invariant
                cur.wf(),
                c0 == conf@,
                m == self.step_fn(),
                forall|c: &Configuration<S>| call_requires(until, (c,)),
                run(m, c0, steps as nat) == Ok::<_, TuringError<S>>(cur@),
                declined_before(m, c0, until, steps as nat),
            decreases STEP_BUDGET - steps,
        {
            if until(&cur) {
                proof {
                    assert(declined_before(m, c0, until, steps as nat) && run(m, c0, steps as nat)
                        == Ok::<_, TuringError<S>>(cur@));
                    assert(until_outcome(self.step_fn(), conf@, until, Ok::<_, TuringError<S>>(cur)));
                }
                return Ok(cur);
            }
            proof {
                assert(declined_at(m, c0, until, steps as nat));
                assert forall|k: nat| k < steps + 1 implies #[trigger] declined_at(m, c0, until, k) by {
                    if k < steps {
                        assert(declined_at(m, c0, until, k));
                    }
                }
            }
            if steps == STEP_BUDGET {
                return Err(TuringError::StepBudgetExhausted);
            }
            let ghost before = cur@;
            match self.execute_once(cur) {
                Ok(next) => {
                    cur = next;
                },
                Err(e) => {
                    proof {
                        assert(run(m, c0, (steps + 1) as nat) == m(before));
                        assert(declined_before(m, c0, until, (steps + 1) as nat) && run(m, c0, (steps + 1) as nat)
                            == Err::<ConfigurationView<S>, _>(e));
                    }
                    return Err(e);
                },
            }
            proof {
                assert(run(m, c0, (steps + 1) as nat) == m(before));
            }
            steps = steps + 1;
        }
    }
}

impl<S: Symbol> With<Classic<S>> for Classic<S> {
    type Output = Result<Classic<S>, TuringError<S>>;

    /// The machine that runs `self`, then `other` where `self` halts. Fails
    /// when the blanks differ or the programs do not compose.
    fn with(&self, other: &Classic<S>) -> (r: Result<Classic<S>, TuringError<S>>)
        ensures
            match r {
                Ok(m) => self@.compose_result(other@) == Ok::<_, TuringError<S>>(m@),
                Err(e) => self@.compose_result(other@) == Err::<ClassicView<S>, _>(e),
            },
    {
        proof {
            use_type_invariant(self);
        }
        if !self.default.same_as(&other.default) {
            return Err(TuringError::BlankMismatch);
        }
        let program = match self.program.with(&other.program) {
            Ok(p) => p,
            Err(e) => return Err(e),
        };
        match Classic::new(program, self.default.duplicate()) {
            Ok(m) => Ok(m),
            Err(e) => Err(e),
        }
    }
}

impl<S: Symbol> With<Classic<S>> for Result<Classic<S>, TuringError<S>> {
    type Output = Result<Classic<S>, TuringError<S>>;

    /// Composition that carries an earlier failure through unchanged.
    fn with(&self, other: &Classic<S>) -> (r: Result<Classic<S>, TuringError<S>>)
        ensures
            match (*self, r) {
                (Ok(m), Ok(c)) => m@.compose_result(other@) == Ok::<_, TuringError<S>>(c@),
                (Ok(m), Err(e)) => m@.compose_result(other@) == Err::<ClassicView<S>, _>(e),
                (Err(e), r) => r == Err::<Classic<S>, _>(e),
            },
    {
        match self {
            Ok(machine) => machine.with(other),
            Err(e) => Err(e.duplicate()),
        }
    }
}

} // verus!
