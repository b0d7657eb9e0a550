//! The execution-engine contract: single steps, runs until a condition
//! holds, and runs to the halt signal.

use vstd::prelude::*;

use crate::error::TuringError;
use crate::instruction::State;
use crate::state::{Configuration, ConfigurationView, Tape};

verus! {

/// A single-step transition on configurations.
pub type StepFn<S> = spec_fn(ConfigurationView<S>) -> Result<ConfigurationView<S>, TuringError<S>>;

/// The most steps a single run takes. A run that has taken this many steps
/// without meeting its stop condition ends with
/// [`TuringError::StepBudgetExhausted`]; at one step per nanosecond that
/// takes over five centuries, so in practice runs are bounded only by the
/// caller's condition.
pub const STEP_BUDGET: u64 = 0xffff_ffff_ffff_ffff;

/// The configuration after `n` steps of `m` from `c`, or the first failure.
pub open spec fn run<S>(m: StepFn<S>, c: ConfigurationView<S>, n: nat) -> Result<
    ConfigurationView<S>,
    TuringError<S>,
>
    decreases n,
{
    if n == 0 {
        Ok(c)
    } else {
        match run(m, c, (n - 1) as nat) {
            Ok(d) => m(d),
            Err(e) => Err(e),
        }
    }
}

/// The stop condition was asked about the configuration after `k` steps,
/// and said no.
pub open spec fn declined_at<S, F: Fn(&Configuration<S>) -> bool>(
    m: StepFn<S>,
    c: ConfigurationView<S>,
    until: F,
    k: nat,
) -> bool {
    exists|x: Configuration<S>| run(m, c, k) == Ok::<_, TuringError<S>>(x@) && #[trigger] call_ensures(until, (&x,), false)
}

/// The stop condition said no after each of the first `n` steps.
pub open spec fn declined_before<S, F: Fn(&Configuration<S>) -> bool>(
    m: StepFn<S>,
    c: ConfigurationView<S>,
    until: F,
    n: nat,
) -> bool {
    forall|k: nat| k < n ==> #[trigger] declined_at(m, c, until, k)
}

/// What a run of `m` from `c` until `until` holds may return: the first
/// configuration the condition accepts, the failure of the step after the
/// last one it declined, or the exhausted budget.
pub open spec fn until_outcome<S, F: Fn(&Configuration<S>) -> bool>(
    m: StepFn<S>,
    c: ConfigurationView<S>,
    until: F,
    r: Result<Configuration<S>, TuringError<S>>,
) -> bool {
    match r {
        Ok(d) => {
            &&& d.wf()
            &&& call_ensures(until, (&d,), true)
            &&& exists|n: nat| declined_before(m, c, until, n) && run(m, c, n) == Ok::<_, TuringError<S>>(d@)
        },
        Err(TuringError::StepBudgetExhausted) => declined_before(m, c, until, STEP_BUDGET as nat),
        Err(e) => exists|n: nat| declined_before(m, c, until, n) && run(m, c, n) == Err::<ConfigurationView<S>, _>(e),
    }
}

/// None of the first `n` steps failed or reached the halt signal.
pub open spec fn running_before<S>(m: StepFn<S>, c: ConfigurationView<S>, n: nat) -> bool {
    forall|k: nat| k < n ==> ((#[trigger] run(m, c, k)) matches Ok(d) && d.state.0 != 0)
}

/// The run is in the halt state `0` after `n` steps.
pub open spec fn halts_after<S>(m: StepFn<S>, c: ConfigurationView<S>, n: nat) -> bool {
    match run(m, c, n) {
        Ok(d) => d.state.0 == 0,
        Err(_) => false,
    }
}

/// What a run of `m` from `c` to the halt signal may return: the first
/// configuration in state `0`, the failure of the step before it, or the
/// exhausted budget.
pub open spec fn halt_outcome<S>(
    m: StepFn<S>,
    c: ConfigurationView<S>,
    r: Result<ConfigurationView<S>, TuringError<S>>,
) -> bool {
    match r {
        Ok(d) => d.state.0 == 0 && exists|n: nat| running_before(m, c, n) && run(m, c, n) == Ok::<_, TuringError<S>>(d),
        Err(TuringError::StepBudgetExhausted) => running_before(m, c, STEP_BUDGET as nat),
        Err(e) => exists|n: nat| running_before(m, c, n) && run(m, c, n) == Err::<ConfigurationView<S>, _>(e),
    }
}

/// The view of an engine's result.
pub open spec fn result_view<S>(r: Result<Configuration<S>, TuringError<S>>) -> Result<ConfigurationView<S>, TuringError<S>> {
    match r {
        Ok(c) => Ok(c@),
        Err(e) => Err(e),
    }
}

/// The configuration a translation starts from: the head on the last cell
/// (`standard`) or on the first, in state `1`.
pub open spec fn start_view<S>(tape: Seq<S>, standard: bool) -> ConfigurationView<S> {
    ConfigurationView { tape, index: if standard { tape.len() - 1 } else { 0 }, state: State(1) }
}

/// What a translation of `tape` may return: the tape of the halted
/// configuration, or the failure of the run, or of the start when the tape
/// is empty.
pub open spec fn translate_outcome<S>(
    m: StepFn<S>,
    tape: Seq<S>,
    standard: bool,
    r: Result<Tape<S>, TuringError<S>>,
) -> bool {
    if tape.len() == 0 {
        r == Err::<Tape<S>, _>(TuringError::<S>::IndexOutOfBounds { len: 0, index: 0 })
    } else {
        match r {
            Ok(t) => exists|d: ConfigurationView<S>|
                halt_outcome(m, start_view(tape, standard), Ok(d)) && #[trigger] d.tape == t@,
            Err(e) => halt_outcome(m, start_view(tape, standard), Err(e)),
        }
    }
}

/// When the stop condition is "state is `0`", declining it is running.
proof fn lemma_declined_is_running<S, F: Fn(&Configuration<S>) -> bool>(
    m: StepFn<S>,
    c: ConfigurationView<S>,
    until: F,
    n: nat,
)
    requires
        forall|x: &Configuration<S>, b: bool| call_ensures(until, (x,), b) ==> b == (x@.state.0 == 0),
        declined_before(m, c, until, n),
    ensures
        running_before(m, c, n),
{
    assert forall|k: nat| k < n implies ((#[trigger] run(m, c, k)) matches Ok(d) && d.state.0 != 0) by {
        assert(declined_at(m, c, until, k));
        let x = choose|x: Configuration<S>| run(m, c, k) == Ok::<_, TuringError<S>>(x@) && #[trigger] call_ensures(until, (&x,), false);
        assert(call_ensures(until, (&x,), false));
    }
}

/// A Turing machine: a single-step transition on configurations, and runs
/// built from it.
pub trait TuringMachine<S>: Sized {
    /// The effect of one step on a configuration.
    spec fn step(&self, c: ConfigurationView<S>) -> Result<ConfigurationView<S>, TuringError<S>>;

    /// [`TuringMachine::step`] as a function value.
    open spec fn step_fn(&self) -> StepFn<S> {
        |c: ConfigurationView<S>| self.step(c)
    }

    /// Applies exactly one transition.
    fn execute_once(&self, conf: Configuration<S>) -> (r: Result<Configuration<S>, TuringError<S>>)
        requires
            conf.wf(),
        ensures
            r matches Ok(c) ==> c.wf(),
            result_view(r) == self.step(conf@),
    ;

    /// Steps while `until` declines the configuration; returns the first
    /// configuration it accepts, or the failure that came first (a step
    /// that failed, or the whole [`STEP_BUDGET`] spent).
    fn execute_until<F: Fn(&Configuration<S>) -> bool>(&self, conf: Configuration<S>, until: F) -> (r: Result<
        Configuration<S>,
        TuringError<S>,
    >)
        requires
            conf.wf(),
            forall|c: &Configuration<S>| call_requires(until, (c,)),
        ensures
            until_outcome(self.step_fn(), conf@, until, r),
    ;

    /// Runs until the halt signal, state `0`.
    fn execute(&self, conf: Configuration<S>) -> (r: Result<Configuration<S>, TuringError<S>>)
        requires
            conf.wf(),
        ensures
            r matches Ok(c) ==> c.wf(),
            halt_outcome(self.step_fn(), conf@, result_view(r)),
    {
        let ghost c0 = conf@;
        let halted = |c: &Configuration<S>| -> (b: bool)
            ensures
                b == (c@.state.0 == 0),
            { c.is_halted() };
        let r = self.execute_until(conf, halted);
        proof {
            let rr = r;
            match rr {
                Ok(d) => {
                    let n = choose|n: nat| declined_before(self.step_fn(), c0, halted, n) && run(self.step_fn(), c0, n) == Ok::<_, TuringError<S>>(d@);
                    lemma_declined_is_running(self.step_fn(), c0, halted, n);
                },
                Err(TuringError::StepBudgetExhausted) => {
                    lemma_declined_is_running(self.step_fn(), c0, halted, STEP_BUDGET as nat);
                },
                Err(e) => {
                    let n = choose|n: nat| declined_before(self.step_fn(), c0, halted, n) && run(self.step_fn(), c0, n) == Err::<ConfigurationView<S>, _>(e);
                    lemma_declined_is_running(self.step_fn(), c0, halted, n);
                },
            }
        }
        r
    }

    /// Runs the "standard" configuration of `tape` (head on the last cell,
    /// state `1`) to the halt signal and returns the tape.
    fn translate_std(&self, tape: Tape<S>) -> (r: Result<Tape<S>, TuringError<S>>)
        ensures
            translate_outcome(self.step_fn(), tape@, true, r),
    {
        let ghost t = tape@;
        let conf = match Configuration::new_std(tape) {
            Ok(c) => c,
            Err(e) => return Err(e),
        };
        match self.execute(conf) {
            Ok(c) => {
                let ghost d = c@;
                let out = c.into_tape();
                proof {
                    assert(halt_outcome(self.step_fn(), start_view(t, true), Ok::<_, TuringError<S>>(d)));
                }
                Ok(out)
            },
            Err(e) => Err(e),
        }
    }

    /// Runs the "normal" configuration of `tape` (head on the first cell,
    /// state `1`) to the halt signal and returns the tape.
    fn translate_nrm(&self, tape: Tape<S>) -> (r: Result<Tape<S>, TuringError<S>>)
        ensures
            translate_outcome(self.step_fn(), tape@, false, r),
    {
        let ghost t = tape@;
        let conf = match Configuration::new_nrm(tape) {
            Ok(c) => c,
            Err(e) => return Err(e),
        };
        match self.execute(conf) {
            Ok(c) => {
                let ghost d = c@;
                let out = c.into_tape();
                proof {
                    assert(halt_outcome(self.step_fn(), start_view(t, false), Ok::<_, TuringError<S>>(d)));
                }
                Ok(out)
            },
            Err(e) => Err(e),
        }
    }
}

} // verus!
