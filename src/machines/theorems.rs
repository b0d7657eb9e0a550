//! What holds of every run of a [`Classic`] machine.

use vstd::prelude::*;

use crate::error::TuringError;
use crate::instruction::{Head, Instruction, Move, State};
use crate::program::{lemma_composed_lookup_first, lemma_composed_lookup_second, lowered, relinked, renumbered};
use crate::machines::classic::{applied, Classic};
use crate::state::ConfigurationView;
use crate::traits::Symbol;
use crate::turing::{halt_outcome, halts_after, run, running_before, StepFn, TuringMachine, STEP_BUDGET};

verus! {

/// A run of `a + b` steps is a run of `a` steps followed by one of `b`.
pub proof fn lemma_run_split<S>(m: StepFn<S>, c: ConfigurationView<S>, a: nat, b: nat)
    requires
        run(m, c, a) is Ok,
    ensures
        run(m, c, a + b) == run(m, run(m, c, a)->Ok_0, b),
    decreases b,
{
    if b > 0 {
        lemma_run_split(m, c, a, (b - 1) as nat);
        assert((a + b - 1) as nat == a + (b - 1) as nat);
    }
}

/// A run that has not failed after `n` steps had not failed before.
pub proof fn lemma_run_prefix<S>(m: StepFn<S>, c: ConfigurationView<S>, k: nat, n: nat)
    requires
        k <= n,
        run(m, c, n) is Ok,
    ensures
        run(m, c, k) is Ok,
    decreases n,
{
    if k < n {
        lemma_run_prefix(m, c, k, (n - 1) as nat);
    }
}

/// Moving the head keeps it on the tape, and grows the tape by one cell
/// exactly when the move goes past an edge.
pub proof fn lemma_shift_growth<S>(c: ConfigurationView<S>, movement: Move, blank: S)
    requires
        c.wf(),
    ensures
        c.shifted(movement, blank).wf(),
        c.shifted(movement, blank).tape.len() == c.tape.len() + if c.moves_past_edge(movement) {
            1int
        } else {
            0int
        },
{
}

/// The instruction a step of `m` from `c` carries out.
pub open spec fn instruction_used<S: Symbol>(m: Classic<S>, c: ConfigurationView<S>) -> Instruction<S> {
    m@.program.lookup(Head { state: c.state, symbol: c.symbol() })->Some_0
}

/// One step keeps the head on the tape; the tape grows by exactly one cell
/// when the instruction moves the head past either edge, and keeps its
/// length otherwise.
pub proof fn lemma_step_tape_growth<S: Symbol>(m: Classic<S>, c: ConfigurationView<S>)
    requires
        c.wf(),
        m.step(c) is Ok,
    ensures
        (m.step(c)->Ok_0).wf(),
        (m.step(c)->Ok_0).tape.len() == c.tape.len() + if c.moves_past_edge(
            instruction_used(m, c).tail.movement,
        ) {
            1int
        } else {
            0int
        },
{
    let tail = instruction_used(m, c).tail;
    let w = ConfigurationView { state: tail.state, ..c }.written(tail.symbol);
    lemma_shift_growth(w, tail.movement, m@.blank);
}

/// Every configuration that a run reaches from one with its head on the
/// tape has its head on the tape.
pub proof fn lemma_run_keeps_head_on_tape<S: Symbol>(m: Classic<S>, c: ConfigurationView<S>, n: nat)
    requires
        c.wf(),
    ensures
        run(m.step_fn(), c, n) matches Ok(d) ==> d.wf(),
    decreases n,
{
    if n > 0 {
        lemma_run_keeps_head_on_tape(m, c, (n - 1) as nat);
        if let Ok(d) = run(m.step_fn(), c, (n - 1) as nat) {
            if m.step(d) is Ok {
                lemma_step_tape_growth(m, d);
            }
        }
    }
}

/// Along a run, the tape never gets shorter.
pub proof fn lemma_run_tape_monotone<S: Symbol>(m: Classic<S>, c: ConfigurationView<S>, k: nat, n: nat)
    requires
        c.wf(),
        k <= n,
        run(m.step_fn(), c, n) is Ok,
    ensures
        run(m.step_fn(), c, k) is Ok,
        (run(m.step_fn(), c, k)->Ok_0).tape.len() <= (run(m.step_fn(), c, n)->Ok_0).tape.len(),
    decreases n,
{
    lemma_run_prefix(m.step_fn(), c, k, n);
    if k < n {
        lemma_run_prefix(m.step_fn(), c, (n - 1) as nat, n);
        lemma_run_tape_monotone(m, c, k, (n - 1) as nat);
        let d = run(m.step_fn(), c, (n - 1) as nat)->Ok_0;
        lemma_run_keeps_head_on_tape(m, c, (n - 1) as nat);
        lemma_step_tape_growth(m, d);
    }
}

/// The program has an instruction for every configuration that a run from
/// `c` reaches before it halts.
pub open spec fn covers_reachable<S: Symbol>(m: Classic<S>, c: ConfigurationView<S>) -> bool {
    forall|k: nat|
        match #[trigger] run(m.step_fn(), c, k) {
            Ok(d) => d.state.0 != 0 ==> m@.program.covers(Head { state: d.state, symbol: d.symbol() }),
            Err(_) => true,
        }
}

/// With an instruction for every reachable configuration, no step before
/// the halt fails.
pub proof fn lemma_covered_run_never_fails<S: Symbol>(m: Classic<S>, c: ConfigurationView<S>, n: nat)
    requires
        m@.wf(),
        covers_reachable(m, c),
        running_before(m.step_fn(), c, n),
    ensures
        run(m.step_fn(), c, n) is Ok,
    decreases n,
{
    if n > 0 {
        let k = (n - 1) as nat;
        assert(running_before(m.step_fn(), c, k));
        lemma_covered_run_never_fails(m, c, k);
        let d = run(m.step_fn(), c, k)->Ok_0;
        assert(run(m.step_fn(), c, k) matches Ok(d) && d.state.0 != 0);
        let head = Head { state: d.state, symbol: d.symbol() };
        assert(m@.program.covers(head));
        let i = choose|i: int|
            0 <= i < m@.program.instructions.len() && (#[trigger] m@.program.instructions[i]).head == head;
        assert(m@.program.accepts(m@.program.instructions[i]));
    }
}

/// A program with an instruction for every configuration a run reaches
/// never makes `execute` fail: it returns a configuration in the halt
/// state, or gives up only after the whole step budget; and when the run
/// halts within the budget, `execute` returns the halted configuration.
pub proof fn lemma_covered_execute_halts<S: Symbol>(
    m: Classic<S>,
    c: ConfigurationView<S>,
    r: Result<ConfigurationView<S>, TuringError<S>>,
)
    requires
        m@.wf(),
        covers_reachable(m, c),
        halt_outcome(m.step_fn(), c, r),
    ensures
        r matches Ok(d) ==> d.state.0 == 0,
        r is Err ==> r == Err::<ConfigurationView<S>, _>(TuringError::<S>::StepBudgetExhausted),
        (exists|n: nat| n < STEP_BUDGET && #[trigger] halts_after(m.step_fn(), c, n)) ==> r is Ok,
{
    match r {
        Ok(_) => {},
        Err(TuringError::StepBudgetExhausted) => {
            if exists|n: nat| n < STEP_BUDGET && #[trigger] halts_after(m.step_fn(), c, n) {
                let n = choose|n: nat| n < STEP_BUDGET && #[trigger] halts_after(m.step_fn(), c, n);
                assert(run(m.step_fn(), c, n) matches Ok(d) && d.state.0 != 0);
            }
        },
        Err(e) => {
            let n = choose|n: nat| running_before(m.step_fn(), c, n) && run(m.step_fn(), c, n) == Err::<ConfigurationView<S>, _>(e);
            lemma_covered_run_never_fails(m, c, n);
        },
    }
}

/// `c` once the first part of a composition whose first part has last
/// state `a` has halted there: the halt became a jump to state `a + 1`.
pub open spec fn relinked_state<S>(c: ConfigurationView<S>, a: State) -> ConfigurationView<S> {
    if c.state.0 == 0 {
        ConfigurationView { state: State((a.0 + 1) as usize), ..c }
    } else {
        c
    }
}

/// `c` as the second part of a composition whose first part has last state
/// `a` sees it: every state moved up by `a`, the halt state kept.
pub open spec fn lifted<S>(c: ConfigurationView<S>, a: State) -> ConfigurationView<S> {
    if c.state.0 == 0 {
        c
    } else {
        ConfigurationView { state: State((c.state.0 + a.0) as usize), ..c }
    }
}

/// `c` with the machine entering state `1`.
pub open spec fn entered<S>(c: ConfigurationView<S>) -> ConfigurationView<S> {
    ConfigurationView { state: State(1), ..c }
}

/// A step of the composition from a configuration in one of the first
/// machine's states is that machine's step, with a halt made a jump.
proof fn lemma_composed_step_first<S: Symbol>(mp: Classic<S>, mq: Classic<S>, mpq: Classic<S>, d: ConfigurationView<S>)
    requires
        mp@.wf(),
        mq@.wf(),
        mp@.compose_result(mq@) == Ok::<_, TuringError<S>>(mpq@),
        d.state.0 != 0,
        mp.step(d) is Ok,
    ensures
        mpq.step(d) == Ok::<_, TuringError<S>>(relinked_state(mp.step(d)->Ok_0, mp@.program.last)),
{
    let h = Head { state: d.state, symbol: d.symbol() };
    lemma_composed_lookup_first(mp@.program, mq@.program, h);
    let i = mp@.program.lookup(h)->Some_0;
    let a = mp@.program.last;
    assert(applied(d, relinked(i, a).tail, mp@.blank) == relinked_state(applied(d, i.tail, mp@.blank), a));
}

/// A step of the composition from a lifted configuration is the second
/// machine's step, lifted.
proof fn lemma_composed_step_second<S: Symbol>(mp: Classic<S>, mq: Classic<S>, mpq: Classic<S>, e: ConfigurationView<S>)
    requires
        mp@.wf(),
        mq@.wf(),
        mp@.compose_result(mq@) == Ok::<_, TuringError<S>>(mpq@),
        mq.step(e) is Ok,
    ensures
        mpq.step(lifted(e, mp@.program.last)) == Ok::<_, TuringError<S>>(lifted(mq.step(e)->Ok_0, mp@.program.last)),
{
    let a = mp@.program.last;
    let h2 = Head { state: e.state, symbol: e.symbol() };
    let i = mq@.program.lookup(h2)->Some_0;
    assert(mq@.program.covers(h2));
    let k = choose|k: int| 0 <= k < mq@.program.instructions.len() && (#[trigger] mq@.program.instructions[k]).head == h2;
    assert(mq@.program.accepts(mq@.program.instructions[k]));
    let le = lifted(e, a);
    let h = Head { state: le.state, symbol: le.symbol() };
    assert(lowered(h, a) == h2);
    lemma_composed_lookup_second(mp@.program, mq@.program, h);
    assert(applied(le, renumbered(i, a).tail, mp@.blank) == lifted(applied(e, i.tail, mq@.blank), a));
}

/// The composition runs as the first machine does until that one halts.
proof fn lemma_composed_run_first<S: Symbol>(
    mp: Classic<S>,
    mq: Classic<S>,
    mpq: Classic<S>,
    c: ConfigurationView<S>,
    k: nat,
    n: nat,
)
    requires
        mp@.wf(),
        mq@.wf(),
        mp@.compose_result(mq@) == Ok::<_, TuringError<S>>(mpq@),
        c.state.0 != 0,
        k <= n,
        running_before(mp.step_fn(), c, n),
        run(mp.step_fn(), c, n) is Ok,
    ensures
        run(mpq.step_fn(), c, k) == Ok::<_, TuringError<S>>(
            relinked_state(run(mp.step_fn(), c, k)->Ok_0, mp@.program.last),
        ),
    decreases k,
{
    lemma_run_prefix(mp.step_fn(), c, k, n);
    if k > 0 {
        let j = (k - 1) as nat;
        lemma_composed_run_first(mp, mq, mpq, c, j, n);
        let d = run(mp.step_fn(), c, j)->Ok_0;
        assert(run(mp.step_fn(), c, j) matches Ok(d) && d.state.0 != 0);
        lemma_composed_step_first(mp, mq, mpq, d);
    }
}

/// The composition runs from a lifted configuration as the second machine
/// does from the configuration itself.
proof fn lemma_composed_run_second<S: Symbol>(
    mp: Classic<S>,
    mq: Classic<S>,
    mpq: Classic<S>,
    e: ConfigurationView<S>,
    k: nat,
)
    requires
        mp@.wf(),
        mq@.wf(),
        mp@.compose_result(mq@) == Ok::<_, TuringError<S>>(mpq@),
        run(mq.step_fn(), e, k) is Ok,
    ensures
        run(mpq.step_fn(), lifted(e, mp@.program.last), k) == Ok::<_, TuringError<S>>(
            lifted(run(mq.step_fn(), e, k)->Ok_0, mp@.program.last),
        ),
    decreases k,
{
    if k > 0 {
        let j = (k - 1) as nat;
        lemma_run_prefix(mq.step_fn(), e, j, k);
        lemma_composed_run_second(mp, mq, mpq, e, j);
        lemma_composed_step_second(mp, mq, mpq, run(mq.step_fn(), e, j)->Ok_0);
    }
}

/// Composition continues into the second machine: when the first machine,
/// started in one of its states, halts after `n` steps, and the second
/// machine, entered in its state `1` there, runs `k` steps, the composition
/// runs `n + k` steps to the same configuration, its state moved up by the
/// first machine's last state (the halt state kept).
pub proof fn lemma_composition_continues<S: Symbol>(
    mp: Classic<S>,
    mq: Classic<S>,
    mpq: Classic<S>,
    c: ConfigurationView<S>,
    n: nat,
    k: nat,
)
    requires
        mp@.wf(),
        mq@.wf(),
        mp@.compose_result(mq@) == Ok::<_, TuringError<S>>(mpq@),
        c.state.0 != 0,
        running_before(mp.step_fn(), c, n),
        halts_after(mp.step_fn(), c, n),
        run(mq.step_fn(), entered(run(mp.step_fn(), c, n)->Ok_0), k) is Ok,
    ensures
        run(mpq.step_fn(), c, n + k) == Ok::<_, TuringError<S>>(
            lifted(run(mq.step_fn(), entered(run(mp.step_fn(), c, n)->Ok_0), k)->Ok_0, mp@.program.last),
        ),
{
    let a = mp@.program.last;
    let d = run(mp.step_fn(), c, n)->Ok_0;
    lemma_composed_run_first(mp, mq, mpq, c, n, n);
    assert(relinked_state(d, a) == lifted(entered(d), a));
    lemma_run_split(mpq.step_fn(), c, n, k);
    lemma_composed_run_second(mp, mq, mpq, entered(d), k);
}

} // verus!
