//! Composition: one program run after another, with the second renumbered.

use vstd::prelude::*;

use crate::error::TuringError;
use crate::instruction::{Head, Instruction, State, Tail};
use crate::program::table::ProgramView;

verus! {

/// An instruction of the first part of a composition whose first part has
/// last state `a`: a halt becomes a jump to state `a + 1`, the second
/// part's first state.
pub open spec fn relinked<S>(inst: Instruction<S>, a: State) -> Instruction<S> {
    if inst.tail.state.0 == 0 {
        Instruction { tail: Tail { state: State((a.0 + 1) as usize), ..inst.tail }, ..inst }
    } else {
        inst
    }
}

/// An instruction of the second part of a composition whose first part has
/// last state `a`: every state moves up by `a`, but a halt stays a halt.
pub open spec fn renumbered<S>(inst: Instruction<S>, a: State) -> Instruction<S> {
    Instruction {
        head: Head { state: State((inst.head.state.0 + a.0) as usize), ..inst.head },
        tail: Tail {
            state: if inst.tail.state.0 == 0 {
                inst.tail.state
            } else {
                State((inst.tail.state.0 + a.0) as usize)
            },
            ..inst.tail
        },
    }
}

impl<S> ProgramView<S> {
    /// The composition of `self` then `other`: `self`'s instructions
    /// relinked, then `other`'s renumbered, over the states `1..=A+B`.
    pub open spec fn composed(self, other: ProgramView<S>) -> ProgramView<S> {
        ProgramView {
            instructions: self.instructions.map_values(|i: Instruction<S>| relinked(i, self.last))
                + other.instructions.map_values(|i: Instruction<S>| renumbered(i, self.last)),
            alphabet: self.alphabet,
            last: State((self.last.0 + other.last.0) as usize),
        }
    }

    /// What composing `self` with `other` gives.
    pub open spec fn compose_result(self, other: ProgramView<S>) -> Result<ProgramView<S>, TuringError<S>> {
        if self.alphabet != other.alphabet {
            Err(TuringError::AlphabetMismatch)
        } else if self.last.0 + other.last.0 > usize::MAX {
            Err(TuringError::StateCountOverflow)
        } else {
            Ok(self.composed(other))
        }
    }
}

/// Composing two valid programs over one alphabet gives a valid program.
pub proof fn lemma_composed_wf<S>(p: ProgramView<S>, q: ProgramView<S>)
    requires
        p.wf(),
        q.wf(),
        p.alphabet == q.alphabet,
        p.last.0 + q.last.0 <= usize::MAX,
    ensures
        p.composed(q).wf(),
{
    let c = p.composed(q);
    let n = p.instructions.len();
    let a = p.last;
    assert forall|i: int| 0 <= i < c.instructions.len() implies c.accepts(#[trigger] c.instructions[i]) by {
        if i < n {
            assert(p.accepts(p.instructions[i]));
            assert(c.instructions[i] == relinked(p.instructions[i], a));
        } else {
            assert(q.accepts(q.instructions[i - n]));
            assert(c.instructions[i] == renumbered(q.instructions[i - n], a));
        }
    }
    assert forall|i: int, j: int|
        0 <= i < c.instructions.len() && 0 <= j < c.instructions.len() && i != j
            implies (#[trigger] c.instructions[i]).head != (#[trigger] c.instructions[j]).head by {
        if i < n && j < n {
            assert(c.instructions[i].head == p.instructions[i].head);
            assert(c.instructions[j].head == p.instructions[j].head);
        } else if i >= n && j >= n {
            assert(c.instructions[i] == renumbered(q.instructions[i - n], a));
            assert(c.instructions[j] == renumbered(q.instructions[j - n], a));
            assert(q.instructions[i - n].head != q.instructions[j - n].head);
        } else if i < n {
            assert(p.accepts(p.instructions[i]));
            assert(c.instructions[i].head == p.instructions[i].head);
            assert(c.instructions[j] == renumbered(q.instructions[j - n], a));
            assert(q.accepts(q.instructions[j - n]));
        } else {
            assert(p.accepts(p.instructions[j]));
            assert(c.instructions[j].head == p.instructions[j].head);
            assert(c.instructions[i] == renumbered(q.instructions[i - n], a));
            assert(q.accepts(q.instructions[i - n]));
        }
    }
}

/// In a composition, a head in one of the first program's states finds
/// the first program's instruction, relinked, or nothing when that program
/// has none: the second program's states never collide with it.
pub proof fn lemma_composed_lookup_first<S>(p: ProgramView<S>, q: ProgramView<S>, h: Head<S>)
    requires
        p.wf(),
        q.wf(),
        p.alphabet == q.alphabet,
        p.last.0 + q.last.0 <= usize::MAX,
        h.state.0 <= p.last.0,
    ensures
        p.lookup(h) is None ==> p.composed(q).lookup(h) is None,
        p.lookup(h) matches Some(i) ==> p.composed(q).lookup(h) == Some(relinked(i, p.last)),
{
    let c = p.composed(q);
    let n = p.instructions.len();
    assert forall|j: int| n <= j < c.instructions.len() implies (#[trigger] c.instructions[j]).head != h by {
        assert(c.instructions[j] == renumbered(q.instructions[j - n], p.last));
        assert(q.accepts(q.instructions[j - n]));
    }
    if p.covers(h) {
        let i = choose|i: int| 0 <= i < p.instructions.len() && (#[trigger] p.instructions[i]).head == h;
        assert(c.instructions[i] == relinked(p.instructions[i], p.last));
        assert(c.covers(h));
        let j = choose|j: int| 0 <= j < c.instructions.len() && (#[trigger] c.instructions[j]).head == h;
        assert(j < n);
        assert(c.instructions[j] == relinked(p.instructions[j], p.last));
        assert(p.instructions[j].head == h);
    } else {
        if c.covers(h) {
            let j = choose|j: int| 0 <= j < c.instructions.len() && (#[trigger] c.instructions[j]).head == h;
            assert(c.instructions[j] == relinked(p.instructions[j], p.last));
            assert(p.instructions[j].head == h);
        }
    }
}

/// In a composition, a head in a state above the first program's last
/// state `A` finds the second program's instruction for the state `A`
/// lower, renumbered, or nothing when that program has none.
pub proof fn lemma_composed_lookup_second<S>(p: ProgramView<S>, q: ProgramView<S>, h: Head<S>)
    requires
        p.wf(),
        q.wf(),
        p.alphabet == q.alphabet,
        p.last.0 + q.last.0 <= usize::MAX,
        h.state.0 > p.last.0,
    ensures
        q.lookup(lowered(h, p.last)) is None ==> p.composed(q).lookup(h) is None,
        q.lookup(lowered(h, p.last)) matches Some(i) ==> p.composed(q).lookup(h) == Some(renumbered(i, p.last)),
{
    let c = p.composed(q);
    let n = p.instructions.len();
    let h2 = lowered(h, p.last);
    assert forall|j: int| 0 <= j < n implies (#[trigger] c.instructions[j]).head != h by {
        assert(c.instructions[j] == relinked(p.instructions[j], p.last));
        assert(p.accepts(p.instructions[j]));
    }
    assert forall|j: int| n <= j < c.instructions.len() implies ((#[trigger] c.instructions[j]).head == h
        <==> q.instructions[j - n].head == h2) by {
        assert(c.instructions[j] == renumbered(q.instructions[j - n], p.last));
        assert(q.accepts(q.instructions[j - n]));
    }
    if q.covers(h2) {
        let i = choose|i: int| 0 <= i < q.instructions.len() && (#[trigger] q.instructions[i]).head == h2;
        assert(c.instructions[i + n] == renumbered(q.instructions[i], p.last));
        assert(c.instructions[i + n].head == h);
        assert(c.covers(h));
        let j = choose|j: int| 0 <= j < c.instructions.len() && (#[trigger] c.instructions[j]).head == h;
        assert(j >= n);
        assert(q.instructions[j - n].head == h2);
        assert(c.instructions[j] == renumbered(q.instructions[j - n], p.last));
    } else {
        if c.covers(h) {
            let j = choose|j: int| 0 <= j < c.instructions.len() && (#[trigger] c.instructions[j]).head == h;
            assert(q.instructions[j - n].head == h2);
        }
    }
}

/// `h` with its state moved down by `a`.
pub open spec fn lowered<S>(h: Head<S>, a: State) -> Head<S> {
    Head { state: State((h.state.0 - a.0) as usize), ..h }
}

} // verus!
