//! Adding many instructions at once.

use vstd::prelude::*;

use crate::error::TuringError;
use crate::instruction::{Head, Instruction, Move, State, Tail};
use crate::program::table::{Program, ProgramView};
use crate::traits::Symbol;

verus! {

/// Adding the items of a collection one by one, stopping at the first one
/// that is refused.
pub trait Extend<I> {
    type Error;

    fn extend(&mut self, iterable: I) -> Result<(), Self::Error>;
}

/// The instruction that a tuple `(head state, head symbol, tail state,
/// tail symbol, movement)` describes.
pub open spec fn tuple_instruction<S>(t: (usize, S, usize, S, Move)) -> Instruction<S> {
    Instruction {
        head: Head { state: State(t.0), symbol: t.1 },
        tail: Tail { state: State(t.2), symbol: t.3, movement: t.4 },
    }
}

/// The instructions that a sequence of tuples describes.
pub open spec fn tuple_instructions<S>(ts: Seq<(usize, S, usize, S, Move)>) -> Seq<Instruction<S>> {
    ts.map_values(|t: (usize, S, usize, S, Move)| tuple_instruction(t))
}

impl<S> ProgramView<S> {
    /// The program after each of `insts` is stored, in order.
    pub open spec fn inserted_all(self, insts: Seq<Instruction<S>>) -> ProgramView<S>
        decreases insts.len(),
    {
        if insts.len() == 0 {
            self
        } else {
            self.inserted_all(insts.drop_last()).inserted(insts.last())
        }
    }

    /// Each of `insts` may be stored in this program.
    pub open spec fn accepts_all(self, insts: Seq<Instruction<S>>) -> bool {
        forall|k: int| 0 <= k < insts.len() ==> self.accepts(#[trigger] insts[k])
    }
}

/// Storing instructions changes neither the alphabet nor the last state.
proof fn lemma_inserted_all_keeps_frame<S>(p: ProgramView<S>, insts: Seq<Instruction<S>>)
    ensures
        p.inserted_all(insts).alphabet == p.alphabet,
        p.inserted_all(insts).last == p.last,
    decreases insts.len(),
{
    if insts.len() > 0 {
        lemma_inserted_all_keeps_frame(p, insts.drop_last());
    }
}

impl<S: Symbol> Extend<Vec<(usize, S, usize, S, Move)>> for Program<S> {
    type Error = TuringError<S>;

    /// Inserts the instruction each tuple describes, in order. On the first
    /// one refused, stops with its error, keeping those stored before it.
    fn extend(&mut self, iterable: Vec<(usize, S, usize, S, Move)>) -> (r: Result<(), TuringError<S>>)
        ensures
            r is Ok <==> old(self)@.accepts_all(tuple_instructions(iterable@)),
            r is Ok ==> final(self)@ == old(self)@.inserted_all(tuple_instructions(iterable@)),
            r matches Err(e) ==> exists|k: int|
                0 <= k < iterable@.len()
                && old(self)@.accepts_all(#[trigger] tuple_instructions(iterable@).take(k))
                && old(self)@.insert_error(tuple_instructions(iterable@)[k]) == Some(e)
                && final(self)@ == old(self)@.inserted_all(tuple_instructions(iterable@).take(k)),
    {
        let ghost start = self@;
        let ghost insts = tuple_instructions(iterable@);
        let mut i: usize = 0;
        while i < iterable.len()
            invariant
                i <= iterable@.len(),
                insts == tuple_instructions(iterable@),
                start == old(self)@,
                start.accepts_all(insts.take(i as int)),
                self@ == start.inserted_all(insts.take(i as int)),
            decreases iterable@.len() - i,
        {
            let item = &iterable[i];
            let inst = Instruction::build(State(item.0), item.1.duplicate(), State(item.2), item.3.duplicate(), item.4);
            proof {
                assert(inst == insts[i as int]);
                lemma_inserted_all_keeps_frame(start, insts.take(i as int));
                assert(insts.take(i + 1).drop_last() =~= insts.take(i as int));
            }
            match self.insert(inst) {
                Ok(_) => {},
                Err(e) => {
                    return Err(e);
                },
            }
            proof {
                assert forall|k: int| 0 <= k < i + 1 implies start.accepts(#[trigger] insts.take(i + 1)[k]) by {
                    if k < i {
                        assert(insts.take(i + 1)[k] == insts.take(i as int)[k]);
                    }
                }
            }
            i = i + 1;
        }
        proof {
            assert(insts.take(i as int) =~= insts);
        }
        Ok(())
    }
}

} // verus!
