//! The transition table and its validated insertion and lookup.

use vstd::prelude::*;

use crate::error::TuringError;
use crate::instruction::{Head, Instruction, State};
use crate::program::compose::{lemma_composed_wf, relinked, renumbered};
use crate::traits::{Symbol, With};

verus! {

/// The mathematical value of a [`Program`].
pub struct ProgramView<S> {
    /// The stored instructions, in the order they were added.
    pub instructions: Seq<Instruction<S>>,
    pub alphabet: Seq<S>,
    /// The highest state number the program may use.
    pub last: State,
}

impl<S> ProgramView<S> {
    /// Why `inst` cannot be stored in this program, if it cannot.
    pub open spec fn insert_error(self, inst: Instruction<S>) -> Option<TuringError<S>> {
        if inst.head.state.0 == 0 {
            Some(TuringError::HaltStateInHead)
        } else if !self.alphabet.contains(inst.head.symbol) || !self.alphabet.contains(
            inst.tail.symbol,
        ) {
            Some(TuringError::SymbolNotInAlphabet)
        } else if inst.head.state.0 > self.last.0 {
            Some(TuringError::StateAboveLast { state: inst.head.state, last: self.last })
        } else if inst.tail.state.0 > self.last.0 {
            Some(TuringError::StateAboveLast { state: inst.tail.state, last: self.last })
        } else {
            None
        }
    }

    /// `inst` may be stored in this program.
    pub open spec fn accepts(self, inst: Instruction<S>) -> bool {
        self.insert_error(inst) is None
    }

    /// Some stored instruction has head `head`.
    pub open spec fn covers(self, head: Head<S>) -> bool {
        exists|i: int| 0 <= i < self.instructions.len() && (#[trigger] self.instructions[i]).head == head
    }

    /// The stored instruction with head `head`, if there is one.
    pub open spec fn lookup(self, head: Head<S>) -> Option<Instruction<S>> {
        if self.covers(head) {
            Some(
                self.instructions[choose|i: int|
                    0 <= i < self.instructions.len() && (#[trigger] self.instructions[i]).head == head],
            )
        } else {
            None
        }
    }

    /// What a lookup of `head` answers.
    pub open spec fn get_result(self, head: Head<S>) -> Result<Option<Instruction<S>>, TuringError<S>> {
        if head.state.0 > self.last.0 {
            Err(TuringError::QueryAboveLast { state: head.state, last: self.last })
        } else {
            Ok(self.lookup(head))
        }
    }

    /// The program after `inst` is stored: it replaces the instruction with
    /// the same head in place, or else comes last.
    pub open spec fn inserted(self, inst: Instruction<S>) -> ProgramView<S> {
        if self.covers(inst.head) {
            let i = choose|i: int|
                0 <= i < self.instructions.len() && (#[trigger] self.instructions[i]).head == inst.head;
            ProgramView { instructions: self.instructions.update(i, inst), ..self }
        } else {
            ProgramView { instructions: self.instructions.push(inst), ..self }
        }
    }

    /// No two stored instructions share a head.
    pub open spec fn heads_unique(self) -> bool {
        forall|i: int, j: int|
            0 <= i < self.instructions.len() && 0 <= j < self.instructions.len() && i != j
                ==> (#[trigger] self.instructions[i]).head != (#[trigger] self.instructions[j]).head
    }

    /// The invariant of every program: a non-empty alphabet, at least one
    /// state, every instruction acceptable and no two with the same head.
    pub open spec fn wf(self) -> bool {
        &&& self.alphabet.len() > 0
        &&& self.last.0 >= 1
        &&& forall|i: int| 0 <= i < self.instructions.len() ==> self.accepts(#[trigger] self.instructions[i])
        &&& self.heads_unique()
    }
}

/// A transition table over a fixed alphabet and the states `1..=l_state`.
#[derive(Debug, PartialEq, Eq)]
pub struct Program<S> {
    container: Vec<Instruction<S>>,
    alphabet: Vec<S>,
    l_state: State,
}

impl<S> View for Program<S> {
    type V = ProgramView<S>;

    closed spec fn view(&self) -> ProgramView<S> {
        ProgramView { instructions: self.container@, alphabet: self.alphabet@, last: self.l_state }
    }
}

/// The value of an answer of [`Program::get`], without the reference.
pub open spec fn answer_view<S>(r: Result<Option<&Instruction<S>>, TuringError<S>>) -> Result<
    Option<Instruction<S>>,
    TuringError<S>,
> {
    match r {
        Ok(Some(inst)) => Ok(Some(*inst)),
        Ok(None) => Ok(None),
        Err(e) => Err(e),
    }
}

/// Two lookups of one head in one program, with no insertion between them,
/// give the same answer.
pub proof fn lemma_get_idempotent<S>(
    p: ProgramView<S>,
    head: Head<S>,
    first: Result<Option<&Instruction<S>>, TuringError<S>>,
    second: Result<Option<&Instruction<S>>, TuringError<S>>,
)
    requires
        answer_view(first) == p.get_result(head),
        answer_view(second) == p.get_result(head),
    ensures
        answer_view(first) == answer_view(second),
{
}

/// Tells whether `symbol` occurs in `alphabet`.
pub(crate) fn contains_symbol<S: Symbol>(alphabet: &Vec<S>, symbol: &S) -> (r: bool)
    ensures
        r == alphabet@.contains(*symbol),
{
    let mut i: usize = 0;
    while i < alphabet.len()
        invariant
            i <= alphabet@.len(),
            forall|j: int| 0 <= j < i ==> alphabet@[j] != *symbol,
        decreases alphabet@.len() - i,
    {
        if alphabet[i].same_as(symbol) {
            return true;
        }
        i = i + 1;
    }
    false
}

impl<S> Program<S> {
    #[verifier::type_invariant]
    closed spec fn inv(self) -> bool {
        self@.wf()
    }

    /// An empty program over `alphabet` with the states `1..=l_state`.
    pub fn new(alphabet: Vec<S>, l_state: State) -> (r: Program<S>)
        requires
            alphabet@.len() > 0,
            l_state.0 >= 1,
        ensures
            r@ == (ProgramView { instructions: Seq::<Instruction<S>>::empty(), alphabet: alphabet@, last: l_state }),
    {
        Program { container: Vec::new(), alphabet, l_state }
    }

    pub fn alphabet(&self) -> (r: &Vec<S>)
        ensures
            r@ == self@.alphabet,
    {
        &self.alphabet
    }

    pub fn l_state(&self) -> (r: State)
        ensures
            r == self@.last,
    {
        self.l_state
    }
}

/// An exact copy of `symbols`.
pub(crate) fn duplicate_symbols<S: Symbol>(symbols: &Vec<S>) -> (r: Vec<S>)
    ensures
        r@ == symbols@,
{
    let mut out: Vec<S> = Vec::new();
    let mut i: usize = 0;
    while i < symbols.len()
        invariant
            i <= symbols@.len(),
            out@ == symbols@.subrange(0, i as int),
        decreases symbols@.len() - i,
    {
        out.push(symbols[i].duplicate());
        i = i + 1;
    }
    proof {
        assert(symbols@.subrange(0, i as int) =~= symbols@);
    }
    out
}

impl<S: Symbol> Clone for Program<S> {
    fn clone(&self) -> (r: Program<S>)
        ensures
            r@ == self@,
    {
        proof {
            use_type_invariant(self);
        }
        let mut container: Vec<Instruction<S>> = Vec::new();
        let mut i: usize = 0;
        while i < self.container.len()
            invariant
                i <= self@.instructions.len(),
                container@ == self@.instructions.subrange(0, i as int),
            decreases self@.instructions.len() - i,
        {
            container.push(self.container[i].duplicate());
            i = i + 1;
        }
        proof {
            assert(self@.instructions.subrange(0, i as int) =~= self@.instructions);
        }
        Program { container, alphabet: duplicate_symbols(&self.alphabet), l_state: self.l_state }
    }
}

impl<S: Symbol> Program<S> {
    /// Where the instruction with head `head` is stored, if anywhere.
    fn position(&self, head: &Head<S>) -> (r: Option<usize>)
        ensures
            r matches Some(i) ==> i < self@.instructions.len() && self@.instructions[i as int].head == *head,
            r is None ==> !self@.covers(*head),
    {
        let mut i: usize = 0;
        while i < self.container.len()
            invariant
                i <= self@.instructions.len(),
                forall|j: int| 0 <= j < i ==> (#[trigger] self@.instructions[j]).head != *head,
            decreases self@.instructions.len() - i,
        {
            if self.container[i].head.same_as(head) {
                return Some(i);
            }
            i = i + 1;
        }
        None
    }

    /// The instruction for `head`, `None` when the table has none, or an
    /// error when `head` names a state above the last one.
    pub fn get(&self, head: &Head<S>) -> (r: Result<Option<&Instruction<S>>, TuringError<S>>)
        ensures
            answer_view(r) == self@.get_result(*head),
    {
        proof {
            use_type_invariant(self);
        }
        if self.l_state.0 < head.state.0 {
            return Err(TuringError::QueryAboveLast { state: head.state, last: self.l_state });
        }
        match self.position(head) {
            Some(i) => {
                proof {
                    let v = self@;
                    let k = choose|k: int| 0 <= k < v.instructions.len() && (#[trigger] v.instructions[k]).head == *head;
                    assert(v.instructions[i as int].head == v.instructions[k].head);
                }
                Ok(Some(&self.container[i]))
            },
            None => Ok(None),
        }
    }

    /// Stores `inst`, replacing the instruction with the same head and
    /// returning it, or returning `None` when the head was new. Fails, and
    /// changes nothing, when the instruction has state `0` in its head, a
    /// symbol outside the alphabet, or a state above the last one.
    pub fn insert(&mut self, inst: Instruction<S>) -> (r: Result<Option<Instruction<S>>, TuringError<S>>)
        ensures
            old(self)@.insert_error(inst) matches Some(e) ==> r == Err::<Option<Instruction<S>>, _>(e)
                && final(self)@ == old(self)@,
            old(self)@.accepts(inst) ==> r == Ok::<_, TuringError<S>>(old(self)@.lookup(inst.head))
                && final(self)@ == old(self)@.inserted(inst),
    {
        proof {
            use_type_invariant(&*self);
        }
        if inst.head.state.0 == 0 {
            return Err(TuringError::HaltStateInHead);
        }
        if !contains_symbol(&self.alphabet, &inst.head.symbol) || !contains_symbol(
            &self.alphabet,
            &inst.tail.symbol,
        ) {
            return Err(TuringError::SymbolNotInAlphabet);
        }
        if self.l_state.0 < inst.head.state.0 {
            return Err(TuringError::StateAboveLast { state: inst.head.state, last: self.l_state });
        }
        if self.l_state.0 < inst.tail.state.0 {
            return Err(TuringError::StateAboveLast { state: inst.tail.state, last: self.l_state });
        }
        let ghost pre = self@;
        let found = self.position(&inst.head);
        // The table is taken out whole, changed, and put back, so that the
        // invariant is checked once, on the changed table.
        let mut taken = Program {
            container: Vec::new(),
            alphabet: vec![inst.head.symbol.duplicate()],
            l_state: State(1),
        };
        std::mem::swap(self, &mut taken);
        let Program { mut container, alphabet, l_state } = taken;
        match found {
            Some(i) => {
                let replaced = container[i].duplicate();
                proof {
                    let k = choose|k: int| 0 <= k < pre.instructions.len() && (#[trigger] pre.instructions[k]).head == inst.head;
                    assert(pre.instructions[i as int].head == pre.instructions[k].head);
                    assert(k == i);
                    let post = pre.inserted(inst);
                    assert forall|a: int, b: int|
                        0 <= a < post.instructions.len() && 0 <= b < post.instructions.len() && a != b
                            implies (#[trigger] post.instructions[a]).head != (#[trigger] post.instructions[b]).head by {
                        if a != i && b != i {
                            assert(pre.instructions[a] == post.instructions[a]);
                            assert(pre.instructions[b] == post.instructions[b]);
                        } else if a == i {
                            assert(pre.instructions[b] == post.instructions[b]);
                            assert(pre.instructions[i as int].head != pre.instructions[b].head);
                        } else {
                            assert(pre.instructions[a] == post.instructions[a]);
                            assert(pre.instructions[i as int].head != pre.instructions[a].head);
                        }
                    }
                    assert(forall|j: int| 0 <= j < post.instructions.len() ==> post.accepts(#[trigger] post.instructions[j])) by {
                        assert forall|j: int| 0 <= j < post.instructions.len() implies post.accepts(#[trigger] post.instructions[j]) by {
                            if j != i {
                                assert(pre.instructions[j] == post.instructions[j]);
                            }
                        }
                    }
                }
                container.set(i, inst);
                *self = Program { container, alphabet, l_state };
                Ok(Some(replaced))
            },
            None => {
                proof {
                    let post = pre.inserted(inst);
                    let n = pre.instructions.len();
                    assert forall|a: int, b: int|
                        0 <= a < post.instructions.len() && 0 <= b < post.instructions.len() && a != b
                            implies (#[trigger] post.instructions[a]).head != (#[trigger] post.instructions[b]).head by {
                        if a < n && b < n {
                            assert(pre.instructions[a] == post.instructions[a]);
                            assert(pre.instructions[b] == post.instructions[b]);
                        } else if a == n {
                            assert(pre.instructions[b] == post.instructions[b]);
                        } else {
                            assert(pre.instructions[a] == post.instructions[a]);
                        }
                    }
                    assert forall|j: int| 0 <= j < post.instructions.len() implies post.accepts(#[trigger] post.instructions[j]) by {
                        if j < n {
                            assert(pre.instructions[j] == post.instructions[j]);
                        }
                    }
                }
                container.push(inst);
                *self = Program { container, alphabet, l_state };
                Ok(None)
            },
        }
    }
}

/// Tells whether two alphabets hold the same symbols in the same order.
fn same_symbols<S: Symbol>(a: &Vec<S>, b: &Vec<S>) -> (r: bool)
    ensures
        r == (a@ == b@),
{
    if a.len() != b.len() {
        return false;
    }
    let mut i: usize = 0;
    while i < a.len()
        invariant
            a@.len() == b@.len(),
            i <= a@.len(),
            forall|j: int| 0 <= j < i ==> a@[j] == b@[j],
        decreases a@.len() - i,
    {
        if !a[i].same_as(&b[i]) {
            return false;
        }
        i = i + 1;
    }
    proof {
        assert(a@ =~= b@);
    }
    true
}

impl<S: Symbol> With<Program<S>> for Program<S> {
    type Output = Result<Program<S>, TuringError<S>>;

    /// The program that runs `self`, and where `self` halts, runs `other`
    /// from its first state. Fails when the alphabets differ, or when the
    /// states of both do not fit in `usize`.
    fn with(&self, other: &Program<S>) -> (r: Result<Program<S>, TuringError<S>>)
        ensures
            match r {
                Ok(p) => self@.compose_result(other@) == Ok::<_, TuringError<S>>(p@),
                Err(e) => self@.compose_result(other@) == Err::<ProgramView<S>, _>(e),
            },
    {
        proof {
            use_type_invariant(self);
            use_type_invariant(other);
        }
        if !same_symbols(&self.alphabet, &other.alphabet) {
            return Err(TuringError::AlphabetMismatch);
        }
        if other.l_state.0 > usize::MAX - self.l_state.0 {
            return Err(TuringError::StateCountOverflow);
        }
        let a = self.l_state;
        let ghost first = self@.instructions.map_values(|i: Instruction<S>| relinked(i, a));
        let ghost second = other@.instructions.map_values(|i: Instruction<S>| renumbered(i, a));
        let mut container: Vec<Instruction<S>> = Vec::new();
        let mut i: usize = 0;
        while i < self.container.len()
            invariant
                i <= self@.instructions.len(),
                a == self@.last,
                a.0 < usize::MAX,
                first == self@.instructions.map_values(|i: Instruction<S>| relinked(i, a)),
                container@ == first.subrange(0, i as int),
            decreases self@.instructions.len() - i,
        {
            let mut inst = self.container[i].duplicate();
            if inst.tail.state.0 == 0 {
                inst.tail.state = State(a.0 + 1);
            }
            container.push(inst);
            i = i + 1;
        }
        proof {
            assert(first.subrange(0, i as int) =~= first);
        }
        let mut j: usize = 0;
        while j < other.container.len()
            invariant
                j <= other@.instructions.len(),
                a == self@.last,
                other@.wf(),
                a.0 + other@.last.0 <= usize::MAX,
                second == other@.instructions.map_values(|i: Instruction<S>| renumbered(i, a)),
                container@ == first + second.subrange(0, j as int),
            decreases other@.instructions.len() - j,
        {
            let mut inst = other.container[j].duplicate();
            proof {
                assert(other@.accepts(other@.instructions[j as int]));
            }
            inst.head.state = State(inst.head.state.0 + a.0);
            if inst.tail.state.0 != 0 {
                inst.tail.state = State(inst.tail.state.0 + a.0);
            }
            container.push(inst);
            proof {
                assert(first + second.subrange(0, j + 1) =~= (first + second.subrange(0, j as int)).push(
                    second[j as int],
                ));
            }
            j = j + 1;
        }
        proof {
            assert(second.subrange(0, j as int) =~= second);
            lemma_composed_wf(self@, other@);
        }
        Ok(
            Program {
                container,
                alphabet: duplicate_symbols(&self.alphabet),
                l_state: State(a.0 + other.l_state.0),
            },
        )
    }
}

} // verus!
