//! The tape: a growable sequence of symbols.

use vstd::prelude::*;

verus! {

/// An ordered sequence of symbols, only as long as has been visited.
#[derive(Clone, Debug, PartialEq, Eq)]
pub struct Tape<S> {
    tape: Vec<S>,
}

impl<S> View for Tape<S> {
    type V = Seq<S>;

    closed spec fn view(&self) -> Seq<S> {
        self.tape@
    }
}

impl<S> Tape<S> {
    /// Builds a tape holding `symbols` in order.
    pub fn new(symbols: Vec<S>) -> (r: Tape<S>)
        ensures
            r@ == symbols@,
    {
        Tape { tape: symbols }
    }

    pub fn as_vec(&self) -> (r: &Vec<S>)
        ensures
            r@ == self@,
    {
        &self.tape
    }

    /// The symbol at `index`, or `None` past the end.
    pub fn get(&self, index: usize) -> (r: Option<&S>)
        ensures
            index < self@.len() ==> r == Some(&self@[index as int]),
            index >= self@.len() ==> r is None,
    {
        if index < self.tape.len() {
            Some(&self.tape[index])
        } else {
            None
        }
    }

    /// Puts `element` at `index`, shifting the cells from there one to the right.
    pub fn insert(&mut self, index: usize, element: S)
        requires
            index <= old(self)@.len(),
        ensures
            final(self)@ == old(self)@.insert(index as int, element),
    {
        self.tape.insert(index, element);
    }

    pub fn is_empty(&self) -> (r: bool)
        ensures
            r == (self@.len() == 0),
    {
        self.tape.len() == 0
    }

    pub fn len(&self) -> (r: usize)
        ensures
            r == self@.len(),
    {
        self.tape.len()
    }

    /// Overwrites the cell at `index`.
    pub fn set(&mut self, index: usize, element: S)
        requires
            index < old(self)@.len(),
        ensures
            final(self)@ == old(self)@.update(index as int, element),
    {
        self.tape.set(index, element);
    }
}

impl Tape<char> {
    /// Builds a tape with one cell for each character of `text`, in order.
    pub fn from_text(text: &str) -> (r: Tape<char>)
        ensures
            r@ == text@,
    {
        let n = text.unicode_len();
        let mut cells: Vec<char> = Vec::new();
        let mut i: usize = 0;
        while i < n
            invariant
                n == text@.len(),
                i <= n,
                cells@ == text@.subrange(0, i as int),
            decreases n - i,
        {
            cells.push(text.get_char(i));
            i = i + 1;
        }
        proof {
            assert(text@.subrange(0, n as int) =~= text@);
        }
        Tape { tape: cells }
    }

    /// The tape's symbols as text, one character per cell.
    pub fn to_string(&self) -> (r: String)
        ensures
            r@ == self@,
    {
        string_from_chars(&self.tape)
    }
}

/// Relies on `String`'s `FromIterator<char>`: the string holds the characters in order.
#[verifier::external_body]
fn string_from_chars(chars: &Vec<char>) -> (r: String)
    ensures
        r@ == chars@,
{
    chars.iter().collect()
}

impl<'a> From<&'a str> for Tape<char> {
    fn from(text: &'a str) -> (r: Tape<char>)
        ensures
            r@ == text@,
    {
        Tape::from_text(text)
    }
}

impl<'a> vstd::std_specs::convert::FromSpecImpl<&'a str> for Tape<char> {
    open spec fn obeys_from_spec() -> bool {
        false
    }

    open spec fn from_spec(v: &'a str) -> Tape<char> {
        arbitrary()
    }
}

impl From<String> for Tape<char> {
    fn from(text: String) -> (r: Tape<char>)
        ensures
            r@ == text@,
    {
        Tape::from_text(text.as_str())
    }
}

impl vstd::std_specs::convert::FromSpecImpl<String> for Tape<char> {
    open spec fn obeys_from_spec() -> bool {
        false
    }

    open spec fn from_spec(v: String) -> Tape<char> {
        arbitrary()
    }
}

} // verus!
