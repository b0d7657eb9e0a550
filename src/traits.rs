//! The capability that tape symbols need, and the composition trait.

use vstd::prelude::*;

verus! {

/// What the interpreter needs of an alphabet element: an exact copy and an
/// exact equality test.
pub trait Symbol: Sized {
    /// Returns a value equal to `self`.
    fn duplicate(&self) -> (r: Self)
        ensures
            r == *self,
    ;

    /// Tells whether `self` and `other` are the same symbol.
    fn same_as(&self, other: &Self) -> (r: bool)
        ensures
            r == (*self == *other),
    ;
}

impl Symbol for char {
    fn duplicate(&self) -> (r: char) {
        *self
    }

    fn same_as(&self, other: &char) -> (r: bool) {
        *self == *other
    }
}

impl Symbol for bool {
    fn duplicate(&self) -> (r: bool) {
        *self
    }

    fn same_as(&self, other: &bool) -> (r: bool) {
        *self == *other
    }
}

impl Symbol for u8 {
    fn duplicate(&self) -> (r: u8) {
        *self
    }

    fn same_as(&self, other: &u8) -> (r: bool) {
        *self == *other
    }
}

impl Symbol for u32 {
    fn duplicate(&self) -> (r: u32) {
        *self
    }

    fn same_as(&self, other: &u32) -> (r: bool) {
        *self == *other
    }
}

impl Symbol for usize {
    fn duplicate(&self) -> (r: usize) {
        *self
    }

    fn same_as(&self, other: &usize) -> (r: bool) {
        *self == *other
    }
}

impl<T: Symbol> Symbol for Box<T> {
    fn duplicate(&self) -> (r: Box<T>) {
        Box::new((**self).duplicate())
    }

    fn same_as(&self, other: &Box<T>) -> (r: bool) {
        (**self).same_as(&**other)
    }
}

/// Concatenation of two machines into one that runs the first, then the second.
pub trait With<T> {
    type Output;

    fn with(&self, other: &T) -> Self::Output;
}

} // verus!
