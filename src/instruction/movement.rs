//! Head movements.

use vstd::prelude::*;

verus! {

/// How the head moves after a write.
#[derive(Clone, Copy, Debug, PartialEq, Eq, Structural)]
pub enum Move {
    Left,
    Right,
    Stay,
}

impl Move {
    /// The movement seen from the head index before and after a step. A move
    /// left from the first cell grows the tape and keeps the index, so it
    /// shows as `Stay`.
    pub fn observed(old_index: usize, new_index: usize) -> (r: Move)
        ensures
            new_index > old_index ==> r == Move::Right,
            new_index < old_index ==> r == Move::Left,
            new_index == old_index ==> r == Move::Stay,
    {
        if new_index > old_index {
            Move::Right
        } else if new_index < old_index {
            Move::Left
        } else {
            Move::Stay
        }
    }
}

} // verus!
