//! Undo history hook. Marks are append-only and no history is kept: the
//! operations are accepted and change nothing.

use vstd::prelude::*;

verus! {

#[derive(Clone, Copy, Debug, PartialEq, Eq, Structural)]
pub struct History;

impl History {
    pub fn new() -> (h: History)
        ensures
            h == History,
    {
        History
    }

    /// Records a snapshot; no history is kept, so nothing changes.
    pub fn push(&mut self)
        ensures
            *final(self) == *old(self),
    {
    }

    /// Undoes the last operation; no history is kept, so nothing changes.
    pub fn undo(&mut self)
        ensures
            *final(self) == *old(self),
    {
    }
}

} // verus!
