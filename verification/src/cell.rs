//! The two states a cell can be in.

use vstd::prelude::*;

verus! {

/// The state of one cell. In the packed storage a dead cell is a 0 bit and a live cell a 1 bit.
#[derive(Debug, Clone, Copy, PartialEq, Eq, Structural)]
pub enum Cell {
    Dead,
    Alive,
}

impl Cell {
    /// The other state.
    pub open spec fn toggled(self) -> Cell {
        match self {
            Cell::Dead => Cell::Alive,
            Cell::Alive => Cell::Dead,
        }
    }

    /// Flips the cell to its other state.
    pub fn toggle(&mut self)
        ensures
            *final(self) == old(self).toggled(),
    {
        *self = match *self {
            Cell::Dead => Cell::Alive,
            Cell::Alive => Cell::Dead,
        };
    }
}

/// Toggling a cell twice gives back the state it started in.
pub proof fn lemma_toggle_involution(c: Cell)
    ensures
        c.toggled().toggled() == c,
        c.toggled() != c,
{
}

} // verus!
