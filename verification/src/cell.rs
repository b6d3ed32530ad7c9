//! A single cell of the automaton and the rule by which it lives or dies.

use vstd::prelude::*;

verus! {

/// The state of one cell. There is no third state.
#[derive(Clone, Copy, Debug, PartialEq, Eq, Structural)]
pub enum Cell {
    Dead,
    Alive,
}

impl Cell {
    /// The opposite state.
    pub open spec fn toggled(self) -> Cell {
        match self {
            Cell::Dead => Cell::Alive,
            Cell::Alive => Cell::Dead,
        }
    }

    /// What the cell adds to a count of live cells: 1 if alive, 0 if dead.
    pub open spec fn live(self) -> int {
        match self {
            Cell::Dead => 0,
            Cell::Alive => 1,
        }
    }

    /// The cell's state one generation later, given how many of its eight
    /// neighbours are alive now: a cell is alive then exactly if it has three
    /// live neighbours, or is alive and has two.
    pub open spec fn next(self, live_neighbors: int) -> Cell {
        if live_neighbors == 3 || (self == Cell::Alive && live_neighbors == 2) {
            Cell::Alive
        } else {
            Cell::Dead
        }
    }

    /// Flips the cell in place: dead becomes alive, alive becomes dead.
    pub fn toggle(&mut self)
        ensures
            *final(self) == old(self).toggled(),
    {
        *self = match *self {
            Cell::Dead => Cell::Alive,
            Cell::Alive => Cell::Dead,
        };
    }

    /// The cell's numeric value: 1 if alive, 0 if dead.
    pub fn value(self) -> (n: u8)
        ensures
            n == self.live(),
    {
        match self {
            Cell::Dead => 0,
            Cell::Alive => 1,
        }
    }
}

} // verus!
