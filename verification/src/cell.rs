//! The two states of a grid position.

use vstd::prelude::*;

verus! {

/// One position of the grid: either dead or alive.
#[derive(Clone, Copy, Debug, PartialEq, Eq, Structural)]
pub enum Cell {
    Dead,
    Alive,
}

impl Cell {
    /// What the cell adds to a neighbour count: 0 when dead, 1 when alive.
    pub open spec fn count(self) -> nat {
        match self {
            Cell::Dead => 0,
            Cell::Alive => 1,
        }
    }

    /// The opposite state.
    pub open spec fn flipped(self) -> Cell {
        match self {
            Cell::Dead => Cell::Alive,
            Cell::Alive => Cell::Dead,
        }
    }

    /// The character that stands for the cell in a rendering.
    pub open spec fn glyph(self) -> char {
        match self {
            Cell::Dead => '◻',
            Cell::Alive => '◼',
        }
    }

    /// The state of a cell in the next generation, given its current state
    /// and the number of its live neighbours: a live cell survives on two or
    /// three, a dead cell is born on exactly three, every other cell is dead.
    pub open spec fn next(self, live_neighbors: nat) -> Cell {
        match self {
            Cell::Alive => if live_neighbors == 2 || live_neighbors == 3 {
                Cell::Alive
            } else {
                Cell::Dead
            },
            Cell::Dead => if live_neighbors == 3 {
                Cell::Alive
            } else {
                Cell::Dead
            },
        }
    }

    /// Flips the cell in place.
    pub fn toggle(&mut self)
        ensures
            *final(self) == old(self).flipped(),
    {
        *self = match *self {
            Cell::Dead => Cell::Alive,
            Cell::Alive => Cell::Dead,
        };
    }

    /// The cell as a number, for summing neighbours.
    pub fn value(self) -> (n: u8)
        ensures
            n == self.count(),
    {
        match self {
            Cell::Dead => 0,
            Cell::Alive => 1,
        }
    }

    /// The character drawn for the cell.
    pub fn symbol(self) -> (c: char)
        ensures
            c == self.glyph(),
    {
        match self {
            Cell::Dead => '◻',
            Cell::Alive => '◼',
        }
    }

    /// Applies the transition rule as an ordered table: underpopulation,
    /// survival, overpopulation, reproduction, and otherwise no change.
    pub fn step(self, live_neighbors: u8) -> (next: Cell)
        ensures
            next == self.next(live_neighbors as nat),
    {
        match self {
            Cell::Alive => {
                if live_neighbors < 2 {
                    Cell::Dead
                } else if live_neighbors == 2 || live_neighbors == 3 {
                    Cell::Alive
                } else {
                    Cell::Dead
                }
            },
            Cell::Dead => {
                if live_neighbors == 3 {
                    Cell::Alive
                } else {
                    Cell::Dead
                }
            },
        }
    }
}

} // verus!
