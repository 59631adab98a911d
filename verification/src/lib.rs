//! A toroidal (edge-wrapping) Conway's Game of Life engine together with the
//! pixel-to-cell coordinate transform used for interactive editing and
//! panning.  The grid, the generation transition, the run/pause state machine
//! and the coordinate mapping are all specified and verified here; drawing and
//! event handling are left to the host loop.

use vstd::prelude::*;

pub mod universe;

pub use universe::Universe;

verus! {

/// The binary state of one grid cell.
#[derive(Clone, Copy, Debug, PartialEq, Eq, Structural)]
pub enum Cell {
    Dead,
    Alive,
}

/// Numeric projection of a cell: `Dead` counts 0, `Alive` counts 1.
pub open spec fn cell_bit(c: Cell) -> int {
    match c {
        Cell::Dead => 0,
        Cell::Alive => 1,
    }
}

impl Cell {
    /// Executable form of the numeric projection used for neighbor sums.
    pub fn bit(self) -> (r: u8)
        ensures
            r as int == cell_bit(self),
    {
        match self {
            Cell::Dead => 0,
            Cell::Alive => 1,
        }
    }
}

/// Whether the simulation advances on a tick.
#[derive(Clone, Copy, Debug, PartialEq, Eq, Structural)]
pub enum State {
    Running,
    Paused,
}

impl State {
    /// The opposite run state, at the specification level.
    pub open spec fn spec_toggled(self) -> State {
        match self {
            State::Running => State::Paused,
            State::Paused => State::Running,
        }
    }

    /// The opposite run state.
    pub fn toggle(&self) -> (r: State)
        ensures
            r == self.spec_toggled(),
    {
        match self {
            State::Running => State::Paused,
            State::Paused => State::Running,
        }
    }
}

/// The classic Game of Life rule: an `Alive` cell survives with exactly 2 or 3
/// live neighbors, a `Dead` cell becomes `Alive` with exactly 3, and every
/// other combination yields `Dead` for live cells and leaves dead cells dead.
pub open spec fn transition(neighbors: int, c: Cell) -> Cell {
    match c {
        Cell::Alive => if 2 <= neighbors && neighbors <= 3 {
            Cell::Alive
        } else {
            Cell::Dead
        },
        Cell::Dead => if neighbors == 3 {
            Cell::Alive
        } else {
            Cell::Dead
        },
    }
}

/// The next value of a single cell, given its current value and the number of
/// live neighbors.  Matches `transition` on every input pair.
pub fn next_cell_value(neighbors: u8, c: Cell) -> (r: Cell)
    ensures
        r == transition(neighbors as int, c),
{
    match c {
        Cell::Alive => {
            if neighbors < 2 {
                Cell::Dead
            } else if neighbors > 3 {
                Cell::Dead
            } else {
                Cell::Alive
            }
        },
        Cell::Dead => {
            if neighbors == 3 {
                Cell::Alive
            } else {
                Cell::Dead
            }
        },
    }
}

} // verus!
