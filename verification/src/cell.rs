//! The state of a single cell and the rule by which it changes.

use vstd::prelude::*;

verus! {

/// A cell is either alive or dead; there is no third state.
#[derive(Clone, Copy, PartialEq, Eq, Structural, Debug)]
pub enum CellState {
    Alive,
    Dead,
}

impl CellState {
    /// The state this cell takes in the next generation when `neighbors` of
    /// the cells around it are alive now.
    ///
    /// A live cell survives with two or three live neighbours; a dead cell
    /// comes to life with exactly three. In every other case the cell is dead.
    pub open spec fn successor(self, neighbors: nat) -> CellState {
        match self {
            CellState::Alive => if neighbors == 2 || neighbors == 3 {
                CellState::Alive
            } else {
                CellState::Dead
            },
            CellState::Dead => if neighbors == 3 {
                CellState::Alive
            } else {
                CellState::Dead
            },
        }
    }

    /// The other state.
    pub open spec fn flipped(self) -> CellState {
        match self {
            CellState::Alive => CellState::Dead,
            CellState::Dead => CellState::Alive,
        }
    }
}

} // verus!
