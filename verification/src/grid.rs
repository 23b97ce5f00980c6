//! The mathematical model of the grid: what a grid is, which cells count as
//! neighbours, and what one generation does to it.
//!
//! Everything here is specification. The executable engine in
//! [`crate::conways`] is proved against these definitions.

use vstd::prelude::*;
use crate::cell::CellState;

verus! {

/// Number of rows of every grid the engine builds.
pub const ROWS: usize = 32;

/// Number of columns of every grid the engine builds.
pub const COLUMNS: usize = 32;

/// A cell's coordinates: row first, then column.
pub type Position = (usize, usize);

/// A grid as a sequence of rows.
pub type Grid = Seq<Seq<CellState>>;

/// The grid has exactly `ROWS` rows of exactly `COLUMNS` cells each.
pub open spec fn well_formed(g: Grid) -> bool {
    &&& g.len() == ROWS
    &&& forall|r: int| 0 <= r < g.len() ==> (#[trigger] g[r]).len() == COLUMNS
}

/// Row `r`, column `c` names a cell of the grid.
pub open spec fn in_bounds(g: Grid, r: int, c: int) -> bool {
    0 <= r < g.len() && 0 <= c < g[r].len()
}

/// The cell at row `r`, column `c` exists and is alive. A position outside
/// the grid holds no live cell.
pub open spec fn alive_at(g: Grid, r: int, c: int) -> bool {
    in_bounds(g, r, c) && g[r][c] == CellState::Alive
}

/// What the position at row `r`, column `c` adds to a count of live cells.
pub open spec fn live(g: Grid, r: int, c: int) -> nat {
    if alive_at(g, r, c) {
        1
    } else {
        0
    }
}

/// The number of live cells among the eight positions that surround row `r`,
/// column `c`. Positions beyond the edge of the grid add nothing.
pub open spec fn neighbor_count(g: Grid, r: int, c: int) -> nat {
    live(g, r - 1, c - 1) + live(g, r - 1, c) + live(g, r - 1, c + 1)
        + live(g, r, c - 1) + live(g, r, c + 1)
        + live(g, r + 1, c - 1) + live(g, r + 1, c) + live(g, r + 1, c + 1)
}

/// The positions of the live cells of the grid.
pub open spec fn population(g: Grid) -> Set<Position> {
    Set::new(|p: Position| alive_at(g, p.0 as int, p.1 as int))
}

/// The grid of the configured size in which every cell is dead.
pub open spec fn blank() -> Grid {
    Seq::new(ROWS as nat, |r: int| Seq::new(COLUMNS as nat, |c: int| CellState::Dead))
}

/// The grid of the configured size in which a cell is alive exactly when its
/// position occurs in `cells`. Positions outside the grid name no cell, and a
/// position that occurs twice counts once.
pub open spec fn seeded(cells: Seq<Position>) -> Grid {
    Seq::new(
        ROWS as nat,
        |r: int|
            Seq::new(
                COLUMNS as nat,
                |c: int|
                    if cells.contains((r as usize, c as usize)) {
                        CellState::Alive
                    } else {
                        CellState::Dead
                    },
            ),
    )
}

/// What holds of the positions of a random seeding, whatever the generator
/// yields: there are half as many as the grid has cells, and each names a
/// cell of the grid.
pub open spec fn drawn(cells: Seq<Position>) -> bool {
    &&& cells.len() == (ROWS * COLUMNS) / 2
    &&& forall|i: int|
        0 <= i < cells.len() ==> (#[trigger] cells[i]).0 < ROWS && cells[i].1 < COLUMNS
}

/// The grid `g` with the cell at row `r`, column `c` flipped. A position
/// outside the grid leaves `g` as it is.
pub open spec fn toggled(g: Grid, r: int, c: int) -> Grid {
    if in_bounds(g, r, c) {
        g.update(r, g[r].update(c, g[r][c].flipped()))
    } else {
        g
    }
}

/// The generation that follows `g`: a grid of the same shape in which every
/// cell is the successor of the cell at the same position in `g`, judged by
/// the neighbours it has in `g`.
pub open spec fn next_generation(g: Grid) -> Grid {
    Seq::new(
        g.len(),
        |r: int| Seq::new(g[r].len(), |c: int| g[r][c].successor(neighbor_count(g, r, c))),
    )
}

} // verus!
