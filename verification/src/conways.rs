//! The engine: a grid that is built, stepped, toggled and cleared in place.

use vstd::prelude::*;
use rand::rngs::StdRng;
use crate::cell::CellState;
use crate::grid::{Grid, Position, COLUMNS, ROWS};
use crate::grid::{
    alive_at, blank, drawn, live, neighbor_count, next_generation, population, seeded, toggled,
    well_formed,
};
use crate::laws::{lemma_population_bounded, lemma_seeded_none, lemma_seeded_push};
use crate::random::draw_below;

verus! {

/// The engine and the grid it owns.
pub struct Conways {
    pub grid: Vec<Vec<CellState>>,
}

impl View for Conways {
    type V = Grid;

    /// The grid as a sequence of rows.
    open spec fn view(&self) -> Grid {
        Seq::new(self.grid@.len(), |r: int| self.grid@[r]@)
    }
}

/// The eight offsets from a cell to the cells around it, in the order in
/// which they are counted.
spec fn offsets() -> Seq<(int, int)> {
    seq![(-1, -1), (-1, 0), (-1, 1), (0, -1), (0, 1), (1, -1), (1, 0), (1, 1)]
}

/// The number of live cells among the first `k` directions around row `r`,
/// column `c`.
spec fn live_in_first(g: Grid, r: int, c: int, k: nat) -> nat
    decreases k,
{
    if k == 0 {
        0
    } else {
        let d = offsets()[k - 1];
        live_in_first(g, r, c, (k - 1) as nat) + live(g, r + d.0, c + d.1)
    }
}

/// Counting direction by direction gives the neighbour count.
proof fn lemma_count_by_directions(g: Grid, r: int, c: int)
    ensures
        live_in_first(g, r, c, 8) == neighbor_count(g, r, c),
{
    reveal_with_fuel(live_in_first, 9);
}

impl Conways {
    /// A grid of the configured size with every cell dead.
    pub fn new() -> (res: Self)
        ensures
            res@ == blank(),
            well_formed(res@),
            forall|r: int, c: int| !alive_at(res@, r, c),
    {
        let mut grid: Vec<Vec<CellState>> = Vec::new();
        for r in 0..ROWS
            invariant
                grid@.len() == r,
                forall|i: int| 0 <= i < r ==> (#[trigger] grid@[i])@ == blank()[i],
        {
            let mut row: Vec<CellState> = Vec::new();
            for c in 0..COLUMNS
                invariant
                    row@.len() == c,
                    forall|j: int| 0 <= j < c ==> #[trigger] row@[j] == CellState::Dead,
            {
                row.push(CellState::Dead);
            }
            assert(row@ =~= blank()[r as int]);
            grid.push(row);
        }
        let res = Conways { grid };
        assert(res@ =~= blank());
        res
    }

    /// A grid of the configured size in which exactly the cells named in
    /// `alive_cells` are alive.
    ///
    /// The order of the positions does not matter and a position may occur
    /// more than once. A position outside the grid is passed over: it changes
    /// no cell.
    pub fn from(alive_cells: Vec<Position>) -> (res: Self)
        ensures
            res@ == seeded(alive_cells@),
            well_formed(res@),
            forall|r: int, c: int|
                alive_at(res@, r, c) <==> (0 <= r < ROWS && 0 <= c < COLUMNS
                    && alive_cells@.contains((r as usize, c as usize))),
    {
        let mut res = Self::new();
        proof {
            lemma_seeded_none();
            assert(alive_cells@.take(0) =~= Seq::empty());
        }
        for i in 0..alive_cells.len()
            invariant
                res@ == seeded(alive_cells@.take(i as int)),
        {
            let (x, y) = alive_cells[i];
            proof {
                lemma_seeded_push(alive_cells@.take(i as int), (x, y));
                assert(alive_cells@.take(i + 1) =~= alive_cells@.take(i as int).push((x, y)));
            }
            if x < ROWS && y < COLUMNS {
                assert(res@.len() == ROWS && res@[x as int].len() == COLUMNS);
                res.grid[x][y] = CellState::Alive;
                assert(res@ =~~= seeded(alive_cells@.take(i + 1)));
            }
        }
        assert(alive_cells@.take(alive_cells.len() as int) =~= alive_cells@);
        res
    }

    /// Makes every cell dead, whatever the grid held before.
    pub fn kill_all_cells(&mut self)
        ensures
            final(self)@ == blank(),
            well_formed(final(self)@),
            forall|r: int, c: int| !alive_at(final(self)@, r, c),
    {
        self.grid = Self::new().grid;
    }

    /// A grid seeded at random: half as many positions as the grid has cells
    /// are drawn from `rng`, each from the whole grid and independently of the
    /// others, and the cells they name are made alive.
    ///
    /// A position may be drawn more than once, so fewer than half of the
    /// cells may end up alive. Which positions are drawn is up to `rng`; the
    /// grid is the one that [`Conways::from`] builds from them.
    pub fn from_random_cells(rng: &mut StdRng) -> (res: Self)
        ensures
            exists|cells: Seq<Position>| drawn(cells) && res@ == seeded(cells),
            well_formed(res@),
            population(res@).finite(),
            population(res@).len() <= (ROWS * COLUMNS) / 2,
    {
        let mut random_positions: Vec<Position> = Vec::new();
        for i in 0..(ROWS * COLUMNS) / 2
            invariant
                random_positions@.len() == i,
                forall|k: int|
                    0 <= k < i ==> (#[trigger] random_positions@[k]).0 < ROWS
                        && random_positions@[k].1 < COLUMNS,
        {
            let x = draw_below(rng, ROWS);
            let y = draw_below(rng, COLUMNS);
            random_positions.push((x, y));
        }
        proof {
            assert(drawn(random_positions@));
            lemma_population_bounded(random_positions@);
        }
        Self::from(random_positions)
    }

    /// Advances the grid by one generation.
    ///
    /// Every cell's new state is decided from the grid as it was before the
    /// call: the new cells are collected apart from the grid and replace it
    /// only when all of them are known.
    pub fn update_cells(&mut self)
        ensures
            final(self)@ == next_generation(old(self)@),
            well_formed(old(self)@) ==> well_formed(final(self)@),
    {
        let mut new_grid: Vec<Vec<CellState>> = Vec::new();
        for x in 0..self.grid.len()
            invariant
                *self == *old(self),
                new_grid@.len() == x,
                forall|r: int|
                    0 <= r < x ==> (#[trigger] new_grid@[r])@ == next_generation(self@)[r],
        {
            let mut new_row: Vec<CellState> = Vec::new();
            let columns = self.grid[x].len();
            for y in 0..columns
                invariant
                    *self == *old(self),
                    x < self.grid@.len(),
                    columns == self.grid@[x as int]@.len(),
                    new_row@.len() == y,
                    forall|c: int|
                        0 <= c < y ==> #[trigger] new_row@[c] == next_generation(self@)[x as int][c],
            {
                let neighbors = self.count_neighbors((x, y));
                let next = match (self.grid[x][y], neighbors) {
                    (CellState::Alive, 2 | 3) => CellState::Alive,
                    (CellState::Alive, _) => CellState::Dead,
                    (CellState::Dead, 3) => CellState::Alive,
                    (CellState::Dead, _) => CellState::Dead,
                };
                new_row.push(next);
            }
            assert(new_row@ =~= next_generation(self@)[x as int]);
            new_grid.push(new_row);
        }
        self.grid = new_grid;
        assert(self@ =~= next_generation(old(self)@));
    }

    /// The number of live cells among the eight cells around `position`.
    ///
    /// The grid does not wrap: a neighbour that would lie beyond an edge is
    /// not counted. The position itself need not lie in the grid.
    pub fn count_neighbors(&self, position: Position) -> (count: usize)
        ensures
            count == neighbor_count(self@, position.0 as int, position.1 as int),
            count <= 8,
    {
        let directions: [(isize, isize); 8] = [
            (-1, -1),
            (-1, 0),
            (-1, 1),
            (0, -1),
            (0, 1),
            (1, -1),
            (1, 0),
            (1, 1),
        ];
        let mut count: usize = 0;
        for i in 0..8
            invariant
                count <= i,
                count == live_in_first(self@, position.0 as int, position.1 as int, i as nat),
                forall|k: int|
                    0 <= k < 8 ==> (#[trigger] directions@[k]).0 == offsets()[k].0
                        && directions@[k].1 == offsets()[k].1,
        {
            let (dx, dy) = directions[i];
            if self.is_alive_at_offset(position, dx, dy) {
                count += 1;
            }
        }
        proof {
            lemma_count_by_directions(self@, position.0 as int, position.1 as int);
        }
        count
    }

    /// Flips the cell at `position`: a live cell dies, a dead cell comes to
    /// life. No other cell changes, and a position outside the grid changes
    /// nothing.
    pub fn toggle_state_cell(&mut self, position: Position)
        ensures
            final(self)@ == toggled(old(self)@, position.0 as int, position.1 as int),
            well_formed(old(self)@) ==> well_formed(final(self)@),
    {
        let (x, y) = position;
        if x < self.grid.len() && y < self.grid[x].len() {
            let flipped = match self.grid[x][y] {
                CellState::Alive => CellState::Dead,
                CellState::Dead => CellState::Alive,
            };
            self.grid[x][y] = flipped;
            assert(self@ =~~= toggled(old(self)@, x as int, y as int));
        }
    }

    /// Whether `position` names a cell of the grid and that cell is alive.
    pub fn is_alive(&self, position: Position) -> (alive: bool)
        ensures
            alive == alive_at(self@, position.0 as int, position.1 as int),
    {
        let (x, y) = position;
        if x < self.grid.len() {
            let row = &self.grid[x];
            y < row.len() && row[y] == CellState::Alive
        } else {
            false
        }
    }

    /// Whether the position `(dx, dy)` away from `position` names a cell of
    /// the grid and that cell is alive.
    fn is_alive_at_offset(&self, position: Position, dx: isize, dy: isize) -> (alive: bool)
        ensures
            alive == alive_at(self@, position.0 + dx, position.1 + dy),
    {
        proof {
            self.lemma_view_fits();
        }
        match (position.0.checked_add_signed(dx), position.1.checked_add_signed(dy)) {
            (Some(x), Some(y)) => self.is_alive((x, y)),
            _ => false,
        }
    }

    /// No row index and no column index of the grid exceeds `usize::MAX`.
    proof fn lemma_view_fits(&self)
        ensures
            self@.len() <= usize::MAX,
            forall|r: int| 0 <= r < self@.len() ==> (#[trigger] self@[r]).len() <= usize::MAX,
    {
        assert(self.grid.len() == self.grid@.len());
        assert forall|r: int| 0 <= r < self@.len() implies (#[trigger] self@[r]).len()
            <= usize::MAX by {
            assert(self.grid@[r].len() == self.grid@[r]@.len());
        }
    }
}

} // verus!
