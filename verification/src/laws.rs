//! Laws of the grid model, each proved from the definitions in
//! [`crate::grid`]. The engine's operations are stated over the same
//! definitions, so every law holds of what the engine does.

use vstd::prelude::*;
use crate::cell::CellState;
use crate::grid::{Grid, Position, COLUMNS, ROWS};
use crate::grid::{
    alive_at, blank, drawn, in_bounds, neighbor_count, next_generation, population, seeded,
    toggled, well_formed,
};

verus! {

/// The blank grid has the configured size and holds no live cell.
pub proof fn lemma_blank_is_dead()
    ensures
        well_formed(blank()),
        forall|r: int, c: int| in_bounds(blank(), r, c) ==> blank()[r][c] == CellState::Dead,
        forall|r: int, c: int| !alive_at(blank(), r, c),
        population(blank()) == Set::<Position>::empty(),
{
    assert(population(blank()) =~= Set::<Position>::empty());
}

/// Seeding with no position at all gives the blank grid.
pub proof fn lemma_seeded_none()
    ensures
        seeded(Seq::empty()) == blank(),
{
    assert(seeded(Seq::empty()) =~~= blank());
}

/// A seeded grid has the configured size, and a cell of it is alive exactly
/// when its position is listed; every other cell is dead.
pub proof fn lemma_seeded_exactly(cells: Seq<Position>)
    ensures
        well_formed(seeded(cells)),
        forall|r: int, c: int|
            alive_at(seeded(cells), r, c) <==> (0 <= r < ROWS && 0 <= c < COLUMNS
                && cells.contains((r as usize, c as usize))),
        forall|r: int, c: int|
            0 <= r < ROWS && 0 <= c < COLUMNS && !cells.contains((r as usize, c as usize))
                ==> seeded(cells)[r][c] == CellState::Dead,
{
}

/// Only which positions of the grid are listed matters to a seeding: not
/// their order, not how often one occurs, and not the listed positions that
/// lie outside the grid.
pub proof fn lemma_seeded_by_membership(a: Seq<Position>, b: Seq<Position>)
    requires
        forall|p: Position| p.0 < ROWS && p.1 < COLUMNS ==> (a.contains(p) <==> b.contains(p)),
    ensures
        seeded(a) == seeded(b),
{
    assert(seeded(a) =~~= seeded(b));
}

/// Listing one more position makes that cell alive, if the grid has it, and
/// changes nothing else. A position outside the grid has no effect.
pub proof fn lemma_seeded_push(cells: Seq<Position>, p: Position)
    ensures
        seeded(cells.push(p)) == if p.0 < ROWS && p.1 < COLUMNS {
            seeded(cells).update(
                p.0 as int,
                seeded(cells)[p.0 as int].update(p.1 as int, CellState::Alive),
            )
        } else {
            seeded(cells)
        },
{
    let grown = cells.push(p);
    assert forall|q: Position| grown.contains(q) <==> (cells.contains(q) || q == p) by {
        if cells.contains(q) {
            let i = choose|i: int| 0 <= i < cells.len() && cells[i] == q;
            assert(grown[i] == q);
        }
        if q == p {
            assert(grown[cells.len() as int] == q);
        }
    }
    let expected = if p.0 < ROWS && p.1 < COLUMNS {
        seeded(cells).update(
            p.0 as int,
            seeded(cells)[p.0 as int].update(p.1 as int, CellState::Alive),
        )
    } else {
        seeded(cells)
    };
    assert(seeded(grown) =~~= expected);
}

/// A seeded grid has no more live cells than positions were listed.
pub proof fn lemma_population_bounded(cells: Seq<Position>)
    ensures
        population(seeded(cells)).finite(),
        population(seeded(cells)).len() <= cells.len(),
{
    let alive = population(seeded(cells));
    assert forall|p: Position| alive.contains(p) implies cells.to_set().contains(p) by {
        assert(cells.contains(p));
    }
    vstd::seq_lib::seq_to_set_is_finite(cells);
    cells.lemma_cardinality_of_set();
    vstd::set_lib::lemma_len_subset(alive, cells.to_set());
}

/// However a random seeding falls out, at most half of the cells are alive.
pub proof fn lemma_random_population_bounded(cells: Seq<Position>)
    requires
        drawn(cells),
    ensures
        population(seeded(cells)).finite(),
        population(seeded(cells)).len() <= (ROWS * COLUMNS) / 2,
{
    lemma_population_bounded(cells);
}

/// No position has more than eight live neighbours.
pub proof fn lemma_neighbor_count_bounded(g: Grid, r: int, c: int)
    ensures
        neighbor_count(g, r, c) <= 8,
{
}

/// A cell in a corner of the grid has at most three live neighbours.
pub proof fn lemma_corner_neighbors(g: Grid, r: int, c: int)
    requires
        well_formed(g),
        r == 0 || r == ROWS - 1,
        c == 0 || c == COLUMNS - 1,
    ensures
        neighbor_count(g, r, c) <= 3,
{
}

/// A cell on an edge of the grid has at most five live neighbours.
pub proof fn lemma_edge_neighbors(g: Grid, r: int, c: int)
    requires
        well_formed(g),
        in_bounds(g, r, c),
        r == 0 || r == ROWS - 1 || c == 0 || c == COLUMNS - 1,
    ensures
        neighbor_count(g, r, c) <= 5,
{
}

/// A position outside the grid and not next to it has no live neighbour.
pub proof fn lemma_far_outside_neighbors(g: Grid, r: int, c: int)
    requires
        well_formed(g),
        r < -1 || r > ROWS || c < -1 || c > COLUMNS,
    ensures
        neighbor_count(g, r, c) == 0,
{
}

/// The two positions differ and lie next to each other, side by side or
/// corner to corner.
pub open spec fn adjacent(r1: int, c1: int, r2: int, c2: int) -> bool {
    &&& -1 <= r1 - r2 <= 1
    &&& -1 <= c1 - c2 <= 1
    &&& !(r1 == r2 && c1 == c2)
}

/// Being a neighbour is mutual.
pub proof fn lemma_adjacent_symmetric(r1: int, c1: int, r2: int, c2: int)
    ensures
        adjacent(r1, c1, r2, c2) == adjacent(r2, c2, r1, c1),
{
}

/// The grid in which the cell at `p` is alive and no other.
pub open spec fn lone(p: Position) -> Grid {
    seeded(seq![p])
}

/// A lone live cell is counted once from each position next to it and from
/// no other position.
pub proof fn lemma_lone_cell_counted(p: Position, r: int, c: int)
    requires
        p.0 < ROWS,
        p.1 < COLUMNS,
    ensures
        neighbor_count(lone(p), r, c) == if adjacent(r, c, p.0 as int, p.1 as int) {
            1nat
        } else {
            0nat
        },
{
    let g = lone(p);
    assert(seq![p][0] == p);
    assert forall|i: int, j: int| alive_at(g, i, j) <==> (i == p.0 && j == p.1) by {
        if i == p.0 && j == p.1 {
            assert(seq![p].contains((i as usize, j as usize)));
        }
    }
}

/// Counting is mutual: a lone live cell at `q` is counted from `p` exactly
/// when a lone live cell at `p` is counted from `q`.
pub proof fn lemma_counting_mutual(p: Position, q: Position)
    requires
        p.0 < ROWS,
        p.1 < COLUMNS,
        q.0 < ROWS,
        q.1 < COLUMNS,
    ensures
        neighbor_count(lone(q), p.0 as int, p.1 as int) == neighbor_count(
            lone(p),
            q.0 as int,
            q.1 as int,
        ),
{
    lemma_lone_cell_counted(q, p.0 as int, p.1 as int);
    lemma_lone_cell_counted(p, q.0 as int, q.1 as int);
}

/// The grid with its rows in reverse order.
pub open spec fn mirrored_rows(g: Grid) -> Grid {
    Seq::new(g.len(), |r: int| g[g.len() - 1 - r])
}

/// The grid with the cells of every row in reverse order.
pub open spec fn mirrored_columns(g: Grid) -> Grid {
    Seq::new(g.len(), |r: int| Seq::new(g[r].len(), |c: int| g[r][g[r].len() - 1 - c]))
}

/// The grid with rows and columns exchanged.
pub open spec fn transposed(g: Grid) -> Grid {
    Seq::new(COLUMNS as nat, |c: int| Seq::new(ROWS as nat, |r: int| g[r][c]))
}

/// All eight directions count alike: turning the grid upside down, left to
/// right, or over its diagonal carries every neighbour count to the
/// position that the cell moves to.
pub proof fn lemma_neighbor_count_symmetric(g: Grid, r: int, c: int)
    requires
        well_formed(g),
    ensures
        neighbor_count(mirrored_rows(g), ROWS - 1 - r, c) == neighbor_count(g, r, c),
        neighbor_count(mirrored_columns(g), r, COLUMNS - 1 - c) == neighbor_count(g, r, c),
        neighbor_count(transposed(g), c, r) == neighbor_count(g, r, c),
{
    let up = mirrored_rows(g);
    assert forall|i: int, j: int| alive_at(up, ROWS - 1 - i, j) == alive_at(g, i, j) by {}
    let across = mirrored_columns(g);
    assert forall|i: int, j: int| alive_at(across, i, COLUMNS - 1 - j) == alive_at(g, i, j) by {}
    let over = transposed(g);
    assert forall|i: int, j: int| alive_at(over, j, i) == alive_at(g, i, j) by {}
}

/// The next generation has the shape of the grid it comes from.
pub proof fn lemma_next_generation_shape(g: Grid)
    ensures
        next_generation(g).len() == g.len(),
        forall|r: int| 0 <= r < g.len() ==> (#[trigger] next_generation(g)[r]).len() == g[r].len(),
        well_formed(g) ==> well_formed(next_generation(g)),
{
}

/// Underpopulation and overpopulation: a live cell with fewer than two or
/// more than three live neighbours is dead in the next generation.
pub proof fn lemma_lonely_or_crowded_cell_dies(g: Grid, r: int, c: int)
    requires
        alive_at(g, r, c),
        neighbor_count(g, r, c) != 2,
        neighbor_count(g, r, c) != 3,
    ensures
        in_bounds(next_generation(g), r, c),
        next_generation(g)[r][c] == CellState::Dead,
{
}

/// Stasis: a live cell with two or three live neighbours is alive in the
/// next generation.
pub proof fn lemma_settled_cell_survives(g: Grid, r: int, c: int)
    requires
        alive_at(g, r, c),
        neighbor_count(g, r, c) == 2 || neighbor_count(g, r, c) == 3,
    ensures
        alive_at(next_generation(g), r, c),
{
}

/// Reproduction: a dead cell with exactly three live neighbours is alive in
/// the next generation.
pub proof fn lemma_cell_is_born(g: Grid, r: int, c: int)
    requires
        in_bounds(g, r, c),
        g[r][c] == CellState::Dead,
        neighbor_count(g, r, c) == 3,
    ensures
        alive_at(next_generation(g), r, c),
{
}

/// A dead cell with any number of live neighbours but three stays dead.
pub proof fn lemma_dead_cell_stays_dead(g: Grid, r: int, c: int)
    requires
        in_bounds(g, r, c),
        g[r][c] == CellState::Dead,
        neighbor_count(g, r, c) != 3,
    ensures
        in_bounds(next_generation(g), r, c),
        next_generation(g)[r][c] == CellState::Dead,
{
}

/// The two grids have the same number of rows, and rows of the same length.
pub open spec fn same_shape(a: Grid, b: Grid) -> bool {
    &&& a.len() == b.len()
    &&& forall|r: int| 0 <= r < a.len() ==> (#[trigger] a[r]).len() == (#[trigger] b[r]).len()
}

/// The buffer after the cells named in `order` have been visited one after
/// the other, from the first to the last. A visit writes into the buffer the
/// successor of the visited cell, judged by the grid `g`, which no visit
/// changes. A position outside the grid is passed over.
pub open spec fn visited(g: Grid, buffer: Grid, order: Seq<(int, int)>) -> Grid
    decreases order.len(),
{
    if order.len() == 0 {
        buffer
    } else {
        let before = visited(g, buffer, order.drop_last());
        let (r, c) = order.last();
        if in_bounds(g, r, c) {
            before.update(r, before[r].update(c, g[r][c].successor(neighbor_count(g, r, c))))
        } else {
            before
        }
    }
}

/// Every cell of the grid is visited at least once.
pub open spec fn visits_every_cell(g: Grid, order: Seq<(int, int)>) -> bool {
    forall|r: int, c: int| in_bounds(g, r, c) ==> order.contains((r, c))
}

/// Visiting leaves the buffer's shape alone, writes the successor into every
/// visited cell and leaves the others as they were.
proof fn lemma_visited_cells(g: Grid, buffer: Grid, order: Seq<(int, int)>)
    requires
        same_shape(g, buffer),
    ensures
        same_shape(g, visited(g, buffer, order)),
        forall|r: int, c: int|
            in_bounds(g, r, c) ==> #[trigger] visited(g, buffer, order)[r][c] == if order.contains(
                (r, c),
            ) {
                g[r][c].successor(neighbor_count(g, r, c))
            } else {
                buffer[r][c]
            },
    decreases order.len(),
{
    if order.len() > 0 {
        let earlier = order.drop_last();
        lemma_visited_cells(g, buffer, earlier);
        let last = order.last();
        assert forall|p: (int, int)| order.contains(p) <==> (earlier.contains(p) || p == last) by {
            if earlier.contains(p) {
                let i = choose|i: int| 0 <= i < earlier.len() && earlier[i] == p;
                assert(order[i] == p);
            }
            if p == last {
                assert(order[order.len() - 1] == p);
            }
            if order.contains(p) {
                let i = choose|i: int| 0 <= i < order.len() && order[i] == p;
                if i < order.len() - 1 {
                    assert(earlier[i] == p);
                }
            }
        }
    }
}

/// The step does not depend on the order in which the cells are visited:
/// whatever the order, and however often a cell is visited, once every cell
/// has been visited the buffer holds the next generation.
pub proof fn lemma_step_order_independent(g: Grid, buffer: Grid, order: Seq<(int, int)>)
    requires
        same_shape(g, buffer),
        visits_every_cell(g, order),
    ensures
        visited(g, buffer, order) == next_generation(g),
{
    lemma_visited_cells(g, buffer, order);
    assert(visited(g, buffer, order) =~~= next_generation(g));
}

/// Two visiting orders that both reach every cell give the same grid.
pub proof fn lemma_step_deterministic(g: Grid, first: Seq<(int, int)>, second: Seq<(int, int)>)
    requires
        visits_every_cell(g, first),
        visits_every_cell(g, second),
    ensures
        visited(g, g, first) == visited(g, g, second),
{
    lemma_step_order_independent(g, g, first);
    lemma_step_order_independent(g, g, second);
}

/// Toggling flips the cell it names and no other, and keeps the grid's shape.
pub proof fn lemma_toggled_cells(g: Grid, r: int, c: int)
    ensures
        same_shape(g, toggled(g, r, c)),
        well_formed(g) ==> well_formed(toggled(g, r, c)),
        in_bounds(g, r, c) ==> toggled(g, r, c)[r][c] == g[r][c].flipped(),
        forall|i: int, j: int|
            in_bounds(g, i, j) && !(i == r && j == c) ==> toggled(g, r, c)[i][j] == g[i][j],
        !in_bounds(g, r, c) ==> toggled(g, r, c) == g,
{
}

/// Toggling the same position twice restores the grid.
pub proof fn lemma_toggle_twice(g: Grid, r: int, c: int)
    ensures
        toggled(toggled(g, r, c), r, c) == g,
{
    assert(toggled(toggled(g, r, c), r, c) =~~= g);
}

} // verus!
