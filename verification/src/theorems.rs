//! What holds of the model for every grid: the theorems that relate its
//! functions to each other and to the plain picture of a torus.

use crate::arith::{lemma_mod_next, lemma_mod_prev, lemma_positions_differ, lemma_row_major};
use crate::grid::{glider_cell, next_state, one_if, population, Grid};
use vstd::prelude::*;

verus! {

/// The rule of the game: a live cell with two or three live neighbours lives
/// on, a live cell with fewer or more dies, and a dead cell comes alive
/// exactly when it has three live neighbours.
pub proof fn lemma_rule_table(alive: bool, live_neighbors: int)
    ensures
        alive && (live_neighbors == 2 || live_neighbors == 3) ==> next_state(alive, live_neighbors),
        alive && (live_neighbors < 2 || live_neighbors > 3) ==> !next_state(alive, live_neighbors),
        !alive ==> (next_state(alive, live_neighbors) <==> live_neighbors == 3),
{
}

/// A cell of the next generation is made from the cell at the same place and
/// its neighbour count, both read in the present generation: no cell of the
/// next generation is an input to another.
pub proof fn lemma_step_cell(g: Grid, row: int, column: int)
    requires
        g.wf(),
        0 <= row < g.height,
        0 <= column < g.width,
    ensures
        0 <= g.index(row, column) < g.cells.len(),
        g.step().cells[g.index(row, column)] == next_state(
            g.cells[g.index(row, column)],
            g.live_neighbors(row, column),
        ),
        g.height >= 2 && g.width >= 2 ==> g.step().cells[g.index(row, column)] == next_state(
            g.cells[g.index(row, column)],
            g.moore_neighbors(row, column),
        ),
{
    lemma_positions_differ(row, column, row, column, g.width as int, g.height as int);
    lemma_row_major(row, column, g.width as int);
    if g.height >= 2 && g.width >= 2 {
        lemma_neighbors_wrap(g, row, column);
    }
}

/// A grid of dead cells stays as it is from one generation to the next.
pub proof fn lemma_dead_grid_stays_dead(width: nat, height: nat)
    ensures
        Grid::dead(width, height).step() == Grid::dead(width, height),
{
    let g = Grid::dead(width, height);
    assert forall|i: int| 0 <= i < g.cells.len() implies !g.next_cell(i) by {
        assert(width >= 1 && height >= 1) by (nonlinear_arith)
            requires
                0 <= i < width * height,
        ;
        let row = i / (width as int);
        let column = i % (width as int);
        assert forall|k: int| 0 <= k < 9 implies g.neighbor_term(row, column, k) == 0 by {
            lemma_wrapped_in_range(
                g,
                row + crate::grid::delta(height, k / 3),
                column + crate::grid::delta(width, k % 3),
            );
        }
        reveal_with_fuel(Grid::neighbors_upto, 10);
    }
    assert(g.step().cells =~= g.cells);
}

/// The edges of the grid meet: one step back from row 0 is the last row, one
/// step forward from the last row is row 0, and likewise for the columns.
pub proof fn lemma_edges_meet(g: Grid, row: int, column: int)
    requires
        g.height >= 1,
        g.width >= 1,
        0 <= row < g.height,
        0 <= column < g.width,
    ensures
        g.wrapped_index(-1, column) == g.index(g.height - 1, column),
        g.wrapped_index(g.height as int, column) == g.index(0, column),
        g.wrapped_index(row, -1) == g.index(row, g.width - 1),
        g.wrapped_index(row, g.width as int) == g.index(row, 0),
{
    let h = g.height as int;
    let w = g.width as int;
    lemma_mod_prev(0, h);
    lemma_mod_prev(0, w);
    lemma_mod_next(h - 1, h);
    lemma_mod_next(w - 1, w);
    vstd::arithmetic::div_mod::lemma_small_mod(row as nat, h as nat);
    vstd::arithmetic::div_mod::lemma_small_mod(column as nat, w as nat);
    vstd::arithmetic::div_mod::lemma_small_mod((h - 1) as nat, h as nat);
    vstd::arithmetic::div_mod::lemma_small_mod((w - 1) as nat, w as nat);
}

/// On a grid of at least two rows and two columns the neighbour count of a
/// cell is the number of live cells among the eight cells around it on the
/// torus, so a cell on an edge counts the cells across that edge.
pub proof fn lemma_neighbors_wrap(g: Grid, row: int, column: int)
    requires
        g.height >= 2,
        g.width >= 2,
    ensures
        g.live_neighbors(row, column) == g.moore_neighbors(row, column),
{
    let h = g.height as int;
    let w = g.width as int;
    lemma_mod_prev(row, h);
    lemma_mod_prev(column, w);
    reveal_with_fuel(Grid::neighbors_upto, 10);
    assert(g.neighborhood_index(row, column, 0) == g.wrapped_index(row - 1, column - 1));
    assert(g.neighborhood_index(row, column, 1) == g.wrapped_index(row - 1, column));
    assert(g.neighborhood_index(row, column, 2) == g.wrapped_index(row - 1, column + 1));
    assert(g.neighborhood_index(row, column, 3) == g.wrapped_index(row, column - 1));
    assert(g.neighborhood_index(row, column, 5) == g.wrapped_index(row, column + 1));
    assert(g.neighborhood_index(row, column, 6) == g.wrapped_index(row + 1, column - 1));
    assert(g.neighborhood_index(row, column, 7) == g.wrapped_index(row + 1, column));
    assert(g.neighborhood_index(row, column, 8) == g.wrapped_index(row + 1, column + 1));
}

/// A cell has at most eight live neighbours, whatever the grid: the place
/// where both offsets are zero never counts.
pub proof fn lemma_neighbor_count_bounds(g: Grid, row: int, column: int)
    ensures
        0 <= g.live_neighbors(row, column) <= 8,
{
    reveal_with_fuel(Grid::neighbors_upto, 10);
    assert(g.neighbor_term(row, column, 4) == 0);
}

/// Seeding keeps the length of the buffer, whatever has been written so far.
pub proof fn lemma_seeded_len(g: Grid, row: int, column: int, k: nat)
    requires
        g.wf(),
        g.height >= 1,
        g.width >= 1,
    ensures
        g.seeded_upto(row, column, k).len() == g.cells.len(),
    decreases k,
{
    if k > 0 {
        lemma_seeded_len(g, row, column, (k - 1) as nat);
        lemma_wrapped_in_range(
            g,
            row + crate::grid::delta(g.height, (k - 1) / 3),
            column + crate::grid::delta(g.width, (k - 1) % 3),
        );
    }
}

/// A wrapped position lies inside the buffer.
pub proof fn lemma_wrapped_in_range(g: Grid, row: int, column: int)
    requires
        g.wf(),
        g.height >= 1,
        g.width >= 1,
    ensures
        0 <= g.wrapped_index(row, column) < g.cells.len(),
{
    let h = g.height as int;
    let w = g.width as int;
    vstd::arithmetic::div_mod::lemma_mod_bound(row, h);
    vstd::arithmetic::div_mod::lemma_mod_bound(column, w);
    lemma_positions_differ(row % h, column % w, row % h, column % w, w, h);
}

/// The buffer has one entry per cell in every grid that the operations of
/// the model make from a grid of which that holds.
pub proof fn lemma_dimensions_kept(
    g: Grid,
    width: nat,
    height: nat,
    row: int,
    column: int,
    coordinates: Seq<(u32, u32)>,
)
    requires
        g.wf(),
    ensures
        Grid::dead(width, height).wf(),
        Grid::striped().wf(),
        g.step().wf(),
        g.height >= 1 && g.width >= 1 ==> g.seed_glider(row, column).wf(),
        g.with_alive(coordinates).wf(),
{
    if g.height >= 1 && g.width >= 1 {
        lemma_seeded_len(g, row, column, 9);
    }
}

/// A run of dead cells has no live cell.
pub proof fn lemma_population_of_dead(cells: Seq<bool>)
    requires
        forall|i: int| 0 <= i < cells.len() ==> !cells[i],
    ensures
        population(cells) == 0,
    decreases cells.len(),
{
    if cells.len() > 0 {
        lemma_population_of_dead(cells.drop_last());
    }
}

/// Writing one cell changes the number of live cells by what that cell
/// gains or loses.
pub proof fn lemma_population_of_update(cells: Seq<bool>, i: int, alive: bool)
    requires
        0 <= i < cells.len(),
    ensures
        population(cells.update(i, alive)) == population(cells) - one_if(cells[i]) + one_if(alive),
    decreases cells.len(),
{
    let written = cells.update(i, alive);
    if i == cells.len() - 1 {
        assert(written.drop_last() =~= cells.drop_last());
    } else {
        lemma_population_of_update(cells.drop_last(), i, alive);
        assert(written.drop_last() =~= cells.drop_last().update(i, alive));
    }
}

/// The nine cells of a 3x3 neighbourhood are nine different cells of the
/// buffer where the grid has at least three rows and three columns.
pub proof fn lemma_neighborhood_distinct(g: Grid, row: int, column: int)
    requires
        g.wf(),
        g.height >= 3,
        g.width >= 3,
    ensures
        forall|k: int|
            0 <= k < 9 ==> 0 <= #[trigger] g.neighborhood_index(row, column, k) < g.cells.len(),
        forall|j: int, k: int|
            0 <= j < k < 9 ==> #[trigger] g.neighborhood_index(row, column, j)
                != #[trigger] g.neighborhood_index(row, column, k),
{
    let h = g.height as int;
    let w = g.width as int;
    lemma_mod_prev(row, h);
    lemma_mod_prev(column, w);
    lemma_mod_next(row, h);
    lemma_mod_next(column, w);
    assert forall|j: int, k: int| 0 <= j < 9 && 0 <= k < 9 implies 0 <= g.neighborhood_index(
        row,
        column,
        j,
    ) < g.cells.len() && (g.neighborhood_index(row, column, j) == g.neighborhood_index(
        row,
        column,
        k,
    ) ==> j == k) by {
        let rj = (row + crate::grid::delta(g.height, j / 3)) % h;
        let cj = (column + crate::grid::delta(g.width, j % 3)) % w;
        let rk = (row + crate::grid::delta(g.height, k / 3)) % h;
        let ck = (column + crate::grid::delta(g.width, k % 3)) % w;
        lemma_positions_differ(rj, cj, rk, ck, w, h);
    }
}

/// A glider seeded on a dead grid of at least three rows and three columns
/// leaves exactly five live cells, and they are the five cells of the glider
/// around the centre, each taken on the torus.
pub proof fn lemma_glider_on_dead_grid(g: Grid, row: int, column: int)
    requires
        g.wf(),
        g.height >= 3,
        g.width >= 3,
        forall|i: int| 0 <= i < g.cells.len() ==> !g.cells[i],
    ensures
        g.glider_positions(row, column).no_duplicates(),
        forall|i: int|
            0 <= i < g.cells.len() ==> (g.seed_glider(row, column).cells[i]
                <==> g.glider_positions(row, column).contains(i)),
        population(g.seed_glider(row, column).cells) == 5,
{
    let h = g.height as int;
    let w = g.width as int;
    lemma_neighborhood_distinct(g, row, column);
    lemma_mod_prev(row, h);
    lemma_mod_prev(column, w);
    let positions = g.glider_positions(row, column);
    assert(positions[0] == g.neighborhood_index(row, column, 1));
    assert(positions[1] == g.neighborhood_index(row, column, 2));
    assert(positions[2] == g.neighborhood_index(row, column, 3));
    assert(positions[3] == g.neighborhood_index(row, column, 5));
    assert(positions[4] == g.neighborhood_index(row, column, 8));
    lemma_seeded_cells(g, row, column, 9);
    let seeded = g.seed_glider(row, column).cells;
    assert forall|i: int| 0 <= i < g.cells.len() implies (seeded[i] <==> positions.contains(
        i,
    )) by {
        if seeded[i] {
            let k = choose|k: int|
                0 <= k < 9 && g.neighborhood_index(row, column, k) == i && glider_cell(k);
            assert(positions[0] == i || positions[1] == i || positions[2] == i || positions[3]
                == i || positions[4] == i);
        }
        if positions.contains(i) {
            let n = choose|n: int| 0 <= n < positions.len() && positions[n] == i;
            let k = if n == 0 {
                1int
            } else if n == 1 {
                2
            } else if n == 2 {
                3
            } else if n == 3 {
                5
            } else {
                8
            };
            assert(g.neighborhood_index(row, column, k) == i && glider_cell(k));
        }
    }
    lemma_population_of_dead(g.cells);
    lemma_seeded_population(g, row, column, 9);
}

/// After the first `k` cells of the neighbourhood are written on a dead grid
/// of at least three rows and three columns, a cell is alive exactly where
/// one of those `k` cells is a live cell of the glider.
proof fn lemma_seeded_cells(g: Grid, row: int, column: int, k: nat)
    requires
        g.wf(),
        g.height >= 3,
        g.width >= 3,
        k <= 9,
        forall|i: int| 0 <= i < g.cells.len() ==> !g.cells[i],
    ensures
        g.seeded_upto(row, column, k).len() == g.cells.len(),
        forall|i: int|
            0 <= i < g.cells.len() ==> (g.seeded_upto(row, column, k)[i] <==> exists|j: int|
                0 <= j < k && g.neighborhood_index(row, column, j) == i && glider_cell(j)),
    decreases k,
{
    lemma_neighborhood_distinct(g, row, column);
    if k > 0 {
        lemma_seeded_cells(g, row, column, (k - 1) as nat);
        let before = g.seeded_upto(row, column, (k - 1) as nat);
        let at = g.neighborhood_index(row, column, k - 1);
        assert forall|i: int| 0 <= i < g.cells.len() implies (g.seeded_upto(row, column, k)[i]
            <==> exists|j: int|
            0 <= j < k && g.neighborhood_index(row, column, j) == i && glider_cell(j)) by {
            if i == at {
                if glider_cell(k - 1) {
                    assert(0 <= k - 1 < k && g.neighborhood_index(row, column, k - 1) == i
                        && glider_cell(k - 1));
                }
            } else {
                if before[i] {
                    let j = choose|j: int|
                        0 <= j < k - 1 && g.neighborhood_index(row, column, j) == i
                            && glider_cell(j);
                    assert(0 <= j < k && g.neighborhood_index(row, column, j) == i
                        && glider_cell(j));
                }
            }
        }
    }
}

/// The number of live glider cells among the first `k` cells of a 3x3 block.
spec fn glider_cells_upto(k: nat) -> int
    decreases k,
{
    if k == 0 {
        0
    } else {
        glider_cells_upto((k - 1) as nat) + one_if(glider_cell(k - 1))
    }
}

/// Each cell of the neighbourhood that is written on a dead grid of at least
/// three rows and three columns was dead before, so the number of live cells
/// grows by one with each live cell of the glider.
proof fn lemma_seeded_population(g: Grid, row: int, column: int, k: nat)
    requires
        g.wf(),
        g.height >= 3,
        g.width >= 3,
        k <= 9,
        forall|i: int| 0 <= i < g.cells.len() ==> !g.cells[i],
    ensures
        population(g.seeded_upto(row, column, k)) == glider_cells_upto(k),
        k == 9 ==> glider_cells_upto(k) == 5,
    decreases k,
{
    lemma_neighborhood_distinct(g, row, column);
    if k == 0 {
        lemma_population_of_dead(g.cells);
    } else {
        lemma_seeded_population(g, row, column, (k - 1) as nat);
        lemma_seeded_cells(g, row, column, (k - 1) as nat);
        let before = g.seeded_upto(row, column, (k - 1) as nat);
        let at = g.neighborhood_index(row, column, k - 1);
        assert(!before[at]);
        lemma_population_of_update(before, at, glider_cell(k - 1));
    }
    if k == 9 {
        reveal_with_fuel(glider_cells_upto, 10);
    }
}

} // verus!
