//! The mathematical model of a universe: a grid of booleans on a torus, and
//! the functions that say what each operation computes.

use vstd::prelude::*;

verus! {

/// A universe as a mathematical value: its dimensions and its cells in
/// row-major order.
pub struct Grid {
    pub width: nat,
    pub height: nat,
    pub cells: Seq<bool>,
}

/// The state of a cell in the next generation, from its present state and the
/// number of its live neighbours: alive with three live neighbours, and with
/// two if it is alive already.
pub open spec fn next_state(alive: bool, live_neighbors: int) -> bool {
    live_neighbors == 3 || (alive && live_neighbors == 2)
}

/// The glider, as the nine cells of a 3x3 block in row-major order.
pub open spec fn glider_cell(k: int) -> bool {
    k == 1 || k == 2 || k == 3 || k == 5 || k == 8
}

/// The glyph that shows a cell: a black square for a live cell, a white one
/// for a dead cell.
pub open spec fn glyph(alive: bool) -> char {
    if alive {
        '\u{25fc}'
    } else {
        '\u{25fb}'
    }
}

/// 1 for a live cell, 0 for a dead one.
pub open spec fn one_if(alive: bool) -> int {
    if alive {
        1
    } else {
        0
    }
}

/// The number of live cells in a run of cells.
pub open spec fn population(cells: Seq<bool>) -> int
    decreases cells.len(),
{
    if cells.len() == 0 {
        0
    } else {
        population(cells.drop_last()) + one_if(cells.last())
    }
}

/// The offset that stands at place `k` (0, 1 or 2) of a neighbourhood along an
/// axis of length `len`: one step back (written as `len - 1`, which wraps to
/// it), none, one step forward.
pub open spec fn delta(len: nat, k: int) -> int {
    if k == 0 {
        len - 1
    } else if k == 1 {
        0
    } else {
        1
    }
}

impl Grid {
    /// The cell buffer has one entry per cell.
    pub open spec fn wf(self) -> bool {
        self.cells.len() == self.width * self.height
    }

    /// The grid of the given dimensions with every cell dead.
    pub open spec fn dead(width: nat, height: nat) -> Grid {
        Grid { width, height, cells: Seq::new(width * height, |i: int| false) }
    }

    /// The position of cell `(row, column)` in the buffer. No wrapping.
    pub open spec fn index(self, row: int, column: int) -> int {
        row * self.width + column
    }

    /// The position of the cell that `(row, column)` wraps to on the torus.
    pub open spec fn wrapped_index(self, row: int, column: int) -> int {
        self.index(row % (self.height as int), column % (self.width as int))
    }

    /// Whether the cell at `(row, column)`, taken on the torus, is alive.
    pub open spec fn alive_at(self, row: int, column: int) -> bool {
        self.cells[self.wrapped_index(row, column)]
    }

    /// The position of the `k`-th cell (row-major, `k` from 0 to 8) of the 3x3
    /// neighbourhood centred at `(row, column)`.
    pub open spec fn neighborhood_index(self, row: int, column: int, k: int) -> int {
        self.wrapped_index(row + delta(self.height, k / 3), column + delta(self.width, k % 3))
    }

    /// What the `k`-th cell of the neighbourhood of `(row, column)` adds to the
    /// neighbour count: nothing where both offsets are zero, else 1 if it is
    /// alive.
    pub open spec fn neighbor_term(self, row: int, column: int, k: int) -> int {
        if delta(self.height, k / 3) == 0 && delta(self.width, k % 3) == 0 {
            0
        } else {
            one_if(self.cells[self.neighborhood_index(row, column, k)])
        }
    }

    /// The sum of the first `k` terms of the neighbour count of `(row, column)`.
    pub open spec fn neighbors_upto(self, row: int, column: int, k: nat) -> int
        decreases k,
    {
        if k == 0 {
            0
        } else {
            self.neighbors_upto(row, column, (k - 1) as nat) + self.neighbor_term(
                row,
                column,
                k - 1,
            )
        }
    }

    /// The number of live neighbours of `(row, column)` on the torus.
    pub open spec fn live_neighbors(self, row: int, column: int) -> int {
        self.neighbors_upto(row, column, 9)
    }

    /// The state of the cell at buffer position `i` in the next generation.
    pub open spec fn next_cell(self, i: int) -> bool {
        next_state(
            self.cells[i],
            self.live_neighbors(i / (self.width as int), i % (self.width as int)),
        )
    }

    /// The next generation: every cell is computed from this grid alone.
    pub open spec fn step(self) -> Grid {
        Grid {
            width: self.width,
            height: self.height,
            cells: Seq::new(self.cells.len(), |i: int| self.next_cell(i)),
        }
    }

    /// The cells after the first `k` cells of the 3x3 neighbourhood centred at
    /// `(row, column)` have been overwritten, in row-major order, with the
    /// glider.
    pub open spec fn seeded_upto(self, row: int, column: int, k: nat) -> Seq<bool>
        decreases k,
    {
        if k == 0 {
            self.cells
        } else {
            self.seeded_upto(row, column, (k - 1) as nat).update(
                self.neighborhood_index(row, column, k - 1),
                glider_cell(k - 1),
            )
        }
    }

    /// This grid with the 3x3 neighbourhood centred at `(row, column)`
    /// overwritten with the glider.
    pub open spec fn seed_glider(self, row: int, column: int) -> Grid {
        Grid { width: self.width, height: self.height, cells: self.seeded_upto(row, column, 9) }
    }

    /// Whether one of the listed `(row, column)` pairs names buffer position
    /// `i`.
    pub open spec fn listed(self, coordinates: Seq<(u32, u32)>, i: int) -> bool {
        exists|k: int|
            0 <= k < coordinates.len() && #[trigger] self.index(
                coordinates[k].0 as int,
                coordinates[k].1 as int,
            ) == i
    }

    /// This grid with every listed cell alive and every other cell as it was.
    pub open spec fn with_alive(self, coordinates: Seq<(u32, u32)>) -> Grid {
        Grid {
            width: self.width,
            height: self.height,
            cells: Seq::new(
                self.cells.len(),
                |i: int| self.cells[i] || self.listed(coordinates, i),
            ),
        }
    }

    /// The fixed 64x64 pattern: a cell is alive where its buffer position is a
    /// multiple of 2 or of 7.
    pub open spec fn striped() -> Grid {
        Grid { width: 64, height: 64, cells: Seq::new(4096, |i: int| i % 2 == 0 || i % 7 == 0) }
    }

    /// The character at place `k` of the rendered text: each row takes
    /// `width + 1` places, its glyphs and then a line break.
    pub open spec fn rendered_char(self, k: int) -> char {
        let stride = (self.width + 1) as int;
        let row = k / stride;
        let column = k % stride;
        if column == self.width {
            '\n'
        } else {
            glyph(self.cells[self.index(row, column)])
        }
    }

    /// The grid as text: one line per row, one glyph per cell, each line
    /// ended by a line break.
    pub open spec fn render(self) -> Seq<char> {
        Seq::new(self.height * (self.width + 1), |k: int| self.rendered_char(k))
    }

    /// The number of live cells among the eight cells around `(row, column)`:
    /// those one step away along either axis or both, each taken on the torus.
    pub open spec fn moore_neighbors(self, row: int, column: int) -> int {
        one_if(self.alive_at(row - 1, column - 1)) + one_if(self.alive_at(row - 1, column))
            + one_if(self.alive_at(row - 1, column + 1)) + one_if(self.alive_at(row, column - 1))
            + one_if(self.alive_at(row, column + 1)) + one_if(self.alive_at(row + 1, column - 1))
            + one_if(self.alive_at(row + 1, column)) + one_if(self.alive_at(row + 1, column + 1))
    }

    /// The buffer positions of the five live cells of a glider centred at
    /// `(row, column)`: above and above right of the centre, left and right of
    /// it, and below right.
    pub open spec fn glider_positions(self, row: int, column: int) -> Seq<int> {
        seq![
            self.wrapped_index(row - 1, column),
            self.wrapped_index(row - 1, column + 1),
            self.wrapped_index(row, column - 1),
            self.wrapped_index(row, column + 1),
            self.wrapped_index(row + 1, column + 1),
        ]
    }
}

} // verus!
