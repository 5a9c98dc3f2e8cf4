//! The universe: a grid of cells on a torus, held in a bit set, with the
//! operations that seed it, advance it by a generation and show it.

use crate::arith::lemma_row_major;
use crate::bitset::{bitset_bits, packed_bit};
use crate::grid::{delta, glider_cell, next_state, Grid};
use fixedbitset::FixedBitSet;
use vstd::prelude::*;
use vstd::string::StringExecFns;

verus! {

/// The whole board of the Game of Life. It wraps around at its edges and is
/// stored as one row-major run of bits.
pub struct Universe {
    width: u32,
    height: u32,
    cells: FixedBitSet,
}

impl View for Universe {
    type V = Grid;

    closed spec fn view(&self) -> Grid {
        Grid {
            width: self.width as nat,
            height: self.height as nat,
            cells: bitset_bits(self.cells),
        }
    }
}

impl Universe {
    /// The buffer holds one bit per cell, and the number of cells fits the
    /// integer type in which positions are computed. Every constructor
    /// establishes this and every operation keeps it.
    pub open spec fn wf(&self) -> bool {
        &&& self@.wf()
        &&& self@.width * self@.height <= u32::MAX
    }

    /// The number of columns.
    pub fn width(&self) -> (w: u32)
        ensures
            w == self@.width,
    {
        self.width
    }

    /// The number of rows.
    pub fn height(&self) -> (h: u32)
        ensures
            h == self@.height,
    {
        self.height
    }

    /// The cell buffer as packed 32-bit blocks: bit `i` of the run is the cell
    /// at buffer position `i`.
    pub fn cells(&self) -> (blocks: &[u32])
        ensures
            blocks@.len() == (self@.cells.len() + 31) / 32,
            forall|i: int|
                0 <= i < self@.cells.len() ==> #[trigger] packed_bit(blocks@, i) == self@.cells[i],
    {
        self.cells.as_slice()
    }

    /// The position of cell `(row, column)` in the buffer. The coordinates are
    /// taken as they are, without wrapping.
    pub fn get_index(&self, row: u32, column: u32) -> (idx: usize)
        requires
            self.wf(),
            row < self@.height,
            column < self@.width,
        ensures
            idx == self@.index(row as int, column as int),
            idx < self@.cells.len(),
    {
        proof {
            assert(row * self.width + column < self.width * self.height) by (nonlinear_arith)
                requires
                    row < self.height,
                    column < self.width,
            ;
        }
        (row * self.width + column) as usize
    }

    /// Whether the cell at `(row, column)` is alive. The coordinates are taken
    /// as they are: a caller that means a cell across an edge wraps them first.
    pub fn cell_state(&self, row: u32, column: u32) -> (alive: bool)
        requires
            self.wf(),
            row < self@.height,
            column < self@.width,
        ensures
            alive == self@.cells[self@.index(row as int, column as int)],
    {
        let idx: usize = self.get_index(row, column);
        self.cells.contains(idx)
    }

    /// The number of live cells among the neighbours of `(row, column)` on the
    /// torus. The coordinates themselves are wrapped too.
    pub fn live_neighbor_count(&self, row: u32, column: u32) -> (count: u8)
        requires
            self.wf(),
            self@.width >= 1,
            self@.height >= 1,
        ensures
            count == self@.live_neighbors(row as int, column as int),
            count <= 8,
    {
        let row_deltas: [u32; 3] = [self.height - 1, 0, 1];
        let column_deltas: [u32; 3] = [self.width - 1, 0, 1];
        let mut count: u8 = 0;
        let mut i: usize = 0;
        while i < 3
            invariant
                i <= 3,
                self.wf(),
                self@.width >= 1,
                self@.height >= 1,
                forall|k: int| 0 <= k < 3 ==> row_deltas[k] == delta(self@.height, k),
                forall|k: int| 0 <= k < 3 ==> column_deltas[k] == delta(self@.width, k),
                count == self@.neighbors_upto(row as int, column as int, (3 * i) as nat),
                count <= 3 * i - (if i >= 2 { 1int } else { 0int }),
            decreases 3 - i,
        {
            let mut j: usize = 0;
            while j < 3
                invariant
                    i < 3,
                    j <= 3,
                    self.wf(),
                    self@.width >= 1,
                    self@.height >= 1,
                    forall|k: int| 0 <= k < 3 ==> row_deltas[k] == delta(self@.height, k),
                    forall|k: int| 0 <= k < 3 ==> column_deltas[k] == delta(self@.width, k),
                    count == self@.neighbors_upto(row as int, column as int, (3 * i + j) as nat),
                    count <= 3 * i + j - (if 3 * i + j >= 5 { 1int } else { 0int }),
                decreases 3 - j,
            {
                let delta_row: u32 = row_deltas[i];
                let delta_col: u32 = column_deltas[j];
                proof {
                    assert((3 * i + j) / 3 == i as int);
                    assert((3 * i + j) % 3 == j as int);
                }
                if !(delta_row == 0 && delta_col == 0) {
                    let neighbor_row: u32 = wrap(row, delta_row, self.height);
                    let neighbor_col: u32 = wrap(column, delta_col, self.width);
                    let idx: usize = self.get_index(neighbor_row, neighbor_col);
                    if self.cells.contains(idx) {
                        count = count + 1;
                    }
                }
                j = j + 1;
            }
            i = i + 1;
        }
        count
    }

    /// Advances the universe by one generation. Every cell of the new
    /// generation is computed from the old one: the new cells are written to a
    /// second buffer, which replaces the first when all of them are known.
    pub fn tick(&mut self)
        requires
            old(self).wf(),
        ensures
            final(self).wf(),
            final(self)@ == old(self)@.step(),
    {
        let mut next: FixedBitSet = self.cells.clone();
        let mut row: u32 = 0;
        while row < self.height
            invariant
                *self == *old(self),
                self.wf(),
                row <= self.height,
                bitset_bits(next).len() == self@.cells.len(),
                forall|i: int|
                    0 <= i < row * self.width ==> bitset_bits(next)[i] == self@.next_cell(i),
            decreases self.height - row,
        {
            let mut col: u32 = 0;
            while col < self.width
                invariant
                    *self == *old(self),
                    self.wf(),
                    row < self.height,
                    col <= self.width,
                    bitset_bits(next).len() == self@.cells.len(),
                    forall|i: int|
                        0 <= i < row * self.width + col ==> bitset_bits(next)[i]
                            == self@.next_cell(i),
                decreases self.width - col,
            {
                let idx: usize = self.get_index(row, col);
                let cell: bool = self.cells.contains(idx);
                let live_neighbors: u8 = self.live_neighbor_count(row, col);
                let next_cell: bool = next_cell_state(cell, live_neighbors);
                proof {
                    lemma_row_major(row as int, col as int, self.width as int);
                }
                next.set(idx, next_cell);
                col = col + 1;
            }
            proof {
                assert((row + 1) * self.width == row * self.width + self.width)
                    by (nonlinear_arith);
            }
            row = row + 1;
        }
        proof {
            assert(row * self.width == self.width * self.height) by (nonlinear_arith)
                requires
                    row == self.height,
            ;
            assert(bitset_bits(next) =~= self@.step().cells);
        }
        self.cells = next;
    }

    /// A universe of the given dimensions with every cell dead.
    pub fn empty(width: u32, height: u32) -> (universe: Universe)
        requires
            width * height <= u32::MAX,
        ensures
            universe.wf(),
            universe@ == Grid::dead(width as nat, height as nat),
    {
        let size: usize = (width * height) as usize;
        Universe { width, height, cells: FixedBitSet::with_capacity(size) }
    }

    /// Overwrites the 3x3 neighbourhood centred at `(row, column)`, taken on
    /// the torus, with a glider. The nine cells are written in row-major
    /// order, so where the grid is narrower than the block a later cell of the
    /// block replaces an earlier one.
    pub fn new_glider_at(&mut self, row: u32, column: u32)
        requires
            old(self).wf(),
            old(self)@.width >= 1,
            old(self)@.height >= 1,
        ensures
            final(self).wf(),
            final(self)@ == old(self)@.seed_glider(row as int, column as int),
    {
        let neighbourhood: [bool; 9] = [false, true, true, true, false, true, false, false, true];
        let row_deltas: [u32; 3] = [self.height - 1, 0, 1];
        let column_deltas: [u32; 3] = [self.width - 1, 0, 1];
        let mut k: usize = 0;
        while k < 9
            invariant
                k <= 9,
                self.width == old(self).width,
                self.height == old(self).height,
                self.width >= 1,
                self.height >= 1,
                self.wf(),
                forall|n: int| 0 <= n < 9 ==> neighbourhood[n] == glider_cell(n),
                forall|n: int| 0 <= n < 3 ==> row_deltas[n] == delta(self@.height, n),
                forall|n: int| 0 <= n < 3 ==> column_deltas[n] == delta(self@.width, n),
                bitset_bits(self.cells) == old(self)@.seeded_upto(
                    row as int,
                    column as int,
                    k as nat,
                ),
            decreases 9 - k,
        {
            let neighbor_row: u32 = wrap(row, row_deltas[k / 3], self.height);
            let neighbor_col: u32 = wrap(column, column_deltas[k % 3], self.width);
            let idx: usize = self.get_index(neighbor_row, neighbor_col);
            self.cells.set(idx, neighbourhood[k]);
            k = k + 1;
        }
    }

    /// An otherwise dead universe of the given dimensions with a glider
    /// seeded at row `width / 2`, column `height / 2`.
    pub fn new_with_spaceship(width: u32, height: u32) -> (universe: Universe)
        requires
            width >= 1,
            height >= 1,
            width * height <= u32::MAX,
        ensures
            universe.wf(),
            universe@ == Grid::dead(width as nat, height as nat).seed_glider(
                (width / 2) as int,
                (height / 2) as int,
            ),
    {
        let mut u = Universe::empty(width, height);
        u.new_glider_at(width / 2, height / 2);
        u
    }

    /// The fixed 64x64 universe in which a cell is alive where its buffer
    /// position is a multiple of 2 or of 7.
    pub fn hardcoded_64_by_64() -> (universe: Universe)
        ensures
            universe.wf(),
            universe@ == Grid::striped(),
    {
        let width: u32 = 64;
        let height: u32 = 64;
        let size: usize = (width * height) as usize;
        let mut cells: FixedBitSet = FixedBitSet::with_capacity(size);
        let mut i: usize = 0;
        while i < size
            invariant
                size == 4096,
                i <= size,
                bitset_bits(cells).len() == size,
                forall|n: int| 0 <= n < i ==> bitset_bits(cells)[n] == (n % 2 == 0 || n % 7 == 0),
            decreases size - i,
        {
            cells.set(i, i % 2 == 0 || i % 7 == 0);
            i = i + 1;
        }
        proof {
            assert(bitset_bits(cells) =~= Grid::striped().cells);
        }
        Universe { width, height, cells }
    }

    /// A universe of the given dimensions whose cells are the given states, in
    /// row-major order. The states are what a source of random booleans gave,
    /// one draw per cell.
    pub fn new(width: u32, height: u32, states: &[bool]) -> (universe: Universe)
        requires
            width * height <= u32::MAX,
            states@.len() == width * height,
        ensures
            universe.wf(),
            universe@ == (Grid { width: width as nat, height: height as nat, cells: states@ }),
    {
        let size: usize = (width * height) as usize;
        let mut cells: FixedBitSet = FixedBitSet::with_capacity(size);
        let mut i: usize = 0;
        while i < size
            invariant
                size == states@.len(),
                i <= size,
                bitset_bits(cells).len() == size,
                forall|n: int| 0 <= n < i ==> bitset_bits(cells)[n] == states@[n],
            decreases size - i,
        {
            cells.set(i, states[i]);
            i = i + 1;
        }
        proof {
            assert(bitset_bits(cells) =~= states@);
        }
        Universe { width, height, cells }
    }

    /// Sets the width of the universe and resets every cell to dead.
    pub fn set_width(&mut self, width: u32)
        requires
            old(self).wf(),
            width * old(self)@.height <= u32::MAX,
        ensures
            final(self).wf(),
            final(self)@ == Grid::dead(width as nat, old(self)@.height),
    {
        let size: usize = (width * self.height) as usize;
        self.width = width;
        self.cells = FixedBitSet::with_capacity(size);
    }

    /// Sets the height of the universe and resets every cell to dead.
    pub fn set_height(&mut self, height: u32)
        requires
            old(self).wf(),
            old(self)@.width * height <= u32::MAX,
        ensures
            final(self).wf(),
            final(self)@ == Grid::dead(old(self)@.width, height as nat),
    {
        let size: usize = (self.width * height) as usize;
        self.height = height;
        self.cells = FixedBitSet::with_capacity(size);
    }

    /// The dead and alive values of the entire universe.
    pub fn get_cells(&self) -> (cells: &FixedBitSet)
        ensures
            bitset_bits(*cells) == self@.cells,
    {
        &self.cells
    }

    /// Makes each listed `(row, column)` cell alive and leaves every other
    /// cell as it was. The coordinates are taken as they are, without
    /// wrapping.
    pub fn set_cells(&mut self, cells: &[(u32, u32)])
        requires
            old(self).wf(),
            forall|k: int|
                0 <= k < cells@.len() ==> (#[trigger] cells@[k]).0 < old(self)@.height
                    && cells@[k].1 < old(self)@.width,
        ensures
            final(self).wf(),
            final(self)@ == old(self)@.with_alive(cells@),
    {
        let mut n: usize = 0;
        while n < cells.len()
            invariant
                n <= cells@.len(),
                self.wf(),
                self.width == old(self).width,
                self.height == old(self).height,
                forall|k: int|
                    0 <= k < cells@.len() ==> (#[trigger] cells@[k]).0 < self@.height
                        && cells@[k].1 < self@.width,
                bitset_bits(self.cells) == old(self)@.with_alive(cells@.take(n as int)).cells,
            decreases cells@.len() - n,
        {
            let (row, col) = cells[n];
            let idx: usize = self.get_index(row, col);
            self.cells.set(idx, true);
            proof {
                let before = old(self)@.with_alive(cells@.take(n as int));
                let after = old(self)@.with_alive(cells@.take(n + 1));
                assert forall|i: int| 0 <= i < after.cells.len() implies after.cells[i]
                    == before.cells.update(idx as int, true)[i] by {
                    let shorter = cells@.take(n as int);
                    let longer = cells@.take(n + 1);
                    if old(self)@.listed(longer, i) {
                        let k = choose|k: int|
                            0 <= k < longer.len() && #[trigger] old(self)@.index(
                                longer[k].0 as int,
                                longer[k].1 as int,
                            ) == i;
                        if k < n {
                            assert(old(self)@.index(shorter[k].0 as int, shorter[k].1 as int)
                                == i);
                        }
                    }
                    if old(self)@.listed(shorter, i) {
                        let k = choose|k: int|
                            0 <= k < shorter.len() && #[trigger] old(self)@.index(
                                shorter[k].0 as int,
                                shorter[k].1 as int,
                            ) == i;
                        assert(old(self)@.index(longer[k].0 as int, longer[k].1 as int) == i);
                    }
                    if i == idx {
                        assert(old(self)@.index(longer[n as int].0 as int, longer[n as int].1 as int)
                            == i);
                    }
                }
                assert(bitset_bits(self.cells) =~= after.cells);
            }
            n = n + 1;
        }
        proof {
            assert(cells@.take(n as int) =~= cells@);
        }
    }

    /// The universe as text: one line per row, one glyph per cell, each line
    /// ended by a line break.
    pub fn render(&self) -> (text: String)
        requires
            self.wf(),
        ensures
            text@ == self@.render(),
    {
        let mut text: String = String::new();
        let mut row: u32 = 0;
        while row < self.height
            invariant
                self.wf(),
                row <= self.height,
                text@.len() == row * (self.width + 1),
                forall|k: int| 0 <= k < text@.len() ==> text@[k] == self@.rendered_char(k),
            decreases self.height - row,
        {
            let mut col: u32 = 0;
            while col < self.width
                invariant
                    self.wf(),
                    row < self.height,
                    col <= self.width,
                    text@.len() == row * (self.width + 1) + col,
                    forall|k: int| 0 <= k < text@.len() ==> text@[k] == self@.rendered_char(k),
                decreases self.width - col,
            {
                let cell: bool = self.cell_state(row, col);
                proof {
                    reveal_strlit("\u{25fc}");
                    reveal_strlit("\u{25fb}");
                    lemma_row_major(row as int, col as int, self.width + 1);
                }
                let symbol: &str = if cell {
                    "\u{25fc}"
                } else {
                    "\u{25fb}"
                };
                text.append(symbol);
                col = col + 1;
            }
            proof {
                reveal_strlit("\n");
                lemma_row_major(row as int, col as int, self.width + 1);
                assert((row + 1) * (self.width + 1) == row * (self.width + 1) + self.width + 1)
                    by (nonlinear_arith);
            }
            text.append("\n");
            row = row + 1;
        }
        proof {
            assert(row * (self.width + 1) == self.height * (self.width + 1)) by (nonlinear_arith)
                requires
                    row == self.height,
            ;
            assert(text@ =~= self@.render());
        }
        text
    }
}

/// The coordinate `(at + step) mod len`, computed without overflow.
fn wrap(at: u32, step: u32, len: u32) -> (wrapped: u32)
    requires
        len >= 1,
    ensures
        wrapped == (at + step) % (len as int),
        wrapped < len,
{
    ((at as u64 + step as u64) % (len as u64)) as u32
}

/// The state of a cell in the next generation, from its present state and the
/// number of its live neighbours, by the four rules of the game.
pub fn next_cell_state(alive: bool, live_neighbors: u8) -> (next: bool)
    ensures
        next == next_state(alive, live_neighbors as int),
{
    if alive && live_neighbors < 2 {
        // A live cell with fewer than two live neighbours dies.
        false
    } else if alive && (live_neighbors == 2 || live_neighbors == 3) {
        // A live cell with two or three live neighbours lives on.
        true
    } else if alive && live_neighbors > 3 {
        // A live cell with more than three live neighbours dies.
        false
    } else if !alive && live_neighbors == 3 {
        // A dead cell with exactly three live neighbours comes alive.
        true
    } else {
        // Every other cell stays as it is.
        alive
    }
}

} // verus!
