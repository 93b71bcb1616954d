//! The universe: the grid as it is stored, and the operations on it.

use crate::cell::Cell;
use crate::grid::{lemma_index_in_range, lemma_position_of_index, Grid};
use crate::pattern::Pattern;
use crate::random::{cell_for_draw, random_draw};
use vstd::prelude::*;

verus! {

/// What is taken on trust of std's `String::push`: after the call the string
/// holds the characters it held before, in the same order, and the given
/// character after them.
pub assume_specification[ String::push ](s: &mut String, ch: char)
    ensures
        final(s)@ == old(s)@.push(ch),
;

/// A buffer of `n` dead cells.
fn dead_cells(n: usize) -> (cells: Vec<Cell>)
    ensures
        cells@ == Seq::new(n as nat, |i: int| Cell::Dead),
{
    let mut cells: Vec<Cell> = Vec::new();
    let mut i: usize = 0;
    while i < n
        invariant
            i <= n,
            cells@.len() == i,
            forall|k: int| 0 <= k < i ==> cells@[k] == Cell::Dead,
        decreases n - i,
    {
        cells.push(Cell::Dead);
        i += 1;
    }
    assert(cells@ =~= Seq::new(n as nat, |i: int| Cell::Dead));
    cells
}

/// A toroidal grid of cells, stored row by row in one buffer.
pub struct Universe {
    width: u32,
    height: u32,
    cells: Vec<Cell>,
}

impl View for Universe {
    type V = Grid;

    closed spec fn view(&self) -> Grid {
        Grid { width: self.width as nat, height: self.height as nat, cells: self.cells@ }
    }
}

impl Universe {
    /// The buffer holds exactly one cell for each position, and both
    /// dimensions are 32-bit numbers.
    pub open spec fn wf(&self) -> bool {
        &&& self@.wf()
        &&& self@.width <= u32::MAX
        &&& self@.height <= u32::MAX
    }

    /// The number of columns.
    pub fn width(&self) -> (w: u32)
        ensures
            w == self@.width,
    {
        self.width
    }

    /// The number of rows.
    pub fn height(&self) -> (h: u32)
        ensures
            h == self@.height,
    {
        self.height
    }

    /// Whether `(row, column)` is a position of the grid.
    pub fn in_bounds(&self, row: u32, column: u32) -> (b: bool)
        ensures
            b == self@.contains(row as int, column as int),
    {
        row < self.height && column < self.width
    }

    /// Whether the square of the pattern, its corner at `(row, column)`,
    /// lies inside the grid.
    pub fn has_room(&self, pattern: Pattern, row: u32, column: u32) -> (b: bool)
        ensures
            b == (row + pattern.extent() <= self@.height && column + pattern.extent()
                <= self@.width),
    {
        let size = pattern.size();
        size <= self.height && row <= self.height - size && size <= self.width && column
            <= self.width - size
    }

    /// The place of `(row, column)` in the buffer.
    pub fn get_index(&self, row: u32, column: u32) -> (idx: usize)
        requires
            self.wf(),
            self@.contains(row as int, column as int),
        ensures
            idx == self@.index(row as int, column as int),
            idx < self@.cells.len(),
    {
        proof {
            lemma_index_in_range(self@, row as int, column as int);
            assert(0 <= row * self.width <= row * self.width + column) by (nonlinear_arith);
            assert(self.cells@.len() == self.cells.len());
        }
        row as usize * self.width as usize + column as usize
    }

    /// What one wrapped step of `(dr, dc)` from `(row, column)` adds to the
    /// neighbour count.
    fn contribution(&self, row: u32, column: u32, dr: u32, dc: u32) -> (n: u8)
        requires
            self.wf(),
            self@.width >= 1,
            self@.height >= 1,
        ensures
            n == self@.contribution(row as int, column as int, dr as int, dc as int),
            n <= 1,
    {
        if dr == 0 && dc == 0 {
            0
        } else {
            let r: u64 = (row as u64 + dr as u64) % (self.height as u64);
            let c: u64 = (column as u64 + dc as u64) % (self.width as u64);
            let idx = self.get_index(r as u32, c as u32);
            self.cells[idx].value()
        }
    }

    /// Counts the live cells among the eight neighbours of `(row, column)`,
    /// each coordinate wrapping round its own dimension. Any `row` and
    /// `column` are taken; they wrap as the neighbours do.
    pub fn live_neighbor_count(&self, row: u32, column: u32) -> (count: u8)
        requires
            self.wf(),
            self@.width >= 1,
            self@.height >= 1,
        ensures
            count == self@.live_neighbors(row as int, column as int),
            count <= 8,
    {
        let up: u32 = self.height - 1;
        let left: u32 = self.width - 1;
        let mut count: u8 = self.contribution(row, column, up, left);
        count = count + self.contribution(row, column, up, 0);
        count = count + self.contribution(row, column, up, 1);
        count = count + self.contribution(row, column, 0, left);
        count = count + self.contribution(row, column, 0, 0);
        count = count + self.contribution(row, column, 0, 1);
        count = count + self.contribution(row, column, 1, left);
        count = count + self.contribution(row, column, 1, 0);
        count = count + self.contribution(row, column, 1, 1);
        count
    }

    /// Advances the universe by one generation. Every cell is decided from
    /// the generation before the call; the new buffer replaces the old one
    /// only when it is complete. On an empty grid nothing changes.
    pub fn tick(&mut self)
        requires
            old(self).wf(),
        ensures
            final(self).wf(),
            final(self)@ == old(self)@.step(),
    {
        let mut next: Vec<Cell> = Vec::new();
        let mut row: u32 = 0;
        while row < self.height
            invariant
                self.wf(),
                *self == *old(self),
                row <= self.height,
                next@.len() == row * self.width,
                forall|k: int| 0 <= k < next@.len() ==> next@[k] == self@.step().cells[k],
            decreases self.height - row,
        {
            let mut col: u32 = 0;
            while col < self.width
                invariant
                    self.wf(),
                    *self == *old(self),
                    row < self.height,
                    col <= self.width,
                    next@.len() == row * self.width + col,
                    forall|k: int| 0 <= k < next@.len() ==> next@[k] == self@.step().cells[k],
                decreases self.width - col,
            {
                let idx = self.get_index(row, col);
                let cell = self.cells[idx];
                let live_neighbors = self.live_neighbor_count(row, col);
                proof {
                    lemma_index_in_range(self@, row as int, col as int);
                }
                next.push(cell.step(live_neighbors));
                col += 1;
            }
            proof {
                assert((row + 1) * self.width == row * self.width + self.width)
                    by (nonlinear_arith);
            }
            row += 1;
        }
        proof {
            assert(self.height * self.width == self.width * self.height) by (nonlinear_arith);
            assert(next@ =~= self@.step().cells);
        }
        self.cells = next;
    }

    /// Stamps a pattern with its corner at `(row, column)`: its cells become
    /// alive, every other cell is left as it was.
    fn stamp(&mut self, pattern: Pattern, row: u32, column: u32)
        requires
            old(self).wf(),
            row + pattern.extent() <= old(self)@.height,
            column + pattern.extent() <= old(self)@.width,
        ensures
            final(self).wf(),
            final(self)@ == old(self)@.stamped(pattern, row as int, column as int),
    {
        let size = pattern.size();
        let ghost before = self@;
        let mut dr: u32 = 0;
        while dr < size
            invariant
                before == old(self)@,
                before.wf(),
                size == pattern.extent(),
                row + size <= before.height,
                column + size <= before.width,
                self.wf(),
                self@.width == before.width,
                self@.height == before.height,
                dr <= size,
                forall|i: int|
                    0 <= i < before.cells.len() ==> self@.cells[i] == (if pattern.covers(
                        before.row_of(i) - row,
                        before.col_of(i) - column,
                    ) && before.row_of(i) - row < dr {
                        Cell::Alive
                    } else {
                        before.cells[i]
                    }),
            decreases size - dr,
        {
            let mut dc: u32 = 0;
            while dc < size
                invariant
                    before.wf(),
                        size == pattern.extent(),
                    row + size <= before.height,
                    column + size <= before.width,
                    self.wf(),
                    self@.width == before.width,
                    self@.height == before.height,
                    dr < size,
                    dc <= size,
                    forall|i: int|
                        0 <= i < before.cells.len() ==> self@.cells[i] == (if pattern.covers(
                            before.row_of(i) - row,
                            before.col_of(i) - column,
                        ) && (before.row_of(i) - row < dr || (before.row_of(i) - row == dr
                            && before.col_of(i) - column < dc)) {
                            Cell::Alive
                        } else {
                            before.cells[i]
                        }),
                decreases size - dc,
            {
                if pattern.has(dr, dc) {
                    let idx = self.get_index(row + dr, column + dc);
                    proof {
                        lemma_index_in_range(self@, row + dr, column + dc);
                        assert forall|i: int| 0 <= i < before.cells.len() implies before.index(
                            #[trigger] before.row_of(i),
                            before.col_of(i),
                        ) == i by {
                            lemma_position_of_index(before, i);
                        }
                    }
                    self.cells[idx] = Cell::Alive;
                }
                dc += 1;
            }
            dr += 1;
        }
        proof {
            assert(self@.cells =~= before.stamped(pattern, row as int, column as int).cells);
        }
    }

    /// Stamps a glider with its top-left corner at `(row, column)`: the cells
    /// at the offsets (0,0), (1,1), (1,2), (2,0) and (2,1) become alive. The
    /// whole three-by-three footprint has to lie inside the grid.
    pub fn insert_glider(&mut self, row: u32, column: u32)
        requires
            old(self).wf(),
            row + 3 <= old(self)@.height,
            column + 3 <= old(self)@.width,
        ensures
            final(self).wf(),
            final(self)@ == old(self)@.stamped(Pattern::Glider, row as int, column as int),
    {
        self.stamp(Pattern::Glider, row, column);
    }

    /// Stamps a pulsar with its top-left corner at `(row, column)`. The whole
    /// thirteen-by-thirteen footprint has to lie inside the grid.
    pub fn insert_pulsar(&mut self, row: u32, column: u32)
        requires
            old(self).wf(),
            row + 13 <= old(self)@.height,
            column + 13 <= old(self)@.width,
        ensures
            final(self).wf(),
            final(self)@ == old(self)@.stamped(Pattern::Pulsar, row as int, column as int),
    {
        self.stamp(Pattern::Pulsar, row, column);
    }

    /// The initial universe: 64 by 64, seeded by a fixed rule.
    pub fn new() -> (universe: Universe)
        ensures
            universe.wf(),
            universe@ == Grid::seeded(),
    {
        let width: u32 = 64;
        let height: u32 = 64;
        let mut cells: Vec<Cell> = Vec::new();
        let mut i: u32 = 0;
        while i < 4096
            invariant
                i <= 4096,
                cells@.len() == i,
                forall|k: int| 0 <= k < i ==> cells@[k] == Grid::seeded().cells[k],
            decreases 4096 - i,
        {
            if i % 2 == 0 || i % 7 == 0 {
                cells.push(Cell::Alive);
            } else {
                cells.push(Cell::Dead);
            }
            i += 1;
        }
        assert(cells@ =~= Grid::seeded().cells);
        Universe { width, height, cells }
    }

    /// Sets the number of columns. Every cell of the resized grid is dead,
    /// whatever the grid held before.
    pub fn set_width(&mut self, width: u32)
        requires
            old(self).wf(),
            width * old(self)@.height <= usize::MAX,
        ensures
            final(self).wf(),
            final(self)@ == Grid::blank(width as nat, old(self)@.height),
    {
        self.width = width;
        self.cells = dead_cells(width as usize * self.height as usize);
    }

    /// Sets the number of rows. Every cell of the resized grid is dead,
    /// whatever the grid held before.
    pub fn set_height(&mut self, height: u32)
        requires
            old(self).wf(),
            old(self)@.width * height <= usize::MAX,
        ensures
            final(self).wf(),
            final(self)@ == Grid::blank(old(self)@.width, height as nat),
    {
        self.height = height;
        self.cells = dead_cells(self.width as usize * height as usize);
    }

    /// Flips the cell at `(row, column)`.
    pub fn toggle_cell(&mut self, row: u32, column: u32)
        requires
            old(self).wf(),
            old(self)@.contains(row as int, column as int),
        ensures
            final(self).wf(),
            final(self)@ == old(self)@.toggled(row as int, column as int),
    {
        let idx = self.get_index(row, column);
        let mut cell = self.cells[idx];
        cell.toggle();
        self.cells[idx] = cell;
        assert(self@.cells =~= old(self)@.toggled(row as int, column as int).cells);
    }

    /// Makes every cell dead; the dimensions stay.
    pub fn clear_all(&mut self)
        requires
            old(self).wf(),
        ensures
            final(self).wf(),
            final(self)@ == Grid::blank(old(self)@.width, old(self)@.height),
    {
        let n = self.cells.len();
        let mut idx: usize = 0;
        while idx < n
            invariant
                self.wf(),
                self@.width == old(self)@.width,
                self@.height == old(self)@.height,
                n == self@.cells.len(),
                idx <= n,
                forall|k: int| 0 <= k < idx ==> self@.cells[k] == Cell::Dead,
            decreases n - idx,
        {
            self.cells[idx] = Cell::Dead;
            idx += 1;
        }
        assert(self@.cells =~= Grid::blank(old(self)@.width, old(self)@.height).cells);
    }

    /// Replaces every cell by the one that the draw at its place stands for.
    pub fn fill_from_draws(&mut self, draws: &Vec<u64>)
        requires
            old(self).wf(),
            draws@.len() == old(self)@.cells.len(),
        ensures
            final(self).wf(),
            final(self)@ == old(self)@.drawn(draws@),
    {
        let n = self.cells.len();
        let mut idx: usize = 0;
        while idx < n
            invariant
                self.wf(),
                self@.width == old(self)@.width,
                self@.height == old(self)@.height,
                n == self@.cells.len(),
                n == draws@.len(),
                n == old(self)@.cells.len(),
                idx <= n,
                forall|k: int| 0 <= k < idx ==> self@.cells[k] == old(self)@.drawn(draws@).cells[k],
            decreases n - idx,
        {
            self.cells[idx] = cell_for_draw(draws[idx]);
            idx += 1;
        }
        assert(self@.cells =~= old(self)@.drawn(draws@).cells);
    }

    /// Replaces every cell by a fresh random one: one draw is taken from the
    /// host for each cell, and the cell is alive where its draw is less than
    /// one half. The dimensions stay.
    pub fn generate_random(&mut self)
        requires
            old(self).wf(),
        ensures
            final(self).wf(),
            exists|draws: Seq<u64>|
                draws.len() == old(self)@.cells.len() && final(self)@ == old(self)@.drawn(draws),
    {
        let n = self.cells.len();
        let mut draws: Vec<u64> = Vec::new();
        while draws.len() < n
            invariant
                draws@.len() <= n,
            decreases n - draws@.len(),
        {
            draws.push(random_draw());
        }
        self.fill_from_draws(&draws);
    }

    /// The cells, row by row.
    pub fn get_cells(&self) -> (cells: &[Cell])
        ensures
            cells@ == self@.cells,
    {
        self.cells.as_slice()
    }

    /// Makes each listed position alive; every other cell is left as it was.
    pub fn set_cells(&mut self, cells: &[(u32, u32)])
        requires
            old(self).wf(),
            old(self)@.contains_all(cells@),
        ensures
            final(self).wf(),
            final(self)@ == old(self)@.set_all(cells@),
    {
        let mut k: usize = 0;
        assert(cells@.take(0) =~= Seq::empty());
        while k < cells.len()
            invariant
                self.wf(),
                old(self)@.contains_all(cells@),
                self@.width == old(self)@.width,
                self@.height == old(self)@.height,
                k <= cells@.len(),
                self@ == old(self)@.set_all(cells@.take(k as int)),
            decreases cells@.len() - k,
        {
            let (row, col) = cells[k];
            let idx = self.get_index(row, col);
            self.cells[idx] = Cell::Alive;
            proof {
                let next = cells@.take(k + 1);
                assert(next.drop_last() =~= cells@.take(k as int));
                assert(next.last() == cells@[k as int]);
            }
            k += 1;
        }
        assert(cells@.take(k as int) =~= cells@);
    }

    /// The grid as text: one line for each row, top row first, one glyph for
    /// each cell and a line feed after each row.
    pub fn render(&self) -> (text: String)
        requires
            self.wf(),
        ensures
            text@ == self@.text(),
    {
        let mut text = String::new();
        let mut row: u32 = 0;
        while row < self.height
            invariant
                self.wf(),
                row <= self.height,
                text@ == self@.rows_text(row as nat),
            decreases self.height - row,
        {
            let mut col: u32 = 0;
            assert(text@ + self@.row_text(row as int, 0) =~= text@);
            while col < self.width
                invariant
                    self.wf(),
                    row < self.height,
                    col <= self.width,
                    text@ == self@.rows_text(row as nat) + self@.row_text(row as int, col as int),
                decreases self.width - col,
            {
                let idx = self.get_index(row, col);
                text.push(self.cells[idx].symbol());
                assert(self@.row_text(row as int, col + 1) =~= self@.row_text(
                    row as int,
                    col as int,
                ).push(self@.at(row as int, col as int).glyph()));
                assert(text@ =~= self@.rows_text(row as nat) + self@.row_text(
                    row as int,
                    col + 1,
                ));
                col += 1;
            }
            text.push('\n');
            assert(text@ =~= self@.rows_text((row + 1) as nat));
            row += 1;
        }
        text
    }
}

} // verus!
