//! The mathematical model of the grid: its dimensions and its cells in
//! row-major order, with the neighbourhood and the transition defined on it.

use crate::cell::Cell;
use crate::pattern::Pattern;
use crate::random::cell_of_draw;
use vstd::prelude::*;

verus! {

/// A grid as a value: `width` columns, `height` rows, and the cells row by
/// row, the cell of row `r` and column `c` at position `r * width + c`.
pub struct Grid {
    pub width: nat,
    pub height: nat,
    pub cells: Seq<Cell>,
}

impl Grid {
    /// There is exactly one cell for each position.
    pub open spec fn wf(self) -> bool {
        self.cells.len() == self.width * self.height
    }

    /// Whether `(row, col)` names a position of the grid.
    pub open spec fn contains(self, row: int, col: int) -> bool {
        0 <= row < self.height && 0 <= col < self.width
    }

    /// The place of `(row, col)` in the row-major sequence.
    pub open spec fn index(self, row: int, col: int) -> int {
        row * self.width + col
    }

    /// The row of the position that stands at place `i` of the sequence.
    pub open spec fn row_of(self, i: int) -> int {
        i / (self.width as int)
    }

    /// The column of the position that stands at place `i` of the sequence.
    pub open spec fn col_of(self, i: int) -> int {
        i % (self.width as int)
    }

    /// The cell at `(row, col)`.
    pub open spec fn at(self, row: int, col: int) -> Cell {
        self.cells[self.index(row, col)]
    }

    /// What the position reached from `(row, col)` by going `dr` rows down
    /// and `dc` columns right, wrapping round both edges, adds to the
    /// neighbour count of `(row, col)`. A zero step in both directions is the
    /// cell itself and adds nothing.
    pub open spec fn contribution(self, row: int, col: int, dr: int, dc: int) -> nat {
        if dr == 0 && dc == 0 {
            0
        } else {
            self.at((row + dr) % (self.height as int), (col + dc) % (self.width as int)).count()
        }
    }

    /// The number of live cells among the neighbours of `(row, col)` on the
    /// torus. A step back by one is taken as a step forward by the dimension
    /// less one, so no coordinate ever goes below zero.
    pub open spec fn live_neighbors(self, row: int, col: int) -> nat {
        let up = self.height - 1;
        let left = self.width - 1;
        self.contribution(row, col, up, left) + self.contribution(row, col, up, 0)
            + self.contribution(row, col, up, 1) + self.contribution(row, col, 0, left)
            + self.contribution(row, col, 0, 0) + self.contribution(row, col, 0, 1)
            + self.contribution(row, col, 1, left) + self.contribution(row, col, 1, 0)
            + self.contribution(row, col, 1, 1)
    }

    /// The row above `row` on the torus.
    pub open spec fn prev_row(self, row: int) -> int {
        if row == 0 {
            self.height - 1
        } else {
            row - 1
        }
    }

    /// The row below `row` on the torus.
    pub open spec fn next_row(self, row: int) -> int {
        if row == self.height - 1 {
            0
        } else {
            row + 1
        }
    }

    /// The column left of `col` on the torus.
    pub open spec fn prev_col(self, col: int) -> int {
        if col == 0 {
            self.width - 1
        } else {
            col - 1
        }
    }

    /// The column right of `col` on the torus.
    pub open spec fn next_col(self, col: int) -> int {
        if col == self.width - 1 {
            0
        } else {
            col + 1
        }
    }

    /// The next generation: every cell follows the rule on the neighbours it
    /// has in this generation.
    pub open spec fn step(self) -> Grid {
        Grid {
            width: self.width,
            height: self.height,
            cells: Seq::new(
                self.cells.len(),
                |i: int|
                    self.cells[i].next(
                        self.live_neighbors(self.row_of(i), self.col_of(i)),
                    ),
            ),
        }
    }

    /// The grid `n` generations later.
    pub open spec fn after(self, n: nat) -> Grid
        decreases n,
    {
        if n == 0 {
            self
        } else {
            self.after((n - 1) as nat).step()
        }
    }

    /// The grid of the given dimensions with every cell dead.
    pub open spec fn blank(width: nat, height: nat) -> Grid {
        Grid { width, height, cells: Seq::new(width * height, |i: int| Cell::Dead) }
    }

    /// The same grid with the cell at `(row, col)` alive.
    pub open spec fn set_alive(self, row: int, col: int) -> Grid {
        Grid {
            width: self.width,
            height: self.height,
            cells: self.cells.update(self.index(row, col), Cell::Alive),
        }
    }

    /// The same grid with the cell at `(row, col)` flipped.
    pub open spec fn toggled(self, row: int, col: int) -> Grid {
        Grid {
            width: self.width,
            height: self.height,
            cells: self.cells.update(self.index(row, col), self.at(row, col).flipped()),
        }
    }

    /// The grid after each listed position, in order, was made alive.
    pub open spec fn set_all(self, coords: Seq<(u32, u32)>) -> Grid
        decreases coords.len(),
    {
        if coords.len() == 0 {
            self
        } else {
            self.set_all(coords.drop_last()).set_alive(
                coords.last().0 as int,
                coords.last().1 as int,
            )
        }
    }

    /// The same grid with the pattern's cells alive, the pattern's corner at
    /// `(row, col)`; every other cell is as it was.
    pub open spec fn stamped(self, pattern: Pattern, row: int, col: int) -> Grid {
        Grid {
            width: self.width,
            height: self.height,
            cells: Seq::new(
                self.cells.len(),
                |i: int|
                    if pattern.covers(self.row_of(i) - row, self.col_of(i) - col) {
                        Cell::Alive
                    } else {
                        self.cells[i]
                    },
            ),
        }
    }

    /// The initial grid: 64 by 64, the cell at place `i` of the sequence
    /// alive where `i` is a multiple of 2 or of 7.
    pub open spec fn seeded() -> Grid {
        Grid {
            width: 64,
            height: 64,
            cells: Seq::new(
                4096,
                |i: int|
                    if i % 2 == 0 || i % 7 == 0 {
                        Cell::Alive
                    } else {
                        Cell::Dead
                    },
            ),
        }
    }

    /// The grid of the same dimensions in which the cell at each place of
    /// the sequence is the one that the draw at that place stands for.
    pub open spec fn drawn(self, draws: Seq<u64>) -> Grid {
        Grid {
            width: self.width,
            height: self.height,
            cells: Seq::new(self.cells.len(), |i: int| cell_of_draw(draws[i])),
        }
    }

    /// The glyphs of the first `upto` cells of a row.
    pub open spec fn row_text(self, row: int, upto: int) -> Seq<char> {
        Seq::new(upto as nat, |c: int| self.at(row, c).glyph())
    }

    /// The first `rows` rows as text: each row its glyphs and a line feed.
    pub open spec fn rows_text(self, rows: nat) -> Seq<char>
        decreases rows,
    {
        if rows == 0 {
            Seq::empty()
        } else {
            self.rows_text((rows - 1) as nat) + self.row_text(rows - 1, self.width as int).push(
                '\n',
            )
        }
    }

    /// The whole grid as text, top row first.
    pub open spec fn text(self) -> Seq<char> {
        self.rows_text(self.height)
    }

    /// Whether every listed position lies in the grid.
    pub open spec fn contains_all(self, coords: Seq<(u32, u32)>) -> bool {
        forall|k: int|
            0 <= k < coords.len() ==> self.contains(
                (#[trigger] coords[k]).0 as int,
                coords[k].1 as int,
            )
    }
}

/// A position inside the grid has its place inside the cell sequence.
pub proof fn lemma_index_in_range(g: Grid, row: int, col: int)
    requires
        g.wf(),
        g.contains(row, col),
    ensures
        0 <= g.index(row, col) < g.cells.len(),
        g.row_of(g.index(row, col)) == row,
        g.col_of(g.index(row, col)) == col,
{
    let w = g.width as int;
    let h = g.height as int;
    assert(0 <= row * w && row * w + w <= h * w) by (nonlinear_arith)
        requires
            0 <= row < h,
            0 <= w,
    ;
    assert(h * w == w * h) by (nonlinear_arith);
    vstd::arithmetic::div_mod::lemma_fundamental_div_mod_converse(row * w + col, w, row, col);
}

/// Every place of the cell sequence is the place of one position of the grid.
pub proof fn lemma_position_of_index(g: Grid, i: int)
    requires
        g.wf(),
        0 <= i < g.cells.len(),
    ensures
        g.contains(g.row_of(i), g.col_of(i)),
        g.index(g.row_of(i), g.col_of(i)) == i,
{
    let w = g.width as int;
    let h = g.height as int;
    assert(w > 0) by (nonlinear_arith)
        requires
            0 <= i < w * h,
            0 <= w,
            0 <= h,
    ;
    vstd::arithmetic::div_mod::lemma_fundamental_div_mod(i, w);
    vstd::arithmetic::div_mod::lemma_mod_bound(i, w);
    let q = i / w;
    assert(0 <= q < h) by (nonlinear_arith)
        requires
            0 <= i < w * h,
            i == w * q + i % w,
            0 <= i % w < w,
    ;
    assert(w * q == q * w) by (nonlinear_arith);
}

} // verus!
