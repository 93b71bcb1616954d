//! What holds of the grid and its transition, proved over the model.

use crate::cell::Cell;
use crate::grid::{lemma_index_in_range, lemma_position_of_index, Grid};
use crate::pattern::Pattern;
use vstd::prelude::*;

verus! {

/// Every operation on a well-formed grid gives a well-formed grid of the
/// dimensions it should have: the number of cells is always the width times
/// the height.
pub proof fn lemma_operations_keep_one_cell_per_position(
    g: Grid,
    row: int,
    col: int,
    coords: Seq<(u32, u32)>,
    pattern: Pattern,
    draws: Seq<u64>,
    width: nat,
    height: nat,
)
    requires
        g.wf(),
        g.contains(row, col),
        g.contains_all(coords),
    ensures
        g.step().wf(),
        g.toggled(row, col).wf(),
        g.set_alive(row, col).wf(),
        g.set_all(coords).wf(),
        g.set_all(coords).width == g.width,
        g.set_all(coords).height == g.height,
        g.stamped(pattern, row, col).wf(),
        g.drawn(draws).wf(),
        Grid::blank(width, height).wf(),
        Grid::seeded().wf(),
    decreases coords.len(),
{
    lemma_index_in_range(g, row, col);
    if coords.len() > 0 {
        let last = coords.last();
        assert(g.contains(last.0 as int, last.1 as int));
        lemma_index_in_range(g, last.0 as int, last.1 as int);
        lemma_operations_keep_one_cell_per_position(
            g,
            row,
            col,
            coords.drop_last(),
            pattern,
            draws,
            width,
            height,
        );
    }
}

/// Every generation that can be reached from a well-formed grid is
/// well-formed and has the dimensions of the first: at all times there is one
/// cell for each position.
pub proof fn lemma_every_generation_is_well_formed(g: Grid, n: nat)
    requires
        g.wf(),
    ensures
        g.after(n).wf(),
        g.after(n).width == g.width,
        g.after(n).height == g.height,
        g.after(n).cells.len() == g.width * g.height,
    decreases n,
{
    if n > 0 {
        lemma_every_generation_is_well_formed(g, (n - 1) as nat);
    }
}

/// The next generation depends on nothing but the dimensions and the cells:
/// two grids that agree in them have the same next generation.
pub proof fn lemma_step_is_deterministic(a: Grid, b: Grid)
    requires
        a.width == b.width,
        a.height == b.height,
        a.cells =~= b.cells,
    ensures
        a.step() == b.step(),
{
}

/// A grid without a row or without a column has no cell, and a step leaves
/// it as it is.
pub proof fn lemma_step_of_empty(g: Grid)
    requires
        g.wf(),
        g.width == 0 || g.height == 0,
    ensures
        g.cells.len() == 0,
        g.step() == g,
{
    assert(g.width * g.height == 0) by (nonlinear_arith)
        requires
            g.width == 0 || g.height == 0,
    ;
    assert(g.step().cells =~= g.cells);
}

/// Two positions of the grid with the same place in the sequence are the
/// same position.
pub proof fn lemma_index_is_injective(g: Grid, r1: int, c1: int, r2: int, c2: int)
    requires
        g.wf(),
        g.contains(r1, c1),
        g.contains(r2, c2),
        g.index(r1, c1) == g.index(r2, c2),
    ensures
        r1 == r2,
        c1 == c2,
{
    lemma_index_in_range(g, r1, c1);
    lemma_index_in_range(g, r2, c2);
}

/// Making one cell alive changes that cell and no other.
pub proof fn lemma_set_alive_at(g: Grid, row: int, col: int, r: int, c: int)
    requires
        g.wf(),
        g.contains(row, col),
        g.contains(r, c),
    ensures
        g.set_alive(row, col).wf(),
        g.set_alive(row, col).at(r, c) == (if r == row && c == col {
            Cell::Alive
        } else {
            g.at(r, c)
        }),
{
    lemma_index_in_range(g, row, col);
    lemma_index_in_range(g, r, c);
    if g.index(r, c) == g.index(row, col) {
        lemma_index_is_injective(g, r, c, row, col);
    }
}

/// Flipping one cell changes that cell and no other.
pub proof fn lemma_toggled_at(g: Grid, row: int, col: int, r: int, c: int)
    requires
        g.wf(),
        g.contains(row, col),
        g.contains(r, c),
    ensures
        g.toggled(row, col).at(r, c) == (if r == row && c == col {
            g.at(r, c).flipped()
        } else {
            g.at(r, c)
        }),
{
    lemma_index_in_range(g, row, col);
    lemma_index_in_range(g, r, c);
    if g.index(r, c) == g.index(row, col) {
        lemma_index_is_injective(g, r, c, row, col);
    }
}

/// After a list of positions was made alive, a cell is alive where its
/// position is listed and is as it was where it is not.
pub proof fn lemma_set_all_at(g: Grid, coords: Seq<(u32, u32)>, r: int, c: int)
    requires
        g.wf(),
        g.contains_all(coords),
        g.contains(r, c),
    ensures
        g.set_all(coords).wf(),
        g.set_all(coords).width == g.width,
        g.set_all(coords).height == g.height,
        g.set_all(coords).at(r, c) == (if exists|k: int|
            0 <= k < coords.len() && (#[trigger] coords[k]).0 == r && coords[k].1 == c {
            Cell::Alive
        } else {
            g.at(r, c)
        }),
    decreases coords.len(),
{
    if coords.len() > 0 {
        let front = coords.drop_last();
        let last = coords.last();
        assert(g.contains(last.0 as int, last.1 as int));
        lemma_set_all_at(g, front, r, c);
        lemma_set_alive_at(g.set_all(front), last.0 as int, last.1 as int, r, c);
        if last.0 == r && last.1 == c {
            assert(coords[coords.len() - 1].0 == r && coords[coords.len() - 1].1 == c);
        } else if exists|k: int| 0 <= k < front.len() && (#[trigger] front[k]).0 == r && front[k].1 == c {
            let k = choose|k: int| 0 <= k < front.len() && (#[trigger] front[k]).0 == r && front[k].1 == c;
            assert(coords[k] == front[k]);
        } else {
            assert forall|k: int| 0 <= k < coords.len() implies !((#[trigger] coords[k]).0 == r
                && coords[k].1 == c) by {
                if k < front.len() {
                    assert(front[k] == coords[k]);
                }
            }
        }
    }
}

/// After a pattern was stamped with its corner at `(row, col)`, a cell is
/// alive where the pattern covers its position and is as it was elsewhere.
pub proof fn lemma_stamped_at(g: Grid, pattern: Pattern, row: int, col: int, r: int, c: int)
    requires
        g.wf(),
        g.contains(r, c),
    ensures
        g.stamped(pattern, row, col).at(r, c) == (if pattern.covers(r - row, c - col) {
            Cell::Alive
        } else {
            g.at(r, c)
        }),
{
    lemma_index_in_range(g, r, c);
}

/// A step leaves the dimensions alone, and the cell at each position follows
/// the rule on the neighbours that the position had before the step.
pub proof fn lemma_step_at(g: Grid, row: int, col: int)
    requires
        g.wf(),
        g.contains(row, col),
    ensures
        g.step().width == g.width,
        g.step().height == g.height,
        g.step().at(row, col) == g.at(row, col).next(g.live_neighbors(row, col)),
{
    lemma_index_in_range(g, row, col);
}

/// Going forward by the dimension less one is going back by one, and going
/// forward by one from the last coordinate leads to the first.
proof fn lemma_wrap(x: int, n: int)
    requires
        0 <= x < n,
    ensures
        (x + (n - 1)) % n == (if x == 0 {
            n - 1
        } else {
            x - 1
        }),
        (x + 0) % n == x,
        (x + 1) % n == (if x == n - 1 {
            0
        } else {
            x + 1
        }),
{
    if x == 0 {
        vstd::arithmetic::div_mod::lemma_fundamental_div_mod_converse(x + (n - 1), n, 0, n - 1);
    } else {
        vstd::arithmetic::div_mod::lemma_fundamental_div_mod_converse(x + (n - 1), n, 1, x - 1);
    }
    vstd::arithmetic::div_mod::lemma_fundamental_div_mod_converse(x, n, 0, x);
    if x == n - 1 {
        vstd::arithmetic::div_mod::lemma_fundamental_div_mod_converse(x + 1, n, 1, 0);
    } else {
        vstd::arithmetic::div_mod::lemma_fundamental_div_mod_converse(x + 1, n, 0, x + 1);
    }
}

/// On a grid with at least two rows and two columns, the neighbour count of
/// a position is the number of live cells among the eight positions in the
/// rows above, at and below it and the columns left of, at and right of it,
/// the position itself left out, with rows and columns wrapping round.
pub proof fn lemma_neighbors_on_torus(g: Grid, row: int, col: int)
    requires
        g.wf(),
        g.contains(row, col),
        g.width >= 2,
        g.height >= 2,
    ensures
        g.live_neighbors(row, col) == g.at(g.prev_row(row), g.prev_col(col)).count() + g.at(
            g.prev_row(row),
            col,
        ).count() + g.at(g.prev_row(row), g.next_col(col)).count() + g.at(
            row,
            g.prev_col(col),
        ).count() + g.at(row, g.next_col(col)).count() + g.at(
            g.next_row(row),
            g.prev_col(col),
        ).count() + g.at(g.next_row(row), col).count() + g.at(
            g.next_row(row),
            g.next_col(col),
        ).count(),
{
    lemma_wrap(row, g.height as int);
    lemma_wrap(col, g.width as int);
}

/// The top-left cell counts as its neighbours the cells at the far ends of
/// the last row, of the last column and of its own row and column: the grid
/// wraps round both edges.
pub proof fn lemma_corner_neighbors_wrap(g: Grid)
    requires
        g.wf(),
        g.width >= 2,
        g.height >= 2,
    ensures
        g.live_neighbors(0, 0) == g.at(g.height - 1, g.width - 1).count() + g.at(
            g.height - 1,
            0,
        ).count() + g.at(g.height - 1, 1).count() + g.at(0, g.width - 1).count() + g.at(
            0,
            1,
        ).count() + g.at(1, g.width - 1).count() + g.at(1, 0).count() + g.at(1, 1).count(),
{
    lemma_neighbors_on_torus(g, 0, 0);
}

/// Whether the live cells of the grid are exactly the four of the
/// two-by-two block whose top-left cell is `(row, col)`.
pub open spec fn is_block(g: Grid, row: int, col: int) -> bool {
    forall|r: int, c: int|
        g.contains(r, c) ==> (#[trigger] g.at(r, c) == Cell::Alive <==> (row <= r <= row + 1
            && col <= c <= col + 1))
}

/// Whether the live cells of the grid are exactly the three of the
/// horizontal line whose middle cell is `(row, col)`, the line wrapping
/// round the edge where it has to.
pub open spec fn is_row_blinker(g: Grid, row: int, col: int) -> bool {
    forall|r: int, c: int|
        g.contains(r, c) ==> (#[trigger] g.at(r, c) == Cell::Alive <==> (r == row && (c
            == g.prev_col(col) || c == col || c == g.next_col(col))))
}

/// Whether the live cells of the grid are exactly the three of the vertical
/// line whose middle cell is `(row, col)`, the line wrapping round the edge
/// where it has to.
pub open spec fn is_column_blinker(g: Grid, row: int, col: int) -> bool {
    forall|r: int, c: int|
        g.contains(r, c) ==> (#[trigger] g.at(r, c) == Cell::Alive <==> (c == col && (r
            == g.prev_row(row) || r == row || r == g.next_row(row))))
}

/// Two grids of the same dimensions that hold the same cell at every
/// position are the same grid.
pub proof fn lemma_equal_by_positions(a: Grid, b: Grid)
    requires
        a.wf(),
        b.wf(),
        a.width == b.width,
        a.height == b.height,
        forall|r: int, c: int| a.contains(r, c) ==> #[trigger] a.at(r, c) == b.at(r, c),
    ensures
        a == b,
{
    assert forall|i: int| 0 <= i < a.cells.len() implies a.cells[i] == b.cells[i] by {
        lemma_position_of_index(a, i);
        assert(a.at(a.row_of(i), a.col_of(i)) == b.at(a.row_of(i), a.col_of(i)));
    }
    assert(a.cells =~= b.cells);
}

/// A two-by-two block of live cells that touches no edge of the grid, all
/// other cells dead, is a still life: a step leaves the grid as it is.
pub proof fn lemma_block_is_still(g: Grid, row: int, col: int)
    requires
        g.wf(),
        1 <= row,
        row + 2 < g.height,
        1 <= col,
        col + 2 < g.width,
        is_block(g, row, col),
    ensures
        g.step() == g,
{
    let s = g.step();
    assert forall|r: int, c: int| s.contains(r, c) implies (#[trigger] s.at(r, c) == Cell::Alive
        <==> (row <= r <= row + 1 && col <= c <= col + 1)) by {
        lemma_step_at(g, r, c);
        lemma_neighbors_on_torus(g, r, c);
    }
    assert forall|r: int, c: int| s.contains(r, c) implies #[trigger] s.at(r, c) == g.at(
        r,
        c,
    ) by {
        if s.at(r, c) == Cell::Alive {
            assert(g.at(r, c) == Cell::Alive);
        } else {
            assert(g.at(r, c) != Cell::Alive);
        }
    }
    lemma_equal_by_positions(s, g);
}

/// On a grid with at least four rows and four columns a horizontal line of
/// three turns into the vertical line of three through the same middle.
pub proof fn lemma_row_blinker_turns(g: Grid, row: int, col: int)
    requires
        g.wf(),
        g.contains(row, col),
        g.width >= 4,
        g.height >= 4,
        is_row_blinker(g, row, col),
    ensures
        g.step().wf(),
        g.step().width == g.width,
        g.step().height == g.height,
        is_column_blinker(g.step(), row, col),
{
    let s = g.step();
    assert forall|r: int, c: int| s.contains(r, c) implies (#[trigger] s.at(r, c) == Cell::Alive
        <==> (c == col && (r == s.prev_row(row) || r == row || r == s.next_row(row)))) by {
        lemma_step_at(g, r, c);
        lemma_neighbors_on_torus(g, r, c);
    }
}

/// On a grid with at least four rows and four columns a vertical line of
/// three turns into the horizontal line of three through the same middle.
pub proof fn lemma_column_blinker_turns(g: Grid, row: int, col: int)
    requires
        g.wf(),
        g.contains(row, col),
        g.width >= 4,
        g.height >= 4,
        is_column_blinker(g, row, col),
    ensures
        g.step().wf(),
        g.step().width == g.width,
        g.step().height == g.height,
        is_row_blinker(g.step(), row, col),
{
    let s = g.step();
    assert forall|r: int, c: int| s.contains(r, c) implies (#[trigger] s.at(r, c) == Cell::Alive
        <==> (r == row && (c == s.prev_col(col) || c == col || c == s.next_col(col)))) by {
        lemma_step_at(g, r, c);
        lemma_neighbors_on_torus(g, r, c);
    }
}

/// A horizontal line of three live cells, all other cells dead, on a grid
/// with at least four rows and four columns, is back after exactly two
/// steps: one step gives another grid, the second gives the first again.
pub proof fn lemma_blinker_has_period_two(g: Grid, row: int, col: int)
    requires
        g.wf(),
        g.contains(row, col),
        g.width >= 4,
        g.height >= 4,
        is_row_blinker(g, row, col),
    ensures
        g.step() != g,
        g.step().step() == g,
        g.after(1) != g,
        g.after(2) == g,
{
    reveal_with_fuel(Grid::after, 3);
    let s = g.step();
    lemma_row_blinker_turns(g, row, col);
    lemma_column_blinker_turns(s, row, col);
    let t = s.step();
    assert forall|r: int, c: int| t.contains(r, c) implies #[trigger] t.at(r, c) == g.at(
        r,
        c,
    ) by {
        if t.at(r, c) == Cell::Alive {
            assert(g.at(r, c) == Cell::Alive);
        } else {
            assert(g.at(r, c) != Cell::Alive);
        }
    }
    lemma_equal_by_positions(t, g);
    assert(g.contains(row, g.next_col(col)));
    assert(g.at(row, g.next_col(col)) == Cell::Alive);
    assert(s.at(row, g.next_col(col)) != Cell::Alive);
}

/// A line of text written `n` times.
pub open spec fn repeated(line: Seq<char>, n: nat) -> Seq<char>
    decreases n,
{
    if n == 0 {
        Seq::empty()
    } else {
        repeated(line, (n - 1) as nat) + line
    }
}

/// The first rows of a grid without a live cell are drawn as lines of the
/// glyph of a dead cell.
proof fn lemma_blank_rows_text(width: nat, height: nat, rows: nat)
    requires
        rows <= height,
    ensures
        Grid::blank(width, height).rows_text(rows) == repeated(
            Seq::new(width, |c: int| Cell::Dead.glyph()).push('\n'),
            rows,
        ),
    decreases rows,
{
    if rows > 0 {
        let g = Grid::blank(width, height);
        lemma_blank_rows_text(width, height, (rows - 1) as nat);
        let last: int = rows - 1;
        assert forall|c: int| 0 <= c < width implies #[trigger] g.at(last, c) == Cell::Dead by {
            lemma_index_in_range(g, last, c);
        }
        assert(g.row_text(last, width as int) =~= Seq::new(
            width,
            |c: int| Cell::Dead.glyph(),
        ));
    }
}

/// A cleared grid is drawn as one line for each row, each line the glyph of
/// a dead cell once for each column and a line feed.
pub proof fn lemma_blank_renders_dead(width: nat, height: nat)
    ensures
        Grid::blank(width, height).text() == repeated(
            Seq::new(width, |c: int| Cell::Dead.glyph()).push('\n'),
            height,
        ),
{
    lemma_blank_rows_text(width, height, height);
}

} // verus!
