//! The grid as a mathematical value.
//!
//! A [`Grid`] is what a universe looks like to a contract: two dimensions
//! and a row-major sequence of cells. Everything the engine does is stated
//! here as a function from grids to grids, cells, counts or text.

use vstd::prelude::*;
use crate::cell::Cell;

verus! {

/// A rectangular grid of cells whose opposite edges are joined.
pub struct Grid {
    /// The number of columns.
    pub width: nat,
    /// The number of rows.
    pub height: nat,
    /// The cells, row after row.
    pub cells: Seq<Cell>,
}

impl Grid {
    /// A grid is well formed when it has at least one row and one column and
    /// holds exactly one cell for each position.
    pub open spec fn wf(self) -> bool {
        &&& self.width >= 1
        &&& self.height >= 1
        &&& self.cells.len() == self.width * self.height
    }

    /// Whether `(row, col)` names a position of the grid.
    pub open spec fn in_bounds(self, row: int, col: int) -> bool {
        0 <= row < self.height && 0 <= col < self.width
    }

    /// The place of position `(row, col)` in the row-major sequence of cells.
    pub open spec fn index(self, row: int, col: int) -> int {
        row * self.width + col
    }

    /// The cell at position `(row, col)`.
    pub open spec fn cell(self, row: int, col: int) -> Cell {
        self.cells[self.index(row, col)]
    }

    /// The cell found at `(row, col)` once the row is taken modulo the height
    /// and the column modulo the width. This is what joins the edges: row
    /// `-1` is the last row, row `height` is the first.
    pub open spec fn wrapped_cell(self, row: int, col: int) -> Cell {
        self.cell(row % (self.height as int), col % (self.width as int))
    }

    /// The number of live cells among the eight neighbours of `(row, col)`:
    /// the positions one step away in each direction, edges joined. The cell
    /// itself is not counted at offset zero, though on a grid with fewer than
    /// three rows or columns it can be its own neighbour.
    pub open spec fn live_neighbor_count(self, row: int, col: int) -> int {
        self.wrapped_cell(row - 1, col - 1).population()
            + self.wrapped_cell(row - 1, col).population()
            + self.wrapped_cell(row - 1, col + 1).population()
            + self.wrapped_cell(row, col - 1).population()
            + self.wrapped_cell(row, col + 1).population()
            + self.wrapped_cell(row + 1, col - 1).population()
            + self.wrapped_cell(row + 1, col).population()
            + self.wrapped_cell(row + 1, col + 1).population()
    }

    /// The row above `row`; above the first row stands the last.
    pub open spec fn row_above(self, row: int) -> int {
        if row == 0 {
            self.height - 1
        } else {
            row - 1
        }
    }

    /// The row below `row`; below the last row stands the first.
    pub open spec fn row_below(self, row: int) -> int {
        if row == self.height - 1 {
            0
        } else {
            row + 1
        }
    }

    /// The column left of `col`; left of the first column stands the last.
    pub open spec fn column_left(self, col: int) -> int {
        if col == 0 {
            self.width - 1
        } else {
            col - 1
        }
    }

    /// The column right of `col`; right of the last column stands the first.
    pub open spec fn column_right(self, col: int) -> int {
        if col == self.width - 1 {
            0
        } else {
            col + 1
        }
    }

    /// The state of the cell at `(row, col)` one generation later.
    pub open spec fn next_cell(self, row: int, col: int) -> Cell {
        self.cell(row, col).next(self.live_neighbor_count(row, col))
    }

    /// The next generation: every cell is replaced by its next state, each
    /// computed from this grid alone.
    pub open spec fn tick(self) -> Grid {
        Grid {
            width: self.width,
            height: self.height,
            cells: Seq::new(
                self.cells.len(),
                |i: int| self.next_cell(i / (self.width as int), i % (self.width as int)),
            ),
        }
    }

    /// The grid of the given dimensions in which every cell is dead.
    pub open spec fn blank(width: nat, height: nat) -> Grid {
        Grid { width, height, cells: Seq::new(width * height, |i: int| Cell::Dead) }
    }

    /// The grid of the given dimensions whose cell at each place is alive
    /// exactly when the seed holds `true` at that place.
    pub open spec fn seeded(width: nat, height: nat, seed: Seq<bool>) -> Grid {
        Grid {
            width,
            height,
            cells: Seq::new(
                seed.len(),
                |i: int| if seed[i] { Cell::Alive } else { Cell::Dead },
            ),
        }
    }

    /// Whether every coordinate of the list names a position of the grid.
    pub open spec fn covers(self, coords: Seq<(u32, u32)>) -> bool {
        forall|k: int|
            0 <= k < coords.len() ==> self.in_bounds(
                (#[trigger] coords[k]).0 as int,
                coords[k].1 as int,
            )
    }

    /// Whether one of the coordinates addresses place `i` of the cell
    /// sequence.
    pub open spec fn addressed(self, coords: Seq<(u32, u32)>, i: int) -> bool {
        exists|k: int|
            0 <= k < coords.len() && self.index(
                (#[trigger] coords[k]).0 as int,
                coords[k].1 as int,
            ) == i
    }

    /// This grid with every addressed cell alive and every other cell as it
    /// was.
    pub open spec fn with_alive(self, coords: Seq<(u32, u32)>) -> Grid {
        Grid {
            width: self.width,
            height: self.height,
            cells: Seq::new(
                self.cells.len(),
                |i: int| if self.addressed(coords, i) { Cell::Alive } else { self.cells[i] },
            ),
        }
    }

    /// The grid as text: one line for each row, top to bottom, each made of
    /// the glyphs of the row's cells from left to right and ended by a line
    /// feed.
    pub open spec fn render(self) -> Seq<char> {
        let line = self.width as int + 1;
        Seq::new(
            self.height * (self.width + 1) as nat,
            |i: int|
                if i % line == self.width {
                    '\n'
                } else {
                    self.cell(i / line, i % line).glyph()
                },
        )
    }
}

/// A position inside a grid has its place inside the cell sequence, and the
/// place gives the position back by division and remainder.
pub proof fn lemma_index_in_range(width: int, height: int, row: int, col: int)
    requires
        0 <= row < height,
        0 <= col < width,
    ensures
        0 <= row * width + col < width * height,
        (row * width + col) / width == row,
        (row * width + col) % width == col,
{
    assert(row * width + width <= width * height) by (nonlinear_arith)
        requires
            0 <= row < height,
            0 < width,
    ;
    assert(0 <= row * width) by (nonlinear_arith)
        requires
            0 <= row,
            0 < width,
    ;
    vstd::arithmetic::div_mod::lemma_fundamental_div_mod_converse(
        row * width + col,
        width,
        row,
        col,
    );
}

/// Every place of the cell sequence belongs to exactly one position of the
/// grid: its quotient and remainder by the width.
pub proof fn lemma_place_to_position(width: int, height: int, i: int)
    requires
        0 < width,
        0 <= i < width * height,
    ensures
        0 <= i / width < height,
        0 <= i % width < width,
        (i / width) * width + i % width == i,
{
    vstd::arithmetic::div_mod::lemma_fundamental_div_mod(i, width);
    vstd::arithmetic::div_mod::lemma_mod_bound(i, width);
    let q = i / width;
    assert(width * q == q * width) by (nonlinear_arith);
    assert(0 <= q < height) by (nonlinear_arith)
        requires
            0 < width,
            0 <= i < width * height,
            0 <= i - q * width < width,
    ;
}

/// Taking a row or column modulo the dimension leaves an inside position
/// where it is, sends the step before the first to the last, and the step
/// after the last to the first.
pub proof fn lemma_wrap(n: int, x: int)
    requires
        0 <= x < n,
    ensures
        x % n == x,
        (x - 1) % n == if x == 0 { n - 1 } else { x - 1 },
        (x + 1) % n == if x == n - 1 { 0 } else { x + 1 },
{
    vstd::arithmetic::div_mod::lemma_small_mod(x as nat, n as nat);
    if x == 0 {
        vstd::arithmetic::div_mod::lemma_fundamental_div_mod_converse(-1, n, -1, n - 1);
    } else {
        vstd::arithmetic::div_mod::lemma_small_mod((x - 1) as nat, n as nat);
    }
    if x == n - 1 {
        vstd::arithmetic::div_mod::lemma_fundamental_div_mod_converse(n, n, 1, 0);
    } else {
        vstd::arithmetic::div_mod::lemma_small_mod((x + 1) as nat, n as nat);
    }
}

/// On a well-formed grid the eight neighbours of an inside position are the
/// inside positions in the rows above and below and the columns to the left
/// and right, edges joined; the count of live neighbours is the number of
/// live cells among them.
pub proof fn lemma_neighbors_on_torus(grid: Grid, row: int, col: int)
    requires
        grid.wf(),
        grid.in_bounds(row, col),
    ensures
        grid.in_bounds(grid.row_above(row), grid.column_left(col)),
        grid.in_bounds(grid.row_below(row), grid.column_right(col)),
        grid.live_neighbor_count(row, col) == {
            let above = grid.row_above(row);
            let below = grid.row_below(row);
            let left = grid.column_left(col);
            let right = grid.column_right(col);
            grid.cell(above, left).population() + grid.cell(above, col).population()
                + grid.cell(above, right).population() + grid.cell(row, left).population()
                + grid.cell(row, right).population() + grid.cell(below, left).population()
                + grid.cell(below, col).population() + grid.cell(below, right).population()
        },
        0 <= grid.live_neighbor_count(row, col) <= 8,
{
    lemma_wrap(grid.height as int, row);
    lemma_wrap(grid.width as int, col);
}

} // verus!
