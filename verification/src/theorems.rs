//! What holds of every grid: how the edges join, how marking and rendering
//! behave, and two patterns whose fate is known.

use vstd::prelude::*;
use crate::cell::Cell;
use crate::grid::{lemma_index_in_range, lemma_neighbors_on_torus, lemma_place_to_position, Grid};

verus! {

/// On a grid with at least three rows and three columns, the neighbours of
/// the top left cell are the three cells of the last row that lie in the
/// last, first and second column, the cells of the first row in the last and
/// second column, and the three cells of the second row in the last, first
/// and second column.
pub proof fn lemma_corner_neighbors_wrap(grid: Grid)
    requires
        grid.wf(),
        grid.width >= 3,
        grid.height >= 3,
    ensures
        grid.live_neighbor_count(0, 0) == {
            let last_row = grid.height - 1;
            let last_col = grid.width - 1;
            grid.cell(last_row, last_col).population() + grid.cell(last_row, 0).population()
                + grid.cell(last_row, 1).population() + grid.cell(0, last_col).population()
                + grid.cell(0, 1).population() + grid.cell(1, last_col).population()
                + grid.cell(1, 0).population() + grid.cell(1, 1).population()
        },
{
    lemma_neighbors_on_torus(grid, 0, 0);
}

/// A generation later the grid has the dimensions it had and is well formed
/// if it was.
pub proof fn lemma_tick_keeps_shape(grid: Grid)
    ensures
        grid.tick().width == grid.width,
        grid.tick().height == grid.height,
        grid.tick().cells.len() == grid.cells.len(),
        grid.wf() ==> grid.tick().wf(),
{
}

/// The cell that the next generation holds at an inside position is the next
/// state of the cell that stands there now.
pub proof fn lemma_tick_cell(grid: Grid, row: int, col: int)
    requires
        grid.wf(),
        grid.in_bounds(row, col),
    ensures
        grid.tick().cell(row, col) == grid.next_cell(row, col),
{
    lemma_index_in_range(grid.width as int, grid.height as int, row, col);
}

/// Two well-formed grids of the same dimensions that hold the same cell at
/// every inside position are the same grid.
pub proof fn lemma_equal_by_position(a: Grid, b: Grid)
    requires
        a.wf(),
        b.wf(),
        a.width == b.width,
        a.height == b.height,
        forall|row: int, col: int|
            a.in_bounds(row, col) ==> #[trigger] a.cell(row, col) == b.cell(row, col),
    ensures
        a == b,
{
    assert forall|i: int| 0 <= i < a.cells.len() implies a.cells[i] == b.cells[i] by {
        lemma_place_to_position(a.width as int, a.height as int, i);
        let row = i / (a.width as int);
        let col = i % (a.width as int);
        assert(a.cell(row, col) == b.cell(row, col));
    }
    assert(a.cells =~= b.cells);
}

/// Marking the same cells twice is marking them once.
pub proof fn lemma_set_cells_idempotent(grid: Grid, coords: Seq<(u32, u32)>)
    ensures
        grid.with_alive(coords).with_alive(coords) == grid.with_alive(coords),
{
    let once = grid.with_alive(coords);
    let twice = once.with_alive(coords);
    assert forall|i: int| 0 <= i < once.cells.len() implies twice.cells[i] == once.cells[i] by {
        assert(once.addressed(coords, i) == grid.addressed(coords, i));
    }
    assert(twice.cells =~= once.cells);
}

/// Marking cells keeps the dimensions, leaves every live cell alive, makes
/// every addressed cell alive and changes no cell that is not addressed.
pub proof fn lemma_set_cells_only_adds(grid: Grid, coords: Seq<(u32, u32)>, i: int)
    requires
        0 <= i < grid.cells.len(),
    ensures
        grid.with_alive(coords).width == grid.width,
        grid.with_alive(coords).height == grid.height,
        grid.with_alive(coords).cells.len() == grid.cells.len(),
        grid.cells[i] == Cell::Alive ==> grid.with_alive(coords).cells[i] == Cell::Alive,
        grid.addressed(coords, i) ==> grid.with_alive(coords).cells[i] == Cell::Alive,
        !grid.addressed(coords, i) ==> grid.with_alive(coords).cells[i] == grid.cells[i],
{
}

/// The order in which cells are marked does not matter: two lists that hold
/// the same coordinates give the same grid.
pub proof fn lemma_set_cells_order(grid: Grid, first: Seq<(u32, u32)>, second: Seq<(u32, u32)>)
    requires
        forall|c: (u32, u32)| first.contains(c) <==> second.contains(c),
    ensures
        grid.with_alive(first) == grid.with_alive(second),
{
    assert forall|i: int| 0 <= i < grid.cells.len() implies grid.addressed(first, i)
        == grid.addressed(second, i) by {
        if grid.addressed(first, i) {
            let k = choose|k: int|
                0 <= k < first.len() && grid.index(
                    (#[trigger] first[k]).0 as int,
                    first[k].1 as int,
                ) == i;
            assert(first.contains(first[k]));
            let j = choose|j: int| 0 <= j < second.len() && second[j] == first[k];
            assert(grid.index(second[j].0 as int, second[j].1 as int) == i);
        }
        if grid.addressed(second, i) {
            let k = choose|k: int|
                0 <= k < second.len() && grid.index(
                    (#[trigger] second[k]).0 as int,
                    second[k].1 as int,
                ) == i;
            assert(second.contains(second[k]));
            let j = choose|j: int| 0 <= j < first.len() && first[j] == second[k];
            assert(grid.index(first[j].0 as int, first[j].1 as int) == i);
        }
    }
    assert(grid.with_alive(first).cells =~= grid.with_alive(second).cells);
}

/// The rendered text agrees with the cells: it has one line for each row;
/// in line `row` the character at column `col` is the black square exactly
/// when the cell at `(row, col)` is alive and the white square exactly when
/// it is dead; and a line feed ends the line.
pub proof fn lemma_render_agrees(grid: Grid, row: int, col: int)
    requires
        grid.wf(),
        grid.in_bounds(row, col),
    ensures
        grid.render().len() == grid.height * (grid.width + 1),
        0 <= row * (grid.width + 1) + col < grid.render().len(),
        grid.render()[row * (grid.width + 1) + col] == grid.cell(row, col).glyph(),
        grid.render()[row * (grid.width + 1) + col] == '\u{25FC}' <==> grid.cell(row, col)
            == Cell::Alive,
        grid.render()[row * (grid.width + 1) + col] == '\u{25FB}' <==> grid.cell(row, col)
            == Cell::Dead,
        0 <= row * (grid.width + 1) + grid.width < grid.render().len(),
        grid.render()[row * (grid.width + 1) + grid.width] == '\n',
{
    let line = grid.width as int + 1;
    lemma_index_in_range(line, grid.height as int, row, col);
    lemma_index_in_range(line, grid.height as int, row, grid.width as int);
    assert(line * grid.height == grid.height * line) by (nonlinear_arith);
}

/// Whether the live cells of the grid are exactly the four cells of the
/// square block whose top left cell is `(row, col)`: those in that row or the
/// row below, and in that column or the column to its right.
pub open spec fn is_block(grid: Grid, row: int, col: int) -> bool {
    forall|i: int, j: int|
        grid.in_bounds(i, j) ==> ((#[trigger] grid.cell(i, j)) == Cell::Alive <==> {
            &&& i == row || i == grid.row_below(row)
            &&& j == col || j == grid.column_right(col)
        })
}

/// On a grid that holds nothing but a block, every cell of the block has
/// exactly three live neighbours and every dead cell has fewer than three.
/// The grid needs four rows and four columns, so that the block does not
/// meet itself across the edges.
pub proof fn lemma_block_neighbors(grid: Grid, row: int, col: int, i: int, j: int)
    requires
        grid.wf(),
        grid.width >= 4,
        grid.height >= 4,
        grid.in_bounds(row, col),
        is_block(grid, row, col),
        grid.in_bounds(i, j),
    ensures
        grid.cell(i, j) == Cell::Alive ==> grid.live_neighbor_count(i, j) == 3,
        grid.cell(i, j) == Cell::Dead ==> grid.live_neighbor_count(i, j) < 3,
        grid.next_cell(i, j) == grid.cell(i, j),
{
    lemma_neighbors_on_torus(grid, i, j);
}

/// A block is a still life: a grid of at least four rows and four columns
/// that holds nothing but a block is its own next generation.
pub proof fn lemma_block_is_still_life(grid: Grid, row: int, col: int)
    requires
        grid.wf(),
        grid.width >= 4,
        grid.height >= 4,
        grid.in_bounds(row, col),
        is_block(grid, row, col),
    ensures
        grid.tick() == grid,
{
    assert forall|i: int, j: int| grid.in_bounds(i, j) implies #[trigger] grid.tick().cell(i, j)
        == grid.cell(i, j) by {
        lemma_tick_cell(grid, i, j);
        lemma_block_neighbors(grid, row, col, i, j);
    }
    lemma_equal_by_position(grid.tick(), grid);
}

/// Whether the live cells of the grid are exactly the three cells of the
/// horizontal line centred at `(row, col)`: the cell itself and the cells to
/// its left and right.
pub open spec fn is_horizontal_blinker(grid: Grid, row: int, col: int) -> bool {
    forall|i: int, j: int|
        grid.in_bounds(i, j) ==> ((#[trigger] grid.cell(i, j)) == Cell::Alive <==> {
            &&& i == row
            &&& j == grid.column_left(col) || j == col || j == grid.column_right(col)
        })
}

/// Whether the live cells of the grid are exactly the three cells of the
/// vertical line centred at `(row, col)`: the cell itself and the cells
/// above and below it.
pub open spec fn is_vertical_blinker(grid: Grid, row: int, col: int) -> bool {
    forall|i: int, j: int|
        grid.in_bounds(i, j) ==> ((#[trigger] grid.cell(i, j)) == Cell::Alive <==> {
            &&& j == col
            &&& i == grid.row_above(row) || i == row || i == grid.row_below(row)
        })
}

/// A horizontal line of three turns into the vertical line of three with the
/// same centre, on a grid of at least four rows and four columns that holds
/// nothing else.
pub proof fn lemma_blinker_turns_vertical(grid: Grid, row: int, col: int)
    requires
        grid.wf(),
        grid.width >= 4,
        grid.height >= 4,
        grid.in_bounds(row, col),
        is_horizontal_blinker(grid, row, col),
    ensures
        grid.tick().wf(),
        is_vertical_blinker(grid.tick(), row, col),
{
    let next = grid.tick();
    assert forall|i: int, j: int| next.in_bounds(i, j) implies ((#[trigger] next.cell(i, j))
        == Cell::Alive <==> {
        &&& j == col
        &&& i == next.row_above(row) || i == row || i == next.row_below(row)
    }) by {
        lemma_tick_cell(grid, i, j);
        lemma_neighbors_on_torus(grid, i, j);
    }
}

/// A vertical line of three turns into the horizontal line of three with the
/// same centre, on a grid of at least four rows and four columns that holds
/// nothing else.
pub proof fn lemma_blinker_turns_horizontal(grid: Grid, row: int, col: int)
    requires
        grid.wf(),
        grid.width >= 4,
        grid.height >= 4,
        grid.in_bounds(row, col),
        is_vertical_blinker(grid, row, col),
    ensures
        grid.tick().wf(),
        is_horizontal_blinker(grid.tick(), row, col),
{
    let next = grid.tick();
    assert forall|i: int, j: int| next.in_bounds(i, j) implies ((#[trigger] next.cell(i, j))
        == Cell::Alive <==> {
        &&& i == row
        &&& j == next.column_left(col) || j == col || j == next.column_right(col)
    }) by {
        lemma_tick_cell(grid, i, j);
        lemma_neighbors_on_torus(grid, i, j);
    }
}

/// The blinker has period two: a grid of at least four rows and four columns
/// that holds nothing but a horizontal line of three is a vertical line
/// after one generation and itself again after two.
pub proof fn lemma_blinker_has_period_two(grid: Grid, row: int, col: int)
    requires
        grid.wf(),
        grid.width >= 4,
        grid.height >= 4,
        grid.in_bounds(row, col),
        is_horizontal_blinker(grid, row, col),
    ensures
        is_vertical_blinker(grid.tick(), row, col),
        grid.tick() != grid,
        grid.tick().tick() == grid,
{
    lemma_blinker_turns_vertical(grid, row, col);
    lemma_blinker_turns_horizontal(grid.tick(), row, col);
    let twice = grid.tick().tick();
    assert forall|i: int, j: int| twice.in_bounds(i, j) implies #[trigger] twice.cell(i, j)
        == grid.cell(i, j) by {
        assert((twice.cell(i, j) == Cell::Alive) == (grid.cell(i, j) == Cell::Alive));
    }
    lemma_equal_by_position(twice, grid);
    assert(grid.cell(row, grid.column_left(col)) == Cell::Alive);
    assert(grid.tick().cell(row, grid.column_left(col)) == Cell::Dead);
}

} // verus!
