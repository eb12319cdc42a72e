//! The universe: the grid in memory and the operations on it.

use vstd::prelude::*;
use vstd::string::StringExecFns;
use crate::cell::Cell;
use crate::error::UniverseError;
use crate::grid::{lemma_index_in_range, lemma_neighbors_on_torus, Grid};

verus! {

/// The number of columns of the universe that a host shows when it is given
/// no other size.
pub const DEFAULT_WIDTH: u32 = 8;

/// The number of rows of the universe that a host shows when it is given no
/// other size.
pub const DEFAULT_HEIGHT: u32 = 8;

/// A toroidal grid of cells that can be advanced generation by generation.
pub struct Universe {
    width: u32,
    height: u32,
    cells: Vec<Cell>,
}

impl View for Universe {
    type V = Grid;

    /// The universe as a grid: its dimensions and its cells, row after row.
    closed spec fn view(&self) -> Grid {
        Grid { width: self.width as nat, height: self.height as nat, cells: self.cells@ }
    }
}

impl Universe {
    /// Every universe holds a well-formed grid.
    #[verifier::type_invariant]
    spec fn inv(self) -> bool {
        self@.wf()
    }

    /// Whether a grid of these dimensions can be held: both are at least one
    /// and the cells are no more than the largest buffer that the machine
    /// can allocate.
    pub open spec fn dimensions_fit(width: int, height: int) -> bool {
        1 <= width && 1 <= height && width * height <= isize::MAX
    }

    /// Creates a universe of the given dimensions from a seed that says, for
    /// each cell in row-major order, whether it starts alive.
    ///
    /// The call is refused with `InvalidDimension` where the dimensions do
    /// not fit, and otherwise with `SeedLength` where the seed does not hold
    /// one entry for each cell.
    pub fn new(width: u32, height: u32, seed: &[bool]) -> (made: Result<Universe, UniverseError>)
        ensures
            match made {
                Ok(universe) => {
                    &&& Self::dimensions_fit(width as int, height as int)
                    &&& seed@.len() == width * height
                    &&& universe@ == Grid::seeded(width as nat, height as nat, seed@)
                },
                Err(UniverseError::InvalidDimension) => !Self::dimensions_fit(
                    width as int,
                    height as int,
                ),
                Err(UniverseError::SeedLength) => {
                    &&& Self::dimensions_fit(width as int, height as int)
                    &&& seed@.len() != width * height
                },
                Err(UniverseError::OutOfBounds) => false,
            },
    {
        let count = match Self::cell_count(width, height) {
            Some(count) => count,
            None => {
                return Err(UniverseError::InvalidDimension);
            },
        };
        if seed.len() != count {
            return Err(UniverseError::SeedLength);
        }
        let mut cells: Vec<Cell> = Vec::with_capacity(count);
        for i in 0..count
            invariant
                count == seed@.len(),
                cells@.len() == i,
                forall|j: int|
                    0 <= j < i ==> cells@[j] == if seed@[j] {
                        Cell::Alive
                    } else {
                        Cell::Dead
                    },
        {
            let cell = if seed[i] { Cell::Alive } else { Cell::Dead };
            cells.push(cell);
        }
        assert(cells@ =~= Grid::seeded(width as nat, height as nat, seed@).cells);
        Ok(Universe { width, height, cells })
    }

    /// The number of columns.
    pub fn width(&self) -> (width: u32)
        ensures
            width == self@.width,
            width >= 1,
    {
        proof {
            use_type_invariant(self);
        }
        self.width
    }

    /// The number of rows.
    pub fn height(&self) -> (height: u32)
        ensures
            height == self@.height,
            height >= 1,
    {
        proof {
            use_type_invariant(self);
        }
        self.height
    }

    /// The cells of the current generation, row after row. There is one for
    /// each position, whatever was done to the universe before.
    pub fn get_cells(&self) -> (cells: &[Cell])
        ensures
            cells@ == self@.cells,
            cells@.len() == self@.width * self@.height,
            self@.wf(),
    {
        proof {
            use_type_invariant(self);
        }
        self.cells.as_slice()
    }

    /// The cells of the current generation as numbers, row after row: 0 for
    /// a dead cell, 1 for a live one.
    pub fn cells(&self) -> (bytes: Vec<u8>)
        ensures
            bytes@.len() == self@.cells.len(),
            forall|i: int| 0 <= i < bytes@.len() ==> bytes@[i] == self@.cells[i].population(),
    {
        let mut bytes: Vec<u8> = Vec::with_capacity(self.cells.len());
        for i in 0..self.cells.len()
            invariant
                bytes@.len() == i,
                forall|j: int| 0 <= j < i ==> bytes@[j] == self.cells@[j].population(),
        {
            bytes.push(self.cells[i].to_byte());
        }
        bytes
    }

    /// The place of position `(row, column)` in the row-major cell buffer,
    /// or `OutOfBounds` where the universe has no such position.
    pub fn get_index(&self, row: u32, column: u32) -> (found: Result<usize, UniverseError>)
        ensures
            match found {
                Ok(index) => {
                    &&& self@.in_bounds(row as int, column as int)
                    &&& index == self@.index(row as int, column as int)
                    &&& index < self@.cells.len()
                },
                Err(e) => {
                    &&& e == UniverseError::OutOfBounds
                    &&& !self@.in_bounds(row as int, column as int)
                },
            },
    {
        if row < self.height && column < self.width {
            Ok(self.place(row, column))
        } else {
            Err(UniverseError::OutOfBounds)
        }
    }

    /// The number of live cells among the eight neighbours of position
    /// `(row, column)` on the torus, or `OutOfBounds` where the universe has
    /// no such position.
    pub fn live_neighbor_count(&self, row: u32, column: u32) -> (found: Result<u8, UniverseError>)
        ensures
            match found {
                Ok(count) => {
                    &&& self@.in_bounds(row as int, column as int)
                    &&& count == self@.live_neighbor_count(row as int, column as int)
                    &&& count <= 8
                },
                Err(e) => {
                    &&& e == UniverseError::OutOfBounds
                    &&& !self@.in_bounds(row as int, column as int)
                },
            },
    {
        if row < self.height && column < self.width {
            Ok(self.count_live_neighbors(row, column))
        } else {
            Err(UniverseError::OutOfBounds)
        }
    }

    /// Advances the universe by one generation.
    ///
    /// The next state of every cell is computed from the current generation
    /// into a fresh buffer, row by row, and the buffer then takes the place
    /// of the current one.
    pub fn tick(&mut self)
        ensures
            final(self)@ == old(self)@.tick(),
    {
        proof {
            use_type_invariant(&*self);
        }
        let mut next: Vec<Cell> = Vec::with_capacity(self.cells.len());
        assert(0 * self.width == 0) by (nonlinear_arith);
        for row in 0..self.height
            invariant
                self@.wf(),
                *self == *old(self),
                next@.len() == row * self.width,
                forall|i: int|
                    0 <= i < next@.len() ==> next@[i] == self@.next_cell(
                        i / (self.width as int),
                        i % (self.width as int),
                    ),
        {
            for column in 0..self.width
                invariant
                    self@.wf(),
                    *self == *old(self),
                    row < self.height,
                    next@.len() == row * self.width + column,
                    forall|i: int|
                        0 <= i < next@.len() ==> next@[i] == self@.next_cell(
                            i / (self.width as int),
                            i % (self.width as int),
                        ),
            {
                let index = self.place(row, column);
                let cell = self.cells[index];
                let live_neighbors = self.count_live_neighbors(row, column);
                proof {
                    lemma_index_in_range(
                        self.width as int,
                        self.height as int,
                        row as int,
                        column as int,
                    );
                }
                next.push(cell.next_state(live_neighbors));
            }
            assert((row + 1) * self.width == row * self.width + self.width) by (nonlinear_arith);
        }
        assert(next@.len() == self.height * self.width);
        assert(self.height * self.width == self.width * self.height) by (nonlinear_arith);
        assert(next@ =~= self@.tick().cells);
        self.cells = next;
    }

    /// Makes every cell that the list addresses alive and leaves every other
    /// cell as it is.
    ///
    /// Where any coordinate lies outside the grid the call is refused with
    /// `OutOfBounds` and no cell changes.
    pub fn set_cells(&mut self, cells: &[(u32, u32)]) -> (done: Result<(), UniverseError>)
        ensures
            match done {
                Ok(()) => {
                    &&& old(self)@.covers(cells@)
                    &&& final(self)@ == old(self)@.with_alive(cells@)
                },
                Err(e) => {
                    &&& e == UniverseError::OutOfBounds
                    &&& !old(self)@.covers(cells@)
                    &&& final(self)@ == old(self)@
                },
            },
    {
        proof {
            use_type_invariant(&*self);
        }
        for k in 0..cells.len()
            invariant
                *self == *old(self),
                forall|j: int|
                    0 <= j < k ==> self@.in_bounds(
                        (#[trigger] cells@[j]).0 as int,
                        cells@[j].1 as int,
                    ),
        {
            let (row, column) = cells[k];
            if row >= self.height || column >= self.width {
                return Err(UniverseError::OutOfBounds);
            }
        }
        for k in 0..cells.len()
            invariant
                self@.wf(),
                old(self)@.covers(cells@),
                self@.width == old(self)@.width,
                self@.height == old(self)@.height,
                self@.cells =~= old(self)@.with_alive(cells@.take(k as int)).cells,
        {
            let (row, column) = cells[k];
            let index = self.place(row, column);
            self.cells[index] = Cell::Alive;
            proof {
                let before = old(self)@.with_alive(cells@.take(k as int));
                let after = old(self)@.with_alive(cells@.take(k + 1));
                assert(cells@.take(k + 1) =~= cells@.take(k as int).push(cells@[k as int]));
                assert forall|i: int| 0 <= i < after.cells.len() implies after.cells[i]
                    == before.cells.update(index as int, Cell::Alive)[i] by {
                    if old(self)@.addressed(cells@.take(k as int), i) {
                        let j = choose|j: int|
                            0 <= j < cells@.take(k as int).len() && old(self)@.index(
                                (#[trigger] cells@.take(k as int)[j]).0 as int,
                                cells@.take(k as int)[j].1 as int,
                            ) == i;
                        assert(cells@.take(k + 1)[j] == cells@.take(k as int)[j]);
                    }
                    if i == index {
                        assert(cells@.take(k + 1)[k as int] == cells@[k as int]);
                    }
                }
            }
        }
        assert(cells@.take(cells@.len() as int) =~= cells@);
        Ok(())
    }

    /// Gives the universe a new width and makes every cell dead.
    ///
    /// The call is refused with `InvalidDimension`, and changes nothing,
    /// where the width is zero or the grid would hold more cells than can be
    /// allocated.
    pub fn set_width(&mut self, width: u32) -> (done: Result<(), UniverseError>)
        ensures
            match done {
                Ok(()) => {
                    &&& Self::dimensions_fit(width as int, old(self)@.height as int)
                    &&& final(self)@ == Grid::blank(width as nat, old(self)@.height)
                    &&& final(self)@.cells.len() == width * old(self)@.height
                    &&& forall|i: int|
                        0 <= i < final(self)@.cells.len() ==> final(self)@.cells[i] == Cell::Dead
                },
                Err(e) => {
                    &&& e == UniverseError::InvalidDimension
                    &&& !Self::dimensions_fit(width as int, old(self)@.height as int)
                    &&& final(self)@ == old(self)@
                },
            },
    {
        let height = self.height;
        match Self::dead_cells(width, height) {
            Some(cells) => {
                *self = Universe { width, height, cells };
                Ok(())
            },
            None => Err(UniverseError::InvalidDimension),
        }
    }

    /// Gives the universe a new height and makes every cell dead.
    ///
    /// The call is refused with `InvalidDimension`, and changes nothing,
    /// where the height is zero or the grid would hold more cells than can be
    /// allocated.
    pub fn set_height(&mut self, height: u32) -> (done: Result<(), UniverseError>)
        ensures
            match done {
                Ok(()) => {
                    &&& Self::dimensions_fit(old(self)@.width as int, height as int)
                    &&& final(self)@ == Grid::blank(old(self)@.width, height as nat)
                    &&& final(self)@.cells.len() == old(self)@.width * height
                    &&& forall|i: int|
                        0 <= i < final(self)@.cells.len() ==> final(self)@.cells[i] == Cell::Dead
                },
                Err(e) => {
                    &&& e == UniverseError::InvalidDimension
                    &&& !Self::dimensions_fit(old(self)@.width as int, height as int)
                    &&& final(self)@ == old(self)@
                },
            },
    {
        let width = self.width;
        match Self::dead_cells(width, height) {
            Some(cells) => {
                *self = Universe { width, height, cells };
                Ok(())
            },
            None => Err(UniverseError::InvalidDimension),
        }
    }

    /// The current generation as text: one line for each row, each made of
    /// one symbol for each cell and ended by a line feed.
    pub fn render(&self) -> (text: String)
        ensures
            text@ == self@.render(),
    {
        proof {
            use_type_invariant(self);
        }
        let mut text = String::new();
        assert(0 * (self.width + 1) == 0) by (nonlinear_arith);
        assert(self@.render().len() == (self.width + 1) * self.height) by (nonlinear_arith)
            requires
                self@.render().len() == self@.height * (self@.width + 1) as nat,
                self@.height == self.height,
                self@.width == self.width,
        ;
        for row in 0..self.height
            invariant
                self@.wf(),
                text@.len() == row * (self.width + 1),
                self@.render().len() == (self.width + 1) * self.height,
                forall|i: int| 0 <= i < text@.len() ==> text@[i] == self@.render()[i],
        {
            for column in 0..self.width
                invariant
                    self@.wf(),
                    row < self.height,
                    text@.len() == row * (self.width + 1) + column,
                    self@.render().len() == (self.width + 1) * self.height,
                    forall|i: int| 0 <= i < text@.len() ==> text@[i] == self@.render()[i],
            {
                let index = self.place(row, column);
                proof {
                    lemma_index_in_range(
                        self.width + 1,
                        self.height as int,
                        row as int,
                        column as int,
                    );
                }
                text.append(self.cells[index].symbol());
            }
            proof {
                lemma_index_in_range(
                    self.width + 1,
                    self.height as int,
                    row as int,
                    self.width as int,
                );
            }
            text.append("\n");
            proof {
                reveal_strlit("\n");
                assert((row + 1) * (self.width + 1) == row * (self.width + 1) + self.width + 1)
                    by (nonlinear_arith);
            }
        }
        assert(self.height * (self.width + 1) == (self.width + 1) * self.height)
            by (nonlinear_arith);
        assert(text@ =~= self@.render());
        text
    }

    /// The number of cells of a grid of the given dimensions, where such a
    /// grid can be held.
    fn cell_count(width: u32, height: u32) -> (count: Option<usize>)
        ensures
            count is Some <==> Self::dimensions_fit(width as int, height as int),
            count is Some ==> count->0 == width * height,
    {
        if width == 0 || height == 0 {
            return None;
        }
        match (width as usize).checked_mul(height as usize) {
            Some(count) if count <= isize::MAX as usize => Some(count),
            _ => None,
        }
    }

    /// A buffer of dead cells for a grid of the given dimensions, where such
    /// a grid can be held.
    fn dead_cells(width: u32, height: u32) -> (cells: Option<Vec<Cell>>)
        ensures
            cells is Some <==> Self::dimensions_fit(width as int, height as int),
            cells is Some ==> cells->0@ == Grid::blank(width as nat, height as nat).cells,
    {
        match Self::cell_count(width, height) {
            Some(count) => {
                let cells = vec![Cell::Dead; count];
                assert(cells@ =~= Grid::blank(width as nat, height as nat).cells);
                Some(cells)
            },
            None => None,
        }
    }

    /// The place of an inside position in the cell buffer.
    fn place(&self, row: u32, column: u32) -> (index: usize)
        requires
            self@.in_bounds(row as int, column as int),
        ensures
            index == self@.index(row as int, column as int),
            index < self@.cells.len(),
    {
        proof {
            use_type_invariant(self);
            lemma_index_in_range(
                self.width as int,
                self.height as int,
                row as int,
                column as int,
            );
            assert(self.cells@.len() == self.cells.len());
            assert(0 <= row * self.width) by (nonlinear_arith);
        }
        row as usize * self.width as usize + column as usize
    }

    /// What the cell at an inside position adds to a count of live cells.
    fn population_at(&self, row: u32, column: u32) -> (n: u8)
        requires
            self@.in_bounds(row as int, column as int),
        ensures
            n == self@.cell(row as int, column as int).population(),
    {
        let index = self.place(row, column);
        self.cells[index].to_byte()
    }

    /// Counts the live cells among the eight neighbours of an inside
    /// position, reading the rows above and below and the columns to the
    /// left and right with the edges joined.
    fn count_live_neighbors(&self, row: u32, column: u32) -> (count: u8)
        requires
            self@.in_bounds(row as int, column as int),
        ensures
            count == self@.live_neighbor_count(row as int, column as int),
            count <= 8,
    {
        proof {
            use_type_invariant(self);
            lemma_neighbors_on_torus(self@, row as int, column as int);
        }
        let north = if row == 0 { self.height - 1 } else { row - 1 };
        let south = if row == self.height - 1 { 0 } else { row + 1 };
        let west = if column == 0 { self.width - 1 } else { column - 1 };
        let east = if column == self.width - 1 { 0 } else { column + 1 };
        let mut count: u8 = 0;
        count += self.population_at(north, west);
        count += self.population_at(north, column);
        count += self.population_at(north, east);
        count += self.population_at(row, west);
        count += self.population_at(row, east);
        count += self.population_at(south, west);
        count += self.population_at(south, column);
        count += self.population_at(south, east);
        count
    }
}

} // verus!
