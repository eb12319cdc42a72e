//! The state of a single cell and the rule by which it changes.

use vstd::prelude::*;

verus! {

/// A cell of the grid: it is either dead or alive.
#[derive(Clone, Copy, Debug, PartialEq, Eq, Structural)]
pub enum Cell {
    Dead,
    Alive,
}

impl Cell {
    /// What this cell adds to a count of live cells: 1 if alive, 0 if dead.
    pub open spec fn population(self) -> int {
        match self {
            Cell::Dead => 0,
            Cell::Alive => 1,
        }
    }

    /// The state of this cell in the next generation, given how many of its
    /// eight neighbours are alive now: a live cell survives with two or three
    /// live neighbours, a dead cell comes alive with exactly three, and every
    /// other cell is dead.
    pub open spec fn next(self, live_neighbors: int) -> Cell {
        match self {
            Cell::Alive => if live_neighbors == 2 || live_neighbors == 3 {
                Cell::Alive
            } else {
                Cell::Dead
            },
            Cell::Dead => if live_neighbors == 3 {
                Cell::Alive
            } else {
                Cell::Dead
            },
        }
    }

    /// The character that stands for this cell in a rendered grid: a white
    /// square for a dead cell, a black square for a live one.
    pub open spec fn glyph(self) -> char {
        match self {
            Cell::Dead => '\u{25FB}',
            Cell::Alive => '\u{25FC}',
        }
    }

    /// The cell as a number: 0 for a dead cell, 1 for a live one.
    pub fn to_byte(self) -> (byte: u8)
        ensures
            byte == self.population(),
    {
        match self {
            Cell::Dead => 0,
            Cell::Alive => 1,
        }
    }

    /// The text that stands for this cell in a rendered grid.
    pub fn symbol(self) -> (symbol: &'static str)
        ensures
            symbol@ == seq![self.glyph()],
    {
        proof {
            reveal_strlit("\u{25FB}");
            reveal_strlit("\u{25FC}");
        }
        let symbol = match self {
            Cell::Dead => "\u{25FB}",
            Cell::Alive => "\u{25FC}",
        };
        assert(symbol@ =~= seq![self.glyph()]);
        symbol
    }

    /// Applies the rule of the game to one cell.
    ///
    /// The cases are tried in order: underpopulation, survival,
    /// overpopulation, reproduction; a cell that none of them names keeps its
    /// state.
    pub fn next_state(self, live_neighbors: u8) -> (next: Cell)
        ensures
            next == self.next(live_neighbors as int),
    {
        match (self, live_neighbors) {
            (Cell::Alive, x) if x < 2 => Cell::Dead,
            (Cell::Alive, 2) | (Cell::Alive, 3) => Cell::Alive,
            (Cell::Alive, x) if x > 3 => Cell::Dead,
            (Cell::Dead, 3) => Cell::Alive,
            (otherwise, _) => otherwise,
        }
    }
}

} // verus!
