//! The ways in which a call on a universe can be refused.

use vstd::prelude::*;

verus! {

/// Why a universe refused a call. A refused call changes nothing.
#[derive(Clone, Copy, Debug, PartialEq, Eq, Structural)]
pub enum UniverseError {
    /// A row or a column lies outside the grid.
    OutOfBounds,
    /// A dimension is zero, or the grid would hold more cells than can be
    /// allocated.
    InvalidDimension,
    /// A seed does not hold exactly one entry for each cell.
    SeedLength,
}

} // verus!
