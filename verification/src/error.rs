//! The ways in which a request to the grid can be refused.

use vstd::prelude::*;

verus! {

/// Why the grid refused a request. A refused request leaves the grid as it was.
#[derive(Debug, Clone, Copy, PartialEq, Eq, Structural)]
pub enum GridError {
    /// A dimension is zero, or the grid would have more than `MAX_CELLS` cells.
    InvalidDimensions,
    /// A coordinate names a row or a column that the grid does not have.
    OutOfRange,
}

} // verus!
