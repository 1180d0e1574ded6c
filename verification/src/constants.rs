//! The dimensions of the board.

use vstd::prelude::*;

use crate::Uc;

verus! {

/// Number of files.
pub const COL_COUNT: Uc = 8;

/// Number of ranks.
pub const ROW_COUNT: Uc = 8;

/// Number of squares.
pub const SQUARE_COUNT: usize = 64;

} // verus!
