//! Board dimensions.

use vstd::prelude::*;

verus! {

/// Side length of the board: cells have coordinates `0..N` on both axes.
pub const N: i32 = 9;

/// Distance recorded for a cell that cannot be reached. No shortest path on
/// the board is this long.
pub const MAX_DIST: i32 = 1000;

} // verus!
