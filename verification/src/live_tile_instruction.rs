//! The closed set of directives a material's update returns; the grid store
//! alone knows how to apply them. Offsets are relative to the anchor cell of
//! the neighbor accessor the behavior was given.

use vstd::prelude::*;
use crate::tile::Tile;

verus! {

/// What a live tile wants done with itself this tick.
///
/// - `Replace(dx, dy)`: vacate the current cell and occupy the cell at the
///   given offset; the moved tile is stamped with the current tick.
/// - `Switch(dx, dy)`: exchange the current cell with the cell at the given
///   offset; the moved live tile is stamped, the other tile keeps its stamp.
/// - `ReplaceSelfWith(tile)`: transform the current cell in place; no
///   relocation, so no stamp update.
/// - `Stay`: no positional change (the material state may still have
///   mutated its internal counters or color).
#[derive(Copy, Clone, Debug, PartialEq, Eq, Structural)]
pub enum LiveTileInstruction {
    Replace(i32, i32),
    Switch(i32, i32),
    ReplaceSelfWith(Tile),
    Stay,
}

} // verus!
