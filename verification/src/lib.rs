//! Core of a falling-sand style cellular automaton: a 2D grid of tiles in
//! which live tiles (sand, water) run per-tick behavior rules through a
//! bounded neighbor accessor, plus a continuous-motion particle layer that
//! eventually freezes into the grid. The grid owns a derived RGBA pixel
//! cache that stays consistent with the tiles after every mutation.

use vstd::prelude::*;

pub mod live_tile_api;
pub mod live_tile_instruction;
pub mod live_tiles;
pub mod particle;
mod rng;
pub mod tile;
pub mod world;

verus! {

/// An opaque 8-bit RGB color; the pixel cache stores it with a fixed
/// fully-opaque alpha byte.
#[derive(Copy, Clone, Debug, PartialEq, Eq, Structural)]
pub struct Color {
    pub r: u8,
    pub g: u8,
    pub b: u8,
}

impl Color {
    pub fn new(r: u8, g: u8, b: u8) -> (c: Color)
        ensures
            c == (Color { r, g, b }),
    {
        Color { r, g, b }
    }
}

/// The color an `Empty` tile presents when no world-specific background is
/// in play.
pub open spec fn spec_background_color() -> Color {
    Color { r: 234, g: 231, b: 217 }
}

pub fn background_color() -> (c: Color)
    ensures
        c == spec_background_color(),
{
    Color { r: 234, g: 231, b: 217 }
}

/// A grid cell address; valid only when `x < width` and `y < height` of the
/// world it addresses. The row-major linear index is `x + y * width`.
#[derive(Copy, Clone, Debug, PartialEq, Eq, Structural)]
pub struct TilePosition {
    pub x: u32,
    pub y: u32,
}

impl TilePosition {
    pub fn new(x: u32, y: u32) -> (p: TilePosition)
        ensures
            p == (TilePosition { x, y }),
    {
        TilePosition { x, y }
    }
}

} // verus!
