//! The value types for a grid cell: empty, immovable static, or live with a
//! per-material mutable state and the tick stamp that guards against a second
//! visit within one scan.

use vstd::prelude::*;
use crate::Color;
use crate::spec_background_color;
use crate::background_color;
use crate::live_tile_api::LiveTileApi;
use crate::live_tile_instruction::LiveTileInstruction;
use crate::live_tiles::SandTile;
use crate::live_tiles::WaterTile;
use crate::live_tiles::spec_sand_update;
use crate::live_tiles::spec_water_update;

verus! {

/// The mutable payload of a live tile, one variant per material.
#[derive(Copy, Clone, Debug, PartialEq, Eq, Structural)]
pub enum LiveTileState {
    Sand(SandTile),
    Water(WaterTile),
}

impl LiveTileState {
    pub open spec fn spec_color(self) -> Color {
        match self {
            LiveTileState::Sand(sand_tile) => sand_tile.color,
            LiveTileState::Water(water_tile) => water_tile.color,
        }
    }

    pub fn get_color(self) -> (c: Color)
        ensures
            c == self.spec_color(),
    {
        match self {
            LiveTileState::Sand(sand_tile) => sand_tile.color,
            LiveTileState::Water(water_tile) => water_tile.color,
        }
    }

    pub fn update(
        &mut self,
        api: LiveTileApi<'_>,
        flip_a: bool,
        flip_b: bool,
        dir: i32,
        recolor: Color,
    ) -> (instr: LiveTileInstruction)
        requires
            api.wf(),
            -2 <= dir <= 1,
        ensures
            *final(self) == spec_state_update(
                *old(self),
                api.tiles@,
                api.width,
                api.height,
                api.x,
                api.y,
                flip_a,
                flip_b,
                dir,
                recolor,
            ).0,
            instr == spec_state_update(
                *old(self),
                api.tiles@,
                api.width,
                api.height,
                api.x,
                api.y,
                flip_a,
                flip_b,
                dir,
                recolor,
            ).1,
    {
        match self {
            LiveTileState::Sand(sand_tile) => sand_tile.update(api, flip_a, flip_b),
            LiveTileState::Water(water_tile) => water_tile.update(api, dir, recolor),
        }
    }
}

/// What one visit does to a live tile's material state, by material: the
/// mutated state and the instruction it hands the grid store.
pub open spec fn spec_state_update(
    st: LiveTileState,
    tiles: Seq<Tile>,
    width: u32,
    height: u32,
    x: u32,
    y: u32,
    flip_a: bool,
    flip_b: bool,
    dir: i32,
    recolor: Color,
) -> (LiveTileState, LiveTileInstruction) {
    match st {
        LiveTileState::Sand(s) => {
            let r = spec_sand_update(s, tiles, width, height, x, y, flip_a, flip_b);
            (LiveTileState::Sand(r.0), r.1)
        },
        LiveTileState::Water(w) => {
            let r = spec_water_update(w, tiles, width, height, x, y, dir, recolor);
            (LiveTileState::Water(r.0), r.1)
        },
    }
}

/// A cell that runs a behavior rule each tick. `last_frame_updated` records
/// the tick at which the tile last relocated; the scan driver skips a live
/// tile whose stamp equals the current tick, so a tile that already moved
/// this tick is never processed again before the next tick begins.
#[derive(Copy, Clone, Debug, PartialEq, Eq, Structural)]
pub struct LiveTile {
    pub state: LiveTileState,
    pub last_frame_updated: u64,
}

impl LiveTile {
    pub fn new(state: LiveTileState) -> (t: LiveTile)
        ensures
            t == (LiveTile { state, last_frame_updated: 0u64 }),
    {
        LiveTile { state, last_frame_updated: 0 }
    }
}

/// An immovable obstacle with a fixed display color.
#[derive(Copy, Clone, Debug, PartialEq, Eq, Structural)]
pub struct StaticTile {
    pub color: Color,
}

impl StaticTile {
    pub fn new(color: Color) -> (t: StaticTile)
        ensures
            t == (StaticTile { color }),
    {
        StaticTile { color }
    }
}

/// A grid cell. Copied by value everywhere; the grid array is the sole
/// authority for which tile stands at a position.
#[derive(Copy, Clone, Debug, PartialEq, Eq, Structural)]
pub enum Tile {
    Empty,
    StaticTile(StaticTile),
    LiveTile(LiveTile),
}

impl Tile {
    pub open spec fn spec_color(self) -> Color {
        match self {
            Tile::Empty => spec_background_color(),
            Tile::StaticTile(static_tile) => static_tile.color,
            Tile::LiveTile(live_tile) => live_tile.state.spec_color(),
        }
    }

    pub fn get_color(self) -> (c: Color)
        ensures
            c == self.spec_color(),
    {
        match self {
            Tile::Empty => background_color(),
            Tile::StaticTile(static_tile) => static_tile.color,
            Tile::LiveTile(live_tile) => live_tile.state.get_color(),
        }
    }
}

/// True of a live water tile; sand uses this to decide whether it is resting
/// on liquid it can sink through.
pub open spec fn spec_is_water(t: Tile) -> bool {
    t matches Tile::LiveTile(lt) && lt.state is Water
}

pub fn tile_is_water(t: Tile) -> (b: bool)
    ensures
        b == spec_is_water(t),
{
    match t {
        Tile::LiveTile(lt) => matches!(lt.state, LiveTileState::Water(_)),
        _ => false,
    }
}

} // verus!
