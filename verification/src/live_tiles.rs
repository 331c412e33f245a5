//! The material behaviors. Each is a pure function of the current material
//! state, the neighbor accessor, and the random draws handed in by the scan
//! driver; it returns the mutated state and one instruction. Randomness is
//! injected as plain values so a seeded generator makes every run
//! reproducible.

use vstd::prelude::*;
use crate::Color;
use crate::live_tile_api::LiveTileApi;
use crate::live_tile_api::spec_neighbor;
use crate::live_tile_instruction::LiveTileInstruction;
use crate::tile::Tile;
use crate::tile::spec_is_water;
use crate::tile::tile_is_water;

verus! {

/// Ticks sand must rest on water before it sinks through (it sinks once its
/// counter exceeds this).
pub const SAND_SINK_THRESHOLD: u16 = 3;

/// Water resamples its display color every this many ticks.
pub const WATER_RECOLOR_PERIOD: u16 = 45;

/// Precomputed gradient samples for freshly placed sand: a short ramp of
/// sandy tones a caller can draw from when creating sand states.
pub open spec fn spec_default_sand_colors() -> Seq<Color> {
    seq![
        Color { r: 216, g: 188, b: 126 },
        Color { r: 222, g: 196, b: 132 },
        Color { r: 228, g: 204, b: 138 },
        Color { r: 234, g: 212, b: 144 },
    ]
}

pub fn default_sand_colors() -> (v: Vec<Color>)
    ensures
        v@ == spec_default_sand_colors(),
{
    let mut v: Vec<Color> = Vec::new();
    v.push(Color::new(216, 188, 126));
    v.push(Color::new(222, 196, 132));
    v.push(Color::new(228, 204, 138));
    v.push(Color::new(234, 212, 144));
    proof {
        assert(v@ =~= spec_default_sand_colors());
    }
    v
}

/// Precomputed gradient samples for water: the ramp of blues the world
/// resamples from when a water tile's recolor period completes.
pub open spec fn spec_default_water_colors() -> Seq<Color> {
    seq![
        Color { r: 64, g: 164, b: 223 },
        Color { r: 70, g: 172, b: 228 },
        Color { r: 76, g: 180, b: 233 },
        Color { r: 82, g: 188, b: 238 },
    ]
}

pub fn default_water_colors() -> (v: Vec<Color>)
    ensures
        v@ == spec_default_water_colors(),
{
    let mut v: Vec<Color> = Vec::new();
    v.push(Color::new(64, 164, 223));
    v.push(Color::new(70, 172, 228));
    v.push(Color::new(76, 180, 233));
    v.push(Color::new(82, 188, 238));
    proof {
        assert(v@ =~= spec_default_water_colors());
    }
    v
}

/// A horizontal flip mapped to a diagonal direction: left or right.
pub open spec fn spec_flip_dir(flip: bool) -> i32 {
    if flip { -1i32 } else { 1i32 }
}

/// Sand: falls straight down into an empty cell, else tries one random
/// diagonal; resting on water it counts ticks submerged and eventually swaps
/// downward through the liquid.
#[derive(Copy, Clone, Debug, PartialEq, Eq, Structural)]
pub struct SandTile {
    pub color: Color,
    pub under_water_ticks: u16,
}

/// The state and instruction sand produces when visited at anchor `(x, y)`:
/// straight down if empty; else the diagonal picked by `flip_a` if empty;
/// else, resting on water below (or, failing that, on water at the diagonal
/// picked by `flip_b`), advance the submersion counter and, past the
/// threshold, reset it and swap with that water cell; otherwise no change.
pub open spec fn spec_sand_update(
    s: SandTile,
    tiles: Seq<Tile>,
    width: u32,
    height: u32,
    x: u32,
    y: u32,
    flip_a: bool,
    flip_b: bool,
) -> (SandTile, LiveTileInstruction) {
    let below = spec_neighbor(tiles, width, height, x, y, 0, 1);
    if below == Tile::Empty {
        (s, LiveTileInstruction::Replace(0, 1))
    } else {
        let d = spec_flip_dir(flip_a);
        if spec_neighbor(tiles, width, height, x, y, d as int, 1) == Tile::Empty {
            (s, LiveTileInstruction::Replace(d, 1))
        } else if spec_is_water(below) {
            if s.under_water_ticks > SAND_SINK_THRESHOLD {
                (SandTile { under_water_ticks: 0, ..s }, LiveTileInstruction::Switch(0, 1))
            } else {
                (
                    SandTile { under_water_ticks: (s.under_water_ticks + 1) as u16, ..s },
                    LiveTileInstruction::Stay,
                )
            }
        } else {
            let d2 = spec_flip_dir(flip_b);
            if spec_is_water(spec_neighbor(tiles, width, height, x, y, d2 as int, 1)) {
                if s.under_water_ticks > SAND_SINK_THRESHOLD {
                    (SandTile { under_water_ticks: 0, ..s }, LiveTileInstruction::Switch(d2, 1))
                } else {
                    (
                        SandTile { under_water_ticks: (s.under_water_ticks + 1) as u16, ..s },
                        LiveTileInstruction::Stay,
                    )
                }
            } else {
                (s, LiveTileInstruction::Stay)
            }
        }
    }
}

impl SandTile {
    pub fn new(color: Color) -> (s: SandTile)
        ensures
            s == (SandTile { color, under_water_ticks: 0u16 }),
    {
        SandTile { color, under_water_ticks: 0 }
    }

    /// One visit by the scan driver. `flip_a` picks the diagonal tried after
    /// a blocked straight fall; `flip_b` picks the diagonal checked for
    /// water when the cell below holds none.
    pub fn update(&mut self, api: LiveTileApi<'_>, flip_a: bool, flip_b: bool) -> (instr:
        LiveTileInstruction)
        requires
            api.wf(),
        ensures
            *final(self) == spec_sand_update(
                *old(self),
                api.tiles@,
                api.width,
                api.height,
                api.x,
                api.y,
                flip_a,
                flip_b,
            ).0,
            instr == spec_sand_update(
                *old(self),
                api.tiles@,
                api.width,
                api.height,
                api.x,
                api.y,
                flip_a,
                flip_b,
            ).1,
            api.spec_get(0, 1) == Tile::Empty ==> instr == LiveTileInstruction::Replace(0, 1)
                && *final(self) == *old(self),
    {
        let below = api.get(0, 1);
        if matches!(below, Tile::Empty) {
            return LiveTileInstruction::Replace(0, 1);
        }
        let d: i32 = if flip_a { -1 } else { 1 };
        if api.is_empty(d, 1) {
            return LiveTileInstruction::Replace(d, 1);
        }
        if tile_is_water(below) {
            if self.under_water_ticks > SAND_SINK_THRESHOLD {
                self.under_water_ticks = 0;
                return LiveTileInstruction::Switch(0, 1);
            } else {
                self.under_water_ticks = self.under_water_ticks + 1;
            }
        } else {
            let d2: i32 = if flip_b { -1 } else { 1 };
            if tile_is_water(api.get(d2, 1)) {
                if self.under_water_ticks > SAND_SINK_THRESHOLD {
                    self.under_water_ticks = 0;
                    return LiveTileInstruction::Switch(d2, 1);
                } else {
                    self.under_water_ticks = self.under_water_ticks + 1;
                }
            }
        }
        LiveTileInstruction::Stay
    }
}

/// Water: spreads by trying, in order, straight down, both diagonals, and
/// both sideways cells, with the side preferred this tick drawn at random;
/// it also resamples its display color on a fixed period (cosmetic only).
#[derive(Copy, Clone, Debug, PartialEq, Eq, Structural)]
pub struct WaterTile {
    pub color: Color,
    pub frames_since_color_change: u16,
}

/// The recolor step: on the tick that completes the period the tile takes
/// the offered color and resets its counter, otherwise the counter advances.
pub open spec fn spec_water_recolor(w: WaterTile, recolor: Color) -> WaterTile {
    if w.frames_since_color_change >= WATER_RECOLOR_PERIOD - 1 {
        WaterTile { color: recolor, frames_since_color_change: 0 }
    } else {
        WaterTile { color: w.color, frames_since_color_change: (w.frames_since_color_change + 1) as u16 }
    }
}

/// The state and instruction water produces when visited at anchor `(x, y)`
/// with preferred direction `dir`: the first empty cell among straight down,
/// diagonal toward `dir`, diagonal away from it, sideways toward `dir`, and
/// sideways away from it wins; with all five occupied the tile stays put.
pub open spec fn spec_water_update(
    w: WaterTile,
    tiles: Seq<Tile>,
    width: u32,
    height: u32,
    x: u32,
    y: u32,
    dir: i32,
    recolor: Color,
) -> (WaterTile, LiveTileInstruction) {
    let w2 = spec_water_recolor(w, recolor);
    if spec_neighbor(tiles, width, height, x, y, 0, 1) == Tile::Empty {
        (w2, LiveTileInstruction::Replace(0, 1))
    } else if spec_neighbor(tiles, width, height, x, y, dir as int, 1) == Tile::Empty {
        (w2, LiveTileInstruction::Replace(dir, 1))
    } else if spec_neighbor(tiles, width, height, x, y, -dir as int, 1) == Tile::Empty {
        (w2, LiveTileInstruction::Replace((-dir) as i32, 1))
    } else if spec_neighbor(tiles, width, height, x, y, dir as int, 0) == Tile::Empty {
        (w2, LiveTileInstruction::Replace(dir, 0))
    } else if spec_neighbor(tiles, width, height, x, y, -dir as int, 0) == Tile::Empty {
        (w2, LiveTileInstruction::Replace((-dir) as i32, 0))
    } else {
        (w2, LiveTileInstruction::Stay)
    }
}

impl WaterTile {
    pub fn new(color: Color) -> (w: WaterTile)
        ensures
            w == (WaterTile { color, frames_since_color_change: 0u16 }),
    {
        WaterTile { color, frames_since_color_change: 0 }
    }

    /// One visit by the scan driver. `dir` is the horizontal preference
    /// drawn for this tick and `recolor` the palette sample taken if the
    /// recolor period completes. A water tile with none of its five checked
    /// cells empty answers `None`: it keeps its position for this tick.
    pub fn update(&mut self, api: LiveTileApi<'_>, dir: i32, recolor: Color) -> (instr:
        LiveTileInstruction)
        requires
            api.wf(),
            -2 <= dir <= 1,
        ensures
            *final(self) == spec_water_update(
                *old(self),
                api.tiles@,
                api.width,
                api.height,
                api.x,
                api.y,
                dir,
                recolor,
            ).0,
            instr == spec_water_update(
                *old(self),
                api.tiles@,
                api.width,
                api.height,
                api.x,
                api.y,
                dir,
                recolor,
            ).1,
            api.spec_get(0, 1) != Tile::Empty && api.spec_get(dir as int, 1) != Tile::Empty
                && api.spec_get(-dir as int, 1) != Tile::Empty && api.spec_get(dir as int, 0)
                != Tile::Empty && api.spec_get(-dir as int, 0) != Tile::Empty ==> instr
                == LiveTileInstruction::Stay,
    {
        if self.frames_since_color_change >= WATER_RECOLOR_PERIOD - 1 {
            self.color = recolor;
            self.frames_since_color_change = 0;
        } else {
            self.frames_since_color_change = self.frames_since_color_change + 1;
        }
        if api.is_empty(0, 1) {
            return LiveTileInstruction::Replace(0, 1);
        }
        if api.is_empty(dir, 1) {
            return LiveTileInstruction::Replace(dir, 1);
        }
        if api.is_empty(-dir, 1) {
            return LiveTileInstruction::Replace(-dir, 1);
        }
        if api.is_empty(dir, 0) {
            return LiveTileInstruction::Replace(dir, 0);
        }
        if api.is_empty(-dir, 0) {
            return LiveTileInstruction::Replace(-dir, 0);
        }
        LiveTileInstruction::Stay
    }
}

} // verus!
