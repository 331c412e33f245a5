//! The grid store: owner of the tile array, the derived RGBA pixel cache,
//! and the particle list. It exposes bounded reads and writes, and the
//! per-tick driver that scans every cell once in row-major order, runs each
//! live tile's behavior through the neighbor accessor, applies the returned
//! instruction, and then moves the particle layer.

use vstd::prelude::*;
use vstd::arithmetic::div_mod::lemma_fundamental_div_mod;
use vstd::arithmetic::div_mod::lemma_fundamental_div_mod_converse;
use vstd::arithmetic::div_mod::lemma_mod_pos_bound;
use crate::Color;
use crate::TilePosition;
use crate::live_tile_api::LiveTileApi;
use crate::live_tile_api::spec_neighbor;
use crate::live_tile_instruction::LiveTileInstruction;
use crate::live_tiles::default_water_colors;
use crate::live_tiles::spec_default_water_colors;
use crate::live_tiles::spec_sand_update;
use crate::live_tiles::spec_water_update;
use crate::particle::Particle;
use crate::particle::ParticleInstructions;
use crate::particle::spec_particle_update;
use crate::rng::SimRng;
use crate::tile::LiveTile;
use crate::tile::LiveTileState;
use crate::tile::Tile;
use crate::tile::spec_state_update;

verus! {

/// The row-major linear index of cell `(x, y)` in a grid `width` across.
pub open spec fn spec_index(width: u32, x: u32, y: u32) -> int {
    x + y * width
}

/// The color a tile contributes to the pixel cache: an empty cell shows the
/// world's background, every other tile its own color.
pub open spec fn spec_display_color(t: Tile, background: Color) -> Color {
    match t {
        Tile::Empty => background,
        Tile::StaticTile(static_tile) => static_tile.color,
        Tile::LiveTile(live_tile) => live_tile.state.spec_color(),
    }
}

fn display_color(t: Tile, background: Color) -> (c: Color)
    ensures
        c == spec_display_color(t, background),
{
    match t {
        Tile::Empty => background,
        Tile::StaticTile(static_tile) => static_tile.color,
        Tile::LiveTile(live_tile) => live_tile.state.get_color(),
    }
}

/// The pixel-cache contract for one cell: the four bytes at its index hold
/// the tile's display color and a fully opaque alpha.
pub open spec fn spec_cell_shown(tiles: Seq<Tile>, frame: Seq<u8>, background: Color, i: int) -> bool {
    let c = spec_display_color(tiles[i], background);
    &&& frame[4 * i] == c.r
    &&& frame[4 * i + 1] == c.g
    &&& frame[4 * i + 2] == c.b
    &&& frame[4 * i + 3] == 255
}

pub struct World {
    tiles: Vec<Tile>,
    particles: Vec<Particle>,
    frame: Vec<u8>,
    world_width: u32,
    world_height: u32,
    background: Color,
    water_colors: Vec<Color>,
    rng: SimRng,
}

impl World {
    /// Well-formedness: the fixed-size grid and the pixel cache have their
    /// stated lengths, every pixel agrees with its tile, the water palette
    /// holds the fixed gradient samples, and every listed particle is
    /// within representation bounds. `lemma_wf_shape` exports the shape and
    /// cache clauses to callers.
    pub closed spec fn wf(self) -> bool {
        &&& self.world_width >= 1
        &&& self.world_height >= 1
        &&& self.world_width * self.world_height * 4 <= usize::MAX
        &&& self.tiles@.len() == self.world_width * self.world_height
        &&& self.frame@.len() == self.world_width * self.world_height * 4
        &&& self.water_colors@ == crate::live_tiles::spec_default_water_colors()
        &&& forall|i: int|
            0 <= i < self.tiles@.len() ==> #[trigger] spec_cell_shown(
                self.tiles@,
                self.frame@,
                self.background,
                i,
            )
        &&& forall|i: int| 0 <= i < self.particles@.len() ==> (#[trigger] self.particles@[i]).wf()
    }

    pub closed spec fn spec_tiles(self) -> Seq<Tile> {
        self.tiles@
    }

    pub closed spec fn spec_particles(self) -> Seq<Particle> {
        self.particles@
    }

    pub closed spec fn spec_width(self) -> u32 {
        self.world_width
    }

    pub closed spec fn spec_height(self) -> u32 {
        self.world_height
    }

    pub closed spec fn spec_background(self) -> Color {
        self.background
    }

    pub closed spec fn spec_frame(self) -> Seq<u8> {
        self.frame@
    }

    pub fn width(&self) -> (w: u32)
        ensures
            w == self.spec_width(),
    {
        self.world_width
    }

    pub fn height(&self) -> (h: u32)
        ensures
            h == self.spec_height(),
    {
        self.world_height
    }

    /// The packed row-major RGBA buffer the presentation layer reads.
    pub fn frame_bytes(&self) -> (f: &Vec<u8>)
        ensures
            f@ == self.spec_frame(),
    {
        &self.frame
    }

    /// The particles still moving in the continuous domain; the host
    /// composites them over the pixel buffer without writing the grid.
    pub fn particles(&self) -> (p: &Vec<Particle>)
        ensures
            p@ == self.spec_particles(),
    {
        &self.particles
    }

    /// A fresh world: every tile empty, the pixel cache filled with the
    /// initial color, no particles, and a generator at a fixed seed.
    pub fn new(initial_color: Color, world_width: u32, world_height: u32) -> (w: World)
        requires
            world_width >= 1,
            world_height >= 1,
            world_width * world_height * 4 <= usize::MAX,
        ensures
            w.wf(),
            w.spec_width() == world_width,
            w.spec_height() == world_height,
            w.spec_background() == initial_color,
            w.spec_tiles().len() == world_width * world_height,
            forall|i: int| 0 <= i < w.spec_tiles().len() ==> w.spec_tiles()[i] == Tile::Empty,
            w.spec_particles().len() == 0,
            w.spec_frame().len() == world_width * world_height * 4,
            forall|i: int|
                0 <= i < w.spec_tiles().len() ==> #[trigger] spec_cell_shown(
                    w.spec_tiles(),
                    w.spec_frame(),
                    initial_color,
                    i,
                ),
    {
        let total_amount_of_tiles: usize = (world_width as usize) * (world_height as usize);
        let ghost n = total_amount_of_tiles as int;
        let mut tiles: Vec<Tile> = Vec::new();
        let mut i: usize = 0;
        while i < total_amount_of_tiles
            invariant
                i <= n,
                tiles@.len() == i,
                forall|j: int| 0 <= j < i ==> tiles@[j] == Tile::Empty,
                n == total_amount_of_tiles,
            decreases n - i,
        {
            tiles.push(Tile::Empty);
            i = i + 1;
        }
        let mut frame: Vec<u8> = Vec::new();
        let mut i: usize = 0;
        while i < total_amount_of_tiles
            invariant
                i <= n,
                n == total_amount_of_tiles,
                n * 4 <= usize::MAX,
                frame@.len() == 4 * i,
                tiles@.len() == n,
                forall|j: int| 0 <= j < tiles@.len() ==> tiles@[j] == Tile::Empty,
                forall|j: int|
                    0 <= j < i ==> #[trigger] spec_cell_shown(tiles@, frame@, initial_color, j),
            decreases n - i,
        {
            let ghost frame0 = frame@;
            frame.push(initial_color.r);
            frame.push(initial_color.g);
            frame.push(initial_color.b);
            frame.push(255);
            proof {
                assert forall|j: int| 0 <= j < i + 1 implies #[trigger] spec_cell_shown(
                    tiles@,
                    frame@,
                    initial_color,
                    j,
                ) by {
                    if j < i {
                        assert(spec_cell_shown(tiles@, frame0, initial_color, j));
                        assert(frame@[4 * j] == frame0[4 * j] && frame@[4 * j + 1] == frame0[4 * j
                            + 1] && frame@[4 * j + 2] == frame0[4 * j + 2] && frame@[4 * j + 3]
                            == frame0[4 * j + 3]);
                    } else {
                        assert(tiles@[j] == Tile::Empty);
                    }
                }
            }
            i = i + 1;
        }
        World {
            tiles,
            particles: Vec::new(),
            frame,
            world_width,
            world_height,
            background: initial_color,
            water_colors: default_water_colors(),
            rng: SimRng::new(0),
        }
    }

    /// Replace the world's random source with one at the given seed, so a
    /// run from here on is reproducible.
    pub fn reseed(&mut self, seed: u64)
        requires
            old(self).wf(),
        ensures
            final(self).wf(),
            final(self).spec_tiles() == old(self).spec_tiles(),
            final(self).spec_particles() == old(self).spec_particles(),
            final(self).spec_frame() == old(self).spec_frame(),
            final(self).spec_width() == old(self).spec_width(),
            final(self).spec_height() == old(self).spec_height(),
            final(self).spec_background() == old(self).spec_background(),
    {
        self.rng = SimRng::new(seed);
    }

    fn get_tile_index(&self, tile_position: TilePosition) -> (idx: usize)
        requires
            self.wf(),
            tile_position.x < self.world_width,
            tile_position.y < self.world_height,
        ensures
            idx == spec_index(self.world_width, tile_position.x, tile_position.y),
            idx < self.tiles@.len(),
    {
        let n: usize = self.tiles.len();
        proof {
            assert(tile_position.y * self.world_width <= n && tile_position.x + tile_position.y
                * self.world_width < n) by (nonlinear_arith)
                requires
                    tile_position.x < self.world_width,
                    tile_position.y < self.world_height,
                    n == self.world_width * self.world_height,
            ;
        }
        (tile_position.x as usize) + (tile_position.y as usize) * (self.world_width as usize)
    }

    /// A copy of the tile at an in-bounds position. Out-of-bounds direct
    /// access is a caller contract violation; behaviors route boundary
    /// queries through the neighbor accessor instead.
    pub fn get_tile(&self, tile_position: TilePosition) -> (t: Tile)
        requires
            self.wf(),
            tile_position.x < self.spec_width(),
            tile_position.y < self.spec_height(),
        ensures
            t == self.spec_tiles()[spec_index(self.spec_width(), tile_position.x, tile_position.y)],
    {
        let tile_index = self.get_tile_index(tile_position);
        self.tiles[tile_index]
    }

    /// The single mutation entry point: writes the tile and recomputes the
    /// four pixel-cache bytes of that cell from the tile's display color,
    /// with alpha fully opaque. Every other mutation (relocate, swap,
    /// transform) is expressed as one or two calls to this.
    pub fn set_tile(&mut self, tile_position: TilePosition, tile: Tile)
        requires
            old(self).wf(),
            tile_position.x < old(self).spec_width(),
            tile_position.y < old(self).spec_height(),
        ensures
            final(self).wf(),
            final(self).spec_tiles() == old(self).spec_tiles().update(
                spec_index(old(self).spec_width(), tile_position.x, tile_position.y),
                tile,
            ),
            ({
                let i = spec_index(old(self).spec_width(), tile_position.x, tile_position.y);
                let c = spec_display_color(tile, old(self).spec_background());
                &&& final(self).spec_frame()[4 * i] == c.r
                &&& final(self).spec_frame()[4 * i + 1] == c.g
                &&& final(self).spec_frame()[4 * i + 2] == c.b
                &&& final(self).spec_frame()[4 * i + 3] == 255
            }),
            final(self).spec_frame().len() == old(self).spec_frame().len(),
            forall|j: int|
                0 <= j < old(self).spec_frame().len() && j / 4 != spec_index(
                    old(self).spec_width(),
                    tile_position.x,
                    tile_position.y,
                ) ==> final(self).spec_frame()[j] == old(self).spec_frame()[j],
            final(self).spec_particles() == old(self).spec_particles(),
            final(self).spec_width() == old(self).spec_width(),
            final(self).spec_height() == old(self).spec_height(),
            final(self).spec_background() == old(self).spec_background(),
    {
        let tile_index = self.get_tile_index(tile_position);
        self.tiles[tile_index] = tile;
        let color = display_color(tile, self.background);
        self.frame[tile_index * 4] = color.r;
        self.frame[tile_index * 4 + 1] = color.g;
        self.frame[tile_index * 4 + 2] = color.b;
        self.frame[tile_index * 4 + 3] = 255;
        proof {
            let i = tile_index as int;
            assert forall|j: int| 0 <= j < self.tiles@.len() implies #[trigger] spec_cell_shown(
                self.tiles@,
                self.frame@,
                self.background,
                j,
            ) by {
                assert(spec_cell_shown(old(self).tiles@, old(self).frame@, old(self).background, j));
            }
            assert forall|j: int|
                0 <= j < old(self).frame@.len() && j / 4 != i implies self.frame@[j] == old(
                    self,
                ).frame@[j] by {
                lemma_fundamental_div_mod(j, 4);
                lemma_mod_pos_bound(j, 4);
            }
        }
    }

    /// Append a particle to the moving layer; it is not written into the
    /// grid until it settles.
    pub fn add_particle(&mut self, particle: Particle)
        requires
            old(self).wf(),
            particle.wf(),
        ensures
            final(self).wf(),
            final(self).spec_particles() == old(self).spec_particles().push(particle),
            final(self).spec_tiles() == old(self).spec_tiles(),
            final(self).spec_frame() == old(self).spec_frame(),
            final(self).spec_width() == old(self).spec_width(),
            final(self).spec_height() == old(self).spec_height(),
            final(self).spec_background() == old(self).spec_background(),
    {
        self.particles.push(particle);
    }

    /// One cell of the scan: runs the live tile's behavior, if any, and
    /// applies the returned instruction, exactly as `spec_step_cell` says.
    /// Because the instruction is applied immediately after the behavior's
    /// neighbor checks, with no intervening mutation, a `Replace` or
    /// `Switch` destination is still in the state the behavior saw; the
    /// checks the behavior made are therefore trusted at apply time rather
    /// than re-validated.
    fn step_cell(
        &mut self,
        x: u32,
        y: u32,
        tick: u64,
        flip_a: bool,
        flip_b: bool,
        dir: i32,
        recolor: Color,
    )
        requires
            old(self).wf(),
            x < old(self).spec_width(),
            y < old(self).spec_height(),
            -2 <= dir <= 1,
        ensures
            final(self).wf(),
            final(self).spec_tiles() == spec_step_cell(
                old(self).spec_tiles(),
                old(self).spec_width(),
                old(self).spec_height(),
                x,
                y,
                tick,
                flip_a,
                flip_b,
                dir,
                recolor,
            ),
            final(self).spec_width() == old(self).spec_width(),
            final(self).spec_height() == old(self).spec_height(),
            final(self).spec_background() == old(self).spec_background(),
            final(self).spec_particles() == old(self).spec_particles(),
    {
        let idx = self.get_tile_index(TilePosition::new(x, y));
        let t = self.tiles[idx];
        let ghost tiles0 = self.tiles@;
        match t {
            Tile::LiveTile(lt) => {
                if lt.last_frame_updated == tick {
                    return ;
                }
                let mut st = lt.state;
                let instr = {
                    let api = LiveTileApi {
                        x,
                        y,
                        tiles: &self.tiles,
                        width: self.world_width,
                        height: self.world_height,
                    };
                    st.update(api, flip_a, flip_b, dir, recolor)
                };
                proof {
                    lemma_instruction_target(
                        lt.state,
                        tiles0,
                        self.world_width,
                        self.world_height,
                        x,
                        y,
                        flip_a,
                        flip_b,
                        dir,
                        recolor,
                    );
                }
                match instr {
                    LiveTileInstruction::Stay => {
                        self.set_tile(
                            TilePosition::new(x, y),
                            Tile::LiveTile(
                                LiveTile { state: st, last_frame_updated: lt.last_frame_updated },
                            ),
                        );
                    },
                    LiveTileInstruction::Replace(dx, dy) => {
                        let nx = ((x as i64) + (dx as i64)) as u32;
                        let ny = ((y as i64) + (dy as i64)) as u32;
                        self.set_tile(TilePosition::new(x, y), Tile::Empty);
                        self.set_tile(
                            TilePosition::new(nx, ny),
                            Tile::LiveTile(LiveTile { state: st, last_frame_updated: tick }),
                        );
                    },
                    LiveTileInstruction::Switch(dx, dy) => {
                        let nx = ((x as i64) + (dx as i64)) as u32;
                        let ny = ((y as i64) + (dy as i64)) as u32;
                        let other = self.get_tile(TilePosition::new(nx, ny));
                        self.set_tile(TilePosition::new(x, y), other);
                        self.set_tile(
                            TilePosition::new(nx, ny),
                            Tile::LiveTile(LiveTile { state: st, last_frame_updated: tick }),
                        );
                    },
                    LiveTileInstruction::ReplaceSelfWith(replacement_tile) => {
                        self.set_tile(TilePosition::new(x, y), replacement_tile);
                    },
                }
            },
            _ => {},
        }
    }

    /// The per-tick driver: scans every cell once in row-major order,
    /// skipping live tiles already stamped with this tick, then moves every
    /// particle against the settled grid and applies the deferred
    /// materializations strictly after the whole particle pass, so no
    /// particle observes another's not-yet-committed landing. The resulting
    /// grid and particle list are exactly `spec_tick_result` for the
    /// sequence of random draws the scan consumed; each draw's direction
    /// lies in the range the generator produces and each recolor sample
    /// comes from the water palette.
    pub fn update(&mut self, current_frame: u64)
        requires
            old(self).wf(),
        ensures
            final(self).wf(),
            final(self).spec_width() == old(self).spec_width(),
            final(self).spec_height() == old(self).spec_height(),
            final(self).spec_background() == old(self).spec_background(),
            final(self).spec_frame().len() == old(self).spec_frame().len(),
            exists|draws: Seq<(bool, bool, i32, Color)>|
                {
                    &&& forall|k: int|
                        0 <= k < draws.len() ==> -2 <= (#[trigger] draws[k]).2 <= 1
                            && spec_default_water_colors().contains(draws[k].3)
                    &&& #[trigger] spec_tick_result(
                        old(self).spec_tiles(),
                        old(self).spec_particles(),
                        old(self).spec_width(),
                        old(self).spec_height(),
                        current_frame,
                        draws,
                    ) == (final(self).spec_tiles(), final(self).spec_particles())
                },
    {
        let w = self.world_width;
        let h = self.world_height;
        let ghost bg = self.background;
        let ghost tiles0 = self.tiles@;
        let ghost particles0 = self.particles@;
        let ghost mut draws: Seq<(bool, bool, i32, Color)> = Seq::empty();
        let mut y: u32 = 0;
        while y < h
            invariant
                self.wf(),
                self.spec_width() == w,
                self.spec_height() == h,
                self.spec_background() == bg,
                y <= h,
                draws.len() == y * w,
                forall|k: int|
                    0 <= k < draws.len() ==> -2 <= (#[trigger] draws[k]).2 <= 1
                        && spec_default_water_colors().contains(draws[k].3),
                self.spec_particles() == particles0,
                self.spec_tiles() == spec_scan(tiles0, w, h, current_frame, draws, y * w),
            decreases h - y,
        {
            let mut x: u32 = 0;
            while x < w
                invariant
                    self.wf(),
                    self.spec_width() == w,
                    self.spec_height() == h,
                    self.spec_background() == bg,
                    x <= w,
                    y < h,
                    draws.len() == y * w + x,
                    forall|k: int|
                        0 <= k < draws.len() ==> -2 <= (#[trigger] draws[k]).2 <= 1
                            && spec_default_water_colors().contains(draws[k].3),
                    self.spec_particles() == particles0,
                    self.spec_tiles() == spec_scan(tiles0, w, h, current_frame, draws, y * w + x),
                decreases w - x,
            {
                let flip_a = self.rng.coin();
                let flip_b = self.rng.coin();
                let dir = self.rng.spread_dir();
                let palette_len = self.water_colors.len();
                let ci = self.rng.pick_index(palette_len);
                let recolor = self.water_colors[ci];
                let ghost draws_before = draws;
                proof {
                    assert(spec_default_water_colors().contains(recolor)) by {
                        assert(spec_default_water_colors()[ci as int] == recolor);
                    }
                    draws = draws.push((flip_a, flip_b, dir, recolor));
                    assert forall|k2: int|
                        0 <= k2 < draws.len() implies -2 <= (#[trigger] draws[k2]).2 <= 1
                            && spec_default_water_colors().contains(draws[k2].3) by {
                        if k2 < draws.len() - 1 {
                            assert(draws[k2] == draws_before[k2]);
                        }
                    }
                }
                self.step_cell(x, y, current_frame, flip_a, flip_b, dir, recolor);
                proof {
                    let k = y * w + x;
                    lemma_fundamental_div_mod_converse(k as int, w as int, y as int, x as int);
                    lemma_scan_depends_on_prefix(
                        tiles0,
                        w,
                        h,
                        current_frame,
                        draws_before,
                        draws,
                        k as int,
                    );
                    assert(self.spec_tiles() == spec_scan(
                        tiles0,
                        w,
                        h,
                        current_frame,
                        draws,
                        k + 1,
                    ));
                }
                x = x + 1;
            }
            proof {
                assert((y + 1) * w == y * w + w) by (nonlinear_arith);
            }
            y = y + 1;
        }
        let ghost scanned = self.tiles@;
        proof {
            assert(h * w == w * h) by (nonlinear_arith);
            assert(scanned == spec_scan(tiles0, w, h, current_frame, draws, w * h));
        }
        let mut pending: Vec<(TilePosition, Tile)> = Vec::new();
        let mut i: usize = self.particles.len();
        proof {
            assert(particles0.subrange(0, i as int) + spec_particle_pass(
                scanned,
                particles0,
                w,
                h,
                i as int,
            ).0 =~= particles0);
        }
        while i > 0
            invariant
                self.wf(),
                self.spec_width() == w,
                self.spec_height() == h,
                self.spec_background() == bg,
                self.spec_tiles() == scanned,
                i <= particles0.len(),
                self.spec_particles() == particles0.subrange(0, i as int) + spec_particle_pass(
                    scanned,
                    particles0,
                    w,
                    h,
                    i as int,
                ).0,
                pending@ == spec_particle_pass(scanned, particles0, w, h, i as int).1,
                forall|k: int|
                    0 <= k < pending@.len() ==> (#[trigger] pending@[k]).0.x < w && pending@[k].0.y
                        < h,
            decreases i,
        {
            i = i - 1;
            let ghost pass_rest = spec_particle_pass(scanned, particles0, w, h, i + 1);
            let ghost pass_here = spec_particle_pass(scanned, particles0, w, h, i as int);
            let mut p = self.particles[i];
            assert(p == particles0[i as int]);
            assert(p.wf());
            let instr = p.update(&self.tiles, w, h);
            match instr {
                ParticleInstructions::KeepMoving => {
                    let ghost before = self.particles@;
                    self.particles[i] = p;
                    proof {
                        assert forall|j: int|
                            0 <= j < self.particles@.len() implies (
                        #[trigger] self.particles@[j]).wf() by {
                            if j != i {
                                assert(before[j].wf());
                            }
                        }
                        assert(self.particles@ =~= particles0.subrange(0, i as int)
                            + pass_here.0);
                    }
                },
                ParticleInstructions::Destroy => {
                    self.particles.remove(i);
                    proof {
                        assert(self.particles@ =~= particles0.subrange(0, i as int)
                            + pass_here.0);
                    }
                },
                ParticleInstructions::TurnIntoTile(pos) => {
                    pending.push((pos, p.tile));
                    self.particles.remove(i);
                    proof {
                        assert(self.particles@ =~= particles0.subrange(0, i as int)
                            + pass_here.0);
                    }
                },
            }
        }
        let ghost pass_all = spec_particle_pass(scanned, particles0, w, h, 0);
        proof {
            assert(self.particles@ =~= pass_all.0);
        }
        let mut k: usize = 0;
        while k < pending.len()
            invariant
                self.wf(),
                self.spec_width() == w,
                self.spec_height() == h,
                self.spec_background() == bg,
                k <= pending@.len(),
                pending@ == pass_all.1,
                self.spec_particles() == pass_all.0,
                self.spec_tiles() == spec_apply_pending(scanned, pending@, w, k as int),
                forall|j: int|
                    0 <= j < pending@.len() ==> (#[trigger] pending@[j]).0.x < w && pending@[j].0.y
                        < h,
            decreases pending@.len() - k,
        {
            let pair = pending[k];
            self.set_tile(pair.0, pair.1);
            k = k + 1;
        }
        proof {
            assert(spec_tick_result(
                old(self).spec_tiles(),
                old(self).spec_particles(),
                old(self).spec_width(),
                old(self).spec_height(),
                current_frame,
                draws,
            ) == (self.tiles@, self.particles@));
        }
    }
}

/// What every well-formed world looks like from outside: the grid holds
/// exactly `width * height` tiles, the pixel cache holds four bytes per
/// cell, and each cell's bytes are its tile's display color with a fully
/// opaque alpha — the invariant the presentation layer reads the cache
/// under. Every entry point of the world establishes or preserves `wf`, so
/// callers may invoke this after any of them.
pub proof fn lemma_wf_shape(w: World)
    requires
        w.wf(),
    ensures
        w.spec_width() >= 1,
        w.spec_height() >= 1,
        w.spec_tiles().len() == w.spec_width() * w.spec_height(),
        w.spec_frame().len() == w.spec_width() * w.spec_height() * 4,
        forall|i: int|
            0 <= i < w.spec_tiles().len() ==> #[trigger] spec_cell_shown(
                w.spec_tiles(),
                w.spec_frame(),
                w.spec_background(),
                i,
            ),
{
}

/// What one visit of the scan does to the grid at cell `(x, y)`: an empty
/// or static cell is left alone; a live cell whose stamp equals the current
/// tick is skipped; any other live cell runs its behavior on the given
/// random draws and has the returned instruction applied. A tile relocated
/// by `Replace` or `Switch` leaves with its stamp set to the tick.
pub open spec fn spec_step_cell(
    tiles: Seq<Tile>,
    width: u32,
    height: u32,
    x: u32,
    y: u32,
    tick: u64,
    flip_a: bool,
    flip_b: bool,
    dir: i32,
    recolor: Color,
) -> Seq<Tile> {
    let i = spec_index(width, x, y);
    match tiles[i] {
        Tile::LiveTile(lt) => {
            if lt.last_frame_updated == tick {
                tiles
            } else {
                let r = spec_state_update(
                    lt.state,
                    tiles,
                    width,
                    height,
                    x,
                    y,
                    flip_a,
                    flip_b,
                    dir,
                    recolor,
                );
                match r.1 {
                    LiveTileInstruction::Stay => tiles.update(
                        i,
                        Tile::LiveTile(
                            LiveTile { state: r.0, last_frame_updated: lt.last_frame_updated },
                        ),
                    ),
                    LiveTileInstruction::Replace(dx, dy) => {
                        let j = spec_index(width, (x + dx) as u32, (y + dy) as u32);
                        tiles.update(i, Tile::Empty).update(
                            j,
                            Tile::LiveTile(LiveTile { state: r.0, last_frame_updated: tick }),
                        )
                    },
                    LiveTileInstruction::Switch(dx, dy) => {
                        let j = spec_index(width, (x + dx) as u32, (y + dy) as u32);
                        tiles.update(i, tiles[j]).update(
                            j,
                            Tile::LiveTile(LiveTile { state: r.0, last_frame_updated: tick }),
                        )
                    },
                    LiveTileInstruction::ReplaceSelfWith(t) => tiles.update(i, t),
                }
            }
        },
        _ => tiles,
    }
}

/// The scan phase folded over the first `k` cells in row-major order: cell
/// `k - 1` (at `((k-1) % width, (k-1) / width)`) is stepped on the state
/// left by the cells before it, with the `k - 1`th draw of the given
/// sequence of random draws (flip for sand's first diagonal, flip for its
/// water probe, water's preferred direction, and the recolor sample).
pub open spec fn spec_scan(
    tiles: Seq<Tile>,
    width: u32,
    height: u32,
    tick: u64,
    draws: Seq<(bool, bool, i32, Color)>,
    k: int,
) -> Seq<Tile>
    decreases k,
{
    if k <= 0 {
        tiles
    } else {
        let prev = spec_scan(tiles, width, height, tick, draws, k - 1);
        let d = draws[k - 1];
        spec_step_cell(
            prev,
            width,
            height,
            ((k - 1) % (width as int)) as u32,
            ((k - 1) / (width as int)) as u32,
            tick,
            d.0,
            d.1,
            d.2,
            d.3,
        )
    }
}

/// The scan of the first `k` cells reads only the first `k` draws.
pub proof fn lemma_scan_depends_on_prefix(
    tiles: Seq<Tile>,
    width: u32,
    height: u32,
    tick: u64,
    d1: Seq<(bool, bool, i32, Color)>,
    d2: Seq<(bool, bool, i32, Color)>,
    k: int,
)
    requires
        forall|j: int| 0 <= j < k ==> d1[j] == d2[j],
    ensures
        spec_scan(tiles, width, height, tick, d1, k) == spec_scan(tiles, width, height, tick, d2, k),
    decreases k,
{
    if k > 0 {
        lemma_scan_depends_on_prefix(tiles, width, height, tick, d1, d2, k - 1);
    }
}

/// The particle phase folded over the particles with index at least `i`,
/// processed from the highest index down as the driver does: each particle
/// is moved against the already-scanned grid, and the result is the list of
/// surviving particles, in their original relative order, together with the
/// deferred materializations in the order they were decided.
pub open spec fn spec_particle_pass(
    tiles: Seq<Tile>,
    particles: Seq<Particle>,
    width: u32,
    height: u32,
    i: int,
) -> (Seq<Particle>, Seq<(TilePosition, Tile)>)
    decreases particles.len() - i,
{
    if i < 0 || i >= particles.len() {
        (Seq::empty(), Seq::empty())
    } else {
        let rest = spec_particle_pass(tiles, particles, width, height, i + 1);
        let r = spec_particle_update(particles[i], tiles, width, height);
        match r.1 {
            ParticleInstructions::KeepMoving => (seq![r.0] + rest.0, rest.1),
            ParticleInstructions::Destroy => rest,
            ParticleInstructions::TurnIntoTile(pos) => (
                rest.0,
                rest.1.push((pos, particles[i].tile)),
            ),
        }
    }
}

/// The deferred materializations applied in order: the first `k` pending
/// entries written into the grid, each as a plain tile write.
pub open spec fn spec_apply_pending(
    tiles: Seq<Tile>,
    pending: Seq<(TilePosition, Tile)>,
    width: u32,
    k: int,
) -> Seq<Tile>
    decreases k,
{
    if k <= 0 {
        tiles
    } else {
        let prev = spec_apply_pending(tiles, pending, width, k - 1);
        let entry = pending[k - 1];
        prev.update(spec_index(width, entry.0.x, entry.0.y), entry.1)
    }
}

/// What one whole tick does, given the sequence of random draws the scan
/// consumed: the grid after the row-major scan of every cell, then the
/// particle pass against that grid, then the deferred materializations; the
/// surviving particles are those the pass kept.
pub open spec fn spec_tick_result(
    tiles: Seq<Tile>,
    particles: Seq<Particle>,
    width: u32,
    height: u32,
    tick: u64,
    draws: Seq<(bool, bool, i32, Color)>,
) -> (Seq<Tile>, Seq<Particle>) {
    let scanned = spec_scan(tiles, width, height, tick, draws, width * height);
    let pp = spec_particle_pass(scanned, particles, width, height, 0);
    (spec_apply_pending(scanned, pp.1, width, pp.1.len() as int), pp.0)
}

/// An in-bounds cell has an in-range row-major index.
pub proof fn lemma_index_bounds(width: u32, height: u32, x: u32, y: u32)
    requires
        x < width,
        y < height,
    ensures
        0 <= spec_index(width, x, y) < width * height,
{
    assert(x + y * width < width * height) by (nonlinear_arith)
        requires
            x < width,
            y < height,
    ;
}

/// Distinct in-bounds cells have distinct row-major indices.
pub proof fn lemma_index_injective(width: u32, x1: u32, y1: u32, x2: u32, y2: u32)
    requires
        x1 < width,
        x2 < width,
        spec_index(width, x1, y1) == spec_index(width, x2, y2),
    ensures
        x1 == x2 && y1 == y2,
{
    assert(x1 == x2 && y1 == y2) by (nonlinear_arith)
        requires
            x1 < width,
            x2 < width,
            x1 + y1 * width == x2 + y2 * width,
    ;
}

/// Every relocation instruction a behavior issues names a cell it examined
/// through the neighbor accessor: a `Replace` destination was seen empty, a
/// `Switch` destination was seen holding water, and no behavior transforms
/// itself in place. In particular every destination lies inside the world,
/// since the out-of-bounds sentinel is neither empty nor water.
pub proof fn lemma_instruction_target(
    st: LiveTileState,
    tiles: Seq<Tile>,
    width: u32,
    height: u32,
    x: u32,
    y: u32,
    flip_a: bool,
    flip_b: bool,
    dir: i32,
    recolor: Color,
)
    requires
        -2 <= dir <= 1,
    ensures
        ({
            let instr = spec_state_update(
                st,
                tiles,
                width,
                height,
                x,
                y,
                flip_a,
                flip_b,
                dir,
                recolor,
            ).1;
            &&& (instr matches LiveTileInstruction::Replace(dx, dy) ==> spec_neighbor(
                tiles,
                width,
                height,
                x,
                y,
                dx as int,
                dy as int,
            ) == Tile::Empty)
            &&& (instr matches LiveTileInstruction::Switch(dx, dy) ==> crate::tile::spec_is_water(
                spec_neighbor(tiles, width, height, x, y, dx as int, dy as int),
            ))
            &&& !(instr is ReplaceSelfWith)
        }),
{
    match st {
        LiveTileState::Sand(s) => {
            let below = spec_neighbor(tiles, width, height, x, y, 0, 1);
            let d = crate::live_tiles::spec_flip_dir(flip_a);
            let d2 = crate::live_tiles::spec_flip_dir(flip_b);
            assert(spec_state_update(st, tiles, width, height, x, y, flip_a, flip_b, dir, recolor).1
                == spec_sand_update(s, tiles, width, height, x, y, flip_a, flip_b).1);
            if below == Tile::Empty {
            } else if spec_neighbor(tiles, width, height, x, y, d as int, 1) == Tile::Empty {
            } else if crate::tile::spec_is_water(below) {
            } else if crate::tile::spec_is_water(
                spec_neighbor(tiles, width, height, x, y, d2 as int, 1),
            ) {
            } else {
            }
        },
        LiveTileState::Water(wt) => {
            assert(spec_state_update(st, tiles, width, height, x, y, flip_a, flip_b, dir, recolor).1
                == spec_water_update(wt, tiles, width, height, x, y, dir, recolor).1);
            if spec_neighbor(tiles, width, height, x, y, 0, 1) == Tile::Empty {
            } else if spec_neighbor(tiles, width, height, x, y, dir as int, 1) == Tile::Empty {
            } else if spec_neighbor(tiles, width, height, x, y, -dir as int, 1) == Tile::Empty {
            } else if spec_neighbor(tiles, width, height, x, y, dir as int, 0) == Tile::Empty {
            } else if spec_neighbor(tiles, width, height, x, y, -dir as int, 0) == Tile::Empty {
            } else {
            }
        },
    }
}

/// No live tile is visited twice by the scan within one tick. If the step
/// at `(x, y)` changed some other cell `(x2, y2)` — that is, it relocated a
/// tile there — then the step that later reaches `(x2, y2)` in the same
/// tick leaves the grid entirely unchanged: the relocated tile carries the
/// tick as its stamp, and a stamped live tile is skipped, whatever random
/// draws that later step is given.
pub proof fn lemma_no_second_visit(
    tiles: Seq<Tile>,
    width: u32,
    height: u32,
    x: u32,
    y: u32,
    x2: u32,
    y2: u32,
    tick: u64,
    flip_a: bool,
    flip_b: bool,
    dir: i32,
    recolor: Color,
    flip_a2: bool,
    flip_b2: bool,
    dir2: i32,
    recolor2: Color,
)
    requires
        tiles.len() == width * height,
        x < width,
        y < height,
        x2 < width,
        y2 < height,
        !(x == x2 && y == y2),
        -2 <= dir <= 1,
        spec_step_cell(tiles, width, height, x, y, tick, flip_a, flip_b, dir, recolor)[spec_index(
            width,
            x2,
            y2,
        )] != tiles[spec_index(width, x2, y2)],
    ensures
        spec_step_cell(
            spec_step_cell(tiles, width, height, x, y, tick, flip_a, flip_b, dir, recolor),
            width,
            height,
            x2,
            y2,
            tick,
            flip_a2,
            flip_b2,
            dir2,
            recolor2,
        ) == spec_step_cell(tiles, width, height, x, y, tick, flip_a, flip_b, dir, recolor),
{
    let i = spec_index(width, x, y);
    let i2 = spec_index(width, x2, y2);
    lemma_index_bounds(width, height, x, y);
    lemma_index_bounds(width, height, x2, y2);
    if i == i2 {
        lemma_index_injective(width, x, y, x2, y2);
        assert(false);
    }
    let t2 = spec_step_cell(tiles, width, height, x, y, tick, flip_a, flip_b, dir, recolor);
    match tiles[i] {
        Tile::LiveTile(lt) => {
            if lt.last_frame_updated == tick {
                assert(false);
            } else {
                let r = spec_state_update(
                    lt.state,
                    tiles,
                    width,
                    height,
                    x,
                    y,
                    flip_a,
                    flip_b,
                    dir,
                    recolor,
                );
                lemma_instruction_target(
                    lt.state,
                    tiles,
                    width,
                    height,
                    x,
                    y,
                    flip_a,
                    flip_b,
                    dir,
                    recolor,
                );
                match r.1 {
                    LiveTileInstruction::Stay => {
                        assert(false);
                    },
                    LiveTileInstruction::Replace(dx, dy) => {
                        let j = spec_index(width, (x + dx) as u32, (y + dy) as u32);
                        assert(0 <= x + dx < width && 0 <= y + dy < height);
                        lemma_index_bounds(width, height, (x + dx) as u32, (y + dy) as u32);
                        if i2 != j {
                            assert(t2[i2] == tiles.update(i, Tile::Empty)[i2]);
                            assert(t2[i2] == tiles[i2]);
                            assert(false);
                        }
                        assert(t2[i2] == Tile::LiveTile(
                            LiveTile { state: r.0, last_frame_updated: tick },
                        ));
                    },
                    LiveTileInstruction::Switch(dx, dy) => {
                        let j = spec_index(width, (x + dx) as u32, (y + dy) as u32);
                        assert(0 <= x + dx < width && 0 <= y + dy < height);
                        lemma_index_bounds(width, height, (x + dx) as u32, (y + dy) as u32);
                        if i2 != j {
                            assert(t2[i2] == tiles.update(i, tiles[j])[i2]);
                            assert(t2[i2] == tiles[i2]);
                            assert(false);
                        }
                        assert(t2[i2] == Tile::LiveTile(
                            LiveTile { state: r.0, last_frame_updated: tick },
                        ));
                    },
                    LiveTileInstruction::ReplaceSelfWith(t) => {
                        assert(false);
                    },
                }
            }
        },
        _ => {
            assert(false);
        },
    }
}

/// A sand tile with an empty cell directly below always relocates exactly
/// one row down when the scan visits it, whatever the random draws: its
/// cell is left empty and the cell below receives the same sand state,
/// stamped with the current tick.
pub proof fn lemma_sand_falls(
    tiles: Seq<Tile>,
    width: u32,
    height: u32,
    x: u32,
    y: u32,
    tick: u64,
    flip_a: bool,
    flip_b: bool,
    dir: i32,
    recolor: Color,
)
    requires
        tiles.len() == width * height,
        x < width,
        y + 1 < height,
        tiles[spec_index(width, x, y)] matches Tile::LiveTile(lt) && lt.state is Sand
            && lt.last_frame_updated != tick,
        tiles[spec_index(width, x, (y + 1) as u32)] == Tile::Empty,
    ensures
        ({
            let t2 = spec_step_cell(tiles, width, height, x, y, tick, flip_a, flip_b, dir, recolor);
            let lt = tiles[spec_index(width, x, y)]->LiveTile_0;
            &&& t2[spec_index(width, x, y)] == Tile::Empty
            &&& t2[spec_index(width, x, (y + 1) as u32)] == Tile::LiveTile(
                LiveTile { state: lt.state, last_frame_updated: tick },
            )
        }),
{
    let i = spec_index(width, x, y);
    let ib = spec_index(width, x, (y + 1) as u32);
    assert(x + (y + 1) * width == x + y * width + width) by (nonlinear_arith);
    assert(spec_neighbor(tiles, width, height, x, y, 0, 1) == tiles[ib]);
    lemma_index_bounds(width, height, x, y);
    lemma_index_bounds(width, height, x, (y + 1) as u32);
    if i == ib {
        lemma_index_injective(width, x, y, x, (y + 1) as u32);
        assert(false);
    }
}

/// A water tile with none of its five checked cells empty is unchanged in
/// position for the tick: the step rewrites only its own cell, where a
/// water tile remains — its recolor counter advanced — under its old stamp.
pub proof fn lemma_blocked_water_stays(
    tiles: Seq<Tile>,
    width: u32,
    height: u32,
    x: u32,
    y: u32,
    tick: u64,
    flip_a: bool,
    flip_b: bool,
    dir: i32,
    recolor: Color,
)
    requires
        tiles.len() == width * height,
        x < width,
        y < height,
        -2 <= dir <= 1,
        tiles[spec_index(width, x, y)] matches Tile::LiveTile(lt) && lt.state is Water
            && lt.last_frame_updated != tick,
        spec_neighbor(tiles, width, height, x, y, 0, 1) != Tile::Empty,
        spec_neighbor(tiles, width, height, x, y, dir as int, 1) != Tile::Empty,
        spec_neighbor(tiles, width, height, x, y, -dir as int, 1) != Tile::Empty,
        spec_neighbor(tiles, width, height, x, y, dir as int, 0) != Tile::Empty,
        spec_neighbor(tiles, width, height, x, y, -dir as int, 0) != Tile::Empty,
    ensures
        ({
            let lt = tiles[spec_index(width, x, y)]->LiveTile_0;
            let wt = lt.state->Water_0;
            spec_step_cell(tiles, width, height, x, y, tick, flip_a, flip_b, dir, recolor)
                == tiles.update(
                spec_index(width, x, y),
                Tile::LiveTile(
                    LiveTile {
                        state: LiveTileState::Water(
                            crate::live_tiles::spec_water_recolor(wt, recolor),
                        ),
                        last_frame_updated: lt.last_frame_updated,
                    },
                ),
            )
        }),
{
}

/// The grid a lone falling sand tile leaves behind after one whole scan:
/// its old cell empty, the cell below holding the same sand state stamped
/// with the tick, everything else untouched.
pub open spec fn spec_lone_sand_fallen(tiles: Seq<Tile>, width: u32, x: u32, y: u32, tick: u64) -> Seq<Tile> {
    let i = spec_index(width, x, y);
    let ib = spec_index(width, x, (y + 1) as u32);
    let lt = tiles[i]->LiveTile_0;
    tiles.update(i, Tile::Empty).update(
        ib,
        Tile::LiveTile(LiveTile { state: lt.state, last_frame_updated: tick }),
    )
}

/// Induction step for the whole-scan fall law: the scan prefix leaves the
/// grid untouched until it reaches the sand's cell, and from that cell on
/// holds exactly the one-row fall — the later visit to the sand's new cell
/// is skipped because of its stamp.
proof fn lemma_lone_sand_scan_prefix(
    tiles: Seq<Tile>,
    width: u32,
    height: u32,
    x: u32,
    y: u32,
    tick: u64,
    draws: Seq<(bool, bool, i32, Color)>,
    k: int,
)
    requires
        tiles.len() == width * height,
        x < width,
        y + 1 < height,
        tiles[spec_index(width, x, y)] matches Tile::LiveTile(lt) && lt.state is Sand
            && lt.last_frame_updated != tick,
        tiles[spec_index(width, x, (y + 1) as u32)] == Tile::Empty,
        forall|j: int|
            0 <= j < tiles.len() && j != spec_index(width, x, y) ==> !((#[trigger] tiles[j])
                is LiveTile),
        0 <= k <= width * height,
    ensures
        spec_scan(tiles, width, height, tick, draws, k) == if k <= spec_index(width, x, y) {
            tiles
        } else {
            spec_lone_sand_fallen(tiles, width, x, y, tick)
        },
    decreases k,
{
    let i = spec_index(width, x, y);
    let ib = spec_index(width, x, (y + 1) as u32);
    lemma_index_bounds(width, height, x, y);
    lemma_index_bounds(width, height, x, (y + 1) as u32);
    assert(x + (y + 1) * width == x + y * width + width) by (nonlinear_arith);
    if i == ib {
        lemma_index_injective(width, x, y, x, (y + 1) as u32);
        assert(false);
    }
    let moved = spec_lone_sand_fallen(tiles, width, x, y, tick);
    if k > 0 {
        lemma_lone_sand_scan_prefix(tiles, width, height, x, y, tick, draws, k - 1);
        let prev = spec_scan(tiles, width, height, tick, draws, k - 1);
        let q = (k - 1) / (width as int);
        let r = (k - 1) % (width as int);
        lemma_fundamental_div_mod(k - 1, width as int);
        lemma_mod_pos_bound(k - 1, width as int);
        assert(0 <= q && q < height) by (nonlinear_arith)
            requires
                k - 1 == width * q + r,
                0 <= r < width,
                0 <= k - 1,
                k - 1 < width * height,
                width >= 1,
        ;
        let cx = r as u32;
        let cy = q as u32;
        assert(cx == r && cy == q);
        assert(cx + cy * width == k - 1) by (nonlinear_arith)
            requires
                cx == r,
                cy == q,
                k - 1 == width * q + r,
        ;
        assert(spec_index(width, cx, cy) == k - 1);
        if k - 1 < i {
            assert(!(tiles[k - 1] is LiveTile));
        } else if k - 1 == i {
            lemma_index_injective(width, cx, cy, x, y);
            assert(spec_neighbor(tiles, width, height, x, y, 0, 1) == tiles[ib]);
        } else {
            if k - 1 == ib {
                assert(moved[ib] == Tile::LiveTile(
                    LiveTile {
                        state: tiles[i]->LiveTile_0.state,
                        last_frame_updated: tick,
                    },
                ));
            } else {
                assert(moved[k - 1] == tiles[k - 1]);
                assert(!(moved[k - 1] is LiveTile));
            }
        }
    }
}

/// The fall law over a whole tick's scan: in a grid whose only live tile is
/// a sand tile with an empty cell directly below, one complete row-major
/// scan — whatever random draws it consumes — moves that tile exactly one
/// row down, stamped with the tick, and changes no other cell. The later
/// visit to its new cell finds the stamp and skips it, so the tile falls
/// once, not twice.
pub proof fn lemma_lone_sand_falls_in_full_scan(
    tiles: Seq<Tile>,
    width: u32,
    height: u32,
    x: u32,
    y: u32,
    tick: u64,
    draws: Seq<(bool, bool, i32, Color)>,
)
    requires
        tiles.len() == width * height,
        x < width,
        y + 1 < height,
        tiles[spec_index(width, x, y)] matches Tile::LiveTile(lt) && lt.state is Sand
            && lt.last_frame_updated != tick,
        tiles[spec_index(width, x, (y + 1) as u32)] == Tile::Empty,
        forall|j: int|
            0 <= j < tiles.len() && j != spec_index(width, x, y) ==> !((#[trigger] tiles[j])
                is LiveTile),
    ensures
        spec_scan(tiles, width, height, tick, draws, width * height) == spec_lone_sand_fallen(
            tiles,
            width,
            x,
            y,
            tick,
        ),
{
    lemma_index_bounds(width, height, x, y);
    lemma_lone_sand_scan_prefix(tiles, width, height, x, y, tick, draws, (width * height) as int);
}

/// The fall law over a whole tick: in a world whose grid holds a single
/// live tile — sand over an empty cell — and whose particle list is empty,
/// the tick relation of `World::update` moves that tile exactly one row
/// down, stamped with the tick, changes no other cell, and keeps the
/// particle list empty — whatever random draws the scan consumes.
pub proof fn lemma_lone_sand_falls_in_tick(
    tiles: Seq<Tile>,
    particles: Seq<Particle>,
    width: u32,
    height: u32,
    x: u32,
    y: u32,
    tick: u64,
    draws: Seq<(bool, bool, i32, Color)>,
)
    requires
        particles.len() == 0,
        tiles.len() == width * height,
        x < width,
        y + 1 < height,
        tiles[spec_index(width, x, y)] matches Tile::LiveTile(lt) && lt.state is Sand
            && lt.last_frame_updated != tick,
        tiles[spec_index(width, x, (y + 1) as u32)] == Tile::Empty,
        forall|j: int|
            0 <= j < tiles.len() && j != spec_index(width, x, y) ==> !((#[trigger] tiles[j])
                is LiveTile),
    ensures
        spec_tick_result(tiles, particles, width, height, tick, draws) == (
            spec_lone_sand_fallen(tiles, width, x, y, tick),
            particles,
        ),
{
    lemma_lone_sand_falls_in_full_scan(tiles, width, height, x, y, tick, draws);
    let scanned = spec_scan(tiles, width, height, tick, draws, width * height);
    let pp = spec_particle_pass(scanned, particles, width, height, 0);
    assert(pp.0 =~= particles);
    assert(spec_apply_pending(scanned, pp.1, width, pp.1.len() as int) == scanned);
}

} // verus!
