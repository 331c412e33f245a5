//! The continuous-motion particle layer. A particle carries the tile it will
//! become, a sub-cell position and a velocity, all in fixed-point millicell
//! units (1000 units to a grid cell) so the continuous motion stays in exact
//! integer arithmetic. Each tick it gains a fixed gravity increment, loses a
//! small damping fraction of its speed, and moves by its velocity; when the
//! cell below its rounded position is occupied it searches a bounded stretch
//! of the column above for the first empty cell to freeze into, and failing
//! that it is silently destroyed. Leaving the world bounds also destroys it.

use vstd::prelude::*;
use vstd::arithmetic::div_mod::lemma_div_is_ordered;
use vstd::arithmetic::div_mod::lemma_div_multiples_vanish;
use crate::TilePosition;
use crate::live_tile_api::LiveTileApi;
use crate::live_tile_api::spec_neighbor;
use crate::tile::Tile;

verus! {

/// Fixed-point units per grid cell.
pub const SUBCELL: i64 = 1000;

/// Downward velocity gained each tick, in millicells per tick.
pub const GRAVITY: i64 = 10;

/// How many cells of the column are probed, starting one below the rounded
/// position and walking upward, before a blocked particle is destroyed.
pub const SETTLE_ATTEMPTS: u32 = 10;

/// Largest position magnitude a particle may carry, in millicells; large
/// enough for every cell of the largest world, small enough that a tick of
/// motion can never overflow.
pub const COORD_LIMIT: i64 = 0x400_0000_0000;

/// Largest speed magnitude a particle may carry, in millicells per tick;
/// preserved across ticks because damping shrinks a speed at this limit by
/// more than gravity grows it.
pub const SPEED_LIMIT: i64 = 0x8000_0000;

/// What the per-tick particle pass does with one particle.
///
/// - `KeepMoving`: still airborne; the particle stays in the list with its
///   integrated position and velocity.
/// - `TurnIntoTile(pos)`: freeze into the grid at `pos` (applied deferred,
///   after every particle has been processed) and leave the list.
/// - `Destroy`: leave the list without materializing.
#[derive(Copy, Clone, Debug, PartialEq, Eq, Structural)]
pub enum ParticleInstructions {
    KeepMoving,
    TurnIntoTile(TilePosition),
    Destroy,
}

/// An ephemeral moving payload owned by the world's particle list.
#[derive(Copy, Clone, Debug, PartialEq, Eq, Structural)]
pub struct Particle {
    pub tile: Tile,
    pub x_mil: i64,
    pub y_mil: i64,
    pub vx_mil: i64,
    pub vy_mil: i64,
}

/// One tick of damping: a speed keeps 99 hundredths of its magnitude,
/// rounded toward zero.
pub open spec fn spec_damp(v: int) -> int {
    if v >= 0 {
        (v * 99) / 100
    } else {
        -(((-v) * 99) / 100)
    }
}

/// One tick of motion: gravity is added to the vertical speed, both speed
/// components are damped, and the position moves by the new velocity.
pub open spec fn spec_integrate(p: Particle) -> Particle {
    let vx = spec_damp(p.vx_mil as int);
    let vy = spec_damp(p.vy_mil + GRAVITY);
    Particle {
        tile: p.tile,
        x_mil: (p.x_mil + vx) as i64,
        y_mil: (p.y_mil + vy) as i64,
        vx_mil: vx as i64,
        vy_mil: vy as i64,
    }
}

/// The bounded upward settle search: probing offsets `(0, 1 - k)` for `k`
/// from the given start up to `SETTLE_ATTEMPTS`, the row of the first empty
/// cell found, if any.
pub open spec fn spec_settle_row(
    tiles: Seq<Tile>,
    width: u32,
    height: u32,
    cx: u32,
    cy: u32,
    k: int,
) -> Option<int>
    decreases SETTLE_ATTEMPTS - k,
{
    if k < 0 || k >= SETTLE_ATTEMPTS {
        Option::None
    } else if spec_neighbor(tiles, width, height, cx, cy, 0, 1 - k) == Tile::Empty {
        Option::Some(cy + 1 - k)
    } else {
        spec_settle_row(tiles, width, height, cx, cy, k + 1)
    }
}

/// What one tick does to a particle in the given grid: after integrating its
/// motion, a particle whose rounded position left the world is destroyed;
/// one with an empty cell below its rounded position keeps moving; otherwise
/// the settle search decides between freezing at the found row and
/// destruction.
pub open spec fn spec_particle_update(
    p: Particle,
    tiles: Seq<Tile>,
    width: u32,
    height: u32,
) -> (Particle, ParticleInstructions) {
    let q = spec_integrate(p);
    let xs = q.x_mil + (SUBCELL as int) / 2;
    let ys = q.y_mil + (SUBCELL as int) / 2;
    if xs < 0 || xs >= width * SUBCELL || ys < 0 || ys >= height * SUBCELL {
        (q, ParticleInstructions::Destroy)
    } else {
        let cx = (xs / (SUBCELL as int)) as u32;
        let cy = (ys / (SUBCELL as int)) as u32;
        if spec_neighbor(tiles, width, height, cx, cy, 0, 1) == Tile::Empty {
            (q, ParticleInstructions::KeepMoving)
        } else {
            match spec_settle_row(tiles, width, height, cx, cy, 0) {
                Option::Some(row) => (
                    q,
                    ParticleInstructions::TurnIntoTile(TilePosition { x: cx, y: row as u32 }),
                ),
                Option::None => (q, ParticleInstructions::Destroy),
            }
        }
    }
}

impl Particle {
    /// The representation bounds every particle in the world's list obeys.
    pub open spec fn wf(self) -> bool {
        &&& -COORD_LIMIT <= self.x_mil <= COORD_LIMIT
        &&& -COORD_LIMIT <= self.y_mil <= COORD_LIMIT
        &&& -SPEED_LIMIT <= self.vx_mil <= SPEED_LIMIT
        &&& -SPEED_LIMIT <= self.vy_mil <= SPEED_LIMIT
    }

    pub fn new(tile: Tile, x_mil: i64, y_mil: i64, vx_mil: i64, vy_mil: i64) -> (p: Particle)
        requires
            -COORD_LIMIT <= x_mil <= COORD_LIMIT,
            -COORD_LIMIT <= y_mil <= COORD_LIMIT,
            -SPEED_LIMIT <= vx_mil <= SPEED_LIMIT,
            -SPEED_LIMIT <= vy_mil <= SPEED_LIMIT,
        ensures
            p == (Particle { tile, x_mil, y_mil, vx_mil, vy_mil }),
            p.wf(),
    {
        Particle { tile, x_mil, y_mil, vx_mil, vy_mil }
    }

    /// One tick of this particle against a read-only view of the grid. The
    /// grid is not touched here: a settle target is reported through the
    /// instruction and applied by the world once every particle has moved.
    pub fn update(&mut self, tiles: &Vec<Tile>, world_width: u32, world_height: u32) -> (instr:
        ParticleInstructions)
        requires
            old(self).wf(),
            world_width >= 1,
            world_height >= 1,
            tiles@.len() == world_width * world_height,
        ensures
            *final(self) == spec_particle_update(*old(self), tiles@, world_width, world_height).0,
            instr == spec_particle_update(*old(self), tiles@, world_width, world_height).1,
            final(self).tile == old(self).tile,
            instr is KeepMoving ==> final(self).wf(),
            instr matches ParticleInstructions::TurnIntoTile(pos) ==> pos.x < world_width
                && pos.y < world_height && tiles@[pos.x + pos.y * world_width] == Tile::Empty,
    {
        let vx = damp(self.vx_mil);
        let vy = damp(self.vy_mil + GRAVITY);
        self.vx_mil = vx;
        self.vy_mil = vy;
        self.x_mil = self.x_mil + vx;
        self.y_mil = self.y_mil + vy;
        let xs: i64 = self.x_mil + SUBCELL / 2;
        let ys: i64 = self.y_mil + SUBCELL / 2;
        let ghost q = spec_integrate(*old(self));
        assert(*self == q);
        if xs < 0 || ys < 0 {
            return ParticleInstructions::Destroy;
        }
        let wide_w: i64 = (world_width as i64) * SUBCELL;
        let wide_h: i64 = (world_height as i64) * SUBCELL;
        if xs >= wide_w || ys >= wide_h {
            return ParticleInstructions::Destroy;
        }
        proof {
            lemma_div_is_ordered(0, xs as int, SUBCELL as int);
            lemma_div_is_ordered(xs as int, world_width * SUBCELL - 1, SUBCELL as int);
            lemma_div_is_ordered(0, ys as int, SUBCELL as int);
            lemma_div_is_ordered(ys as int, world_height * SUBCELL - 1, SUBCELL as int);
            assert((world_width * SUBCELL - 1) / (SUBCELL as int) < world_width
                && (world_height * SUBCELL - 1) / (SUBCELL as int) < world_height)
                by (nonlinear_arith)
                requires
                    world_width >= 1,
                    world_height >= 1,
                    SUBCELL == 1000,
            ;
        }
        let cx: u32 = ((xs as u64) / (SUBCELL as u64)) as u32;
        let cy: u32 = ((ys as u64) / (SUBCELL as u64)) as u32;
        assert(cx == ((q.x_mil + (SUBCELL as int) / 2) / (SUBCELL as int)) as u32);
        assert(cy == ((q.y_mil + (SUBCELL as int) / 2) / (SUBCELL as int)) as u32);
        assert(cx < world_width && cy < world_height);
        let api = LiveTileApi {
            x: cx,
            y: cy,
            tiles,
            width: world_width,
            height: world_height,
        };
        if api.is_empty(0, 1) {
            return ParticleInstructions::KeepMoving;
        }
        let mut k: u32 = 0;
        while k < SETTLE_ATTEMPTS
            invariant
                0 <= k <= SETTLE_ATTEMPTS,
                api.wf(),
                api.x == cx,
                api.y == cy,
                api.width == world_width,
                api.height == world_height,
                api.tiles@ == tiles@,
                *self == q,
                q == spec_integrate(*old(self)),
                cx == ((q.x_mil + (SUBCELL as int) / 2) / (SUBCELL as int)) as u32,
                cy == ((q.y_mil + (SUBCELL as int) / 2) / (SUBCELL as int)) as u32,
                0 <= q.x_mil + (SUBCELL as int) / 2 < world_width * SUBCELL,
                0 <= q.y_mil + (SUBCELL as int) / 2 < world_height * SUBCELL,
                spec_neighbor(tiles@, world_width, world_height, cx, cy, 0, 1) != Tile::Empty,
                spec_settle_row(tiles@, world_width, world_height, cx, cy, 0) == spec_settle_row(
                    tiles@,
                    world_width,
                    world_height,
                    cx,
                    cy,
                    k as int,
                ),
            decreases SETTLE_ATTEMPTS - k,
        {
            let dy: i32 = 1 - (k as i32);
            if api.is_empty(0, dy) {
                let ghost row = cy + 1 - k;
                assert(spec_neighbor(tiles@, world_width, world_height, cx, cy, 0, 1 - k)
                    == Tile::Empty);
                assert(0 <= row < world_height);
                assert(spec_settle_row(tiles@, world_width, world_height, cx, cy, 0)
                    == Option::Some(row));
                let target_y: u32 = ((cy as i64 + 1 - k as i64)) as u32;
                return ParticleInstructions::TurnIntoTile(TilePosition { x: cx, y: target_y });
            }
            k = k + 1;
        }
        ParticleInstructions::Destroy
    }
}

/// Damping in executable form, with the bounds the world's invariant needs:
/// damping never grows a speed's magnitude, and a speed within the limit
/// plus one gravity increment lands back inside the limit.
fn damp(v: i64) -> (r: i64)
    requires
        -(SPEED_LIMIT + GRAVITY) <= v <= SPEED_LIMIT + GRAVITY,
    ensures
        r == spec_damp(v as int),
        -SPEED_LIMIT <= r <= SPEED_LIMIT,
        v >= 0 ==> 0 <= r <= v,
        v < 0 ==> v <= r <= 0,
{
    if v >= 0 {
        let m: u64 = (v as u64) * 99 / 100;
        proof {
            lemma_div_is_ordered(0, 99 * v, 100);
            lemma_div_is_ordered(v * 99, v * 100, 100);
            lemma_div_multiples_vanish(v as int, 100);
            lemma_div_is_ordered(v * 99, (SPEED_LIMIT + GRAVITY) * 99, 100);
        }
        m as i64
    } else {
        let w: i64 = -v;
        let m: u64 = (w as u64) * 99 / 100;
        proof {
            lemma_div_is_ordered(0, 99 * w, 100);
            lemma_div_is_ordered(w * 99, w * 100, 100);
            lemma_div_multiples_vanish(w as int, 100);
            lemma_div_is_ordered(w * 99, (SPEED_LIMIT + GRAVITY) * 99, 100);
        }
        -(m as i64)
    }
}

} // verus!
