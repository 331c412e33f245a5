//! The neighbor accessor: a read-only view of the grid bound to an anchor
//! position. It is the only way material behaviors see the grid; any query
//! that falls outside the world answers with a fixed solid sentinel, so every
//! rule treats world edges as ordinary obstacles with no special casing.

use vstd::prelude::*;
use crate::Color;
use crate::tile::StaticTile;
use crate::tile::Tile;

verus! {

/// The fixed tile answered for any out-of-bounds query: a pure red static
/// obstacle.
pub open spec fn spec_boundary_sentinel() -> Tile {
    Tile::StaticTile(StaticTile { color: Color { r: 255, g: 0, b: 0 } })
}

pub fn boundary_sentinel() -> (t: Tile)
    ensures
        t == spec_boundary_sentinel(),
{
    Tile::StaticTile(StaticTile::new(Color::new(255, 0, 0)))
}

/// The tile seen from anchor `(x, y)` at offset `(dx, dy)` in a grid of
/// `width * height` tiles: the sentinel when the target falls outside
/// `[0, width) x [0, height)`, otherwise the tile at the row-major index.
pub open spec fn spec_neighbor(
    tiles: Seq<Tile>,
    width: u32,
    height: u32,
    x: u32,
    y: u32,
    dx: int,
    dy: int,
) -> Tile {
    let nx = x + dx;
    let ny = y + dy;
    if nx < 0 || nx >= width || ny < 0 || ny >= height {
        spec_boundary_sentinel()
    } else {
        tiles[nx + ny * width]
    }
}

/// A read-only accessor into the grid, bound to the anchor position of the
/// tile whose behavior is being run.
#[derive(Clone, Copy)]
pub struct LiveTileApi<'a> {
    pub x: u32,
    pub y: u32,
    pub tiles: &'a Vec<Tile>,
    pub width: u32,
    pub height: u32,
}

impl<'a> LiveTileApi<'a> {
    pub open spec fn wf(self) -> bool {
        &&& self.width >= 1
        &&& self.height >= 1
        &&& self.tiles@.len() == self.width * self.height
        &&& self.x < self.width
        &&& self.y < self.height
    }

    pub open spec fn spec_get(self, dx: int, dy: int) -> Tile {
        spec_neighbor(self.tiles@, self.width, self.height, self.x, self.y, dx, dy)
    }

    pub fn get(&self, dx: i32, dy: i32) -> (t: Tile)
        requires
            self.wf(),
        ensures
            t == self.spec_get(dx as int, dy as int),
    {
        let nx: i64 = self.x as i64 + dx as i64;
        let ny: i64 = self.y as i64 + dy as i64;
        if nx < 0 || nx >= self.width as i64 || ny < 0 || ny >= self.height as i64 {
            return boundary_sentinel();
        }
        let n: usize = self.tiles.len();
        let nxu: usize = nx as usize;
        let nyu: usize = ny as usize;
        proof {
            assert(nyu * self.width <= n && nxu + nyu * self.width < n) by (nonlinear_arith)
                requires
                    nxu < self.width,
                    nyu < self.height,
                    n == self.width * self.height,
            ;
        }
        let idx: usize = nxu + nyu * (self.width as usize);
        self.tiles[idx]
    }

    pub fn is_empty(&self, dx: i32, dy: i32) -> (b: bool)
        requires
            self.wf(),
        ensures
            b == (self.spec_get(dx as int, dy as int) == Tile::Empty),
    {
        let t = self.get(dx, dy);
        matches!(t, Tile::Empty)
    }
}

} // verus!
