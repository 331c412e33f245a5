//! Grid store and neighbor accessor behavior: read/write round trips, the
//! pixel cache, and the out-of-bounds sentinel.

use powpowder::Color;
use powpowder::TilePosition;
use powpowder::background_color;
use powpowder::live_tile_api::LiveTileApi;
use powpowder::live_tiles::SandTile;
use powpowder::live_tiles::WaterTile;
use powpowder::tile::LiveTile;
use powpowder::tile::LiveTileState;
use powpowder::tile::StaticTile;
use powpowder::tile::Tile;
use powpowder::world::World;

#[test]
fn set_get_round_trip_static() {
    let mut world = World::new(background_color(), 4, 3);
    let pos = TilePosition::new(2, 1);
    let tile = Tile::StaticTile(StaticTile::new(Color::new(10, 20, 30)));
    world.set_tile(pos, tile);
    assert_eq!(world.get_tile(pos), tile);
    // Row-major index of (2, 1) in a 4-wide world is 6.
    let frame = world.frame_bytes();
    assert_eq!(frame[6 * 4], 10);
    assert_eq!(frame[6 * 4 + 1], 20);
    assert_eq!(frame[6 * 4 + 2], 30);
    assert_eq!(frame[6 * 4 + 3], 255);
}

#[test]
fn set_get_round_trip_live() {
    let mut world = World::new(background_color(), 2, 2);
    let pos = TilePosition::new(0, 1);
    let tile = Tile::LiveTile(LiveTile::new(LiveTileState::Sand(SandTile::new(Color::new(
        200, 180, 120,
    )))));
    world.set_tile(pos, tile);
    assert_eq!(world.get_tile(pos), tile);
    let frame = world.frame_bytes();
    assert_eq!(frame[2 * 4], 200);
    assert_eq!(frame[2 * 4 + 1], 180);
    assert_eq!(frame[2 * 4 + 2], 120);
    assert_eq!(frame[2 * 4 + 3], 255);
}

#[test]
fn erasing_restores_background_pixel() {
    let bg = Color::new(7, 8, 9);
    let mut world = World::new(bg, 2, 1);
    let pos = TilePosition::new(1, 0);
    world.set_tile(pos, Tile::StaticTile(StaticTile::new(Color::new(50, 60, 70))));
    world.set_tile(pos, Tile::Empty);
    assert_eq!(world.get_tile(pos), Tile::Empty);
    let frame = world.frame_bytes();
    assert_eq!(frame[4], 7);
    assert_eq!(frame[5], 8);
    assert_eq!(frame[6], 9);
    assert_eq!(frame[7], 255);
}

#[test]
fn new_world_is_empty_and_painted() {
    let bg = Color::new(1, 2, 3);
    let world = World::new(bg, 3, 2);
    assert_eq!(world.width(), 3);
    assert_eq!(world.height(), 2);
    for y in 0..2 {
        for x in 0..3 {
            assert_eq!(world.get_tile(TilePosition::new(x, y)), Tile::Empty);
        }
    }
    let frame = world.frame_bytes();
    assert_eq!(frame.len(), 3 * 2 * 4);
    for cell in 0..6 {
        assert_eq!(frame[cell * 4], 1);
        assert_eq!(frame[cell * 4 + 1], 2);
        assert_eq!(frame[cell * 4 + 2], 3);
        assert_eq!(frame[cell * 4 + 3], 255);
    }
}

#[test]
fn neighbor_sentinel_at_origin() {
    let tiles: Vec<Tile> = vec![Tile::Empty; 6];
    let api = LiveTileApi { x: 0, y: 0, tiles: &tiles, width: 3, height: 2 };
    let sentinel = Tile::StaticTile(StaticTile::new(Color::new(255, 0, 0)));
    assert_eq!(api.get(-1, 0), sentinel);
    assert_eq!(api.get(0, -1), sentinel);
    assert!(!api.is_empty(-1, 0));
    assert!(!api.is_empty(0, -1));
    assert_eq!(api.get(1, 0), Tile::Empty);
    assert!(api.is_empty(1, 0));
}

#[test]
fn neighbor_sentinel_at_far_corner() {
    let tiles: Vec<Tile> = vec![Tile::Empty; 6];
    let api = LiveTileApi { x: 2, y: 1, tiles: &tiles, width: 3, height: 2 };
    let sentinel = Tile::StaticTile(StaticTile::new(Color::new(255, 0, 0)));
    assert_eq!(api.get(1, 0), sentinel);
    assert_eq!(api.get(0, 1), sentinel);
    assert_eq!(api.get(-1, 0), Tile::Empty);
    assert_eq!(api.get(0, -1), Tile::Empty);
}

#[test]
fn neighbor_reads_the_anchored_offset() {
    let mut tiles: Vec<Tile> = vec![Tile::Empty; 9];
    let marked = Tile::StaticTile(StaticTile::new(Color::new(40, 41, 42)));
    // Cell (2, 1) of a 3-wide grid is index 5.
    tiles[5] = marked;
    let api = LiveTileApi { x: 1, y: 0, tiles: &tiles, width: 3, height: 3 };
    assert_eq!(api.get(1, 1), marked);
    assert!(api.is_empty(0, 1));
}

#[test]
fn tile_colors() {
    assert_eq!(Tile::Empty.get_color(), background_color());
    let s = Tile::StaticTile(StaticTile::new(Color::new(4, 5, 6)));
    assert_eq!(s.get_color(), Color::new(4, 5, 6));
    let w = Tile::LiveTile(LiveTile::new(LiveTileState::Water(WaterTile::new(Color::new(
        9, 9, 9,
    )))));
    assert_eq!(w.get_color(), Color::new(9, 9, 9));
    let live = LiveTile::new(LiveTileState::Sand(SandTile::new(Color::new(1, 1, 1))));
    assert_eq!(live.last_frame_updated, 0);
}
