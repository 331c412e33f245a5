//! Particle layer scenarios: integration arithmetic, settling into the
//! grid, and destruction at the world edge or on a failed settle search.

use powpowder::Color;
use powpowder::TilePosition;
use powpowder::background_color;
use powpowder::particle::Particle;
use powpowder::tile::StaticTile;
use powpowder::tile::Tile;
use powpowder::world::World;

fn stone() -> Tile {
    Tile::StaticTile(StaticTile::new(Color::new(48, 47, 43)))
}

#[test]
fn airborne_particle_integrates_gravity_and_damping() {
    // In an empty column the particle keeps moving; one tick turns a zero
    // vertical speed into (0 + 10) * 99 / 100 = 9 millicells per tick and
    // moves the particle by it.
    let mut world = World::new(background_color(), 1, 10);
    world.add_particle(Particle::new(stone(), 0, 0, 0, 0));
    world.update(1);
    let particles = world.particles();
    assert_eq!(particles.len(), 1);
    assert_eq!(particles[0].vy_mil, 9);
    assert_eq!(particles[0].y_mil, 9);
    assert_eq!(particles[0].vx_mil, 0);
    assert_eq!(particles[0].x_mil, 0);
}

#[test]
fn particle_settles_two_rows_above_obstruction() {
    // A column whose three bottom cells are static, with the particle
    // hovering inside the topmost static cell's row neighborhood: the
    // bounded upward search walks over the filled cells and freezes the
    // particle into the first empty cell, two rows above the obstruction
    // top, and removes it from the list.
    let mut world = World::new(background_color(), 1, 6);
    for y in 3..6 {
        world.set_tile(TilePosition::new(0, y), stone());
    }
    let payload = Tile::StaticTile(StaticTile::new(Color::new(120, 10, 10)));
    world.add_particle(Particle::new(payload, 0, 3000, 0, 0));
    world.update(1);
    assert_eq!(world.particles().len(), 0);
    assert_eq!(world.get_tile(TilePosition::new(0, 2)), payload);
    assert_eq!(world.get_tile(TilePosition::new(0, 1)), Tile::Empty);
    assert_eq!(world.get_tile(TilePosition::new(0, 0)), Tile::Empty);
}

#[test]
fn particle_leaving_the_world_is_destroyed() {
    // A strong upward velocity carries the particle above row zero; it must
    // be destroyed without materializing anywhere.
    let mut world = World::new(background_color(), 2, 2);
    world.add_particle(Particle::new(stone(), 0, 0, 0, -2000));
    world.update(1);
    assert_eq!(world.particles().len(), 0);
    for y in 0..2 {
        for x in 0..2 {
            assert_eq!(world.get_tile(TilePosition::new(x, y)), Tile::Empty);
        }
    }
}

#[test]
fn particle_with_no_room_is_destroyed() {
    // Every cell of the column is static, so the bounded settle search
    // finds nothing and the particle is silently destroyed; the grid is
    // left as it was.
    let mut world = World::new(background_color(), 1, 4);
    for y in 0..4 {
        world.set_tile(TilePosition::new(0, y), stone());
    }
    world.add_particle(Particle::new(stone(), 0, 1000, 0, 0));
    world.update(1);
    assert_eq!(world.particles().len(), 0);
    for y in 0..4 {
        assert_eq!(world.get_tile(TilePosition::new(0, y)), stone());
    }
}

#[test]
fn settled_tile_matches_payload_color_in_frame() {
    let mut world = World::new(background_color(), 1, 3);
    world.set_tile(TilePosition::new(0, 2), stone());
    let payload = Tile::StaticTile(StaticTile::new(Color::new(200, 30, 40)));
    world.add_particle(Particle::new(payload, 0, 1000, 0, 0));
    world.update(1);
    assert_eq!(world.particles().len(), 0);
    assert_eq!(world.get_tile(TilePosition::new(0, 1)), payload);
    let frame = world.frame_bytes();
    assert_eq!(frame[1 * 4], 200);
    assert_eq!(frame[1 * 4 + 1], 30);
    assert_eq!(frame[1 * 4 + 2], 40);
    assert_eq!(frame[1 * 4 + 3], 255);
}
