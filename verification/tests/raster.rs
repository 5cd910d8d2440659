//! Tests for the grid rasterizer.

use heavens::math::SCALE;
use heavens::nbody::NBody;
use heavens::random::RandomSource;
use heavens::vec3::Vec3;

#[test]
fn counts_land_in_the_right_cells() {
    let mut store = NBody::new();
    // Grid: 4 x 4 cells of width SCALE with lower corner at (0, 0).
    store.add_massive_particle(Vec3::new(0, 0, 0), Vec3::new(0, 0, 0), 1); // cell (0, 0)
    store.add_massive_particle(Vec3::new(SCALE / 2, 0, 0), Vec3::new(0, 0, 0), 1); // cell (0, 0)
    store.add_massive_particle(Vec3::new(SCALE, 0, 0), Vec3::new(0, 0, 0), 1); // cell (1, 0)
    store.add_massive_particle(Vec3::new(0, 3 * SCALE, 0), Vec3::new(0, 0, 0), 1); // cell (0, 3)
    store.add_ghost_particle(Vec3::new(SCALE, 0, 0), Vec3::new(0, 0, 0), 1); // cell (1, 0)
    store.add_ghost_particle(Vec3::new(-1, 0, 0), Vec3::new(0, 0, 0), 1); // outside
    store.add_ghost_particle(Vec3::new(4 * SCALE, 0, 0), Vec3::new(0, 0, 0), 1); // outside
    let grid = store.count(0, 0, SCALE, 4);
    assert_eq!(grid.len(), 16);
    assert_eq!(grid[0], 2); // (0, 0)
    assert_eq!(grid[1], 2); // (1, 0): one massive, one ghost
    assert_eq!(grid[3 * 4], 1); // (0, 3)
    let total: u64 = grid.iter().sum();
    assert_eq!(total, 5);
}

#[test]
fn z_coordinate_is_ignored() {
    let mut store = NBody::new();
    store.add_massive_particle(Vec3::new(SCALE / 2, SCALE / 2, 77 * SCALE), Vec3::new(0, 0, 0), 1);
    let grid = store.count(0, 0, SCALE, 2);
    assert_eq!(grid[0], 1);
}

#[test]
fn rasterizing_twice_gives_identical_grids() {
    let mut rng = RandomSource::from_seed(9);
    let mut store = NBody::new();
    store.add_massive_system(
        &mut rng,
        SCALE,
        Vec3::new(0, 0, 0),
        Vec3::new(0, 0, 0),
        100 * SCALE,
        10 * SCALE,
        SCALE,
        63,
    );
    store.add_ghost_field(
        &mut rng,
        Vec3::new(0, 0, 0),
        Vec3::new(0, 0, 0),
        100 * SCALE,
        10 * SCALE,
        128,
        SCALE,
    );
    let first = store.count(-100 * SCALE, -100 * SCALE, 10 * SCALE, 20);
    let second = store.count(-100 * SCALE, -100 * SCALE, 10 * SCALE, 20);
    assert_eq!(first, second);
    let total: u64 = first.iter().sum();
    assert_eq!(total, 64 + 128);
}
