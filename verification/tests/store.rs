//! Tests for the particle store: construction, accessors and validity.

use heavens::math::SCALE;
use heavens::nbody::NBody;
use heavens::random::RandomSource;
use heavens::vec3::Vec3;

fn vec3(x: i64, y: i64, z: i64) -> Vec3 {
    Vec3::new(x, y, z)
}

#[test]
fn new_store_is_empty() {
    let store = NBody::new();
    assert_eq!(store.num_massive_particles(), 0);
    assert_eq!(store.num_ghost_particles(), 0);
    assert!(!store.is_valid());
}

#[test]
fn add_massive_particle_appends() {
    let mut store = NBody::new();
    store.add_massive_particle(vec3(1, 2, 3), vec3(4, 5, 6), 7);
    assert_eq!(store.num_massive_particles(), 1);
    assert_eq!(store.massive_positions()[0], vec3(1, 2, 3));
    assert_eq!(store.massive_velocities()[0], vec3(4, 5, 6));
    assert_eq!(store.massive_masses()[0], 7);
    assert_eq!(store.num_ghost_particles(), 0);
}

#[test]
fn add_ghost_particle_appends() {
    let mut store = NBody::new();
    store.add_ghost_particle(vec3(-1, -2, -3), vec3(0, 0, 0), 5 * SCALE);
    assert_eq!(store.num_ghost_particles(), 1);
    assert_eq!(store.ghost_positions()[0], vec3(-1, -2, -3));
    assert_eq!(store.ghost_velocities()[0], vec3(0, 0, 0));
    assert_eq!(store.ghost_kinds()[0], 5 * SCALE);
    assert_eq!(store.num_massive_particles(), 0);
}

#[test]
fn is_valid_requires_work_group_multiples() {
    let mut store = NBody::new();
    for _ in 0..64 {
        store.add_massive_particle(vec3(0, 0, 0), vec3(0, 0, 0), 1);
    }
    // Massive group aligned, ghost group still empty.
    assert!(!store.is_valid());
    for _ in 0..64 {
        store.add_ghost_particle(vec3(0, 0, 0), vec3(0, 0, 0), 0);
    }
    assert!(store.is_valid());
    // One more massive particle breaks the alignment.
    store.add_massive_particle(vec3(0, 0, 0), vec3(0, 0, 0), 1);
    assert!(!store.is_valid());
}

#[test]
fn ghost_field_off_alignment_invalidates_store() {
    // A ghost count that is not a multiple of the lane-group width must be
    // reported before any evolve call is permitted.
    let mut rng = RandomSource::from_seed(11);
    let mut store = NBody::new();
    store.add_massive_system(
        &mut rng,
        SCALE,
        Vec3::new(0, 0, 0),
        Vec3::new(0, 0, 0),
        1000 * SCALE,
        10 * SCALE,
        SCALE,
        63,
    );
    assert_eq!(store.num_massive_particles(), 64);
    store.add_ghost_field(
        &mut rng,
        Vec3::new(0, 0, 0),
        Vec3::new(0, 0, 0),
        1000 * SCALE,
        10 * SCALE,
        63,
        SCALE,
    );
    assert_eq!(store.num_ghost_particles(), 63);
    assert!(!store.is_valid());
    store.add_ghost_particle(Vec3::new(0, 0, 0), Vec3::new(0, 0, 0), SCALE);
    assert!(store.is_valid());
}
