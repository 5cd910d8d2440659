//! Tests for the initial-condition generators.

use heavens::math::SCALE;
use heavens::nbody::NBody;
use heavens::random::RandomSource;
use heavens::vec3::Vec3;

const RADIUS: i64 = 1000 * SCALE;
const CENTRE_MASS: i64 = 10 * SCALE;

#[test]
fn disc_splits_mass_evenly() {
    let mut rng = RandomSource::from_seed(1);
    let mut store = NBody::new();
    store.add_massive_disc(
        &mut rng,
        SCALE,
        Vec3::new(0, 0, 0),
        Vec3::new(0, 0, 0),
        RADIUS,
        1000,
        10,
    );
    assert_eq!(store.num_massive_particles(), 10);
    for i in 0..10 {
        assert_eq!(store.massive_masses()[i], 100);
    }
}

#[test]
fn disc_particles_lie_inside_radius() {
    let mut rng = RandomSource::from_seed(2);
    let centre = Vec3::new(5 * SCALE, -3 * SCALE, 7 * SCALE);
    let mut store = NBody::new();
    store.add_massive_disc(
        &mut rng,
        SCALE,
        centre,
        Vec3::new(0, 0, 0),
        RADIUS,
        1000,
        200,
    );
    for i in 0..200 {
        let p = store.massive_positions()[i];
        let dx = (p.x - centre.x) as i128;
        let dy = (p.y - centre.y) as i128;
        assert!(dx * dx + dy * dy <= (RADIUS as i128) * (RADIUS as i128));
        assert_eq!(p.z, centre.z);
    }
}

#[test]
fn system_places_central_body_first() {
    let mut rng = RandomSource::from_seed(3);
    let centre = Vec3::new(SCALE, 2 * SCALE, 3 * SCALE);
    let drift = Vec3::new(100, -200, 300);
    let mut store = NBody::new();
    store.add_massive_system(&mut rng, SCALE, centre, drift, RADIUS, CENTRE_MASS, 1000, 5);
    assert_eq!(store.num_massive_particles(), 6);
    assert_eq!(store.massive_positions()[0], centre);
    assert_eq!(store.massive_velocities()[0], drift);
    assert_eq!(store.massive_masses()[0], CENTRE_MASS);
    for i in 1..6 {
        assert_eq!(store.massive_masses()[i], 200);
    }
}

#[test]
fn system_orbit_speed_is_keplerian() {
    // A single scattered particle's speed equals sqrt(central_mass / r) at
    // its sampled distance r, up to fixed-point rounding.
    let mut rng = RandomSource::from_seed(4);
    let mut store = NBody::new();
    store.add_massive_system(
        &mut rng,
        SCALE,
        Vec3::new(0, 0, 0),
        Vec3::new(0, 0, 0),
        RADIUS,
        CENTRE_MASS,
        0,
        1,
    );
    assert_eq!(store.num_massive_particles(), 2);
    assert_eq!(store.massive_masses()[1], 0);
    let p = store.massive_positions()[1];
    let v = store.massive_velocities()[1];
    let rf = ((p.x as f64).hypot(p.y as f64)) / SCALE as f64;
    assert!(rf > 1.0, "sampled radius too small for a meaningful check: {rf}");
    let speed = ((v.x as f64).hypot(v.y as f64)) / SCALE as f64;
    let expected = (CENTRE_MASS as f64 / SCALE as f64 / rf).sqrt();
    let rel = (speed - expected).abs() / expected;
    assert!(rel < 1e-3, "speed {speed} expected {expected}");
    // The orbit is tangential: velocity is perpendicular to the offset.
    let dot = (p.x as f64) * (v.x as f64) + (p.y as f64) * (v.y as f64);
    let norms = (p.x as f64).hypot(p.y as f64) * (v.x as f64).hypot(v.y as f64);
    assert!((dot / norms).abs() < 1e-3);
}

#[test]
fn ghost_field_tags_every_particle() {
    let mut rng = RandomSource::from_seed(5);
    let mut store = NBody::new();
    store.add_ghost_field(
        &mut rng,
        Vec3::new(0, 0, 0),
        Vec3::new(10, 20, 30),
        RADIUS,
        CENTRE_MASS,
        50,
        7 * SCALE,
    );
    assert_eq!(store.num_ghost_particles(), 50);
    for i in 0..50 {
        assert_eq!(store.ghost_kinds()[i], 7 * SCALE);
        let p = store.ghost_positions()[i];
        let dx = p.x as i128;
        let dy = p.y as i128;
        assert!(dx * dx + dy * dy <= (RADIUS as i128) * (RADIUS as i128));
        assert_eq!(p.z, 0);
    }
    assert_eq!(store.num_massive_particles(), 0);
}

#[test]
fn same_seed_reproduces_the_same_field() {
    let build = || {
        let mut rng = RandomSource::from_seed(42);
        let mut store = NBody::new();
        store.add_massive_disc(
            &mut rng,
            SCALE,
            Vec3::new(0, 0, 0),
            Vec3::new(0, 0, 0),
            RADIUS,
            1000 * SCALE,
            64,
        );
        store
    };
    let a = build();
    let b = build();
    assert_eq!(a.massive_positions(), b.massive_positions());
    assert_eq!(a.massive_velocities(), b.massive_velocities());
}
