//! Tests for the integrator: the two-body scenario, momentum cancellation,
//! sub-stepping and time reversal.

use heavens::gravity::Gravity;
use heavens::math::SCALE;
use heavens::nbody::NBody;
use heavens::vec3::Vec3;

/// One truncating division, as the engine computes it.
fn div_trunc(a: i128, b: i128) -> i128 {
    a / b
}

#[test]
fn two_body_step_matches_semi_implicit_euler() {
    // Masses 1.0 and about 1e-6 (one fixed-point quantum), a unit apart,
    // at rest, with g = 1, eps = 0.01 and dt = 0.001: the light particle
    // is pulled toward the heavy one with acceleration 1.0 exactly, the
    // heavy one feels one quantum, and the new state is the semi-implicit
    // Euler update computed in exact integer arithmetic.
    let g: i64 = SCALE;
    let eps: i64 = SCALE / 100;
    let dt: i64 = SCALE / 1000;
    let m0: i64 = SCALE;
    let m1: i64 = 1;
    let mut store = NBody::new();
    store.add_massive_particle(Vec3::new(0, 0, 0), Vec3::new(0, 0, 0), m0);
    store.add_massive_particle(Vec3::new(SCALE, 0, 0), Vec3::new(0, 0, 0), m1);
    let gravity = Gravity::new(g, eps, 1);

    let acc = gravity.massive_accelerations(&store).unwrap();
    let s = SCALE as i128;
    // Particle 1 is pulled toward particle 0 with magnitude g * m0 / 1^2 = 1.0.
    let a1 = div_trunc((g as i128) * (m0 as i128) * (-s) * s, s * s * s);
    assert_eq!(a1, -s);
    assert_eq!(acc[1], Vec3::new(a1 as i64, 0, 0));
    // Particle 0 is pulled the other way with magnitude g * m1 / 1^2.
    let a0 = div_trunc((g as i128) * (m1 as i128) * s * s, s * s * s);
    assert_eq!(a0, 1);
    assert_eq!(acc[0], Vec3::new(a0 as i64, 0, 0));

    gravity.evolve(&mut store, dt).unwrap();
    // Semi-implicit Euler: v += a * dt, then x += v * dt, truncating.
    let v1 = div_trunc(a1 * (dt as i128), s);
    let p1 = s + div_trunc(v1 * (dt as i128), s);
    let v0 = div_trunc(a0 * (dt as i128), s);
    let p0 = 0 + div_trunc(v0 * (dt as i128), s);
    assert_eq!(store.massive_velocities()[1], Vec3::new(v1 as i64, 0, 0));
    assert_eq!(store.massive_positions()[1], Vec3::new(p1 as i64, 0, 0));
    assert_eq!(store.massive_velocities()[0], Vec3::new(v0 as i64, 0, 0));
    assert_eq!(store.massive_positions()[0], Vec3::new(p0 as i64, 0, 0));
}

#[test]
fn equal_pair_conserves_momentum_exactly() {
    // Two equal masses at rest: their accelerations are exact negations,
    // so after any number of steps the total momentum stays exactly zero.
    let mut store = NBody::new();
    let m: i64 = 3 * SCALE;
    store.add_massive_particle(Vec3::new(-5 * SCALE, SCALE, 0), Vec3::new(0, 0, 0), m);
    store.add_massive_particle(Vec3::new(5 * SCALE, -SCALE, 0), Vec3::new(0, 0, 0), m);
    let gravity = Gravity::new(SCALE, SCALE / 10, 2);
    for _ in 0..5 {
        gravity.evolve(&mut store, SCALE / 16).unwrap();
        let v0 = store.massive_velocities()[0];
        let v1 = store.massive_velocities()[1];
        assert_eq!(v0.x + v1.x, 0);
        assert_eq!(v0.y + v1.y, 0);
        assert_eq!(v0.z + v1.z, 0);
    }
}

#[test]
fn ghosts_leave_massive_trajectories_bit_identical() {
    let build = |with_ghosts: bool| {
        let mut store = NBody::new();
        store.add_massive_particle(Vec3::new(0, 0, 0), Vec3::new(0, 0, 0), 4 * SCALE);
        store.add_massive_particle(Vec3::new(6 * SCALE, 0, 0), Vec3::new(0, 300, 0), 2 * SCALE);
        if with_ghosts {
            store.add_ghost_particle(Vec3::new(SCALE, SCALE, 0), Vec3::new(0, 0, 0), 1);
            store.add_ghost_particle(Vec3::new(-2 * SCALE, 0, 0), Vec3::new(5, 5, 5), 2);
        }
        store
    };
    let mut bare = build(false);
    let mut ghosted = build(true);
    let gravity = Gravity::new(SCALE, SCALE / 10, 3);
    for _ in 0..4 {
        gravity.evolve(&mut bare, SCALE / 8).unwrap();
        gravity.evolve(&mut ghosted, SCALE / 8).unwrap();
    }
    assert_eq!(bare.massive_positions(), ghosted.massive_positions());
    assert_eq!(bare.massive_velocities(), ghosted.massive_velocities());
}

#[test]
fn ghost_particles_are_accelerated() {
    let mut store = NBody::new();
    store.add_massive_particle(Vec3::new(0, 0, 0), Vec3::new(0, 0, 0), 10 * SCALE);
    store.add_ghost_particle(Vec3::new(3 * SCALE, 0, 0), Vec3::new(0, 0, 0), 1);
    let gravity = Gravity::new(SCALE, SCALE / 10, 1);
    gravity.evolve(&mut store, SCALE / 4).unwrap();
    // The ghost fell toward the massive particle.
    assert!(store.ghost_velocities()[0].x < 0);
    assert!(store.ghost_positions()[0].x < 3 * SCALE);
    // The massive particle did not move: ghosts exert nothing.
    assert_eq!(store.massive_positions()[0], Vec3::new(0, 0, 0));
    assert_eq!(store.massive_velocities()[0], Vec3::new(0, 0, 0));
}

#[test]
fn sub_stepping_splits_the_time_step() {
    // With sub_steps = 2 the engine performs two sub-advances of dt / 2:
    // doing that by hand with sub_steps = 1 gives the same state.
    let build = || {
        let mut store = NBody::new();
        store.add_massive_particle(Vec3::new(0, 0, 0), Vec3::new(0, 0, 0), 4 * SCALE);
        store.add_massive_particle(Vec3::new(5 * SCALE, 0, 0), Vec3::new(0, 500, 0), SCALE);
        store
    };
    let mut split = build();
    Gravity::new(SCALE, SCALE / 10, 2).evolve(&mut split, SCALE).unwrap();
    let mut manual = build();
    let whole = Gravity::new(SCALE, SCALE / 10, 1);
    whole.evolve(&mut manual, SCALE / 2).unwrap();
    whole.evolve(&mut manual, SCALE / 2).unwrap();
    assert_eq!(split.massive_positions(), manual.massive_positions());
    assert_eq!(split.massive_velocities(), manual.massive_velocities());
}

#[test]
fn negative_time_step_runs_backward() {
    let mut store = NBody::new();
    store.add_massive_particle(Vec3::new(0, 0, 0), Vec3::new(0, 0, 0), 10 * SCALE);
    store.add_massive_particle(Vec3::new(4 * SCALE, 0, 0), Vec3::new(0, 0, 0), 10 * SCALE);
    let gravity = Gravity::new(SCALE, SCALE / 10, 1);
    gravity.evolve(&mut store, -SCALE / 4).unwrap();
    // A pair released at rest is time-symmetric: backward in time it also
    // falls together, while the reversed velocities point apart.
    assert!(store.massive_velocities()[1].x > 0);
    assert!(store.massive_velocities()[0].x < 0);
    assert!(store.massive_positions()[1].x < 4 * SCALE);
    assert!(store.massive_positions()[0].x > 0);
}
