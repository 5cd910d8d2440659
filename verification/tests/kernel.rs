//! Tests for the force kernel: the zero case, the softening cap, ghost
//! isolation and the fault path.

use heavens::gravity::Gravity;
use heavens::math::{GRAV_LIMIT, MASS_LIMIT, SCALE};
use heavens::nbody::NBody;
use heavens::vec3::Vec3;

#[test]
fn single_particle_feels_nothing() {
    let mut store = NBody::new();
    store.add_massive_particle(Vec3::new(3 * SCALE, -2 * SCALE, SCALE), Vec3::new(0, 0, 0), SCALE);
    let gravity = Gravity::new(SCALE, SCALE, 1);
    let acc = gravity.massive_accelerations(&store).unwrap();
    assert_eq!(acc.len(), 1);
    assert_eq!(acc[0], Vec3::new(0, 0, 0));
}

#[test]
fn softening_caps_close_encounters() {
    // Two particles much closer than the smoothing length: each
    // acceleration component stays within g * m * SCALE / eps^2, with no
    // singular blow-up.
    let eps: i64 = SCALE; // 1.0
    let mass: i64 = 100 * SCALE;
    let g: i64 = SCALE;
    let mut store = NBody::new();
    store.add_massive_particle(Vec3::new(0, 0, 0), Vec3::new(0, 0, 0), mass);
    store.add_massive_particle(Vec3::new(3, 0, 0), Vec3::new(0, 0, 0), mass);
    let gravity = Gravity::new(g, eps, 1);
    let acc = gravity.massive_accelerations(&store).unwrap();
    let cap: i128 = (g as i128) * (mass as i128) * (SCALE as i128) / ((eps as i128) * (eps as i128));
    for a in &acc {
        assert!((a.x as i128).abs() <= cap);
        assert!((a.y as i128).abs() <= cap);
        assert!((a.z as i128).abs() <= cap);
    }
    // Coincident particles exert a finite force: zero separation still works.
    let mut stacked = NBody::new();
    stacked.add_massive_particle(Vec3::new(0, 0, 0), Vec3::new(0, 0, 0), mass);
    stacked.add_massive_particle(Vec3::new(0, 0, 0), Vec3::new(0, 0, 0), mass);
    let acc2 = gravity.massive_accelerations(&stacked).unwrap();
    assert_eq!(acc2[0], Vec3::new(0, 0, 0));
    assert_eq!(acc2[1], Vec3::new(0, 0, 0));
}

#[test]
fn ghosts_never_alter_massive_accelerations() {
    // Two stores with identical massive groups and wildly different ghost
    // fields produce bit-identical massive accelerations.
    let build_massive = |store: &mut NBody| {
        store.add_massive_particle(Vec3::new(0, 0, 0), Vec3::new(0, 0, 0), 5 * SCALE);
        store.add_massive_particle(Vec3::new(10 * SCALE, 0, 0), Vec3::new(0, 0, 0), 3 * SCALE);
        store.add_massive_particle(Vec3::new(0, -7 * SCALE, 2 * SCALE), Vec3::new(0, 0, 0), SCALE);
    };
    let mut a = NBody::new();
    build_massive(&mut a);
    let mut b = NBody::new();
    build_massive(&mut b);
    b.add_ghost_particle(Vec3::new(SCALE, SCALE, SCALE), Vec3::new(9, 9, 9), 1);
    b.add_ghost_particle(Vec3::new(-4 * SCALE, 0, 0), Vec3::new(0, 0, 0), 2);
    let gravity = Gravity::new(SCALE, SCALE / 100, 1);
    let acc_a = gravity.massive_accelerations(&a).unwrap();
    let acc_b = gravity.massive_accelerations(&b).unwrap();
    assert_eq!(acc_a, acc_b);
}

#[test]
fn ghosts_feel_massive_but_not_each_other() {
    let mut a = NBody::new();
    a.add_massive_particle(Vec3::new(0, 0, 0), Vec3::new(0, 0, 0), 5 * SCALE);
    a.add_ghost_particle(Vec3::new(2 * SCALE, 0, 0), Vec3::new(0, 0, 0), 1);
    let mut b = NBody::new();
    b.add_massive_particle(Vec3::new(0, 0, 0), Vec3::new(0, 0, 0), 5 * SCALE);
    b.add_ghost_particle(Vec3::new(2 * SCALE, 0, 0), Vec3::new(0, 0, 0), 1);
    // A second ghost in one store only.
    b.add_ghost_particle(Vec3::new(2 * SCALE + 1, 0, 0), Vec3::new(0, 0, 0), 1);
    let gravity = Gravity::new(SCALE, SCALE / 10, 1);
    let acc_a = gravity.ghost_accelerations(&a).unwrap();
    let acc_b = gravity.ghost_accelerations(&b).unwrap();
    // The shared ghost's acceleration is identical in both stores.
    assert_eq!(acc_a[0], acc_b[0]);
    // And it is non-zero: ghosts do feel the massive particle.
    assert_ne!(acc_a[0], Vec3::new(0, 0, 0));
}

#[test]
fn unrepresentable_acceleration_is_a_fault() {
    // The heaviest allowed masses at the closest representable separation
    // with the smallest smoothing length overflow the representable
    // acceleration range: the kernel reports the fault rather than
    // propagating a corrupt value.
    let mut store = NBody::new();
    store.add_massive_particle(Vec3::new(0, 0, 0), Vec3::new(0, 0, 0), MASS_LIMIT);
    store.add_massive_particle(Vec3::new(1, 0, 0), Vec3::new(0, 0, 0), MASS_LIMIT);
    let gravity = Gravity::new(GRAV_LIMIT, 1, 1);
    assert!(gravity.massive_accelerations(&store).is_err());
    // The integrator refuses the same configuration and leaves the store
    // untouched.
    let mut evolved = store;
    let before_pos = evolved.massive_positions().clone();
    let before_vel = evolved.massive_velocities().clone();
    assert!(gravity.evolve(&mut evolved, SCALE).is_err());
    assert_eq!(evolved.massive_positions(), &before_pos);
    assert_eq!(evolved.massive_velocities(), &before_vel);
}
