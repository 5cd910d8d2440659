//! Tests for settings, the particle record and the random source.

use heavens::math::SCALE;
use heavens::particle::Particle;
use heavens::random::RandomSource;
use heavens::settings::Settings;
use heavens::vec3::Vec3;

fn base_settings() -> Settings {
    Settings {
        display_width: 1300 * SCALE,
        display_height: 1300 * SCALE,
        pixel_size: SCALE,
        gravitational_constant: SCALE,
        time_step: 10 * SCALE,
        smoothing_length: SCALE,
        ghost_mass: SCALE,
        ghost_stack_visible_limit: 4 * SCALE,
        blur_radius: 5 * SCALE,
    }
}

#[test]
fn settings_accept_a_sound_configuration() {
    assert!(base_settings().is_valid());
}

#[test]
fn settings_reject_each_bad_field() {
    let mut s = base_settings();
    s.display_width = 0;
    assert!(!s.is_valid());
    let mut s = base_settings();
    s.gravitational_constant = -SCALE;
    assert!(!s.is_valid());
    let mut s = base_settings();
    s.time_step = 0;
    assert!(!s.is_valid());
    let mut s = base_settings();
    s.smoothing_length = 0;
    assert!(!s.is_valid());
    let mut s = base_settings();
    // Less than one ghost per full-brightness stack makes no sense.
    s.ghost_stack_visible_limit = SCALE / 2;
    assert!(!s.is_valid());
    let mut s = base_settings();
    s.blur_radius = -1;
    assert!(!s.is_valid());
}

#[test]
fn particle_new_keeps_its_fields() {
    let p = Particle::new(5 * SCALE, Vec3::new(1, 2, 3), Vec3::new(4, 5, 6));
    assert_eq!(p.mass, 5 * SCALE);
    assert_eq!(p.pos, Vec3::new(1, 2, 3));
    assert_eq!(p.vel, Vec3::new(4, 5, 6));
}

#[test]
fn random_draws_stay_below_their_bound() {
    let mut rng = RandomSource::from_seed(123);
    for _ in 0..200 {
        assert!(rng.next_below(5) < 5);
        assert_eq!(rng.next_below(1), 0);
    }
    let mut rng = RandomSource::from_seed(7);
    for _ in 0..200 {
        let r = rng.next_offset(10 * SCALE);
        assert!(-10 * SCALE <= r && r <= 10 * SCALE);
    }
}

#[test]
fn equal_seeds_draw_equal_streams() {
    let mut a = RandomSource::from_seed(99);
    let mut b = RandomSource::from_seed(99);
    for _ in 0..50 {
        assert_eq!(a.next_below(1_000_000), b.next_below(1_000_000));
    }
}
