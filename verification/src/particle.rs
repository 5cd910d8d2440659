//! A single massive particle as a record: mass, position and velocity.

use vstd::prelude::*;

use crate::vec3::Vec3;

verus! {

/// Massive particle.
#[derive(Clone, Copy, PartialEq, Eq, Structural, Debug)]
pub struct Particle {
    /// Mass, fixed-point.
    pub mass: i64,
    /// Position.
    pub pos: Vec3,
    /// Velocity.
    pub vel: Vec3,
}

impl Particle {
    /// Construct a new instance.
    pub fn new(mass: i64, pos: Vec3, vel: Vec3) -> (p: Particle)
        ensures
            p == (Particle { mass, pos, vel }),
    {
        Particle { mass, pos, vel }
    }
}

} // verus!
