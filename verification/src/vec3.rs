//! Three-component vectors: the executable fixed-point form and its
//! unbounded ghost counterpart used in specifications.

use vstd::prelude::*;

verus! {

/// A point or direction in simulation space, one fixed-point scalar per axis.
#[derive(Clone, Copy, PartialEq, Eq, Structural, Debug)]
pub struct Vec3 {
    pub x: i64,
    pub y: i64,
    pub z: i64,
}

impl Vec3 {
    /// Construct a vector from its components.
    pub fn new(x: i64, y: i64, z: i64) -> (v: Vec3)
        ensures
            v == (Vec3 { x, y, z }),
    {
        Vec3 { x, y, z }
    }
}

/// A vector of unbounded integers, for stating exact sums and forces.
pub ghost struct V3 {
    pub x: int,
    pub y: int,
    pub z: int,
}

/// The zero vector.
pub open spec fn v3_zero() -> V3 {
    V3 { x: 0, y: 0, z: 0 }
}

/// Componentwise sum.
pub open spec fn v3_add(a: V3, b: V3) -> V3 {
    V3 { x: a.x + b.x, y: a.y + b.y, z: a.z + b.z }
}

/// Componentwise negation.
pub open spec fn v3_neg(a: V3) -> V3 {
    V3 { x: -a.x, y: -a.y, z: -a.z }
}

/// Every component fits the coordinate range of the store.
pub open spec fn coord_in_range(v: Vec3) -> bool {
    &&& -crate::math::COORD_LIMIT <= v.x <= crate::math::COORD_LIMIT
    &&& -crate::math::COORD_LIMIT <= v.y <= crate::math::COORD_LIMIT
    &&& -crate::math::COORD_LIMIT <= v.z <= crate::math::COORD_LIMIT
}

} // verus!
