//! The particle store: two independent groups of same-length flat arrays,
//! one for massive particles and one for ghosts, with the generators that
//! populate them.
//!
//! Massive particles carry a mass and both exert and feel gravity. Ghost
//! particles carry an opaque kind tag, feel gravity from the massive set
//! only, and never exert any. After construction the integrator mutates
//! positions and velocities in place; counts, masses and kinds are fixed.

use vstd::prelude::*;

use crate::math::{
    abs_i, div_trunc, int_sqrt, COORD_LIMIT, GRAV_LIMIT, MASS_LIMIT, ORBIT_SPEED_LIMIT, SCALE,
};
use crate::random::RandomSource;
use crate::vec3::{coord_in_range, Vec3};

verus! {

/// Particle-count granularity demanded by the data-parallel device dispatch:
/// each group's count must be an exact multiple of this.
pub const WORK_GROUP_SIZE: usize = 64;

/// The mathematical content of a store: the six flat arrays.
pub ghost struct StoreView {
    /// Massive positions.
    pub mpos: Seq<Vec3>,
    /// Massive velocities.
    pub mvel: Seq<Vec3>,
    /// Massive masses.
    pub mmass: Seq<i64>,
    /// Ghost positions.
    pub gpos: Seq<Vec3>,
    /// Ghost velocities.
    pub gvel: Seq<Vec3>,
    /// Ghost kind tags.
    pub gkind: Seq<i64>,
}

impl StoreView {
    /// Well-formedness: the arrays of each group agree in length, every
    /// coordinate is in the representable range, and every mass is
    /// non-negative and bounded. Constructors establish this and every
    /// mutation preserves it.
    pub open spec fn wf(self) -> bool {
        &&& self.mvel.len() == self.mpos.len()
        &&& self.mmass.len() == self.mpos.len()
        &&& self.gvel.len() == self.gpos.len()
        &&& self.gkind.len() == self.gpos.len()
        &&& forall|i: int| 0 <= i < self.mpos.len() ==> coord_in_range(#[trigger] self.mpos[i])
        &&& forall|i: int| 0 <= i < self.mvel.len() ==> coord_in_range(#[trigger] self.mvel[i])
        &&& forall|i: int|
            0 <= i < self.mmass.len() ==> 0 <= #[trigger] self.mmass[i] <= MASS_LIMIT
        &&& forall|i: int| 0 <= i < self.gpos.len() ==> coord_in_range(#[trigger] self.gpos[i])
        &&& forall|i: int| 0 <= i < self.gvel.len() ==> coord_in_range(#[trigger] self.gvel[i])
    }

    /// The conditions `is_valid` reports: both groups non-empty, counts
    /// aligned to the work-group size, and group-internal lengths equal.
    pub open spec fn valid(self) -> bool {
        &&& self.mpos.len() > 0
        &&& self.gpos.len() > 0
        &&& self.mpos.len() % (WORK_GROUP_SIZE as nat) == 0
        &&& self.gpos.len() % (WORK_GROUP_SIZE as nat) == 0
        &&& self.mvel.len() == self.mpos.len()
        &&& self.mmass.len() == self.mpos.len()
        &&& self.gvel.len() == self.gpos.len()
        &&& self.gkind.len() == self.gpos.len()
    }
}

/// Flat-array particle store for one simulated ensemble.
pub struct NBody {
    massive_positions: Vec<Vec3>,
    massive_velocities: Vec<Vec3>,
    massive_masses: Vec<i64>,
    ghost_positions: Vec<Vec3>,
    ghost_velocities: Vec<Vec3>,
    ghost_kinds: Vec<i64>,
}

impl View for NBody {
    type V = StoreView;

    closed spec fn view(&self) -> StoreView {
        StoreView {
            mpos: self.massive_positions@,
            mvel: self.massive_velocities@,
            mmass: self.massive_masses@,
            gpos: self.ghost_positions@,
            gvel: self.ghost_velocities@,
            gkind: self.ghost_kinds@,
        }
    }
}

impl NBody {
    /// An empty store; particles are added by the generators.
    pub fn new() -> (store: NBody)
        ensures
            store@.wf(),
            store@.mpos.len() == 0,
            store@.gpos.len() == 0,
    {
        NBody {
            massive_positions: Vec::new(),
            massive_velocities: Vec::new(),
            massive_masses: Vec::new(),
            ghost_positions: Vec::new(),
            ghost_velocities: Vec::new(),
            ghost_kinds: Vec::new(),
        }
    }

    /// Reports whether the store may be handed to the integrator: both
    /// groups non-empty, both counts multiples of the work-group size, and
    /// the arrays of each group equal in length.
    pub fn is_valid(&self) -> (r: bool)
        ensures
            r == self@.valid(),
    {
        let num_particles = self.massive_positions.len();
        let num_ghosts = self.ghost_positions.len();

        if num_particles == 0 {
            return false;
        }
        if num_ghosts == 0 {
            return false;
        }

        if num_particles % WORK_GROUP_SIZE != 0 {
            return false;
        }
        if num_ghosts % WORK_GROUP_SIZE != 0 {
            return false;
        }

        if self.massive_positions.len() != self.massive_masses.len()
            || self.massive_velocities.len() != self.massive_masses.len() {
            return false;
        }

        if self.ghost_positions.len() != self.ghost_kinds.len()
            || self.ghost_velocities.len() != self.ghost_kinds.len() {
            return false;
        }

        true
    }

    /// Massive positions, as a contiguous view.
    pub fn massive_positions(&self) -> (r: &Vec<Vec3>)
        ensures
            r@ == self@.mpos,
    {
        &self.massive_positions
    }

    /// Massive velocities, as a contiguous view.
    pub fn massive_velocities(&self) -> (r: &Vec<Vec3>)
        ensures
            r@ == self@.mvel,
    {
        &self.massive_velocities
    }

    /// Massive masses, as a contiguous view.
    pub fn massive_masses(&self) -> (r: &Vec<i64>)
        ensures
            r@ == self@.mmass,
    {
        &self.massive_masses
    }

    /// Number of massive particles.
    pub fn num_massive_particles(&self) -> (r: usize)
        ensures
            r == self@.mpos.len(),
    {
        self.massive_positions.len()
    }

    /// Ghost positions, as a contiguous view.
    pub fn ghost_positions(&self) -> (r: &Vec<Vec3>)
        ensures
            r@ == self@.gpos,
    {
        &self.ghost_positions
    }

    /// Ghost velocities, as a contiguous view.
    pub fn ghost_velocities(&self) -> (r: &Vec<Vec3>)
        ensures
            r@ == self@.gvel,
    {
        &self.ghost_velocities
    }

    /// Ghost kind tags, as a contiguous view.
    pub fn ghost_kinds(&self) -> (r: &Vec<i64>)
        ensures
            r@ == self@.gkind,
    {
        &self.ghost_kinds
    }

    /// Number of ghost particles.
    pub fn num_ghost_particles(&self) -> (r: usize)
        ensures
            r == self@.gpos.len(),
    {
        self.ghost_positions.len()
    }

    /// Appends one massive particle. The mass must be positive: a massless
    /// body belongs in the ghost group.
    pub fn add_massive_particle(&mut self, position: Vec3, velocity: Vec3, mass: i64)
        requires
            old(self)@.wf(),
            coord_in_range(position),
            coord_in_range(velocity),
            0 < mass <= MASS_LIMIT,
        ensures
            final(self)@.wf(),
            final(self)@.mpos == old(self)@.mpos.push(position),
            final(self)@.mvel == old(self)@.mvel.push(velocity),
            final(self)@.mmass == old(self)@.mmass.push(mass),
            final(self)@.gpos == old(self)@.gpos,
            final(self)@.gvel == old(self)@.gvel,
            final(self)@.gkind == old(self)@.gkind,
    {
        self.massive_positions.push(position);
        self.massive_velocities.push(velocity);
        self.massive_masses.push(mass);
    }

    /// Appends one ghost particle, tagged with an opaque kind.
    pub fn add_ghost_particle(&mut self, position: Vec3, velocity: Vec3, kind: i64)
        requires
            old(self)@.wf(),
            coord_in_range(position),
            coord_in_range(velocity),
        ensures
            final(self)@.wf(),
            final(self)@.gpos == old(self)@.gpos.push(position),
            final(self)@.gvel == old(self)@.gvel.push(velocity),
            final(self)@.gkind == old(self)@.gkind.push(kind),
            final(self)@.mpos == old(self)@.mpos,
            final(self)@.mvel == old(self)@.mvel,
            final(self)@.mmass == old(self)@.mmass,
    {
        self.ghost_positions.push(position);
        self.ghost_velocities.push(velocity);
        self.ghost_kinds.push(kind);
    }
}

/// The Keplerian circular-orbit speed about a single central mass at
/// distance `r`: the fixed-point form of `sqrt(central_mass / r)`. A
/// particle at the exact centre is given no orbital speed.
pub open spec fn kepler_speed(central_mass: int, r: int) -> int
    recommends
        r >= 0,
        central_mass >= 0,
{
    if r == 0 {
        0
    } else {
        int_sqrt(div_trunc(central_mass * SCALE * SCALE, r) as nat) as int
    }
}

/// The circular-orbit speed at distance `r` inside a uniform disc of total
/// mass `disc_mass` and radius `radius`: the fixed-point form of
/// `sqrt(g * enclosed_mass / r)` with the areal enclosed-mass law
/// `enclosed_mass = disc_mass * (r / radius)^2`, which simplifies to
/// `sqrt(g * disc_mass * r) / radius`.
pub open spec fn disc_speed(g: int, disc_mass: int, r: int, radius: int) -> int
    recommends
        g >= 0,
        disc_mass >= 0,
        r >= 0,
        radius >= 1,
{
    int_sqrt(div_trunc(g * disc_mass * r * SCALE, radius * radius) as nat) as int
}

/// The distance from `centre` to `p` within the disc plane.
pub open spec fn offset_norm(p: Vec3, centre: Vec3) -> int {
    let dx = p.x - centre.x;
    let dy = p.y - centre.y;
    int_sqrt((dx * dx + dy * dy) as nat) as int
}

/// `p` lies in the disc of the given radius about `centre`, in its plane.
pub open spec fn in_disc(p: Vec3, centre: Vec3, radius: int) -> bool {
    let dx = p.x - centre.x;
    let dy = p.y - centre.y;
    &&& p.z == centre.z
    &&& dx * dx + dy * dy <= radius * radius
}

/// `v` is the tangential circular-orbit velocity of the given speed at the
/// in-plane offset `(dx, dy)` of length `r`, plus the drift. The tangential
/// unit direction at angle `theta` is `(sin theta, -cos theta)`, that is
/// `(dy / r, -dx / r)`.
pub open spec fn orbit_velocity_ok(
    v: Vec3,
    drift: Vec3,
    speed: int,
    dx: int,
    dy: int,
    r: int,
) -> bool {
    if r == 0 {
        v == drift
    } else {
        &&& v.x == drift.x + div_trunc(speed * dy, r)
        &&& v.y == drift.y - div_trunc(speed * dx, r)
        &&& v.z == drift.z
    }
}

/// A particle on a Keplerian circular orbit about `centre`, inside the
/// given radius, drifting with `drift`.
pub open spec fn kepler_orbit_ok(
    p: Vec3,
    v: Vec3,
    centre: Vec3,
    drift: Vec3,
    radius: int,
    central_mass: int,
) -> bool {
    let dx = p.x - centre.x;
    let dy = p.y - centre.y;
    let r = offset_norm(p, centre);
    &&& in_disc(p, centre, radius)
    &&& orbit_velocity_ok(v, drift, kepler_speed(central_mass, r), dx, dy, r)
}

/// A particle on a circular orbit inside a self-gravitating uniform disc.
pub open spec fn disc_orbit_ok(
    p: Vec3,
    v: Vec3,
    g: int,
    centre: Vec3,
    drift: Vec3,
    radius: int,
    disc_mass: int,
) -> bool {
    let dx = p.x - centre.x;
    let dy = p.y - centre.y;
    let r = offset_norm(p, centre);
    &&& in_disc(p, centre, radius)
    &&& orbit_velocity_ok(v, drift, disc_speed(g, disc_mass, r, radius), dx, dy, r)
}

/// The geometric preconditions of the generators: the disc fits inside the
/// coordinate range, and the drift leaves room for the orbital speed.
pub open spec fn placement_fits(centre: Vec3, drift: Vec3, radius: int) -> bool {
    &&& 1 <= radius <= COORD_LIMIT
    &&& abs_i(centre.x as int) + radius <= COORD_LIMIT
    &&& abs_i(centre.y as int) + radius <= COORD_LIMIT
    &&& abs_i(centre.z as int) <= COORD_LIMIT
    &&& abs_i(drift.x as int) + ORBIT_SPEED_LIMIT <= COORD_LIMIT
    &&& abs_i(drift.y as int) + ORBIT_SPEED_LIMIT <= COORD_LIMIT
    &&& abs_i(drift.z as int) <= COORD_LIMIT
}

/// Draws an in-plane offset uniformly from the disc of the given radius, by
/// rejection from the bounding square. The fallback after a bounded number
/// of rejected draws is the centre itself, which lies in the disc.
fn sample_disc_offset(rng: &mut RandomSource, radius: i64) -> (d: (i64, i64))
    requires
        1 <= radius <= COORD_LIMIT,
    ensures
        -radius <= d.0 <= radius,
        -radius <= d.1 <= radius,
        d.0 * d.0 + d.1 * d.1 <= radius * radius,
{
    let mut dx: i64 = 0;
    let mut dy: i64 = 0;
    let mut found: bool = false;
    let mut attempt: usize = 0;
    while attempt < 16 && !found
        invariant
            1 <= radius <= COORD_LIMIT,
            attempt <= 16,
            -radius <= dx <= radius,
            -radius <= dy <= radius,
            dx * dx + dy * dy <= radius * radius,
        decreases 16 - attempt,
    {
        let cx = rng.next_offset(radius);
        let cy = rng.next_offset(radius);
        proof {
            crate::math::lemma_mul_bound(cx as int, cx as int, radius as int, radius as int);
            crate::math::lemma_mul_bound(cy as int, cy as int, radius as int, radius as int);
            crate::math::lemma_mul_bound(radius as int, radius as int, COORD_LIMIT as int,
                COORD_LIMIT as int);
        }
        if (cx as i128) * (cx as i128) + (cy as i128) * (cy as i128)
            <= (radius as i128) * (radius as i128) {
            dx = cx;
            dy = cy;
            found = true;
        }
        attempt = attempt + 1;
    }
    (dx, dy)
}

/// Places one particle on a Keplerian circular orbit: a point drawn
/// uniformly from the disc about `centre`, with the tangential velocity
/// that `kepler_speed` assigns at its sampled distance, plus `drift`.
fn sample_kepler_orbit(
    rng: &mut RandomSource,
    centre: Vec3,
    drift: Vec3,
    radius: i64,
    central_mass: i64,
) -> (pv: (Vec3, Vec3))
    requires
        placement_fits(centre, drift, radius as int),
        0 <= central_mass <= MASS_LIMIT,
    ensures
        kepler_orbit_ok(pv.0, pv.1, centre, drift, radius as int, central_mass as int),
        coord_in_range(pv.0),
        coord_in_range(pv.1),
{
    let (dx, dy) = sample_disc_offset(rng, radius);
    let p = Vec3 { x: centre.x + dx, y: centre.y + dy, z: centre.z };
    proof {
        crate::math::lemma_mul_bound(dx as int, dx as int, COORD_LIMIT as int, COORD_LIMIT as int);
        crate::math::lemma_mul_bound(dy as int, dy as int, COORD_LIMIT as int, COORD_LIMIT as int);
        crate::math::lemma_square_nonneg(dx as int);
        crate::math::lemma_square_nonneg(dy as int);
    }
    let nsq: i128 = (dx as i128) * (dx as i128) + (dy as i128) * (dy as i128);
    let r64: u64 = crate::math::isqrt_u128(nsq as u128);
    let vx: i64;
    let vy: i64;
    if r64 == 0 {
        vx = drift.x;
        vy = drift.y;
    } else {
        let num: i128 = (central_mass as i128) * (SCALE as i128) * (SCALE as i128);
        let t: i128 = crate::math::div_trunc_i128(num, r64 as i128);
        proof {
            crate::math::lemma_div_le_numerator(num as int, r64 as int);
            crate::math::lemma_int_sqrt_below(t as nat, 0x4000000000u64 as nat);  // 2^38
            crate::math::lemma_int_sqrt_dominates_component(dx as int, nsq as nat);
            crate::math::lemma_int_sqrt_dominates_component(dy as int, nsq as nat);
        }
        let speed: u64 = crate::math::isqrt_u128(t as u128);
        proof {
            crate::math::lemma_mul_bound(speed as int, dy as int, 0x4000000000i64 as int,
                COORD_LIMIT as int);
            crate::math::lemma_mul_bound(speed as int, dx as int, 0x4000000000i64 as int,
                COORD_LIMIT as int);
            crate::math::lemma_tangential_component_bound(speed as int, dy as int, r64 as int);
            crate::math::lemma_tangential_component_bound(speed as int, dx as int, r64 as int);
        }
        let qx: i128 = crate::math::div_trunc_i128((speed as i128) * (dy as i128), r64 as i128);
        let qy: i128 = crate::math::div_trunc_i128((speed as i128) * (dx as i128), r64 as i128);
        vx = drift.x + (qx as i64);
        vy = drift.y - (qy as i64);
    }
    let v = Vec3 { x: vx, y: vy, z: drift.z };
    (p, v)
}

/// Places one particle on a circular orbit inside a uniform
/// self-gravitating disc, with the speed that `disc_speed` assigns.
fn sample_disc_orbit(
    rng: &mut RandomSource,
    grav_const: i64,
    centre: Vec3,
    drift: Vec3,
    radius: i64,
    disc_mass: i64,
) -> (pv: (Vec3, Vec3))
    requires
        placement_fits(centre, drift, radius as int),
        SCALE <= radius,
        1 <= grav_const <= GRAV_LIMIT,
        0 <= disc_mass <= MASS_LIMIT,
    ensures
        disc_orbit_ok(pv.0, pv.1, grav_const as int, centre, drift, radius as int,
            disc_mass as int),
        coord_in_range(pv.0),
        coord_in_range(pv.1),
{
    let (dx, dy) = sample_disc_offset(rng, radius);
    let p = Vec3 { x: centre.x + dx, y: centre.y + dy, z: centre.z };
    proof {
        crate::math::lemma_mul_bound(dx as int, dx as int, COORD_LIMIT as int, COORD_LIMIT as int);
        crate::math::lemma_mul_bound(dy as int, dy as int, COORD_LIMIT as int, COORD_LIMIT as int);
        crate::math::lemma_square_nonneg(dx as int);
        crate::math::lemma_square_nonneg(dy as int);
    }
    let nsq: i128 = (dx as i128) * (dx as i128) + (dy as i128) * (dy as i128);
    let r64: u64 = crate::math::isqrt_u128(nsq as u128);
    let vx: i64;
    let vy: i64;
    if r64 == 0 {
        vx = drift.x;
        vy = drift.y;
    } else {
        proof {
            crate::math::lemma_mul_bound(grav_const as int, disc_mass as int, 0x4000_0000int,
                0x8_0000_0000int);
            crate::math::lemma_int_sqrt_dominates_component(dx as int, nsq as nat);
            crate::math::lemma_int_sqrt_dominates_component(dy as int, nsq as nat);
            crate::math::lemma_square_nonneg(radius as int);
            crate::math::lemma_int_sqrt_le(nsq as nat, (radius * radius) as nat);
            assert(radius * radius < (radius + 1) * (radius + 1)) by (nonlinear_arith)
                requires
                    radius >= 1,
            ;
            crate::math::lemma_int_sqrt_unique((radius * radius) as nat, radius as nat);
        }
        let gms: i128 = (grav_const as i128) * (disc_mass as i128) * (SCALE as i128);
        proof {
            crate::math::lemma_mul_bound((grav_const as int) * (disc_mass as int), SCALE as int,
                0x2_0000_0000_0000_0000int, 0x10_0000int);
            crate::math::lemma_mul_bound(gms as int, r64 as int,
                0x2000000000000000000000i128 as int, COORD_LIMIT as int);  // 2^85
            crate::math::lemma_mul_bound(radius as int, radius as int, COORD_LIMIT as int,
                COORD_LIMIT as int);
        }
        let num: i128 = gms * (r64 as i128);
        let den: i128 = (radius as i128) * (radius as i128);
        let t: i128 = crate::math::div_trunc_i128(num, den);
        proof {
            crate::math::lemma_div_scaled_radius(gms as int, r64 as int, radius as int);
            vstd::arithmetic::div_mod::lemma_div_is_ordered_by_denominator(gms as int,
                SCALE as int, radius as int);
            vstd::arithmetic::div_mod::lemma_div_is_ordered(gms as int,
                0x2000_0000_0000_0000_0000_0000int, SCALE as int);
            assert(gms * r64 == grav_const * disc_mass * r64 * SCALE) by (nonlinear_arith)
                requires
                    gms == grav_const * disc_mass * SCALE,
            ;
            crate::math::lemma_int_sqrt_below(t as nat, 0x40_0000_0000u64 as nat);  // 2^38
        }
        let speed: u64 = crate::math::isqrt_u128(t as u128);
        proof {
            crate::math::lemma_mul_bound(speed as int, dy as int, ORBIT_SPEED_LIMIT as int,
                COORD_LIMIT as int);
            crate::math::lemma_mul_bound(speed as int, dx as int, ORBIT_SPEED_LIMIT as int,
                COORD_LIMIT as int);
            crate::math::lemma_tangential_component_bound(speed as int, dy as int, r64 as int);
            crate::math::lemma_tangential_component_bound(speed as int, dx as int, r64 as int);
        }
        let qx: i128 = crate::math::div_trunc_i128((speed as i128) * (dy as i128), r64 as i128);
        let qy: i128 = crate::math::div_trunc_i128((speed as i128) * (dx as i128), r64 as i128);
        vx = drift.x + (qx as i64);
        vy = drift.y - (qy as i64);
    }
    let v = Vec3 { x: vx, y: vy, z: drift.z };
    (p, v)
}

impl NBody {
    /// Replaces the positions and velocities of both groups in one step,
    /// keeping counts, masses and kinds; this is the integrator's single
    /// point of mutation, used only once a whole step has been computed.
    pub(crate) fn replace_motion(
        &mut self,
        mpos: Vec<Vec3>,
        mvel: Vec<Vec3>,
        gpos: Vec<Vec3>,
        gvel: Vec<Vec3>,
    )
        requires
            old(self)@.wf(),
            mpos@.len() == old(self)@.mpos.len(),
            mvel@.len() == old(self)@.mpos.len(),
            gpos@.len() == old(self)@.gpos.len(),
            gvel@.len() == old(self)@.gpos.len(),
            forall|i: int| 0 <= i < mpos@.len() ==> coord_in_range(#[trigger] mpos@[i]),
            forall|i: int| 0 <= i < mvel@.len() ==> coord_in_range(#[trigger] mvel@[i]),
            forall|i: int| 0 <= i < gpos@.len() ==> coord_in_range(#[trigger] gpos@[i]),
            forall|i: int| 0 <= i < gvel@.len() ==> coord_in_range(#[trigger] gvel@[i]),
        ensures
            final(self)@.wf(),
            final(self)@ == (StoreView {
                mpos: mpos@,
                mvel: mvel@,
                mmass: old(self)@.mmass,
                gpos: gpos@,
                gvel: gvel@,
                gkind: old(self)@.gkind,
            }),
    {
        self.massive_positions = mpos;
        self.massive_velocities = mvel;
        self.ghost_positions = gpos;
        self.ghost_velocities = gvel;
    }

    /// Populates the massive group with `num_particles` particles drawn
    /// uniformly by area from a disc about `centre`, each of mass
    /// `disc_mass / num_particles`, on the circular orbit that the
    /// enclosed-mass law `disc_speed` implies at its sampled distance,
    /// drifting with `drift`.
    pub fn add_massive_disc(
        &mut self,
        rng: &mut RandomSource,
        grav_const: i64,
        centre: Vec3,
        drift: Vec3,
        radius: i64,
        disc_mass: i64,
        num_particles: usize,
    )
        requires
            old(self)@.wf(),
            1 <= grav_const <= GRAV_LIMIT,
            placement_fits(centre, drift, radius as int),
            SCALE <= radius,
            0 <= disc_mass <= MASS_LIMIT,
            num_particles >= 1,
        ensures
            final(self)@.wf(),
            final(self)@.gpos == old(self)@.gpos,
            final(self)@.gvel == old(self)@.gvel,
            final(self)@.gkind == old(self)@.gkind,
            final(self)@.mpos.len() == old(self)@.mpos.len() + num_particles,
            final(self)@.mvel.len() == final(self)@.mpos.len(),
            final(self)@.mmass.len() == final(self)@.mpos.len(),
            forall|k: int|
                0 <= k < old(self)@.mpos.len() ==> #[trigger] final(self)@.mpos[k]
                    == old(self)@.mpos[k],
            forall|k: int|
                0 <= k < old(self)@.mpos.len() ==> #[trigger] final(self)@.mvel[k]
                    == old(self)@.mvel[k],
            forall|k: int|
                0 <= k < old(self)@.mpos.len() ==> #[trigger] final(self)@.mmass[k]
                    == old(self)@.mmass[k],
            forall|k: int|
                old(self)@.mpos.len() <= k < final(self)@.mpos.len() ==> disc_orbit_ok(
                    #[trigger] final(self)@.mpos[k],
                    final(self)@.mvel[k],
                    grav_const as int,
                    centre,
                    drift,
                    radius as int,
                    disc_mass as int,
                ),
            forall|k: int|
                old(self)@.mpos.len() <= k < final(self)@.mpos.len() ==> #[trigger] final(self)@.mmass[k] == div_trunc(disc_mass as int, num_particles as int),
    {
        let m_each: i64 = ((disc_mass as u64) / (num_particles as u64)) as i64;
        proof {
            crate::math::lemma_div_le_numerator(disc_mass as int, num_particles as int);
        }
        let mut i: usize = 0;
        while i < num_particles
            invariant
                self@.wf(),
                1 <= grav_const <= GRAV_LIMIT,
                placement_fits(centre, drift, radius as int),
                SCALE <= radius,
                0 <= disc_mass <= MASS_LIMIT,
                num_particles >= 1,
                i <= num_particles,
                0 <= m_each <= MASS_LIMIT,
                m_each == div_trunc(disc_mass as int, num_particles as int),
                self@.gpos == old(self)@.gpos,
                self@.gvel == old(self)@.gvel,
                self@.gkind == old(self)@.gkind,
                self@.mpos.len() == old(self)@.mpos.len() + i,
                self@.mvel.len() == self@.mpos.len(),
                self@.mmass.len() == self@.mpos.len(),
                forall|k: int|
                    0 <= k < old(self)@.mpos.len() ==> #[trigger] self@.mpos[k]
                        == old(self)@.mpos[k],
                forall|k: int|
                    0 <= k < old(self)@.mpos.len() ==> #[trigger] self@.mvel[k]
                        == old(self)@.mvel[k],
                forall|k: int|
                    0 <= k < old(self)@.mpos.len() ==> #[trigger] self@.mmass[k]
                        == old(self)@.mmass[k],
                forall|k: int|
                    old(self)@.mpos.len() <= k < self@.mpos.len() ==> disc_orbit_ok(
                        #[trigger] self@.mpos[k],
                        self@.mvel[k],
                        grav_const as int,
                        centre,
                        drift,
                        radius as int,
                        disc_mass as int,
                    ),
                forall|k: int|
                    old(self)@.mpos.len() <= k < self@.mpos.len() ==> #[trigger] self@.mmass[k]
                        == m_each,
            decreases num_particles - i,
        {
            let (p, v) = sample_disc_orbit(rng, grav_const, centre, drift, radius, disc_mass);
            let ghost spos = self@.mpos;
            let ghost svel = self@.mvel;
            let ghost sthird = self@.mmass;
            self.massive_positions.push(p);
            self.massive_velocities.push(v);
            self.massive_masses.push(m_each);
            proof {
                assert(self@.mpos == spos.push(p));
                assert(self@.mvel == svel.push(v));
                assert(self@.mmass == sthird.push(m_each));
                assert(self@.mpos[spos.len() as int] == p);
                assert(self@.mvel[spos.len() as int] == v);
                assert(self@.mmass[spos.len() as int] == m_each);
                assert forall|k: int| 0 <= k < spos.len() implies self@.mpos[k] == spos[k]
                    && self@.mvel[k] == svel[k] && self@.mmass[k] == sthird[k] by {}
            }
            i = i + 1;
        }
    }

    /// Places one particle of `centre_mass` at `centre` moving with
    /// `drift`, then scatters `num_particles` particles of mass
    /// `disc_mass / num_particles` uniformly by area inside `radius`, each
    /// on the Keplerian circular orbit about the central mass at its
    /// sampled distance. The gravitational constant does not enter the
    /// Keplerian speed law used here.
    pub fn add_massive_system(
        &mut self,
        rng: &mut RandomSource,
        _grav_const: i64,
        centre: Vec3,
        drift: Vec3,
        radius: i64,
        centre_mass: i64,
        disc_mass: i64,
        num_particles: usize,
    )
        requires
            old(self)@.wf(),
            placement_fits(centre, drift, radius as int),
            0 <= centre_mass <= MASS_LIMIT,
            0 <= disc_mass <= MASS_LIMIT,
            num_particles >= 1,
        ensures
            final(self)@.wf(),
            final(self)@.gpos == old(self)@.gpos,
            final(self)@.gvel == old(self)@.gvel,
            final(self)@.gkind == old(self)@.gkind,
            final(self)@.mpos.len() == old(self)@.mpos.len() + num_particles + 1,
            final(self)@.mvel.len() == final(self)@.mpos.len(),
            final(self)@.mmass.len() == final(self)@.mpos.len(),
            forall|k: int|
                0 <= k < old(self)@.mpos.len() ==> #[trigger] final(self)@.mpos[k]
                    == old(self)@.mpos[k],
            forall|k: int|
                0 <= k < old(self)@.mpos.len() ==> #[trigger] final(self)@.mvel[k]
                    == old(self)@.mvel[k],
            forall|k: int|
                0 <= k < old(self)@.mpos.len() ==> #[trigger] final(self)@.mmass[k]
                    == old(self)@.mmass[k],
            final(self)@.mpos[old(self)@.mpos.len() as int] == centre,
            final(self)@.mvel[old(self)@.mpos.len() as int] == drift,
            final(self)@.mmass[old(self)@.mpos.len() as int] == centre_mass,
            forall|k: int|
                old(self)@.mpos.len() + 1 <= k < final(self)@.mpos.len() ==> kepler_orbit_ok(
                    #[trigger] final(self)@.mpos[k],
                    final(self)@.mvel[k],
                    centre,
                    drift,
                    radius as int,
                    centre_mass as int,
                ),
            forall|k: int|
                old(self)@.mpos.len() + 1 <= k < final(self)@.mpos.len() ==> #[trigger] final(self)@.mmass[k] == div_trunc(disc_mass as int, num_particles as int),
    {
        let m_each: i64 = ((disc_mass as u64) / (num_particles as u64)) as i64;
        proof {
            crate::math::lemma_div_le_numerator(disc_mass as int, num_particles as int);
        }
        self.massive_positions.push(centre);
        self.massive_velocities.push(drift);
        self.massive_masses.push(centre_mass);
        let mut i: usize = 0;
        while i < num_particles
            invariant
                self@.wf(),
                placement_fits(centre, drift, radius as int),
                0 <= centre_mass <= MASS_LIMIT,
                0 <= disc_mass <= MASS_LIMIT,
                num_particles >= 1,
                i <= num_particles,
                0 <= m_each <= MASS_LIMIT,
                m_each == div_trunc(disc_mass as int, num_particles as int),
                self@.gpos == old(self)@.gpos,
                self@.gvel == old(self)@.gvel,
                self@.gkind == old(self)@.gkind,
                self@.mpos.len() == old(self)@.mpos.len() + i + 1,
                self@.mvel.len() == self@.mpos.len(),
                self@.mmass.len() == self@.mpos.len(),
                forall|k: int|
                    0 <= k < old(self)@.mpos.len() ==> #[trigger] self@.mpos[k]
                        == old(self)@.mpos[k],
                forall|k: int|
                    0 <= k < old(self)@.mpos.len() ==> #[trigger] self@.mvel[k]
                        == old(self)@.mvel[k],
                forall|k: int|
                    0 <= k < old(self)@.mpos.len() ==> #[trigger] self@.mmass[k]
                        == old(self)@.mmass[k],
                self@.mpos[old(self)@.mpos.len() as int] == centre,
                self@.mvel[old(self)@.mpos.len() as int] == drift,
                self@.mmass[old(self)@.mpos.len() as int] == centre_mass,
                forall|k: int|
                    old(self)@.mpos.len() + 1 <= k < self@.mpos.len() ==> kepler_orbit_ok(
                        #[trigger] self@.mpos[k],
                        self@.mvel[k],
                        centre,
                        drift,
                        radius as int,
                        centre_mass as int,
                    ),
                forall|k: int|
                    old(self)@.mpos.len() + 1 <= k < self@.mpos.len() ==> #[trigger] self@.mmass[k] == m_each,
            decreases num_particles - i,
        {
            let (p, v) = sample_kepler_orbit(rng, centre, drift, radius, centre_mass);
            let ghost spos = self@.mpos;
            let ghost svel = self@.mvel;
            let ghost sthird = self@.mmass;
            self.massive_positions.push(p);
            self.massive_velocities.push(v);
            self.massive_masses.push(m_each);
            proof {
                assert(self@.mpos == spos.push(p));
                assert(self@.mvel == svel.push(v));
                assert(self@.mmass == sthird.push(m_each));
                assert(self@.mpos[spos.len() as int] == p);
                assert(self@.mvel[spos.len() as int] == v);
                assert(self@.mmass[spos.len() as int] == m_each);
                assert forall|k: int| 0 <= k < spos.len() implies self@.mpos[k] == spos[k]
                    && self@.mvel[k] == svel[k] && self@.mmass[k] == sthird[k] by {}
            }
            i = i + 1;
        }
    }

    /// Populates the ghost group with `num_particles` massless particles
    /// drawn uniformly by area from a disc about `centre`, each tagged
    /// with `kind` and placed on the Keplerian circular orbit that a single
    /// assumed central mass implies at its sampled distance.
    pub fn add_ghost_field(
        &mut self,
        rng: &mut RandomSource,
        centre: Vec3,
        drift: Vec3,
        radius: i64,
        centre_mass: i64,
        num_particles: usize,
        kind: i64,
    )
        requires
            old(self)@.wf(),
            placement_fits(centre, drift, radius as int),
            0 <= centre_mass <= MASS_LIMIT,
            num_particles >= 1,
        ensures
            final(self)@.wf(),
            final(self)@.mpos == old(self)@.mpos,
            final(self)@.mvel == old(self)@.mvel,
            final(self)@.mmass == old(self)@.mmass,
            final(self)@.gpos.len() == old(self)@.gpos.len() + num_particles,
            final(self)@.gvel.len() == final(self)@.gpos.len(),
            final(self)@.gkind.len() == final(self)@.gpos.len(),
            forall|k: int|
                0 <= k < old(self)@.gpos.len() ==> #[trigger] final(self)@.gpos[k]
                    == old(self)@.gpos[k],
            forall|k: int|
                0 <= k < old(self)@.gpos.len() ==> #[trigger] final(self)@.gvel[k]
                    == old(self)@.gvel[k],
            forall|k: int|
                0 <= k < old(self)@.gpos.len() ==> #[trigger] final(self)@.gkind[k]
                    == old(self)@.gkind[k],
            forall|k: int|
                old(self)@.gpos.len() <= k < final(self)@.gpos.len() ==> kepler_orbit_ok(
                    #[trigger] final(self)@.gpos[k],
                    final(self)@.gvel[k],
                    centre,
                    drift,
                    radius as int,
                    centre_mass as int,
                ),
            forall|k: int|
                old(self)@.gpos.len() <= k < final(self)@.gpos.len() ==> #[trigger] final(self)@.gkind[k] == kind,
    {
        let mut i: usize = 0;
        while i < num_particles
            invariant
                self@.wf(),
                placement_fits(centre, drift, radius as int),
                0 <= centre_mass <= MASS_LIMIT,
                num_particles >= 1,
                i <= num_particles,
                self@.mpos == old(self)@.mpos,
                self@.mvel == old(self)@.mvel,
                self@.mmass == old(self)@.mmass,
                self@.gpos.len() == old(self)@.gpos.len() + i,
                self@.gvel.len() == self@.gpos.len(),
                self@.gkind.len() == self@.gpos.len(),
                forall|k: int|
                    0 <= k < old(self)@.gpos.len() ==> #[trigger] self@.gpos[k]
                        == old(self)@.gpos[k],
                forall|k: int|
                    0 <= k < old(self)@.gpos.len() ==> #[trigger] self@.gvel[k]
                        == old(self)@.gvel[k],
                forall|k: int|
                    0 <= k < old(self)@.gpos.len() ==> #[trigger] self@.gkind[k]
                        == old(self)@.gkind[k],
                forall|k: int|
                    old(self)@.gpos.len() <= k < self@.gpos.len() ==> kepler_orbit_ok(
                        #[trigger] self@.gpos[k],
                        self@.gvel[k],
                        centre,
                        drift,
                        radius as int,
                        centre_mass as int,
                    ),
                forall|k: int|
                    old(self)@.gpos.len() <= k < self@.gpos.len() ==> #[trigger] self@.gkind[k]
                        == kind,
            decreases num_particles - i,
        {
            let (p, v) = sample_kepler_orbit(rng, centre, drift, radius, centre_mass);
            let ghost spos = self@.gpos;
            let ghost svel = self@.gvel;
            let ghost sthird = self@.gkind;
            self.ghost_positions.push(p);
            self.ghost_velocities.push(v);
            self.ghost_kinds.push(kind);
            proof {
                assert(self@.gpos == spos.push(p));
                assert(self@.gvel == svel.push(v));
                assert(self@.gkind == sthird.push(kind));
                assert(self@.gpos[spos.len() as int] == p);
                assert(self@.gvel[spos.len() as int] == v);
                assert(self@.gkind[spos.len() as int] == kind);
                assert forall|k: int| 0 <= k < spos.len() implies self@.gpos[k] == spos[k]
                    && self@.gvel[k] == svel[k] && self@.gkind[k] == sthird[k] by {}
            }
            i = i + 1;
        }
    }
}

} // verus!
