//! The gravitational force kernel and the semi-implicit Euler integrator.
//!
//! The kernel computes, for each target point, the softened pairwise
//! acceleration summed over all massive source particles: the fixed-point
//! form of `a = g * sum_j m_j * (p_j - p) / max(|p_j - p|, eps)^3`. Massive
//! particles skip their own index; ghost particles sum over every massive
//! source and are never sources themselves.
//!
//! Any acceleration component or updated coordinate that leaves the
//! representable range is a fatal numerical fault, reported as a
//! [`SimulationFault`]; the store is then left exactly as it was.

use vstd::prelude::*;

use crate::math::{
    abs_i, div_trunc, int_sqrt, COORD_LIMIT, GRAV_LIMIT, MASS_LIMIT, SCALE, TIME_LIMIT,
};
use crate::nbody::{NBody, StoreView};
use crate::vec3::{coord_in_range, v3_add, v3_zero, Vec3, V3};

verus! {

/// Fatal numerical failure: a value left the representable range, the
/// integer counterpart of a non-finite floating-point value. The
/// simulation state it would have produced is discarded.
#[derive(Clone, Copy, PartialEq, Eq, Structural, Debug)]
pub struct SimulationFault;

/// The softened acceleration one source particle contributes at a point:
/// `g * mass * d * SCALE / s^3` per component, where `d` is the
/// displacement toward the source and `s` is its length, raised to the
/// smoothing length `eps` when the two are closer than that.
pub open spec fn accel_term(g: int, eps: int, src: Vec3, mass: i64, at: Vec3) -> V3 {
    let dx = src.x - at.x;
    let dy = src.y - at.y;
    let dz = src.z - at.z;
    let nsq = dx * dx + dy * dy + dz * dz;
    let r = int_sqrt(nsq as nat) as int;
    let s = if r < eps {
        eps
    } else {
        r
    };
    let den = s * s * s;
    V3 {
        x: div_trunc(g * mass * dx * SCALE, den),
        y: div_trunc(g * mass * dy * SCALE, den),
        z: div_trunc(g * mass * dz * SCALE, den),
    }
}

/// The exact sum of the first `n` source terms at a point, skipping the
/// source at index `skip` (pass a negative index to skip none).
pub open spec fn accel_sum(
    g: int,
    eps: int,
    mpos: Seq<Vec3>,
    mmass: Seq<i64>,
    at: Vec3,
    skip: int,
    n: int,
) -> V3
    decreases n,
{
    if n <= 0 {
        v3_zero()
    } else {
        let prev = accel_sum(g, eps, mpos, mmass, at, skip, n - 1);
        if n - 1 == skip {
            prev
        } else {
            v3_add(prev, accel_term(g, eps, mpos[n - 1], mmass[n - 1], at))
        }
    }
}

/// The total acceleration at a point from all massive sources.
pub open spec fn accel_of(
    g: int,
    eps: int,
    mpos: Seq<Vec3>,
    mmass: Seq<i64>,
    at: Vec3,
    skip: int,
) -> V3 {
    accel_sum(g, eps, mpos, mmass, at, skip, mpos.len() as int)
}

/// Every component of the vector fits a 64-bit signed integer.
pub open spec fn v3_in_i64(a: V3) -> bool {
    &&& i64::MIN <= a.x <= i64::MAX
    &&& i64::MIN <= a.y <= i64::MAX
    &&& i64::MIN <= a.z <= i64::MAX
}

/// Every component of the vector is a representable coordinate.
pub open spec fn v3_coord_ok(a: V3) -> bool {
    &&& -COORD_LIMIT <= a.x <= COORD_LIMIT
    &&& -COORD_LIMIT <= a.y <= COORD_LIMIT
    &&& -COORD_LIMIT <= a.z <= COORD_LIMIT
}

/// The i64 vector a representable exact vector denotes.
pub open spec fn vec3_of(a: V3) -> Vec3
    recommends
        v3_in_i64(a),
{
    Vec3 { x: a.x as i64, y: a.y as i64, z: a.z as i64 }
}

/// The acceleration at a point is representable: every contributing term
/// and the total fit a 64-bit integer. This is the kernel's success
/// condition for that point.
pub open spec fn point_ok(
    g: int,
    eps: int,
    mpos: Seq<Vec3>,
    mmass: Seq<i64>,
    at: Vec3,
    skip: int,
) -> bool {
    &&& forall|j: int|
        0 <= j < mpos.len() && j != skip ==> v3_in_i64(
            #[trigger] accel_term(g, eps, mpos[j], mmass[j], at),
        )
    &&& v3_in_i64(accel_of(g, eps, mpos, mmass, at, skip))
}

/// Well-formed kernel sources: lengths agree, coordinates and masses in
/// range.
pub open spec fn sources_wf(mpos: Seq<Vec3>, mmass: Seq<i64>) -> bool {
    &&& mmass.len() == mpos.len()
    &&& forall|j: int| 0 <= j < mpos.len() ==> coord_in_range(#[trigger] mpos[j])
    &&& forall|j: int| 0 <= j < mmass.len() ==> 0 <= #[trigger] mmass[j] <= MASS_LIMIT
}

/// The skip index a kernel call uses: the particle's own index for a
/// massive target, none for a ghost target.
pub open spec fn skip_of(skip: Option<usize>) -> int {
    match skip {
        Some(s) => s as int,
        None => -1,
    }
}

/// Computes the total softened acceleration at one point, as the exact
/// integer sum over all massive sources, or reports that some term or the
/// total is not representable.
fn accel_at_point(
    g: i64,
    eps: i64,
    mpos: &Vec<Vec3>,
    mmass: &Vec<i64>,
    at: Vec3,
    skip: Option<usize>,
) -> (r: Result<Vec3, SimulationFault>)
    requires
        1 <= g <= GRAV_LIMIT,
        1 <= eps <= COORD_LIMIT,
        sources_wf(mpos@, mmass@),
        coord_in_range(at),
    ensures
        match r {
            Ok(a) => point_ok(g as int, eps as int, mpos@, mmass@, at, skip_of(skip)) && a
                == vec3_of(accel_of(g as int, eps as int, mpos@, mmass@, at, skip_of(skip))),
            Err(_) => !point_ok(g as int, eps as int, mpos@, mmass@, at, skip_of(skip)),
        },
{
    let ghost sk: int = skip_of(skip);
    let n = mpos.len();
    let mut ax: i128 = 0;
    let mut ay: i128 = 0;
    let mut az: i128 = 0;
    let mut j: usize = 0;
    while j < n
        invariant
            1 <= g <= GRAV_LIMIT,
            1 <= eps <= COORD_LIMIT,
            sources_wf(mpos@, mmass@),
            coord_in_range(at),
            n == mpos@.len(),
            sk == skip_of(skip),
            j <= n,
            ax == accel_sum(g as int, eps as int, mpos@, mmass@, at, sk, j as int).x,
            ay == accel_sum(g as int, eps as int, mpos@, mmass@, at, sk, j as int).y,
            az == accel_sum(g as int, eps as int, mpos@, mmass@, at, sk, j as int).z,
            -(j as int) * 0x8000_0000_0000_0000 <= ax <= (j as int) * 0x8000_0000_0000_0000,
            -(j as int) * 0x8000_0000_0000_0000 <= ay <= (j as int) * 0x8000_0000_0000_0000,
            -(j as int) * 0x8000_0000_0000_0000 <= az <= (j as int) * 0x8000_0000_0000_0000,
            forall|k: int|
                0 <= k < j && k != sk ==> v3_in_i64(
                    #[trigger] accel_term(g as int, eps as int, mpos@[k], mmass@[k], at),
                ),
        decreases n - j,
    {
        let is_skip = match skip {
            Some(s) => j == s,
            None => false,
        };
        if !is_skip {
            let src = mpos[j];
            let mass = mmass[j];
            let dx = src.x - at.x;
            let dy = src.y - at.y;
            let dz = src.z - at.z;
            proof {
                crate::math::lemma_mul_bound(dx as int, dx as int, 2 * COORD_LIMIT as int,
                    2 * COORD_LIMIT as int);
                crate::math::lemma_mul_bound(dy as int, dy as int, 2 * COORD_LIMIT as int,
                    2 * COORD_LIMIT as int);
                crate::math::lemma_mul_bound(dz as int, dz as int, 2 * COORD_LIMIT as int,
                    2 * COORD_LIMIT as int);
                crate::math::lemma_square_nonneg(dx as int);
                crate::math::lemma_square_nonneg(dy as int);
                crate::math::lemma_square_nonneg(dz as int);
            }
            let nsq: i128 = (dx as i128) * (dx as i128) + (dy as i128) * (dy as i128) + (dz
                as i128) * (dz as i128);
            let r64: u64 = crate::math::isqrt_u128(nsq as u128);
            proof {
                crate::math::lemma_int_sqrt_below(nsq as nat, 0x400_0000_0000u64 as nat);
            }
            let s: i64 = if r64 < (eps as u64) {
                eps
            } else {
                r64 as i64
            };
            proof {
                crate::math::lemma_mul_bound(s as int, s as int, 0x400_0000_0000int,
                    0x400_0000_0000int);
                crate::math::lemma_mul_bound(
                    (s as int) * (s as int),
                    s as int,
                    0x400_0000_0000int * 0x400_0000_0000int,
                    0x400_0000_0000int,
                );
                crate::math::lemma_cube_pos(s as int);
            }
            let den: i128 = (s as i128) * (s as i128) * (s as i128);
            proof {
                crate::math::lemma_mul_bound(g as int, mass as int, GRAV_LIMIT as int,
                    MASS_LIMIT as int);
            }
            let gm: i128 = (g as i128) * (mass as i128);
            proof {
                crate::math::lemma_mul_bound(gm as int, dx as int, 0x2_0000_0000_0000_0000int,
                    0x200_0000_0000int);
                crate::math::lemma_mul_bound(gm as int, dy as int, 0x2_0000_0000_0000_0000int,
                    0x200_0000_0000int);
                crate::math::lemma_mul_bound(gm as int, dz as int, 0x2_0000_0000_0000_0000int,
                    0x200_0000_0000int);
                crate::math::lemma_mul_bound((gm as int) * (dx as int), SCALE as int,
                    0x4000_0000_0000_0000_0000_0000_0000int, SCALE as int);
                crate::math::lemma_mul_bound((gm as int) * (dy as int), SCALE as int,
                    0x4000_0000_0000_0000_0000_0000_0000int, SCALE as int);
                crate::math::lemma_mul_bound((gm as int) * (dz as int), SCALE as int,
                    0x4000_0000_0000_0000_0000_0000_0000int, SCALE as int);
            }
            let qx: i128 = crate::math::div_trunc_i128(gm * (dx as i128) * (SCALE as i128), den);
            let qy: i128 = crate::math::div_trunc_i128(gm * (dy as i128) * (SCALE as i128), den);
            let qz: i128 = crate::math::div_trunc_i128(gm * (dz as i128) * (SCALE as i128), den);
            if qx > (i64::MAX as i128) || qx < (i64::MIN as i128) || qy > (i64::MAX as i128) || qy
                < (i64::MIN as i128) || qz > (i64::MAX as i128) || qz < (i64::MIN as i128) {
                proof {
                    assert(!v3_in_i64(accel_term(g as int, eps as int, mpos@[j as int],
                        mmass@[j as int], at)));
                }
                return Err(SimulationFault);
            }
            ax = ax + qx;
            ay = ay + qy;
            az = az + qz;
        }
        j = j + 1;
    }
    if ax > (i64::MAX as i128) || ax < (i64::MIN as i128) || ay > (i64::MAX as i128) || ay
        < (i64::MIN as i128) || az > (i64::MAX as i128) || az < (i64::MIN as i128) {
        return Err(SimulationFault);
    }
    Ok(Vec3 { x: ax as i64, y: ay as i64, z: az as i64 })
}

/// Semi-implicit Euler velocity update: the velocity gains `a * dt`,
/// before the position moves.
pub open spec fn new_vel(u: Vec3, a: V3, dt: int) -> V3 {
    V3 {
        x: u.x + div_trunc(a.x * dt, SCALE as int),
        y: u.y + div_trunc(a.y * dt, SCALE as int),
        z: u.z + div_trunc(a.z * dt, SCALE as int),
    }
}

/// Semi-implicit Euler position update: the position moves by the already
/// updated velocity times `dt`.
pub open spec fn new_pos(p: Vec3, nv: V3, dt: int) -> V3 {
    V3 {
        x: p.x + div_trunc(nv.x * dt, SCALE as int),
        y: p.y + div_trunc(nv.y * dt, SCALE as int),
        z: p.z + div_trunc(nv.z * dt, SCALE as int),
    }
}

/// One massive particle passes a sub-step: its acceleration is
/// representable and neither its new velocity nor its new position leaves
/// the coordinate range.
pub open spec fn massive_index_ok(
    g: int,
    eps: int,
    mpos: Seq<Vec3>,
    mvel: Seq<Vec3>,
    mmass: Seq<i64>,
    dt: int,
    i: int,
) -> bool {
    let a = accel_of(g, eps, mpos, mmass, mpos[i], i);
    let nv = new_vel(mvel[i], a, dt);
    &&& point_ok(g, eps, mpos, mmass, mpos[i], i)
    &&& v3_coord_ok(nv)
    &&& v3_coord_ok(new_pos(mpos[i], nv, dt))
}

/// One ghost particle passes a sub-step, under the massive sources.
pub open spec fn ghost_index_ok(
    g: int,
    eps: int,
    mpos: Seq<Vec3>,
    mmass: Seq<i64>,
    gpos: Seq<Vec3>,
    gvel: Seq<Vec3>,
    dt: int,
    i: int,
) -> bool {
    let a = accel_of(g, eps, mpos, mmass, gpos[i], -1);
    let nv = new_vel(gvel[i], a, dt);
    &&& point_ok(g, eps, mpos, mmass, gpos[i], -1)
    &&& v3_coord_ok(nv)
    &&& v3_coord_ok(new_pos(gpos[i], nv, dt))
}

/// Every massive particle passes the sub-step.
pub open spec fn massive_step_ok(
    g: int,
    eps: int,
    mpos: Seq<Vec3>,
    mvel: Seq<Vec3>,
    mmass: Seq<i64>,
    dt: int,
) -> bool {
    forall|i: int|
        0 <= i < mpos.len() ==> #[trigger] massive_index_ok(g, eps, mpos, mvel, mmass, dt, i)
}

/// Every ghost particle passes the sub-step.
pub open spec fn ghost_step_ok(
    g: int,
    eps: int,
    mpos: Seq<Vec3>,
    mmass: Seq<i64>,
    gpos: Seq<Vec3>,
    gvel: Seq<Vec3>,
    dt: int,
) -> bool {
    forall|i: int|
        0 <= i < gpos.len() ==> #[trigger] ghost_index_ok(g, eps, mpos, mmass, gpos, gvel, dt, i)
}

/// The massive velocities after one sub-step.
pub open spec fn massive_next_vel(
    g: int,
    eps: int,
    mpos: Seq<Vec3>,
    mvel: Seq<Vec3>,
    mmass: Seq<i64>,
    dt: int,
) -> Seq<Vec3> {
    Seq::new(
        mpos.len(),
        |i: int| vec3_of(new_vel(mvel[i], accel_of(g, eps, mpos, mmass, mpos[i], i), dt)),
    )
}

/// The massive positions after one sub-step.
pub open spec fn massive_next_pos(
    g: int,
    eps: int,
    mpos: Seq<Vec3>,
    mvel: Seq<Vec3>,
    mmass: Seq<i64>,
    dt: int,
) -> Seq<Vec3> {
    Seq::new(
        mpos.len(),
        |i: int|
            vec3_of(
                new_pos(mpos[i], new_vel(mvel[i], accel_of(g, eps, mpos, mmass, mpos[i], i), dt),
                dt),
            ),
    )
}

/// The ghost velocities after one sub-step, driven by the massive sources
/// at their positions before the step.
pub open spec fn ghost_next_vel(
    g: int,
    eps: int,
    mpos: Seq<Vec3>,
    mmass: Seq<i64>,
    gpos: Seq<Vec3>,
    gvel: Seq<Vec3>,
    dt: int,
) -> Seq<Vec3> {
    Seq::new(
        gpos.len(),
        |i: int| vec3_of(new_vel(gvel[i], accel_of(g, eps, mpos, mmass, gpos[i], -1), dt)),
    )
}

/// The ghost positions after one sub-step.
pub open spec fn ghost_next_pos(
    g: int,
    eps: int,
    mpos: Seq<Vec3>,
    mmass: Seq<i64>,
    gpos: Seq<Vec3>,
    gvel: Seq<Vec3>,
    dt: int,
) -> Seq<Vec3> {
    Seq::new(
        gpos.len(),
        |i: int|
            vec3_of(
                new_pos(gpos[i], new_vel(gvel[i], accel_of(g, eps, mpos, mmass, gpos[i], -1), dt),
                dt),
            ),
    )
}

/// Every particle of the store passes the sub-step.
pub open spec fn sub_step_ok(v: StoreView, g: int, eps: int, dt: int) -> bool {
    &&& massive_step_ok(g, eps, v.mpos, v.mvel, v.mmass, dt)
    &&& ghost_step_ok(g, eps, v.mpos, v.mmass, v.gpos, v.gvel, dt)
}

/// The store after one sub-step: both kernels are evaluated at the old
/// massive positions, then velocities advance, then positions. Masses and
/// kinds pass through.
pub open spec fn sub_step(v: StoreView, g: int, eps: int, dt: int) -> StoreView {
    StoreView {
        mpos: massive_next_pos(g, eps, v.mpos, v.mvel, v.mmass, dt),
        mvel: massive_next_vel(g, eps, v.mpos, v.mvel, v.mmass, dt),
        mmass: v.mmass,
        gpos: ghost_next_pos(g, eps, v.mpos, v.mmass, v.gpos, v.gvel, dt),
        gvel: ghost_next_vel(g, eps, v.mpos, v.mmass, v.gpos, v.gvel, dt),
        gkind: v.gkind,
    }
}

/// The store after `k` sub-steps, or nothing if any of them faults.
pub open spec fn evolve_steps(v: StoreView, g: int, eps: int, dt: int, k: int) -> Option<
    StoreView,
>
    decreases k,
{
    if k <= 0 {
        Some(v)
    } else {
        match evolve_steps(v, g, eps, dt, k - 1) {
            Some(w) => if sub_step_ok(w, g, eps, dt) {
                Some(sub_step(w, g, eps, dt))
            } else {
                None
            },
            None => None,
        }
    }
}

/// Once a sub-step faults, every longer run faults.
pub proof fn lemma_evolve_none_propagates(
    v: StoreView,
    g: int,
    eps: int,
    dt: int,
    k: int,
    n: int,
)
    requires
        0 <= k <= n,
        evolve_steps(v, g, eps, dt, k) is None,
    ensures
        evolve_steps(v, g, eps, dt, n) is None,
    decreases n - k,
{
    if k < n {
        lemma_evolve_none_propagates(v, g, eps, dt, k, n - 1);
    }
}

/// Copies a coordinate vector; the integrator works on copies and commits
/// them only when a whole step has succeeded.
fn copy_vec3(src: &Vec<Vec3>) -> (r: Vec<Vec3>)
    ensures
        r@ == src@,
{
    let mut r: Vec<Vec3> = Vec::new();
    let mut i: usize = 0;
    while i < src.len()
        invariant
            i <= src@.len(),
            r@ == src@.take(i as int),
        decreases src@.len() - i,
    {
        r.push(src[i]);
        proof {
            assert(r@ =~= src@.take(i + 1));
        }
        i = i + 1;
    }
    proof {
        assert(src@.take(src@.len() as int) =~= src@);
    }
    r
}

/// Advances one velocity by `a * dt`, or reports that the result leaves
/// the coordinate range.
fn apply_vel(u: Vec3, a: Vec3, dt: i64, av: Ghost<V3>) -> (res: Option<Vec3>)
    requires
        coord_in_range(u),
        -TIME_LIMIT <= dt <= TIME_LIMIT,
        v3_in_i64(av@),
        a == vec3_of(av@),
    ensures
        match res {
            Some(w) => w == vec3_of(new_vel(u, av@, dt as int)) && v3_coord_ok(
                new_vel(u, av@, dt as int),
            ) && coord_in_range(w),
            None => !v3_coord_ok(new_vel(u, av@, dt as int)),
        },
{
    proof {
        crate::math::lemma_mul_bound(a.x as int, dt as int, 0x8000_0000_0000_0000int,
            TIME_LIMIT as int);
        crate::math::lemma_mul_bound(a.y as int, dt as int, 0x8000_0000_0000_0000int,
            TIME_LIMIT as int);
        crate::math::lemma_mul_bound(a.z as int, dt as int, 0x8000_0000_0000_0000int,
            TIME_LIMIT as int);
    }
    let nvx: i128 = (u.x as i128) + crate::math::div_trunc_i128(
        (a.x as i128) * (dt as i128),
        SCALE as i128,
    );
    let nvy: i128 = (u.y as i128) + crate::math::div_trunc_i128(
        (a.y as i128) * (dt as i128),
        SCALE as i128,
    );
    let nvz: i128 = (u.z as i128) + crate::math::div_trunc_i128(
        (a.z as i128) * (dt as i128),
        SCALE as i128,
    );
    if nvx > (COORD_LIMIT as i128) || nvx < (-COORD_LIMIT as i128) || nvy > (COORD_LIMIT as i128)
        || nvy < (-COORD_LIMIT as i128) || nvz > (COORD_LIMIT as i128) || nvz
        < (-COORD_LIMIT as i128) {
        None
    } else {
        Some(Vec3 { x: nvx as i64, y: nvy as i64, z: nvz as i64 })
    }
}

/// Advances one position by the updated velocity times `dt`, or reports
/// that the result leaves the coordinate range.
fn apply_pos(p: Vec3, w: Vec3, dt: i64, nv: Ghost<V3>) -> (res: Option<Vec3>)
    requires
        coord_in_range(p),
        coord_in_range(w),
        -TIME_LIMIT <= dt <= TIME_LIMIT,
        v3_coord_ok(nv@),
        w == vec3_of(nv@),
    ensures
        match res {
            Some(q) => q == vec3_of(new_pos(p, nv@, dt as int)) && v3_coord_ok(
                new_pos(p, nv@, dt as int),
            ) && coord_in_range(q),
            None => !v3_coord_ok(new_pos(p, nv@, dt as int)),
        },
{
    proof {
        crate::math::lemma_mul_bound(w.x as int, dt as int, COORD_LIMIT as int,
            TIME_LIMIT as int);
        crate::math::lemma_mul_bound(w.y as int, dt as int, COORD_LIMIT as int,
            TIME_LIMIT as int);
        crate::math::lemma_mul_bound(w.z as int, dt as int, COORD_LIMIT as int,
            TIME_LIMIT as int);
    }
    let npx: i128 = (p.x as i128) + crate::math::div_trunc_i128(
        (w.x as i128) * (dt as i128),
        SCALE as i128,
    );
    let npy: i128 = (p.y as i128) + crate::math::div_trunc_i128(
        (w.y as i128) * (dt as i128),
        SCALE as i128,
    );
    let npz: i128 = (p.z as i128) + crate::math::div_trunc_i128(
        (w.z as i128) * (dt as i128),
        SCALE as i128,
    );
    if npx > (COORD_LIMIT as i128) || npx < (-COORD_LIMIT as i128) || npy > (COORD_LIMIT as i128)
        || npy < (-COORD_LIMIT as i128) || npz > (COORD_LIMIT as i128) || npz
        < (-COORD_LIMIT as i128) {
        None
    } else {
        Some(Vec3 { x: npx as i64, y: npy as i64, z: npz as i64 })
    }
}


/// Advances the massive group by one sub-step of length `dt`: the
/// acceleration of every massive particle from every other, then the
/// velocities, then the positions.
#[verifier::rlimit(100)]
#[verifier::spinoff_prover]
#[verifier::loop_isolation(false)]
fn advance_massive(
    g: i64,
    eps: i64,
    mpos: &Vec<Vec3>,
    mvel: &Vec<Vec3>,
    mmass: &Vec<i64>,
    dt: i64,
) -> (r: Result<(Vec<Vec3>, Vec<Vec3>), SimulationFault>)
    requires
        1 <= g <= GRAV_LIMIT,
        1 <= eps <= COORD_LIMIT,
        -TIME_LIMIT <= dt <= TIME_LIMIT,
        mvel@.len() == mpos@.len(),
        sources_wf(mpos@, mmass@),
        forall|i: int| 0 <= i < mvel@.len() ==> coord_in_range(#[trigger] mvel@[i]),
    ensures
        match r {
            Ok(out) => {
                &&& massive_step_ok(g as int, eps as int, mpos@, mvel@, mmass@, dt as int)
                &&& out.0@ == massive_next_pos(g as int, eps as int, mpos@, mvel@, mmass@,
                    dt as int)
                &&& out.1@ == massive_next_vel(g as int, eps as int, mpos@, mvel@, mmass@,
                    dt as int)
                &&& forall|i: int| 0 <= i < out.0@.len() ==> coord_in_range(#[trigger] out.0@[i])
                &&& forall|i: int| 0 <= i < out.1@.len() ==> coord_in_range(#[trigger] out.1@[i])
            },
            Err(_) => !massive_step_ok(g as int, eps as int, mpos@, mvel@, mmass@, dt as int),
        },
{
    let n = mpos.len();
    let ghost gi = g as int;
    let ghost ei = eps as int;
    let ghost dti = dt as int;

    let mut macc: Vec<Vec3> = Vec::new();
    let mut i: usize = 0;
    while i < n
        invariant
            macc@.len() == i as int,
            i <= n,
            forall|k: int|
                0 <= k < i as int ==> point_ok(gi, ei, mpos@, mmass@, #[trigger] mpos@[k], k),
            forall|k: int|
                0 <= k < i as int ==> #[trigger] macc@[k] == vec3_of(
                    accel_of(gi, ei, mpos@, mmass@, mpos@[k], k),
                ),
        decreases n - i,
    {
        let a = match accel_at_point(g, eps, mpos, mmass, mpos[i], Some(i)) {
            Ok(a) => a,
            Err(f) => {
                proof {
                    assert(!massive_index_ok(gi, ei, mpos@, mvel@, mmass@, dti, i as int));
                }
                return Err(f);
            },
        };
        macc.push(a);
        i = i + 1;
    }

    let mut nmvel: Vec<Vec3> = Vec::new();
    let mut i: usize = 0;
    while i < n
        invariant
            nmvel@.len() == i as int,
            i <= n,
            forall|k: int|
                0 <= k < i as int ==> #[trigger] nmvel@[k] == vec3_of(
                    new_vel(mvel@[k], accel_of(gi, ei, mpos@, mmass@, mpos@[k], k), dti),
                ) && v3_coord_ok(
                    new_vel(mvel@[k], accel_of(gi, ei, mpos@, mmass@, mpos@[k], k), dti),
                ) && coord_in_range(nmvel@[k]),
        decreases n - i,
    {
        let a = macc[i];
        let u = mvel[i];
        let ghost av = accel_of(gi, ei, mpos@, mmass@, mpos@[i as int], i as int);
        match apply_vel(u, a, dt, Ghost(av)) {
            Some(w) => {
                proof {
                    assert(w == vec3_of(new_vel(mvel@[i as int], av, dti)));
                    assert(v3_coord_ok(new_vel(mvel@[i as int], av, dti)));
                }
                nmvel.push(w);
            },
            None => {
                proof {
                    assert(!massive_index_ok(gi, ei, mpos@, mvel@, mmass@, dti, i as int));
                }
                return Err(SimulationFault);
            },
        }
        i = i + 1;
    }

    let mut nmpos: Vec<Vec3> = Vec::new();
    let mut i: usize = 0;
    while i < n
        invariant
            nmpos@.len() == i as int,
            i <= n,
            forall|k: int|
                0 <= k < i as int ==> #[trigger] nmpos@[k] == vec3_of(
                    new_pos(
                        mpos@[k],
                        new_vel(mvel@[k], accel_of(gi, ei, mpos@, mmass@, mpos@[k], k), dti),
                        dti,
                    ),
                ) && v3_coord_ok(
                    new_pos(
                        mpos@[k],
                        new_vel(mvel@[k], accel_of(gi, ei, mpos@, mmass@, mpos@[k], k), dti),
                        dti,
                    ),
                ) && coord_in_range(nmpos@[k]),
        decreases n - i,
    {
        let p = mpos[i];
        let w = nmvel[i];
        let ghost nv = new_vel(
            mvel@[i as int],
            accel_of(gi, ei, mpos@, mmass@, mpos@[i as int], i as int),
            dti,
        );
        match apply_pos(p, w, dt, Ghost(nv)) {
            Some(q) => {
                proof {
                    assert(q == vec3_of(new_pos(mpos@[i as int], nv, dti)));
                    assert(v3_coord_ok(new_pos(mpos@[i as int], nv, dti)));
                }
                nmpos.push(q);
            },
            None => {
                proof {
                    assert(!massive_index_ok(gi, ei, mpos@, mvel@, mmass@, dti, i as int));
                }
                return Err(SimulationFault);
            },
        }
        i = i + 1;
    }

    proof {
        assert forall|k: int| 0 <= k < mpos@.len() implies #[trigger] massive_index_ok(
            gi,
            ei,
            mpos@,
            mvel@,
            mmass@,
            dti,
            k,
        ) by {
            assert(point_ok(gi, ei, mpos@, mmass@, mpos@[k], k));
            assert(nmvel@[k] == vec3_of(
                new_vel(mvel@[k], accel_of(gi, ei, mpos@, mmass@, mpos@[k], k), dti),
            ));
            assert(nmpos@[k] == vec3_of(
                new_pos(
                    mpos@[k],
                    new_vel(mvel@[k], accel_of(gi, ei, mpos@, mmass@, mpos@[k], k), dti),
                    dti,
                ),
            ));
        }
        assert(nmpos@ =~= massive_next_pos(gi, ei, mpos@, mvel@, mmass@, dti));
        assert(nmvel@ =~= massive_next_vel(gi, ei, mpos@, mvel@, mmass@, dti));
    }
    Ok((nmpos, nmvel))
}

/// Advances the ghost group by one sub-step of length `dt`, driven by the
/// massive sources at their positions before the step.
#[verifier::rlimit(100)]
#[verifier::spinoff_prover]
#[verifier::loop_isolation(false)]
fn advance_ghosts(
    g: i64,
    eps: i64,
    mpos: &Vec<Vec3>,
    mmass: &Vec<i64>,
    gpos: &Vec<Vec3>,
    gvel: &Vec<Vec3>,
    dt: i64,
) -> (r: Result<(Vec<Vec3>, Vec<Vec3>), SimulationFault>)
    requires
        1 <= g <= GRAV_LIMIT,
        1 <= eps <= COORD_LIMIT,
        -TIME_LIMIT <= dt <= TIME_LIMIT,
        gvel@.len() == gpos@.len(),
        sources_wf(mpos@, mmass@),
        forall|i: int| 0 <= i < gpos@.len() ==> coord_in_range(#[trigger] gpos@[i]),
        forall|i: int| 0 <= i < gvel@.len() ==> coord_in_range(#[trigger] gvel@[i]),
    ensures
        match r {
            Ok(out) => {
                &&& ghost_step_ok(g as int, eps as int, mpos@, mmass@, gpos@, gvel@, dt as int)
                &&& out.0@ == ghost_next_pos(g as int, eps as int, mpos@, mmass@, gpos@, gvel@,
                    dt as int)
                &&& out.1@ == ghost_next_vel(g as int, eps as int, mpos@, mmass@, gpos@, gvel@,
                    dt as int)
                &&& forall|i: int| 0 <= i < out.0@.len() ==> coord_in_range(#[trigger] out.0@[i])
                &&& forall|i: int| 0 <= i < out.1@.len() ==> coord_in_range(#[trigger] out.1@[i])
            },
            Err(_) => !ghost_step_ok(g as int, eps as int, mpos@, mmass@, gpos@, gvel@,
                dt as int),
        },
{
    let m = gpos.len();
    let ghost gi = g as int;
    let ghost ei = eps as int;
    let ghost dti = dt as int;

    let mut gacc: Vec<Vec3> = Vec::new();
    let mut i: usize = 0;
    while i < m
        invariant
            gacc@.len() == i as int,
            i <= m,
            forall|k: int|
                0 <= k < i as int ==> point_ok(gi, ei, mpos@, mmass@, #[trigger] gpos@[k], -1),
            forall|k: int|
                0 <= k < i as int ==> #[trigger] gacc@[k] == vec3_of(
                    accel_of(gi, ei, mpos@, mmass@, gpos@[k], -1),
                ),
        decreases m - i,
    {
        let a = match accel_at_point(g, eps, mpos, mmass, gpos[i], None) {
            Ok(a) => a,
            Err(f) => {
                proof {
                    assert(!ghost_index_ok(gi, ei, mpos@, mmass@, gpos@, gvel@, dti, i as int));
                }
                return Err(f);
            },
        };
        gacc.push(a);
        i = i + 1;
    }

    let mut ngvel: Vec<Vec3> = Vec::new();
    let mut i: usize = 0;
    while i < m
        invariant
            ngvel@.len() == i as int,
            i <= m,
            forall|k: int|
                0 <= k < i as int ==> #[trigger] ngvel@[k] == vec3_of(
                    new_vel(gvel@[k], accel_of(gi, ei, mpos@, mmass@, gpos@[k], -1), dti),
                ) && v3_coord_ok(
                    new_vel(gvel@[k], accel_of(gi, ei, mpos@, mmass@, gpos@[k], -1), dti),
                ) && coord_in_range(ngvel@[k]),
        decreases m - i,
    {
        let a = gacc[i];
        let u = gvel[i];
        let ghost av = accel_of(gi, ei, mpos@, mmass@, gpos@[i as int], -1);
        let ghost snap = ngvel@;
        match apply_vel(u, a, dt, Ghost(av)) {
            Some(w) => {
                proof {
                    assert(w == vec3_of(new_vel(gvel@[i as int], av, dti)));
                    assert(v3_coord_ok(new_vel(gvel@[i as int], av, dti)));
                }
                ngvel.push(w);
                proof {
                    assert(ngvel@ == snap.push(w));
                    assert(ngvel@[i as int] == w);
                    assert forall|k: int| 0 <= k < i as int implies ngvel@[k] == snap[k] by {}
                }
            },
            None => {
                proof {
                    assert(!ghost_index_ok(gi, ei, mpos@, mmass@, gpos@, gvel@, dti, i as int));
                }
                return Err(SimulationFault);
            },
        }
        i = i + 1;
    }

    let mut ngpos: Vec<Vec3> = Vec::new();
    let mut i: usize = 0;
    while i < m
        invariant
            ngpos@.len() == i as int,
            i <= m,
            forall|k: int|
                0 <= k < i as int ==> #[trigger] ngpos@[k] == vec3_of(
                    new_pos(
                        gpos@[k],
                        new_vel(gvel@[k], accel_of(gi, ei, mpos@, mmass@, gpos@[k], -1), dti),
                        dti,
                    ),
                ) && v3_coord_ok(
                    new_pos(
                        gpos@[k],
                        new_vel(gvel@[k], accel_of(gi, ei, mpos@, mmass@, gpos@[k], -1), dti),
                        dti,
                    ),
                ) && coord_in_range(ngpos@[k]),
        decreases m - i,
    {
        let p = gpos[i];
        let w = ngvel[i];
        let ghost nv = new_vel(
            gvel@[i as int],
            accel_of(gi, ei, mpos@, mmass@, gpos@[i as int], -1),
            dti,
        );
        match apply_pos(p, w, dt, Ghost(nv)) {
            Some(q) => {
                proof {
                    assert(q == vec3_of(new_pos(gpos@[i as int], nv, dti)));
                    assert(v3_coord_ok(new_pos(gpos@[i as int], nv, dti)));
                }
                ngpos.push(q);
            },
            None => {
                proof {
                    assert(!ghost_index_ok(gi, ei, mpos@, mmass@, gpos@, gvel@, dti, i as int));
                }
                return Err(SimulationFault);
            },
        }
        i = i + 1;
    }

    proof {
        assert forall|k: int| 0 <= k < gpos@.len() implies #[trigger] ghost_index_ok(
            gi,
            ei,
            mpos@,
            mmass@,
            gpos@,
            gvel@,
            dti,
            k,
        ) by {
            assert(point_ok(gi, ei, mpos@, mmass@, gpos@[k], -1));
            assert(ngvel@[k] == vec3_of(
                new_vel(gvel@[k], accel_of(gi, ei, mpos@, mmass@, gpos@[k], -1), dti),
            ));
            assert(ngpos@[k] == vec3_of(
                new_pos(
                    gpos@[k],
                    new_vel(gvel@[k], accel_of(gi, ei, mpos@, mmass@, gpos@[k], -1), dti),
                    dti,
                ),
            ));
        }
        assert(ngpos@ =~= ghost_next_pos(gi, ei, mpos@, mmass@, gpos@, gvel@, dti));
        assert(ngvel@ =~= ghost_next_vel(gi, ei, mpos@, mmass@, gpos@, gvel@, dti));
    }
    Ok((ngpos, ngvel))
}

/// The gravitational force and its integrator: strength, smoothing length
/// and the sub-step count each whole step is divided into.
pub struct Gravity {
    /// Strength of gravity, fixed-point.
    pub strength: i64,
    /// Smoothing length: the minimum effective separation in the force
    /// denominator, fixed-point.
    pub smoothing_length: i64,
    /// How many sub-advances each `evolve` call performs.
    pub sub_steps: u32,
}

impl Gravity {
    /// The configuration is usable: positive bounded strength and
    /// smoothing length, at least one sub-step.
    pub open spec fn wf(self) -> bool {
        &&& 1 <= self.strength <= GRAV_LIMIT
        &&& 1 <= self.smoothing_length <= COORD_LIMIT
        &&& 1 <= self.sub_steps
    }

    /// Construct a new instance.
    pub fn new(strength: i64, smoothing_length: i64, sub_steps: u32) -> (gravity: Gravity)
        requires
            1 <= strength <= GRAV_LIMIT,
            1 <= smoothing_length <= COORD_LIMIT,
            1 <= sub_steps,
        ensures
            gravity.wf(),
            gravity.strength == strength,
            gravity.smoothing_length == smoothing_length,
            gravity.sub_steps == sub_steps,
    {
        Gravity { strength, smoothing_length, sub_steps }
    }

    /// The force kernel for the massive group: the acceleration each
    /// massive particle feels from every other massive particle, or a
    /// fault if any term or total is not representable.
    pub fn massive_accelerations(&self, store: &NBody) -> (r: Result<Vec<Vec3>, SimulationFault>)
        requires
            self.wf(),
            store@.wf(),
        ensures
            match r {
                Ok(acc) => {
                    &&& acc@.len() == store@.mpos.len()
                    &&& forall|i: int|
                        0 <= i < store@.mpos.len() ==> point_ok(
                            self.strength as int,
                            self.smoothing_length as int,
                            store@.mpos,
                            store@.mmass,
                            #[trigger] store@.mpos[i],
                            i,
                        )
                    &&& forall|i: int|
                        0 <= i < acc@.len() ==> #[trigger] acc@[i] == vec3_of(
                            accel_of(
                                self.strength as int,
                                self.smoothing_length as int,
                                store@.mpos,
                                store@.mmass,
                                store@.mpos[i],
                                i,
                            ),
                        )
                },
                Err(_) => exists|i: int|
                    0 <= i < store@.mpos.len() && !point_ok(
                        self.strength as int,
                        self.smoothing_length as int,
                        store@.mpos,
                        store@.mmass,
                        #[trigger] store@.mpos[i],
                        i,
                    ),
            },
    {
        let mpos = store.massive_positions();
        let mmass = store.massive_masses();
        let n = mpos.len();
        let mut acc: Vec<Vec3> = Vec::new();
        let mut i: usize = 0;
        while i < n
            invariant
                self.wf(),
                store@.wf(),
                mpos@ == store@.mpos,
                mmass@ == store@.mmass,
                n == mpos@.len(),
                acc@.len() == i as int,
                i <= n,
                forall|k: int|
                    0 <= k < i as int ==> point_ok(
                        self.strength as int,
                        self.smoothing_length as int,
                        store@.mpos,
                        store@.mmass,
                        #[trigger] store@.mpos[k],
                        k,
                    ),
                forall|k: int|
                    0 <= k < i as int ==> #[trigger] acc@[k] == vec3_of(
                        accel_of(
                            self.strength as int,
                            self.smoothing_length as int,
                            store@.mpos,
                            store@.mmass,
                            store@.mpos[k],
                            k,
                        ),
                    ),
            decreases n - i,
        {
            match accel_at_point(self.strength, self.smoothing_length, mpos, mmass, mpos[i],
                Some(i)) {
                Ok(a) => {
                    acc.push(a);
                },
                Err(f) => {
                    return Err(f);
                },
            }
            i = i + 1;
        }
        Ok(acc)
    }

    /// The force kernel for the ghost group: the acceleration each ghost
    /// feels from every massive particle. Ghosts are never sources, for
    /// one another or for anything else.
    pub fn ghost_accelerations(&self, store: &NBody) -> (r: Result<Vec<Vec3>, SimulationFault>)
        requires
            self.wf(),
            store@.wf(),
        ensures
            match r {
                Ok(acc) => {
                    &&& acc@.len() == store@.gpos.len()
                    &&& forall|i: int|
                        0 <= i < store@.gpos.len() ==> point_ok(
                            self.strength as int,
                            self.smoothing_length as int,
                            store@.mpos,
                            store@.mmass,
                            #[trigger] store@.gpos[i],
                            -1,
                        )
                    &&& forall|i: int|
                        0 <= i < acc@.len() ==> #[trigger] acc@[i] == vec3_of(
                            accel_of(
                                self.strength as int,
                                self.smoothing_length as int,
                                store@.mpos,
                                store@.mmass,
                                store@.gpos[i],
                                -1,
                            ),
                        )
                },
                Err(_) => exists|i: int|
                    0 <= i < store@.gpos.len() && !point_ok(
                        self.strength as int,
                        self.smoothing_length as int,
                        store@.mpos,
                        store@.mmass,
                        #[trigger] store@.gpos[i],
                        -1,
                    ),
            },
    {
        let mpos = store.massive_positions();
        let mmass = store.massive_masses();
        let gpos = store.ghost_positions();
        let m = gpos.len();
        let mut acc: Vec<Vec3> = Vec::new();
        let mut i: usize = 0;
        while i < m
            invariant
                self.wf(),
                store@.wf(),
                mpos@ == store@.mpos,
                mmass@ == store@.mmass,
                gpos@ == store@.gpos,
                m == gpos@.len(),
                acc@.len() == i as int,
                i <= m,
                forall|k: int|
                    0 <= k < i as int ==> point_ok(
                        self.strength as int,
                        self.smoothing_length as int,
                        store@.mpos,
                        store@.mmass,
                        #[trigger] store@.gpos[k],
                        -1,
                    ),
                forall|k: int|
                    0 <= k < i as int ==> #[trigger] acc@[k] == vec3_of(
                        accel_of(
                            self.strength as int,
                            self.smoothing_length as int,
                            store@.mpos,
                            store@.mmass,
                            store@.gpos[k],
                            -1,
                        ),
                    ),
            decreases m - i,
        {
            match accel_at_point(self.strength, self.smoothing_length, mpos, mmass, gpos[i],
                None) {
                Ok(a) => {
                    acc.push(a);
                },
                Err(f) => {
                    return Err(f);
                },
            }
            i = i + 1;
        }
        Ok(acc)
    }

    /// Advances the whole store by one step of length `dt`, split into
    /// `sub_steps` equal sub-advances of `dt / sub_steps` each. The sign of
    /// `dt` may be negative to run time backward. On a fault the store is
    /// left exactly as it was. The particle ordering is never shuffled
    /// between kernel invocations, so runs are bit-reproducible.
    #[verifier::loop_isolation(false)]
    pub fn evolve(&self, store: &mut NBody, dt: i64) -> (r: Result<(), SimulationFault>)
        requires
            self.wf(),
            old(store)@.wf(),
            dt != 0,
            -TIME_LIMIT <= dt <= TIME_LIMIT,
        ensures
            final(store)@.wf(),
            final(store)@.mpos.len() == old(store)@.mpos.len(),
            final(store)@.mvel.len() == old(store)@.mpos.len(),
            final(store)@.gpos.len() == old(store)@.gpos.len(),
            final(store)@.gvel.len() == old(store)@.gpos.len(),
            final(store)@.mmass == old(store)@.mmass,
            final(store)@.gkind == old(store)@.gkind,
            match r {
                Ok(_) => evolve_steps(
                    old(store)@,
                    self.strength as int,
                    self.smoothing_length as int,
                    div_trunc(dt as int, self.sub_steps as int),
                    self.sub_steps as int,
                ) == Some(final(store)@),
                Err(_) => {
                    &&& evolve_steps(
                        old(store)@,
                        self.strength as int,
                        self.smoothing_length as int,
                        div_trunc(dt as int, self.sub_steps as int),
                        self.sub_steps as int,
                    ) is None
                    &&& final(store)@ == old(store)@
                },
            },
    {
        proof {
            crate::math::lemma_div_trunc_abs(dt as int, self.sub_steps as int);
            crate::math::lemma_div_le_numerator(abs_i(dt as int), self.sub_steps as int);
        }
        let dts: i64 = crate::math::div_trunc_i128(dt as i128, self.sub_steps as i128) as i64;
        let ghost gi = self.strength as int;
        let ghost ei = self.smoothing_length as int;

        let mut wmpos = copy_vec3(store.massive_positions());
        let mut wmvel = copy_vec3(store.massive_velocities());
        let mut wgpos = copy_vec3(store.ghost_positions());
        let mut wgvel = copy_vec3(store.ghost_velocities());

        let mut k: u32 = 0;
        while k < self.sub_steps
            invariant
                k <= self.sub_steps,
                wmpos@.len() == old(store)@.mpos.len(),
                wgpos@.len() == old(store)@.gpos.len(),
                wmvel@.len() == wmpos@.len(),
                wgvel@.len() == wgpos@.len(),
                forall|i: int| 0 <= i < wmpos@.len() ==> coord_in_range(#[trigger] wmpos@[i]),
                forall|i: int| 0 <= i < wmvel@.len() ==> coord_in_range(#[trigger] wmvel@[i]),
                forall|i: int| 0 <= i < wgpos@.len() ==> coord_in_range(#[trigger] wgpos@[i]),
                forall|i: int| 0 <= i < wgvel@.len() ==> coord_in_range(#[trigger] wgvel@[i]),
                evolve_steps(old(store)@, gi, ei, dts as int, k as int) == Some(StoreView {
                    mpos: wmpos@,
                    mvel: wmvel@,
                    mmass: old(store)@.mmass,
                    gpos: wgpos@,
                    gvel: wgvel@,
                    gkind: old(store)@.gkind,
                }),
            decreases self.sub_steps - k,
        {
            let ghost before = StoreView {
                mpos: wmpos@,
                mvel: wmvel@,
                mmass: old(store)@.mmass,
                gpos: wgpos@,
                gvel: wgvel@,
                gkind: old(store)@.gkind,
            };
            let stepped_m = match advance_massive(self.strength, self.smoothing_length, &wmpos,
                &wmvel, store.massive_masses(), dts) {
                Ok(out) => out,
                Err(f) => {
                    proof {
                        assert(!sub_step_ok(before, gi, ei, dts as int));
                        assert(evolve_steps(old(store)@, gi, ei, dts as int, k as int + 1)
                            is None);
                        lemma_evolve_none_propagates(old(store)@, gi, ei, dts as int,
                            k as int + 1, self.sub_steps as int);
                    }
                    return Err(f);
                },
            };
            let stepped_g = match advance_ghosts(self.strength, self.smoothing_length, &wmpos,
                store.massive_masses(), &wgpos, &wgvel, dts) {
                Ok(out) => out,
                Err(f) => {
                    proof {
                        assert(!sub_step_ok(before, gi, ei, dts as int));
                        assert(evolve_steps(old(store)@, gi, ei, dts as int, k as int + 1)
                            is None);
                        lemma_evolve_none_propagates(old(store)@, gi, ei, dts as int,
                            k as int + 1, self.sub_steps as int);
                    }
                    return Err(f);
                },
            };
            wmpos = stepped_m.0;
            wmvel = stepped_m.1;
            wgpos = stepped_g.0;
            wgvel = stepped_g.1;
            proof {
                assert(sub_step_ok(before, gi, ei, dts as int));
                assert(sub_step(before, gi, ei, dts as int) == (StoreView {
                    mpos: wmpos@,
                    mvel: wmvel@,
                    mmass: old(store)@.mmass,
                    gpos: wgpos@,
                    gvel: wgvel@,
                    gkind: old(store)@.gkind,
                }));
            }
            k = k + 1;
        }
        store.replace_motion(wmpos, wmvel, wgpos, wgvel);
        Ok(())
    }
}

} // verus!
