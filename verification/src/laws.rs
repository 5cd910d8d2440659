//! The engine's conservation and isolation theorems, stated over the same
//! spec functions the executable contracts use.

use vstd::prelude::*;

use crate::gravity::{
    accel_of, accel_sum, accel_term, evolve_steps, ghost_next_pos, ghost_next_vel,
    massive_next_pos, massive_next_vel,
};
use crate::math::{abs_i, div_trunc, int_sqrt, SCALE};
use crate::nbody::{kepler_speed, StoreView};
use crate::vec3::{v3_add, v3_neg, v3_zero, Vec3, V3};

verus! {

/// The softened gravitational force particle `j` exerts on particle `i`:
/// `g * m_i * m_j * (p_j - p_i) * SCALE / s^3`, with `s` the softened
/// separation: the kernel's acceleration law with the target's mass folded
/// into the numerator.
pub open spec fn pair_force(g: int, eps: int, mi: i64, mj: i64, pi: Vec3, pj: Vec3) -> V3 {
    let dx = pj.x - pi.x;
    let dy = pj.y - pi.y;
    let dz = pj.z - pi.z;
    let nsq = dx * dx + dy * dy + dz * dz;
    let r = int_sqrt(nsq as nat) as int;
    let s = if r < eps {
        eps
    } else {
        r
    };
    let den = s * s * s;
    V3 {
        x: div_trunc(g * mi * mj * dx * SCALE, den),
        y: div_trunc(g * mi * mj * dy * SCALE, den),
        z: div_trunc(g * mi * mj * dz * SCALE, den),
    }
}

/// The pairwise force is antisymmetric: what `j` exerts on `i` is exactly
/// the negation of what `i` exerts on `j`. The softening does not disturb
/// this, because the softened separation is symmetric in the pair.
pub proof fn lemma_pair_force_antisymmetric(
    g: int,
    eps: int,
    mi: i64,
    mj: i64,
    pi: Vec3,
    pj: Vec3,
)
    requires
        eps >= 1,
    ensures
        pair_force(g, eps, mi, mj, pi, pj) == v3_neg(pair_force(g, eps, mj, mi, pj, pi)),
{
    let dx = pj.x - pi.x;
    let dy = pj.y - pi.y;
    let dz = pj.z - pi.z;
    assert((-dx) * (-dx) == dx * dx && (-dy) * (-dy) == dy * dy && (-dz) * (-dz) == dz * dz)
        by (nonlinear_arith);
    let nsq = dx * dx + dy * dy + dz * dz;
    let r = int_sqrt(nsq as nat) as int;
    let s = if r < eps {
        eps
    } else {
        r
    };
    let den = s * s * s;
    crate::math::lemma_cube_pos(s);
    assert(g * mj * mi * (-dx) * SCALE == -(g * mi * mj * dx * SCALE)) by (nonlinear_arith);
    assert(g * mj * mi * (-dy) * SCALE == -(g * mi * mj * dy * SCALE)) by (nonlinear_arith);
    assert(g * mj * mi * (-dz) * SCALE == -(g * mi * mj * dz * SCALE)) by (nonlinear_arith);
    crate::math::lemma_div_trunc_neg(g * mi * mj * dx * SCALE, den);
    crate::math::lemma_div_trunc_neg(g * mi * mj * dy * SCALE, den);
    crate::math::lemma_div_trunc_neg(g * mi * mj * dz * SCALE, den);
}

/// The force particle `j` exerts on particle `i` of a store.
pub open spec fn pair_force_on(v: StoreView, g: int, eps: int, i: int, j: int) -> V3 {
    pair_force(g, eps, v.mmass[i], v.mmass[j], v.mpos[i], v.mpos[j])
}

/// The total force on particle `i` from the sources below `k`, its own
/// index skipped.
pub open spec fn row_force_sum(v: StoreView, g: int, eps: int, i: int, k: int) -> V3
    decreases k,
{
    if k <= 0 {
        v3_zero()
    } else {
        let prev = row_force_sum(v, g, eps, i, k - 1);
        if k - 1 == i {
            prev
        } else {
            v3_add(prev, pair_force_on(v, g, eps, i, k - 1))
        }
    }
}

/// The force exerted on the particles below `m` by the source `j`.
pub open spec fn col_force_sum(v: StoreView, g: int, eps: int, m: int, j: int) -> V3
    decreases m,
{
    if m <= 0 {
        v3_zero()
    } else {
        v3_add(col_force_sum(v, g, eps, m - 1, j), pair_force_on(v, g, eps, m - 1, j))
    }
}

/// The total mutual force over the particles below `m`, each summed over
/// the sources below `k`.
pub open spec fn total_force_sum(v: StoreView, g: int, eps: int, m: int, k: int) -> V3
    decreases m,
{
    if m <= 0 {
        v3_zero()
    } else {
        v3_add(total_force_sum(v, g, eps, m - 1, k), row_force_sum(v, g, eps, m - 1, k))
    }
}

/// Extending every row of the total by the one source `k` adds exactly the
/// column of `k`, as long as no row below `m` is the row of `k` itself.
proof fn lemma_total_extend(v: StoreView, g: int, eps: int, m: int, k: int)
    requires
        0 <= m <= k,
    ensures
        total_force_sum(v, g, eps, m, k + 1) == v3_add(
            total_force_sum(v, g, eps, m, k),
            col_force_sum(v, g, eps, m, k),
        ),
    decreases m,
{
    if m > 0 {
        lemma_total_extend(v, g, eps, m - 1, k);
    }
}

/// The column of `k` over the rows below `m` cancels against the row of
/// `k` over the sources below `m`, term by term, by antisymmetry.
proof fn lemma_column_cancels_row(v: StoreView, g: int, eps: int, m: int, k: int)
    requires
        eps >= 1,
        0 <= m <= k,
    ensures
        v3_add(col_force_sum(v, g, eps, m, k), row_force_sum(v, g, eps, k, m)) == v3_zero(),
    decreases m,
{
    if m > 0 {
        lemma_column_cancels_row(v, g, eps, m - 1, k);
        lemma_pair_force_antisymmetric(g, eps, v.mmass[m - 1], v.mmass[k], v.mpos[m - 1],
            v.mpos[k]);
    }
}

/// Momentum conservation: over a closed massive system the mutual
/// pairwise forces sum to exactly zero, so mutual gravity changes the
/// total momentum by nothing.
pub proof fn lemma_total_force_zero(v: StoreView, g: int, eps: int, n: int)
    requires
        eps >= 1,
        0 <= n,
    ensures
        total_force_sum(v, g, eps, n, n) == v3_zero(),
    decreases n,
{
    if n > 0 {
        let k = n - 1;
        lemma_total_force_zero(v, g, eps, k);
        lemma_total_extend(v, g, eps, k, k);
        lemma_column_cancels_row(v, g, eps, k, k);
        assert(row_force_sum(v, g, eps, k, k + 1) == row_force_sum(v, g, eps, k, k));
    }
}

/// A particle alone among the massive set feels exactly zero
/// acceleration.
pub proof fn lemma_single_particle_zero_acceleration(v: StoreView, g: int, eps: int)
    requires
        v.mpos.len() == 1,
    ensures
        accel_of(g, eps, v.mpos, v.mmass, v.mpos[0], 0) == v3_zero(),
{
    assert(accel_sum(g, eps, v.mpos, v.mmass, v.mpos[0], 0, 1) == accel_sum(g, eps, v.mpos,
        v.mmass, v.mpos[0], 0, 0));
}

/// The softening caps every pairwise acceleration: each component of a
/// source's contribution is bounded by `g * mass * SCALE / eps^2`, which
/// is the fixed-point form of `g * mass / eps^2` — whatever the
/// separation, including one of zero.
pub proof fn lemma_softening_bounds_term(g: int, eps: int, src: Vec3, mass: i64, at: Vec3)
    requires
        1 <= g,
        1 <= eps,
        0 <= mass,
    ensures
        abs_i(accel_term(g, eps, src, mass, at).x) <= (g * mass * SCALE) / (eps * eps),
        abs_i(accel_term(g, eps, src, mass, at).y) <= (g * mass * SCALE) / (eps * eps),
        abs_i(accel_term(g, eps, src, mass, at).z) <= (g * mass * SCALE) / (eps * eps),
{
    let dx = src.x - at.x;
    let dy = src.y - at.y;
    let dz = src.z - at.z;
    let nsq = dx * dx + dy * dy + dz * dz;
    crate::math::lemma_square_nonneg(dx);
    crate::math::lemma_square_nonneg(dy);
    crate::math::lemma_square_nonneg(dz);
    let r = int_sqrt(nsq as nat) as int;
    let s = if r < eps {
        eps
    } else {
        r
    };
    crate::math::lemma_int_sqrt_dominates_component(dx, nsq as nat);
    crate::math::lemma_int_sqrt_dominates_component(dy, nsq as nat);
    crate::math::lemma_int_sqrt_dominates_component(dz, nsq as nat);
    lemma_component_capped(g, eps, mass as int, dx, s);
    lemma_component_capped(g, eps, mass as int, dy, s);
    lemma_component_capped(g, eps, mass as int, dz, s);
}

/// One component of the softened law is capped by `g * m * SCALE / eps^2`
/// whenever the displacement component is within the softened separation.
proof fn lemma_component_capped(g: int, eps: int, m: int, d: int, s: int)
    requires
        1 <= g,
        1 <= eps,
        0 <= m,
        eps <= s,
        abs_i(d) <= s,
    ensures
        abs_i(div_trunc(g * m * d * SCALE, s * s * s)) <= (g * m * SCALE) / (eps * eps),
{
    let den = s * s * s;
    crate::math::lemma_cube_pos(s);
    crate::math::lemma_div_trunc_abs(g * m * d * SCALE, den);
    let a = g * m * SCALE;
    assert(0 <= a) by (nonlinear_arith)
        requires
            1 <= g,
            0 <= m,
            a == g * m * SCALE,
    ;
    assert(abs_i(g * m * d * SCALE) == a * abs_i(d)) by (nonlinear_arith)
        requires
            a == g * m * SCALE,
            0 <= a,
    ;
    assert(a * abs_i(d) <= a * s) by (nonlinear_arith)
        requires
            0 <= a,
            abs_i(d) <= s,
    ;
    vstd::arithmetic::div_mod::lemma_div_is_ordered(a * abs_i(d), a * s, den);
    // (a * s) / s^3 == a / s^2
    assert(s * (s * s) == den) by (nonlinear_arith)
        requires
            den == s * s * s,
    ;
    assert(0 <= a * s) by (nonlinear_arith)
        requires
            0 <= a,
            1 <= s,
    ;
    assert(1 <= s * s) by (nonlinear_arith)
        requires
            1 <= s,
    ;
    vstd::arithmetic::div_mod::lemma_div_denominator(a * s, s, s * s);
    assert(a * s == s * a) by (nonlinear_arith);
    vstd::arithmetic::div_mod::lemma_div_multiples_vanish(a, s);
    assert((a * s) / den == a / (s * s));
    assert(1 <= eps * eps <= s * s) by (nonlinear_arith)
        requires
            1 <= eps <= s,
    ;
    vstd::arithmetic::div_mod::lemma_div_is_ordered_by_denominator(a, eps * eps, s * s);
}

/// The generated Keplerian speed is the integer square root of the exact
/// ratio: its square brackets `central_mass * SCALE^2 / r`, the
/// fixed-point form of `central_mass / r`.
pub proof fn lemma_kepler_speed_brackets_ratio(central_mass: int, r: int)
    requires
        0 <= central_mass,
        1 <= r,
    ensures
        kepler_speed(central_mass, r) * kepler_speed(central_mass, r) <= div_trunc(
            central_mass * SCALE * SCALE,
            r,
        ),
        div_trunc(central_mass * SCALE * SCALE, r) < (kepler_speed(central_mass, r) + 1) * (
        kepler_speed(central_mass, r) + 1),
{
    assert(0 <= central_mass * SCALE * SCALE) by (nonlinear_arith)
        requires
            0 <= central_mass,
    ;
    crate::math::lemma_div_trunc_abs(central_mass * SCALE * SCALE, r);
    crate::math::lemma_int_sqrt_bounds(div_trunc(central_mass * SCALE * SCALE, r) as nat);
}

/// Ghost particles never alter massive dynamics: two stores with the same
/// massive particles advance those particles through exactly the same
/// states, step for step, whatever either ghost field holds.
pub proof fn lemma_massive_trajectory_ignores_ghosts(
    v1: StoreView,
    v2: StoreView,
    g: int,
    eps: int,
    dt: int,
    k: int,
    w1: StoreView,
    w2: StoreView,
)
    requires
        v1.mpos == v2.mpos,
        v1.mvel == v2.mvel,
        v1.mmass == v2.mmass,
        0 <= k,
        evolve_steps(v1, g, eps, dt, k) == Some(w1),
        evolve_steps(v2, g, eps, dt, k) == Some(w2),
    ensures
        w1.mpos == w2.mpos,
        w1.mvel == w2.mvel,
        w1.mmass == w2.mmass,
    decreases k,
{
    if k > 0 {
        let u1 = evolve_steps(v1, g, eps, dt, k - 1)->Some_0;
        let u2 = evolve_steps(v2, g, eps, dt, k - 1)->Some_0;
        lemma_massive_trajectory_ignores_ghosts(v1, v2, g, eps, dt, k - 1, u1, u2);
        assert(massive_next_pos(g, eps, u1.mpos, u1.mvel, u1.mmass, dt) == massive_next_pos(
            g,
            eps,
            u2.mpos,
            u2.mvel,
            u2.mmass,
            dt,
        ));
        assert(massive_next_vel(g, eps, u1.mpos, u1.mvel, u1.mmass, dt) == massive_next_vel(
            g,
            eps,
            u2.mpos,
            u2.mvel,
            u2.mmass,
            dt,
        ));
    }
}

/// A ghost never alters another ghost: what one ghost does in a sub-step
/// depends only on its own position and velocity and on the massive set,
/// never on any other ghost.
pub proof fn lemma_ghost_ignores_other_ghosts(
    v1: StoreView,
    v2: StoreView,
    g: int,
    eps: int,
    dt: int,
    i: int,
    j: int,
)
    requires
        v1.mpos == v2.mpos,
        v1.mmass == v2.mmass,
        0 <= i < v1.gpos.len(),
        0 <= j < v2.gpos.len(),
        v1.gpos[i] == v2.gpos[j],
        v1.gvel[i] == v2.gvel[j],
    ensures
        ghost_next_pos(g, eps, v1.mpos, v1.mmass, v1.gpos, v1.gvel, dt)[i] == ghost_next_pos(
            g,
            eps,
            v2.mpos,
            v2.mmass,
            v2.gpos,
            v2.gvel,
            dt,
        )[j],
        ghost_next_vel(g, eps, v1.mpos, v1.mmass, v1.gpos, v1.gvel, dt)[i] == ghost_next_vel(
            g,
            eps,
            v2.mpos,
            v2.mmass,
            v2.gpos,
            v2.gvel,
            dt,
        )[j],
{
    assert(accel_of(g, eps, v1.mpos, v1.mmass, v1.gpos[i], -1) == accel_of(g, eps, v2.mpos,
        v2.mmass, v2.gpos[j], -1));
}

/// The two-body softening cap: with exactly two massive particles, each
/// component of either particle's acceleration is bounded by
/// `g * m * SCALE / eps^2` for the other's mass `m` — the fixed-point form
/// of `g * m / eps^2` — however small the separation.
pub proof fn lemma_two_body_acceleration_capped(v: StoreView, g: int, eps: int, i: int, j: int)
    requires
        1 <= g,
        1 <= eps,
        v.mpos.len() == 2,
        v.mmass.len() == 2,
        0 <= v.mmass[0],
        0 <= v.mmass[1],
        (i == 0 && j == 1) || (i == 1 && j == 0),
    ensures
        abs_i(accel_of(g, eps, v.mpos, v.mmass, v.mpos[i], i).x) <= (g * v.mmass[j] * SCALE) / (
        eps * eps),
        abs_i(accel_of(g, eps, v.mpos, v.mmass, v.mpos[i], i).y) <= (g * v.mmass[j] * SCALE) / (
        eps * eps),
        abs_i(accel_of(g, eps, v.mpos, v.mmass, v.mpos[i], i).z) <= (g * v.mmass[j] * SCALE) / (
        eps * eps),
{
    lemma_softening_bounds_term(g, eps, v.mpos[j], v.mmass[j], v.mpos[i]);
    assert(accel_of(g, eps, v.mpos, v.mmass, v.mpos[i], i) == accel_term(g, eps, v.mpos[j],
        v.mmass[j], v.mpos[i])) by {
        assert(accel_sum(g, eps, v.mpos, v.mmass, v.mpos[i], i, 0) == v3_zero());
        assert(accel_sum(g, eps, v.mpos, v.mmass, v.mpos[i], i, 1) == if i == 0 {
            v3_zero()
        } else {
            accel_term(g, eps, v.mpos[0], v.mmass[0], v.mpos[i])
        });
    }
}

} // verus!
