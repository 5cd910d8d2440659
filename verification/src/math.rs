//! Fixed-point scalars and the exact integer arithmetic the engine is built on.
//!
//! A physical quantity `q` is stored as the integer `round(q * SCALE)`, so
//! `SCALE` plays the role of 1.0. Division is truncating (rounds toward
//! zero), which keeps negation symmetric: `div_trunc(-a, b) == -div_trunc(a, b)`.
//! Square roots are integer square roots. Together these make every
//! computation of the engine an exact function of its integer inputs.

use vstd::prelude::*;

verus! {

/// Fixed-point unit: the integer that stands for the real value 1.0.
pub const SCALE: i64 = 1_048_576;

/// Largest magnitude of a stored position or velocity component, and of the
/// smoothing length: 2^40, or 2^20 distance units.
pub const COORD_LIMIT: i64 = 1_099_511_627_776;

/// Largest mass of a single particle: 2^35, or 2^15 mass units.
pub const MASS_LIMIT: i64 = 34_359_738_368;

/// Largest gravitational constant: 2^30, or 2^10 in natural units.
pub const GRAV_LIMIT: i64 = 1_073_741_824;

/// Largest magnitude of a time step: 2^30, or 2^10 time units.
pub const TIME_LIMIT: i64 = 1_073_741_824;

/// An upper bound on every circular-orbit speed the generators assign:
/// 2^38. The Keplerian law stays below `isqrt(MASS_LIMIT * SCALE * SCALE)`
/// and the disc law below `isqrt(GRAV_LIMIT * MASS_LIMIT * SCALE / SCALE)`,
/// both under this bound, which leaves room under `COORD_LIMIT` for the
/// drift.
pub const ORBIT_SPEED_LIMIT: i64 = 274_877_906_944;

/// Magnitude of an integer.
pub open spec fn abs_i(a: int) -> int {
    if a >= 0 {
        a
    } else {
        -a
    }
}

/// Division rounding toward zero, the semantics of every division the
/// engine performs. For a non-negative numerator it agrees with Euclidean
/// division; for a negative one it is the negation of the positive case.
pub open spec fn div_trunc(a: int, b: int) -> int
    recommends
        b > 0,
{
    if a >= 0 {
        a / b
    } else {
        -((-a) / b)
    }
}

/// Truncating division is odd in its numerator.
pub proof fn lemma_div_trunc_neg(a: int, b: int)
    requires
        b > 0,
    ensures
        div_trunc(-a, b) == -div_trunc(a, b),
{
    if a > 0 {
        assert(div_trunc(-a, b) == -((a) / b));
    } else if a == 0 {
        assert(0int / b == 0) by (nonlinear_arith)
            requires
                b > 0,
        ;
    }
}

/// The magnitude of a truncated quotient is the Euclidean quotient of the
/// magnitudes.
pub proof fn lemma_div_trunc_abs(a: int, b: int)
    requires
        b > 0,
    ensures
        abs_i(div_trunc(a, b)) == abs_i(a) / b,
        abs_i(a) / b >= 0,
{
    assert(abs_i(a) / b >= 0) by (nonlinear_arith)
        requires
            b > 0,
            abs_i(a) >= 0,
    ;
    if a >= 0 {
        assert(abs_i(div_trunc(a, b)) == a / b);
    } else {
        assert(abs_i(div_trunc(a, b)) == (-a) / b);
    }
}

/// A quotient of non-negative integers never exceeds the numerator.
pub proof fn lemma_div_le_numerator(a: int, b: int)
    requires
        0 <= a,
        0 < b,
    ensures
        0 <= a / b <= a,
{
    assert(0 <= a / b <= a) by (nonlinear_arith)
        requires
            0 <= a,
            0 < b,
    ;
}

/// Integer square root: the largest `r` with `r * r <= n`.
pub open spec fn int_sqrt(n: nat) -> nat
    decreases n,
{
    if n == 0 {
        0
    } else {
        let r = int_sqrt((n - 1) as nat);
        if (r + 1) * (r + 1) <= n {
            r + 1
        } else {
            r
        }
    }
}

/// The defining bracket of the integer square root.
pub proof fn lemma_int_sqrt_bounds(n: nat)
    ensures
        int_sqrt(n) * int_sqrt(n) <= n,
        n < (int_sqrt(n) + 1) * (int_sqrt(n) + 1),
    decreases n,
{
    if n == 0 {
        assert(int_sqrt(0) == 0);
        assert(n < (int_sqrt(n) + 1) * (int_sqrt(n) + 1)) by (nonlinear_arith)
            requires
                n == 0,
                int_sqrt(n) == 0,
        ;
    } else {
        let m = (n - 1) as nat;
        lemma_int_sqrt_bounds(m);
        let r = int_sqrt(m);
        assert(r * r <= m && m < (r + 1) * (r + 1));
        if (r + 1) * (r + 1) <= n {
            assert(int_sqrt(n) == r + 1);
            assert((r + 1) * (r + 1) < (r + 2) * (r + 2)) by (nonlinear_arith)
                requires
                    r >= 0,
            ;
            assert(int_sqrt(n) * int_sqrt(n) <= n);
            assert(n < (int_sqrt(n) + 1) * (int_sqrt(n) + 1));
        } else {
            assert(int_sqrt(n) == r);
            assert(int_sqrt(n) * int_sqrt(n) <= n);
            assert(n < (int_sqrt(n) + 1) * (int_sqrt(n) + 1));
        }
    }
}

/// Any integer bracketed the same way equals the integer square root.
pub proof fn lemma_int_sqrt_unique(n: nat, r: nat)
    requires
        r * r <= n,
        n < (r + 1) * (r + 1),
    ensures
        r == int_sqrt(n),
{
    let s = int_sqrt(n);
    lemma_int_sqrt_bounds(n);
    if r < s {
        assert((r + 1) * (r + 1) <= s * s) by (nonlinear_arith)
            requires
                0 <= r,
                r + 1 <= s,
        ;
    }
    if s < r {
        assert((s + 1) * (s + 1) <= r * r) by (nonlinear_arith)
            requires
                0 <= s,
                s + 1 <= r,
        ;
    }
}

/// The square root is monotone.
pub proof fn lemma_int_sqrt_le(a: nat, b: nat)
    requires
        a <= b,
    ensures
        int_sqrt(a) <= int_sqrt(b),
{
    lemma_int_sqrt_bounds(a);
    lemma_int_sqrt_bounds(b);
    let ra = int_sqrt(a);
    let rb = int_sqrt(b);
    if rb < ra {
        assert((rb + 1) * (rb + 1) <= ra * ra) by (nonlinear_arith)
            requires
                0 <= rb,
                rb + 1 <= ra,
        ;
    }
}

/// A square is never negative.
pub proof fn lemma_square_nonneg(a: int)
    ensures
        a * a >= 0,
{
    assert(a * a >= 0) by (nonlinear_arith);
}

/// A product of factors that are at least one is at least one.
pub proof fn lemma_cube_pos(s: int)
    requires
        s >= 1,
    ensures
        s * s * s >= 1,
{
    assert(s * s * s >= 1) by (nonlinear_arith)
        requires
            s >= 1,
    ;
}

/// A product is bounded by the product of bounds on its factors.
pub proof fn lemma_mul_bound(a: int, b: int, ca: int, cb: int)
    requires
        -ca <= a <= ca,
        -cb <= b <= cb,
    ensures
        -(ca * cb) <= a * b <= ca * cb,
{
    assert(-(ca * cb) <= a * b <= ca * cb) by (nonlinear_arith)
        requires
            -ca <= a <= ca,
            -cb <= b <= cb,
    ;
}

/// The square root of anything below `b * b` lies below `b`.
pub proof fn lemma_int_sqrt_below(n: nat, b: nat)
    requires
        n < b * b,
    ensures
        int_sqrt(n) < b,
{
    lemma_int_sqrt_bounds(n);
    let r = int_sqrt(n);
    if r >= b {
        assert(b * b <= r * r) by (nonlinear_arith)
            requires
                0 <= b <= r,
        ;
    }
}

/// A component whose square is under `n` is bounded by the root of `n`.
pub proof fn lemma_int_sqrt_dominates_component(d: int, n: nat)
    requires
        d * d <= n,
    ensures
        abs_i(d) <= int_sqrt(n),
{
    lemma_int_sqrt_bounds(n);
    let r = int_sqrt(n);
    if abs_i(d) > r {
        assert((r + 1) * (r + 1) <= d * d) by (nonlinear_arith)
            requires
                0 <= r,
                r + 1 <= abs_i(d),
        ;
    }
}

/// A tangential component `speed * d / r` with `|d| <= r` never exceeds the
/// speed itself.
pub proof fn lemma_tangential_component_bound(speed: int, d: int, r: int)
    requires
        0 <= speed,
        abs_i(d) <= r,
        1 <= r,
    ensures
        abs_i(div_trunc(speed * d, r)) <= speed,
{
    lemma_div_trunc_abs(speed * d, r);
    assert(abs_i(speed * d) == speed * abs_i(d)) by (nonlinear_arith)
        requires
            0 <= speed,
    ;
    assert(speed * abs_i(d) <= speed * r) by (nonlinear_arith)
        requires
            0 <= speed,
            abs_i(d) <= r,
    ;
    vstd::arithmetic::div_mod::lemma_div_is_ordered(speed * abs_i(d), speed * r, r);
    vstd::arithmetic::div_mod::lemma_div_multiples_vanish(speed, r);
    assert(speed * r == r * speed) by (nonlinear_arith);
}

/// Scaling a bound `a` by `r / radius^2` with `r <= radius` keeps it under
/// `a / radius`.
pub proof fn lemma_div_scaled_radius(a: int, r: int, radius: int)
    requires
        0 <= a,
        0 <= r <= radius,
        1 <= radius,
    ensures
        0 <= (a * r) / (radius * radius) <= a / radius,
        a / radius <= a,
{
    let den = radius * radius;
    assert(1 <= den) by (nonlinear_arith)
        requires
            1 <= radius,
            den == radius * radius,
    ;
    assert(a * r <= a * radius) by (nonlinear_arith)
        requires
            0 <= a,
            r <= radius,
    ;
    assert(0 <= a * r) by (nonlinear_arith)
        requires
            0 <= a,
            0 <= r,
    ;
    vstd::arithmetic::div_mod::lemma_div_is_ordered(a * r, a * radius, den);
    vstd::arithmetic::div_mod::lemma_div_denominator(a * radius, radius, radius);
    vstd::arithmetic::div_mod::lemma_div_multiples_vanish(a, radius);
    assert(a * radius == radius * a) by (nonlinear_arith);
    lemma_div_le_numerator(a, radius);
    lemma_div_le_numerator(a * r, den);
}

/// Executable integer square root by bisection.
pub fn isqrt_u128(n: u128) -> (r: u64)
    requires
        n < 1267650600228229401496703205376u128,  // 2^100
    ensures
        r == int_sqrt(n as nat),
        r * r <= n,
        n < (r + 1) * (r + 1),
{
    let mut lo: u64 = 0;
    let mut hi: u64 = 1_125_899_906_842_624;  // 2^50
    proof {
        assert((hi as int) * (hi as int) > n);
    }
    while lo + 1 < hi
        invariant
            lo < hi,
            hi <= 1_125_899_906_842_624,
            (lo as int) * (lo as int) <= n,
            n < (hi as int) * (hi as int),
        decreases hi - lo,
    {
        let mid: u64 = lo + (hi - lo) / 2;
        proof {
            assert((mid as int) * (mid as int) < 1267650600228229401496703205376int)
                by (nonlinear_arith)
                requires
                    0 <= mid < 1_125_899_906_842_624,
            ;
        }
        if (mid as u128) * (mid as u128) <= n {
            lo = mid;
        } else {
            hi = mid;
        }
    }
    proof {
        lemma_int_sqrt_unique(n as nat, lo as nat);
    }
    lo
}

/// Executable truncating division on 128-bit operands with a positive
/// divisor; the result always fits because the divisor is at least 1.
pub fn div_trunc_i128(a: i128, b: i128) -> (q: i128)
    requires
        b > 0,
    ensures
        q == div_trunc(a as int, b as int),
{
    proof {
        lemma_div_trunc_abs(a as int, b as int);
        lemma_div_le_numerator(abs_i(a as int), b as int);
    }
    let q = a.checked_div(b);
    q.unwrap()
}

} // verus!
