//! Gravitational N-body simulation core.
//!
//! The engine evolves a two-tier particle ensemble: massive particles, which
//! both exert and feel gravity, and ghost particles, which feel gravity from
//! the massive set but never exert any. All physical quantities are carried
//! as fixed-point integers (see [`math::SCALE`]): every operation of the
//! force kernel, the integrator and the generators is exact integer
//! arithmetic, so each result is pinned down by its contract. Values that
//! would leave the representable range are reported as a fault, the integer
//! counterpart of a non-finite float.

pub mod math;
pub mod vec3;
pub mod random;
pub mod nbody;
pub mod gravity;
pub mod grid;
pub mod settings;
pub mod particle;
pub mod laws;
