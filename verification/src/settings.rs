//! Whole-simulation settings: physics constants and the display knobs the
//! rendering collaborator reads, all as fixed-point scalars.

use vstd::prelude::*;

use crate::math::SCALE;

verus! {

/// Display and physics configuration. The physics fields feed the
/// integrator; the display fields are passed through to the renderer.
#[derive(Clone, Copy, PartialEq, Eq, Structural, Debug)]
pub struct Settings {
    /// Display width in pixels, fixed-point.
    pub display_width: i64,
    /// Display height in pixels, fixed-point.
    pub display_height: i64,
    /// Screen pixels per simulation pixel, fixed-point.
    pub pixel_size: i64,
    /// Gravitational constant, fixed-point.
    pub gravitational_constant: i64,
    /// Time step, fixed-point.
    pub time_step: i64,
    /// Smoothing length, fixed-point.
    pub smoothing_length: i64,
    /// Mass assigned to ghosts when they are drawn, fixed-point.
    pub ghost_mass: i64,
    /// How many stacked ghosts reach full brightness, fixed-point.
    pub ghost_stack_visible_limit: i64,
    /// Blur radius in pixels, fixed-point.
    pub blur_radius: i64,
}

impl Settings {
    /// The conditions a usable configuration satisfies: every quantity
    /// positive, at least one ghost per full-brightness stack, and a
    /// non-negative blur radius.
    pub open spec fn spec_valid(self) -> bool {
        &&& self.display_width > 0
        &&& self.display_height > 0
        &&& self.pixel_size > 0
        &&& self.gravitational_constant > 0
        &&& self.time_step > 0
        &&& self.smoothing_length > 0
        &&& self.ghost_mass > 0
        &&& self.ghost_stack_visible_limit >= SCALE
        &&& self.blur_radius >= 0
    }

    /// Reports whether the configuration is usable.
    pub fn is_valid(&self) -> (r: bool)
        ensures
            r == self.spec_valid(),
    {
        self.display_width > 0 && self.display_height > 0 && self.pixel_size > 0
            && self.gravitational_constant > 0 && self.time_step > 0 && self.smoothing_length > 0
            && self.ghost_mass > 0 && self.ghost_stack_visible_limit >= SCALE
            && self.blur_radius >= 0
    }
}

} // verus!
