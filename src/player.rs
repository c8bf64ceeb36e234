use vstd::prelude::*;
use crate::resolution::{HALF_RESOLUTION_X, HALF_RESOLUTION_Y, RESOLUTION_Y};
use crate::velocity::{clamp_vec, Vec2};
use crate::zaphkiel::{clamp_spec, decay_spec, exponential_decay, in_coord_range, RETAIN_ONE};

verus! {

/// Half the thickness of the paddle.
pub const RADIUS: i64 = 5_000;
/// Length of the paddle's straight part.
pub const LENGTH: i64 = 45_000;
/// Half of `LENGTH`.
pub const HALF_LENGTH: i64 = 22_500;
/// Gap kept between the paddle and the arena's edge.
pub const PADDING: i64 = 3_000;

/// The paddle's fixed column, at the left edge.
pub const MIN_X: i64 = RADIUS + PADDING - HALF_RESOLUTION_X;
pub const MAX_X: i64 = RADIUS + PADDING - HALF_RESOLUTION_X;
/// Lowest centre the paddle can have.
pub const MIN_Y: i64 = HALF_LENGTH + RADIUS + PADDING - HALF_RESOLUTION_Y;
/// Highest centre the paddle can have.
pub const MAX_Y: i64 = HALF_RESOLUTION_Y - (HALF_LENGTH + RADIUS + PADDING);

/// The paddle that follows the pointer.
#[derive(Debug, Clone, Copy, PartialEq, Eq, Structural)]
pub struct Player {
    pub translation: Vec2,
}

/// Where the paddle heads for the pointer at window row `mouse_y`: the window
/// is counted downward from its top, the arena upward from its centre.
pub open spec fn pointer_target(mouse_y: int) -> int {
    HALF_RESOLUTION_Y - mouse_y
}

pub open spec fn in_bounds(p: Vec2) -> bool {
    &&& MIN_X <= p.x <= MAX_X
    &&& MIN_Y <= p.y <= MAX_Y
}

impl Player {
    /// The paddle at the left edge, at mid height.
    pub fn spawn() -> (p: Player)
        ensures
            p.translation.x == MIN_X,
            p.translation.y == 0,
            in_bounds(p.translation),
    {
        Player { translation: Vec2 { x: -HALF_RESOLUTION_X + RADIUS + PADDING, y: 0 } }
    }

    /// Moves the paddle toward the pointer's row, keeping `retain` of the
    /// distance (see `exponential_decay`).
    pub fn handle_input(&mut self, mouse_y: i64, retain: u64)
        requires
            0 <= mouse_y <= RESOLUTION_Y,
            in_coord_range(old(self).translation.y),
            retain <= RETAIN_ONE,
        ensures
            final(self).translation.x == old(self).translation.x,
            final(self).translation.y == decay_spec(
                old(self).translation.y as int,
                pointer_target(mouse_y as int),
                retain as int,
            ),
    {
        let target = HALF_RESOLUTION_Y - mouse_y;
        self.translation.y = exponential_decay(self.translation.y, target, retain);
    }

    /// Keeps the paddle inside its bounds.
    pub fn restrict(&mut self)
        ensures
            final(self).translation.x == clamp_spec(old(self).translation.x as int, MIN_X as int, MAX_X as int),
            final(self).translation.y == clamp_spec(old(self).translation.y as int, MIN_Y as int, MAX_Y as int),
            in_bounds(final(self).translation),
    {
        self.translation = clamp_vec(self.translation, Vec2 { x: MIN_X, y: MIN_Y }, Vec2 { x: MAX_X, y: MAX_Y });
    }
}

} // verus!
