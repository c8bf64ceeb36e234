use vstd::prelude::*;
use crate::resolution::{HALF_RESOLUTION_X, HALF_RESOLUTION_Y};
use crate::velocity::{clamp_vec, Vec2};
use crate::zaphkiel::{abs_spec, clamp_spec, decay_spec, exponential_decay, in_coord_range, sign_spec, RETAIN_ONE};

verus! {

/// Half the thickness of the paddle.
pub const RADIUS: i64 = 5_000;
/// Length of the paddle's straight part.
pub const LENGTH: i64 = 45_000;
/// Half of `LENGTH`.
pub const HALF_LENGTH: i64 = 22_500;
/// Gap kept between the paddle and the arena's edge.
pub const PADDING: i64 = 3_000;
/// Most the paddle moves in one frame.
pub const MAX_SPEED: i64 = 40_000;
/// Least the paddle moves in one frame.
pub const MIN_SPEED: i64 = 2_000;

/// The paddle's fixed column, at the right edge.
pub const MIN_X: i64 = HALF_RESOLUTION_X - (RADIUS + PADDING);
pub const MAX_X: i64 = HALF_RESOLUTION_X - (RADIUS + PADDING);
/// Lowest centre the paddle can have.
pub const MIN_Y: i64 = HALF_LENGTH + RADIUS + PADDING - HALF_RESOLUTION_Y;
/// Highest centre the paddle can have.
pub const MAX_Y: i64 = HALF_RESOLUTION_Y - (HALF_LENGTH + RADIUS + PADDING);

/// The paddle that the game steers.
#[derive(Debug, Clone, Copy, PartialEq, Eq, Structural)]
pub struct Enemy {
    pub translation: Vec2,
}

/// Remembers which edge the paddle drifts to while the ball is on the far
/// half: `None`, or `Some` of `1` (up) or `-1` (down).
#[derive(Debug, Clone, Copy, PartialEq, Eq, Structural)]
pub struct Plugin {
    pub last_direction: Option<i64>,
}

/// The edge to drift to: the remembered one, or else the one on the side of
/// the paddle's current height.
pub open spec fn sticky_direction(last: Option<i64>, y: int) -> int {
    match last {
        Some(d) => d as int,
        None => sign_spec(y),
    }
}

pub open spec fn direction_ok(last: Option<i64>) -> bool {
    match last {
        Some(d) => d == 1 || d == -1,
        None => true,
    }
}

/// Where the paddle heads: the ball's height while the ball is on the near
/// half, else the remembered edge.
pub open spec fn target_spec(last: Option<i64>, y: int, ball: Vec2) -> int {
    if ball.x >= 0 {
        ball.y as int
    } else {
        sticky_direction(last, y) * HALF_RESOLUTION_Y
    }
}

/// The paddle's next height: it moves the way smoothing would, by the
/// smoothed distance clamped to `[MIN_SPEED, MAX_SPEED]`.
pub open spec fn steer_spec(y: int, target: int, retain: int) -> int {
    let speed = y - decay_spec(y, target, retain);
    y - sign_spec(speed) * clamp_spec(abs_spec(speed), MIN_SPEED as int, MAX_SPEED as int)
}

pub open spec fn in_bounds(p: Vec2) -> bool {
    &&& MIN_X <= p.x <= MAX_X
    &&& MIN_Y <= p.y <= MAX_Y
}

impl Enemy {
    /// The paddle at the right edge, at mid height.
    pub fn spawn() -> (e: Enemy)
        ensures
            e.translation.x == MIN_X,
            e.translation.y == 0,
            in_bounds(e.translation),
    {
        Enemy { translation: Vec2 { x: HALF_RESOLUTION_X - (RADIUS + PADDING), y: 0 } }
    }

    /// Keeps the paddle inside its bounds.
    pub fn restrict(&mut self)
        ensures
            final(self).translation.x == clamp_spec(old(self).translation.x as int, MIN_X as int, MAX_X as int),
            final(self).translation.y == clamp_spec(old(self).translation.y as int, MIN_Y as int, MAX_Y as int),
            in_bounds(final(self).translation),
    {
        self.translation = clamp_vec(self.translation, Vec2 { x: MIN_X, y: MIN_Y }, Vec2 { x: MAX_X, y: MAX_Y });
    }
}

impl Plugin {
    pub fn new() -> (r: Plugin)
        ensures
            r.last_direction.is_none(),
    {
        Plugin { last_direction: None }
    }

    /// Steers the paddle toward its target for one frame. `retain` is the
    /// share of the distance that smoothing at half the player's rate keeps
    /// (see `exponential_decay`).
    ///
    /// While the ball is on the near half the remembered edge is forgotten;
    /// while it is on the far half the edge is chosen once and then kept.
    pub fn update(&mut self, enemy: &mut Enemy, ball: Vec2, retain: u64)
        requires
            direction_ok(old(self).last_direction),
            in_coord_range(ball.y),
            in_coord_range(old(enemy).translation.y),
            retain <= RETAIN_ONE,
        ensures
            direction_ok(final(self).last_direction),
            ball.x >= 0 ==> final(self).last_direction.is_none(),
            ball.x < 0 ==> final(self).last_direction == Some(
                sticky_direction(old(self).last_direction, old(enemy).translation.y as int) as i64,
            ),
            ball.x < 0 && old(self).last_direction.is_some() ==> final(self).last_direction
                == old(self).last_direction,
            final(enemy).translation.x == old(enemy).translation.x,
            final(enemy).translation.y == steer_spec(
                old(enemy).translation.y as int,
                target_spec(old(self).last_direction, old(enemy).translation.y as int, ball),
                retain as int,
            ),
    {
        let y = enemy.translation.y;
        let target = if ball.x >= 0 {
            self.last_direction = None;
            ball.y
        } else {
            let dir: i64 = match self.last_direction {
                Some(d) => d,
                None => if y >= 0 { 1 } else { -1 },
            };
            self.last_direction = Some(dir);
            dir * HALF_RESOLUTION_Y
        };

        let smoothed = exponential_decay(y, target, retain);
        let speed = y - smoothed;
        let sign: i64 = if speed >= 0 { 1 } else { -1 };
        let magnitude = if speed < 0 { -speed } else { speed };
        let magnitude = if magnitude < MIN_SPEED {
            MIN_SPEED
        } else if magnitude > MAX_SPEED {
            MAX_SPEED
        } else {
            magnitude
        };
        proof {
            assert(magnitude * sign == sign * magnitude) by (nonlinear_arith);
            assert(target == target_spec(old(self).last_direction, y as int, ball));
        }
        enemy.translation.y = y - magnitude * sign;
    }
}

} // verus!
