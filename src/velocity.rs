use vstd::prelude::*;
use crate::zaphkiel::clamp_spec;

verus! {

/// A point or a displacement in the plane, in thousandths of a world unit.
#[derive(Debug, Clone, Copy, PartialEq, Eq, Structural)]
pub struct Vec2 {
    pub x: i64,
    pub y: i64,
}

impl Vec2 {
    pub fn new(x: i64, y: i64) -> (r: Vec2)
        ensures
            r.x == x,
            r.y == y,
    {
        Vec2 { x, y }
    }

    pub open spec fn zero_spec() -> Vec2 {
        Vec2 { x: 0, y: 0 }
    }

    /// The origin, where the ball is served from.
    pub fn zero() -> (r: Vec2)
        ensures
            r == Vec2::zero_spec(),
    {
        Vec2 { x: 0, y: 0 }
    }
}

/// How far an entity moves in one frame.
#[derive(Debug, Clone, Copy, PartialEq, Eq, Structural)]
pub struct Velocity(pub Vec2);

pub open spec fn fits_i64(v: int) -> bool {
    i64::MIN <= v <= i64::MAX
}

/// Adds one frame of velocity to a position.
pub fn update_transform(translation: &mut Vec2, v: &Velocity)
    requires
        fits_i64(old(translation).x + v.0.x),
        fits_i64(old(translation).y + v.0.y),
    ensures
        final(translation).x == old(translation).x + v.0.x,
        final(translation).y == old(translation).y + v.0.y,
{
    translation.x = translation.x + v.0.x;
    translation.y = translation.y + v.0.y;
}

/// Clamps each coordinate of `v` between those of `min` and `max`.
pub fn clamp_vec(v: Vec2, min: Vec2, max: Vec2) -> (r: Vec2)
    requires
        min.x <= max.x,
        min.y <= max.y,
    ensures
        r.x == clamp_spec(v.x as int, min.x as int, max.x as int),
        r.y == clamp_spec(v.y as int, min.y as int, max.y as int),
{
    let x = if v.x < min.x { min.x } else if v.x > max.x { max.x } else { v.x };
    let y = if v.y < min.y { min.y } else if v.y > max.y { max.y } else { v.y };
    Vec2 { x, y }
}

} // verus!
