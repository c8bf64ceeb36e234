use vstd::prelude::*;

verus! {

/// Width and height of the arena, in thousandths of a world unit.
#[derive(Debug, Clone, Copy, PartialEq, Eq, Structural)]
pub struct Resolution {
    pub x: i64,
    pub y: i64,
}

/// Full arena width.
pub const RESOLUTION_X: i64 = 1_024_000;
/// Full arena height.
pub const RESOLUTION_Y: i64 = 480_000;
/// Half of the arena width.
pub const HALF_RESOLUTION_X: i64 = 512_000;
/// Half of the arena height.
pub const HALF_RESOLUTION_Y: i64 = 240_000;

/// Holds the arena size for the whole session; it never changes.
#[derive(Debug, Clone, Copy, PartialEq, Eq, Structural)]
pub struct Plugin {
    pub resolution: Resolution,
}

impl Resolution {
    /// The arena size.
    pub fn full() -> (r: Resolution)
        ensures
            r.x == RESOLUTION_X,
            r.y == RESOLUTION_Y,
    {
        Resolution { x: RESOLUTION_X, y: RESOLUTION_Y }
    }

    /// Half of each side of the arena.
    pub fn half() -> (r: Resolution)
        ensures
            r.x == HALF_RESOLUTION_X,
            r.y == HALF_RESOLUTION_Y,
            2 * r.x == RESOLUTION_X,
            2 * r.y == RESOLUTION_Y,
    {
        Resolution { x: RESOLUTION_X / 2, y: RESOLUTION_Y / 2 }
    }
}

impl Plugin {
    pub fn new() -> (r: Plugin)
        ensures
            r.resolution.x == RESOLUTION_X,
            r.resolution.y == RESOLUTION_Y,
    {
        Plugin { resolution: Resolution::full() }
    }
}

} // verus!
