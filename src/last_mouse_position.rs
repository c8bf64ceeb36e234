use vstd::prelude::*;
use crate::velocity::Vec2;

verus! {

/// The pointer's last known place in the window.
#[derive(Debug, Clone, Copy, PartialEq, Eq, Structural)]
pub struct LastMousePosition(pub Vec2);

/// Keeps the pointer's last known place from frame to frame.
#[derive(Debug, Clone, Copy, PartialEq, Eq, Structural)]
pub struct Plugin {
    pub last_mouse_position: LastMousePosition,
}

impl Plugin {
    /// Starts with the pointer at the window's corner.
    pub fn new() -> (r: Plugin)
        ensures
            r.last_mouse_position.0.x == 0,
            r.last_mouse_position.0.y == 0,
    {
        Plugin { last_mouse_position: LastMousePosition(Vec2::zero()) }
    }

    /// Takes the pointer's place this frame, or keeps the last one when the
    /// pointer is not over the window.
    pub fn pre_update(&mut self, cursor: Option<Vec2>)
        ensures
            final(self).last_mouse_position.0 == match cursor {
                Some(p) => p,
                None => old(self).last_mouse_position.0,
            },
    {
        if let Some(p) = cursor {
            self.last_mouse_position = LastMousePosition(p);
        }
    }
}

} // verus!
