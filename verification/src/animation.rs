//! What follows a window animation.

use vstd::prelude::*;

use crate::wm::{Rect, SnapZone};

verus! {

/// What is recorded once a window's springs settle.
#[derive(Debug, Clone, Copy, PartialEq, Eq, Structural)]
pub enum AnimEnd {
    /// A plain floating drop; nothing to commit.
    Nothing,
    /// The window is snapped to this zone.
    Snap(SnapZone),
    /// The window is minimized, and its geometry from before the animation is
    /// put back: the spring shrank it toward the dock for show, and this is what
    /// an un-minimize expands back to.
    Minimize { restore: Rect },
}

} // verus!
