//! The dialog that greets a user in the first session.

use vstd::prelude::*;

use crate::wm::{OutputId, Rect};

verus! {

/// Where the parts of the dialog are, and since when its gesture demo plays. The
/// captions are drawn by the renderer.
#[derive(Debug, Clone, Copy, PartialEq, Eq, Structural)]
pub struct OnboardingDialog {
    pub output: OutputId,
    /// Milliseconds since the compositor's start.
    pub start_ms: u64,
    pub panel: Rect,
    /// The dark "device screen" that the demo plays in.
    pub stage: Rect,
    pub dismiss: Rect,
}

} // verus!
