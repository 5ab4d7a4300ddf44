//! What each recognised gesture does.

use vstd::prelude::*;

use crate::input::{Gesture, SwipeDir};
use crate::plugins::GesturePlugin;
use crate::wm::OutputId;

verus! {

/// What is done for a gesture.
#[derive(Debug, Clone, Copy, PartialEq, Eq, Structural)]
pub enum GestureStep {
    /// Go to the next workspace of the output (1) or to the one before (-1).
    SwitchWorkspace { output: OutputId, delta: i32 },
    ToggleOverview { output: OutputId },
    /// Count a two-finger tap, which opens a terminal in the end.
    SecondaryTap,
    /// The gesture is recognised, but nothing takes it.
    Declined,
}

/// Fingers that swipe left advance, as the workspace to the right slides in.
pub open spec fn gesture_step(primary: Option<OutputId>, gesture: Gesture) -> GestureStep {
    match gesture {
        Gesture::SwitchWorkspace { direction } => match primary {
            Some(output) => GestureStep::SwitchWorkspace {
                output,
                delta: match direction {
                    SwipeDir::Left => 1,
                    SwipeDir::Right => (-1) as i32,
                },
            },
            None => GestureStep::Declined,
        },
        Gesture::TaskOverview => match primary {
            Some(output) => GestureStep::ToggleOverview { output },
            None => GestureStep::Declined,
        },
        Gesture::SecondaryTap => GestureStep::SecondaryTap,
        _ => GestureStep::Declined,
    }
}

impl GesturePlugin {
    /// What is done for a gesture on the primary output.
    pub fn on_gesture(&self, primary: Option<OutputId>, gesture: Gesture) -> (r: GestureStep)
        ensures
            r == gesture_step(primary, gesture),
    {
        match gesture {
            Gesture::SwitchWorkspace { direction } => match primary {
                Some(output) => GestureStep::SwitchWorkspace {
                    output,
                    delta: match direction {
                        SwipeDir::Left => 1,
                        SwipeDir::Right => -1,
                    },
                },
                None => GestureStep::Declined,
            },
            Gesture::TaskOverview => match primary {
                Some(output) => GestureStep::ToggleOverview { output },
                None => GestureStep::Declined,
            },
            Gesture::SecondaryTap => GestureStep::SecondaryTap,
            _ => GestureStep::Declined,
        }
    }

    /// Whether the gesture was handled, once its step was done: a switch of
    /// workspaces may be refused.
    pub fn handled(&self, step: GestureStep, ok: bool) -> (r: bool)
        ensures
            r == (match step {
                GestureStep::SwitchWorkspace { .. } => ok,
                GestureStep::Declined => false,
                _ => true,
            }),
    {
        match step {
            GestureStep::SwitchWorkspace { .. } => ok,
            GestureStep::Declined => false,
            _ => true,
        }
    }
}

/// Opposite swipes switch in opposite directions, so that one undoes the other.
pub proof fn law_swipes_are_opposite(output: OutputId)
    ensures
        ({
            let left = gesture_step(
                Some(output),
                Gesture::SwitchWorkspace { direction: SwipeDir::Left },
            );
            let right = gesture_step(
                Some(output),
                Gesture::SwitchWorkspace { direction: SwipeDir::Right },
            );
            left->SwitchWorkspace_delta + right->SwitchWorkspace_delta == 0
        }),
{
}

/// Fingers that swipe to the left bring the next workspace, to the right the previous
/// one; three fingers up toggle the overview, on the primary output. Without one nothing
/// can be switched, and every other gesture is declined.
pub proof fn law_gesture_steps(output: OutputId, other: Gesture)
    ensures
        gesture_step(Some(output), (Gesture::SwitchWorkspace { direction: SwipeDir::Left })) == (
        GestureStep::SwitchWorkspace { output, delta: 1 }),
        gesture_step(Some(output), (Gesture::SwitchWorkspace { direction: SwipeDir::Right })) == (
        GestureStep::SwitchWorkspace { output, delta: (-1) as i32 }),
        gesture_step(Some(output), Gesture::TaskOverview) == (GestureStep::ToggleOverview {
            output,
        }),
        gesture_step(None, Gesture::TaskOverview) == GestureStep::Declined,
        gesture_step(None, (Gesture::SwitchWorkspace { direction: SwipeDir::Left }))
            == GestureStep::Declined,
        gesture_step(None, Gesture::SecondaryTap) == GestureStep::SecondaryTap,
        !(other is SwitchWorkspace) && !(other is TaskOverview) && !(other is SecondaryTap)
            ==> gesture_step(Some(output), other) == GestureStep::Declined,
{
}

} // verus!
