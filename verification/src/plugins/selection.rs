//! The floating menu over a selection.

use vstd::prelude::*;

use crate::wm::{OutputId, Rect};

verus! {

/// What a button of the menu does. Each drives the focused app by the keys that
/// it binds to it.
#[derive(Debug, Clone, Copy, PartialEq, Eq, Structural)]
pub enum SelectionAction {
    /// Ctrl+C.
    Copy,
    /// Ctrl+V.
    Paste,
    /// Ctrl+A.
    SelectAll,
    /// Copies, so that the button is never a dead end.
    Search,
}

#[derive(Debug, Clone, PartialEq, Eq)]
pub struct FloatingMenuItem {
    pub label: String,
    pub action: SelectionAction,
    /// The icon drawn above the label.
    pub icon: &'static str,
}

/// A strip of buttons near the place that was touched.
#[derive(Debug, Clone, PartialEq, Eq)]
pub struct FloatingMenu {
    pub output: OutputId,
    pub rect: Rect,
    pub items: Vec<FloatingMenuItem>,
    /// The button of each item, from left to right.
    pub buttons: Vec<Rect>,
}

} // verus!
