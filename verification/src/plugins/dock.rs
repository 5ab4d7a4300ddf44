//! The dock: its tiles and its context menu.

use vstd::prelude::*;

use crate::wm::{OutputId, Rect, WindowId};

verus! {

/// The context menu of a tile, at the place where it is drawn and hit.
#[derive(Debug, Clone, PartialEq, Eq)]
pub struct DockMenu {
    pub output: OutputId,
    pub rect: Rect,
    pub items: Vec<DockMenuItem>,
}

#[derive(Debug, Clone, PartialEq, Eq)]
pub struct DockMenuItem {
    pub label: String,
    pub action: DockMenuAction,
}

/// What a menu item does. It carries what it needs, since tiles may move between
/// opening the menu and choosing from it.
#[derive(Debug, Clone, PartialEq, Eq)]
pub enum DockMenuAction {
    /// Focus the window, never minimise it.
    Activate(WindowId),
    CloseWindow(WindowId),
    Launch(String),
    Pin(String),
    Unpin(String),
}

/// A tile of the dock: where it is, the app, the window it stands for, and
/// whether it is pinned.
#[derive(Debug, Clone, PartialEq, Eq)]
pub struct DockEntry {
    pub rect: Rect,
    pub app: String,
    pub window: Option<WindowId>,
    pub pinned: bool,
}

} // verus!
