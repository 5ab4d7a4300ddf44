//! The application launcher: a category sidebar and a scrollable grid of icons.

use vstd::prelude::*;

verus! {

/// What a touch on the launcher came to, and so where the rest of the touch goes.
#[derive(Debug, Clone, Copy, PartialEq, Eq, Structural)]
pub enum AppsTouch {
    /// No menu is open: the touch goes on to the next plugin.
    Nothing,
    /// Handled on the press (a dismissal, another category); nothing follows.
    Consumed,
    /// A drag of the grid started: its motion and its end come here.
    Drag,
}

} // verus!
