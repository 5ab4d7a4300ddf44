//! The recent-apps overview: how a card leaves it.

use vstd::prelude::*;

verus! {

/// Where a card is in being dismissed.
#[derive(Debug, Clone, Copy, PartialEq, Eq, Structural)]
pub enum DismissKind {
    /// Not far enough: the card comes back and stays.
    SnapBack,
    /// It flies off; once it is out of sight its window is asked to close.
    Closing,
    /// Its window was asked to close at this time, in milliseconds.
    Pending(u64),
    /// Its window refused: the card comes back and shows it.
    Refused,
}

} // verus!
