//! Server-side decoration geometry.
//!
//! When a toplevel leaves decoration to the compositor, a title bar is drawn for
//! it. The window's own rectangle stays that of its **content**; the bar lies
//! directly *above* it, so a floating window needs no geometry change, and only
//! maximising and snapping reserve [`BAR_H`] at the top of their region.

use vstd::prelude::*;

use crate::wm::{Rect, PX};

verus! {

/// Title-bar height.
pub const BAR_H: i64 = 32 * PX;

/// Side of the square close button.
pub const BTN: i64 = 22 * PX;

/// Inset of the close button from the bar's right and top edges.
pub const BTN_MARGIN: i64 = 5 * PX;

pub open spec fn bar_of(content: Rect) -> Rect {
    Rect { x: content.x, y: (content.y - BAR_H) as i64, w: content.w, h: BAR_H }
}

pub open spec fn close_of(content: Rect) -> Rect {
    Rect {
        x: (content.x + content.w - BTN - BTN_MARGIN) as i64,
        y: (content.y - BAR_H + (BAR_H - BTN) / 2) as i64,
        w: BTN,
        h: BTN,
    }
}

/// The title bar of a window whose **content** is `content`: a strip of height
/// [`BAR_H`] directly above it.
pub fn bar_rect(content: Rect) -> (r: Rect)
    requires
        content.bounded(),
    ensures
        r == bar_of(content),
{
    Rect::new(content.x, content.y - BAR_H, content.w, BAR_H)
}

/// The close button: a square pinned to the right of the title bar.
pub fn close_rect(content: Rect) -> (r: Rect)
    requires
        content.bounded(),
    ensures
        r == close_of(content),
{
    let bar: Rect = bar_rect(content);
    Rect::new(bar.x + bar.w - BTN - BTN_MARGIN, bar.y + (BAR_H - BTN) / 2, BTN, BTN)
}

/// What a pointer hit on a decorated window's chrome.
#[derive(Debug, Clone, Copy, PartialEq, Eq, Structural)]
pub enum DecoHit {
    /// The close button — release closes the window.
    Close,
    /// The draggable part of the title bar — press starts a move, a
    /// double-press maximises.
    Drag,
    /// Not on the decoration (the content, or elsewhere).
    Nothing,
}

/// Hit-test the decoration of a window whose content is `content`. The close
/// button takes precedence over the rest of the bar.
pub fn hit(content: Rect, px: i64, py: i64) -> (r: DecoHit)
    requires
        content.bounded(),
    ensures
        r == hit_of(content, px as int, py as int),
{
    if close_rect(content).contains(px, py) {
        DecoHit::Close
    } else if bar_rect(content).contains(px, py) {
        DecoHit::Drag
    } else {
        DecoHit::Nothing
    }
}

pub open spec fn hit_of(content: Rect, px: int, py: int) -> DecoHit {
    if close_of(content).holds(px, py) {
        DecoHit::Close
    } else if bar_of(content).holds(px, py) {
        DecoHit::Drag
    } else {
        DecoHit::Nothing
    }
}

/// The bar's bottom edge meets the content's top edge, and both are as wide.
pub proof fn law_bar_meets_content(content: Rect)
    requires
        content.bounded(),
    ensures
        bar_of(content).y + bar_of(content).h == content.y,
        bar_of(content).x == content.x,
        bar_of(content).w == content.w,
{
}

/// On a window wide enough for it, the close button lies inside the bar, as far
/// from its top as from its bottom, and in its right half where the window is
/// wider than twice the button and its margin.
pub proof fn law_close_inside_bar(content: Rect)
    requires
        content.bounded(),
        content.w >= BTN + BTN_MARGIN,
    ensures
        ({
            let bar = bar_of(content);
            let btn = close_of(content);
            &&& bar.x <= btn.x && btn.x + btn.w <= bar.x + bar.w
            &&& bar.y <= btn.y && btn.y + btn.h <= bar.y + bar.h
            &&& btn.y - bar.y == bar.y + bar.h - btn.y - btn.h
            &&& content.w > 2 * (BTN + BTN_MARGIN) ==> 2 * (btn.x - bar.x) > bar.w
        }),
{
}

/// A point of the content is never on the decoration.
pub proof fn law_content_is_no_chrome(content: Rect, px: int, py: int)
    requires
        content.bounded(),
        content.holds(px, py),
    ensures
        hit_of(content, px, py) == DecoHit::Nothing,
{
}

/// The bar is 32 pixels high and as wide as the content, right above it; the close
/// button is a square of 22 pixels, 5 pixels from the bar's right end and from its top.
pub proof fn law_bar_measures(content: Rect)
    requires
        content.bounded(),
    ensures
        bar_of(content).h == 32 * 256,
        bar_of(content).w == content.w,
        bar_of(content).x == content.x,
        bar_of(content).y + 32 * 256 == content.y,
        close_of(content).w == 22 * 256,
        close_of(content).h == 22 * 256,
        close_of(content).x + close_of(content).w + 5 * 256 == content.x + content.w,
        close_of(content).y == bar_of(content).y + 5 * 256,
{
}

/// A press on the close button closes, one on the rest of the bar drags, and one
/// anywhere else does neither.
pub proof fn law_bar_presses(content: Rect, px: int, py: int)
    requires
        content.bounded(),
        content.w >= 27 * 256,
    ensures
        hit_of(content, px, py) == DecoHit::Close <==> content.x + content.w - 27 * 256 <= px
            < content.x + content.w - 5 * 256 && content.y - 27 * 256 <= py < content.y - 5 * 256,
        hit_of(content, px, py) == DecoHit::Nothing <==> !(content.x <= px < content.x + content.w
            && content.y - 32 * 256 <= py < content.y),
{
}

} // verus!
