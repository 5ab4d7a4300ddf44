//! Title bars drawn by the compositor.

use bacak_compositor::decoration::{bar_rect, close_rect, hit, DecoHit, BAR_H};
use bacak_compositor::wm::{Rect, PX};

fn content() -> Rect {
    Rect::px(100, 200, 640, 480)
}

#[test]
fn bar_sits_directly_above_content() {
    let b = bar_rect(content());
    assert_eq!(b.x, 100 * PX);
    assert_eq!(b.y, 200 * PX - BAR_H);
    assert_eq!(b.w, 640 * PX);
    assert_eq!(b.h, BAR_H);
    // Bar's bottom edge meets the content's top edge.
    assert_eq!(b.y + b.h, 200 * PX);
}

#[test]
fn close_button_is_inside_the_bar_on_the_right() {
    let c = content();
    let bar = bar_rect(c);
    let btn = close_rect(c);
    assert!(btn.x >= bar.x && btn.x + btn.w <= bar.x + bar.w);
    assert!(btn.y >= bar.y && btn.y + btn.h <= bar.y + bar.h);
    // It's on the right half.
    assert!(btn.x > bar.x + bar.w / 2);
}

#[test]
fn hit_test_close_beats_drag_beats_none() {
    let c = content();
    let btn = close_rect(c);
    // Centre of the close button → Close.
    assert_eq!(hit(c, btn.x + btn.w / 2, btn.y + btn.h / 2), DecoHit::Close);
    // Left of the bar (clear of the button) → Drag.
    assert_eq!(hit(c, c.x + 10 * PX, c.y - BAR_H / 2), DecoHit::Drag);
    // Inside the content (below the bar) → nothing.
    assert_eq!(hit(c, c.x + 10 * PX, c.y + 10 * PX), DecoHit::Nothing);
    // Above the bar → nothing.
    assert_eq!(hit(c, c.x + 10 * PX, c.y - BAR_H - 5 * PX), DecoHit::Nothing);
}
