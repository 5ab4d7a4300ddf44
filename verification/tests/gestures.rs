//! Touch gestures over text and windows.

use bacak_compositor::gestures::{
    SelectionGesture, SelectionRecognizer, TwoFingerOut, TwoFingerRecognizer, LONG_PRESS_MS, SLOP,
};
use bacak_compositor::wm::PX;

#[test]
fn stationary_hold_emits_long_press_once_mid_hold() {
    let mut r = SelectionRecognizer::new();
    r.down(100 * PX, 100 * PX, 0);
    assert_eq!(r.tick(400), None, "not yet past the threshold");
    assert_eq!(
        r.tick(500),
        Some(SelectionGesture::LongPress { x: 100 * PX, y: 100 * PX }),
        "fires at the threshold"
    );
    assert_eq!(r.tick(900), None, "only once per sequence");
    // The matching release must stay silent (the long-press already spoke).
    assert_eq!(r.up(950), None);
}

#[test]
fn movement_past_slop_cancels_long_press() {
    let mut r = SelectionRecognizer::new();
    r.down(100 * PX, 100 * PX, 0);
    r.motion(100 * PX, 120 * PX); // 20 px > SLOP
    assert_eq!(r.tick(600), None, "a drag never long-presses");
    assert_eq!(r.up(650), None, "a drag is not a tap");
}

#[test]
fn quick_stationary_touch_is_a_tap() {
    let mut r = SelectionRecognizer::new();
    r.down(50 * PX, 50 * PX, 0);
    assert_eq!(r.up(80), Some(SelectionGesture::Tap { x: 50 * PX, y: 50 * PX }));
}

#[test]
fn two_close_quick_taps_make_a_double_tap() {
    let mut r = SelectionRecognizer::new();
    r.down(50 * PX, 50 * PX, 0);
    assert_eq!(r.up(60), Some(SelectionGesture::Tap { x: 50 * PX, y: 50 * PX }));
    r.down(52 * PX, 51 * PX, 200);
    assert_eq!(
        r.up(240),
        Some(SelectionGesture::DoubleTap { x: 52 * PX, y: 51 * PX })
    );
}

#[test]
fn three_close_quick_taps_make_a_triple_tap() {
    let mut r = SelectionRecognizer::new();
    r.down(50 * PX, 50 * PX, 0);
    r.up(40);
    r.down(50 * PX, 50 * PX, 150);
    r.up(190);
    r.down(50 * PX, 50 * PX, 300);
    assert_eq!(
        r.up(340),
        Some(SelectionGesture::TripleTap { x: 50 * PX, y: 50 * PX })
    );
}

#[test]
fn slow_second_tap_starts_a_new_single_tap() {
    let mut r = SelectionRecognizer::new();
    r.down(50 * PX, 50 * PX, 0);
    r.up(40);
    // Gap exceeds MULTI_TAP_MS → not a double.
    r.down(50 * PX, 50 * PX, 500);
    assert_eq!(r.up(540), Some(SelectionGesture::Tap { x: 50 * PX, y: 50 * PX }));
}

#[test]
fn far_second_tap_starts_a_new_single_tap() {
    let mut r = SelectionRecognizer::new();
    r.down(50 * PX, 50 * PX, 0);
    r.up(40);
    // Within time but far away → not a double.
    r.down(400 * PX, 400 * PX, 200);
    assert_eq!(
        r.up(240),
        Some(SelectionGesture::Tap { x: 400 * PX, y: 400 * PX })
    );
}

#[test]
fn cancel_drops_the_live_touch() {
    let mut r = SelectionRecognizer::new();
    r.down(50 * PX, 50 * PX, 0);
    r.cancel();
    assert_eq!(r.tick(600), None);
    assert_eq!(r.up(650), None);
}

// --- two-finger recogniser ------------------------------------------

#[test]
fn two_finger_drag_moves_by_centroid_delta() {
    let mut r = TwoFingerRecognizer::new();
    r.down(0, 100 * PX, 100 * PX, 0);
    r.down(1, 200 * PX, 100 * PX, 5); // centroid (150,100)
    // Small jitter under slop → no move yet.
    assert_eq!(r.motion(0, 104 * PX, 100 * PX), None);
    // Both fingers shift right by 60 → centroid +30 in x, past slop.
    assert_eq!(r.motion(0, 160 * PX, 100 * PX), Some(TwoFingerOut::MoveTo { dx: 30 * PX, dy: 0 * PX }));
    let _ = r.motion(1, 260 * PX, 100 * PX); // centroid (210,100) → dx 60
    assert_eq!(r.motion(1, 260 * PX, 100 * PX), Some(TwoFingerOut::MoveTo { dx: 60 * PX, dy: 0 * PX }));
    assert!(r.is_active());
}

#[test]
fn two_finger_double_tap_emits_once() {
    let mut r = TwoFingerRecognizer::new();
    // First stationary two-finger tap.
    r.down(0, 100 * PX, 100 * PX, 0);
    r.down(1, 200 * PX, 100 * PX, 0);
    assert_eq!(r.up(0, 50), None); // first tap registered
    assert_eq!(r.up(1, 55), None);
    // Second tap shortly after → double-tap.
    r.down(0, 100 * PX, 100 * PX, 100);
    r.down(1, 200 * PX, 100 * PX, 100);
    assert_eq!(r.up(0, 150), Some(TwoFingerOut::DoubleTap));
    assert_eq!(r.up(1, 155), None);
}

#[test]
fn two_finger_drag_is_not_a_tap() {
    let mut r = TwoFingerRecognizer::new();
    r.down(0, 100 * PX, 100 * PX, 0);
    r.down(1, 200 * PX, 100 * PX, 0);
    let _ = r.motion(0, 200 * PX, 100 * PX); // moved well past slop
    assert_eq!(r.up(0, 50), None); // a move never counts as a tap
    let _ = r.up(1, 55);
}

#[test]
fn third_finger_cancels_two_finger() {
    let mut r = TwoFingerRecognizer::new();
    r.down(0, 100 * PX, 100 * PX, 0);
    r.down(1, 200 * PX, 100 * PX, 0);
    r.down(2, 300 * PX, 100 * PX, 0); // third finger → workspace/overview territory
    assert!(!r.is_active());
    assert_eq!(r.motion(0, 400 * PX, 100 * PX), None); // no window move
}

#[test]
fn a_touch_at_the_slop_is_still_a_tap() {
    let mut r = SelectionRecognizer::new();
    r.down(0, 0, 0);
    r.motion(SLOP, 0);
    assert_eq!(r.up(80), Some(SelectionGesture::Tap { x: 0, y: 0 }));
    let mut r = SelectionRecognizer::default();
    r.down(0, 0, 0);
    r.motion(SLOP + 1, 0);
    assert_eq!(r.up(80), None);
}

#[test]
fn a_long_press_is_told_by_the_clock_alone() {
    // Nobody looked at the clock while the finger was down: a release is a tap.
    let mut r = SelectionRecognizer::new();
    r.down(0, 0, 0);
    assert_eq!(r.up(LONG_PRESS_MS + 1), Some(SelectionGesture::Tap { x: 0, y: 0 }));
}

#[test]
fn two_finger_cancel_forgets_the_first_tap() {
    let mut r = TwoFingerRecognizer::default();
    r.down(0, 0, 0, 0);
    r.down(1, PX, 0, 0);
    assert_eq!(r.live_centroid(), Some((PX / 2, 0)));
    r.up(0, 50);
    r.up(1, 50);
    r.cancel();
    assert_eq!(r.live_centroid(), None);
    r.down(0, 0, 0, 100);
    r.down(1, PX, 0, 100);
    assert_eq!(r.up(0, 150), None);
}

#[test]
fn any_number_of_quick_taps_is_a_triple_tap() {
    let mut r = SelectionRecognizer::new();
    for i in 0..600u64 {
        r.down(5 * PX, 5 * PX, 100 * i);
        let out = r.up(100 * i + 10).unwrap();
        match i {
            0 => assert!(matches!(out, SelectionGesture::Tap { .. })),
            1 => assert!(matches!(out, SelectionGesture::DoubleTap { .. })),
            _ => assert!(matches!(out, SelectionGesture::TripleTap { .. })),
        }
    }
}

#[test]
fn a_finger_that_is_not_down_ends_no_tap() {
    let mut r = TwoFingerRecognizer::new();
    r.down(0, 100 * PX, 100 * PX, 0);
    r.down(1, 200 * PX, 100 * PX, 0);
    assert_eq!(r.up(7, 10), None);
    assert!(r.is_active());
    // This is the first tap, so nothing yet; the next one is the second.
    assert_eq!(r.up(0, 50), None);
    assert_eq!(r.up(1, 55), None);
    r.down(0, 100 * PX, 100 * PX, 100);
    r.down(1, 200 * PX, 100 * PX, 100);
    assert_eq!(r.up(1, 150), Some(TwoFingerOut::DoubleTap));
}
