//! The on-screen keyboard, touch strokes and who gets a touch.

use bacak_compositor::input::{
    classify, FocusedField, Gesture, InputMode, OskConfig, OskController, OskError, OskLayout, OskPress,
    OskRect, OskState, OskTextPress, SwipeDir, TouchAggregator, TouchArbiter, TouchRoute,
};
use bacak_compositor::keyboard::LayoutId;
use bacak_compositor::wm::{Monitor, Rect, Struts, WindowManager, PX};

#[test]
fn osk_full_lifecycle() {
    let mut wm = wm_with_screen();
    let mut osk = OskController::new(OskConfig::default());
    let field = FocusedField {
        rect: OskRect { x: 100 * PX, y: 700 * PX, w: 400 * PX, h: 32 * PX },
        mode: InputMode::Url,
        has_hw_keyboard: false,
    };
    osk.open_for(&mut wm, field).unwrap();
    assert_eq!(osk.state(), OskState::Opening);
    assert_eq!(osk.enter_label(), "Go");
    osk.confirm_open().unwrap();
    assert_eq!(osk.state(), OskState::Open);
    osk.close(&mut wm);
    osk.confirm_close().unwrap();
    assert_eq!(osk.state(), OskState::Closed);
}

#[test]
fn press_types_into_default_bottom_panel() {
    let mut osk = OskController::new(OskConfig::default()); // 1440x900, kb 280
    let panel = osk.panel_rect();
    assert!(panel.y == (900 - 280) * PX, "default = bottom dock");
    // Press the centre of a real key (from the laid-out rects, so we never
    // land in an inter-key gap).
    let key = osk.render_keys()[20].clone();
    let press = osk.press_at(key.x + key.w / 2, key.y + key.h / 2, 0);
    match press {
        OskPress::Key(_) => {}
        other => panic!("expected a key press, got {other:?}"),
    }
    osk.release();
}

#[test]
fn title_grab_then_drag_floats_and_moves() {
    let mut osk = OskController::new(OskConfig::default());
    let panel = osk.panel_rect();
    // Grab the title strip.
    let p = osk.press_at(panel.x + panel.w / 2, panel.y + 5 * PX, 0);
    assert!(matches!(p, OskPress::TitleGrab));
    assert!(osk.is_dragging());
    // Drag toward the screen centre.
    osk.drag_to(400 * PX, 300 * PX);
    let moved = osk.panel_rect();
    assert!(moved.y < panel.y, "panel should have moved up off the dock");
    osk.drag_end();
    assert!(!osk.is_dragging());
}

#[test]
fn restore_default_redocks_bottom() {
    let mut osk = OskController::new(OskConfig::default());
    let panel = osk.panel_rect();
    osk.press_at(panel.x + panel.w / 2, panel.y + 5 * PX, 0);
    osk.drag_to(200 * PX, 150 * PX);
    assert!(osk.panel_rect().y < panel.y);
    osk.restore_default_position();
    assert!(osk.panel_rect().y == (900 - 280) * PX);
}

#[test]
fn auto_position_lifts_floating_panel_off_a_low_field() {
    let mut osk = OskController::new(OskConfig::default());
    // Float the panel low so it would cover a bottom field.
    let panel = osk.panel_rect();
    osk.press_at(panel.x + panel.w / 2, panel.y + 5 * PX, 0);
    osk.drag_to(300 * PX, 560 * PX); // floating, top-left ~ (300,555)
    osk.drag_end();
    let before = osk.panel_rect();
    // A field overlapping the floating panel.
    let field = OskRect { x: 320 * PX, y: before.y + 10 * PX, w: 300 * PX, h: 40 * PX };
    osk.auto_position(field);
    let after = osk.panel_rect();
    assert!(after.y != before.y, "overlapping field should relocate the panel");
}

#[test]
fn render_keys_nonempty_and_inside_panel() {
    let mut osk = OskController::new(OskConfig::default());
    let panel = osk.panel_rect();
    let keys = osk.render_keys();
    assert!(!keys.is_empty());
    for k in &keys {
        assert!(k.x >= panel.x && k.x + k.w <= panel.x + panel.w);
        assert!(!k.label.is_empty() || k.is_action);
    }
}

#[test]
fn turkish_layout_switch_reports_tr_xkb() {
    let mut osk = OskController::new(OskConfig::default());
    assert_eq!(osk.goto_layout(LayoutId::Turkish), Some(("tr", "f")));
    assert_eq!(osk.layout_id(), LayoutId::Turkish);
}

#[test]
fn gestures_classify() {
    assert_eq!(
        classify(3, -120 * PX, 5 * PX, 200),
        Some(Gesture::SwitchWorkspace { direction: SwipeDir::Left })
    );
    assert_eq!(classify(3, 0, -120 * PX, 200), Some(Gesture::TaskOverview));
    assert_eq!(classify(1, 2 * PX, 1 * PX, 600), Some(Gesture::LongPress));
}

#[test]
fn touch_aggregator_three_finger_left_swipe() {
    let mut agg = TouchAggregator::new();
    // Three fingers land at slightly different times — peak_count
    // must capture the maximum (3), not the count when they lift.
    agg.down(0, 100 * PX, 500 * PX, 0);
    agg.down(1, 150 * PX, 500 * PX, 5);
    agg.down(2, 200 * PX, 500 * PX, 10);
    assert_eq!(agg.fingers(), 3);
    // Drag left.
    agg.motion(0, -50 * PX, 500 * PX);
    agg.motion(1, 0, 500 * PX);
    agg.motion(2, 50 * PX, 500 * PX);
    // Lift staggered. Only the final `up` should emit.
    assert!(agg.up(0, 200).is_none());
    assert!(agg.up(1, 210).is_none());
    let g = agg.up(2, 220).expect("gesture should emit on last lift");
    assert_eq!(g, Gesture::SwitchWorkspace { direction: SwipeDir::Left });
    assert!(!agg.is_active());
}

#[test]
fn touch_aggregator_cancel_drops_state() {
    let mut agg = TouchAggregator::new();
    agg.down(0, 0, 0, 0);
    agg.down(1, 10 * PX, 0, 0);
    agg.cancel();
    assert_eq!(agg.fingers(), 0);
    // Subsequent `up` for a slot that never re-landed must not emit.
    assert!(agg.up(0, 100).is_none());
}

#[test]
fn touch_aggregator_long_press_single_finger() {
    let mut agg = TouchAggregator::new();
    agg.down(7, 100 * PX, 100 * PX, 0);
    agg.motion(7, 101 * PX, 100 * PX + PX / 2);
    let g = agg.up(7, 700).expect("long press");
    assert_eq!(g, Gesture::LongPress);
}

// -- OSK ↔ WM strut bridge ---------------------------------------------

fn wm_with_screen() -> WindowManager {
    WindowManager::new(Monitor { work_area: Rect::px(0, 0, 1440, 900) })
}

fn focused_text_field() -> FocusedField {
    FocusedField {
        rect: OskRect { x: 100 * PX, y: 700 * PX, w: 400 * PX, h: 32 * PX },
        mode: InputMode::Text,
        has_hw_keyboard: false,
    }
}

#[test]
fn open_publishes_strut_when_bound() {
    let mut wm = wm_with_screen();
    let mut osk = OskController::new(OskConfig::default());
    let primary = wm.primary_output().unwrap();
    osk.bind(&mut wm, primary);

    osk.open_for(&mut wm, focused_text_field()).unwrap();
    // OskConfig::default().keyboard_h == 280, so the work area should
    // shrink by exactly that amount on the bottom.
    let m = wm.active_monitor().unwrap();
    assert_eq!(m.work_area, Rect::px(0, 0, 1440, 900 - 280));
}

#[test]
fn close_restores_previous_struts() {
    let mut wm = wm_with_screen();
    let mut osk = OskController::new(OskConfig::default());
    let primary = wm.primary_output().unwrap();
    // Dock is reserving 64 px at the bottom before the OSK shows up.
    wm.set_struts(primary, Struts { bottom: 64 * PX, ..Default::default() }).unwrap();

    osk.bind(&mut wm, primary);
    osk.open_for(&mut wm, focused_text_field()).unwrap();
    // While open, OSK's strut supersedes the dock's.
    assert_eq!(wm.output(primary).unwrap().struts.bottom, 280 * PX);

    osk.close(&mut wm);
    // Dock's reservation is back, exactly.
    assert_eq!(wm.output(primary).unwrap().struts.bottom, 64 * PX);
}

#[test]
fn rebind_clears_strut_on_old_output() {
    let mut wm = wm_with_screen();
    let secondary = wm.add_output(Rect::px(1440, 0, 1920, 1080));
    let primary = wm.primary_output().unwrap();
    let mut osk = OskController::new(OskConfig::default());

    osk.bind(&mut wm, primary);
    osk.open_for(&mut wm, focused_text_field()).unwrap();
    assert_eq!(wm.output(primary).unwrap().struts.bottom, 280 * PX);

    // Focused field jumped to the other monitor — re-bind.
    osk.bind(&mut wm, secondary);
    // Old output's struts must be back to default.
    assert_eq!(wm.output(primary).unwrap().struts, Struts::default());
    // The OSK was still in Opening when we re-bound, so the strut
    // followed it to the new output.
    assert_eq!(wm.output(secondary).unwrap().struts.bottom, 280 * PX);
}

#[test]
fn unbind_while_open_restores_struts() {
    let mut wm = wm_with_screen();
    let mut osk = OskController::new(OskConfig::default());
    let primary = wm.primary_output().unwrap();
    wm.set_struts(primary, Struts { bottom: 16 * PX, ..Default::default() }).unwrap();

    osk.bind(&mut wm, primary);
    osk.open_for(&mut wm, focused_text_field()).unwrap();
    assert_eq!(wm.output(primary).unwrap().struts.bottom, 280 * PX);

    osk.unbind(&mut wm);
    // Unbinding restores whatever struts we found at bind/open time.
    assert_eq!(wm.output(primary).unwrap().struts.bottom, 16 * PX);
    // OSK lifecycle still works without a binding (no panic, no WM
    // calls — this asserts both).
    osk.close(&mut wm);
    osk.confirm_close().unwrap();
}

#[test]
fn no_binding_keeps_struts_untouched() {
    let mut wm = wm_with_screen();
    let mut osk = OskController::new(OskConfig::default());
    // No bind() call.
    osk.open_for(&mut wm, focused_text_field()).unwrap();
    osk.confirm_open().unwrap();
    let m = wm.active_monitor().unwrap();
    assert_eq!(m.work_area, Rect::px(0, 0, 1440, 900));
}

#[test]
fn bind_pulls_output_bounds_into_screen_size() {
    let mut wm = wm_with_screen();
    let secondary = wm.add_output(Rect::px(1440, 0, 2560, 1440));
    // OskConfig starts at the default 1440x900.
    let mut osk = OskController::new(OskConfig::default());
    osk.bind(&mut wm, secondary);
    // geometry() now reflects the secondary's 2560x1440 bounds.
    let g = osk.geometry();
    assert_eq!(g.panel.w, 2560 * PX);
    // panel sits flush with the bottom: y == screen_h - keyboard_h.
    assert_eq!(g.panel.y, (1440 - 280) * PX);
}

#[test]
fn touch_arbiter_claims_on_second_finger() {
    let mut a = TouchArbiter::new();
    // First finger → client (single-finger tap / drag / scroll).
    assert_eq!(a.down(1), TouchRoute::Client);
    assert!(!a.is_gesture());
    // Second finger → claim (cancel client) + gesture from here: two-finger
    // window move / double-tap-fullscreen are compositor gestures.
    assert_eq!(a.down(2), TouchRoute::Claim);
    assert!(a.is_gesture());
    // Third / fourth fingers → already a gesture (workspace / overview).
    assert_eq!(a.down(3), TouchRoute::Gesture);
    assert_eq!(a.down(4), TouchRoute::Gesture);
    // Fingers lift one by one; claim holds until the last leaves.
    a.up(true);
    assert!(a.is_gesture());
    a.up(false);
    assert!(!a.is_gesture());
    // Next single-finger sequence is a clean client touch again.
    assert_eq!(a.down(1), TouchRoute::Client);
}

#[test]
fn touch_arbiter_single_finger_reaches_client() {
    // A single finger is never claimed, so wl_touch reaches the client
    // (taps, one-finger scroll/flick).
    let mut a = TouchArbiter::new();
    assert_eq!(a.down(1), TouchRoute::Client);
    assert!(!a.is_gesture(), "one finger must stay a client touch");
    a.up(false);
    assert!(!a.is_gesture());
}

#[test]
fn touch_arbiter_cancel_resets() {
    let mut a = TouchArbiter::new();
    a.down(3);
    assert!(a.is_gesture());
    a.cancel();
    assert!(!a.is_gesture());
}

#[test]
fn a_hardware_keyboard_keeps_the_osk_closed() {
    let mut wm = wm_with_screen();
    let mut osk = OskController::new(OskConfig::default());
    let field = FocusedField { has_hw_keyboard: true, ..focused_text_field() };
    assert!(osk.open_for(&mut wm, field).is_none());
    assert_eq!(osk.state(), OskState::Closed);
    assert!(!osk.is_visible());
}

#[test]
fn confirmations_out_of_turn_are_refused() {
    let mut wm = wm_with_screen();
    let mut osk = OskController::new(OskConfig::default());
    assert_eq!(
        osk.confirm_open(),
        Err(OskError::BadTransition(OskState::Closed, OskState::Open))
    );
    // Closed already is as good.
    assert_eq!(osk.confirm_close(), Ok(()));
    osk.open_for(&mut wm, focused_text_field());
    osk.confirm_open().unwrap();
    assert_eq!(
        osk.confirm_close(),
        Err(OskError::BadTransition(OskState::Open, OskState::Closed))
    );
    assert_eq!(osk.state(), OskState::Open);
}

#[test]
fn a_covered_field_is_scrolled_clear_of_the_keyboard() {
    let osk = OskController::new(OskConfig::default());
    // The field ends 112 px below the keyboard's top; the margin adds 24.
    assert_eq!(osk.scroll_offset_for(&focused_text_field()), (732 - 620 + 24) * PX);
    let high = FocusedField {
        rect: OskRect { x: 0, y: 0, w: PX, h: PX },
        ..focused_text_field()
    };
    assert_eq!(osk.scroll_offset_for(&high), 0);
}

#[test]
fn text_presses_spell_what_the_cap_shows() {
    let mut osk = OskController::new(OskConfig::default());
    osk.goto_layout(LayoutId::English);
    let keys = osk.render_keys();
    let q = keys.iter().find(|k| k.label == "q").unwrap().clone();
    assert_eq!(
        osk.press_text_at(q.x + q.w / 2, q.y + q.h / 2, 0),
        OskTextPress::Char("q".into())
    );
    assert_eq!(osk.press_text_at(-PX, -PX, 0), OskTextPress::Miss);
    let a = keys.iter().find(|k| k.label == "a").unwrap();
    assert!(osk.alternates_at(a.x + 1, a.y + 1).iter().any(|s| s == "à"));
}

#[test]
fn strokes_that_mean_nothing_give_nothing() {
    assert_eq!(classify(1, 200 * PX, 0, 100), None);
    assert_eq!(classify(3, 10 * PX, 10 * PX, 100), None);
    assert_eq!(classify(5, 0, 0, 100), None);
    assert_eq!(
        classify(3, 120 * PX, 0, 200),
        Some(Gesture::SwitchWorkspace { direction: SwipeDir::Right })
    );
}

#[test]
fn the_panel_follows_the_screen() {
    let mut osk = OskController::new(OskConfig::default()); // kb 280
    assert!(!osk.is_split());
    osk.set_screen(1000 * PX, 600 * PX);
    let full = osk.geometry();
    assert_eq!((full.panel.w, full.panel.y), (1000 * PX, 320 * PX));
    assert_eq!(full.reserved_top_y, 320 * PX);
    osk.set_layout(OskLayout::Floating);
    assert_ne!(osk.geometry().panel, full.panel);
    osk.set_layout(OskLayout::Full);
    assert_eq!(osk.geometry().panel, full.panel);
}

#[test]
fn a_dragged_panel_follows_the_finger_and_stays_on_the_screen() {
    let mut osk = OskController::new(OskConfig::default()); // 1440x900, kb 280
    let panel = osk.panel_rect();
    let (dx, dy) = (100 * PX, 5 * PX);
    osk.press_at(panel.x + dx, panel.y + dy, 0);
    osk.drag_to(300 * PX, 200 * PX);
    let p = osk.panel_rect();
    assert_eq!((p.x + dx, p.y + dy), (300 * PX, 200 * PX));
    for (x, y) in [(-5000, -5000), (5000, 5000), (0, 5000)] {
        osk.drag_to(x * PX, y * PX);
        let p = osk.panel_rect();
        assert!(p.x >= 0 && p.x + p.w <= 1440 * PX);
        assert!(p.y >= 0 && p.y + p.h <= 900 * PX);
    }
}

#[test]
fn a_panel_dragged_off_its_dock_stays_on_a_wide_screen() {
    // A docked panel is 1120 pixels wide at most; once it floats it is wider here.
    let mut osk = OskController::new(OskConfig { screen_w: 3000 * PX, ..OskConfig::default() });
    let panel = osk.panel_rect();
    assert_eq!(panel.w, 1120 * PX);
    osk.press_at(panel.x + 100 * PX, panel.y + 5 * PX, 0);
    osk.drag_to(5000 * PX, 300 * PX);
    let p = osk.panel_rect();
    assert_eq!((p.x, p.w), (1140 * PX, 1860 * PX));
    // A narrower one may go as far as its own width allows.
    let mut osk = OskController::new(OskConfig::default()); // 1440 wide
    let panel = osk.panel_rect();
    osk.press_at(panel.x + 100 * PX, panel.y + 5 * PX, 0);
    osk.drag_to(5000 * PX, 300 * PX);
    let p = osk.panel_rect();
    assert_eq!(p.x + p.w, 1440 * PX);
}

#[test]
fn a_stroke_averages_however_many_fingers() {
    let mut agg = TouchAggregator::new();
    agg.down(0, 500 * PX, 500 * PX, 0);
    agg.down(1, 600 * PX, 500 * PX, 0);
    for i in 0..70_000 {
        agg.down(2, 700 * PX, 500 * PX, i);
        agg.motion(2, 500 * PX, 500 * PX);
        assert_eq!(agg.up(2, i), None);
    }
    assert_eq!(agg.up(0, 70_000), None);
    assert_eq!(
        agg.up(1, 70_000),
        Some(Gesture::SwitchWorkspace { direction: SwipeDir::Left })
    );
}

#[test]
fn a_floating_panel_leaves_the_field() {
    let mut osk = OskController::new(OskConfig::default());
    let panel = osk.panel_rect();
    osk.press_at(panel.x + 100 * PX, panel.y + 5 * PX, 0);
    osk.drag_to(300 * PX, 300 * PX);
    osk.drag_end();
    for y in [310, 350, 500] {
        let field = OskRect { x: 0, y: y * PX, w: 300 * PX, h: 40 * PX };
        osk.auto_position(field);
        let p = osk.panel_rect();
        assert!(field.y + field.h <= p.y || p.y + p.h <= field.y);
    }
}

#[test]
fn fingers_may_lift_in_any_order() {
    let stroke = |order: [i32; 3]| {
        let mut agg = TouchAggregator::new();
        for slot in 0..3 {
            agg.down(slot, 100 * PX, 500 * PX, slot as u64);
            agg.motion(slot, (-20 - 40 * slot as i64) * PX, 500 * PX);
        }
        assert_eq!(agg.up(order[0], 200), None);
        assert_eq!(agg.up(order[1], 200), None);
        agg.up(order[2], 200)
    };
    let swipe = Some(Gesture::SwitchWorkspace { direction: SwipeDir::Left });
    assert_eq!(stroke([0, 1, 2]), swipe);
    assert_eq!(stroke([2, 0, 1]), swipe);
    assert_eq!(stroke([1, 2, 0]), swipe);
}
