//! Windows: grabs, requests, launching and foreign toplevels.

use bacak_compositor::animation::AnimEnd;
use bacak_compositor::decode_h264::{
    drain_step, needs_scaler, pack_rows, DrainStep, Received, ScalerSource,
};
use bacak_compositor::foreign_toplevel::{
    ftl_announce_to, request_actions, state_array, ForeignToplevel,
    ForeignToplevelHandleData, ForeignToplevels, FtlAction, FtlRequest, HandleEvent, ACTIVATED, MAXIMIZED,
};
use bacak_compositor::grab::{ends_grab, MoveGrab, ResizeEdge, ResizeGrab, MIN_RESIZE_W};
use bacak_compositor::handlers::{
    app_identity, constraint_active, move_request, names_step, parent_geometry, popup_area,
    popup_grab, raises, request_activation, resize_request, scale_output, send_selection,
    CommitFacts, CommitWindow, GrabFacts, PxPoint, PxRect, SelectionOrigin, SelectionReply,
    ShellBooks, SurfaceWindow, BTN_LEFT,
};
use bacak_compositor::launcher::{export_to_session, launch_plan, program_name, startup_command};
use bacak_compositor::pixels::unpremultiply;
use bacak_compositor::wm::{Monitor, Rect, SnapZone, Struts, WinState, WindowManager, WmError, PX};

#[test]
fn grabs_end_with_their_button() {
    assert!(ends_grab(BTN_LEFT, BTN_LEFT, true));
    assert!(!ends_grab(BTN_LEFT, BTN_LEFT, false));
    assert!(!ends_grab(BTN_LEFT, BTN_LEFT + 1, true));
}

#[test]
fn a_move_keeps_the_size() {
    let g = MoveGrab::new(10 * PX, 10 * PX, 1, Rect::px(100, 100, 300, 200));
    let r = g.motion(30 * PX, 5 * PX);
    assert_eq!(r, Rect::px(120, 95, 300, 200));
}

#[test]
fn a_release_over_a_zone_snaps() {
    let g = MoveGrab::new(0, 0, 7, Rect::px(100, 100, 300, 200));
    let zone = Rect::px(0, 0, 720, 900);
    let s = g.button(Some((SnapZone::Left, zone)), Some(Rect::px(5, 5, 300, 200)), false).unwrap();
    assert_eq!(s.window, 7);
    assert_eq!(s.end, AnimEnd::Snap(SnapZone::Left));
    assert_eq!(s.to, zone);
    assert_eq!(g.button(None, Some(Rect::px(5, 5, 300, 200)), false), None);
}

#[test]
fn a_resize_anchors_the_other_edge() {
    let start = Rect::px(100, 100, 400, 300);
    let g = ResizeGrab::new(0, 0, 1, start, ResizeEdge::Left);
    let r = g.compute_new_geom(50 * PX, 0);
    assert_eq!(r, Rect::px(150, 100, 350, 300));
    // It never gets narrower than the minimum, and the right edge stays.
    let r = g.compute_new_geom(1000 * PX, 0);
    assert_eq!(r.w, MIN_RESIZE_W);
    assert_eq!(r.x + r.w, 500 * PX);
    let g = ResizeGrab::new(0, 0, 1, start, ResizeEdge::BottomRight);
    assert_eq!(g.compute_new_geom(10 * PX, 20 * PX), Rect::px(100, 100, 410, 320));
    assert_eq!(g.configure_size(10 * PX, 20 * PX), (410, 320));
}

fn window(id: u64, state: WinState, w: i32, h: i32, parent: Option<Rect>) -> CommitFacts {
    CommitFacts {
        window: Some(SurfaceWindow {
            id,
            known: Some(CommitWindow {
                state,
                geom: Rect::px(100, 100, 640, 480),
                bbox_w: w,
                bbox_h: h,
                parent,
            }),
        }),
        layer_configured: None,
        popup_configured: None,
    }
}

#[test]
fn floating_windows_follow_their_client() {
    let mut books = ShellBooks::new();
    let out = books.commit(window(1, WinState::Floating, 800, 600, None));
    assert_eq!(out.resized, Some(Rect::px(100, 100, 800, 600)));
    let out = books.commit(window(1, WinState::Maximized, 800, 600, None));
    assert_eq!(out.resized, None);
    assert!(!out.arrange_layers && !out.configure_popup);
}

#[test]
fn dialogs_are_centred_once() {
    let mut books = ShellBooks::new();
    books.new_toplevel(1, None);
    books.new_toplevel(2, Some(1));
    assert_eq!(books.parent_of(2), Some(1));
    let parent = Rect::px(200, 200, 1000, 800);
    let out = books.commit(window(2, WinState::Floating, 400, 200, Some(parent)));
    assert_eq!(out.centred, Some(Rect::px(500, 500, 400, 200)));
    let out = books.commit(window(2, WinState::Floating, 400, 200, Some(parent)));
    assert_eq!(out.centred, None);
    assert!(out.refresh);
    let gone = books.toplevel_destroyed(1, Some(4), Some(1));
    assert_eq!((gone.refocus, gone.title_drag), (Some(4), None));
    assert_eq!(books.parent_of(2), None);
    assert_eq!(books.toplevel_destroyed(2, None, Some(3)).title_drag, Some(3));
}

#[test]
fn a_window_the_manager_lacks_only_has_its_names_read() {
    let mut books = ShellBooks::new();
    books.new_toplevel(1, None);
    books.new_toplevel(2, Some(1));
    let facts = CommitFacts {
        window: Some(SurfaceWindow { id: 2, known: None }),
        layer_configured: None,
        popup_configured: None,
    };
    let out = books.commit(facts);
    assert_eq!((out.resized, out.centred, out.refresh), (None, None, true));
    // It still waits: once it is known it is centred.
    let parent = Rect::px(200, 200, 1000, 800);
    let out = books.commit(window(2, WinState::Floating, 400, 200, Some(parent)));
    assert_eq!(out.centred, Some(Rect::px(500, 500, 400, 200)));
}

#[test]
fn names_are_told_when_they_change() {
    let told = |changed, listed, known| {
        let s = names_step(changed, listed, known);
        (s.send, s.update)
    };
    assert_eq!(told(Some(true), true, true), (true, true));
    assert_eq!(told(Some(true), false, true), (false, true));
    assert_eq!(told(Some(true), true, false), (false, true));
    assert_eq!(told(Some(false), true, true), (false, false));
    assert_eq!(told(None, true, true), (false, false));
}

#[test]
fn layers_and_popups_get_their_first_configure() {
    let mut books = ShellBooks::new();
    let out = books.commit(CommitFacts {
        window: None,
        layer_configured: Some(false),
        popup_configured: None,
    });
    assert!(out.arrange_layers && out.configure_layer);
    let out = books.commit(CommitFacts {
        window: None,
        layer_configured: None,
        popup_configured: Some(false),
    });
    assert!(out.configure_popup && !out.arrange_layers);
}

#[test]
fn maximising_can_be_undone() {
    let mut books = ShellBooks::new();
    let place = Rect::px(100, 100, 640, 480);
    let area = Rect::px(0, 0, 1440, 860);
    let p = books.maximize_request(1, Some((WinState::Floating, place)), area);
    assert_eq!((p.width, p.height), (1440, 860));
    // Again, from the maximised state: the place is not overwritten.
    books.maximize_request(1, Some((WinState::Maximized, area)), area);
    assert_eq!(books.unmaximize_request(1).unwrap().geom, place);
    assert_eq!(books.unmaximize_request(1), None);
    let p = books.fullscreen_request(1, Some((WinState::Floating, place)), Rect::px(0, 0, 1440, 900));
    assert_eq!((p.width, p.height), (1440, 900));
    assert_eq!(books.unmaximize_request(1).unwrap().geom, place);
}

#[test]
fn decorations_are_the_compositors_unless_refused() {
    let mut books = ShellBooks::new();
    assert!(books.new_decoration(Some(1)));
    assert!(books.is_decorated(1));
    assert!(!books.request_mode(Some(1), true));
    assert!(!books.is_decorated(1));
    assert!(books.request_mode(Some(1), false));
    assert!(books.is_decorated(1));
}

#[test]
fn requests_are_granted_where_they_can_be() {
    let r = Rect::px(0, 0, 100, 100);
    assert!(move_request(Some((1, r)), true, 5, 5).is_some());
    assert!(move_request(Some((1, r)), false, 5, 5).is_none());
    assert!(move_request(None, true, 5, 5).is_none());
    assert_eq!(resize_request(Some((1, r)), ResizeEdge::Top, 5, 6).unwrap().start_y, 6);
    assert!(resize_request(None, ResizeEdge::Top, 5, 6).is_none());
    assert_eq!(raises(Some(3), false), Some(3));
    assert_eq!(raises(Some(3), true), None);
    assert_eq!(request_activation(Some((3, false))), Some(3));
    assert_eq!(request_activation(Some((3, true))), None);
    assert_eq!(scale_output(None, Some(1)), Some(1));
    assert_eq!(scale_output(Some(2), Some(1)), Some(2));
    assert!(constraint_active(Some(9), 9));
    assert!(!constraint_active(None, 9));
    assert_eq!(app_identity(Some("kate"), Some("x")).as_deref(), Some("kate"));
    assert_eq!(app_identity(None, Some("x")).as_deref(), Some("x"));
}

#[test]
fn popups_are_kept_in_the_work_area() {
    let area = popup_area(
        Rect::px(0, 30, 1440, 870),
        Rect::px(100, 130, 600, 400),
        PxPoint { x: 10, y: 20 },
        PxPoint { x: 1, y: 2 },
    );
    assert_eq!(area, PxRect { x: -111, y: -122, w: 1440, h: 870 });
    assert_eq!(parent_geometry(None), PxRect { x: 0, y: 0, w: 0, h: 0 });
    assert_eq!(
        parent_geometry(Some(Rect::px(1, 2, 3, 4))),
        PxRect { x: 1, y: 2, w: 3, h: 4 }
    );
}

#[test]
fn a_foreign_grab_dismisses_a_menu() {
    let free = Some(GrabFacts { grabbed: false, by_serial: false, by_previous: false });
    let foreign = Some(GrabFacts { grabbed: true, by_serial: false, by_previous: false });
    let ours = Some(GrabFacts { grabbed: true, by_serial: false, by_previous: true });
    let g = popup_grab(free, ours);
    assert!(g.keyboard && g.pointer && !g.ungrab);
    assert!(popup_grab(foreign, free).ungrab);
    assert!(popup_grab(None, foreign).ungrab);
    assert!(!popup_grab(None, None).ungrab);
}

#[test]
fn selections_are_served_by_their_owner() {
    assert_eq!(
        send_selection(SelectionOrigin::X11, "text/plain", true, false, false),
        SelectionReply::Stream
    );
    assert_eq!(
        send_selection(SelectionOrigin::X11, "text/plain", false, false, true),
        SelectionReply::Nothing
    );
    assert_eq!(
        send_selection(SelectionOrigin::Native, "image/png", false, true, true),
        SelectionReply::Image
    );
    assert_eq!(
        send_selection(SelectionOrigin::Native, "text/plain", false, true, true),
        SelectionReply::Text
    );
}

#[test]
fn taskbars_hear_of_every_window() {
    let mut f = ForeignToplevels::new();
    assert_eq!(f.bind(1, vec![10, 11]), [10, 11]);
    assert_eq!(f.ftl_announce_window(), [1]);
    f.ftl_announced(ForeignToplevelHandleData { window: 10 }, 100);
    f.ftl_announced(ForeignToplevelHandleData { window: 10 }, 101);
    assert_eq!(f.ftl_handles(10), [100, 101]);
    assert_eq!(f.ftl_refresh_all_state(), [10]);
    f.destroy(ForeignToplevelHandleData { window: 10 }, 100);
    assert_eq!(f.ftl_handles(10), [101]);
    assert_eq!(f.ftl_closed(10), [101]);
    assert!(f.ftl_handles(10).is_empty());
    f.stop(1);
    assert!(f.ftl_announce_window().is_empty());
    assert_eq!(state_array(Some((true, WinState::Maximized))), [ACTIVATED, MAXIMIZED]);
    assert!(state_array(None).is_empty());
}

#[test]
fn taskbar_requests_become_actions() {
    assert_eq!(
        request_actions(FtlRequest::Activate, Some(WinState::Minimized), None),
        [FtlAction::Restore, FtlAction::Focus, FtlAction::KeyboardFocus, FtlAction::RefreshAll]
    );
    assert_eq!(
        request_actions(FtlRequest::SetMaximized, Some(WinState::Maximized), None),
        [FtlAction::RefreshAll]
    );
    assert_eq!(
        request_actions(FtlRequest::UnsetMaximized, Some(WinState::Maximized), None),
        [FtlAction::ToggleMaximize, FtlAction::RefreshAll]
    );
    assert!(request_actions(FtlRequest::SetFullscreen, None, None).is_empty());
    assert_eq!(request_actions(FtlRequest::Close, None, None), [FtlAction::Close]);
}

#[test]
fn launches_are_steered_to_wayland() {
    assert_eq!(startup_command(Some(" foo  --bar ")).unwrap(), ["foo", "--bar"]);
    assert_eq!(startup_command(Some("  ")), None);
    assert_eq!(startup_command(None), None);
    let plan = |argv: &[&str]| launch_plan(&argv.iter().map(|s| s.to_string()).collect());
    assert_eq!(plan(&[]), None);
    let p = plan(&["/usr/bin/chromium", "x"]).unwrap();
    assert_eq!(p.command.program, "/usr/bin/chromium");
    assert_eq!(p.command.args, ["x", "--ozone-platform=wayland"]);
    assert_eq!(p.log_name, "bacak-launch-chromium.log");
    assert!(p.env.contains(&("QT_QPA_PLATFORM".into(), "wayland;xcb".into())));
    let p = plan(&["OnlyOffice DesktopEditors"]).unwrap();
    assert_eq!(p.log_name, "bacak-launch-OnlyOffice_DesktopEditors.log");
    let last = p.env.iter().rev().find(|e| e.0 == "QT_QPA_PLATFORM").unwrap();
    assert_eq!(last.1, "xcb");
    assert_eq!(program_name("/a/b").as_deref(), Some("b"));
    assert_eq!(program_name("/"), None);
    assert_eq!(
        export_to_session(&vec!["DISPLAY"]).unwrap().args,
        ["--systemd", "DISPLAY"]
    );
    assert_eq!(export_to_session(&vec![]), None);
}

#[test]
fn decoded_rows_are_packed() {
    let src: Vec<u8> = (0..24).collect();
    let frame = pack_rows(&src, 12, 2, 2);
    assert_eq!(frame.bgra, [0, 1, 2, 3, 4, 5, 6, 7, 12, 13, 14, 15, 16, 17, 18, 19]);
    assert_eq!((frame.width, frame.height), (2, 2));
    let src = ScalerSource { format: 0, width: 2, height: 2 };
    assert!(needs_scaler(None, src));
    assert!(!needs_scaler(Some(src), src));
    assert!(needs_scaler(Some(ScalerSource { width: 4, ..src }), src));
    assert_eq!(drain_step(Received::Frame), DrainStep::Keep);
    assert_eq!(drain_step(Received::Again), DrainStep::Done);
    assert_eq!(drain_step(Received::End), DrainStep::Done);
    assert_eq!(drain_step(Received::Failed), DrainStep::Fail);
}

#[test]
fn premultiplied_pixels_become_straight() {
    let mut buf = vec![128, 64, 0, 128, 9, 9, 9, 0, 1, 2, 3, 255, 7];
    unpremultiply(&mut buf);
    assert_eq!(buf[..4], [255, 128, 0, 128]);
    assert_eq!(buf[8..], [1, 2, 3, 255, 7]);
    assert_eq!(buf[7], 0);
}

#[test]
fn reservations_compose_to_the_widest() {
    let mut wm = WindowManager::new(Monitor { work_area: Rect::px(0, 0, 1440, 900) });
    let o = wm.primary_output().unwrap();
    let bottom = |b: i64| Struts { bottom: b * PX, ..Struts::default() };
    wm.set_strut_layer(o, "dock", bottom(64)).unwrap();
    wm.set_strut_layer(o, "osk", bottom(280)).unwrap();
    assert_eq!(wm.output(o).unwrap().struts.bottom, 280 * PX);
    wm.clear_strut_layer(o, "osk").unwrap();
    assert_eq!(wm.output(o).unwrap().struts.bottom, 64 * PX);
    assert_eq!(wm.active_monitor().unwrap().work_area, Rect::px(0, 0, 1440, 836));
    assert_eq!(wm.remove_output(o), Err(WmError::LastOutput));
    assert_eq!(wm.set_output_bounds(99, Rect::px(0, 0, 1, 1)), Err(WmError::UnknownOutput));
    assert_eq!(wm.set_struts(99, bottom(1)), Err(WmError::UnknownOutput));
    assert!(Rect::px(0, 0, 2, 2).contains(PX, PX));
    assert!(!Rect::new(0, 0, 2, 2).contains(2, 0));
}

#[test]
fn handles_are_told_names_and_states() {
    let mut f = ForeignToplevels::new();
    f.ftl_announced(ForeignToplevelHandleData { window: 10 }, 100);
    f.ftl_announced(ForeignToplevelHandleData { window: 10 }, 101);
    let w = ForeignToplevel {
        title: "Notlar".into(),
        app: "kate".into(),
        focused: true,
        state: WinState::Maximized,
    };
    let title = HandleEvent::Title("Notlar".into());
    let app = HandleEvent::AppId("kate".into());
    let state = HandleEvent::State(vec![ACTIVATED, MAXIMIZED]);
    assert_eq!(
        ftl_announce_to(Some(&w)),
        [title.clone(), app.clone(), state.clone(), HandleEvent::Done]
    );
    assert_eq!(ftl_announce_to(None), [HandleEvent::State(vec![]), HandleEvent::Done]);
    assert_eq!(
        f.ftl_update_title(10, Some(&w)),
        (vec![100, 101], vec![title, app, HandleEvent::Done])
    );
    assert!(f.ftl_update_title(10, None).0.is_empty());
    assert_eq!(f.ftl_update_state(10, Some(&w)), (vec![100, 101], vec![state, HandleEvent::Done]));
    assert!(f.ftl_update_state(11, Some(&w)).0.is_empty());
}

#[test]
fn a_destroyed_window_leaves_no_dialogs_behind() {
    let mut books = ShellBooks::new();
    books.new_toplevel(1, None);
    books.new_toplevel(2, Some(1));
    books.new_toplevel(3, Some(1));
    books.new_toplevel(4, Some(2));
    books.new_decoration(Some(1));
    books.new_decoration(Some(2));
    books.toplevel_destroyed(1, None, None);
    assert_eq!(books.parent_of(2), None);
    assert_eq!(books.parent_of(3), None);
    assert_eq!(books.parent_of(4), Some(2));
    assert!(!books.is_decorated(1) && books.is_decorated(2));
}

#[test]
fn every_window_with_handles_is_refreshed_once() {
    let mut f = ForeignToplevels::new();
    for (window, handle) in [(10, 100), (11, 101), (10, 102)] {
        f.ftl_announced(ForeignToplevelHandleData { window }, handle);
    }
    let mut ids = f.ftl_refresh_all_state();
    ids.sort();
    assert_eq!(ids, [10, 11]);
}
