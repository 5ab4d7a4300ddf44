//! The shell's plugins: their order, and where input goes.

use bacak_compositor::input::{Gesture, OskConfig, OskController, SwipeDir};
use bacak_compositor::plugins::apps_menu::AppsTouch;
use bacak_compositor::plugins::ctx::{CtxAction, PluginCtx};
use bacak_compositor::plugins::desktop_settings::{
    is_image_path, is_picture_extension, wallpaper_presets,
};
use bacak_compositor::plugins::events::{
    dispatch_gesture, pointer_motion, pointer_press, pointer_release, touch_motion, touch_press,
    touch_up,
};
use bacak_compositor::plugins::gestures::GestureStep;
use bacak_compositor::plugins::screenshot::RegionShot;
use bacak_compositor::plugins::touch::{
    on_pointer_motion, on_pointer_press, on_pointer_release, touched_apps, Handler, Route,
    RouteFacts, TouchClaims, Touched,
};
use bacak_compositor::plugins::{
    any_fullscreen, input_order, manifest, output_has_fullscreen, plugins, render_overlays, tick_all,
    Dispatch, DispatchStep, GesturePlugin, Plugin, ShellFacts, ShellPlugin, ShownWindow,
};
use bacak_compositor::wm::{Monitor, Rect, WinState, WindowManager, PX};

#[test]
fn plugin_ids_unique_and_layered() {
    let all = plugins();
    let mut ids: Vec<&str> = all.iter().map(|p| p.id()).collect();
    let n = ids.len();
    ids.sort();
    ids.dedup();
    assert_eq!(ids.len(), n, "duplicate plugin id");
    // Keyboard must layer above the dock (the bottom overlap bug fix), and
    // the Overview ("recents") is the top-most overlay (covers everything).
    let z = |id: &str| all.iter().find(|p| p.id() == id).unwrap().z();
    assert!(z("keyboard") > z("dock"));
    assert!(z("apps_menu") > z("keyboard"));
    assert!(z("overview") >= z("apps_menu"));
    // Input priority differs from render z: the keyboard gets a press first
    // even though the overview renders on top of it.
    let iz = |id: &str| all.iter().find(|p| p.id() == id).unwrap().input_z();
    // Press order: keyboard → selection → screenshot → overview → menus → dock.
    assert!(iz("keyboard") > iz("selection"));
    assert!(iz("selection") > iz("screenshot"));
    assert!(iz("screenshot") > iz("overview"));
    assert!(iz("overview") > iz("dock"));
}

fn all_on() -> ShellFacts {
    ShellFacts {
        greeter: false,
        dock: true,
        fullscreen: false,
        network: true,
        audio: true,
        desktop_settings: true,
        uzakel: true,
        remote_desktop: true,
    }
}

#[test]
fn input_is_offered_by_priority() {
    let ids: Vec<&str> = input_order().iter().map(|p| p.id()).collect();
    assert_eq!(
        ids,
        [
            "keyboard", "selection", "onboarding", "screenshot", "overview", "remote_desktop",
            "audio", "desktop_settings", "uzakel", "network", "control_center", "apps_menu",
            "dock", "gestures",
        ]
    );
}

#[test]
fn overlays_are_drawn_top_most_first() {
    let ids: Vec<&str> = render_overlays(&all_on()).iter().map(|p| p.id()).collect();
    assert_eq!(
        ids,
        [
            "selection", "overview", "onboarding", "screenshot", "remote_desktop", "audio",
            "desktop_settings", "uzakel", "network", "apps_menu", "control_center", "keyboard",
            "dock", "gestures",
        ]
    );
    let facts = ShellFacts { fullscreen: true, network: false, ..all_on() };
    let ids: Vec<&str> = render_overlays(&facts).iter().map(|p| p.id()).collect();
    assert!(!ids.contains(&"dock") && !ids.contains(&"network"));
}

#[test]
fn a_walk_asks_only_active_plugins() {
    let facts = ShellFacts { dock: false, audio: false, ..all_on() };
    let (mut walk, mut step) = Dispatch::start(&facts);
    let mut asked = Vec::new();
    while let DispatchStep::Ask(p) = step {
        asked.push(p.id());
        step = walk.answered(&facts, p, false);
    }
    assert_eq!(asked.len(), 14 - 4);
    assert_eq!(asked[0], "keyboard");
    assert!(!asked.contains(&"dock") && !asked.contains(&"apps_menu") && !asked.contains(&"audio"));
    assert_eq!(step, DispatchStep::Done(None));
    assert_eq!(step.consumer(), None);
}

#[test]
fn the_first_consumer_ends_the_walk() {
    let facts = all_on();
    let (mut walk, mut step) = Dispatch::start(&facts);
    let mut asked = Vec::new();
    while let DispatchStep::Ask(p) = step {
        asked.push(p.id());
        step = walk.answered(&facts, p, p == ShellPlugin::Onboarding);
    }
    assert_eq!(asked, ["keyboard", "selection", "onboarding"]);
    assert_eq!(step.consumer(), Some("onboarding"));
}

#[test]
fn a_plugin_that_went_inactive_is_not_asked() {
    let (mut walk, step) = Dispatch::start(&all_on());
    assert_eq!(step, DispatchStep::Ask(ShellPlugin::Keyboard));
    let mut step = walk.answered(&all_on(), ShellPlugin::Keyboard, false);
    let without = ShellFacts { dock: false, ..all_on() };
    let mut asked = Vec::new();
    while let DispatchStep::Ask(p) = step {
        asked.push(p);
        step = walk.answered(&without, p, p == ShellPlugin::Dock || p == ShellPlugin::Gestures);
    }
    assert!(!asked.contains(&ShellPlugin::Dock));
    assert_eq!(step, DispatchStep::Done(Some(ShellPlugin::Gestures)));
}

#[test]
fn events_go_to_the_first_whose_handler_consumes_them() {
    let facts = all_on();
    let f = quiet();
    let both = vec![Handler::DockPress, Handler::OverviewPress];
    assert_eq!(pointer_press(&facts, &f, &both), Some("overview"));
    assert_eq!(pointer_press(&facts, &f, &vec![Handler::DockPress]), Some("dock"));
    assert_eq!(pointer_press(&facts, &f, &vec![]), None);
    assert!(!pointer_motion(&facts, &f, &vec![]));
    assert!(pointer_motion(&facts, &RouteFacts { over_osk: true, ..quiet() }, &vec![]));
    assert!(pointer_release(&facts, &f, &vec![Handler::DockRelease]));
    assert!(!pointer_release(&facts, &f, &vec![Handler::DockMotion]));
}

#[test]
fn a_touch_is_followed_until_the_finger_is_lifted() {
    let facts = all_on();
    let f = quiet();
    let mut claims = TouchClaims::default();
    let down = vec![Handler::AppsMenuTouchDown];
    assert_eq!(touch_press(&mut claims, &facts, &f, 4, &down, &down), Some("apps_menu"));
    assert_eq!(claims.apps_menu, Some(4));
    // Another finger is swallowed and claims nothing.
    assert_eq!(touch_press(&mut claims, &facts, &f, 5, &vec![], &vec![]), Some("apps_menu"));
    assert!(touch_motion(&claims, &facts, &f, 4, &vec![]));
    assert!(!touch_motion(&claims, &facts, &f, 5, &vec![]));
    assert!(!touch_up(&mut claims, &facts, &f, 5, &vec![]));
    assert_eq!(claims.apps_menu, Some(4));
    assert!(touch_up(&mut claims, &facts, &f, 4, &vec![]));
    assert_eq!(claims, TouchClaims::default());
    assert!(!touch_up(&mut claims, &facts, &f, 4, &vec![]));
    // A handler of a selection may take any finger.
    assert!(touch_up(&mut claims, &facts, &f, 4, &vec![Handler::AtspiUp]));
}

#[test]
fn fingers_and_the_pointer_have_handlers_of_their_own() {
    let claims = TouchClaims::default();
    let browsing = RouteFacts { file_browser: true, ..quiet() };
    assert_eq!(
        claims.on_touch_press(ShellPlugin::DesktopSettings, &browsing),
        Route::Try(vec![Handler::FileBrowserTouchPress])
    );
    assert_eq!(
        claims.on_touch_press(ShellPlugin::RemoteDesktop, &quiet()),
        Route::Try(vec![Handler::RemoteDesktopTouchPress])
    );
    assert_eq!(
        on_pointer_press(ShellPlugin::RemoteDesktop, &quiet()),
        Route::Try(vec![Handler::RemoteDesktopPress])
    );
}

#[test]
fn a_gesture_reaches_the_plugin_that_answers_it() {
    for facts in [all_on(), ShellFacts { dock: false, network: false, ..all_on() }] {
        assert_eq!(
            dispatch_gesture(&facts, Some(7), Gesture::TaskOverview),
            GestureStep::ToggleOverview { output: 7 }
        );
        assert_eq!(
            dispatch_gesture(&facts, None, Gesture::TaskOverview),
            GestureStep::Declined
        );
    }
}

#[test]
fn what_a_plugin_asks_is_kept_in_order() {
    let wm = WindowManager::new(Monitor { work_area: Rect::px(0, 0, 1440, 900) });
    let osk = OskController::new(OskConfig::default());
    let mut ctx = PluginCtx::new(&wm, &osk, false, 1500);
    assert_eq!(ctx.now_ms(), 1500);
    ctx.synthesize_chord(&[29], 46);
    ctx.toggle_overview(2);
    ctx.hide_osk();
    assert_eq!(
        ctx.actions,
        [
            CtxAction::Chord { mods: vec![29], key: 46 },
            CtxAction::ToggleOverview(2),
            CtxAction::HideOsk
        ]
    );
}

#[test]
fn any_change_redraws() {
    let n = plugins().len();
    assert!(!tick_all(&vec![false; n]));
    for i in 0..n {
        let mut reports = vec![false; n];
        reports[i] = true;
        assert!(tick_all(&reports));
    }
}

#[test]
fn a_covered_output_is_noticed() {
    let windows = vec![
        ShownWindow { output: 1, state: WinState::Maximized },
        ShownWindow { output: 2, state: WinState::Fullscreen },
    ];
    assert!(!output_has_fullscreen(&windows, 1));
    assert!(output_has_fullscreen(&windows, 2));
    assert!(any_fullscreen(&vec![1, 2], &windows));
    assert!(!any_fullscreen(&vec![1], &windows));
}

fn quiet() -> RouteFacts {
    RouteFacts {
        file_browser: false,
        floating_menu: false,
        overview: false,
        dock_drag: false,
        osk_pointer_down: false,
        over_osk: false,
        remote_desktop_slot: None,
    }
}

#[test]
fn presses_try_handlers_in_order() {
    assert_eq!(
        on_pointer_press(ShellPlugin::Selection, &quiet()),
        Route::Try(vec![
            Handler::AtspiHandlePress,
            Handler::SelectionMenuPress,
            Handler::PanelDown
        ])
    );
    assert_eq!(
        on_pointer_press(ShellPlugin::DesktopSettings, &RouteFacts { file_browser: true, ..quiet() }),
        Route::Try(vec![Handler::FileBrowserPress])
    );
    assert_eq!(on_pointer_press(ShellPlugin::Gestures, &quiet()), Route::Pass);
}

#[test]
fn the_keyboard_keeps_the_pointer() {
    let held = RouteFacts { osk_pointer_down: true, over_osk: true, ..quiet() };
    assert_eq!(
        on_pointer_motion(ShellPlugin::Keyboard, &held),
        Route::Consume(Handler::OskMotion)
    );
    let over = RouteFacts { over_osk: true, ..quiet() };
    assert_eq!(
        on_pointer_motion(ShellPlugin::Keyboard, &over),
        Route::Consume(Handler::OskHover)
    );
    assert_eq!(on_pointer_motion(ShellPlugin::Keyboard, &quiet()), Route::Pass);
    assert_eq!(
        on_pointer_release(ShellPlugin::Keyboard, &held),
        Route::Consume(Handler::OskRelease)
    );
    assert_eq!(on_pointer_release(ShellPlugin::Keyboard, &over), Route::Pass);
}

#[test]
fn a_grid_drag_belongs_to_its_finger() {
    let mut claims = TouchClaims::default();
    let facts = quiet();
    assert_eq!(
        claims.on_touch_press(ShellPlugin::AppsMenu, &facts),
        Route::Try(vec![Handler::AppsMenuTouchDown])
    );
    assert!(claims.touched(Handler::AppsMenuTouchDown, touched_apps(AppsTouch::Drag), 3));
    // A second finger is swallowed and drives nothing.
    assert_eq!(claims.on_touch_press(ShellPlugin::AppsMenu, &facts), Route::Swallow);
    assert_eq!(claims.on_touch_motion(ShellPlugin::AppsMenu, &facts, 4), Route::Pass);
    assert_eq!(
        claims.on_touch_motion(ShellPlugin::AppsMenu, &facts, 3),
        Route::Consume(Handler::AppsMenuTouchMotion)
    );
    assert_eq!(
        claims.on_touch_up(ShellPlugin::AppsMenu, &facts, 3),
        Route::Consume(Handler::AppsMenuTouchUp)
    );
    assert_eq!(claims, TouchClaims::default());
    assert_eq!(claims.on_touch_motion(ShellPlugin::AppsMenu, &facts, 3), Route::Pass);
}

#[test]
fn an_open_floating_menu_swallows_a_touch() {
    let mut claims = TouchClaims::default();
    let miss = Touched { consumed: false, dragging: false };
    assert!(claims.touched(Handler::SelectionMenuPress, miss, 0));
    assert!(!claims.touched(Handler::PanelDown, miss, 0));
    assert!(!claims.touched(Handler::OskPress, miss, 0));
    assert_eq!(claims, TouchClaims::default());
}

#[test]
fn swipes_switch_workspaces_both_ways() {
    let g = GesturePlugin;
    let swipe = |direction| Gesture::SwitchWorkspace { direction };
    assert_eq!(
        g.on_gesture(Some(7), swipe(SwipeDir::Left)),
        GestureStep::SwitchWorkspace { output: 7, delta: 1 }
    );
    assert_eq!(
        g.on_gesture(Some(7), swipe(SwipeDir::Right)),
        GestureStep::SwitchWorkspace { output: 7, delta: -1 }
    );
    assert_eq!(g.on_gesture(None, swipe(SwipeDir::Left)), GestureStep::Declined);
    assert_eq!(
        g.on_gesture(Some(7), Gesture::TaskOverview),
        GestureStep::ToggleOverview { output: 7 }
    );
    assert_eq!(g.on_gesture(None, Gesture::SecondaryTap), GestureStep::SecondaryTap);
    assert_eq!(g.on_gesture(Some(7), Gesture::RevealDock), GestureStep::Declined);
    assert!(!g.handled(GestureStep::SwitchWorkspace { output: 7, delta: 1 }, false));
    assert!(g.handled(GestureStep::SecondaryTap, false));
}

#[test]
fn the_keyboards_output_is_the_bound_one_or_the_primary() {
    let mut wm = WindowManager::new(Monitor { work_area: Rect::px(0, 0, 1440, 900) });
    let second = wm.add_output(Rect::px(1440, 0, 1440, 900));
    let mut osk = OskController::new(OskConfig::default());
    assert_eq!(PluginCtx::new(&wm, &osk, false, 0).osk_output(), wm.primary_output());
    osk.bind(&mut wm, second);
    let ctx = PluginCtx::new(&wm, &osk, true, 0);
    assert_eq!(ctx.osk_output(), Some(second));
    assert!(ctx.overlay_open());
    assert_eq!(ctx.wm().outputs().len(), 2);
}

#[test]
fn pictures_are_known_by_their_extension() {
    assert!(is_image_path("/a/b.png"));
    assert!(is_image_path("B.JPEG"));
    assert!(is_image_path("x.tar.webp/"));
    assert!(!is_image_path("/a/.png"));
    assert!(!is_image_path("/a.png/b"));
    assert!(!is_image_path("png"));
    assert!(!is_image_path(".."));
    assert!(is_picture_extension("jpg"));
    assert!(!is_picture_extension("JPG"));
    assert_eq!(wallpaper_presets()[0], [10, 14, 22]);
    assert_eq!(wallpaper_presets().len(), 8);
}

#[test]
fn a_region_is_normalised_and_never_empty() {
    let mut shot = RegionShot { output: 0, anchor: None, cur: (30 * PX, 10 * PX) };
    assert_eq!(shot.rect(), None);
    shot.anchor = Some((50 * PX, 5 * PX));
    assert_eq!(shot.rect(), Some(Rect::px(30, 5, 20, 5)));
    shot.cur = (50 * PX, 5 * PX);
    assert_eq!(shot.rect(), Some(Rect::px(50, 5, 1, 1)));
}

#[test]
fn optional_plugins_have_a_manifest() {
    assert_eq!(manifest(ShellPlugin::Uzakel), Some("/usr/share/uzakel/plugins/uzakel.plugin"));
    assert_eq!(
        manifest(ShellPlugin::DesktopSettings),
        Some("/usr/share/bacak/plugins/desktop-settings.plugin")
    );
    assert_eq!(manifest(ShellPlugin::Dock), None);
    assert_eq!(plugins().into_iter().filter(|p| manifest(*p).is_some()).count(), 4);
}
