//! How presses, drags and releases go to the plugins.
//!
//! A plugin answers an event with the handlers that it wants run. A handler
//! reports whether it consumed the event; what follows of a touch that started a
//! drag goes to the plugin that claimed its slot.

use vstd::prelude::*;

use crate::plugins::apps_menu::AppsTouch;
use crate::plugins::ShellPlugin;

verus! {

/// What the compositor can be asked to do with an event.
#[derive(Debug, Clone, Copy, PartialEq, Eq, Structural)]
pub enum Handler {
    OskPress,
    OskMotion,
    OskHover,
    OskRelease,
    AtspiHandlePress,
    AtspiMotion,
    AtspiUp,
    SelectionMenuPress,
    PanelDown,
    PanelMotion,
    PanelUp,
    OnboardingPress,
    ShotDialogPress,
    OverviewPress,
    OverviewMotion,
    OverviewRelease,
    RemoteDesktopPress,
    RemoteDesktopMotion,
    RemoteDesktopRelease,
    RemoteDesktopTouchPress,
    RemoteDesktopTouchMotion,
    RemoteDesktopTouchUp,
    AudioPanelPress,
    MicPanelPress,
    FileBrowserPress,
    FileBrowserMotion,
    FileBrowserRelease,
    FileBrowserTouchPress,
    FileBrowserTouchMotion,
    FileBrowserTouchUp,
    SettingsPress,
    UzakelPress,
    WifiPanelPress,
    BtPanelPress,
    ControlCenterPress,
    AppsMenuPress,
    AppsMenuTouchDown,
    AppsMenuTouchMotion,
    AppsMenuTouchUp,
    DockMenuPress,
    DockButtonPress,
    DockPress,
    DockMotion,
    DockRelease,
}

/// What of the session decides which handlers an event goes to.
#[derive(Debug, Clone, Copy, PartialEq, Eq, Structural)]
pub struct RouteFacts {
    /// Whether the wallpaper's file browser is open over the settings.
    pub file_browser: bool,
    /// Whether the floating menu of a selection is open.
    pub floating_menu: bool,
    pub overview: bool,
    /// Whether a tile of the dock is being dragged.
    pub dock_drag: bool,
    /// Whether a pointer press that the keyboard took is still held.
    pub osk_pointer_down: bool,
    /// Whether the pointer is over the keyboard.
    pub over_osk: bool,
    /// The slot that drives the remote desktop.
    pub remote_desktop_slot: Option<i32>,
}

/// What a plugin answers to an event.
#[derive(Debug, Clone, PartialEq, Eq)]
pub enum Route {
    /// Not for it.
    Pass,
    /// For it, with nothing to do.
    Swallow,
    /// For it, whatever the handler reports.
    Consume(Handler),
    /// For it if one of the handlers, run in order, consumes the event; those
    /// behind that one are not run.
    Try(Vec<Handler>),
}

pub enum RouteView {
    Pass,
    Swallow,
    Consume(Handler),
    Try(Seq<Handler>),
}

impl View for Route {
    type V = RouteView;

    open spec fn view(&self) -> RouteView {
        match self {
            Route::Pass => RouteView::Pass,
            Route::Swallow => RouteView::Swallow,
            Route::Consume(h) => RouteView::Consume(*h),
            Route::Try(v) => RouteView::Try(v@),
        }
    }
}

fn attempt1(a: Handler) -> (r: Route)
    ensures
        r@ == RouteView::Try(seq![a]),
{
    let v: Vec<Handler> = vec![a];
    assert(v@ =~= seq![a]);
    Route::Try(v)
}

fn attempt2(a: Handler, b: Handler) -> (r: Route)
    ensures
        r@ == RouteView::Try(seq![a, b]),
{
    let v: Vec<Handler> = vec![a, b];
    assert(v@ =~= seq![a, b]);
    Route::Try(v)
}

fn attempt3(a: Handler, b: Handler, c: Handler) -> (r: Route)
    ensures
        r@ == RouteView::Try(seq![a, b, c]),
{
    let v: Vec<Handler> = vec![a, b, c];
    assert(v@ =~= seq![a, b, c]);
    Route::Try(v)
}

// ---------------------------------------------------------------------------
// The pointer
// ---------------------------------------------------------------------------

/// A press of the pointer. The handle of a selection comes before the menu, whose
/// dismissal it would otherwise be.
pub open spec fn press_route(p: ShellPlugin, f: RouteFacts) -> RouteView {
    match p {
        ShellPlugin::Keyboard => RouteView::Try(seq![Handler::OskPress]),
        ShellPlugin::Selection => RouteView::Try(
            seq![Handler::AtspiHandlePress, Handler::SelectionMenuPress, Handler::PanelDown],
        ),
        ShellPlugin::Onboarding => RouteView::Try(seq![Handler::OnboardingPress]),
        ShellPlugin::Screenshot => RouteView::Try(seq![Handler::ShotDialogPress]),
        ShellPlugin::Overview => RouteView::Try(seq![Handler::OverviewPress]),
        ShellPlugin::RemoteDesktop => RouteView::Try(seq![Handler::RemoteDesktopPress]),
        ShellPlugin::Audio => RouteView::Try(seq![Handler::AudioPanelPress, Handler::MicPanelPress]),
        ShellPlugin::DesktopSettings => RouteView::Try(
            seq![
                if f.file_browser {
                    Handler::FileBrowserPress
                } else {
                    Handler::SettingsPress
                },
            ],
        ),
        ShellPlugin::Uzakel => RouteView::Try(seq![Handler::UzakelPress]),
        ShellPlugin::Network => RouteView::Try(seq![Handler::WifiPanelPress, Handler::BtPanelPress]),
        ShellPlugin::ControlCenter => RouteView::Try(seq![Handler::ControlCenterPress]),
        ShellPlugin::AppsMenu => RouteView::Try(seq![Handler::AppsMenuPress]),
        ShellPlugin::Dock => RouteView::Try(
            seq![Handler::DockMenuPress, Handler::DockButtonPress, Handler::DockPress],
        ),
        ShellPlugin::Gestures => RouteView::Pass,
    }
}

/// A press of the pointer.
pub fn on_pointer_press(p: ShellPlugin, f: &RouteFacts) -> (r: Route)
    ensures
        r@ == press_route(p, *f),
{
    match p {
        ShellPlugin::Keyboard => attempt1(Handler::OskPress),
        ShellPlugin::Selection => attempt3(
            Handler::AtspiHandlePress,
            Handler::SelectionMenuPress,
            Handler::PanelDown,
        ),
        ShellPlugin::Onboarding => attempt1(Handler::OnboardingPress),
        ShellPlugin::Screenshot => attempt1(Handler::ShotDialogPress),
        ShellPlugin::Overview => attempt1(Handler::OverviewPress),
        ShellPlugin::RemoteDesktop => attempt1(Handler::RemoteDesktopPress),
        ShellPlugin::Audio => attempt2(Handler::AudioPanelPress, Handler::MicPanelPress),
        ShellPlugin::DesktopSettings => if f.file_browser {
            attempt1(Handler::FileBrowserPress)
        } else {
            attempt1(Handler::SettingsPress)
        },
        ShellPlugin::Uzakel => attempt1(Handler::UzakelPress),
        ShellPlugin::Network => attempt2(Handler::WifiPanelPress, Handler::BtPanelPress),
        ShellPlugin::ControlCenter => attempt1(Handler::ControlCenterPress),
        ShellPlugin::AppsMenu => attempt1(Handler::AppsMenuPress),
        ShellPlugin::Dock => attempt3(
            Handler::DockMenuPress,
            Handler::DockButtonPress,
            Handler::DockPress,
        ),
        ShellPlugin::Gestures => Route::Pass,
    }
}

/// A motion of the pointer: a drag of the keyboard goes on, and the keyboard
/// keeps the pointer from what lies behind it.
pub open spec fn motion_route(p: ShellPlugin, f: RouteFacts) -> RouteView {
    match p {
        ShellPlugin::Keyboard => if f.osk_pointer_down {
            RouteView::Consume(Handler::OskMotion)
        } else if f.over_osk {
            RouteView::Consume(Handler::OskHover)
        } else {
            RouteView::Pass
        },
        ShellPlugin::Selection => RouteView::Try(seq![Handler::PanelMotion, Handler::AtspiMotion]),
        ShellPlugin::DesktopSettings => if f.file_browser {
            RouteView::Try(seq![Handler::FileBrowserMotion])
        } else {
            RouteView::Pass
        },
        ShellPlugin::RemoteDesktop => RouteView::Try(seq![Handler::RemoteDesktopMotion]),
        _ => RouteView::Pass,
    }
}

/// A motion of the pointer.
pub fn on_pointer_motion(p: ShellPlugin, f: &RouteFacts) -> (r: Route)
    ensures
        r@ == motion_route(p, *f),
{
    match p {
        ShellPlugin::Keyboard => if f.osk_pointer_down {
            Route::Consume(Handler::OskMotion)
        } else if f.over_osk {
            Route::Consume(Handler::OskHover)
        } else {
            Route::Pass
        },
        ShellPlugin::Selection => attempt2(Handler::PanelMotion, Handler::AtspiMotion),
        ShellPlugin::DesktopSettings => if f.file_browser {
            attempt1(Handler::FileBrowserMotion)
        } else {
            Route::Pass
        },
        ShellPlugin::RemoteDesktop => attempt1(Handler::RemoteDesktopMotion),
        _ => Route::Pass,
    }
}

/// A release of the pointer. Once the keyboard took one it holds no press.
pub open spec fn release_route(p: ShellPlugin, f: RouteFacts) -> RouteView {
    match p {
        ShellPlugin::Keyboard => if f.osk_pointer_down {
            RouteView::Consume(Handler::OskRelease)
        } else {
            RouteView::Pass
        },
        ShellPlugin::Selection => RouteView::Try(seq![Handler::PanelUp, Handler::AtspiUp]),
        ShellPlugin::Overview => RouteView::Try(seq![Handler::OverviewRelease]),
        ShellPlugin::DesktopSettings => if f.file_browser {
            RouteView::Try(seq![Handler::FileBrowserRelease])
        } else {
            RouteView::Pass
        },
        ShellPlugin::RemoteDesktop => RouteView::Try(seq![Handler::RemoteDesktopRelease]),
        ShellPlugin::Dock => RouteView::Try(seq![Handler::DockRelease]),
        _ => RouteView::Pass,
    }
}

/// A release of the pointer.
pub fn on_pointer_release(p: ShellPlugin, f: &RouteFacts) -> (r: Route)
    ensures
        r@ == release_route(p, *f),
{
    match p {
        ShellPlugin::Keyboard => if f.osk_pointer_down {
            Route::Consume(Handler::OskRelease)
        } else {
            Route::Pass
        },
        ShellPlugin::Selection => attempt2(Handler::PanelUp, Handler::AtspiUp),
        ShellPlugin::Overview => attempt1(Handler::OverviewRelease),
        ShellPlugin::DesktopSettings => if f.file_browser {
            attempt1(Handler::FileBrowserRelease)
        } else {
            Route::Pass
        },
        ShellPlugin::RemoteDesktop => attempt1(Handler::RemoteDesktopRelease),
        ShellPlugin::Dock => attempt1(Handler::DockRelease),
        _ => Route::Pass,
    }
}

// ---------------------------------------------------------------------------
// Touch
// ---------------------------------------------------------------------------

/// The slots that plugins claimed for the rest of a touch.
#[derive(Debug, Clone, Copy, PartialEq, Eq, Structural)]
pub struct TouchClaims {
    pub osk: Option<i32>,
    pub overview: Option<i32>,
    pub apps_menu: Option<i32>,
    pub dock: Option<i32>,
}

pub open spec fn no_claims() -> TouchClaims {
    TouchClaims { osk: None, overview: None, apps_menu: None, dock: None }
}

/// What a handler of a touch came to.
#[derive(Debug, Clone, Copy, PartialEq, Eq, Structural)]
pub struct Touched {
    pub consumed: bool,
    /// Whether a drag is under way now.
    pub dragging: bool,
}

/// A touch of the launcher as any other.
pub fn touched_apps(t: AppsTouch) -> (r: Touched)
    ensures
        r == (match t {
            AppsTouch::Nothing => Touched { consumed: false, dragging: false },
            AppsTouch::Consumed => Touched { consumed: true, dragging: false },
            AppsTouch::Drag => Touched { consumed: true, dragging: true },
        }),
{
    match t {
        AppsTouch::Nothing => Touched { consumed: false, dragging: false },
        AppsTouch::Consumed => Touched { consumed: true, dragging: false },
        AppsTouch::Drag => Touched { consumed: true, dragging: true },
    }
}

impl TouchClaims {
    /// A finger came down. While a finger drags the launcher's grid or a card of
    /// the overview, they swallow every other one. An open floating menu swallows
    /// a touch whether or not it hits a button. A tile of the dock takes no second
    /// drag.
    pub open spec fn down_route(self, p: ShellPlugin, f: RouteFacts) -> RouteView {
        match p {
            ShellPlugin::AppsMenu => if self.apps_menu is Some {
                RouteView::Swallow
            } else {
                RouteView::Try(seq![Handler::AppsMenuTouchDown])
            },
            ShellPlugin::Overview => if !f.overview {
                RouteView::Pass
            } else if self.overview is Some {
                RouteView::Swallow
            } else {
                RouteView::Try(seq![Handler::OverviewPress])
            },
            ShellPlugin::Selection => if f.floating_menu {
                RouteView::Try(seq![Handler::AtspiHandlePress, Handler::SelectionMenuPress])
            } else {
                RouteView::Try(seq![Handler::AtspiHandlePress, Handler::PanelDown])
            },
            ShellPlugin::Dock => if f.dock_drag {
                RouteView::Try(seq![Handler::DockMenuPress, Handler::DockButtonPress])
            } else {
                RouteView::Try(
                    seq![Handler::DockMenuPress, Handler::DockButtonPress, Handler::DockPress],
                )
            },
            ShellPlugin::DesktopSettings => RouteView::Try(
                seq![
                    if f.file_browser {
                        Handler::FileBrowserTouchPress
                    } else {
                        Handler::SettingsPress
                    },
                ],
            ),
            ShellPlugin::RemoteDesktop => RouteView::Try(seq![Handler::RemoteDesktopTouchPress]),
            _ => press_route(p, f),
        }
    }

    /// A finger came down.
    pub fn on_touch_press(&self, p: ShellPlugin, f: &RouteFacts) -> (r: Route)
        ensures
            r@ == self.down_route(p, *f),
    {
        match p {
            ShellPlugin::AppsMenu => if self.apps_menu.is_some() {
                Route::Swallow
            } else {
                attempt1(Handler::AppsMenuTouchDown)
            },
            ShellPlugin::Overview => if !f.overview {
                Route::Pass
            } else if self.overview.is_some() {
                Route::Swallow
            } else {
                attempt1(Handler::OverviewPress)
            },
            ShellPlugin::Selection => if f.floating_menu {
                attempt2(Handler::AtspiHandlePress, Handler::SelectionMenuPress)
            } else {
                attempt2(Handler::AtspiHandlePress, Handler::PanelDown)
            },
            ShellPlugin::Dock => if f.dock_drag {
                attempt2(Handler::DockMenuPress, Handler::DockButtonPress)
            } else {
                attempt3(Handler::DockMenuPress, Handler::DockButtonPress, Handler::DockPress)
            },
            ShellPlugin::DesktopSettings => if f.file_browser {
                attempt1(Handler::FileBrowserTouchPress)
            } else {
                attempt1(Handler::SettingsPress)
            },
            ShellPlugin::RemoteDesktop => attempt1(Handler::RemoteDesktopTouchPress),
            _ => on_pointer_press(p, f),
        }
    }

    /// Once a handler ran: whether the touch is consumed by it. The floating menu
    /// keeps every touch that reaches it.
    pub open spec fn consumed(h: Handler, t: Touched) -> bool {
        h == Handler::SelectionMenuPress || t.consumed
    }

    /// Once a handler ran: who claimed the slot.
    pub open spec fn after_press(self, h: Handler, t: Touched, slot: i32) -> TouchClaims {
        match h {
            Handler::OskPress => if t.consumed {
                TouchClaims { osk: Some(slot), ..self }
            } else {
                self
            },
            Handler::AppsMenuTouchDown => if t.dragging {
                TouchClaims { apps_menu: Some(slot), ..self }
            } else {
                self
            },
            Handler::OverviewPress => if t.dragging {
                TouchClaims { overview: Some(slot), ..self }
            } else {
                self
            },
            Handler::DockPress => if t.consumed {
                TouchClaims { dock: Some(slot), ..self }
            } else {
                self
            },
            _ => self,
        }
    }

    /// A handler of a touch ran: claim its slot where a drag started. Whether the
    /// touch is consumed.
    pub fn touched(&mut self, h: Handler, t: Touched, slot: i32) -> (r: bool)
        ensures
            r == TouchClaims::consumed(h, t),
            *final(self) == old(self).after_press(h, t, slot),
    {
        match h {
            Handler::OskPress => {
                if t.consumed {
                    self.osk = Some(slot);
                }
                t.consumed
            },
            Handler::AppsMenuTouchDown => {
                if t.dragging {
                    self.apps_menu = Some(slot);
                }
                t.consumed
            },
            Handler::OverviewPress => {
                if t.dragging {
                    self.overview = Some(slot);
                }
                t.consumed
            },
            Handler::DockPress => {
                if t.consumed {
                    self.dock = Some(slot);
                }
                t.consumed
            },
            Handler::SelectionMenuPress => true,
            _ => t.consumed,
        }
    }

    /// A finger moved: a drag goes on where its slot was claimed. Selections track
    /// their own drags, whichever the slot.
    pub open spec fn drag_route(self, p: ShellPlugin, f: RouteFacts, slot: i32) -> RouteView {
        match p {
            ShellPlugin::Keyboard => if self.osk == Some(slot) {
                RouteView::Consume(Handler::OskMotion)
            } else {
                RouteView::Pass
            },
            ShellPlugin::Overview => if self.overview == Some(slot) {
                RouteView::Consume(Handler::OverviewMotion)
            } else {
                RouteView::Pass
            },
            ShellPlugin::AppsMenu => if self.apps_menu == Some(slot) {
                RouteView::Consume(Handler::AppsMenuTouchMotion)
            } else {
                RouteView::Pass
            },
            ShellPlugin::Dock => if self.dock == Some(slot) {
                RouteView::Consume(Handler::DockMotion)
            } else {
                RouteView::Pass
            },
            ShellPlugin::RemoteDesktop => if f.remote_desktop_slot == Some(slot) {
                RouteView::Try(seq![Handler::RemoteDesktopTouchMotion])
            } else {
                RouteView::Pass
            },
            ShellPlugin::Selection => RouteView::Try(
                seq![Handler::PanelMotion, Handler::AtspiMotion],
            ),
            ShellPlugin::DesktopSettings => if f.file_browser {
                RouteView::Try(seq![Handler::FileBrowserTouchMotion])
            } else {
                RouteView::Pass
            },
            _ => RouteView::Pass,
        }
    }

    /// A finger moved.
    pub fn on_touch_motion(&self, p: ShellPlugin, f: &RouteFacts, slot: i32) -> (r: Route)
        ensures
            r@ == self.drag_route(p, *f, slot),
    {
        match p {
            ShellPlugin::Keyboard => own(self.osk, slot, Handler::OskMotion),
            ShellPlugin::Overview => own(self.overview, slot, Handler::OverviewMotion),
            ShellPlugin::AppsMenu => own(self.apps_menu, slot, Handler::AppsMenuTouchMotion),
            ShellPlugin::Dock => own(self.dock, slot, Handler::DockMotion),
            ShellPlugin::RemoteDesktop => if holds(f.remote_desktop_slot, slot) {
                attempt1(Handler::RemoteDesktopTouchMotion)
            } else {
                Route::Pass
            },
            ShellPlugin::Selection => attempt2(Handler::PanelMotion, Handler::AtspiMotion),
            ShellPlugin::DesktopSettings => if f.file_browser {
                attempt1(Handler::FileBrowserTouchMotion)
            } else {
                Route::Pass
            },
            _ => Route::Pass,
        }
    }

    /// A finger was lifted: a drag ends where its slot was claimed.
    pub open spec fn up_route(self, p: ShellPlugin, f: RouteFacts, slot: i32) -> RouteView {
        match p {
            ShellPlugin::Keyboard => if self.osk == Some(slot) {
                RouteView::Consume(Handler::OskRelease)
            } else {
                RouteView::Pass
            },
            ShellPlugin::Overview => if self.overview == Some(slot) {
                RouteView::Consume(Handler::OverviewRelease)
            } else {
                RouteView::Pass
            },
            ShellPlugin::AppsMenu => if self.apps_menu == Some(slot) {
                RouteView::Consume(Handler::AppsMenuTouchUp)
            } else {
                RouteView::Pass
            },
            ShellPlugin::Dock => if self.dock == Some(slot) {
                RouteView::Consume(Handler::DockRelease)
            } else {
                RouteView::Pass
            },
            ShellPlugin::RemoteDesktop => if f.remote_desktop_slot == Some(slot) {
                RouteView::Try(seq![Handler::RemoteDesktopTouchUp])
            } else {
                RouteView::Pass
            },
            ShellPlugin::Selection => RouteView::Try(seq![Handler::PanelUp, Handler::AtspiUp]),
            ShellPlugin::DesktopSettings => if f.file_browser {
                RouteView::Try(seq![Handler::FileBrowserTouchUp])
            } else {
                RouteView::Pass
            },
            _ => RouteView::Pass,
        }
    }

    /// Without the claim of the plugin that the lifted finger belonged to.
    pub open spec fn after_up(self, p: ShellPlugin, slot: i32) -> TouchClaims {
        match p {
            ShellPlugin::Keyboard => if self.osk == Some(slot) {
                TouchClaims { osk: None, ..self }
            } else {
                self
            },
            ShellPlugin::Overview => if self.overview == Some(slot) {
                TouchClaims { overview: None, ..self }
            } else {
                self
            },
            ShellPlugin::AppsMenu => if self.apps_menu == Some(slot) {
                TouchClaims { apps_menu: None, ..self }
            } else {
                self
            },
            ShellPlugin::Dock => if self.dock == Some(slot) {
                TouchClaims { dock: None, ..self }
            } else {
                self
            },
            _ => self,
        }
    }

    /// A finger was lifted: its claim is given up.
    pub fn on_touch_up(&mut self, p: ShellPlugin, f: &RouteFacts, slot: i32) -> (r: Route)
        ensures
            r@ == old(self).up_route(p, *f, slot),
            *final(self) == old(self).after_up(p, slot),
    {
        match p {
            ShellPlugin::Keyboard => {
                let r = own(self.osk, slot, Handler::OskRelease);
                if holds(self.osk, slot) {
                    self.osk = None;
                }
                r
            },
            ShellPlugin::Overview => {
                let r = own(self.overview, slot, Handler::OverviewRelease);
                if holds(self.overview, slot) {
                    self.overview = None;
                }
                r
            },
            ShellPlugin::AppsMenu => {
                let r = own(self.apps_menu, slot, Handler::AppsMenuTouchUp);
                if holds(self.apps_menu, slot) {
                    self.apps_menu = None;
                }
                r
            },
            ShellPlugin::Dock => {
                let r = own(self.dock, slot, Handler::DockRelease);
                if holds(self.dock, slot) {
                    self.dock = None;
                }
                r
            },
            ShellPlugin::RemoteDesktop => if holds(f.remote_desktop_slot, slot) {
                attempt1(Handler::RemoteDesktopTouchUp)
            } else {
                Route::Pass
            },
            ShellPlugin::Selection => attempt2(Handler::PanelUp, Handler::AtspiUp),
            ShellPlugin::DesktopSettings => if f.file_browser {
                attempt1(Handler::FileBrowserTouchUp)
            } else {
                Route::Pass
            },
            _ => Route::Pass,
        }
    }
}

impl Default for TouchClaims {
    fn default() -> (r: TouchClaims)
        ensures
            r == no_claims(),
    {
        TouchClaims { osk: None, overview: None, apps_menu: None, dock: None }
    }
}

fn holds(claim: Option<i32>, slot: i32) -> (r: bool)
    ensures
        r == (claim == Some(slot)),
{
    match claim {
        Some(s) => s == slot,
        None => false,
    }
}

fn own(claim: Option<i32>, slot: i32, h: Handler) -> (r: Route)
    ensures
        r@ == (if claim == Some(slot) {
            RouteView::Consume(h)
        } else {
            RouteView::Pass
        }),
{
    if holds(claim, slot) {
        Route::Consume(h)
    } else {
        Route::Pass
    }
}

// ---------------------------------------------------------------------------
// Laws
// ---------------------------------------------------------------------------

/// Whatever a lifted finger was claimed for, its slot is free afterwards: no
/// later motion of the same slot reaches the plugin.
pub proof fn law_up_frees_slot(c: TouchClaims, p: ShellPlugin, f: RouteFacts, slot: i32)
    requires
        p == ShellPlugin::Keyboard || p == ShellPlugin::Overview || p == ShellPlugin::AppsMenu || p
            == ShellPlugin::Dock,
    ensures
        c.after_up(p, slot).drag_route(p, f, slot) is Pass,
{
}

/// A finger whose press started a drag of the keyboard, a card, the launcher's
/// grid or a tile drives that drag until it is lifted.
pub proof fn law_claimed_finger_drags(c: TouchClaims, f: RouteFacts, t: Touched, slot: i32)
    requires
        t.consumed,
        t.dragging,
    ensures
        c.after_press(Handler::OskPress, t, slot).drag_route(ShellPlugin::Keyboard, f, slot)
            is Consume,
        c.after_press(Handler::OverviewPress, t, slot).drag_route(ShellPlugin::Overview, f, slot)
            is Consume,
        c.after_press(Handler::AppsMenuTouchDown, t, slot).drag_route(ShellPlugin::AppsMenu, f, slot)
            is Consume,
        c.after_press(Handler::DockPress, t, slot).drag_route(ShellPlugin::Dock, f, slot)
            is Consume,
{
}

/// While a finger drags the launcher's grid, no other finger starts anything in
/// it, and so none takes the drag over.
pub proof fn law_extra_fingers_swallowed(c: TouchClaims, f: RouteFacts)
    ensures
        c.apps_menu is Some ==> c.down_route(ShellPlugin::AppsMenu, f) is Swallow,
        f.overview && c.overview is Some ==> c.down_route(ShellPlugin::Overview, f) is Swallow,
{
}

/// A press of the pointer is offered to each plugin by its own handler; a menu of the
/// dock comes before its buttons, and these before its tiles.
pub proof fn law_presses(f: RouteFacts)
    ensures
        press_route(ShellPlugin::Keyboard, f) == RouteView::Try(seq![Handler::OskPress]),
        press_route(ShellPlugin::Onboarding, f) == RouteView::Try(seq![Handler::OnboardingPress]),
        press_route(ShellPlugin::Screenshot, f) == RouteView::Try(seq![Handler::ShotDialogPress]),
        press_route(ShellPlugin::Overview, f) == RouteView::Try(seq![Handler::OverviewPress]),
        press_route(ShellPlugin::RemoteDesktop, f) == RouteView::Try(
            seq![Handler::RemoteDesktopPress],
        ),
        press_route(ShellPlugin::Uzakel, f) == RouteView::Try(seq![Handler::UzakelPress]),
        press_route(ShellPlugin::ControlCenter, f) == RouteView::Try(
            seq![Handler::ControlCenterPress],
        ),
        press_route(ShellPlugin::AppsMenu, f) == RouteView::Try(seq![Handler::AppsMenuPress]),
        press_route(ShellPlugin::Audio, f) == RouteView::Try(
            seq![Handler::AudioPanelPress, Handler::MicPanelPress],
        ),
        press_route(ShellPlugin::Network, f) == RouteView::Try(
            seq![Handler::WifiPanelPress, Handler::BtPanelPress],
        ),
        press_route(ShellPlugin::Dock, f) == RouteView::Try(
            seq![Handler::DockMenuPress, Handler::DockButtonPress, Handler::DockPress],
        ),
        press_route(ShellPlugin::Selection, f) == RouteView::Try(
            seq![Handler::AtspiHandlePress, Handler::SelectionMenuPress, Handler::PanelDown],
        ),
        f.file_browser ==> press_route(ShellPlugin::DesktopSettings, f) == RouteView::Try(
            seq![Handler::FileBrowserPress],
        ),
        !f.file_browser ==> press_route(ShellPlugin::DesktopSettings, f) == RouteView::Try(
            seq![Handler::SettingsPress],
        ),
        press_route(ShellPlugin::Gestures, f) == RouteView::Pass,
{
}

/// The keyboard keeps the pointer while it is pressed on it or lies over it, and lets it
/// go otherwise; its release is the keyboard's only where its press was.
pub proof fn law_keyboard_keeps_pointer(f: RouteFacts)
    ensures
        f.osk_pointer_down ==> motion_route(ShellPlugin::Keyboard, f) == RouteView::Consume(
            Handler::OskMotion,
        ),
        !f.osk_pointer_down && f.over_osk ==> motion_route(ShellPlugin::Keyboard, f)
            == RouteView::Consume(Handler::OskHover),
        !f.osk_pointer_down && !f.over_osk ==> motion_route(ShellPlugin::Keyboard, f)
            == RouteView::Pass,
        f.osk_pointer_down ==> release_route(ShellPlugin::Keyboard, f) == RouteView::Consume(
            Handler::OskRelease,
        ),
        !f.osk_pointer_down ==> release_route(ShellPlugin::Keyboard, f) == RouteView::Pass,
{
}

/// Who hears of motions and releases: selections, the file browser while it is open, the
/// remote desktop; of releases also the overview and the dock. Nobody else does.
pub proof fn law_motions_and_releases(p: ShellPlugin, f: RouteFacts)
    ensures
        motion_route(ShellPlugin::Selection, f) == RouteView::Try(
            seq![Handler::PanelMotion, Handler::AtspiMotion],
        ),
        release_route(ShellPlugin::Selection, f) == RouteView::Try(
            seq![Handler::PanelUp, Handler::AtspiUp],
        ),
        motion_route(ShellPlugin::RemoteDesktop, f) == RouteView::Try(
            seq![Handler::RemoteDesktopMotion],
        ),
        release_route(ShellPlugin::RemoteDesktop, f) == RouteView::Try(
            seq![Handler::RemoteDesktopRelease],
        ),
        release_route(ShellPlugin::Overview, f) == RouteView::Try(seq![Handler::OverviewRelease]),
        release_route(ShellPlugin::Dock, f) == RouteView::Try(seq![Handler::DockRelease]),
        f.file_browser ==> motion_route(ShellPlugin::DesktopSettings, f) == RouteView::Try(
            seq![Handler::FileBrowserMotion],
        ) && release_route(ShellPlugin::DesktopSettings, f) == RouteView::Try(
            seq![Handler::FileBrowserRelease],
        ),
        !f.file_browser ==> motion_route(ShellPlugin::DesktopSettings, f) == RouteView::Pass
            && release_route(ShellPlugin::DesktopSettings, f) == RouteView::Pass,
        p == ShellPlugin::AppsMenu || p == ShellPlugin::ControlCenter || p == ShellPlugin::Network
            || p == ShellPlugin::Audio || p == ShellPlugin::Uzakel || p == ShellPlugin::Onboarding
            || p == ShellPlugin::Screenshot || p == ShellPlugin::Gestures ==> motion_route(p, f)
            == RouteView::Pass && release_route(p, f) == RouteView::Pass,
        motion_route(ShellPlugin::Dock, f) == RouteView::Pass,
        motion_route(ShellPlugin::Overview, f) == RouteView::Pass,
{
}

/// A finger that comes down is treated as a press of the pointer, except where a touch
/// has a handler of its own or may start a drag.
pub proof fn law_touch_downs(c: TouchClaims, p: ShellPlugin, f: RouteFacts)
    ensures
        p == ShellPlugin::Keyboard || p == ShellPlugin::Onboarding || p == ShellPlugin::Screenshot
            || p == ShellPlugin::Audio || p == ShellPlugin::Uzakel || p == ShellPlugin::Network || p
            == ShellPlugin::ControlCenter || p == ShellPlugin::Gestures ==> c.down_route(p, f)
            == press_route(p, f),
        c.apps_menu is None ==> c.down_route(ShellPlugin::AppsMenu, f) == RouteView::Try(
            seq![Handler::AppsMenuTouchDown],
        ),
        !f.overview ==> c.down_route(ShellPlugin::Overview, f) == RouteView::Pass,
        f.overview && c.overview is Some ==> c.down_route(ShellPlugin::Overview, f)
            == RouteView::Swallow,
        f.overview && c.overview is None ==> c.down_route(ShellPlugin::Overview, f)
            == RouteView::Try(seq![Handler::OverviewPress]),
        f.floating_menu ==> c.down_route(ShellPlugin::Selection, f) == RouteView::Try(
            seq![Handler::AtspiHandlePress, Handler::SelectionMenuPress],
        ),
        !f.floating_menu ==> c.down_route(ShellPlugin::Selection, f) == RouteView::Try(
            seq![Handler::AtspiHandlePress, Handler::PanelDown],
        ),
        f.dock_drag ==> c.down_route(ShellPlugin::Dock, f) == RouteView::Try(
            seq![Handler::DockMenuPress, Handler::DockButtonPress],
        ),
        !f.dock_drag ==> c.down_route(ShellPlugin::Dock, f) == press_route(ShellPlugin::Dock, f),
        c.down_route(ShellPlugin::RemoteDesktop, f) == RouteView::Try(
            seq![Handler::RemoteDesktopTouchPress],
        ),
        f.file_browser ==> c.down_route(ShellPlugin::DesktopSettings, f) == RouteView::Try(
            seq![Handler::FileBrowserTouchPress],
        ),
{
}

/// A finger drives a drag only where its own slot was claimed: for every other slot the
/// plugin passes, whether the finger moves or is lifted, and keeps its claim.
pub proof fn law_only_the_claimed_finger(c: TouchClaims, f: RouteFacts, slot: i32)
    ensures
        c.osk != Some(slot) ==> c.drag_route(ShellPlugin::Keyboard, f, slot) == RouteView::Pass
            && c.up_route(ShellPlugin::Keyboard, f, slot) == RouteView::Pass && c.after_up(
            ShellPlugin::Keyboard,
            slot,
        ) == c,
        c.dock != Some(slot) ==> c.drag_route(ShellPlugin::Dock, f, slot) == RouteView::Pass
            && c.up_route(ShellPlugin::Dock, f, slot) == RouteView::Pass && c.after_up(
            ShellPlugin::Dock,
            slot,
        ) == c,
        c.overview != Some(slot) ==> c.drag_route(ShellPlugin::Overview, f, slot) == RouteView::Pass
            && c.up_route(ShellPlugin::Overview, f, slot) == RouteView::Pass && c.after_up(
            ShellPlugin::Overview,
            slot,
        ) == c,
        c.apps_menu != Some(slot) ==> c.drag_route(ShellPlugin::AppsMenu, f, slot)
            == RouteView::Pass && c.up_route(ShellPlugin::AppsMenu, f, slot) == RouteView::Pass
            && c.after_up(ShellPlugin::AppsMenu, slot) == c,
        f.remote_desktop_slot != Some(slot) ==> c.drag_route(ShellPlugin::RemoteDesktop, f, slot)
            == RouteView::Pass && c.up_route(ShellPlugin::RemoteDesktop, f, slot)
            == RouteView::Pass,
        c.osk == Some(slot) ==> c.drag_route(ShellPlugin::Keyboard, f, slot) == RouteView::Consume(
            Handler::OskMotion,
        ) && c.up_route(ShellPlugin::Keyboard, f, slot) == RouteView::Consume(Handler::OskRelease),
        c.dock == Some(slot) ==> c.drag_route(ShellPlugin::Dock, f, slot) == RouteView::Consume(
            Handler::DockMotion,
        ) && c.up_route(ShellPlugin::Dock, f, slot) == RouteView::Consume(Handler::DockRelease),
        c.overview == Some(slot) ==> c.drag_route(ShellPlugin::Overview, f, slot)
            == RouteView::Consume(Handler::OverviewMotion) && c.up_route(
            ShellPlugin::Overview,
            f,
            slot,
        ) == RouteView::Consume(Handler::OverviewRelease),
        c.apps_menu == Some(slot) ==> c.drag_route(ShellPlugin::AppsMenu, f, slot)
            == RouteView::Consume(Handler::AppsMenuTouchMotion) && c.up_route(
            ShellPlugin::AppsMenu,
            f,
            slot,
        ) == RouteView::Consume(Handler::AppsMenuTouchUp),
        f.remote_desktop_slot == Some(slot) ==> c.drag_route(ShellPlugin::RemoteDesktop, f, slot)
            == RouteView::Try(seq![Handler::RemoteDesktopTouchMotion]) && c.up_route(
            ShellPlugin::RemoteDesktop,
            f,
            slot,
        ) == RouteView::Try(seq![Handler::RemoteDesktopTouchUp]),
        c.drag_route(ShellPlugin::Selection, f, slot) == motion_route(ShellPlugin::Selection, f),
        c.up_route(ShellPlugin::Selection, f, slot) == release_route(ShellPlugin::Selection, f),
        f.file_browser ==> c.drag_route(ShellPlugin::DesktopSettings, f, slot) == RouteView::Try(
            seq![Handler::FileBrowserTouchMotion],
        ) && c.up_route(ShellPlugin::DesktopSettings, f, slot) == RouteView::Try(
            seq![Handler::FileBrowserTouchUp],
        ),
        !f.file_browser ==> c.drag_route(ShellPlugin::DesktopSettings, f, slot) == RouteView::Pass
            && c.up_route(ShellPlugin::DesktopSettings, f, slot) == RouteView::Pass,
{
}

/// A handler that neither consumed the touch nor started a drag claims nothing; the
/// floating menu alone keeps a touch that it did not consume.
pub proof fn law_claims_need_a_reason(c: TouchClaims, h: Handler, slot: i32)
    ensures
        c.after_press(h, (Touched { consumed: false, dragging: false }), slot) == c,
        TouchClaims::consumed(h, (Touched { consumed: true, dragging: false })),
        TouchClaims::consumed(h, (Touched { consumed: false, dragging: false })) == (h
            == Handler::SelectionMenuPress),
        c.after_press(
            Handler::OverviewPress,
            (Touched { consumed: true, dragging: false }),
            slot,
        ) == c,
        c.after_press(
            Handler::AppsMenuTouchDown,
            (Touched { consumed: true, dragging: false }),
            slot,
        ) == c,
        no_claims().osk is None && no_claims().dock is None && no_claims().overview is None
            && no_claims().apps_menu is None,
{
}

} // verus!
