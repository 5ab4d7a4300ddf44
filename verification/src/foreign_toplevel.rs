//! Windows as external taskbars see and act on them.
//!
//! Each bound manager gets its own handle for each window. Titles and states are
//! pushed to the handles, and what is asked through a handle becomes actions on
//! its window. Managers and handles are known by number here.

use std::collections::HashMap;
use vstd::prelude::*;

use crate::tables::keys_of;
use crate::text::own;
use crate::wm::{Rect, WinState, WindowId};

verus! {

broadcast use vstd::std_specs::hash::group_hash_axioms;

pub type ManagerId = u64;

pub type HandleId = u64;

/// What is kept with a handle: the window that it stands for.
#[derive(Debug, Clone, Copy, PartialEq, Eq, Structural)]
pub struct ForeignToplevelHandleData {
    pub window: WindowId,
}

/// The values of the `state` event.
pub const MAXIMIZED: u32 = 0;

pub const MINIMIZED: u32 = 1;

pub const ACTIVATED: u32 = 2;

pub const FULLSCREEN: u32 = 3;

/// A window's states: activated when it is focused, and how it is shown. A
/// snapped window counts as maximized; a floating one has no value.
pub open spec fn states_of(window: Option<(bool, WinState)>) -> Seq<u32> {
    match window {
        None => seq![],
        Some((focused, state)) => (if focused {
            seq![ACTIVATED]
        } else {
            seq![]
        }) + (match state {
            WinState::Maximized => seq![MAXIMIZED],
            WinState::Snapped(_) => seq![MAXIMIZED],
            WinState::Minimized => seq![MINIMIZED],
            WinState::Fullscreen => seq![FULLSCREEN],
            WinState::Floating => seq![],
        }),
    }
}

/// The values of the `state` event for a window, given whether it is focused and
/// how it is shown; none for one that is gone.
pub fn state_array(window: Option<(bool, WinState)>) -> (r: Vec<u32>)
    ensures
        r@ == states_of(window),
{
    let mut v: Vec<u32> = Vec::new();
    if let Some((focused, state)) = window {
        if focused {
            v.push(ACTIVATED);
        }
        match state {
            WinState::Maximized => v.push(MAXIMIZED),
            WinState::Snapped(_) => v.push(MAXIMIZED),
            WinState::Minimized => v.push(MINIMIZED),
            WinState::Fullscreen => v.push(FULLSCREEN),
            WinState::Floating => {},
        }
    }
    assert(v@ =~= states_of(window));
    v
}

/// What a handle is told.
#[derive(Debug, Clone, PartialEq, Eq)]
pub enum HandleEvent {
    Title(String),
    AppId(String),
    State(Vec<u32>),
    /// All that belongs together was told.
    Done,
}

pub enum HandleEventView {
    Title(Seq<char>),
    AppId(Seq<char>),
    State(Seq<u32>),
    Done,
}

impl View for HandleEvent {
    type V = HandleEventView;

    open spec fn view(&self) -> HandleEventView {
        match *self {
            HandleEvent::Title(t) => HandleEventView::Title(t@),
            HandleEvent::AppId(a) => HandleEventView::AppId(a@),
            HandleEvent::State(v) => HandleEventView::State(v@),
            HandleEvent::Done => HandleEventView::Done,
        }
    }
}

pub open spec fn events_view(v: Seq<HandleEvent>) -> Seq<HandleEventView> {
    v.map_values(|e: HandleEvent| e@)
}

/// A window as its handles tell of it.
#[derive(Debug, Clone, PartialEq, Eq)]
pub struct ForeignToplevel {
    pub title: String,
    pub app: String,
    pub focused: bool,
    pub state: WinState,
}

/// The state event of a window; an empty one where it is gone.
pub open spec fn state_event(window: Option<&ForeignToplevel>) -> HandleEventView {
    HandleEventView::State(
        states_of(
            match window {
                Some(w) => Some((w.focused, w.state)),
                None => None,
            },
        ),
    )
}

/// The events that name a window; none where it is gone.
pub open spec fn name_events(window: Option<&ForeignToplevel>) -> Seq<HandleEventView> {
    match window {
        Some(w) => seq![HandleEventView::Title(w.title@), HandleEventView::AppId(w.app@)],
        None => seq![],
    }
}

fn names(window: Option<&ForeignToplevel>) -> (r: Vec<HandleEvent>)
    ensures
        events_view(r@) == name_events(window),
{
    let mut v: Vec<HandleEvent> = Vec::new();
    if let Some(w) = window {
        v.push(HandleEvent::Title(own(w.title.as_str())));
        v.push(HandleEvent::AppId(own(w.app.as_str())));
    }
    assert(events_view(v@) =~= name_events(window));
    v
}

fn state_of(window: Option<&ForeignToplevel>) -> (r: HandleEvent)
    ensures
        r@ == state_event(window),
{
    HandleEvent::State(
        state_array(
            match window {
                Some(w) => Some((w.focused, w.state)),
                None => None,
            },
        ),
    )
}

/// What a new handle is told: the window's title and app, its state, and that
/// this was all.
pub fn ftl_announce_to(window: Option<&ForeignToplevel>) -> (r: Vec<HandleEvent>)
    ensures
        events_view(r@) == name_events(window) + seq![state_event(window), HandleEventView::Done],
{
    let mut v: Vec<HandleEvent> = names(window);
    let ghost before = events_view(v@);
    v.push(state_of(window));
    v.push(HandleEvent::Done);
    assert(events_view(v@) =~= before + seq![state_event(window), HandleEventView::Done]);
    v
}

// ---------------------------------------------------------------------------
// Managers and handles
// ---------------------------------------------------------------------------

/// The bound managers, and the handles of each window.
pub struct ForeignToplevels {
    managers: Vec<ManagerId>,
    handles: HashMap<WindowId, Vec<HandleId>>,
}

#[verifier::ext_equal]
pub struct ForeignView {
    pub managers: Seq<ManagerId>,
    pub handles: Map<WindowId, Seq<HandleId>>,
}

pub open spec fn handles_view(m: Map<WindowId, Vec<HandleId>>) -> Map<WindowId, Seq<HandleId>> {
    m.map_values(|v: Vec<HandleId>| v@)
}

impl View for ForeignToplevels {
    type V = ForeignView;

    closed spec fn view(&self) -> ForeignView {
        ForeignView { managers: self.managers@, handles: handles_view(self.handles@) }
    }
}

impl ForeignView {
    /// The handles of a window.
    pub open spec fn of(self, id: WindowId) -> Seq<HandleId> {
        if self.handles.contains_key(id) {
            self.handles[id]
        } else {
            seq![]
        }
    }

    /// With one more handle for a window.
    pub open spec fn with(self, id: WindowId, handle: HandleId) -> ForeignView {
        ForeignView { handles: self.handles.insert(id, self.of(id).push(handle)), ..self }
    }

    /// Without a window's handles.
    pub open spec fn without(self, id: WindowId) -> ForeignView {
        ForeignView { handles: self.handles.remove(id), ..self }
    }

    /// Without one handle of a window.
    pub open spec fn dropping(self, id: WindowId, handle: HandleId) -> ForeignView {
        if self.handles.contains_key(id) {
            ForeignView {
                handles: self.handles.insert(id, dropped(self.handles[id], handle)),
                ..self
            }
        } else {
            self
        }
    }
}

/// The first `n` values that are not `x`.
pub open spec fn dropped_upto(v: Seq<u64>, x: u64, n: int) -> Seq<u64>
    decreases n,
{
    if n <= 0 {
        seq![]
    } else if v[n - 1] == x {
        dropped_upto(v, x, n - 1)
    } else {
        dropped_upto(v, x, n - 1).push(v[n - 1])
    }
}

pub open spec fn dropped(v: Seq<u64>, x: u64) -> Seq<u64> {
    dropped_upto(v, x, v.len() as int)
}

fn drop_value(v: &Vec<u64>, x: u64) -> (r: Vec<u64>)
    ensures
        r@ == dropped(v@, x),
{
    let mut out: Vec<u64> = Vec::new();
    let mut i: usize = 0;
    assert(out@ =~= seq![]);
    while i < v.len()
        invariant
            i <= v.len(),
            out@ == dropped_upto(v@, x, i as int),
        decreases v.len() - i,
    {
        if v[i] != x {
            out.push(v[i]);
        }
        i += 1;
    }
    out
}

fn copy_ids(v: &Vec<u64>) -> (r: Vec<u64>)
    ensures
        r@ == v@,
{
    let mut out: Vec<u64> = Vec::new();
    let mut i: usize = 0;
    while i < v.len()
        invariant
            i <= v.len(),
            out@ == v@.take(i as int),
        decreases v.len() - i,
    {
        out.push(v[i]);
        assert(out@ =~= v@.take(i + 1));
        i += 1;
    }
    assert(out@ =~= v@);
    out
}

impl ForeignToplevels {
    pub fn new() -> (r: ForeignToplevels)
        ensures
            r@.managers == Seq::<ManagerId>::empty(),
            r@.handles == Map::<WindowId, Seq<HandleId>>::empty(),
    {
        let r = ForeignToplevels { managers: Vec::new(), handles: HashMap::new() };
        assert(r@.handles =~= Map::<WindowId, Seq<HandleId>>::empty());
        r
    }

    /// A manager binds. Every existing window is announced to it.
    pub fn bind(&mut self, manager: ManagerId, windows: Vec<WindowId>) -> (r: Vec<WindowId>)
        ensures
            final(self)@ == (ForeignView {
                managers: old(self)@.managers.push(manager),
                ..old(self)@
            }),
            r@ == windows@,
    {
        self.managers.push(manager);
        windows
    }

    /// A manager is told to stop: it gets no more windows.
    pub fn stop(&mut self, manager: ManagerId)
        ensures
            final(self)@ == (ForeignView {
                managers: dropped(old(self)@.managers, manager),
                ..old(self)@
            }),
    {
        self.managers = drop_value(&self.managers, manager);
    }

    /// The managers that a newly mapped window is announced to: all of them.
    pub fn ftl_announce_window(&self) -> (r: Vec<ManagerId>)
        ensures
            r@ == self@.managers,
    {
        copy_ids(&self.managers)
    }

    /// A handle for a window was created on a manager.
    pub fn ftl_announced(&mut self, data: ForeignToplevelHandleData, handle: HandleId)
        ensures
            final(self)@ == old(self)@.with(data.window, handle),
    {
        let ghost before = self@;
        let mut list: Vec<HandleId> = match self.handles.remove(&data.window) {
            Some(list) => list,
            None => Vec::new(),
        };
        assert(list@ =~= before.of(data.window));
        list.push(handle);
        self.handles.insert(data.window, list);
        assert(self@ =~= before.with(data.window, handle));
    }

    /// The handles that a window's title and state are pushed to.
    pub fn ftl_handles(&self, id: WindowId) -> (r: Vec<HandleId>)
        ensures
            r@ == self@.of(id),
    {
        match self.handles.get(&id) {
            Some(list) => copy_ids(list),
            None => Vec::new(),
        }
    }

    /// Push the live title and app to all of a window's handles. Nothing is told of
    /// a window that is gone.
    pub fn ftl_update_title(&self, id: WindowId, window: Option<&ForeignToplevel>) -> (r: (
        Vec<HandleId>,
        Vec<HandleEvent>,
    ))
        ensures
            r.0@ == (if window is Some {
                self@.of(id)
            } else {
                seq![]
            }),
            events_view(r.1@) == name_events(window).push(HandleEventView::Done),
    {
        let mut events: Vec<HandleEvent> = names(window);
        let ghost before = events_view(events@);
        events.push(HandleEvent::Done);
        assert(events_view(events@) =~= before.push(HandleEventView::Done));
        if window.is_none() {
            let none: Vec<HandleId> = Vec::new();
            assert(none@ =~= seq![]);
            return (none, events);
        }
        (self.ftl_handles(id), events)
    }

    /// Push the current state to all of a window's handles.
    pub fn ftl_update_state(&self, id: WindowId, window: Option<&ForeignToplevel>) -> (r: (
        Vec<HandleId>,
        Vec<HandleEvent>,
    ))
        ensures
            r.0@ == self@.of(id),
            events_view(r.1@) == seq![state_event(window), HandleEventView::Done],
    {
        let mut events: Vec<HandleEvent> = Vec::new();
        events.push(state_of(window));
        events.push(HandleEvent::Done);
        assert(events_view(events@) =~= seq![state_event(window), HandleEventView::Done]);
        (self.ftl_handles(id), events)
    }

    /// The windows whose state is refreshed when focus or state changed anywhere,
    /// which keeps the activated flag exclusive: every one that has handles, once.
    pub fn ftl_refresh_all_state(&self) -> (r: Vec<WindowId>)
        ensures
            r@.no_duplicates(),
            r@.to_set() == self@.handles.dom(),
    {
        assert(self@.handles.dom() =~= self.handles@.dom());
        keys_of(&self.handles)
    }

    /// A window closed: its handles are told and forgotten.
    pub fn ftl_closed(&mut self, id: WindowId) -> (r: Vec<HandleId>)
        ensures
            r@ == old(self)@.of(id),
            final(self)@ == old(self)@.without(id),
    {
        let ghost before = self@;
        let gone: Option<Vec<HandleId>> = self.handles.remove(&id);
        assert(self@ =~= before.without(id));
        match gone {
            Some(list) => list,
            None => Vec::new(),
        }
    }

    /// A taskbar destroyed a handle: only that one goes.
    pub fn destroy(&mut self, data: ForeignToplevelHandleData, handle: HandleId)
        ensures
            final(self)@ == old(self)@.dropping(data.window, handle),
    {
        let ghost before = self@;
        if let Some(list) = self.handles.remove(&data.window) {
            self.handles.insert(data.window, drop_value(&list, handle));
        }
        assert(self@ =~= before.dropping(data.window, handle));
    }
}

// ---------------------------------------------------------------------------
// Requests
// ---------------------------------------------------------------------------

/// What a taskbar asks of a window.
#[derive(Debug, Clone, Copy, PartialEq, Eq, Structural)]
pub enum FtlRequest {
    Activate,
    Close,
    SetMinimized,
    UnsetMinimized,
    SetMaximized,
    UnsetMaximized,
    SetFullscreen,
    UnsetFullscreen,
    /// A hint where the window's tile is.
    SetRectangle,
}

/// What is done for it, one after the other.
#[derive(Debug, Clone, Copy, PartialEq, Eq, Structural)]
pub enum FtlAction {
    /// Bring the window back with its animation.
    Restore,
    /// Send it away with its animation.
    Minimize,
    /// Raise it, and focus it in the window manager.
    Focus,
    /// Give its surface the keyboard.
    KeyboardFocus,
    Close,
    ToggleMaximize,
    Fullscreen { area: Rect },
    /// Push the state of every window.
    RefreshAll,
}

/// What is done for a request, given how the window is shown, if it exists, and
/// the work area of its monitor, if it has one.
pub open spec fn actions_of(
    request: FtlRequest,
    state: Option<WinState>,
    area: Option<Rect>,
) -> Seq<FtlAction> {
    let refresh = seq![FtlAction::RefreshAll];
    match request {
        FtlRequest::Activate => (if state == Some(WinState::Minimized) {
            seq![FtlAction::Restore]
        } else {
            seq![]
        }) + seq![FtlAction::Focus, FtlAction::KeyboardFocus, FtlAction::RefreshAll],
        FtlRequest::Close => seq![FtlAction::Close],
        FtlRequest::SetMinimized => seq![FtlAction::Minimize] + refresh,
        FtlRequest::UnsetMinimized => seq![FtlAction::Restore] + refresh,
        FtlRequest::SetMaximized => if state == Some(WinState::Maximized) {
            refresh
        } else {
            seq![FtlAction::ToggleMaximize] + refresh
        },
        FtlRequest::UnsetMaximized => if state == Some(WinState::Maximized) {
            seq![FtlAction::ToggleMaximize] + refresh
        } else {
            refresh
        },
        FtlRequest::SetFullscreen => match area {
            Some(area) => seq![FtlAction::Fullscreen { area }] + refresh,
            None => seq![],
        },
        FtlRequest::UnsetFullscreen => refresh,
        FtlRequest::SetRectangle => seq![],
    }
}

/// What is done for a request.
pub fn request_actions(request: FtlRequest, state: Option<WinState>, area: Option<Rect>) -> (r: Vec<
    FtlAction,
>)
    ensures
        r@ == actions_of(request, state, area),
{
    let maximized: bool = match state {
        Some(WinState::Maximized) => true,
        _ => false,
    };
    let mut v: Vec<FtlAction> = Vec::new();
    match request {
        FtlRequest::Activate => {
            if let Some(WinState::Minimized) = state {
                v.push(FtlAction::Restore);
            }
            v.push(FtlAction::Focus);
            v.push(FtlAction::KeyboardFocus);
            v.push(FtlAction::RefreshAll);
        },
        FtlRequest::Close => {
            v.push(FtlAction::Close);
        },
        FtlRequest::SetMinimized => {
            v.push(FtlAction::Minimize);
            v.push(FtlAction::RefreshAll);
        },
        FtlRequest::UnsetMinimized => {
            v.push(FtlAction::Restore);
            v.push(FtlAction::RefreshAll);
        },
        FtlRequest::SetMaximized => {
            if !maximized {
                v.push(FtlAction::ToggleMaximize);
            }
            v.push(FtlAction::RefreshAll);
        },
        FtlRequest::UnsetMaximized => {
            if maximized {
                v.push(FtlAction::ToggleMaximize);
            }
            v.push(FtlAction::RefreshAll);
        },
        FtlRequest::SetFullscreen => {
            if let Some(area) = area {
                v.push(FtlAction::Fullscreen { area });
                v.push(FtlAction::RefreshAll);
            }
        },
        FtlRequest::UnsetFullscreen => {
            v.push(FtlAction::RefreshAll);
        },
        FtlRequest::SetRectangle => {},
    }
    assert(v@ =~= actions_of(request, state, area));
    v
}

// ---------------------------------------------------------------------------
// Laws
// ---------------------------------------------------------------------------

/// Once a window is closed it has no handles, and a new one for it is the only
/// one.
pub proof fn law_closed_is_forgotten(v: ForeignView, id: WindowId, handle: HandleId)
    ensures
        v.without(id).of(id).len() == 0,
        v.without(id).with(id, handle).of(id) == seq![handle],
{
    assert(seq![handle] =~= Seq::<HandleId>::empty().push(handle));
}

/// An announced handle is the last of its window's, and the other windows keep
/// theirs.
pub proof fn law_announced_handle(
    v: ForeignView,
    id: WindowId,
    handle: HandleId,
    other: WindowId,
)
    ensures
        v.with(id, handle).of(id) == v.of(id).push(handle),
        other != id ==> v.with(id, handle).of(other) == v.of(other),
{
}

/// A window that is maximized already, or is not, is left as it is when asked
/// for just that: only the state is pushed again.
pub proof fn law_maximize_is_idempotent(state: WinState, area: Option<Rect>)
    ensures
        actions_of(FtlRequest::SetMaximized, Some(WinState::Maximized), area) == seq![
            FtlAction::RefreshAll,
        ],
        state != WinState::Maximized ==> actions_of(FtlRequest::UnsetMaximized, Some(state), area)
            == seq![FtlAction::RefreshAll],
{
}

/// The values a taskbar is told are those of the protocol: 0 for maximized, 1 for
/// minimized, 2 for activated, 3 for fullscreen. A focused window has the activated
/// value and no other one has it.
pub proof fn law_state_values(focused: bool, state: WinState)
    ensures
        states_of(Some((focused, state))).contains(2u32) == focused,
        states_of(Some((focused, state))).contains(0u32) == (state == WinState::Maximized || state
            is Snapped),
        states_of(Some((focused, state))).contains(1u32) == (state == WinState::Minimized),
        states_of(Some((focused, state))).contains(3u32) == (state == WinState::Fullscreen),
        states_of(Some((false, WinState::Floating))).len() == 0,
        states_of(None).len() == 0,
        states_of(Some((focused, state))).len() <= 2,
{
    let s = states_of(Some((focused, state)));
    let own = states_of(Some((false, state)));
    assert(own =~= match state {
        WinState::Maximized => seq![0u32],
        WinState::Snapped(_) => seq![0u32],
        WinState::Minimized => seq![1u32],
        WinState::Fullscreen => seq![3u32],
        WinState::Floating => seq![],
    });
    if focused {
        assert(s =~= seq![2u32] + own);
        assert(s[0] == 2);
        if own.len() > 0 {
            assert(s[1] == own[0]);
        }
    } else {
        assert(s =~= own);
        if own.len() > 0 {
            assert(s[0] == own[0]);
        }
    }
}

/// Activating brings a minimised window back first and then gives it the focus; no
/// other request moves the focus, and closing does nothing but close.
pub proof fn law_requests(state: Option<WinState>, area: Option<Rect>, r: FtlRequest)
    ensures
        actions_of(FtlRequest::Activate, Some(WinState::Minimized), area) == seq![
            FtlAction::Restore,
            FtlAction::Focus,
            FtlAction::KeyboardFocus,
            FtlAction::RefreshAll,
        ],
        state != Some(WinState::Minimized) ==> actions_of(FtlRequest::Activate, state, area)
            == seq![FtlAction::Focus, FtlAction::KeyboardFocus, FtlAction::RefreshAll],
        actions_of(FtlRequest::Close, state, area) == seq![FtlAction::Close],
        actions_of(FtlRequest::SetMinimized, state, area) == seq![
            FtlAction::Minimize,
            FtlAction::RefreshAll,
        ],
        actions_of(FtlRequest::UnsetMinimized, state, area) == seq![
            FtlAction::Restore,
            FtlAction::RefreshAll,
        ],
        actions_of(FtlRequest::SetRectangle, state, area).len() == 0,
        actions_of(FtlRequest::SetFullscreen, state, None).len() == 0,
        area matches Some(a) ==> actions_of(FtlRequest::SetFullscreen, state, area) == seq![
            FtlAction::Fullscreen { area: a },
            FtlAction::RefreshAll,
        ],
        state != Some(WinState::Maximized) ==> actions_of(FtlRequest::SetMaximized, state, area)
            == seq![FtlAction::ToggleMaximize, FtlAction::RefreshAll] && actions_of(
            FtlRequest::UnsetMaximized,
            state,
            area,
        ) == seq![FtlAction::RefreshAll],
        actions_of(FtlRequest::UnsetMaximized, Some(WinState::Maximized), area) == seq![
            FtlAction::ToggleMaximize,
            FtlAction::RefreshAll,
        ],
        actions_of(FtlRequest::SetMaximized, Some(WinState::Maximized), area) == seq![
            FtlAction::RefreshAll,
        ],
        actions_of(FtlRequest::UnsetFullscreen, state, area) == seq![FtlAction::RefreshAll],
{
    assert(Seq::<FtlAction>::empty() + seq![
        FtlAction::Focus,
        FtlAction::KeyboardFocus,
        FtlAction::RefreshAll,
    ] =~= seq![FtlAction::Focus, FtlAction::KeyboardFocus, FtlAction::RefreshAll]);
}

/// A handle that was destroyed is told nothing more; every other handle of the window
/// is, and other windows keep theirs.
pub proof fn law_destroyed_handle(v: ForeignView, id: WindowId, handle: HandleId, x: HandleId, other: WindowId)
    requires
        other != id,
    ensures
        !v.dropping(id, handle).of(id).contains(handle),
        x != handle ==> v.dropping(id, handle).of(id).contains(x) == v.of(id).contains(x),
        v.dropping(id, handle).of(other) == v.of(other),
        v.with(id, handle).of(id).contains(handle),
        v.dropping(id, handle).managers == v.managers,
{
    let h = v.of(id);
    lemma_dropped(h, handle, x, h.len() as int);
    let w = v.with(id, handle).of(id);
    assert(w[w.len() - 1] == handle);
    assert(h.take(h.len() as int) =~= h);
    if h.contains(x) {
        assert(h.take(h.len() as int).contains(x));
    }
}

proof fn lemma_dropped(v: Seq<u64>, x: u64, y: u64, n: int)
    requires
        0 <= n <= v.len(),
    ensures
        !dropped_upto(v, x, n).contains(x),
        y != x ==> dropped_upto(v, x, n).contains(y) == v.take(n).contains(y),
    decreases n,
{
    if n > 0 {
        lemma_dropped(v, x, y, n - 1);
        let a = dropped_upto(v, x, n - 1);
        assert(v.take(n) =~= v.take(n - 1).push(v[n - 1]));
        lemma_pushed(a, v[n - 1], x);
        lemma_pushed(a, v[n - 1], y);
        lemma_pushed(v.take(n - 1), v[n - 1], y);
    }
}

proof fn lemma_pushed(s: Seq<u64>, a: u64, b: u64)
    ensures
        s.push(a).contains(b) == (s.contains(b) || a == b),
{
    let t = s.push(a);
    if s.contains(b) {
        let i = choose|i: int| 0 <= i < s.len() && s[i] == b;
        assert(t[i] == b);
    }
    assert(t[s.len() as int] == a);
    if t.contains(b) {
        let i = choose|i: int| 0 <= i < t.len() && t[i] == b;
        if i < s.len() {
            assert(s[i] == b);
        }
    }
}

/// A window's names are told as they are, the title before the app, and its state as
/// that of the window; of a window that is gone nothing is told but an empty state.
pub proof fn law_told_of_a_window(w: &ForeignToplevel)
    ensures
        name_events(Some(w)) == seq![
            HandleEventView::Title(w.title@),
            HandleEventView::AppId(w.app@),
        ],
        state_event(Some(w)) == HandleEventView::State(states_of(Some((w.focused, w.state)))),
        name_events(None).len() == 0,
        state_event(None) == HandleEventView::State(Seq::<u32>::empty()),
{
}

} // verus!
