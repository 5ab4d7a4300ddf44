//! What the compositor does for its clients' shell requests.
//!
//! The protocol objects stay with the caller: it says what was asked and what
//! the window manager knows of the window, and is told what to do. The books
//! kept here are those that outlive a request: which windows are dialogs and of
//! whom, which are waiting to be centred, which are decorated, and where
//! maximised ones return to.

use std::collections::{HashMap, HashSet};
use vstd::prelude::*;

use crate::decoration::BAR_H;
use crate::grab::{landing, to_whole_px, whole_px, MoveGrab, ResizeEdge, ResizeGrab};
use crate::keyboard::floor_div;
use crate::launcher::base_name;
use crate::tables::keys_of;
use crate::text::{
    begins, chars_of, law_prefix, lemma_no_prefix, opt_str, own, starts_with,
};
use crate::wm::{OutputId, Rect, WinState, WindowId, WorkspaceId, PX};

verus! {

broadcast use vstd::std_specs::hash::group_hash_axioms;

/// The left button: the only one that a drag is granted for.
pub const BTN_LEFT: u32 = 0x110;

/// The rectangle that a window has until its client picks a size.
pub open spec fn placeholder() -> Rect {
    Rect {
        x: (120 * PX) as i64,
        y: (120 * PX) as i64,
        w: (640 * PX) as i64,
        h: (480 * PX) as i64,
    }
}

/// A table without the keys that have this value.
pub open spec fn without_value(m: Map<WindowId, WindowId>, v: WindowId) -> Map<
    WindowId,
    WindowId,
> {
    m.restrict(Set::new(|k: WindowId| m.contains_key(k) && m[k] != v))
}

/// What outlives a request.
pub struct ShellBooks {
    dialog_parent: HashMap<WindowId, WindowId>,
    center_pending: HashSet<WindowId>,
    decorated: HashSet<WindowId>,
    restore: HashMap<WindowId, Rect>,
}

#[verifier::ext_equal]
pub struct BooksView {
    /// A dialog's parent.
    pub dialog_parent: Map<WindowId, WindowId>,
    /// Dialogs to centre once their size is known.
    pub center_pending: Set<WindowId>,
    /// Windows whose title bar the compositor draws.
    pub decorated: Set<WindowId>,
    /// Where a maximised or fullscreen window returns to.
    pub restore: Map<WindowId, Rect>,
}

impl View for ShellBooks {
    type V = BooksView;

    closed spec fn view(&self) -> BooksView {
        BooksView {
            dialog_parent: self.dialog_parent@,
            center_pending: self.center_pending@,
            decorated: self.decorated@,
            restore: self.restore@,
        }
    }
}

// ---------------------------------------------------------------------------
// Commits
// ---------------------------------------------------------------------------

/// What is known of the window that a commit is for.
#[derive(Debug, Clone, Copy, PartialEq, Eq, Structural)]
pub struct CommitWindow {
    pub state: WinState,
    pub geom: Rect,
    /// Size of the whole surface tree, in pixels.
    pub bbox_w: i32,
    pub bbox_h: i32,
    /// Geometry of the window's parent, if it has one that still exists.
    pub parent: Option<Rect>,
}

/// The window of a surface. The window manager may not know it, or not any more.
#[derive(Debug, Clone, Copy, PartialEq, Eq, Structural)]
pub struct SurfaceWindow {
    pub id: WindowId,
    pub known: Option<CommitWindow>,
}

/// What a commit is for. A surface is a window's, a layer's or a popup's, and of
/// the last two it matters whether they were configured.
#[derive(Debug, Clone, Copy, PartialEq, Eq, Structural)]
pub struct CommitFacts {
    pub window: Option<SurfaceWindow>,
    pub layer_configured: Option<bool>,
    pub popup_configured: Option<bool>,
}

/// What a commit comes to.
#[derive(Debug, Clone, Copy, PartialEq, Eq, Structural)]
pub struct CommitOutcome {
    /// The window takes this size, that of its content.
    pub resized: Option<Rect>,
    /// The window moves here, over its parent.
    pub centred: Option<Rect>,
    /// The window's names are read again, and its saved placement looked up.
    pub refresh: bool,
    /// The output's layers are arranged anew.
    pub arrange_layers: bool,
    /// The layer surface is sent its first configure.
    pub configure_layer: bool,
    /// The popup is sent its first configure.
    pub configure_popup: bool,
}

/// The geometry of a window once it follows its client's size. Only a floating
/// window does: the size of a snapped or maximised one is the compositor's to
/// dictate. Its content may be in subsurfaces, so the whole tree counts.
pub open spec fn synced(w: CommitWindow) -> Option<Rect> {
    if w.state == WinState::Floating && w.bbox_w > 0 && w.bbox_h > 0 && (whole_px(
        w.geom.w as int,
    ) != w.bbox_w || whole_px(w.geom.h as int) != w.bbox_h) {
        Some(
            Rect {
                x: w.geom.x,
                y: w.geom.y,
                w: (w.bbox_w * PX) as i64,
                h: (w.bbox_h * PX) as i64,
            },
        )
    } else {
        None
    }
}

pub open spec fn or_zero(v: int) -> int {
    if v > 0 {
        v
    } else {
        0
    }
}

/// A dialog over the middle of its parent, but not beyond the origin.
pub open spec fn centred_over(child: Rect, parent: Rect) -> Rect {
    Rect {
        x: or_zero(parent.x + (parent.w - child.w) / 2) as i64,
        y: or_zero(parent.y + (parent.h - child.h) / 2) as i64,
        w: child.w,
        h: child.h,
    }
}

/// Whether a window still has the placeholder's size.
pub open spec fn unsized_yet(geom: Rect) -> bool {
    whole_px(geom.w as int) == 640 && whole_px(geom.h as int) == 480
}

impl BooksView {
    /// Where a waiting dialog goes, and whether it stops waiting: once it has a
    /// size of its own, or its parent is gone.
    pub open spec fn centring(self, id: WindowId, child: Rect, parent: Option<Rect>) -> (
        Option<Rect>,
        bool,
    ) {
        if !self.center_pending.contains(id) || !self.dialog_parent.contains_key(id) {
            (None, false)
        } else {
            match parent {
                None => (None, true),
                Some(p) => if unsized_yet(child) {
                    (None, false)
                } else {
                    (Some(centred_over(child, p)), true)
                },
            }
        }
    }

    pub open spec fn committed(self, facts: CommitFacts) -> (BooksView, CommitOutcome) {
        let resized = match facts.window {
            Some(SurfaceWindow { id, known: Some(w) }) => synced(w),
            _ => None,
        };
        let c = match facts.window {
            Some(SurfaceWindow { id, known: Some(w) }) => self.centring(
                id,
                match resized {
                    Some(g) => g,
                    None => w.geom,
                },
                w.parent,
            ),
            _ => (None, false),
        };
        (
            if c.1 {
                BooksView {
                    center_pending: self.center_pending.remove((facts.window->0).id),
                    ..self
                }
            } else {
                self
            },
            CommitOutcome {
                resized,
                centred: c.0,
                refresh: facts.window is Some,
                arrange_layers: facts.layer_configured is Some,
                configure_layer: facts.layer_configured == Some(false),
                configure_popup: facts.popup_configured == Some(false),
            },
        )
    }

    pub open spec fn opened(self, id: WindowId, parent: Option<WindowId>) -> BooksView {
        match parent {
            Some(p) => BooksView {
                dialog_parent: self.dialog_parent.insert(id, p),
                center_pending: self.center_pending.insert(id),
                ..self
            },
            None => self,
        }
    }

    /// Without a window: it is no dialog, nobody's parent, not waiting, and not
    /// decorated.
    pub open spec fn destroyed(self, id: WindowId) -> BooksView {
        BooksView {
            dialog_parent: without_value(self.dialog_parent.remove(id), id),
            center_pending: self.center_pending.remove(id),
            decorated: self.decorated.remove(id),
            restore: self.restore,
        }
    }

    /// With the place to return to remembered, when the window comes from a
    /// normal state.
    pub open spec fn remembering(self, id: WindowId, window: Option<(WinState, Rect)>) -> BooksView {
        match window {
            Some((state, geom)) if state == WinState::Floating || state is Snapped => BooksView {
                restore: self.restore.insert(id, geom),
                ..self
            },
            _ => self,
        }
    }

    /// The place to return to, which is then forgotten.
    pub open spec fn returned(self, id: WindowId) -> (BooksView, Option<Placement>) {
        (
            BooksView { restore: self.restore.remove(id), ..self },
            if self.restore.contains_key(id) {
                let g = self.restore[id];
                Some(
                    Placement {
                        geom: g,
                        width: whole_px(g.w as int) as i32,
                        height: whole_px(g.h as int) as i32,
                    },
                )
            } else {
                None
            },
        )
    }
}

fn max_zero(v: i64) -> (r: i64)
    ensures
        r == or_zero(v as int),
{
    if v > 0 {
        v
    } else {
        0
    }
}

fn centre_over(child: Rect, parent: Rect) -> (r: Rect)
    requires
        child.bounded(),
        parent.bounded(),
    ensures
        r == centred_over(child, parent),
{
    Rect::new(
        max_zero(parent.x + floor_div(parent.w - child.w, 2)),
        max_zero(parent.y + floor_div(parent.h - child.h, 2)),
        child.w,
        child.h,
    )
}

fn sync_size(w: &CommitWindow) -> (r: Option<Rect>)
    ensures
        r == synced(*w),
        r matches Some(g) ==> w.geom.bounded() ==> g.bounded(),
{
    match w.state {
        WinState::Floating => {
            if w.bbox_w > 0 && w.bbox_h > 0 && (to_whole_px(w.geom.w) != w.bbox_w || to_whole_px(
                w.geom.h,
            ) != w.bbox_h) {
                Some(
                    Rect::new(w.geom.x, w.geom.y, w.bbox_w as i64 * PX, w.bbox_h as i64 * PX),
                )
            } else {
                None
            }
        },
        _ => None,
    }
}

/// What is left to do once a window is gone.
#[derive(Debug, Clone, Copy, PartialEq, Eq, Structural)]
pub struct Destruction {
    /// The workspace on which a window is focused instead.
    pub refocus: Option<WorkspaceId>,
    /// The window whose title bar is still dragged.
    pub title_drag: Option<WindowId>,
}

/// The size a client is told, in pixels, and where its window goes.
#[derive(Debug, Clone, Copy, PartialEq, Eq, Structural)]
pub struct Placement {
    pub geom: Rect,
    pub width: i32,
    pub height: i32,
}

/// Where a maximised window's content goes: the whole work area, less the title
/// bar of a decorated one.
pub open spec fn maximised(area: Rect, decorated: bool) -> Placement {
    let ch = area.h - (if decorated {
        BAR_H as int
    } else {
        0
    });
    Placement {
        geom: landing(area, decorated),
        width: whole_px(area.w as int) as i32,
        height: whole_px(
            if ch > PX {
                ch
            } else {
                PX as int
            },
        ) as i32,
    }
}

impl ShellBooks {
    pub fn new() -> (r: ShellBooks)
        ensures
            r@.dialog_parent == Map::<WindowId, WindowId>::empty(),
            r@.center_pending == Set::<WindowId>::empty(),
            r@.decorated == Set::<WindowId>::empty(),
            r@.restore == Map::<WindowId, Rect>::empty(),
    {
        ShellBooks {
            dialog_parent: HashMap::new(),
            center_pending: HashSet::new(),
            decorated: HashSet::new(),
            restore: HashMap::new(),
        }
    }

    /// The parent of a dialog.
    pub fn parent_of(&self, id: WindowId) -> (r: Option<WindowId>)
        ensures
            r == (if self@.dialog_parent.contains_key(id) {
                Some(self@.dialog_parent[id])
            } else {
                None
            }),
    {
        match self.dialog_parent.get(&id) {
            Some(p) => Some(*p),
            None => None,
        }
    }

    pub fn is_decorated(&self, id: WindowId) -> (r: bool)
        ensures
            r == self@.decorated.contains(id),
    {
        self.decorated.contains(&id)
    }

    /// A surface was committed: a floating window follows its client's size, a
    /// dialog is centred over its parent the first time its size is known, and
    /// layers and popups get their first configure. Of a window that the manager
    /// does not know only the names are read again.
    pub fn commit(&mut self, facts: CommitFacts) -> (r: CommitOutcome)
        requires
            facts.window matches Some(SurfaceWindow { id, known: Some(w) }) ==> w.geom.bounded()
                && (w.parent matches Some(p) ==> p.bounded()),
        ensures
            (final(self)@, r) == old(self)@.committed(facts),
    {
        let ghost before = self@;
        let mut resized: Option<Rect> = None;
        let mut centred: Option<Rect> = None;
        if let Some(SurfaceWindow { id, known: Some(w) }) = facts.window {
            resized = sync_size(&w);
            let child: Rect = match resized {
                Some(g) => g,
                None => w.geom,
            };
            if self.center_pending.contains(&id) && self.dialog_parent.contains_key(&id) {
                match w.parent {
                    None => {
                        self.center_pending.remove(&id);
                    },
                    Some(p) => {
                        if to_whole_px(child.w) != 640 || to_whole_px(child.h) != 480 {
                            centred = Some(centre_over(child, p));
                            self.center_pending.remove(&id);
                        }
                    },
                }
            }
        }
        let r = CommitOutcome {
            resized,
            centred,
            refresh: facts.window.is_some(),
            arrange_layers: facts.layer_configured.is_some(),
            configure_layer: match facts.layer_configured {
                Some(done) => !done,
                None => false,
            },
            configure_popup: match facts.popup_configured {
                Some(done) => !done,
                None => false,
            },
        };
        assert(self@ =~= before.committed(facts).0);
        r
    }

    /// A client opened a window, possibly as a dialog of another. It starts at
    /// the placeholder; a dialog left there would read as one that did not
    /// appear, so it waits to be centred.
    pub fn new_toplevel(&mut self, id: WindowId, parent: Option<WindowId>) -> (r: Rect)
        ensures
            final(self)@ == old(self)@.opened(id, parent),
            r == placeholder(),
    {
        let ghost before = self@;
        if let Some(p) = parent {
            self.dialog_parent.insert(id, p);
            self.center_pending.insert(id);
        }
        assert(self@ =~= before.opened(id, parent));
        Rect::new(120 * PX, 120 * PX, 640 * PX, 480 * PX)
    }

    /// A window is gone. A drag of its title bar ends with it, and another window
    /// of the workspace that it was on gets the focus.
    pub fn toplevel_destroyed(
        &mut self,
        id: WindowId,
        workspace: Option<WorkspaceId>,
        title_drag: Option<WindowId>,
    ) -> (r: Destruction)
        ensures
            final(self)@ == old(self)@.destroyed(id),
            r.refocus == workspace,
            r.title_drag == (if title_drag == Some(id) {
                None
            } else {
                title_drag
            }),
    {
        let ghost before = self@;
        self.dialog_parent.remove(&id);
        self.center_pending.remove(&id);
        self.orphan(id);
        self.decorated.remove(&id);
        assert(self@ =~= before.destroyed(id));
        Destruction {
            refocus: workspace,
            title_drag: match title_drag {
                Some(dragged) => if dragged == id {
                    None
                } else {
                    Some(dragged)
                },
                None => None,
            },
        }
    }

    /// Forget every dialog of a window.
    fn orphan(&mut self, parent: WindowId)
        ensures
            final(self)@ == (BooksView {
                dialog_parent: without_value(old(self)@.dialog_parent, parent),
                ..old(self)@
            }),
    {
        let ghost all = self.dialog_parent@;
        let ghost before = self@;
        let ids: Vec<WindowId> = keys_of(&self.dialog_parent);
        let mut i: usize = 0;
        while i < ids.len()
            invariant
                i <= ids.len(),
                ids@.to_set() == all.dom(),
                before.dialog_parent == all,
                self@ == (BooksView { dialog_parent: self.dialog_parent@, ..before }),
                forall|k: WindowId| #[trigger]
                    self.dialog_parent@.contains_key(k) ==> all.contains_key(k)
                        && self.dialog_parent@[k] == all[k],
                forall|k: WindowId| #[trigger]
                    all.contains_key(k) && all[k] != parent ==> self.dialog_parent@.contains_key(k),
                forall|j: int|
                    0 <= j < i && all[#[trigger] ids@[j]] == parent
                        ==> !self.dialog_parent@.contains_key(ids@[j]),
            decreases ids.len() - i,
        {
            let id: WindowId = ids[i];
            let stale: bool = match self.dialog_parent.get(&id) {
                Some(p) => *p == parent,
                None => false,
            };
            if stale {
                self.dialog_parent.remove(&id);
            }
            i += 1;
        }
        assert forall|k: WindowId| #[trigger]
            self.dialog_parent@.contains_key(k) implies all[k] != parent by {
            assert(ids@.to_set().contains(k));
            let j = choose|j: int| 0 <= j < ids.len() && ids@[j] == k;
            assert(ids@[j] == k);
        }
        assert(self.dialog_parent@ =~= without_value(all, parent));
    }

    fn remember(&mut self, id: WindowId, window: Option<(WinState, Rect)>)
        ensures
            final(self)@ == old(self)@.remembering(id, window),
    {
        let ghost before = self@;
        if let Some((state, geom)) = window {
            match state {
                WinState::Floating | WinState::Snapped(_) => {
                    self.restore.insert(id, geom);
                },
                _ => {},
            }
        }
        assert(self@ =~= before.remembering(id, window));
    }

    /// A client asks to be maximised, on a monitor with this work area. The place
    /// to return to is remembered only when it comes from a normal state.
    pub fn maximize_request(&mut self, id: WindowId, window: Option<(WinState, Rect)>, area: Rect) -> (r:
        Placement)
        requires
            area.bounded(),
        ensures
            final(self)@ == old(self)@.remembering(id, window),
            r == maximised(area, old(self)@.decorated.contains(id)),
    {
        self.remember(id, window);
        let decorated: bool = self.decorated.contains(&id);
        let bar: i64 = if decorated {
            BAR_H
        } else {
            0
        };
        let rest: i64 = area.h - bar;
        let ch: i64 = if rest > PX {
            rest
        } else {
            PX
        };
        let geom: Rect = if bar > 0 {
            Rect::new(area.x, area.y + bar, area.w, ch)
        } else {
            area
        };
        Placement { geom, width: to_whole_px(area.w), height: to_whole_px(ch) }
    }

    /// A client asks to be fullscreen on an output with these bounds.
    pub fn fullscreen_request(
        &mut self,
        id: WindowId,
        window: Option<(WinState, Rect)>,
        bounds: Rect,
    ) -> (r: Placement)
        ensures
            final(self)@ == old(self)@.remembering(id, window),
            r == (Placement {
                geom: bounds,
                width: whole_px(bounds.w as int) as i32,
                height: whole_px(bounds.h as int) as i32,
            }),
    {
        self.remember(id, window);
        Placement { geom: bounds, width: to_whole_px(bounds.w), height: to_whole_px(bounds.h) }
    }

    /// A client asks not to be maximised, or not to be fullscreen, any more: it
    /// returns to where it was, or picks its own size where that is not known.
    pub fn unmaximize_request(&mut self, id: WindowId) -> (r: Option<Placement>)
        ensures
            (final(self)@, r) == old(self)@.returned(id),
    {
        match self.restore.remove(&id) {
            Some(g) => Some(
                Placement { geom: g, width: to_whole_px(g.w), height: to_whole_px(g.h) },
            ),
            None => None,
        }
    }

    /// A window's decoration is negotiated: the compositor draws it unless the
    /// client explicitly asked for its own. Gives whether the compositor does.
    pub fn request_mode(&mut self, id: Option<WindowId>, client_side: bool) -> (r: bool)
        ensures
            r == !client_side,
            final(self)@ == (match id {
                Some(id) => BooksView {
                    decorated: if client_side {
                        old(self)@.decorated.remove(id)
                    } else {
                        old(self)@.decorated.insert(id)
                    },
                    ..old(self)@
                },
                None => old(self)@,
            }),
    {
        if let Some(id) = id {
            if client_side {
                self.decorated.remove(&id);
            } else {
                self.decorated.insert(id);
            }
        }
        !client_side
    }

    /// A decoration object is created, or its mode is unset: the compositor draws
    /// the decoration.
    pub fn new_decoration(&mut self, id: Option<WindowId>) -> (r: bool)
        ensures
            r,
            final(self)@ == (match id {
                Some(id) => BooksView { decorated: old(self)@.decorated.insert(id), ..old(self)@ },
                None => old(self)@,
            }),
    {
        self.request_mode(id, false)
    }
}

// ---------------------------------------------------------------------------
// Names
// ---------------------------------------------------------------------------

/// A window's app id: what its client set, else the name of the client's
/// program, so that the dock can match it.
pub fn app_identity(app: Option<&str>, program: Option<&str>) -> (r: Option<String>)
    ensures
        opt_str(r) == (match (app, program) {
            (Some(a), _) => Some(a@),
            (None, Some(p)) => base_name(p@),
            (None, None) => None,
        }),
{
    match app {
        Some(a) => Some(own(a)),
        None => match program {
            Some(p) => crate::launcher::program_name(p),
            None => None,
        },
    }
}

/// Who hears of a window's names.
#[derive(Debug, Clone, Copy, PartialEq, Eq, Structural)]
pub struct NamesStep {
    /// The handle in the list of windows is sent both names.
    pub send: bool,
    /// Taskbars are sent them.
    pub update: bool,
}

/// Who hears of a window's names after a commit: nobody unless they changed.
/// `changed` is what came of writing them down, `listed` whether the window has a
/// handle in the list, and `known` whether it can still be looked up.
pub fn names_step(changed: Option<bool>, listed: bool, known: bool) -> (r: NamesStep)
    ensures
        r.update == (changed == Some(true)),
        r.send == (changed == Some(true) && listed && known),
{
    let changed: bool = match changed {
        Some(c) => c,
        None => false,
    };
    NamesStep { send: changed && listed && known, update: changed }
}

// ---------------------------------------------------------------------------
// Popups
// ---------------------------------------------------------------------------

/// A rectangle in whole pixels.
#[derive(Debug, Clone, Copy, PartialEq, Eq, Structural)]
pub struct PxRect {
    pub x: i64,
    pub y: i64,
    pub w: i64,
    pub h: i64,
}

/// A position in whole pixels.
#[derive(Debug, Clone, Copy, PartialEq, Eq, Structural)]
pub struct PxPoint {
    pub x: i32,
    pub y: i32,
}

/// Where the output's work area begins, as seen from a popup's anchor.
pub open spec fn popup_origin(
    work_area: Rect,
    window: Rect,
    content: PxPoint,
    ancestors: PxPoint,
) -> (int, int) {
    (
        whole_px(work_area.x as int) - whole_px(window.x as int) - content.x - ancestors.x,
        whole_px(work_area.y as int) - whole_px(window.y as int) - content.y - ancestors.y,
    )
}

/// The area a popup is kept in: the output's work area, as seen from the origin
/// that its positioner anchors to. That is the window's origin, its content's
/// place in it, and the offsets of the popups above it.
pub fn popup_area(work_area: Rect, window: Rect, content: PxPoint, ancestors: PxPoint) -> (r: PxRect)
    ensures
        r.x == whole_px(work_area.x as int) - whole_px(window.x as int) - content.x - ancestors.x,
        r.y == whole_px(work_area.y as int) - whole_px(window.y as int) - content.y - ancestors.y,
        r.w == whole_px(work_area.w as int),
        r.h == whole_px(work_area.h as int),
        (r.x as int, r.y as int) == popup_origin(work_area, window, content, ancestors),
{
    PxRect {
        x: to_whole_px(work_area.x) as i64 - to_whole_px(window.x) as i64 - content.x as i64
            - ancestors.x as i64,
        y: to_whole_px(work_area.y) as i64 - to_whole_px(window.y) as i64 - content.y as i64
            - ancestors.y as i64,
        w: to_whole_px(work_area.w) as i64,
        h: to_whole_px(work_area.h) as i64,
    }
}

/// A focused window's geometry for an input method's popup; nothing where there
/// is no window.
pub fn parent_geometry(window: Option<Rect>) -> (r: PxRect)
    ensures
        match window {
            Some(g) => r.x == whole_px(g.x as int) && r.y == whole_px(g.y as int) && r.w == whole_px(
                g.w as int,
            ) && r.h == whole_px(g.h as int),
            None => r == (PxRect { x: 0, y: 0, w: 0, h: 0 }),
        },
{
    match window {
        Some(g) => PxRect {
            x: to_whole_px(g.x) as i64,
            y: to_whole_px(g.y) as i64,
            w: to_whole_px(g.w) as i64,
            h: to_whole_px(g.h) as i64,
        },
        None => PxRect { x: 0, y: 0, w: 0, h: 0 },
    }
}

/// What is known of a device that a popup wants to grab.
#[derive(Debug, Clone, Copy, PartialEq, Eq, Structural)]
pub struct GrabFacts {
    pub grabbed: bool,
    /// Whether the grab it is under is the one of this request's serial.
    pub by_serial: bool,
    /// Whether it is the one of the popup chain's previous serial.
    pub by_previous: bool,
}

/// What a popup's grab comes to.
#[derive(Debug, Clone, Copy, PartialEq, Eq, Structural)]
pub struct PopupGrab {
    pub keyboard: bool,
    pub pointer: bool,
    /// The whole popup chain is let go.
    pub ungrab: bool,
}

/// Whether a device is under somebody else's grab.
pub open spec fn taken(d: GrabFacts) -> bool {
    d.grabbed && !d.by_serial && !d.by_previous
}

fn is_taken(d: GrabFacts) -> (r: bool)
    ensures
        r == taken(d),
{
    d.grabbed && !(d.by_serial || d.by_previous)
}

/// Which devices a menu gets.
pub open spec fn granted(keyboard: Option<GrabFacts>, pointer: Option<GrabFacts>) -> PopupGrab {
    let k = keyboard matches Some(d) && taken(d);
    let p = pointer matches Some(d) && taken(d);
    PopupGrab {
        keyboard: keyboard is Some && !k,
        pointer: pointer is Some && !k && !p,
        ungrab: k || p,
    }
}

/// The menu grab: the keyboard and the pointer go to the popup chain, so that a
/// click or a key outside it dismisses it. A device that somebody else has
/// grabbed ends it; one that the seat does not have is passed over.
pub fn popup_grab(keyboard: Option<GrabFacts>, pointer: Option<GrabFacts>) -> (r: PopupGrab)
    ensures
        r == ({
            let k = keyboard matches Some(d) && taken(d);
            let p = pointer matches Some(d) && taken(d);
            PopupGrab {
                keyboard: keyboard is Some && !k,
                pointer: pointer is Some && !k && !p,
                ungrab: k || p,
            }
        }),
        r == granted(keyboard, pointer),
{
    let mut r = PopupGrab { keyboard: false, pointer: false, ungrab: false };
    if let Some(d) = keyboard {
        if is_taken(d) {
            r.ungrab = true;
            return r;
        }
        r.keyboard = true;
    }
    if let Some(d) = pointer {
        if is_taken(d) {
            r.ungrab = true;
            return r;
        }
        r.pointer = true;
    }
    r
}

// ---------------------------------------------------------------------------
// Drags, focus, activation, selections
// ---------------------------------------------------------------------------

/// A client asks for its window to be dragged: granted for a known window on a
/// monitor, from where the pointer is.
pub fn move_request(window: Option<(WindowId, Rect)>, on_monitor: bool, px: i64, py: i64) -> (r:
    Option<MoveGrab>)
    ensures
        r == (match window {
            Some((id, geom)) if on_monitor => Some(
                MoveGrab { start_x: px, start_y: py, window: id, initial: geom },
            ),
            _ => None,
        }),
{
    match window {
        Some((id, geom)) => {
            if on_monitor {
                Some(MoveGrab::new(px, py, id, geom))
            } else {
                None
            }
        },
        None => None,
    }
}

/// A client asks for its window to be resized by dragging: granted for a known
/// window, from where the pointer is.
pub fn resize_request(window: Option<(WindowId, Rect)>, edges: ResizeEdge, px: i64, py: i64) -> (r:
    Option<ResizeGrab>)
    ensures
        r == (match window {
            Some((id, geom)) => Some(
                ResizeGrab { start_x: px, start_y: py, window: id, initial_geom: geom, edges },
            ),
            None => None,
        }),
{
    match window {
        Some((id, geom)) => Some(ResizeGrab::new(px, py, id, geom, edges)),
        None => None,
    }
}

/// Whether keyboard focus on a surface raises its window: known windows are
/// raised, unless focus only follows the pointer.
pub fn raises(window: Option<WindowId>, suppressed: bool) -> (r: Option<WindowId>)
    ensures
        r == (if suppressed {
            None
        } else {
            window
        }),
{
    if suppressed {
        None
    } else {
        window
    }
}

/// A client asks for one of its windows to be activated. Honouring that would let
/// any client steal focus, so a known window that is not focused is only marked
/// urgent.
pub fn request_activation(window: Option<(WindowId, bool)>) -> (r: Option<WindowId>)
    ensures
        r == (match window {
            Some((id, focused)) if !focused => Some(id),
            _ => None,
        }),
{
    match window {
        Some((id, focused)) => {
            if focused {
                None
            } else {
                Some(id)
            }
        },
        None => None,
    }
}

/// Who owns a selection that a client reads from the compositor.
#[derive(Debug, Clone, Copy, PartialEq, Eq, Structural)]
pub enum SelectionOrigin {
    /// An X11 client.
    X11,
    /// The compositor itself: copied text, or a screenshot.
    Native,
}

/// What is written to the client.
#[derive(Debug, Clone, Copy, PartialEq, Eq, Structural)]
pub enum SelectionReply {
    /// It is streamed from X11.
    Stream,
    Image,
    Text,
    Nothing,
}

pub open spec fn selection_reply(
    origin: SelectionOrigin,
    mime_type: Seq<char>,
    x11_ready: bool,
    has_image: bool,
    has_text: bool,
) -> SelectionReply {
    match origin {
        SelectionOrigin::X11 => if x11_ready {
            SelectionReply::Stream
        } else {
            SelectionReply::Nothing
        },
        SelectionOrigin::Native => if starts_with(mime_type, "image/"@) {
            if has_image {
                SelectionReply::Image
            } else {
                SelectionReply::Nothing
            }
        } else if has_text {
            SelectionReply::Text
        } else {
            SelectionReply::Nothing
        },
    }
}

/// What a client that reads a selection is given: an image where it asks for one,
/// text otherwise, as far as there is any.
pub fn send_selection(
    origin: SelectionOrigin,
    mime_type: &str,
    x11_ready: bool,
    has_image: bool,
    has_text: bool,
) -> (r: SelectionReply)
    ensures
        r == (match origin {
            SelectionOrigin::X11 => if x11_ready {
                SelectionReply::Stream
            } else {
                SelectionReply::Nothing
            },
            SelectionOrigin::Native => if starts_with(mime_type@, "image/"@) {
                if has_image {
                    SelectionReply::Image
                } else {
                    SelectionReply::Nothing
                }
            } else if has_text {
                SelectionReply::Text
            } else {
                SelectionReply::Nothing
            },
        }),
        r == selection_reply(origin, mime_type@, x11_ready, has_image, has_text),
{
    match origin {
        SelectionOrigin::X11 => if x11_ready {
            SelectionReply::Stream
        } else {
            SelectionReply::Nothing
        },
        SelectionOrigin::Native => {
            let mime: Vec<char> = chars_of(mime_type);
            if begins(mime.as_slice(), "image/") {
                if has_image {
                    SelectionReply::Image
                } else {
                    SelectionReply::Nothing
                }
            } else if has_text {
                SelectionReply::Text
            } else {
                SelectionReply::Nothing
            }
        },
    }
}

/// Whose scale a surface is told: its window's output's, else the primary one's.
pub fn scale_output(window: Option<OutputId>, primary: Option<OutputId>) -> (r: Option<OutputId>)
    ensures
        r == (match window {
            Some(o) => Some(o),
            None => primary,
        }),
{
    match window {
        Some(o) => Some(o),
        None => primary,
    }
}

/// Whether a pointer constraint takes hold at once: when the pointer is over the
/// surface that asked for it.
pub fn constraint_active(under_pointer: Option<u64>, surface: u64) -> (r: bool)
    ensures
        r == (under_pointer == Some(surface)),
{
    match under_pointer {
        Some(s) => s == surface,
        None => false,
    }
}

// ---------------------------------------------------------------------------
// Laws
// ---------------------------------------------------------------------------

/// A floating or snapped window that is maximised, or made fullscreen, and put
/// back returns to exactly where it was, and nothing is remembered afterwards.
/// Maximising it again in between does not overwrite the place.
pub proof fn law_maximise_round_trip(
    v: BooksView,
    id: WindowId,
    state: WinState,
    geom: Rect,
    between: WinState,
    other: Rect,
)
    requires
        state == WinState::Floating || state is Snapped,
        !(between == WinState::Floating || between is Snapped),
    ensures
        ({
            let up = v.remembering(id, Some((state, geom)));
            let again = up.remembering(id, Some((between, other)));
            let (back, place) = again.returned(id);
            &&& again == up
            &&& place matches Some(p) && p.geom == geom
            &&& back.returned(id) == (back, None::<Placement>)
        }),
{
}

/// A dialog is centred once: after it was, a commit does not move it again.
pub proof fn law_centred_once(v: BooksView, facts: CommitFacts, later: CommitFacts)
    requires
        facts.window is Some,
        later.window is Some,
        (facts.window->0).id == (later.window->0).id,
        v.committed(facts).1.centred is Some,
    ensures
        v.committed(facts).0.committed(later).1.centred is None,
        !v.committed(facts).0.center_pending.contains((facts.window->0).id),
{
}

/// A centred dialog keeps its size and has its parent's middle, to the nearest
/// unit, on each axis on which that would not put it beyond the origin.
pub proof fn law_centre(child: Rect, parent: Rect)
    requires
        child.bounded(),
        parent.bounded(),
    ensures
        ({
            let r = centred_over(child, parent);
            &&& r.w == child.w && r.h == child.h
            &&& r.x >= 0 && r.y >= 0
            &&& parent.x + (parent.w - child.w) / 2 >= 0 ==> 0 <= (2 * parent.x + parent.w) - (2
                * r.x + r.w) <= 1
            &&& parent.y + (parent.h - child.h) / 2 >= 0 ==> 0 <= (2 * parent.y + parent.h) - (2
                * r.y + r.h) <= 1
        }),
{
}

/// Once a window is destroyed no book mentions it but for its place to return
/// to, and no dialog of it is left; other windows' entries stay.
pub proof fn law_destroyed_leaves_no_trace(v: BooksView, id: WindowId, k: WindowId)
    ensures
        ({
            let d = v.destroyed(id);
            &&& !d.dialog_parent.contains_key(id)
            &&& d.dialog_parent.contains_key(k) ==> d.dialog_parent[k] != id
            &&& !d.center_pending.contains(id)
            &&& !d.decorated.contains(id)
            &&& k != id && v.decorated.contains(k) ==> d.decorated.contains(k)
            &&& k != id && v.dialog_parent.contains_key(k) && v.dialog_parent[k] != id
                ==> d.dialog_parent.contains_key(k) && d.dialog_parent[k] == v.dialog_parent[k]
        }),
{
}

/// A surface that is no floating window keeps its size, whatever its client
/// commits.
pub proof fn law_size_is_dictated(w: CommitWindow)
    requires
        w.state != WinState::Floating,
    ensures
        synced(w) is None,
{
}

/// A window starts as a rectangle of 640 by 480 pixels at (120, 120).
pub proof fn law_placeholder()
    ensures
        placeholder().x == 120 * 256 && placeholder().y == 120 * 256,
        placeholder().w == 640 * 256 && placeholder().h == 480 * 256,
        unsized_yet(placeholder()),
{
}

/// A floating window takes the size its client draws, to the pixel, and stays where it
/// is; where it has that size already, or nothing is drawn, it is left alone.
pub proof fn law_floating_follows_client(w: CommitWindow)
    requires
        w.geom.bounded(),
        0 <= w.geom.w,
        0 <= w.geom.h,
    ensures
        synced(w) matches Some(g) ==> {
            &&& w.state == WinState::Floating
            &&& g.x == w.geom.x && g.y == w.geom.y
            &&& g.w == w.bbox_w * 256 && g.h == w.bbox_h * 256
        },
        w.bbox_w <= 0 || w.bbox_h <= 0 ==> synced(w) is None,
        w.geom.w == w.bbox_w * 256 && w.geom.h == w.bbox_h * 256 ==> synced(w) is None,
        w.state == WinState::Floating && w.bbox_w > 0 && w.bbox_h > 0 && w.geom.w % 256 == 0
            && w.geom.w < 0x7fff_ffff * 256 && w.geom.w != w.bbox_w * 256 ==> synced(w) is Some,
        w.state == WinState::Floating && w.bbox_w > 0 && w.bbox_h > 0 && w.geom.h % 256 == 0
            && w.geom.h < 0x7fff_ffff * 256 && w.geom.h != w.bbox_h * 256 ==> synced(w) is Some,
{
}

/// A dialog waits from its opening until its size is known; a window without a parent
/// does not wait.
pub proof fn law_dialogs_wait(v: BooksView, id: WindowId, parent: WindowId, child: Rect, place: Rect)
    ensures
        v.opened(id, None) == v,
        v.opened(id, Some(parent)).dialog_parent.contains_key(id),
        v.opened(id, Some(parent)).dialog_parent[id] == parent,
        v.opened(id, Some(parent)).centring(id, placeholder(), Some(place)) == (None::<Rect>, false),
        v.opened(id, Some(parent)).centring(id, child, None) == (None::<Rect>, true),
        child.w == 300 * 256 ==> v.opened(id, Some(parent)).centring(id, child, Some(place)) == (
            Some(centred_over(child, place)),
            true,
        ),
        !v.center_pending.contains(id) ==> v.centring(id, child, Some(place)) == (
            None::<Rect>,
            false,
        ),
{
}

/// A layer and a popup get one first configure each: where they had it, or there is
/// none, nothing is sent.
pub proof fn law_first_configure(v: BooksView, facts: CommitFacts)
    ensures
        v.committed(facts).1.configure_layer == (facts.layer_configured == Some(false)),
        v.committed(facts).1.arrange_layers == (facts.layer_configured == Some(false)
            || facts.layer_configured == Some(true)),
        v.committed(facts).1.configure_popup == (facts.popup_configured == Some(false)),
        v.committed(facts).1.refresh == (facts.window is Some),
        facts.window is None ==> v.committed(facts).0 == v && v.committed(facts).1.resized is None
            && v.committed(facts).1.centred is None,
{
    if let Some(configured) = facts.layer_configured {
        assert(configured || !configured);
    }
}

/// A maximised window fills the area; one with a title bar leaves 32 pixels at the top
/// for it. The size that its client is told is the size it has.
pub proof fn law_maximised_fills(area: Rect, decorated: bool)
    requires
        area.bounded(),
        0 <= area.w,
        40 * 256 <= area.h,
        area.w % 256 == 0,
        area.h % 256 == 0,
        area.w <= 0x7fff_ffff * 256,
        area.h <= 0x7fff_ffff * 256,
    ensures
        ({
            let p = maximised(area, decorated);
            &&& p.geom.x == area.x && p.geom.w == area.w
            &&& p.geom.y + p.geom.h == area.y + area.h
            &&& p.geom.y - area.y == (if decorated {
                32 * 256int
            } else {
                0
            })
            &&& p.width * 256 == p.geom.w
            &&& p.height * 256 == p.geom.h
        }),
{
}

/// A window that is put back is where it was, at the size its client is told; what was
/// never remembered is not put back.
pub proof fn law_return(v: BooksView, id: WindowId, geom: Rect, other: WindowId)
    requires
        other != id,
        0 <= geom.w <= 0x7fff_ffff * 256,
        0 <= geom.h <= 0x7fff_ffff * 256,
        geom.w % 256 == 0,
        geom.h % 256 == 0,
    ensures
        v.remembering(id, Some((WinState::Floating, geom))).returned(id).1 matches Some(p)
            && p.geom == geom && p.width * 256 == geom.w && p.height * 256 == geom.h,
        v.remembering(id, Some((WinState::Maximized, geom))) == v,
        v.remembering(id, Some((WinState::Fullscreen, geom))) == v,
        v.remembering(id, Some((WinState::Minimized, geom))) == v,
        v.remembering(id, None) == v,
        !v.restore.contains_key(id) ==> v.returned(id).1 is None,
        v.returned(id).0.restore.contains_key(other) == v.restore.contains_key(other),
        !v.returned(id).0.restore.contains_key(id),
{
}

/// A device that another client has grabbed is not taken from it; one that the same
/// chain of popups holds is.
pub proof fn law_grabs(d: GrabFacts)
    ensures
        !d.grabbed ==> !taken(d),
        d.by_serial || d.by_previous ==> !taken(d),
        d.grabbed && !d.by_serial && !d.by_previous ==> taken(d),
{
}

/// From the anchor on, the area begins where the work area does on the output: the place
/// of the window, its content's in it and the popups' above it make up the difference, on
/// both axes.
pub proof fn law_popup_area(work_area: Rect, window: Rect, content: PxPoint, ancestors: PxPoint)
    requires
        work_area.bounded(),
        window.bounded(),
        0 <= work_area.x < 0x7fff_ffff && 0 <= work_area.y < 0x7fff_ffff,
        0 <= window.x < 0x7fff_ffff && 0 <= window.y < 0x7fff_ffff,
        work_area.x % 256 == 0 && work_area.y % 256 == 0,
        window.x % 256 == 0 && window.y % 256 == 0,
    ensures
        ({
            let o = popup_origin(work_area, window, content, ancestors);
            &&& window.x + (content.x + ancestors.x + o.0) * 256 == work_area.x
            &&& window.y + (content.y + ancestors.y + o.1) * 256 == work_area.y
        }),
{
}

/// A menu gets the devices that nobody else holds; where one is held by another client
/// the grab ends, and with the keyboard the pointer is not taken either.
pub proof fn law_menu_grab(k: GrabFacts, p: GrabFacts)
    ensures
        !k.grabbed && !p.grabbed ==> granted(Some(k), Some(p)) == (PopupGrab {
            keyboard: true,
            pointer: true,
            ungrab: false,
        }),
        k.grabbed && !k.by_serial && !k.by_previous ==> granted(Some(k), Some(p)) == (PopupGrab {
            keyboard: false,
            pointer: false,
            ungrab: true,
        }),
        !k.grabbed && p.grabbed && !p.by_serial && !p.by_previous ==> granted(Some(k), Some(p)) == (
        PopupGrab { keyboard: true, pointer: false, ungrab: true }),
        granted(None, None) == (PopupGrab { keyboard: false, pointer: false, ungrab: false }),
        !p.grabbed ==> granted(None, Some(p)) == (PopupGrab {
            keyboard: false,
            pointer: true,
            ungrab: false,
        }),
{
}

/// Whoever asks for an image is given the image or nothing, and whoever asks for
/// anything else the text or nothing; what an X client owns comes from it alone.
pub proof fn law_selection_reply(kind: Seq<char>, x: bool, image: bool, text: bool)
    ensures
        image ==> selection_reply(SelectionOrigin::Native, "image/"@ + kind, x, image, text)
            == SelectionReply::Image,
        !image ==> selection_reply(SelectionOrigin::Native, "image/"@ + kind, x, image, text)
            == SelectionReply::Nothing,
        text ==> selection_reply(SelectionOrigin::Native, "text/"@ + kind, x, image, text)
            == SelectionReply::Text,
        !text ==> selection_reply(SelectionOrigin::Native, "text/"@ + kind, x, image, text)
            == SelectionReply::Nothing,
        x ==> selection_reply(SelectionOrigin::X11, kind, x, image, text) == SelectionReply::Stream,
        !x ==> selection_reply(SelectionOrigin::X11, kind, x, image, text)
            == SelectionReply::Nothing,
{
    reveal_strlit("image/");
    reveal_strlit("text/");
    law_prefix("image/"@, kind);
    lemma_no_prefix("text/"@ + kind, "image/"@, 0);
}

} // verus!
