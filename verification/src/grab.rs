//! Interactive window move and resize.
//!
//! A client asks the compositor to manage a drag; from then on pointer events go
//! to a grab instead of any surface, until the button that began it is released.
//! A grab turns pointer positions into window geometry, always against the
//! geometry at its start, so nothing drifts over many events.

use vstd::prelude::*;

use crate::animation::AnimEnd;
use crate::decoration::BAR_H;
use crate::wm::{coord, Rect, SnapZone, WindowId, COORD_LIMIT, PX};

verus! {

/// Minimum window width during interactive resize.
pub const MIN_RESIZE_W: i64 = 200 * PX;

/// Minimum window height during interactive resize.
pub const MIN_RESIZE_H: i64 = 120 * PX;

/// Whether a button event ends a grab: only the release of the button that
/// began it does. Other button events pass through.
pub fn ends_grab(start_button: u32, button: u32, released: bool) -> (r: bool)
    ensures
        r == (button == start_button && released),
{
    button == start_button && released
}

// ---------------------------------------------------------------------------
// Move
// ---------------------------------------------------------------------------

/// An interactive move.
#[derive(Debug, Clone, Copy, PartialEq, Eq, Structural)]
pub struct MoveGrab {
    /// Pointer position at the start.
    pub start_x: i64,
    pub start_y: i64,
    pub window: WindowId,
    /// Window geometry at the start; its size stays.
    pub initial: Rect,
}

/// A spring animation to run, and what follows it.
#[derive(Debug, Clone, Copy, PartialEq, Eq, Structural)]
pub struct Settle {
    pub window: WindowId,
    pub from: Rect,
    pub to: Rect,
    pub end: AnimEnd,
}

/// Less than half a pixel apart.
pub open spec fn near(a: i64, b: i64) -> bool {
    -PX / 2 < a - b < PX / 2
}

fn is_near(a: i64, b: i64) -> (r: bool)
    requires
        -4 * COORD_LIMIT <= a <= 4 * COORD_LIMIT,
        -4 * COORD_LIMIT <= b <= 4 * COORD_LIMIT,
    ensures
        r == near(a, b),
{
    -128 < a - b && a - b < 128
}

/// Where a window lands in a snap zone. A decorated one leaves room for its
/// title bar at the top, so that the bar, drawn above the content, stays on
/// screen; at least one pixel is left to the content.
pub open spec fn landing(zone_rect: Rect, decorated: bool) -> Rect {
    if decorated {
        Rect {
            x: zone_rect.x,
            y: (zone_rect.y + BAR_H) as i64,
            w: zone_rect.w,
            h: if zone_rect.h - BAR_H > PX {
                (zone_rect.h - BAR_H) as i64
            } else {
                PX
            },
        }
    } else {
        zone_rect
    }
}

fn land(zone_rect: Rect, decorated: bool) -> (r: Rect)
    requires
        zone_rect.bounded(),
    ensures
        r == landing(zone_rect, decorated),
{
    if decorated {
        let h: i64 = zone_rect.h - BAR_H;
        Rect::new(
            zone_rect.x,
            zone_rect.y + BAR_H,
            zone_rect.w,
            if h > PX {
                h
            } else {
                PX
            },
        )
    } else {
        zone_rect
    }
}

impl MoveGrab {
    pub fn new(start_x: i64, start_y: i64, window: WindowId, initial: Rect) -> (r: MoveGrab)
        ensures
            r == (MoveGrab { start_x, start_y, window, initial }),
    {
        MoveGrab { start_x, start_y, window, initial }
    }

    pub open spec fn bounded(self) -> bool {
        coord(self.start_x) && coord(self.start_y) && self.initial.bounded()
    }

    /// The window's rectangle with the pointer at `(px, py)`: moved by as much
    /// as the pointer moved, its size unchanged.
    pub open spec fn moved(self, px: int, py: int) -> Rect {
        Rect {
            x: (self.initial.x + px - self.start_x) as i64,
            y: (self.initial.y + py - self.start_y) as i64,
            w: self.initial.w,
            h: self.initial.h,
        }
    }

    /// Pointer motion.
    pub fn motion(&self, px: i64, py: i64) -> (r: Rect)
        requires
            self.bounded(),
            coord(px),
            coord(py),
        ensures
            r == self.moved(px as int, py as int),
    {
        Rect::new(
            self.initial.x + (px - self.start_x),
            self.initial.y + (py - self.start_y),
            self.initial.w,
            self.initial.h,
        )
    }

    /// What the release comes to, given the snap zone under the pointer, if any,
    /// with its rectangle; where the window is now, if it still exists; and
    /// whether it is decorated.
    pub open spec fn released(
        self,
        preview: Option<(SnapZone, Rect)>,
        current: Option<Rect>,
        decorated: bool,
    ) -> Option<Settle> {
        match (current, preview) {
            (None, _) => None,
            (Some(from), Some(p)) => Some(
                Settle {
                    window: self.window,
                    from,
                    to: landing(p.1, decorated),
                    end: AnimEnd::Snap(p.0),
                },
            ),
            // Off a zone the window stays where it is: nothing to animate.
            (Some(_), None) => None,
        }
    }

    /// The matching button release: in a snap zone the window springs to it, and
    /// is recorded as snapped once it settles; elsewhere it stays where it was
    /// dropped.
    pub fn button(
        &self,
        preview: Option<(SnapZone, Rect)>,
        current: Option<Rect>,
        decorated: bool,
    ) -> (r: Option<Settle>)
        requires
            preview matches Some(p) ==> p.1.bounded(),
            current matches Some(c) ==> c.bounded(),
        ensures
            r == self.released(preview, current, decorated),
    {
        let from: Rect = match current {
            Some(c) => c,
            None => {
                return None;
            },
        };
        let (to, zone): (Rect, Option<SnapZone>) = match preview {
            Some((zone, rect)) => (land(rect, decorated), Some(zone)),
            None => (from, None),
        };
        // A no-op animation would burn frames.
        if is_near(to.x, from.x) && is_near(to.y, from.y) && is_near(to.w, from.w) && is_near(
            to.h,
            from.h,
        ) && zone.is_none() {
            return None;
        }
        let end: AnimEnd = match zone {
            Some(z) => AnimEnd::Snap(z),
            None => AnimEnd::Nothing,
        };
        Some(Settle { window: self.window, from, to, end })
    }
}

// ---------------------------------------------------------------------------
// Resize
// ---------------------------------------------------------------------------

/// Which edges are pulled.
#[derive(Debug, Clone, Copy, PartialEq, Eq, Structural)]
pub enum ResizeEdge {
    /// None, or one this version does not know.
    Other,
    Top,
    Bottom,
    Left,
    Right,
    TopLeft,
    TopRight,
    BottomLeft,
    BottomRight,
}

impl ResizeEdge {
    pub open spec fn left(self) -> bool {
        self == ResizeEdge::Left || self == ResizeEdge::TopLeft || self == ResizeEdge::BottomLeft
    }

    /// A malformed request behaves as the bottom right corner.
    pub open spec fn right(self) -> bool {
        self == ResizeEdge::Right || self == ResizeEdge::TopRight || self == ResizeEdge::BottomRight
            || self == ResizeEdge::Other
    }

    pub open spec fn top(self) -> bool {
        self == ResizeEdge::Top || self == ResizeEdge::TopLeft || self == ResizeEdge::TopRight
    }

    /// A malformed request behaves as the bottom right corner.
    pub open spec fn bottom(self) -> bool {
        self == ResizeEdge::Bottom || self == ResizeEdge::BottomLeft || self
            == ResizeEdge::BottomRight || self == ResizeEdge::Other
    }

    fn sides(self) -> (r: (bool, bool, bool, bool))
        ensures
            r == (self.left(), self.right(), self.top(), self.bottom()),
    {
        match self {
            ResizeEdge::Top => (false, false, true, false),
            ResizeEdge::Bottom => (false, false, false, true),
            ResizeEdge::Left => (true, false, false, false),
            ResizeEdge::Right => (false, true, false, false),
            ResizeEdge::TopLeft => (true, false, true, false),
            ResizeEdge::TopRight => (false, true, true, false),
            ResizeEdge::BottomLeft => (true, false, false, true),
            ResizeEdge::BottomRight => (false, true, false, true),
            ResizeEdge::Other => (false, true, false, true),
        }
    }
}

/// An interactive resize. The side opposite to a pulled edge stays put, so the
/// window never drifts while one edge is dragged.
#[derive(Debug, Clone, Copy, PartialEq, Eq, Structural)]
pub struct ResizeGrab {
    /// Pointer position at the start.
    pub start_x: i64,
    pub start_y: i64,
    pub window: WindowId,
    pub initial_geom: Rect,
    pub edges: ResizeEdge,
}

pub open spec fn at_least(v: int, min: int) -> int {
    if v > min {
        v
    } else {
        min
    }
}

fn max(a: i64, b: i64) -> (r: i64)
    ensures
        r == at_least(a as int, b as int),
{
    if a > b {
        a
    } else {
        b
    }
}

impl ResizeGrab {
    pub fn new(
        start_x: i64,
        start_y: i64,
        window: WindowId,
        initial_geom: Rect,
        edges: ResizeEdge,
    ) -> (r: ResizeGrab)
        ensures
            r == (ResizeGrab { start_x, start_y, window, initial_geom, edges }),
    {
        ResizeGrab { start_x, start_y, window, initial_geom, edges }
    }

    pub open spec fn bounded(self) -> bool {
        coord(self.start_x) && coord(self.start_y) && self.initial_geom.bounded()
    }

    /// The new width: as much wider as the pulled edge moved out, within the
    /// minimum; unchanged where neither side edge is pulled.
    pub open spec fn new_w(self, px: int) -> int {
        let dx = px - self.start_x;
        if self.edges.left() {
            at_least(self.initial_geom.w - dx, MIN_RESIZE_W as int)
        } else if self.edges.right() {
            at_least(self.initial_geom.w + dx, MIN_RESIZE_W as int)
        } else {
            self.initial_geom.w as int
        }
    }

    pub open spec fn new_h(self, py: int) -> int {
        let dy = py - self.start_y;
        if self.edges.top() {
            at_least(self.initial_geom.h - dy, MIN_RESIZE_H as int)
        } else if self.edges.bottom() {
            at_least(self.initial_geom.h + dy, MIN_RESIZE_H as int)
        } else {
            self.initial_geom.h as int
        }
    }

    /// The new rectangle. Pulling the left or the top edge keeps the right or the
    /// bottom one where it was.
    pub open spec fn resized(self, px: int, py: int) -> Rect {
        let w = self.new_w(px);
        let h = self.new_h(py);
        Rect {
            x: if self.edges.left() {
                (self.initial_geom.x + self.initial_geom.w - w) as i64
            } else {
                self.initial_geom.x
            },
            y: if self.edges.top() {
                (self.initial_geom.y + self.initial_geom.h - h) as i64
            } else {
                self.initial_geom.y
            },
            w: w as i64,
            h: h as i64,
        }
    }

    /// Apply the current pointer position to the initial geometry, within the
    /// minimum window size.
    pub fn compute_new_geom(&self, px: i64, py: i64) -> (r: Rect)
        requires
            self.bounded(),
            coord(px),
            coord(py),
        ensures
            r == self.resized(px as int, py as int),
    {
        let dx: i64 = px - self.start_x;
        let dy: i64 = py - self.start_y;
        let mut r: Rect = self.initial_geom;
        let (left, right, top, bottom) = self.edges.sides();
        if left {
            r.x = self.initial_geom.x + dx;
            r.w = max(self.initial_geom.w - dx, MIN_RESIZE_W);
            // If clamping kicked in, put x back so the right edge stays put.
            if r.w == MIN_RESIZE_W {
                r.x = self.initial_geom.x + self.initial_geom.w - MIN_RESIZE_W;
            }
        }
        if right {
            r.w = max(self.initial_geom.w + dx, MIN_RESIZE_W);
        }
        if top {
            r.y = self.initial_geom.y + dy;
            r.h = max(self.initial_geom.h - dy, MIN_RESIZE_H);
            if r.h == MIN_RESIZE_H {
                r.y = self.initial_geom.y + self.initial_geom.h - MIN_RESIZE_H;
            }
        }
        if bottom {
            r.h = max(self.initial_geom.h + dy, MIN_RESIZE_H);
        }
        r
    }

    /// The size the client is told, in whole pixels.
    pub fn configure_size(&self, px: i64, py: i64) -> (r: (i32, i32))
        requires
            self.bounded(),
            coord(px),
            coord(py),
        ensures
            r.0 == whole_px(self.new_w(px as int)),
            r.1 == whole_px(self.new_h(py as int)),
    {
        let g: Rect = self.compute_new_geom(px, py);
        (to_whole_px(g.w), to_whole_px(g.h))
    }
}

/// A length in whole pixels, rounded toward zero, within what the protocol can
/// carry.
pub open spec fn whole_px(v: int) -> int {
    let q = if v >= 0 {
        v / PX as int
    } else {
        -((-v) / PX as int)
    };
    if q > i32::MAX {
        i32::MAX as int
    } else if q < i32::MIN {
        i32::MIN as int
    } else {
        q
    }
}

pub(crate) fn to_whole_px(v: i64) -> (r: i32)
    ensures
        r == whole_px(v as int),
{
    let q: i128 = if v >= 0 {
        v as i128 / 256
    } else {
        -((-(v as i128)) / 256)
    };
    if q > i32::MAX as i128 {
        i32::MAX
    } else if q < i32::MIN as i128 {
        i32::MIN
    } else {
        q as i32
    }
}

// ---------------------------------------------------------------------------
// Laws
// ---------------------------------------------------------------------------

/// However far the pointer goes, a resized window keeps the minimum size on the
/// pulled axes, the opposite edge of every pulled one stays put, and an axis that
/// is not pulled does not change.
pub proof fn law_resize_anchors(g: ResizeGrab, px: i64, py: i64)
    requires
        g.bounded(),
        coord(px),
        coord(py),
    ensures
        ({
            let r = g.resized(px as int, py as int);
            let i = g.initial_geom;
            &&& (g.edges.left() || g.edges.right()) ==> r.w >= MIN_RESIZE_W
            &&& (g.edges.top() || g.edges.bottom()) ==> r.h >= MIN_RESIZE_H
            &&& g.edges.left() ==> r.x + r.w == i.x + i.w
            &&& !g.edges.left() ==> r.x == i.x
            &&& g.edges.top() ==> r.y + r.h == i.y + i.h
            &&& !g.edges.top() ==> r.y == i.y
            &&& !g.edges.left() && !g.edges.right() ==> r.w == i.w
            &&& !g.edges.top() && !g.edges.bottom() ==> r.h == i.h
        }),
{
}

/// Moving keeps the size, and bringing the pointer back brings the window back.
pub proof fn law_move_keeps_size(g: MoveGrab, px: i64, py: i64)
    requires
        g.bounded(),
        coord(px),
        coord(py),
    ensures
        g.moved(px as int, py as int).w == g.initial.w,
        g.moved(px as int, py as int).h == g.initial.h,
        g.moved(g.start_x as int, g.start_y as int) == g.initial,
{
}

/// A decorated window dropped in a zone lies inside it together with its bar,
/// where the zone is taller than the bar by a pixel at least.
pub proof fn law_landing_leaves_bar(zone_rect: Rect)
    requires
        zone_rect.bounded(),
        zone_rect.h >= BAR_H + PX,
    ensures
        ({
            let r = landing(zone_rect, true);
            let bar = crate::decoration::bar_of(r);
            &&& bar.y == zone_rect.y
            &&& r.y + r.h == zone_rect.y + zone_rect.h
            &&& r.x == zone_rect.x && r.w == zone_rect.w
        }),
{
}

/// Pulling an edge outward grows the window by as much, and only along that edge's
/// axis; pushing it inward shrinks it down to 200 by 120 pixels and no further.
pub proof fn law_resize_follows_edge(g: ResizeGrab, px: int, py: int)
    requires
        g.initial_geom.w >= 200 * 256,
        g.initial_geom.h >= 120 * 256,
    ensures
        g.edges == ResizeEdge::Right && px >= g.start_x ==> g.new_w(px) == g.initial_geom.w + (px
            - g.start_x) && g.new_h(py) == g.initial_geom.h,
        g.edges == ResizeEdge::Left && px <= g.start_x ==> g.new_w(px) == g.initial_geom.w + (
        g.start_x - px) && g.new_h(py) == g.initial_geom.h,
        g.edges == ResizeEdge::Bottom && py >= g.start_y ==> g.new_h(py) == g.initial_geom.h + (py
            - g.start_y) && g.new_w(px) == g.initial_geom.w,
        g.edges == ResizeEdge::Top && py <= g.start_y ==> g.new_h(py) == g.initial_geom.h + (
        g.start_y - py) && g.new_w(px) == g.initial_geom.w,
        g.new_w(px) >= 200 * 256,
        g.new_h(py) >= 120 * 256,
        g.edges == ResizeEdge::Right && px < g.start_x - g.initial_geom.w ==> g.new_w(px) == 200
            * 256,
        g.edges == ResizeEdge::Bottom && py < g.start_y - g.initial_geom.h ==> g.new_h(py) == 120
            * 256,
        g.edges == ResizeEdge::BottomRight && px >= g.start_x && py >= g.start_y ==> g.new_w(px)
            == g.initial_geom.w + (px - g.start_x) && g.new_h(py) == g.initial_geom.h + (py
            - g.start_y),
        g.edges == ResizeEdge::TopLeft && px <= g.start_x && py <= g.start_y ==> g.new_w(px)
            == g.initial_geom.w + (g.start_x - px) && g.new_h(py) == g.initial_geom.h + (g.start_y
            - py),
        g.edges == ResizeEdge::TopRight && px >= g.start_x && py <= g.start_y ==> g.new_w(px)
            == g.initial_geom.w + (px - g.start_x) && g.new_h(py) == g.initial_geom.h + (g.start_y
            - py),
        g.edges == ResizeEdge::BottomLeft && px <= g.start_x && py >= g.start_y ==> g.new_w(px)
            == g.initial_geom.w + (g.start_x - px) && g.new_h(py) == g.initial_geom.h + (py
            - g.start_y),
        g.edges == ResizeEdge::Other && px >= g.start_x && py >= g.start_y ==> g.new_w(px)
            == g.initial_geom.w + (px - g.start_x) && g.new_h(py) == g.initial_geom.h + (py
            - g.start_y),
{
}

/// While an edge is pulled, the opposite one stays where it was: the corner that is not
/// touched does not move.
pub proof fn law_resize_corner_stays(g: ResizeGrab, px: int, py: int)
    requires
        g.bounded(),
        -COORD_LIMIT <= px <= COORD_LIMIT,
        -COORD_LIMIT <= py <= COORD_LIMIT,
    ensures
        g.edges == ResizeEdge::Right || g.edges == ResizeEdge::Bottom || g.edges
            == ResizeEdge::BottomRight ==> g.resized(px, py).x == g.initial_geom.x && g.resized(
            px,
            py,
        ).y == g.initial_geom.y,
        g.edges == ResizeEdge::Left || g.edges == ResizeEdge::TopLeft || g.edges
            == ResizeEdge::BottomLeft ==> g.resized(px, py).x + g.resized(px, py).w
            == g.initial_geom.x + g.initial_geom.w,
        g.edges == ResizeEdge::Top || g.edges == ResizeEdge::TopLeft || g.edges
            == ResizeEdge::TopRight ==> g.resized(px, py).y + g.resized(px, py).h
            == g.initial_geom.y + g.initial_geom.h,
        g.edges == ResizeEdge::TopRight ==> g.resized(px, py).x == g.initial_geom.x,
        g.edges == ResizeEdge::BottomLeft ==> g.resized(px, py).y == g.initial_geom.y,
{
}

/// A dragged window goes where the pointer goes: by as much, in the same direction,
/// on both axes.
pub proof fn law_move_follows_pointer(g: MoveGrab, px: int, py: int, dx: int, dy: int)
    requires
        g.bounded(),
        -COORD_LIMIT <= px <= COORD_LIMIT,
        -COORD_LIMIT <= py <= COORD_LIMIT,
        -COORD_LIMIT <= px + dx <= COORD_LIMIT,
        -COORD_LIMIT <= py + dy <= COORD_LIMIT,
    ensures
        g.moved(px + dx, py + dy).x == g.moved(px, py).x + dx,
        g.moved(px + dx, py + dy).y == g.moved(px, py).y + dy,
        g.moved(g.start_x as int, g.start_y as int) == g.initial,
{
}

/// A window dropped in a zone settles there, is recorded under that zone, and starts
/// from where it is; off a zone, or once it is gone, nothing is animated.
pub proof fn law_drop(g: MoveGrab, zone: SnapZone, area: Rect, from: Rect, decorated: bool)
    requires
        area.bounded(),
        area.h >= 40 * 256,
    ensures
        g.released(Some((zone, area)), Some(from), decorated) matches Some(s) && {
            &&& s.window == g.window
            &&& s.from == from
            &&& s.end == AnimEnd::Snap(zone)
            &&& s.to.x == area.x
            &&& s.to.w == area.w
            &&& s.to.y + s.to.h == area.y + area.h
            &&& s.to.y == area.y + (if decorated {
                32 * 256int
            } else {
                0
            })
        },
        g.released(None, Some(from), decorated) is None,
        g.released(Some((zone, area)), None, decorated) is None,
{
}

/// A length in whole pixels of 256 units is rounded toward zero, alike on both sides of
/// it.
pub proof fn law_whole_pixels(v: int)
    requires
        0 <= v < 0x7fff_ffff * 256,
    ensures
        whole_px(v) * 256 <= v < whole_px(v) * 256 + 256,
        whole_px(-v) == -whole_px(v),
{
}

/// Two lengths count as the same where they are less than half a pixel apart.
pub proof fn law_near(a: i64, b: i64)
    ensures
        near(a, b) <==> (a - b < 128 && b - a < 128),
        near(a, a),
        near(a, b) == near(b, a),
{
}

} // verus!
