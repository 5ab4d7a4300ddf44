//! Screenshots: what is captured.

use vstd::prelude::*;

use crate::wm::{coord, OutputId, Rect, WindowId, PX};

verus! {

/// A capture that is due.
#[derive(Debug, Clone, Copy, PartialEq, Eq, Structural)]
pub struct ScreenshotReq {
    pub output: OutputId,
    /// A part of the output; the whole of it without one.
    pub region: Option<Rect>,
    /// One window alone, whatever lies over it. It comes before `region`.
    pub window: Option<WindowId>,
}

/// The dialog that asks for the scope of a screenshot and for a delay. Its labels
/// are drawn by the renderer.
#[derive(Debug, Clone, PartialEq, Eq)]
pub struct ShotDialog {
    pub output: OutputId,
    pub panel: Rect,
    pub mode_whole: Rect,
    pub mode_window: Rect,
    /// The delays to choose from, each with its seconds.
    pub delays: Vec<(Rect, u64)>,
    pub capture: Rect,
    pub cancel: Rect,
    /// Whether only the active window is captured.
    pub sel_window: bool,
    /// The chosen delay in seconds; 0 captures at once.
    pub sel_delay: u64,
}

/// A region that is being chosen: where the press was, and where the pointer is.
#[derive(Debug, Clone, Copy, PartialEq, Eq)]
pub struct RegionShot {
    pub output: OutputId,
    pub anchor: Option<(i64, i64)>,
    pub cur: (i64, i64),
}

/// One side of the region, from the smaller end, at least a pixel long.
pub open spec fn side(a: int, b: int) -> (int, int) {
    let lo = if a < b {
        a
    } else {
        b
    };
    let len = if a < b {
        b - a
    } else {
        a - b
    };
    (
        lo,
        if len < PX {
            PX as int
        } else {
            len
        },
    )
}

fn side_of(a: i64, b: i64) -> (r: (i64, i64))
    requires
        coord(a),
        coord(b),
    ensures
        (r.0 as int, r.1 as int) == side(a as int, b as int),
{
    let (lo, len): (i64, i64) = if a < b {
        (a, b - a)
    } else {
        (b, a - b)
    };
    (
        lo,
        if len < PX {
            PX
        } else {
            len
        },
    )
}

impl RegionShot {
    /// The chosen rectangle, whichever way it was dragged; none before the first
    /// press. A press that was not dragged still gives a pixel.
    pub fn rect(&self) -> (r: Option<Rect>)
        requires
            self.anchor matches Some(a) ==> coord(a.0) && coord(a.1),
            coord(self.cur.0),
            coord(self.cur.1),
        ensures
            match r {
                Some(t) => self.anchor is Some && (t.x as int, t.w as int) == side(
                    (self.anchor->0).0 as int,
                    self.cur.0 as int,
                ) && (t.y as int, t.h as int) == side(
                    (self.anchor->0).1 as int,
                    self.cur.1 as int,
                ),
                None => self.anchor is None,
            },
    {
        match self.anchor {
            None => None,
            Some((ax, ay)) => {
                let (x, w): (i64, i64) = side_of(ax, self.cur.0);
                let (y, h): (i64, i64) = side_of(ay, self.cur.1);
                Some(Rect { x, y, w, h })
            },
        }
    }
}

/// A region is the same from either of its corners.
pub proof fn law_region_either_way(a: int, b: int)
    ensures
        side(a, b) == side(b, a),
        side(a, b).1 >= PX,
{
}

/// A region spans from one corner to the other: it begins at the smaller end and is as
/// long as they are apart, but never shorter than a pixel of 256 units.
pub proof fn law_region_spans(a: int, b: int)
    requires
        a <= b,
    ensures
        side(a, b).0 == a,
        b - a >= 256 ==> side(a, b).0 + side(a, b).1 == b,
        b - a <= 256 ==> side(a, b).1 == 256,
        side(b, a) == side(a, b),
{
}

} // verus!
