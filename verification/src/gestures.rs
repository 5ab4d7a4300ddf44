//! Touch gesture recognition for text/image selection and window moves.
//!
//! [`SelectionRecognizer`] is the **single-finger** selection recogniser —
//! distinct from the multi-finger [`TouchAggregator`](crate::input::TouchAggregator).
//! It turns `down` / `motion` / `up` (plus a per-frame
//! [`tick`](SelectionRecognizer::tick)) into high-level [`SelectionGesture`]s:
//!
//! * **Long-press** — finger held still past [`LONG_PRESS_MS`]. Emitted from
//!   `tick` *while the finger is still down*, exactly once per sequence.
//! * **Tap / double-tap / triple-tap** — quick stationary touches; the multi-tap
//!   count grows while successive taps land close together within
//!   [`MULTI_TAP_MS`].
//!
//! A sequence that moves past [`SLOP`] is a drag, not a tap, and emits nothing
//! here. [`TwoFingerRecognizer`] recognises two-finger window gestures.

use vstd::prelude::*;

use crate::keyboard::floor_div;
use crate::wm::{coord, COORD_LIMIT, PX};

verus! {

/// Movement past this distance turns a touch into a drag (cancels the pending
/// tap/long-press). Fingers are imprecise, so this is looser than what the
/// multi-finger aggregator uses.
pub const SLOP: i64 = 14 * PX;

/// Hold duration before a stationary finger becomes a long-press.
pub const LONG_PRESS_MS: u64 = 500;

/// Maximum gap between taps for them to count as a multi-tap.
pub const MULTI_TAP_MS: u64 = 320;

/// A follow-up tap further than this from the previous one starts a fresh count
/// rather than extending the multi-tap.
pub const MULTI_TAP_SLOP: i64 = 36 * PX;

/// A recognised single-finger selection gesture, carrying the touch point.
#[derive(Debug, Clone, Copy, PartialEq, Eq, Structural)]
pub enum SelectionGesture {
    /// One quick stationary touch.
    Tap { x: i64, y: i64 },
    /// Two quick stationary touches close together → select word.
    DoubleTap { x: i64, y: i64 },
    /// Three (or more) → select paragraph / line.
    TripleTap { x: i64, y: i64 },
    /// Finger held still past [`LONG_PRESS_MS`] → open the selection menu.
    LongPress { x: i64, y: i64 },
}

#[derive(Debug, Clone, Copy, PartialEq, Eq, Structural)]
pub struct Touch {
    pub start_x: i64,
    pub start_y: i64,
    pub start_ms: u64,
}

/// Stateful single-finger selection recogniser. See the module docs.
#[derive(Debug)]
pub struct SelectionRecognizer {
    /// The live touch, if a finger is down.
    touch: Option<Touch>,
    /// Set once the live touch travels past [`SLOP`] — it's a drag now.
    dragged: bool,
    /// Set once `tick` has emitted the long-press for this sequence, so it
    /// fires at most once and the matching `up` stays silent.
    long_pressed: bool,
    /// Last completed tap `(x, y, ms)`, for multi-tap chaining.
    last_tap: Option<(i64, i64, u64)>,
    /// Current multi-tap run length (1 = single, 2 = double, ≥3 = triple).
    tap_count: u8,
}

pub struct SelectionView {
    pub touch: Option<Touch>,
    pub dragged: bool,
    pub long_pressed: bool,
    pub last_tap: Option<(i64, i64, u64)>,
    pub tap_count: int,
}

impl View for SelectionRecognizer {
    type V = SelectionView;

    closed spec fn view(&self) -> SelectionView {
        SelectionView {
            touch: self.touch,
            dragged: self.dragged,
            long_pressed: self.long_pressed,
            last_tap: self.last_tap,
            tap_count: self.tap_count as int,
        }
    }
}

/// Whether two points are further apart than `d`.
pub open spec fn apart(ax: int, ay: int, bx: int, by: int, d: int) -> bool {
    (ax - bx) * (ax - bx) + (ay - by) * (ay - by) > d * d
}

/// Milliseconds from one time to another; none where it is earlier.
pub open spec fn elapsed(from: u64, to: u64) -> int {
    if to >= from {
        to - from
    } else {
        0
    }
}

fn is_apart(ax: i64, ay: i64, bx: i64, by: i64, d: i64) -> (r: bool)
    requires
        -4 * COORD_LIMIT <= ax <= 4 * COORD_LIMIT,
        -4 * COORD_LIMIT <= ay <= 4 * COORD_LIMIT,
        -4 * COORD_LIMIT <= bx <= 4 * COORD_LIMIT,
        -4 * COORD_LIMIT <= by <= 4 * COORD_LIMIT,
        0 <= d <= COORD_LIMIT,
    ensures
        r == apart(ax as int, ay as int, bx as int, by as int, d as int),
{
    let dx: i128 = ax as i128 - bx as i128;
    let dy: i128 = ay as i128 - by as i128;
    assert(0 <= dx * dx <= 0x4000_0000_0000_0000_0000_0000) by (nonlinear_arith)
        requires
            -0x1000_0000_0000 <= dx <= 0x1000_0000_0000,
    ;
    assert(0 <= dy * dy <= 0x4000_0000_0000_0000_0000_0000) by (nonlinear_arith)
        requires
            -0x1000_0000_0000 <= dy <= 0x1000_0000_0000,
    ;
    assert(0 <= d * d <= 0x4000_0000_0000_0000_0000_0000) by (nonlinear_arith)
        requires
            0 <= d <= 0x100_0000_0000,
    ;
    dx * dx + dy * dy > d as i128 * d as i128
}

/// No touch and no tap yet.
pub open spec fn fresh() -> SelectionView {
    SelectionView { touch: None, dragged: false, long_pressed: false, last_tap: None, tap_count: 0 }
}

impl SelectionView {
    pub open spec fn wf(self) -> bool {
        &&& self.touch matches Some(t) ==> coord(t.start_x) && coord(t.start_y)
        &&& self.last_tap matches Some((x, y, ms)) ==> coord(x) && coord(y)
    }

    /// Whether a tap at a point extends the run of taps.
    pub open spec fn chains(self, x: i64, y: i64, now_ms: u64) -> bool {
        match self.last_tap {
            Some((lx, ly, lt)) => elapsed(lt, now_ms) <= MULTI_TAP_MS && !apart(
                lx as int,
                ly as int,
                x as int,
                y as int,
                MULTI_TAP_SLOP as int,
            ),
            None => false,
        }
    }

    /// Whether the live touch is long enough and still enough for a long-press
    /// that has not been told yet.
    pub open spec fn long_press_due(self, now_ms: u64) -> bool {
        self.touch is Some && !self.dragged && !self.long_pressed && elapsed(
            self.touch->0.start_ms,
            now_ms,
        ) >= LONG_PRESS_MS
    }

    /// The recogniser once a finger landed.
    pub open spec fn landed(self, x: i64, y: i64, now_ms: u64) -> SelectionView {
        SelectionView {
            touch: Some(Touch { start_x: x, start_y: y, start_ms: now_ms }),
            dragged: false,
            long_pressed: false,
            ..self
        }
    }

    /// The recogniser once the finger moved to a point.
    pub open spec fn moved(self, x: i64, y: i64) -> SelectionView {
        SelectionView {
            dragged: self.dragged || (self.touch matches Some(t) && apart(
                t.start_x as int,
                t.start_y as int,
                x as int,
                y as int,
                SLOP as int,
            )),
            ..self
        }
    }

    /// The recogniser once it was polled.
    pub open spec fn ticked(self, now_ms: u64) -> SelectionView {
        SelectionView {
            long_pressed: self.long_pressed || self.long_press_due(now_ms),
            ..self
        }
    }

    /// The length of the run of taps once the live touch ends as a tap. A run that
    /// is as long as can be counted stays so.
    pub open spec fn run_after(self, now_ms: u64) -> int {
        let t = self.touch->0;
        if self.chains(t.start_x, t.start_y, now_ms) {
            if self.tap_count < u8::MAX {
                self.tap_count + 1
            } else {
                self.tap_count
            }
        } else {
            1
        }
    }

    /// The recogniser once the finger lifted.
    pub open spec fn lifted(self, now_ms: u64) -> SelectionView {
        match self.touch {
            None => self,
            Some(t) => if self.long_pressed || self.dragged {
                SelectionView { touch: None, last_tap: None, tap_count: 0, ..self }
            } else {
                SelectionView {
                    touch: None,
                    tap_count: self.run_after(now_ms),
                    last_tap: Some((t.start_x, t.start_y, now_ms)),
                    ..self
                }
            },
        }
    }

    /// What the lift means.
    pub open spec fn lift_gesture(self, now_ms: u64) -> Option<SelectionGesture> {
        match self.touch {
            None => None,
            Some(t) => if self.long_pressed || self.dragged {
                None
            } else if self.run_after(now_ms) == 1 {
                Some(SelectionGesture::Tap { x: t.start_x, y: t.start_y })
            } else if self.run_after(now_ms) == 2 {
                Some(SelectionGesture::DoubleTap { x: t.start_x, y: t.start_y })
            } else {
                Some(SelectionGesture::TripleTap { x: t.start_x, y: t.start_y })
            },
        }
    }
}

impl SelectionRecognizer {
    pub fn new() -> (r: SelectionRecognizer)
        ensures
            r@ == fresh(),
            r@.wf(),
    {
        SelectionRecognizer {
            touch: None,
            dragged: false,
            long_pressed: false,
            last_tap: None,
            tap_count: 0,
        }
    }

    /// A finger landed. Begins a fresh sequence.
    pub fn down(&mut self, x: i64, y: i64, now_ms: u64)
        requires
            old(self)@.wf(),
            coord(x),
            coord(y),
        ensures
            final(self)@.wf(),
            final(self)@ == old(self)@.landed(x, y, now_ms),
    {
        self.touch = Some(Touch { start_x: x, start_y: y, start_ms: now_ms });
        self.dragged = false;
        self.long_pressed = false;
    }

    /// The live finger moved. Crossing [`SLOP`] promotes the sequence to a drag,
    /// which suppresses both the long-press and the tap.
    pub fn motion(&mut self, x: i64, y: i64)
        requires
            old(self)@.wf(),
            coord(x),
            coord(y),
        ensures
            final(self)@.wf(),
            final(self)@ == old(self)@.moved(x, y),
    {
        if let Some(t) = self.touch {
            if is_apart(t.start_x, t.start_y, x, y, SLOP) {
                self.dragged = true;
            }
        }
    }

    /// Per-frame poll. Returns [`SelectionGesture::LongPress`] the first time a
    /// still-held, un-dragged finger crosses [`LONG_PRESS_MS`]; `None`
    /// otherwise.
    pub fn tick(&mut self, now_ms: u64) -> (r: Option<SelectionGesture>)
        requires
            old(self)@.wf(),
        ensures
            final(self)@.wf(),
            r == (if old(self)@.long_press_due(now_ms) {
                Some(
                    SelectionGesture::LongPress {
                        x: old(self)@.touch->0.start_x,
                        y: old(self)@.touch->0.start_y,
                    },
                )
            } else {
                None
            }),
            final(self)@ == old(self)@.ticked(now_ms),
    {
        if let Some(t) = self.touch {
            if self.dragged || self.long_pressed {
                return None;
            }
            if now_ms.saturating_sub(t.start_ms) >= LONG_PRESS_MS {
                self.long_pressed = true;
                return Some(SelectionGesture::LongPress { x: t.start_x, y: t.start_y });
            }
        }
        None
    }

    /// The finger lifted. Emits a tap (or double/triple) for a quick stationary
    /// touch; nothing for a drag or an already-fired long-press. The tap point
    /// is the touch's *start*.
    pub fn up(&mut self, now_ms: u64) -> (r: Option<SelectionGesture>)
        requires
            old(self)@.wf(),
        ensures
            final(self)@.wf(),
            final(self)@ == old(self)@.lifted(now_ms),
            r == old(self)@.lift_gesture(now_ms),
    {
        let t: Touch = match self.touch.take() {
            Some(t) => t,
            None => {
                return None;
            },
        };
        if self.long_pressed || self.dragged {
            // A long-press already spoke, or it was a drag — not a tap. Reset
            // the multi-tap chain so a later tap starts clean.
            self.last_tap = None;
            self.tap_count = 0;
            return None;
        }
        let (x, y) = (t.start_x, t.start_y);
        let chained: bool = match self.last_tap {
            Some((lx, ly, lt)) => now_ms.saturating_sub(lt) <= MULTI_TAP_MS && !is_apart(
                lx,
                ly,
                x,
                y,
                MULTI_TAP_SLOP,
            ),
            None => false,
        };
        self.tap_count = if !chained {
            1
        } else if self.tap_count < u8::MAX {
            self.tap_count + 1
        } else {
            self.tap_count
        };
        self.last_tap = Some((x, y, now_ms));
        if self.tap_count == 1 {
            Some(SelectionGesture::Tap { x, y })
        } else if self.tap_count == 2 {
            Some(SelectionGesture::DoubleTap { x, y })
        } else {
            Some(SelectionGesture::TripleTap { x, y })
        }
    }

    /// Abort the live sequence without emitting (touch cancel, focus loss).
    /// Leaves the multi-tap chain intact — a cancel isn't a tap, but it also
    /// shouldn't reset a legitimate in-progress double-tap timing window.
    pub fn cancel(&mut self)
        requires
            old(self)@.wf(),
        ensures
            final(self)@.wf(),
            final(self)@ == (SelectionView {
                touch: None,
                dragged: false,
                long_pressed: false,
                ..old(self)@
            }),
    {
        self.touch = None;
        self.dragged = false;
        self.long_pressed = false;
    }
}

impl Default for SelectionRecognizer {
    fn default() -> (r: SelectionRecognizer)
        ensures
            r@ == fresh(),
            r@.wf(),
    {
        SelectionRecognizer::new()
    }
}

/// A long-press speaks once: afterwards neither a tick nor the release of the
/// same touch says anything.
pub proof fn law_long_press_once(s: SelectionView, t: u64, u: u64, v: u64)
    requires
        s.long_press_due(t),
    ensures
        !s.ticked(t).long_press_due(u),
        s.ticked(t).lift_gesture(v) is None,
{
}

/// A drag never becomes a long-press or a tap.
pub proof fn law_drag_is_silent(s: SelectionView, t: u64, u: u64)
    requires
        s.dragged,
    ensures
        !s.long_press_due(t),
        s.lift_gesture(u) is None,
{
}

/// A finger that stays within 14 pixels of where it landed is a tap there, or a
/// long press once 500 ms have passed; one that goes further on either axis is
/// neither. It is the place where the finger landed that counts.
pub proof fn law_still_finger(s: SelectionView, x: i64, y: i64, t: u64, to: (i64, i64), u: u64)
    requires
        t <= u,
    ensures
        ({
            let held = s.landed(x, y, t).moved(to.0, to.1);
            let (dx, dy) = (to.0 - x, to.1 - y);
            &&& dx * dx + dy * dy <= (14 * 256) * (14 * 256) ==> {
                &&& held.long_press_due(u) == (u - t >= 500)
                &&& match held.lift_gesture(u) {
                    Some(SelectionGesture::Tap { x: tx, y: ty }) => tx == x && ty == y,
                    Some(SelectionGesture::DoubleTap { x: tx, y: ty }) => tx == x && ty == y,
                    Some(SelectionGesture::TripleTap { x: tx, y: ty }) => tx == x && ty == y,
                    _ => false,
                }
            }
            &&& (dx > 14 * 256 || dx < -14 * 256 || dy > 14 * 256 || dy < -14 * 256) ==> {
                &&& !held.long_press_due(u)
                &&& held.lift_gesture(u) is None
            }
        }),
{
    let (dx, dy) = (to.0 - x, to.1 - y);
    assert((x - to.0) * (x - to.0) == dx * dx) by (nonlinear_arith)
        requires
            dx == to.0 - x,
    ;
    assert((y - to.1) * (y - to.1) == dy * dy) by (nonlinear_arith)
        requires
            dy == to.1 - y,
    ;
    lemma_far(dx, dy, 14 * 256int);
}

proof fn lemma_far(dx: int, dy: int, d: int)
    requires
        d >= 0,
    ensures
        dx > d || dx < -d || dy > d || dy < -d ==> dx * dx + dy * dy > d * d,
{
    assert(dx > d || dx < -d ==> dx * dx > d * d) by (nonlinear_arith)
        requires
            d >= 0,
    ;
    assert(dy > d || dy < -d ==> dy * dy > d * d) by (nonlinear_arith)
        requires
            d >= 0,
    ;
    assert(dx * dx >= 0 && dy * dy >= 0) by (nonlinear_arith);
}

/// A tap within 320 ms of the one before, and within 36 pixels of it, is a double
/// tap; one later, or further away on either axis, is a single tap again.
pub proof fn law_double_tap_needs_both(
    x: i64,
    y: i64,
    t: u64,
    to: (i64, i64),
    u: u64,
)
    requires
        t <= u,
    ensures
        ({
            let next = fresh().landed(x, y, t).lifted(t).landed(to.0, to.1, u);
            let (dx, dy) = (to.0 - x, to.1 - y);
            &&& u - t <= 320 && dx * dx + dy * dy <= (36 * 256) * (36 * 256) ==> next.lift_gesture(u)
                == Some(SelectionGesture::DoubleTap { x: to.0, y: to.1 })
            &&& (u - t > 320 || dx > 36 * 256 || dx < -36 * 256 || dy > 36 * 256 || dy < -36 * 256)
                ==> next.lift_gesture(u) == Some(SelectionGesture::Tap { x: to.0, y: to.1 })
        }),
{
    let (dx, dy) = (to.0 - x, to.1 - y);
    assert((x - to.0) * (x - to.0) == dx * dx) by (nonlinear_arith)
        requires
            dx == to.0 - x,
    ;
    assert((y - to.1) * (y - to.1) == dy * dy) by (nonlinear_arith)
        requires
            dy == to.1 - y,
    ;
    lemma_far(dx, dy, 36 * 256int);
}

/// The recogniser once the point was tapped at each of these times.
pub open spec fn tap_run(x: i64, y: i64, times: Seq<u64>) -> SelectionView
    decreases times.len(),
{
    if times.len() == 0 {
        fresh()
    } else {
        tap_run(x, y, times.drop_last()).landed(x, y, times.last()).lifted(times.last())
    }
}

/// Taps in one place that follow each other quickly are counted: the second is a
/// double-tap, the third and every further one a triple-tap.
pub proof fn law_quick_taps_count(x: i64, y: i64, times: Seq<u64>)
    requires
        times.len() > 0,
        forall|i: int|
            0 <= i < times.len() - 1 ==> elapsed(#[trigger] times[i], times[i + 1]) <= MULTI_TAP_MS,
    ensures
        tap_run(x, y, times).tap_count == (if times.len() < u8::MAX {
            times.len() as int
        } else {
            u8::MAX as int
        }),
        tap_run(x, y, times).last_tap == Some((x, y, times.last())),
        tap_run(x, y, times.drop_last()).landed(x, y, times.last()).lift_gesture(times.last())
            == Some(
            if times.len() == 1 {
                SelectionGesture::Tap { x, y }
            } else if times.len() == 2 {
                SelectionGesture::DoubleTap { x, y }
            } else {
                SelectionGesture::TripleTap { x, y }
            },
        ),
    decreases times.len(),
{
    let before = times.drop_last();
    if before.len() > 0 {
        assert forall|i: int| 0 <= i < before.len() - 1 implies elapsed(
            #[trigger] before[i],
            before[i + 1],
        ) <= MULTI_TAP_MS by {
            assert(before[i] == times[i]);
        }
        law_quick_taps_count(x, y, before);
        assert(before.last() == times[times.len() - 2]);
        assert(elapsed(times[times.len() - 2], times[times.len() - 2 + 1]) <= MULTI_TAP_MS);
    }
}

/// A tap that comes late, or far from the one before, is a first tap again.
pub proof fn law_late_tap_starts_anew(s: SelectionView, x: i64, y: i64, t: u64, u: u64)
    requires
        s.last_tap matches Some((lx, ly, lt)) ==> elapsed(lt, u) > MULTI_TAP_MS || apart(
            lx as int,
            ly as int,
            x as int,
            y as int,
            MULTI_TAP_SLOP as int,
        ),
    ensures
        s.landed(x, y, t).lift_gesture(u) == Some(SelectionGesture::Tap { x, y }),
        s.landed(x, y, t).lifted(u).tap_count == 1,
{
}

// ---------------------------------------------------------------------------
// Two-finger window gesture recogniser
// ---------------------------------------------------------------------------

/// Centroid travel that promotes a two-finger touch from a tap to a window move.
pub const TWO_FINGER_SLOP: i64 = 12 * PX;

/// Longest a two-finger touch can last and still count as a tap, not a drag.
pub const TWO_FINGER_TAP_MS: u64 = 280;

/// Longest gap between two two-finger taps to chain them into a double-tap.
pub const TWO_FINGER_DOUBLE_MS: u64 = 340;

/// What a two-finger sequence produced this event.
#[derive(Debug, Clone, Copy, PartialEq, Eq, Structural)]
pub enum TwoFingerOut {
    /// Move the target window to its drag-start geometry **plus** this delta
    /// (the centroid's displacement since both fingers first landed).
    MoveTo { dx: i64, dy: i64 },
    /// A two-finger double-tap completed — toggle fullscreen / restore.
    DoubleTap,
}

/// Recognises two-finger window gestures: drag the two-finger centroid to move
/// a window, double-tap with two fingers to toggle fullscreen.
#[derive(Debug)]
pub struct TwoFingerRecognizer {
    /// Active fingers as `(slot, x, y)` in landing order.
    fingers: Vec<(i32, i64, i64)>,
    /// Twice the centroid when both fingers first landed — the move origin.
    start_sum: Option<(i64, i64)>,
    /// When the two-finger phase began (for tap-duration timing).
    down_ms: u64,
    /// Set once the centroid passes [`TWO_FINGER_SLOP`] — it's a move now.
    moved: bool,
    /// A third finger landed: this is a workspace/overview gesture, not ours.
    cancelled: bool,
    /// Time of the last completed two-finger tap, for double-tap chaining.
    last_tap_ms: Option<u64>,
}

pub struct TwoFingerView {
    pub fingers: Seq<(i32, i64, i64)>,
    pub start_sum: Option<(i64, i64)>,
    pub down_ms: u64,
    pub moved: bool,
    pub cancelled: bool,
    pub last_tap_ms: Option<u64>,
}

impl View for TwoFingerRecognizer {
    type V = TwoFingerView;

    closed spec fn view(&self) -> TwoFingerView {
        TwoFingerView {
            fingers: self.fingers@,
            start_sum: self.start_sum,
            down_ms: self.down_ms,
            moved: self.moved,
            cancelled: self.cancelled,
            last_tap_ms: self.last_tap_ms,
        }
    }
}

/// The position of a slot from index `i` on; the length where it is not there.
pub open spec fn slot_at(f: Seq<(i32, i64, i64)>, slot: i32, i: int) -> int
    decreases f.len() - i,
{
    if i < 0 || i >= f.len() {
        f.len() as int
    } else if f[i].0 == slot {
        i
    } else {
        slot_at(f, slot, i + 1)
    }
}

/// The fingers of other slots, in order.
pub open spec fn other_slots(f: Seq<(i32, i64, i64)>, slot: i32) -> Seq<(i32, i64, i64)>
    decreases f.len(),
{
    if f.len() == 0 {
        seq![]
    } else if f.last().0 == slot {
        other_slots(f.drop_last(), slot)
    } else {
        other_slots(f.drop_last(), slot).push(f.last())
    }
}

/// No finger and no tap yet.
pub open spec fn no_fingers() -> TwoFingerView {
    TwoFingerView {
        fingers: seq![],
        start_sum: None,
        down_ms: 0,
        moved: false,
        cancelled: false,
        last_tap_ms: None,
    }
}

impl TwoFingerView {
    pub open spec fn wf(self) -> bool {
        &&& forall|i: int|
            0 <= i < self.fingers.len() ==> coord((#[trigger] self.fingers[i]).1) && coord(
                self.fingers[i].2,
            )
        &&& self.start_sum matches Some((x, y)) ==> -2 * COORD_LIMIT <= x <= 2 * COORD_LIMIT && -2
            * COORD_LIMIT <= y <= 2 * COORD_LIMIT
    }

    /// Twice the point between the two fingers.
    pub open spec fn sum(self) -> (int, int) {
        (self.fingers[0].1 + self.fingers[1].1, self.fingers[0].2 + self.fingers[1].2)
    }

    /// The fingers with one at a new place.
    pub open spec fn placed(self, slot: i32, x: i64, y: i64) -> Seq<(i32, i64, i64)> {
        let i = slot_at(self.fingers, slot, 0);
        if i < self.fingers.len() {
            self.fingers.update(i, (slot, x, y))
        } else {
            self.fingers
        }
    }

    /// The recogniser once a finger landed. The two-finger phase starts with the
    /// second finger; a third cancels it.
    pub open spec fn landed(self, slot: i32, x: i64, y: i64, now_ms: u64) -> TwoFingerView {
        let fingers = if slot_at(self.fingers, slot, 0) < self.fingers.len() {
            self.placed(slot, x, y)
        } else {
            self.fingers.push((slot, x, y))
        };
        let now = TwoFingerView { fingers, ..self };
        if fingers.len() == 2 {
            TwoFingerView {
                start_sum: Some((now.sum().0 as i64, now.sum().1 as i64)),
                down_ms: now_ms,
                moved: false,
                cancelled: false,
                ..now
            }
        } else if fingers.len() > 2 {
            TwoFingerView { cancelled: true, ..now }
        } else {
            now
        }
    }

    /// Whether two fingers are down that drag together.
    pub open spec fn tracking(self) -> bool {
        !self.cancelled && self.fingers.len() == 2 && self.start_sum is Some
    }

    /// Twice the centroid's displacement.
    pub open spec fn travel(self) -> (int, int) {
        (self.sum().0 - (self.start_sum->0).0, self.sum().1 - (self.start_sum->0).1)
    }

    pub open spec fn past_slop(self) -> bool {
        apart(self.travel().0, self.travel().1, 0, 0, 2 * TWO_FINGER_SLOP)
    }

    /// The recogniser once a finger moved.
    pub open spec fn dragged(self, slot: i32, x: i64, y: i64) -> TwoFingerView {
        let now = TwoFingerView { fingers: self.placed(slot, x, y), ..self };
        if now.tracking() {
            TwoFingerView { moved: now.moved || now.past_slop(), ..now }
        } else {
            now
        }
    }

    /// The move that the fingers ask for.
    pub open spec fn move_out(self) -> Option<TwoFingerOut> {
        if self.tracking() && self.moved {
            Some(
                TwoFingerOut::MoveTo {
                    dx: (self.travel().0 / 2) as i64,
                    dy: (self.travel().1 / 2) as i64,
                },
            )
        } else {
            None
        }
    }

    /// Whether lifting a finger now completes a two-finger tap: of two fingers, it
    /// leaves one.
    pub open spec fn tap_ends(self, slot: i32, now_ms: u64) -> bool {
        &&& self.fingers.len() == 2
        &&& other_slots(self.fingers, slot).len() < 2
        &&& !self.cancelled
        &&& !self.moved
        &&& elapsed(self.down_ms, now_ms) <= TWO_FINGER_TAP_MS
    }

    /// Whether that tap is the second of a double-tap.
    pub open spec fn double(self, slot: i32, now_ms: u64) -> bool {
        self.tap_ends(slot, now_ms) && (self.last_tap_ms matches Some(prev) && elapsed(prev, now_ms)
            <= TWO_FINGER_DOUBLE_MS)
    }

    /// The recogniser once a finger lifted.
    pub open spec fn lifted(self, slot: i32, now_ms: u64) -> TwoFingerView {
        let fingers = other_slots(self.fingers, slot);
        let over = fingers.len() < 2;
        TwoFingerView {
            fingers,
            start_sum: if over {
                None
            } else {
                self.start_sum
            },
            down_ms: self.down_ms,
            moved: self.moved && !over,
            cancelled: self.cancelled && !over,
            last_tap_ms: if self.double(slot, now_ms) {
                None
            } else if self.tap_ends(slot, now_ms) {
                Some(now_ms)
            } else {
                self.last_tap_ms
            },
        }
    }
}

impl TwoFingerRecognizer {
    pub fn new() -> (r: TwoFingerRecognizer)
        ensures
            r@ == no_fingers(),
            r@.wf(),
    {
        let r = TwoFingerRecognizer {
            fingers: Vec::new(),
            start_sum: None,
            down_ms: 0,
            moved: false,
            cancelled: false,
            last_tap_ms: None,
        };
        assert(r@.fingers =~= seq![]);
        r
    }

    fn sum(&self) -> (r: Option<(i64, i64)>)
        requires
            self@.wf(),
        ensures
            match r {
                Some((x, y)) => {
                    &&& self@.fingers.len() == 2
                    &&& (x as int, y as int) == self@.sum()
                    &&& -2 * COORD_LIMIT <= x <= 2 * COORD_LIMIT
                    &&& -2 * COORD_LIMIT <= y <= 2 * COORD_LIMIT
                },
                None => self@.fingers.len() != 2,
            },
    {
        if self.fingers.len() != 2 {
            return None;
        }
        assert(coord(self@.fingers[0].1) && coord(self@.fingers[1].1));
        let a: (i32, i64, i64) = self.fingers[0];
        let b: (i32, i64, i64) = self.fingers[1];
        Some((a.1 + b.1, a.2 + b.2))
    }

    /// The current two-finger centroid, if exactly two fingers are down. The
    /// caller uses it to pick the target window when the phase begins.
    pub fn live_centroid(&self) -> (r: Option<(i64, i64)>)
        requires
            self@.wf(),
        ensures
            match r {
                Some((x, y)) => {
                    &&& self@.fingers.len() == 2
                    &&& x == self@.sum().0 / 2
                    &&& y == self@.sum().1 / 2
                },
                None => self@.fingers.len() != 2,
            },
    {
        match self.sum() {
            Some((x, y)) => Some((floor_div(x, 2), floor_div(y, 2))),
            None => None,
        }
    }

    /// `true` while a genuine two-finger gesture is active (exactly two fingers,
    /// not escalated to a third).
    pub fn is_active(&self) -> (r: bool)
        ensures
            r == (self@.fingers.len() == 2 && !self@.cancelled),
    {
        self.fingers.len() == 2 && !self.cancelled
    }

    fn seek(&self, slot: i32) -> (r: usize)
        ensures
            r == slot_at(self@.fingers, slot, 0),
            r <= self.fingers.len(),
    {
        let mut i: usize = 0;
        while i < self.fingers.len() && self.fingers[i].0 != slot
            invariant
                i <= self.fingers.len(),
                slot_at(self@.fingers, slot, 0) == slot_at(self@.fingers, slot, i as int),
            decreases self.fingers.len() - i,
        {
            i += 1;
        }
        i
    }

    /// A finger landed. The two-finger phase starts when the second lands; a
    /// third cancels it (it belongs to the workspace/overview aggregator).
    pub fn down(&mut self, slot: i32, x: i64, y: i64, now_ms: u64)
        requires
            old(self)@.wf(),
            coord(x),
            coord(y),
        ensures
            final(self)@.wf(),
            final(self)@ == old(self)@.landed(slot, x, y, now_ms),
    {
        let i: usize = self.seek(slot);
        if i < self.fingers.len() {
            self.fingers.set(i, (slot, x, y));
        } else {
            self.fingers.push((slot, x, y));
        }
        let n: usize = self.fingers.len();
        if n == 2 {
            let sum: Option<(i64, i64)> = self.sum();
            self.start_sum = sum;
            self.down_ms = now_ms;
            self.moved = false;
            self.cancelled = false;
        } else if n > 2 {
            self.cancelled = true;
        }
    }

    /// A finger moved. Returns [`TwoFingerOut::MoveTo`] once the centroid has
    /// travelled past the slop, then on every subsequent move.
    pub fn motion(&mut self, slot: i32, x: i64, y: i64) -> (r: Option<TwoFingerOut>)
        requires
            old(self)@.wf(),
            coord(x),
            coord(y),
        ensures
            final(self)@.wf(),
            final(self)@ == old(self)@.dragged(slot, x, y),
            r == final(self)@.move_out(),
    {
        let i: usize = self.seek(slot);
        if i < self.fingers.len() {
            self.fingers.set(i, (slot, x, y));
        }
        if self.cancelled {
            return None;
        }
        let (cx, cy) = match self.sum() {
            Some(c) => c,
            None => {
                return None;
            },
        };
        let (sx, sy) = match self.start_sum {
            Some(s) => s,
            None => {
                return None;
            },
        };
        let (dx, dy) = (cx - sx, cy - sy);
        if !self.moved && is_apart(dx, dy, 0, 0, 2 * TWO_FINGER_SLOP) {
            self.moved = true;
        }
        if self.moved {
            Some(TwoFingerOut::MoveTo { dx: floor_div(dx, 2), dy: floor_div(dy, 2) })
        } else {
            None
        }
    }

    /// A finger lifted. Returns [`TwoFingerOut::DoubleTap`] when this completes a
    /// second stationary two-finger tap shortly after the first.
    pub fn up(&mut self, slot: i32, now_ms: u64) -> (r: Option<TwoFingerOut>)
        requires
            old(self)@.wf(),
        ensures
            final(self)@.wf(),
            final(self)@ == old(self)@.lifted(slot, now_ms),
            r == (if old(self)@.double(slot, now_ms) {
                Some(TwoFingerOut::DoubleTap)
            } else {
                None
            }),
    {
        let was_two: bool = self.fingers.len() == 2;
        let mut rest: Vec<(i32, i64, i64)> = Vec::new();
        let ghost all = self.fingers@;
        let mut i: usize = 0;
        assert(rest@ =~= other_slots(all.take(0), slot));
        while i < self.fingers.len()
            invariant
                i <= self.fingers.len(),
                all == self.fingers@,
                *self == *old(self),
                forall|k: int|
                    0 <= k < all.len() ==> coord((#[trigger] all[k]).1) && coord(all[k].2),
                forall|k: int|
                    0 <= k < rest@.len() ==> coord((#[trigger] rest@[k]).1) && coord(rest@[k].2),
                rest@ == other_slots(all.take(i as int), slot),
            decreases self.fingers.len() - i,
        {
            let f: (i32, i64, i64) = self.fingers[i];
            assert(all.take(i + 1).drop_last() =~= all.take(i as int));
            assert(coord(all[i as int].1));
            if f.0 != slot {
                rest.push(f);
            }
            i += 1;
        }
        assert(all.take(all.len() as int) =~= all);
        self.fingers = rest;

        let mut out: Option<TwoFingerOut> = None;
        // A two-finger tap = both fingers landed and one lifts again quickly,
        // without the centroid having moved. Only the 2→1 transition counts.
        if was_two && self.fingers.len() < 2 && !self.cancelled && !self.moved
            && now_ms.saturating_sub(self.down_ms) <= TWO_FINGER_TAP_MS {
            let second: bool = match self.last_tap_ms {
                Some(prev) => now_ms.saturating_sub(prev) <= TWO_FINGER_DOUBLE_MS,
                None => false,
            };
            if second {
                out = Some(TwoFingerOut::DoubleTap);
                self.last_tap_ms = None;
            } else {
                self.last_tap_ms = Some(now_ms);
            }
        }
        if self.fingers.len() < 2 {
            self.start_sum = None;
            self.moved = false;
            self.cancelled = false;
        }
        out
    }

    /// Drop all per-gesture state (touch cancel).
    pub fn cancel(&mut self)
        ensures
            final(self)@.wf(),
            final(self)@ == (TwoFingerView { down_ms: old(self)@.down_ms, ..no_fingers() }),
    {
        self.fingers.clear();
        self.start_sum = None;
        self.moved = false;
        self.cancelled = false;
        self.last_tap_ms = None;
        assert(self@.fingers =~= seq![]);
    }
}

impl Default for TwoFingerRecognizer {
    fn default() -> (r: TwoFingerRecognizer)
        ensures
            r@ == no_fingers(),
            r@.wf(),
    {
        TwoFingerRecognizer::new()
    }
}

/// Two fingers that land at two points, at whatever times.
pub open spec fn two_down(
    a: i32,
    p: (i64, i64),
    b: i32,
    q: (i64, i64),
    t: u64,
    u: u64,
) -> TwoFingerView {
    no_fingers().landed(a, p.0, p.1, t).landed(b, q.0, q.1, u)
}

proof fn lemma_two_down(a: i32, p: (i64, i64), b: i32, q: (i64, i64), t: u64, u: u64)
    requires
        a != b,
        coord(p.0) && coord(p.1) && coord(q.0) && coord(q.1),
    ensures
        two_down(a, p, b, q, t, u).fingers == seq![(a, p.0, p.1), (b, q.0, q.1)],
        two_down(a, p, b, q, t, u).start_sum == Some(((p.0 + q.0) as i64, (p.1 + q.1) as i64)),
        two_down(a, p, b, q, t, u).down_ms == u,
        !two_down(a, p, b, q, t, u).moved,
        !two_down(a, p, b, q, t, u).cancelled,
        two_down(a, p, b, q, t, u).last_tap_ms is None,
{
    reveal_with_fuel(slot_at, 3);
    let one = no_fingers().landed(a, p.0, p.1, t);
    assert(one.fingers =~= seq![(a, p.0, p.1)]);
    assert(two_down(a, p, b, q, t, u).fingers =~= seq![(a, p.0, p.1), (b, q.0, q.1)]);
}

/// The window goes where the fingers go: once both fingers went the same way by
/// more than 12 pixels, it is moved by just that; within 12 pixels it stays.
pub proof fn law_window_follows_fingers(
    a: i32,
    p: (i64, i64),
    b: i32,
    q: (i64, i64),
    d: (int, int),
    t: u64,
    u: u64,
)
    requires
        a != b,
        coord(p.0) && coord(p.1) && coord(q.0) && coord(q.1),
        -COORD_LIMIT <= p.0 + d.0 <= COORD_LIMIT && -COORD_LIMIT <= p.1 + d.1 <= COORD_LIMIT,
        -COORD_LIMIT <= q.0 + d.0 <= COORD_LIMIT && -COORD_LIMIT <= q.1 + d.1 <= COORD_LIMIT,
    ensures
        ({
            let out = two_down(a, p, b, q, t, u).dragged(
                a,
                (p.0 + d.0) as i64,
                (p.1 + d.1) as i64,
            ).dragged(b, (q.0 + d.0) as i64, (q.1 + d.1) as i64).move_out();
            &&& d.0 * d.0 + d.1 * d.1 > (12 * 256) * (12 * 256) ==> out == Some(
                TwoFingerOut::MoveTo { dx: d.0 as i64, dy: d.1 as i64 },
            )
            &&& d.0 * d.0 + d.1 * d.1 <= (12 * 256) * (12 * 256) ==> out is None
        }),
{
    lemma_two_down(a, p, b, q, t, u);
    reveal_with_fuel(slot_at, 3);
    let start = two_down(a, p, b, q, t, u);
    let one = start.dragged(a, (p.0 + d.0) as i64, (p.1 + d.1) as i64);
    let two = one.dragged(b, (q.0 + d.0) as i64, (q.1 + d.1) as i64);
    assert(one.fingers =~= seq![(a, (p.0 + d.0) as i64, (p.1 + d.1) as i64), (b, q.0, q.1)]);
    assert(two.fingers =~= seq![
        (a, (p.0 + d.0) as i64, (p.1 + d.1) as i64),
        (b, (q.0 + d.0) as i64, (q.1 + d.1) as i64),
    ]);
    assert(one.travel() == d);
    assert(two.travel() == (2 * d.0, 2 * d.1));
    let s = d.0 * d.0 + d.1 * d.1;
    assert((2 * d.0) * (2 * d.0) + (2 * d.1) * (2 * d.1) == 4 * s) by (nonlinear_arith)
        requires
            s == d.0 * d.0 + d.1 * d.1,
    ;
    assert((d.0 - 0) * (d.0 - 0) + (d.1 - 0) * (d.1 - 0) == s);
    assert((2 * d.0 - 0) * (2 * d.0 - 0) + (2 * d.1 - 0) * (2 * d.1 - 0) == 4 * s);
    assert(0 <= s) by (nonlinear_arith)
        requires
            s == d.0 * d.0 + d.1 * d.1,
    ;
}

/// The same touches with their axes swapped.
pub open spec fn transposed(s: TwoFingerView) -> TwoFingerView {
    TwoFingerView {
        fingers: s.fingers.map_values(|f: (i32, i64, i64)| (f.0, f.2, f.1)),
        start_sum: match s.start_sum {
            Some((x, y)) => Some((y, x)),
            None => None,
        },
        ..s
    }
}

proof fn lemma_slot_transposed(s: TwoFingerView, slot: i32, i: int)
    requires
        0 <= i <= s.fingers.len(),
    ensures
        slot_at(transposed(s).fingers, slot, i) == slot_at(s.fingers, slot, i),
        i <= slot_at(s.fingers, slot, i) <= s.fingers.len(),
    decreases s.fingers.len() - i,
{
    if i < s.fingers.len() {
        assert(transposed(s).fingers[i] == (s.fingers[i].0, s.fingers[i].2, s.fingers[i].1));
        lemma_slot_transposed(s, slot, i + 1);
    }
}

/// Neither axis is favoured: touches with their axes swapped move the window by
/// the same amounts, swapped.
pub proof fn law_axes_are_alike(s: TwoFingerView, slot: i32, x: i64, y: i64)
    ensures
        transposed(s).dragged(slot, y, x) == transposed(s.dragged(slot, x, y)),
        match (
            s.dragged(slot, x, y).move_out(),
            transposed(s).dragged(slot, y, x).move_out(),
        ) {
            (None, None) => true,
            (Some(TwoFingerOut::MoveTo { dx, dy }), Some(TwoFingerOut::MoveTo { dx: ex, dy: ey })) => {
                dx == ey && dy == ex
            },
            _ => false,
        },
{
    lemma_slot_transposed(s, slot, 0);
    let now = TwoFingerView { fingers: s.placed(slot, x, y), ..s };
    let other = TwoFingerView {
        fingers: transposed(s).placed(slot, y, x),
        ..transposed(s)
    };
    assert(other.fingers =~= transposed(now).fingers);
    if now.tracking() {
        assert(other.fingers[0] == (now.fingers[0].0, now.fingers[0].2, now.fingers[0].1));
        assert(other.fingers[1] == (now.fingers[1].0, now.fingers[1].2, now.fingers[1].1));
        assert(other.travel() == (now.travel().1, now.travel().0));
    }
    assert(transposed(s).dragged(slot, y, x).fingers =~= transposed(s.dragged(slot, x, y)).fingers);
}

/// Two fingers that land and lift within 280 ms without moving are a tap; two such
/// taps within 340 ms of each other toggle, and only then does lifting a finger do
/// anything.
pub proof fn law_two_finger_taps(
    a: i32,
    p: (i64, i64),
    b: i32,
    q: (i64, i64),
    t: u64,
    u: u64,
    up: u64,
    last: Option<u64>,
)
    requires
        a != b,
        coord(p.0) && coord(p.1) && coord(q.0) && coord(q.1),
        u <= up,
        last matches Some(l) ==> l <= up,
    ensures
        ({
            let s = TwoFingerView { last_tap_ms: last, ..two_down(a, p, b, q, t, u) };
            &&& s.double(a, up) == (up - u <= 280 && last is Some && up - last->0 <= 340)
            &&& s.double(b, up) == s.double(a, up)
            &&& up - u <= 280 && !s.double(a, up) ==> s.lifted(a, up).last_tap_ms == Some(up)
            &&& up - u > 280 ==> s.lifted(a, up).last_tap_ms == last
        }),
{
    lemma_two_down(a, p, b, q, t, u);
    let f = seq![(a, p.0, p.1), (b, q.0, q.1)];
    reveal_with_fuel(other_slots, 3);
    assert(f.drop_last() =~= seq![(a, p.0, p.1)]);
    assert(f.drop_last().drop_last() =~= seq![]);
}

/// A move is never a tap: once the centroid has travelled, lifting a finger
/// neither completes nor starts a double-tap.
pub proof fn law_move_is_no_tap(s: TwoFingerView, slot: i32, now_ms: u64)
    requires
        s.moved,
    ensures
        !s.tap_ends(slot, now_ms),
        s.lifted(slot, now_ms).last_tap_ms == s.last_tap_ms,
{
}

/// A third finger ends the two-finger gesture: nothing moves until fingers lift.
pub proof fn law_third_finger_cancels(s: TwoFingerView, slot: i32, x: i64, y: i64, now_ms: u64)
    requires
        s.fingers.len() == 2,
        slot_at(s.fingers, slot, 0) == 2,
    ensures
        s.landed(slot, x, y, now_ms).cancelled,
        s.landed(slot, x, y, now_ms).move_out() is None,
{
}

/// Two two-finger taps soon after each other make one double-tap, and a third tap
/// is a first one again.
pub proof fn law_double_tap_once(
    s: TwoFingerView,
    slot: i32,
    t: u64,
    next: TwoFingerView,
    other: i32,
    u: u64,
)
    requires
        s.last_tap_ms is None,
        s.tap_ends(slot, t),
        next.last_tap_ms == s.lifted(slot, t).last_tap_ms,
        next.tap_ends(other, u),
        elapsed(t, u) <= TWO_FINGER_DOUBLE_MS,
    ensures
        !s.double(slot, t),
        next.double(other, u),
        next.lifted(other, u).last_tap_ms is None,
{
}

} // verus!
