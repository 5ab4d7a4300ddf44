//! Finding and following text over the accessibility bus.
//!
//! Apps publish their text as accessible objects on a bus of its own. The calls
//! over the bus are the caller's; this module decides which objects are asked,
//! which one is the text, and how a range becomes one box for each line.

use std::collections::VecDeque;
use vstd::prelude::*;

use crate::text::{own, own_all, str_eq, strings, strs};

verus! {

/// Coordinate spaces.
pub const COORD_SCREEN: u32 = 0;

pub const COORD_WINDOW: u32 = 1;

/// Text granularities.
pub const GRANULARITY_WORD: u32 = 1;

pub const GRANULARITY_LINE: u32 = 3;

// ---------------------------------------------------------------------------
// Start
// ---------------------------------------------------------------------------

/// The event types that are registered: apps never emit one that is not.
pub open spec fn event_names() -> Seq<Seq<char>> {
    seq![
        "object:state-changed:focused"@,
        "object:text-selection-changed"@,
        "object:text-caret-moved"@,
    ]
}

/// The event types that are registered.
pub fn consumed_events() -> (r: Vec<String>)
    ensures
        strings(r@) == event_names(),
{
    let names: Vec<&str> = vec![
        "object:state-changed:focused",
        "object:text-selection-changed",
        "object:text-caret-moved",
    ];
    assert(strs(names@) =~= event_names());
    own_all(&names)
}

/// What is done next to bring the bridge up.
#[derive(Debug, Clone, Copy, PartialEq, Eq, Structural)]
pub enum StartStep {
    ConnectSession,
    OpenStatus,
    /// Announce an assistive technology, so that apps expose their text.
    SetEnabled,
    SetScreenReader,
    GetAddress,
    ConnectBus,
    OpenRegistry,
    /// Register the event type of this rank.
    Register { rank: u8 },
    SpawnFocusThread,
    SpawnSelectionThread,
    Ready,
    /// The compositor runs without the bridge.
    Disabled,
}

/// What follows a step that succeeded or failed. The handshake and the event
/// types may fail, which only costs what they are for; without the session bus,
/// the accessibility bus or the threads there is no bridge.
pub open spec fn after_step(step: StartStep, ok: bool) -> StartStep {
    match step {
        StartStep::ConnectSession => if ok {
            StartStep::OpenStatus
        } else {
            StartStep::Disabled
        },
        StartStep::OpenStatus => if ok {
            StartStep::SetEnabled
        } else {
            StartStep::GetAddress
        },
        StartStep::SetEnabled => StartStep::SetScreenReader,
        StartStep::SetScreenReader => StartStep::GetAddress,
        StartStep::GetAddress => if ok {
            StartStep::ConnectBus
        } else {
            StartStep::Disabled
        },
        StartStep::ConnectBus => if ok {
            StartStep::OpenRegistry
        } else {
            StartStep::Disabled
        },
        StartStep::OpenRegistry => if ok {
            StartStep::Register { rank: 0 }
        } else {
            StartStep::SpawnFocusThread
        },
        StartStep::Register { rank } => if rank < 2 {
            StartStep::Register { rank: (rank + 1) as u8 }
        } else {
            StartStep::SpawnFocusThread
        },
        StartStep::SpawnFocusThread => if ok {
            StartStep::SpawnSelectionThread
        } else {
            StartStep::Disabled
        },
        StartStep::SpawnSelectionThread => if ok {
            StartStep::Ready
        } else {
            StartStep::Disabled
        },
        StartStep::Ready => StartStep::Ready,
        StartStep::Disabled => StartStep::Disabled,
    }
}

/// What follows a step that succeeded or failed.
pub fn start_step(step: StartStep, ok: bool) -> (r: StartStep)
    ensures
        r == after_step(step, ok),
{
    match step {
        StartStep::ConnectSession => if ok {
            StartStep::OpenStatus
        } else {
            StartStep::Disabled
        },
        StartStep::OpenStatus => if ok {
            StartStep::SetEnabled
        } else {
            StartStep::GetAddress
        },
        StartStep::SetEnabled => StartStep::SetScreenReader,
        StartStep::SetScreenReader => StartStep::GetAddress,
        StartStep::GetAddress => if ok {
            StartStep::ConnectBus
        } else {
            StartStep::Disabled
        },
        StartStep::ConnectBus => if ok {
            StartStep::OpenRegistry
        } else {
            StartStep::Disabled
        },
        StartStep::OpenRegistry => if ok {
            StartStep::Register { rank: 0 }
        } else {
            StartStep::SpawnFocusThread
        },
        StartStep::Register { rank } => if rank < 2 {
            StartStep::Register { rank: rank + 1 }
        } else {
            StartStep::SpawnFocusThread
        },
        StartStep::SpawnFocusThread => if ok {
            StartStep::SpawnSelectionThread
        } else {
            StartStep::Disabled
        },
        StartStep::SpawnSelectionThread => if ok {
            StartStep::Ready
        } else {
            StartStep::Disabled
        },
        StartStep::Ready => StartStep::Ready,
        StartStep::Disabled => StartStep::Disabled,
    }
}

// ---------------------------------------------------------------------------
// Objects
// ---------------------------------------------------------------------------

/// An accessible object: its owner's name on the bus and its path.
#[derive(Debug, Clone, PartialEq, Eq)]
pub struct AccRef {
    pub bus: String,
    pub path: String,
}

#[verifier::ext_equal]
pub struct AccView {
    pub bus: Seq<char>,
    pub path: Seq<char>,
}

impl View for AccRef {
    type V = AccView;

    open spec fn view(&self) -> AccView {
        AccView { bus: self.bus@, path: self.path@ }
    }
}

pub open spec fn acc_views(v: Seq<AccRef>) -> Seq<AccView> {
    v.map_values(|a: AccRef| a@)
}

pub open spec fn opt_acc(o: Option<AccRef>) -> Option<AccView> {
    match o {
        Some(a) => Some(a@),
        None => None,
    }
}

impl AccRef {
    fn same(&self, other: &AccRef) -> (r: bool)
        ensures
            r == (self@ == other@),
    {
        str_eq(self.bus.as_str(), other.bus.as_str()) && str_eq(
            self.path.as_str(),
            other.path.as_str(),
        )
    }

    fn copy(&self) -> (r: AccRef)
        ensures
            r@ == self@,
    {
        AccRef { bus: own(self.bus.as_str()), path: own(self.path.as_str()) }
    }
}

/// The root of the tree of all apps.
pub open spec fn root_view() -> AccView {
    AccView { bus: "org.a11y.atspi.Registry"@, path: "/org/a11y/atspi/accessible/root"@ }
}

/// A rectangle on screen or in a window.
#[derive(Debug, Clone, Copy, PartialEq, Eq, Structural)]
pub struct Extents {
    pub x: i32,
    pub y: i32,
    pub w: i32,
    pub h: i32,
}

impl Extents {
    pub open spec fn holds(self, x: int, y: int) -> bool {
        self.x <= x < self.x + self.w && self.y <= y < self.y + self.h
    }

    fn contains(self, x: i32, y: i32) -> (r: bool)
        ensures
            r == self.holds(x as int, y as int),
    {
        x >= self.x && (x as i64) < self.x as i64 + self.w as i64 && y >= self.y && (y as i64)
            < self.y as i64 + self.h as i64
    }
}

// ---------------------------------------------------------------------------
// Looking for a text
// ---------------------------------------------------------------------------

/// What the bus says of an object; its children are missing where it does not
/// answer for them.
#[derive(Debug, Clone, PartialEq, Eq)]
pub struct AccNode {
    pub interfaces: Vec<String>,
    /// Its place in its window.
    pub extents: Option<Extents>,
    pub children: Vec<AccRef>,
}

/// Whether an object is a text.
pub open spec fn is_text(node: AccNode) -> bool {
    strings(node.interfaces@).contains("org.a11y.atspi.Text"@)
}

/// How many objects are looked at, at most, and one more: a huge tree cannot hang
/// the search.
pub const SEARCH_BUDGET: u32 = 4000;

/// A breadth-first search for a text from the root.
pub struct TextSearch {
    queue: VecDeque<AccRef>,
    budget: u32,
    best: Option<AccRef>,
    point: Option<(i32, i32)>,
}

#[verifier::ext_equal]
pub struct SearchView {
    /// What is looked at next, in order.
    pub queue: Seq<AccView>,
    pub budget: u32,
    /// The text found so far.
    pub best: Option<AccView>,
    /// The point the text must contain; the first text is taken without one.
    pub point: Option<(i32, i32)>,
}

impl View for TextSearch {
    type V = SearchView;

    closed spec fn view(&self) -> SearchView {
        SearchView {
            queue: acc_views(self.queue@),
            budget: self.budget,
            best: opt_acc(self.best),
            point: self.point,
        }
    }
}

impl SearchView {
    /// The next object to ask about, and the search without it. The search is over
    /// when nothing is left or the budget is spent.
    pub open spec fn popped(self) -> (SearchView, Option<AccView>) {
        if self.queue.len() == 0 {
            (self, None)
        } else if self.budget <= 1 {
            (SearchView { queue: seq![], budget: 0, ..self }, None)
        } else {
            (
                SearchView { queue: self.queue.skip(1), budget: (self.budget - 1) as u32, ..self },
                Some(self.queue[0]),
            )
        }
    }

    /// Once the bus answered for an object. Its children are looked at later; the
    /// last text that contains the point, which is the deepest, is kept. Without a
    /// point the first text ends the search.
    pub open spec fn visited(self, acc: AccView, node: Option<AccNode>) -> SearchView {
        match node {
            None => self,
            Some(n) => match self.point {
                Some(p) => SearchView {
                    queue: self.queue + acc_views(n.children@),
                    best: if is_text(n) && n.extents is Some && n.extents->0.holds(
                        p.0 as int,
                        p.1 as int,
                    ) {
                        Some(acc)
                    } else {
                        self.best
                    },
                    ..self
                },
                None => if is_text(n) {
                    SearchView { queue: seq![], best: Some(acc), ..self }
                } else {
                    SearchView { queue: self.queue + acc_views(n.children@), ..self }
                },
            },
        }
    }
}

fn root() -> (r: AccRef)
    ensures
        r@ == root_view(),
{
    AccRef { bus: own("org.a11y.atspi.Registry"), path: own("/org/a11y/atspi/accessible/root") }
}

impl TextSearch {
    /// Look for the deepest text whose place in its window contains the point:
    /// "the text under the finger", without depending on focus events, which many
    /// apps do not emit, and without picking the wrong object, such as the
    /// window's title.
    pub fn find_text_at(x: i32, y: i32) -> (r: TextSearch)
        ensures
            r@.queue == seq![root_view()],
            r@.budget == SEARCH_BUDGET,
            r@.best is None,
            r@.point == Some((x, y)),
    {
        let mut queue: VecDeque<AccRef> = VecDeque::new();
        queue.push_back(root());
        let r = TextSearch { queue, budget: SEARCH_BUDGET, best: None, point: Some((x, y)) };
        assert(r@.queue =~= seq![root_view()]);
        r
    }

    /// Look for the first text, nearest to the root.
    pub fn find_first_text() -> (r: TextSearch)
        ensures
            r@.queue == seq![root_view()],
            r@.budget == SEARCH_BUDGET,
            r@.best is None,
            r@.point is None,
    {
        let mut queue: VecDeque<AccRef> = VecDeque::new();
        queue.push_back(root());
        let r = TextSearch { queue, budget: SEARCH_BUDGET, best: None, point: None };
        assert(r@.queue =~= seq![root_view()]);
        r
    }

    /// The next object to ask the bus about; none when the search is over.
    pub fn next(&mut self) -> (r: Option<AccRef>)
        ensures
            final(self)@ == old(self)@.popped().0,
            opt_acc(r) == old(self)@.popped().1,
    {
        let ghost before = self@;
        assert(before.queue.len() == self.queue@.len());
        if self.queue.len() == 0 {
            return None;
        }
        if self.budget <= 1 {
            self.queue = VecDeque::new();
            self.budget = 0;
            assert(self@.queue =~= seq![]);
            return None;
        }
        self.budget = self.budget - 1;
        let ghost all = self.queue@;
        let acc: Option<AccRef> = self.queue.pop_front();
        assert(before.queue[0] == all[0]@);
        assert(self@.queue =~= before.queue.skip(1));
        acc
    }

    /// The bus answered for an object, or did not.
    pub fn visit(&mut self, acc: AccRef, node: Option<AccNode>)
        ensures
            final(self)@ == old(self)@.visited(acc@, node),
    {
        let ghost before = self@;
        let n: AccNode = match node {
            Some(n) => n,
            None => {
                return;
            },
        };
        let text: bool = crate::text::has_string(&n.interfaces, "org.a11y.atspi.Text");
        match self.point {
            Some((x, y)) => {
                if text {
                    if let Some(e) = n.extents {
                        if e.contains(x, y) {
                            self.best = Some(acc);
                        }
                    }
                }
            },
            None => {
                if text {
                    self.queue = VecDeque::new();
                    self.best = Some(acc);
                    assert(self@.queue =~= seq![]);
                    assert(self@ =~= before.visited(acc@, node));
                    return;
                }
            },
        }
        let ghost had = self.queue@;
        let ghost all = n.children@;
        let ghost settled = self@;
        let mut children: Vec<AccRef> = n.children;
        while children.len() > 0
            invariant
                self.queue@ + children@ == had + all,
                self@ == (SearchView { queue: self@.queue, ..settled }),
            decreases children.len(),
        {
            let ghost (queued, left) = (self.queue@, children@);
            let child: AccRef = children.remove(0);
            self.queue.push_back(child);
            assert(self.queue@ + children@ =~= queued + left);
        }
        assert(self.queue@ =~= had + all);
        assert(self@.queue =~= before.queue + acc_views(n.children@));
        assert(self@ =~= before.visited(acc@, node));
    }

    /// The text that was found.
    pub fn found(&self) -> (r: Option<AccRef>)
        ensures
            opt_acc(r) == self@.best,
    {
        match &self.best {
            Some(a) => Some(a.copy()),
            None => None,
        }
    }
}

// ---------------------------------------------------------------------------
// Following the focus
// ---------------------------------------------------------------------------

/// What a state change of an object asks for.
#[derive(Debug, Clone, Copy, PartialEq, Eq, Structural)]
pub enum FocusStep {
    Ignore,
    /// The followed object lost the focus.
    Clear,
    /// An object has the focus: ask whether it is a text.
    Probe,
}

pub open spec fn focus_step_of(
    followed: Option<AccView>,
    minor: Seq<char>,
    detail: i32,
    source: AccView,
) -> FocusStep {
    if minor != "focused"@ {
        FocusStep::Ignore
    } else if detail == 1 {
        FocusStep::Probe
    } else if followed == Some(source) {
        FocusStep::Clear
    } else {
        FocusStep::Ignore
    }
}

/// The focused text, and whether its selection changed.
pub struct FocusTracker {
    focused: Option<AccRef>,
    dirty: bool,
}

#[verifier::ext_equal]
pub struct TrackerView {
    pub focused: Option<AccView>,
    pub dirty: bool,
}

impl View for FocusTracker {
    type V = TrackerView;

    closed spec fn view(&self) -> TrackerView {
        TrackerView { focused: opt_acc(self.focused), dirty: self.dirty }
    }
}

impl FocusTracker {
    pub fn new() -> (r: FocusTracker)
        ensures
            r@ == (TrackerView { focused: None, dirty: false }),
    {
        FocusTracker { focused: None, dirty: false }
    }

    /// The currently focused text, if any.
    pub fn focused(&self) -> (r: Option<AccRef>)
        ensures
            opt_acc(r) == self@.focused,
    {
        match &self.focused {
            Some(a) => Some(a.copy()),
            None => None,
        }
    }

    /// A state of `source` changed. Losing the focus clears it only for the object
    /// that is followed; an object that gains it must still be asked whether it is a
    /// text.
    pub fn state_changed(&mut self, minor: &str, detail: i32, source: &AccRef) -> (r: FocusStep)
        ensures
            r == focus_step_of(old(self)@.focused, minor@, detail, source@),
            final(self)@ == (if r == FocusStep::Clear {
                TrackerView { focused: None, ..old(self)@ }
            } else {
                old(self)@
            }),
    {
        if !str_eq(minor, "focused") {
            return FocusStep::Ignore;
        }
        if detail == 1 {
            return FocusStep::Probe;
        }
        let followed: bool = match &self.focused {
            Some(a) => a.same(source),
            None => false,
        };
        if followed {
            self.focused = None;
            FocusStep::Clear
        } else {
            FocusStep::Ignore
        }
    }

    /// The object that gained the focus was asked: only a text is followed, so
    /// buttons and containers, which take the focus too, change nothing.
    pub fn probed(&mut self, source: AccRef, text: bool)
        ensures
            final(self)@ == (if text {
                TrackerView { focused: Some(source@), ..old(self)@ }
            } else {
                old(self)@
            }),
    {
        if text {
            self.focused = Some(source);
        }
    }

    /// The selection of `source` changed, which matters for the focused text only.
    pub fn selection_changed(&mut self, source: &AccRef)
        ensures
            final(self)@ == (TrackerView {
                dirty: old(self)@.dirty || old(self)@.focused == Some(source@),
                ..old(self)@
            }),
    {
        let followed: bool = match &self.focused {
            Some(a) => a.same(source),
            None => false,
        };
        if followed {
            self.dirty = true;
        }
    }

    /// Whether the focused text's selection changed since this was last asked.
    pub fn take_selection_dirty(&mut self) -> (r: bool)
        ensures
            r == old(self)@.dirty,
            final(self)@ == (TrackerView { dirty: false, ..old(self)@ }),
    {
        let r: bool = self.dirty;
        self.dirty = false;
        r
    }
}

// ---------------------------------------------------------------------------
// Boxes of a range, line by line
// ---------------------------------------------------------------------------

/// How many lines are walked at most: an app whose lines do not advance cannot
/// hang the walk.
pub const LINE_LIMIT: u32 = 4096;

/// A walk over the lines of a range. One box for the whole range would be wrong
/// across line breaks, so each line is asked for on its own.
#[derive(Debug, Clone, PartialEq, Eq)]
pub struct LineWalk {
    pub offset: i32,
    pub end: i32,
    pub lines: u32,
    pub boxes: Vec<Extents>,
}

#[verifier::ext_equal]
pub struct WalkView {
    /// Where the walk is.
    pub offset: int,
    pub end: int,
    pub lines: int,
    pub boxes: Seq<Extents>,
}

impl View for LineWalk {
    type V = WalkView;

    open spec fn view(&self) -> WalkView {
        WalkView {
            offset: self.offset as int,
            end: self.end as int,
            lines: self.lines as int,
            boxes: self.boxes@,
        }
    }
}

impl WalkView {
    /// Whether there is another line to ask for.
    pub open spec fn goes_on(self) -> bool {
        self.offset < self.end && self.lines < LINE_LIMIT
    }

    /// The part of a line that lies in the range, if any.
    pub open spec fn segment(self, line: (int, int)) -> Option<(int, int)> {
        let lo = if self.offset > line.0 {
            self.offset
        } else {
            line.0
        };
        let hi = if self.end < line.1 {
            self.end
        } else {
            line.1
        };
        if hi > lo {
            Some((lo, hi))
        } else {
            None
        }
    }

    /// Past a line: behind its end, or one further where it does not advance.
    pub open spec fn past(self, line: Option<(int, int)>) -> WalkView {
        match line {
            None => WalkView { offset: self.end, lines: self.lines + 1, ..self },
            Some(l) => WalkView {
                offset: if l.1 > self.offset {
                    l.1
                } else {
                    self.offset + 1
                },
                lines: self.lines + 1,
                ..self
            },
        }
    }

    /// With a segment's box, if it has an area.
    pub open spec fn with_box(self, e: Option<Extents>) -> WalkView {
        match e {
            Some(e) if e.w > 0 && e.h > 0 => WalkView { boxes: self.boxes.push(e), ..self },
            _ => self,
        }
    }
}

impl LineWalk {
    /// Walk the range `[start, end)`.
    pub fn range_line_boxes(start: i32, end: i32) -> (r: LineWalk)
        ensures
            r@ == (WalkView { offset: start as int, end: end as int, lines: 0, boxes: seq![] }),
    {
        let r = LineWalk { offset: start, end, lines: 0, boxes: Vec::new() };
        assert(r@.boxes =~= seq![]);
        r
    }

    /// The offset whose line is asked for next; none when the walk is over.
    pub fn next_offset(&self) -> (r: Option<i32>)
        ensures
            match r {
                Some(o) => self@.goes_on() && o == self@.offset,
                None => !self@.goes_on(),
            },
    {
        if self.offset < self.end && self.lines < LINE_LIMIT {
            Some(self.offset)
        } else {
            None
        }
    }

    /// The line around the offset, if the app gave one: the part of it to ask the
    /// box of. Without a line the walk is over.
    pub fn line(&mut self, line: Option<(i32, i32)>) -> (r: Option<(i32, i32)>)
        requires
            old(self)@.goes_on(),
        ensures
            ({
                let l = match line {
                    Some(l) => Some((l.0 as int, l.1 as int)),
                    None => None,
                };
                &&& final(self)@ == old(self)@.past(l)
                &&& match r {
                    Some(s) => l is Some && old(self)@.segment(l->0) == Some((s.0 as int, s.1 as int)),
                    None => l is None || old(self)@.segment(l->0) is None,
                }
            }),
    {
        let ghost before = self@;
        let at: i32 = self.offset;
        self.lines = self.lines + 1;
        let (lo, hi): (i32, i32) = match line {
            Some(l) => l,
            None => {
                self.offset = self.end;
                assert(self@ =~= before.past(None));
                return None;
            },
        };
        self.offset = if hi > at {
            hi
        } else {
            at + 1
        };
        assert(self@ =~= before.past(Some((lo as int, hi as int))));
        let from: i32 = if at > lo {
            at
        } else {
            lo
        };
        let to: i32 = if self.end < hi {
            self.end
        } else {
            hi
        };
        if to > from {
            Some((from, to))
        } else {
            None
        }
    }

    /// The box of a segment, if the app gave one.
    pub fn add_box(&mut self, e: Option<Extents>)
        ensures
            final(self)@ == old(self)@.with_box(e),
    {
        let ghost before = self@;
        if let Some(e) = e {
            if e.w > 0 && e.h > 0 {
                self.boxes.push(e);
            }
        }
        assert(self@ =~= before.with_box(e));
    }
}

/// The caret and the length of the focused text, when both could be read.
pub fn text_snapshot(caret: Option<i32>, count: Option<i32>) -> (r: Option<(i32, i32)>)
    ensures
        r == (match (caret, count) {
            (Some(c), Some(n)) => Some((c, n)),
            _ => None,
        }),
{
    match (caret, count) {
        (Some(c), Some(n)) => Some((c, n)),
        _ => None,
    }
}

// ---------------------------------------------------------------------------
// Laws
// ---------------------------------------------------------------------------

/// Every line that is walked takes the walk further, so a walk ends, and never
/// after more lines than the limit.
pub proof fn law_walk_advances(w: WalkView, line: Option<(int, int)>)
    requires
        w.goes_on(),
    ensures
        w.past(line).offset > w.offset,
        w.past(line).lines == w.lines + 1,
        w.past(line).lines <= LINE_LIMIT,
{
}

/// A segment lies within the range and within its line.
pub proof fn law_segment_in_range(w: WalkView, line: (int, int))
    ensures
        w.segment(line) matches Some(s) ==> {
            &&& w.offset <= s.0 < s.1 <= w.end
            &&& line.0 <= s.0 && s.1 <= line.1
        },
{
}

/// Where the start is after at most `n` more steps, when the steps succeed as
/// `ok` says.
pub open spec fn started(ok: spec_fn(StartStep) -> bool, step: StartStep, n: nat) -> StartStep
    decreases n,
{
    if n == 0 {
        step
    } else {
        started(ok, after_step(step, ok(step)), (n - 1) as nat)
    }
}

/// Starting takes twelve steps at most, and the bridge is ready exactly when the
/// session bus, the address, the accessibility bus and both threads could be had;
/// the handshake and the event types do not matter.
pub proof fn law_start_needs_buses(ok: spec_fn(StartStep) -> bool)
    ensures
        started(ok, StartStep::ConnectSession, 12) == (if ok(StartStep::ConnectSession) && ok(
            StartStep::GetAddress,
        ) && ok(StartStep::ConnectBus) && ok(StartStep::SpawnFocusThread) && ok(
            StartStep::SpawnSelectionThread,
        ) {
            StartStep::Ready
        } else {
            StartStep::Disabled
        }),
{
    reveal_with_fuel(started, 13);
}

/// The objects that a search asks about, in order, when the bus answers for them
/// as `answers` says.
pub open spec fn asked(s: SearchView, answers: spec_fn(AccView) -> Option<AccNode>) -> Seq<AccView>
    decreases s.budget,
{
    match s.popped().1 {
        Some(acc) => seq![acc] + asked(s.popped().0.visited(acc, answers(acc)), answers),
        None => seq![],
    }
}

/// The search when it is over.
pub open spec fn outcome(s: SearchView, answers: spec_fn(AccView) -> Option<AccNode>) -> SearchView
    decreases s.budget,
{
    match s.popped().1 {
        Some(acc) => outcome(s.popped().0.visited(acc, answers(acc)), answers),
        None => s.popped().0,
    }
}

/// Whether an object is what the search looks for: a text, and around the point
/// if there is one.
pub open spec fn is_hit(node: Option<AccNode>, point: Option<(i32, i32)>) -> bool {
    match (node, point) {
        (None, _) => false,
        (Some(n), None) => is_text(n),
        (Some(n), Some((x, y))) => is_text(n) && n.extents is Some && n.extents->0.holds(
            x as int,
            y as int,
        ),
    }
}

/// A search asks about fewer objects than its budget. With a point it finds the
/// last of them that is a hit; without one it stops at the first. It finds
/// nothing only where none of them is a hit.
pub proof fn law_search_outcome(s: SearchView, answers: spec_fn(AccView) -> Option<AccNode>)
    ensures
        asked(s, answers).len() < s.budget || asked(s, answers).len() == 0,
        ({
            let list = asked(s, answers);
            let found = outcome(s, answers).best;
            ||| found == s.best && forall|j: int|
                0 <= j < list.len() ==> !is_hit(answers(#[trigger] list[j]), s.point)
            ||| exists|i: int|
                0 <= i < list.len() && found == Some(#[trigger] list[i]) && is_hit(
                    answers(list[i]),
                    s.point,
                ) && (s.point is None ==> i == list.len() - 1) && (forall|j: int|
                    (if s.point is Some {
                        i < j < list.len()
                    } else {
                        0 <= j < i
                    }) ==> !is_hit(answers(#[trigger] list[j]), s.point))
        }),
    decreases s.budget,
{
    match s.popped().1 {
        None => {},
        Some(acc) => {
            let t = s.popped().0.visited(acc, answers(acc));
            law_search_outcome(t, answers);
            let rest = asked(t, answers);
            let list = asked(s, answers);
            assert(list =~= seq![acc] + rest);
            assert(list[0] == acc);
            assert forall|j: int| 0 <= j < rest.len() implies list[j + 1] == #[trigger] rest[j] by {
            }
            assert forall|j: int| 1 <= j < list.len() implies #[trigger] list[j] == rest[j - 1] by {
            }
            let hit = is_hit(answers(acc), s.point);
            if s.point is None && hit {
                assert(t.queue.len() == 0);
                assert(rest.len() == 0);
                assert(outcome(s, answers).best == Some(list[0]));
            } else if exists|i: int|
                0 <= i < rest.len() && outcome(t, answers).best == Some(#[trigger] rest[i])
                    && is_hit(answers(rest[i]), s.point) && (s.point is None ==> i == rest.len()
                    - 1) && (forall|j: int|
                    (if s.point is Some {
                        i < j < rest.len()
                    } else {
                        0 <= j < i
                    }) ==> !is_hit(answers(#[trigger] rest[j]), s.point)) {
                let i = choose|i: int|
                    0 <= i < rest.len() && outcome(t, answers).best == Some(#[trigger] rest[i])
                        && is_hit(answers(rest[i]), s.point) && (s.point is None ==> i
                        == rest.len() - 1) && (forall|j: int|
                        (if s.point is Some {
                            i < j < rest.len()
                        } else {
                            0 <= j < i
                        }) ==> !is_hit(answers(#[trigger] rest[j]), s.point));
                assert(list[i + 1] == rest[i]);
            } else {
                assert(outcome(t, answers).best == t.best);
                if hit {
                    assert(t.best == Some(list[0]));
                } else {
                    assert(t.best == s.best);
                }
            }
        },
    }
}

/// A bridge is started step by step: the handshake and the event types may fail, which
/// only costs what they are for, and every other failure ends it.
pub proof fn law_start_failures(rank: u8)
    ensures
        after_step(StartStep::ConnectSession, false) == StartStep::Disabled,
        after_step(StartStep::GetAddress, false) == StartStep::Disabled,
        after_step(StartStep::ConnectBus, false) == StartStep::Disabled,
        after_step(StartStep::SpawnFocusThread, false) == StartStep::Disabled,
        after_step(StartStep::SpawnSelectionThread, false) == StartStep::Disabled,
        after_step(StartStep::OpenStatus, false) == StartStep::GetAddress,
        after_step(StartStep::OpenRegistry, false) == StartStep::SpawnFocusThread,
        after_step(StartStep::SetEnabled, false) == after_step(StartStep::SetEnabled, true),
        after_step(StartStep::SetScreenReader, false) == after_step(
            StartStep::SetScreenReader,
            true,
        ),
        after_step(StartStep::Register { rank }, false) == after_step(
            StartStep::Register { rank },
            true,
        ),
        after_step(StartStep::ConnectSession, true) == StartStep::OpenStatus,
        after_step(StartStep::OpenStatus, true) == StartStep::SetEnabled,
        after_step(StartStep::SetEnabled, true) == StartStep::SetScreenReader,
        after_step(StartStep::SetScreenReader, true) == StartStep::GetAddress,
        after_step(StartStep::GetAddress, true) == StartStep::ConnectBus,
        after_step(StartStep::ConnectBus, true) == StartStep::OpenRegistry,
        after_step(StartStep::OpenRegistry, true) == (StartStep::Register { rank: 0 }),
        after_step(StartStep::Register { rank: 0 }, true) == (StartStep::Register { rank: 1 }),
        after_step(StartStep::Register { rank: 1 }, true) == (StartStep::Register { rank: 2 }),
        after_step(StartStep::Register { rank: 2 }, true) == StartStep::SpawnFocusThread,
        after_step(StartStep::SpawnFocusThread, true) == StartStep::SpawnSelectionThread,
        after_step(StartStep::SpawnSelectionThread, true) == StartStep::Ready,
        event_names().len() == 3,
{
}

/// The focus is followed by the object that gains it; losing it counts only for the one
/// that is followed, and no other change of state counts at all.
pub proof fn law_focus_steps(followed: Option<AccView>, source: AccView, minor: Seq<char>, detail: i32)
    ensures
        focus_step_of(followed, "focused"@, 1, source) == FocusStep::Probe,
        focus_step_of(Some(source), "focused"@, 0, source) == FocusStep::Clear,
        followed != Some(source) ==> focus_step_of(followed, "focused"@, 0, source)
            == FocusStep::Ignore,
        minor != "focused"@ ==> focus_step_of(followed, minor, detail, source)
            == FocusStep::Ignore,
{
}

/// Of a line only what lies in the range is asked for: its start where the range began
/// before it, and its end where the range goes on behind it.
pub proof fn law_segment(w: WalkView, line: (int, int))
    ensures
        w.segment(line) matches Some(s) ==> s.0 < s.1 && w.offset <= s.0 && line.0 <= s.0 && s.1
            <= w.end && s.1 <= line.1,
        w.segment(line) matches Some(s) ==> (s.0 == w.offset || s.0 == line.0) && (s.1 == w.end
            || s.1 == line.1),
        w.offset < line.1 && line.0 < w.end && line.0 < line.1 && w.offset < w.end ==> w.segment(
            line,
        ) is Some,
        line.1 <= w.offset ==> w.segment(line) is None,
        line.0 >= w.end ==> w.segment(line) is None,
{
}

/// A box without an area is not kept, any other is, behind those before it.
pub proof fn law_boxes(w: WalkView, e: Extents)
    ensures
        e.w > 0 && e.h > 0 ==> w.with_box(Some(e)).boxes == w.boxes.push(e),
        e.w <= 0 || e.h <= 0 ==> w.with_box(Some(e)) == w,
        w.with_box(None) == w,
        w.with_box(Some(e)).offset == w.offset,
        w.past(None).offset == w.end,
        !w.past(None).goes_on(),
{
}

/// The walk goes on behind the line, and over at most 4096 lines.
pub proof fn law_walk_limits(w: WalkView, line: (int, int))
    ensures
        line.1 > w.offset ==> w.past(Some(line)).offset == line.1,
        line.1 <= w.offset ==> w.past(Some(line)).offset == w.offset + 1,
        w.past(Some(line)).lines == w.lines + 1,
        w.lines >= 4096 ==> !w.goes_on(),
        w.offset >= w.end ==> !w.goes_on(),
        w.offset < w.end && w.lines < 4096 ==> w.goes_on(),
{
}

/// An object is asked about in the order in which it was met, and its children are
/// looked at behind all that are waiting.
pub proof fn law_search_order(s: SearchView, acc: AccView, n: AccNode)
    ensures
        s.queue.len() > 0 && s.budget > 1 ==> s.popped().1 == Some(s.queue[0])
            && s.popped().0.queue == s.queue.skip(1),
        s.queue.len() == 0 ==> s.popped().1 is None,
        s.budget <= 1 ==> s.popped().1 is None,
        s.point is Some ==> s.visited(acc, Some(n)).queue == s.queue + acc_views(n.children@),
        s.visited(acc, None) == s,
        root_view().bus == "org.a11y.atspi.Registry"@,
        root_view().path == "/org/a11y/atspi/accessible/root"@,
{
}

/// A place holds its left and top edge and not its right and bottom one.
pub proof fn law_extents(e: Extents, y: int)
    requires
        e.w > 0,
        e.y <= y < e.y + e.h,
    ensures
        e.holds(e.x as int, y),
        e.holds(e.x + e.w - 1, y),
        !e.holds(e.x + e.w, y),
        !e.holds(e.x - 1, y),
        !e.holds(e.x as int, e.y + e.h),
        !e.holds(e.x as int, e.y - 1),
{
}

} // verus!
