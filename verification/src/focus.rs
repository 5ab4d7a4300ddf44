//! Focus history and alt+tab cycling.
//!
//! 1. **MRU history**: a `WindowId` deque ordered most-recent-first. Every
//!    successful focus call from outside the cycle pushes the target to the
//!    front, and dropping a window forgets it. Bounded at [`MRU_CAP`].
//!
//! 2. **Cycle**: when the user holds Alt and taps Tab, the shell steps through a
//!    frozen snapshot of visible windows without committing each intermediate
//!    focus to history. Releasing Alt commits the current selection; pressing
//!    Escape restores whatever was focused before the cycle began.

use std::collections::{HashSet, VecDeque};

use vstd::prelude::*;

use crate::wm::{OutputId, WindowId};

verus! {

broadcast use vstd::std_specs::hash::group_hash_axioms;

/// Upper bound on the MRU deque. Hundreds of windows in a single session is
/// already aggressive; capping prevents pathological clients from making the
/// history grow forever.
pub const MRU_CAP: usize = 256;

/// Per-cycle bookkeeping. Frozen at the moment the user first pressed Alt+Tab
/// so a window opening or closing mid-cycle doesn't reshuffle the candidate
/// order under their fingers.
struct Cycle {
    /// The cycle's candidate windows, in the order they're stepped through.
    /// Entry 0 is the originally-focused window.
    candidates: Vec<WindowId>,
    /// Index into `candidates` currently being previewed.
    index: usize,
    /// Window that was focused at the moment the cycle started.
    started_from: Option<WindowId>,
    /// Output the switcher overlay is pinned to for this cycle's whole life.
    output: OutputId,
}

/// Combined MRU + cycle state.
pub struct FocusHistory {
    mru: VecDeque<WindowId>,
    cycle: Option<Cycle>,
}

pub struct CycleView {
    pub candidates: Seq<WindowId>,
    pub index: int,
    pub started_from: Option<WindowId>,
    pub output: OutputId,
}

pub struct FocusView {
    /// Most recent first.
    pub mru: Seq<WindowId>,
    pub cycle: Option<CycleView>,
}

impl View for FocusHistory {
    type V = FocusView;

    closed spec fn view(&self) -> FocusView {
        FocusView {
            mru: self.mru@,
            cycle: match self.cycle {
                Some(c) => Some(
                    CycleView {
                        candidates: c.candidates@,
                        index: c.index as int,
                        started_from: c.started_from,
                        output: c.output,
                    },
                ),
                None => None,
            },
        }
    }
}

impl FocusView {
    /// No window occurs twice in the history, which is never longer than its
    /// cap; a cycle has at least two candidates and points at one of them.
    pub open spec fn wf(self) -> bool {
        &&& self.mru.no_duplicates()
        &&& self.mru.len() <= MRU_CAP
        &&& self.cycle matches Some(c) ==> c.candidates.len() >= 2 && 0 <= c.index
            < c.candidates.len()
    }

    /// The cycle one step on; nothing else changes, and no cycle stays none.
    pub open spec fn advanced(self, reverse: bool) -> FocusView {
        FocusView {
            mru: self.mru,
            cycle: match self.cycle {
                Some(c) => Some(
                    CycleView {
                        index: step(c.index, c.candidates.len() as int, reverse),
                        ..c
                    },
                ),
                None => None,
            },
        }
    }

    /// The window that the cycle previews.
    pub open spec fn current(self) -> Option<WindowId> {
        match self.cycle {
            Some(c) => Some(c.candidates[c.index]),
            None => None,
        }
    }
}

/// The ids other than `id`, in order.
pub open spec fn without(s: Seq<WindowId>, id: WindowId) -> Seq<WindowId>
    decreases s.len(),
{
    if s.len() == 0 {
        seq![]
    } else if s.last() == id {
        without(s.drop_last(), id)
    } else {
        without(s.drop_last(), id).push(s.last())
    }
}

/// The history once `id` was focused: `id` first, everything else behind it in
/// the old order, cut off at the cap.
pub open spec fn focused(mru: Seq<WindowId>, id: WindowId) -> Seq<WindowId> {
    let all = seq![id] + without(mru, id);
    if all.len() > MRU_CAP {
        all.take(MRU_CAP as int)
    } else {
        all
    }
}

/// The elements of `s` that occur in `keep`, in order.
pub open spec fn only(s: Seq<WindowId>, keep: Seq<WindowId>) -> Seq<WindowId>
    decreases s.len(),
{
    if s.len() == 0 {
        seq![]
    } else if keep.contains(s.last()) {
        only(s.drop_last(), keep).push(s.last())
    } else {
        only(s.drop_last(), keep)
    }
}

/// The elements of `s` that do not occur in `skip`, in order.
pub open spec fn except(s: Seq<WindowId>, skip: Seq<WindowId>) -> Seq<WindowId>
    decreases s.len(),
{
    if s.len() == 0 {
        seq![]
    } else if skip.contains(s.last()) {
        except(s.drop_last(), skip)
    } else {
        except(s.drop_last(), skip).push(s.last())
    }
}

/// The order of a cycle through the visible windows: those in the history
/// first, most recent first, then those that were never focused.
pub open spec fn order(mru: Seq<WindowId>, visible: Seq<WindowId>) -> Seq<WindowId> {
    let known = only(mru, visible);
    known + except(visible, known)
}

/// The position of the first `id` from index `i` on; the length where it does
/// not occur.
pub open spec fn position(s: Seq<WindowId>, id: WindowId, i: int) -> int
    decreases s.len() - i,
{
    if i < 0 || i >= s.len() {
        s.len() as int
    } else if s[i] == id {
        i
    } else {
        position(s, id, i + 1)
    }
}

/// A cycle once one of its candidates is gone: the cursor stays on the window
/// that it previews or, where that one is gone, goes on to the next, wrapping
/// at the end. A cycle of fewer than two windows is over.
pub open spec fn cycle_without(c: CycleView, id: WindowId) -> Option<CycleView> {
    let at = position(c.candidates, id, 0);
    if at >= c.candidates.len() {
        Some(c)
    } else {
        let rest = c.candidates.remove(at);
        if rest.len() < 2 {
            None
        } else {
            Some(
                CycleView {
                    candidates: rest,
                    index: if c.index > at {
                        c.index - 1
                    } else if c.index == at && c.index >= rest.len() {
                        0
                    } else {
                        c.index
                    },
                    ..c
                },
            )
        }
    }
}

/// The index one step on, wrapping at both ends.
pub open spec fn step(index: int, len: int, reverse: bool) -> int {
    if reverse {
        if index == 0 {
            len - 1
        } else {
            index - 1
        }
    } else {
        if index + 1 == len {
            0
        } else {
            index + 1
        }
    }
}

proof fn lemma_position(s: Seq<WindowId>, id: WindowId, i: int)
    requires
        0 <= i <= s.len(),
    ensures
        i <= position(s, id, i) <= s.len(),
        position(s, id, i) < s.len() ==> s[position(s, id, i)] == id,
        position(s, id, i) == s.len() ==> forall|k: int| i <= k < s.len() ==> s[k] != id,
    decreases s.len() - i,
{
    if i < s.len() && s[i] != id {
        lemma_position(s, id, i + 1);
    }
}

pub proof fn lemma_without(s: Seq<WindowId>, id: WindowId)
    ensures
        !without(s, id).contains(id),
        without(s, id).len() <= s.len(),
        forall|x: WindowId| #[trigger]
            without(s, id).contains(x) <==> s.contains(x) && x != id,
        s.no_duplicates() ==> without(s, id).no_duplicates(),
    decreases s.len(),
{
    if s.len() > 0 {
        let t = s.drop_last();
        lemma_without(t, id);
        let r = without(s, id);
        let rt = without(t, id);
        assert forall|x: WindowId| #[trigger] r.contains(x) <==> s.contains(x) && x != id by {
            assert(rt.contains(x) <==> t.contains(x) && x != id);
            if s.contains(x) {
                let k = choose|k: int| 0 <= k < s.len() && s[k] == x;
                if k < s.len() - 1 {
                    assert(t[k] == x);
                }
            }
            if t.contains(x) {
                let k = choose|k: int| 0 <= k < t.len() && t[k] == x;
                assert(s[k] == x);
            }
            if s.last() != id {
                assert(r == rt.push(s.last()));
                if rt.contains(x) {
                    let k = choose|k: int| 0 <= k < rt.len() && rt[k] == x;
                    assert(r[k] == x);
                }
                if r.contains(x) {
                    let k = choose|k: int| 0 <= k < r.len() && r[k] == x;
                    if k < rt.len() {
                        assert(rt[k] == x);
                    }
                }
                if x == s.last() {
                    assert(r[r.len() - 1] == x);
                    assert(s[s.len() - 1] == x);
                }
            }
        }
        if s.no_duplicates() {
            assert(t.no_duplicates());
            if s.last() != id {
                assert forall|i: int, j: int| 0 <= i < r.len() && 0 <= j < r.len() && i != j implies r[i]
                    != r[j] by {
                    if i == rt.len() || j == rt.len() {
                        let k = if i == rt.len() {
                            j
                        } else {
                            i
                        };
                        assert(rt.contains(rt[k]));
                        assert(t.contains(rt[k]));
                    }
                }
            }
        }
    } else {
        assert(without(s, id) =~= seq![]);
    }
}

pub proof fn lemma_focused(mru: Seq<WindowId>, id: WindowId)
    requires
        mru.no_duplicates(),
    ensures
        focused(mru, id).no_duplicates(),
        focused(mru, id).len() <= MRU_CAP,
        focused(mru, id).len() > 0,
        focused(mru, id)[0] == id,
{
    lemma_without(mru, id);
    let rest = without(mru, id);
    let all = seq![id] + rest;
    assert forall|i: int, j: int| 0 <= i < all.len() && 0 <= j < all.len() && i != j implies all[i]
        != all[j] by {
        if i == 0 {
            assert(rest.contains(rest[j - 1]));
        } else if j == 0 {
            assert(rest.contains(rest[i - 1]));
        } else {
            assert(all[i] == rest[i - 1] && all[j] == rest[j - 1]);
        }
    }
}

/// The deque without `id`.
fn retain_other(mru: &VecDeque<WindowId>, id: WindowId) -> (r: VecDeque<WindowId>)
    ensures
        r@ == without(mru@, id),
{
    let mut r: VecDeque<WindowId> = VecDeque::new();
    let mut i: usize = 0;
    assert(r@ =~= without(mru@.take(0), id));
    while i < mru.len()
        invariant
            i <= mru.len(),
            r@ == without(mru@.take(i as int), id),
        decreases mru.len() - i,
    {
        let x: WindowId = mru[i];
        assert(mru@.take(i + 1).drop_last() =~= mru@.take(i as int));
        if x != id {
            r.push_back(x);
        }
        i += 1;
    }
    assert(mru@.take(mru.len() as int) =~= mru@);
    r
}

/// Whether the slice holds `id`.
fn set_of(s: &[WindowId]) -> (r: HashSet<WindowId>)
    ensures
        forall|id: WindowId| #[trigger] r@.contains(id) == s@.contains(id),
{
    let mut r: HashSet<WindowId> = HashSet::new();
    let mut i: usize = 0;
    while i < s.len()
        invariant
            i <= s.len(),
            forall|k: int| 0 <= k < i ==> r@.contains(#[trigger] s@[k]),
            forall|id: WindowId| #[trigger] r@.contains(id) ==> s@.contains(id),
        decreases s.len() - i,
    {
        r.insert(s[i]);
        assert(s@.contains(s@[i as int]));
        i += 1;
    }
    r
}

impl FocusHistory {
    pub fn new() -> (r: FocusHistory)
        ensures
            r@.wf(),
            r@.mru == Seq::<WindowId>::empty(),
            r@.cycle is None,
    {
        FocusHistory { mru: VecDeque::new(), cycle: None }
    }

    pub fn is_cycling(&self) -> (r: bool)
        ensures
            r == (self@.cycle is Some),
    {
        self.cycle.is_some()
    }

    fn push_top(&mut self, id: WindowId)
        requires
            old(self)@.mru.no_duplicates(),
            old(self)@.mru.len() <= MRU_CAP,
        ensures
            final(self)@.mru == focused(old(self)@.mru, id),
            final(self)@.cycle == old(self)@.cycle,
    {
        let mut rest: VecDeque<WindowId> = retain_other(&self.mru, id);
        proof {
            lemma_without(self.mru@, id);
        }
        rest.push_front(id);
        assert(rest@ =~= seq![id] + without(old(self)@.mru, id));
        while rest.len() > MRU_CAP
            invariant
                rest.len() <= MRU_CAP + 1,
                rest.len() <= MRU_CAP || rest@ == seq![id] + without(old(self)@.mru, id),
                rest@ == focused(old(self)@.mru, id) || rest@ == seq![id] + without(
                    old(self)@.mru,
                    id,
                ),
                (seq![id] + without(old(self)@.mru, id)).len() <= MRU_CAP ==> rest@ == seq![id]
                    + without(old(self)@.mru, id),
                rest.len() <= MRU_CAP ==> rest@ == focused(old(self)@.mru, id),
            decreases rest.len(),
        {
            let ghost all = rest@;
            rest.pop_back();
            assert(rest@ =~= all.take(MRU_CAP as int));
        }
        self.mru = rest;
    }

    /// Push `id` to the MRU front. **No-op while a cycle is active** — cycle
    /// steps preview windows without committing to history, so a quick
    /// `Alt+Tab Tab Tab` doesn't permanently scramble the order.
    pub fn promote(&mut self, id: WindowId)
        requires
            old(self)@.wf(),
        ensures
            final(self)@.wf(),
            final(self)@.cycle == old(self)@.cycle,
            final(self)@.mru == (if old(self)@.cycle is Some {
                old(self)@.mru
            } else {
                focused(old(self)@.mru, id)
            }),
    {
        if self.cycle.is_some() {
            return;
        }
        self.push_top(id);
        proof {
            lemma_focused(old(self)@.mru, id);
        }
    }

    /// Drop a closed window from history. If a cycle is in progress and `id`
    /// was one of its candidates, strip it from the snapshot too; the cycle is
    /// torn down entirely if too few candidates remain to be useful.
    pub fn forget(&mut self, id: WindowId)
        requires
            old(self)@.wf(),
        ensures
            final(self)@.wf(),
            final(self)@.mru == without(old(self)@.mru, id),
            final(self)@.cycle == (match old(self)@.cycle {
                Some(c) => cycle_without(c, id),
                None => None,
            }),
    {
        self.mru = retain_other(&self.mru, id);
        proof {
            lemma_without(old(self)@.mru, id);
        }
        let mut cycle: Option<Cycle> = None;
        std::mem::swap(&mut cycle, &mut self.cycle);
        if let Some(mut c) = cycle {
            let mut at: usize = 0;
            while at < c.candidates.len() && c.candidates[at] != id
                invariant
                    at <= c.candidates.len(),
                    position(c.candidates@, id, 0) == position(c.candidates@, id, at as int),
                decreases c.candidates.len() - at,
            {
                at += 1;
            }
            if at < c.candidates.len() {
                c.candidates.remove(at);
                if c.candidates.len() >= 2 {
                    if c.index > at {
                        // Entry before the cursor disappeared — shift to keep
                        // the visible "current" the same.
                        c.index -= 1;
                    } else if c.index == at && c.index >= c.candidates.len() {
                        // The currently-previewed entry just died *and* it was
                        // the tail. Wrap back to the start.
                        c.index = 0;
                    }
                    self.cycle = Some(c);
                }
            } else {
                self.cycle = Some(c);
            }
        }
    }

    /// Build the cycle order for `current_visible`: MRU entries first (filtered
    /// to what's actually on-screen right now), then any visible window that
    /// has never been focused, appended in the caller's iteration order.
    pub fn cycle_order(&self, current_visible: &[WindowId]) -> (r: Vec<WindowId>)
        ensures
            r@ == order(self@.mru, current_visible@),
    {
        let visible: HashSet<WindowId> = set_of(current_visible);
        let mut known: Vec<WindowId> = Vec::new();
        let mut i: usize = 0;
        let ghost mru = self.mru@;
        assert(known@ =~= only(mru.take(0), current_visible@));
        while i < self.mru.len()
            invariant
                i <= self.mru.len(),
                mru == self.mru@,
                forall|id: WindowId| #[trigger]
                    visible@.contains(id) == current_visible@.contains(id),
                known@ == only(mru.take(i as int), current_visible@),
            decreases self.mru.len() - i,
        {
            let x: WindowId = self.mru[i];
            assert(mru.take(i + 1).drop_last() =~= mru.take(i as int));
            if visible.contains(&x) {
                known.push(x);
            }
            i += 1;
        }
        assert(mru.take(mru.len() as int) =~= mru);
        let ghost vis = current_visible@;
        let in_mru: HashSet<WindowId> = set_of(known.as_slice());
        let mut rest: Vec<WindowId> = Vec::new();
        let mut j: usize = 0;
        assert(rest@ =~= except(vis.take(0), known@));
        while j < current_visible.len()
            invariant
                j <= current_visible.len(),
                vis == current_visible@,
                forall|id: WindowId| #[trigger] in_mru@.contains(id) == known@.contains(id),
                rest@ == except(vis.take(j as int), known@),
            decreases current_visible.len() - j,
        {
            let x: WindowId = current_visible[j];
            assert(vis.take(j + 1).drop_last() =~= vis.take(j as int));
            if !in_mru.contains(&x) {
                rest.push(x);
            }
            j += 1;
        }
        assert(vis.take(vis.len() as int) =~= vis);
        let mut out: Vec<WindowId> = known;
        out.append(&mut rest);
        out
    }

    /// Start a cycle. Returns the first window to focus, or `None` if there's
    /// nothing meaningful to cycle to (fewer than two candidates).
    pub fn start_cycle(
        &mut self,
        candidates: Vec<WindowId>,
        reverse: bool,
        output: OutputId,
    ) -> (r: Option<WindowId>)
        requires
            old(self)@.wf(),
        ensures
            final(self)@.wf(),
            final(self)@.mru == old(self)@.mru,
            candidates@.len() < 2 ==> r is None && final(self)@.cycle == old(self)@.cycle,
            candidates@.len() >= 2 ==> (final(self)@.cycle matches Some(c) && c.index == step(
                0,
                candidates@.len() as int,
                reverse,
            )),
            candidates@.len() >= 2 ==> {
                let index = if reverse {
                    candidates@.len() - 1
                } else {
                    1
                };
                &&& r == Some(candidates@[index])
                &&& final(self)@.cycle == Some(
                    CycleView {
                        candidates: candidates@,
                        index,
                        started_from: Some(candidates@[0]),
                        output,
                    },
                )
            },
    {
        if candidates.len() < 2 {
            return None;
        }
        let started_from: Option<WindowId> = Some(candidates[0]);
        let index: usize = if reverse {
            candidates.len() - 1
        } else {
            1
        };
        let target: WindowId = candidates[index];
        self.cycle = Some(Cycle { candidates, index, started_from, output });
        Some(target)
    }

    /// Output the active cycle's overlay is pinned to, or `None` when no cycle
    /// is in progress.
    pub fn cycle_output(&self) -> (r: Option<OutputId>)
        ensures
            r == (match self@.cycle {
                Some(c) => Some(c.output),
                None => None,
            }),
    {
        match &self.cycle {
            Some(c) => Some(c.output),
            None => None,
        }
    }

    /// Step the cycle by one. Wraps at the ends — Tab on the last candidate
    /// goes back to the first. Returns `None` when no cycle is active.
    pub fn advance_cycle(&mut self, reverse: bool) -> (r: Option<WindowId>)
        requires
            old(self)@.wf(),
        ensures
            final(self)@.wf(),
            final(self)@ == old(self)@.advanced(reverse),
            r == final(self)@.current(),
    {
        let mut cycle: Option<Cycle> = None;
        std::mem::swap(&mut cycle, &mut self.cycle);
        match cycle {
            None => None,
            Some(mut c) => {
                let len: usize = c.candidates.len();
                c.index = if reverse {
                    if c.index == 0 {
                        len - 1
                    } else {
                        c.index - 1
                    }
                } else if c.index + 1 == len {
                    0
                } else {
                    c.index + 1
                };
                let id: WindowId = c.candidates[c.index];
                self.cycle = Some(c);
                Some(id)
            },
        }
    }

    /// The window currently previewed by the cycle, or `None` outside a cycle.
    pub fn current_cycle_window(&self) -> (r: Option<WindowId>)
        requires
            self@.wf(),
        ensures
            r == self@.current(),
    {
        match &self.cycle {
            Some(c) => Some(c.candidates[c.index]),
            None => None,
        }
    }

    /// The frozen candidate list for the active cycle, or `None` when no cycle
    /// is in progress.
    pub fn cycle_candidates(&self) -> (r: Option<&[WindowId]>)
        ensures
            match (r, self@.cycle) {
                (Some(s), Some(c)) => s@ == c.candidates,
                (None, None) => true,
                _ => false,
            },
    {
        match &self.cycle {
            Some(c) => Some(c.candidates.as_slice()),
            None => None,
        }
    }

    /// The most-recently-used window satisfying `pred`, by MRU order. Minimised
    /// windows stay in the MRU (only `forget` on close drops them), so passing
    /// an "is minimised on this workspace" predicate gives a true *recency* pick
    /// for un-minimise.
    pub fn most_recent_matching<P: Fn(WindowId) -> bool>(&self, pred: P) -> (r: Option<WindowId>)
        requires
            forall|id: WindowId| #[trigger] call_requires(pred, (id,)),
        ensures
            match r {
                Some(id) => exists|i: int|
                    {
                        &&& 0 <= i < self@.mru.len()
                        &&& #[trigger] self@.mru[i] == id
                        &&& call_ensures(pred, (id,), true)
                        &&& forall|k: int|
                            0 <= k < i ==> call_ensures(pred, (#[trigger] self@.mru[k],), false)
                    },
                None => forall|k: int|
                    0 <= k < self@.mru.len() ==> call_ensures(
                        pred,
                        (#[trigger] self@.mru[k],),
                        false,
                    ),
            },
    {
        let mut i: usize = 0;
        while i < self.mru.len()
            invariant
                i <= self.mru.len(),
                self@.mru == self.mru@,
                forall|id: WindowId| #[trigger] call_requires(pred, (id,)),
                forall|k: int|
                    0 <= k < i ==> call_ensures(pred, (#[trigger] self@.mru[k],), false),
            decreases self.mru.len() - i,
        {
            let id: WindowId = self.mru[i];
            if pred(id) {
                assert(self@.mru[i as int] == id);
                return Some(id);
            }
            i += 1;
        }
        None
    }

    /// End the cycle and promote its current selection to the MRU front.
    /// Idempotent if no cycle is active.
    pub fn commit_cycle(&mut self)
        requires
            old(self)@.wf(),
        ensures
            final(self)@.wf(),
            final(self)@.cycle is None,
            final(self)@.mru == (match old(self)@.current() {
                Some(id) => focused(old(self)@.mru, id),
                None => old(self)@.mru,
            }),
    {
        let current: Option<WindowId> = self.current_cycle_window();
        self.cycle = None;
        if let Some(id) = current {
            self.push_top(id);
            proof {
                lemma_focused(old(self)@.mru, id);
            }
        }
    }

    /// End the cycle and return the window that was focused before it began —
    /// the caller restores focus to that id. MRU isn't touched. Idempotent if
    /// no cycle is active.
    pub fn cancel_cycle(&mut self) -> (r: Option<WindowId>)
        requires
            old(self)@.wf(),
        ensures
            final(self)@.wf(),
            final(self)@.mru == old(self)@.mru,
            final(self)@.cycle is None,
            r == (match old(self)@.cycle {
                Some(c) => c.started_from,
                None => None,
            }),
    {
        let mut cycle: Option<Cycle> = None;
        std::mem::swap(&mut cycle, &mut self.cycle);
        match cycle {
            Some(c) => c.started_from,
            None => None,
        }
    }

    /// MRU snapshot, most-recent first.
    pub fn mru_snapshot(&self) -> (r: Vec<WindowId>)
        ensures
            r@ == self@.mru,
    {
        let mut r: Vec<WindowId> = Vec::new();
        let mut i: usize = 0;
        while i < self.mru.len()
            invariant
                i <= self.mru.len(),
                r@ == self.mru@.take(i as int),
            decreases self.mru.len() - i,
        {
            r.push(self.mru[i]);
            i += 1;
            assert(self.mru@.take(i as int) =~= self.mru@.take(i - 1).push(self.mru@[i - 1]));
        }
        assert(self.mru@.take(self.mru@.len() as int) =~= self.mru@);
        r
    }
}

impl Default for FocusHistory {
    fn default() -> (r: FocusHistory)
        ensures
            r@.wf(),
            r@.mru == Seq::<WindowId>::empty(),
            r@.cycle is None,
    {
        FocusHistory::new()
    }
}

// ---------------------------------------------------------------------------
// Laws
// ---------------------------------------------------------------------------

/// A step forward and a step back, in either order, end where they began.
pub proof fn law_step_round_trip(index: int, len: int, reverse: bool)
    requires
        0 <= index < len,
    ensures
        0 <= step(index, len, reverse) < len,
        step(step(index, len, reverse), len, !reverse) == index,
{
}

/// `n` steps from `index`.
pub open spec fn steps(index: int, len: int, reverse: bool, n: nat) -> int
    decreases n,
{
    if n == 0 {
        index
    } else {
        step(steps(index, len, reverse, (n - 1) as nat), len, reverse)
    }
}

proof fn lemma_steps_forward(index: int, len: int, n: nat)
    requires
        0 <= index < len,
        n <= len,
    ensures
        steps(index, len, false, n) == (if index + n < len {
            index + n
        } else {
            index + n - len
        }),
    decreases n,
{
    if n > 0 {
        lemma_steps_forward(index, len, (n - 1) as nat);
    }
}

proof fn lemma_steps_back(index: int, len: int, n: nat)
    requires
        0 <= index < len,
        n <= len,
    ensures
        steps(index, len, true, n) == (if index - n >= 0 {
            index - n
        } else {
            index - n + len
        }),
    decreases n,
{
    if n > 0 {
        lemma_steps_back(index, len, (n - 1) as nat);
    }
}

/// As many steps as there are candidates go once round the cycle.
pub proof fn law_cycle_goes_round(index: int, len: nat, reverse: bool)
    requires
        0 <= index < len,
    ensures
        steps(index, len as int, reverse, len) == index,
{
    if reverse {
        lemma_steps_back(index, len as int, len);
    } else {
        lemma_steps_forward(index, len as int, len);
    }
}

/// The history and the cycle after `n` steps with one flag.
pub open spec fn turned(v: FocusView, reverse: bool, n: nat) -> FocusView
    decreases n,
{
    if n == 0 {
        v
    } else {
        turned(v, reverse, (n - 1) as nat).advanced(reverse)
    }
}

/// What the `n`-th of these steps returns.
pub open spec fn shown(v: FocusView, reverse: bool, n: nat) -> Option<WindowId> {
    turned(v, reverse, n).current()
}

proof fn lemma_turned(v: FocusView, reverse: bool, n: nat)
    ensures
        turned(v, reverse, n).mru == v.mru,
        v.cycle is None ==> turned(v, reverse, n).cycle is None,
        v.cycle matches Some(c) ==> turned(v, reverse, n).cycle == Some(
            CycleView { index: steps(c.index, c.candidates.len() as int, reverse, n), ..c },
        ),
    decreases n,
{
    if n > 0 {
        lemma_turned(v, reverse, (n - 1) as nat);
    }
}

/// Stepping changes neither the history nor the candidates nor the output that
/// the overlay is pinned to, however often and in whatever direction.
pub proof fn law_stepping_keeps(v: FocusView, reverse: bool, n: nat)
    requires
        v.wf(),
    ensures
        turned(v, reverse, n).mru == v.mru,
        v.cycle is None <==> turned(v, reverse, n).cycle is None,
        v.cycle matches Some(c) ==> {
            &&& turned(v, reverse, n).cycle matches Some(d)
            &&& d.candidates == c.candidates
            &&& d.output == c.output
            &&& d.started_from == c.started_from
        },
{
    lemma_turned(v, reverse, n);
}

/// As many steps with one flag as there are candidates preview each candidate
/// exactly once and end where they began; a step forward and a step back, in
/// either order, end where they began, too.
pub proof fn law_full_turn(v: FocusView, reverse: bool, w: WindowId)
    requires
        v.wf(),
        v.cycle is Some,
        v.cycle->0.candidates.no_duplicates(),
        v.cycle->0.candidates.contains(w),
    ensures
        exists|k: nat|
            1 <= k <= v.cycle->0.candidates.len() && #[trigger] shown(v, reverse, k) == Some(w),
        forall|j: nat, k: nat|
            1 <= j <= v.cycle->0.candidates.len() && 1 <= k <= v.cycle->0.candidates.len()
                && #[trigger] shown(v, reverse, j) == Some(w) && #[trigger] shown(v, reverse, k)
                == Some(w) ==> j == k,
        turned(v, reverse, v.cycle->0.candidates.len()) == v,
        v.advanced(reverse).advanced(!reverse) == v,
{
    let c = v.cycle->0;
    let len = c.candidates.len() as int;
    let at = choose|i: int| 0 <= i < c.candidates.len() && c.candidates[i] == w;
    let away = if reverse {
        c.index - at
    } else {
        at - c.index
    };
    let k = if away > 0 {
        away
    } else {
        away + len
    };
    lemma_turn_index(c, reverse, k as nat);
    lemma_turned(v, reverse, k as nat);
    assert(shown(v, reverse, k as nat) == Some(w));
    assert forall|i: nat, j: nat|
        1 <= i <= len && 1 <= j <= len && #[trigger] shown(v, reverse, i) == Some(w)
            && #[trigger] shown(v, reverse, j) == Some(w) implies i == j by {
        lemma_turn_index(c, reverse, i);
        lemma_turn_index(c, reverse, j);
        lemma_turned(v, reverse, i);
        lemma_turned(v, reverse, j);
    }
    law_cycle_goes_round(c.index, c.candidates.len(), reverse);
    lemma_turned(v, reverse, c.candidates.len());
    law_step_round_trip(c.index, len, reverse);
}

/// Where a part of a turn ends.
proof fn lemma_turn_index(c: CycleView, reverse: bool, n: nat)
    requires
        0 <= c.index < c.candidates.len(),
        n <= c.candidates.len(),
    ensures
        ({
            let len = c.candidates.len() as int;
            let to = if reverse {
                c.index - n
            } else {
                c.index + n
            };
            steps(c.index, len, reverse, n) == (if to < 0 {
                to + len
            } else if to >= len {
                to - len
            } else {
                to
            })
        }),
{
    if reverse {
        lemma_steps_back(c.index, c.candidates.len() as int, n);
    } else {
        lemma_steps_forward(c.index, c.candidates.len() as int, n);
    }
}

/// Focusing a window puts it on top and keeps every other window that fits, in
/// the same order; focusing it again changes nothing.
pub proof fn law_focus_on_top(mru: Seq<WindowId>, id: WindowId)
    requires
        mru.no_duplicates(),
        mru.len() <= MRU_CAP,
    ensures
        focused(mru, id)[0] == id,
        focused(mru, id).skip(1).is_prefix_of(without(mru, id)),
        without(mru, id).len() < MRU_CAP ==> focused(mru, id).skip(1) == without(mru, id),
        focused(focused(mru, id), id) == focused(mru, id),
{
    lemma_focused(mru, id);
    let f = focused(mru, id);
    let rest = without(mru, id);
    assert(f.skip(1) =~= rest.take(f.len() - 1));
    assert(rest.take(rest.len() as int) =~= rest);
    lemma_without_first(f, id);
    assert(seq![id] + f.skip(1) =~= f);
}

proof fn lemma_without_first(s: Seq<WindowId>, id: WindowId)
    requires
        s.len() > 0,
        s[0] == id,
        s.no_duplicates(),
    ensures
        without(s, id) == s.skip(1),
    decreases s.len(),
{
    if s.len() == 1 {
        assert(s.drop_last() =~= seq![]);
        assert(without(s.drop_last(), id) =~= seq![]);
        assert(s.skip(1) =~= seq![]);
    } else {
        let t = s.drop_last();
        assert(t.no_duplicates());
        lemma_without_first(t, id);
        assert(t.skip(1).push(s.last()) =~= s.skip(1));
    }
}

/// A closed window is nowhere in the history any more.
pub proof fn law_forgotten(mru: Seq<WindowId>, id: WindowId)
    ensures
        !without(mru, id).contains(id),
        forall|x: WindowId| x != id ==> (#[trigger] without(mru, id).contains(x) <==> mru.contains(
            x,
        )),
{
    lemma_without(mru, id);
}

/// A cycle keeps previewing the same window while others close, as long as two
/// candidates are left.
pub proof fn law_cursor_keeps_window(c: CycleView, id: WindowId)
    requires
        0 <= c.index < c.candidates.len(),
        c.candidates[c.index] != id,
        c.candidates.len() >= 3,
    ensures
        cycle_without(c, id) matches Some(d) && d.candidates[d.index] == c.candidates[c.index],
{
    lemma_position(c.candidates, id, 0);
}

proof fn lemma_only_complete(s: Seq<WindowId>, keep: Seq<WindowId>, x: WindowId)
    ensures
        only(s, keep).contains(x) <==> s.contains(x) && keep.contains(x),
    decreases s.len(),
{
    if s.len() > 0 {
        let t = s.drop_last();
        lemma_only_complete(t, keep, x);
        lemma_contains_last(s, x);
        if keep.contains(s.last()) {
            let r = only(t, keep).push(s.last());
            assert(r.drop_last() =~= only(t, keep));
            lemma_contains_last(r, x);
        }
    }
}

proof fn lemma_except_complete(s: Seq<WindowId>, skip: Seq<WindowId>, x: WindowId)
    ensures
        except(s, skip).contains(x) <==> s.contains(x) && !skip.contains(x),
    decreases s.len(),
{
    if s.len() > 0 {
        let t = s.drop_last();
        lemma_except_complete(t, skip, x);
        lemma_contains_last(s, x);
        if !skip.contains(s.last()) {
            let r = except(t, skip).push(s.last());
            assert(r.drop_last() =~= except(t, skip));
            lemma_contains_last(r, x);
        }
    }
}

proof fn lemma_contains_last(s: Seq<WindowId>, x: WindowId)
    requires
        s.len() > 0,
    ensures
        s.contains(x) <==> s.drop_last().contains(x) || s.last() == x,
{
    let t = s.drop_last();
    if s.contains(x) {
        let k = choose|k: int| 0 <= k < s.len() && s[k] == x;
        if k < t.len() {
            assert(t[k] == x);
        }
    }
    if t.contains(x) {
        let k = choose|k: int| 0 <= k < t.len() && t[k] == x;
        assert(s[k] == x);
    }
    if s.last() == x {
        assert(s[s.len() - 1] == x);
    }
}

/// A cycle offers exactly the visible windows.
pub proof fn law_order_is_visible(mru: Seq<WindowId>, visible: Seq<WindowId>, x: WindowId)
    ensures
        order(mru, visible).contains(x) <==> visible.contains(x),
{
    let known = only(mru, visible);
    let rest = except(visible, known);
    lemma_only_complete(mru, visible, x);
    lemma_except_complete(visible, known, x);
    let all = known + rest;
    if known.contains(x) {
        let k = choose|k: int| 0 <= k < known.len() && known[k] == x;
        assert(all[k] == x);
    }
    if rest.contains(x) {
        let k = choose|k: int| 0 <= k < rest.len() && rest[k] == x;
        assert(all[known.len() + k] == x);
    }
    if all.contains(x) {
        let k = choose|k: int| 0 <= k < all.len() && all[k] == x;
        if k < known.len() {
            assert(known[k] == x);
        } else {
            assert(rest[k - known.len()] == x);
        }
    }
}

proof fn lemma_only_distinct(s: Seq<WindowId>, keep: Seq<WindowId>)
    requires
        s.no_duplicates(),
    ensures
        only(s, keep).no_duplicates(),
    decreases s.len(),
{
    if s.len() > 0 {
        let t = s.drop_last();
        lemma_only_distinct(t, keep);
        lemma_only_complete(t, keep, s.last());
        lemma_push_distinct(only(t, keep), s.last());
    }
}

proof fn lemma_except_distinct(s: Seq<WindowId>, skip: Seq<WindowId>)
    requires
        s.no_duplicates(),
    ensures
        except(s, skip).no_duplicates(),
    decreases s.len(),
{
    if s.len() > 0 {
        let t = s.drop_last();
        lemma_except_distinct(t, skip);
        lemma_except_complete(t, skip, s.last());
        lemma_push_distinct(except(t, skip), s.last());
    }
}

proof fn lemma_push_distinct(s: Seq<WindowId>, x: WindowId)
    requires
        s.no_duplicates(),
    ensures
        !s.contains(x) ==> s.push(x).no_duplicates(),
{
    if !s.contains(x) {
        let r = s.push(x);
        assert forall|i: int, j: int| 0 <= i < r.len() && 0 <= j < r.len() && i != j implies r[i]
            != r[j] by {
            if i < s.len() {
                assert(s.contains(s[i]));
            }
            if j < s.len() {
                assert(s.contains(s[j]));
            }
        }
    }
}

/// A cycle offers no window twice, so that a full turn shows each of them once.
pub proof fn law_order_is_distinct(mru: Seq<WindowId>, visible: Seq<WindowId>)
    requires
        mru.no_duplicates(),
        visible.no_duplicates(),
    ensures
        order(mru, visible).no_duplicates(),
{
    let known = only(mru, visible);
    let rest = except(visible, known);
    lemma_only_distinct(mru, visible);
    lemma_except_distinct(visible, known);
    let all = known + rest;
    assert forall|i: int, j: int| 0 <= i < all.len() && 0 <= j < all.len() && i != j implies all[i]
        != all[j] by {
        if i < known.len() && j >= known.len() {
            lemma_except_complete(visible, known, all[j]);
            assert(rest[j - known.len()] == all[j]);
            assert(known[i] == all[i]);
        } else if j < known.len() && i >= known.len() {
            lemma_except_complete(visible, known, all[i]);
            assert(rest[i - known.len()] == all[i]);
            assert(known[j] == all[j]);
        }
    }
}

/// A step forward goes one candidate on and one back goes one back; behind the last comes
/// the first, and before the first the last.
pub proof fn law_steps(i: int, len: int)
    requires
        0 <= i < len,
        len >= 2,
    ensures
        i + 1 < len ==> step(i, len, false) == i + 1,
        step(len - 1, len, false) == 0,
        i > 0 ==> step(i, len, true) == i - 1,
        step(0, len, true) == len - 1,
{
}

/// The history holds the 256 windows that were focused last; the most recent is first.
pub proof fn law_history(mru: Seq<WindowId>, id: WindowId)
    ensures
        focused(mru, id).len() > 0,
        focused(mru, id)[0] == id,
        focused(mru, id).len() <= 256,
        mru.len() < 256 && !mru.contains(id) ==> focused(mru, id).len() == mru.len() + 1,
{
    lemma_all_kept(mru, id);
}

proof fn lemma_all_kept(s: Seq<WindowId>, id: WindowId)
    ensures
        !s.contains(id) ==> without(s, id) == s,
    decreases s.len(),
{
    if !s.contains(id) && s.len() > 0 {
        let t = s.drop_last();
        assert(!t.contains(id)) by {
            if t.contains(id) {
                let k = choose|k: int| 0 <= k < t.len() && t[k] == id;
                assert(s[k] == id);
            }
        }
        assert(s.contains(s.last()));
        lemma_all_kept(t, id);
        assert(t.push(s.last()) =~= s);
    } else if s.len() == 0 {
        assert(without(s, id) =~= s);
    }
}

} // verus!
