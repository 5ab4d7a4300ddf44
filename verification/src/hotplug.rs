//! Connector hot-plug ↔ window manager bridge.
//!
//! The display backend only says that something about its connectors changed.
//! This module turns a flat list of currently connected connectors into the
//! changes that keep the [`WindowManager`] in step:
//!
//! * a brand-new connector becomes a new output;
//! * a connector that vanished takes its output away;
//! * a connector whose mode changed since the last reconcile gives its output
//!   new bounds.
//!
//! [`OutputRegistry`] remembers which output belongs to which connector.

use std::collections::{HashMap, HashSet};
use vstd::prelude::*;

use crate::tables::keys_of;
use crate::wm::{
    law_output_added, law_output_removed, law_output_resized, lemma_output_index, OutputId, Rect,
    WindowManager, WmError, WmView,
};

verus! {

broadcast use vstd::std_specs::hash::group_hash_axioms;

/// One row in a hot-plug snapshot. `handle` is the connector's DRM id; `bounds`
/// is the connector's current mode.
#[derive(Debug, Clone, Copy, PartialEq, Eq, Structural)]
pub struct ConnectorSnapshot {
    pub handle: u32,
    pub bounds: Rect,
}

/// What [`OutputRegistry::reconcile`] actually did. Each variant carries both
/// the DRM connector handle and the [`OutputId`] so callers can correlate
/// without a reverse lookup.
#[derive(Debug, Clone, Copy, PartialEq, Eq, Structural)]
pub enum HotplugChange {
    Added { connector: u32, output: OutputId },
    Removed { connector: u32, output: OutputId },
    Resized { connector: u32, output: OutputId },
}

impl HotplugChange {
    pub open spec fn output_spec(self) -> OutputId {
        match self {
            HotplugChange::Added { connector, output } => output,
            HotplugChange::Removed { connector, output } => output,
            HotplugChange::Resized { connector, output } => output,
        }
    }

    pub open spec fn connector_spec(self) -> u32 {
        match self {
            HotplugChange::Added { connector, output } => connector,
            HotplugChange::Removed { connector, output } => connector,
            HotplugChange::Resized { connector, output } => connector,
        }
    }

    pub fn output(&self) -> (r: OutputId)
        ensures
            r == self.output_spec(),
    {
        match *self {
            HotplugChange::Added { connector: _, output } => output,
            HotplugChange::Removed { connector: _, output } => output,
            HotplugChange::Resized { connector: _, output } => output,
        }
    }

    pub fn connector(&self) -> (r: u32)
        ensures
            r == self.connector_spec(),
    {
        match *self {
            HotplugChange::Added { connector, output: _ } => connector,
            HotplugChange::Removed { connector, output: _ } => connector,
            HotplugChange::Resized { connector, output: _ } => connector,
        }
    }
}

/// Connector handles and their outputs.
pub type Bindings = Map<u32, OutputId>;

/// The output of a connector.
pub open spec fn lookup(b: Bindings, h: u32) -> Option<OutputId> {
    if b.contains_key(h) {
        Some(b[h])
    } else {
        None
    }
}

/// `connector::Handle (u32) → OutputId` mapping. The registry remembers which
/// outputs it handed out, so a later `reconcile` can tell a new connector from
/// a monitor it already knows, slightly resized.
pub struct OutputRegistry {
    by_connector: HashMap<u32, OutputId>,
}

impl View for OutputRegistry {
    type V = Bindings;

    closed spec fn view(&self) -> Bindings {
        self.by_connector@
    }
}

/// Everything that a reconcile works on.
pub struct Hotplug {
    pub bindings: Bindings,
    pub wm: WmView,
    pub changes: Seq<HotplugChange>,
}

pub open spec fn snapshot_has(s: Seq<ConnectorSnapshot>, h: u32) -> bool {
    exists|i: int| 0 <= i < s.len() && (#[trigger] s[i]).handle == h
}

/// Whether a connector is bound that the snapshot lacks.
pub open spec fn is_gone(b: Bindings, s: Seq<ConnectorSnapshot>, h: u32) -> bool {
    b.contains_key(h) && !snapshot_has(s, h)
}

/// The bound handles, from `h` on, that the snapshot lacks, in ascending order.
pub open spec fn gone_from(b: Bindings, s: Seq<ConnectorSnapshot>, h: int) -> Seq<u32>
    decreases u32::MAX + 1 - h,
{
    if h < 0 || h > u32::MAX {
        seq![]
    } else if is_gone(b, s, h as u32) {
        seq![h as u32] + gone_from(b, s, h + 1)
    } else {
        gone_from(b, s, h + 1)
    }
}

/// A connector is gone: its output goes too. The last output stays, and with it
/// the binding, so that plugging the monitor in again is a change of bounds.
pub open spec fn drop_connector(st: Hotplug, h: u32) -> Hotplug {
    match lookup(st.bindings, h) {
        None => st,
        Some(o) => if !st.wm.has(o) {
            Hotplug { bindings: st.bindings.remove(h), ..st }
        } else if st.wm.outputs.len() == 1 {
            st
        } else {
            Hotplug {
                bindings: st.bindings.remove(h),
                wm: st.wm.without_output(o),
                changes: st.changes.push(HotplugChange::Removed { connector: h, output: o }),
            }
        },
    }
}

/// A connector that is not bound gets an output.
pub open spec fn add_connector(st: Hotplug, s: ConnectorSnapshot) -> Hotplug {
    if st.bindings.contains_key(s.handle) {
        st
    } else {
        Hotplug {
            bindings: st.bindings.insert(s.handle, st.wm.next),
            wm: st.wm.with_output(s.bounds),
            changes: st.changes.push(
                HotplugChange::Added { connector: s.handle, output: st.wm.next },
            ),
        }
    }
}

/// A bound connector with other bounds than its output changes the output.
pub open spec fn resize_connector(st: Hotplug, s: ConnectorSnapshot) -> Hotplug {
    match lookup(st.bindings, s.handle) {
        Some(o) => if st.wm.has(o) && st.wm.get(o).bounds != s.bounds {
            Hotplug {
                bindings: st.bindings,
                wm: st.wm.with_bounds(o, s.bounds),
                changes: st.changes.push(
                    HotplugChange::Resized { connector: s.handle, output: o },
                ),
            }
        } else {
            st
        },
        None => st,
    }
}

pub open spec fn drop_all(st: Hotplug, gone: Seq<u32>, n: int) -> Hotplug
    decreases n,
{
    if n <= 0 {
        st
    } else {
        drop_connector(drop_all(st, gone, n - 1), gone[n - 1])
    }
}

pub open spec fn add_all(st: Hotplug, s: Seq<ConnectorSnapshot>, n: int) -> Hotplug
    decreases n,
{
    if n <= 0 {
        st
    } else {
        add_connector(add_all(st, s, n - 1), s[n - 1])
    }
}

pub open spec fn resize_all(st: Hotplug, s: Seq<ConnectorSnapshot>, n: int) -> Hotplug
    decreases n,
{
    if n <= 0 {
        st
    } else {
        resize_connector(resize_all(st, s, n - 1), s[n - 1])
    }
}

/// Where `x` goes in a list sorted by handle: behind everything that is not
/// greater.
pub open spec fn sort_slot(list: Seq<ConnectorSnapshot>, x: ConnectorSnapshot, i: int) -> int
    decreases list.len() - i,
{
    if i < 0 || i >= list.len() || x.handle < list[i].handle {
        i
    } else {
        sort_slot(list, x, i + 1)
    }
}

/// The first `n` rows by ascending handle; rows with one handle keep their
/// order.
pub open spec fn by_handle(s: Seq<ConnectorSnapshot>, n: int) -> Seq<ConnectorSnapshot>
    decreases n,
{
    if n <= 0 {
        seq![]
    } else {
        let list = by_handle(s, n - 1);
        list.insert(sort_slot(list, s[n - 1], 0), s[n - 1])
    }
}

/// What is left once the connectors that the snapshot lacks are gone.
pub open spec fn after_drops(b: Bindings, wm: WmView, s: Seq<ConnectorSnapshot>) -> Hotplug {
    let gone = gone_from(b, s, 0);
    drop_all(Hotplug { bindings: b, wm, changes: seq![] }, gone, gone.len() as int)
}

/// What a snapshot changes: first the connectors that are gone, then the new
/// ones, then the resized ones, each by ascending handle.
pub open spec fn reconciled(b: Bindings, wm: WmView, s: Seq<ConnectorSnapshot>) -> Hotplug {
    let rows = by_handle(s, s.len() as int);
    let added = add_all(after_drops(b, wm, s), rows, rows.len() as int);
    resize_all(added, rows, rows.len() as int)
}

/// The handles of a snapshot.
fn handles_of(snapshots: &[ConnectorSnapshot]) -> (r: HashSet<u32>)
    ensures
        forall|h: u32| #[trigger] r@.contains(h) == snapshot_has(snapshots@, h),
{
    let mut r: HashSet<u32> = HashSet::new();
    let mut i: usize = 0;
    while i < snapshots.len()
        invariant
            i <= snapshots.len(),
            forall|k: int| 0 <= k < i ==> r@.contains((#[trigger] snapshots@[k]).handle),
            forall|h: u32| #[trigger] r@.contains(h) ==> snapshot_has(snapshots@, h),
        decreases snapshots.len() - i,
    {
        r.insert(snapshots[i].handle);
        assert(snapshot_has(snapshots@, snapshots@[i as int].handle));
        i += 1;
    }
    r
}

/// Whether each handle is greater than the ones before it.
spec fn ascending(v: Seq<u32>) -> bool {
    forall|i: int, j: int| 0 <= i < j < v.len() ==> #[trigger] v[i] < #[trigger] v[j]
}

proof fn lemma_gone_from(b: Bindings, s: Seq<ConnectorSnapshot>, h: int)
    requires
        0 <= h,
    ensures
        ascending(gone_from(b, s, h)),
        forall|g: u32| #[trigger]
            gone_from(b, s, h).contains(g) <==> h <= g && is_gone(b, s, g),
    decreases u32::MAX + 1 - h,
{
    if h <= u32::MAX {
        lemma_gone_from(b, s, h + 1);
        let rest = gone_from(b, s, h + 1);
        let all = gone_from(b, s, h);
        if is_gone(b, s, h as u32) {
            assert(all[0] == h as u32);
            assert forall|i: int| 0 < i < all.len() implies #[trigger] all[i] == rest[i - 1]
                && all[i] > h by {
                assert(rest.contains(rest[i - 1]));
            }
            assert forall|g: u32| #[trigger] all.contains(g) <==> h <= g && is_gone(b, s, g) by {
                if rest.contains(g) {
                    let k = choose|k: int| 0 <= k < rest.len() && rest[k] == g;
                    assert(all[k + 1] == g);
                }
                if all.contains(g) && g != h {
                    let k = choose|k: int| 0 <= k < all.len() && all[k] == g;
                    assert(rest[k - 1] == g);
                }
            }
        } else {
            assert forall|g: u32| #[trigger] all.contains(g) <==> h <= g && is_gone(b, s, g) by {
                assert(rest.contains(g) <==> h + 1 <= g && is_gone(b, s, g));
            }
        }
    }
}

/// Two ascending lists of the same handles are one.
proof fn lemma_same_list(v: Seq<u32>, w: Seq<u32>)
    requires
        ascending(v),
        ascending(w),
        forall|g: u32| #[trigger] v.contains(g) <==> w.contains(g),
    ensures
        v == w,
    decreases v.len(),
{
    if v.len() == 0 {
        if w.len() > 0 {
            assert(w.contains(w[0]));
            assert(v.contains(w[0]));
        }
    } else {
        assert(v.contains(v.last()));
        let i = choose|i: int| 0 <= i < w.len() && w[i] == v.last();
        assert(w.contains(w.last()));
        assert(v.contains(w.last()));
        let j = choose|j: int| 0 <= j < v.len() && v[j] == w.last();
        assert(v[j] <= v.last() && w[i] <= w.last());
        let a = v.drop_last();
        let b = w.drop_last();
        assert forall|g: u32| #[trigger] a.contains(g) <==> b.contains(g) by {
            if a.contains(g) {
                let k = choose|k: int| 0 <= k < a.len() && a[k] == g;
                assert(v[k] == g && g < v.last());
                assert(v.contains(g));
                let m = choose|m: int| 0 <= m < w.len() && w[m] == g;
                assert(b[m] == g);
            }
            if b.contains(g) {
                let k = choose|k: int| 0 <= k < b.len() && b[k] == g;
                assert(w[k] == g && g < w.last());
                assert(w.contains(g) && v.contains(g));
                let m = choose|m: int| 0 <= m < v.len() && v[m] == g;
                assert(a[m] == g);
            }
        }
        lemma_same_list(a, b);
        assert(v =~= a.push(v.last()));
        assert(w =~= b.push(w.last()));
    }
}

/// Put a handle into an ascending list that lacks it.
fn file_handle(list: &mut Vec<u32>, h: u32)
    requires
        ascending(old(list)@),
        !old(list)@.contains(h),
    ensures
        ascending(final(list)@),
        forall|g: u32| #[trigger]
            final(list)@.contains(g) <==> g == h || old(list)@.contains(g),
{
    let ghost before = list@;
    let mut at: usize = 0;
    while at < list.len() && list[at] < h
        invariant
            at <= list.len(),
            forall|k: int| 0 <= k < at ==> #[trigger] list@[k] < h,
        decreases list.len() - at,
    {
        at += 1;
    }
    proof {
        assert forall|k: int| at <= k < before.len() implies #[trigger] before[k] > h by {
            assert(before.contains(before[at as int]));
        }
    }
    list.insert(at, h);
    proof {
        assert(list@[at as int] == h);
        assert forall|g: u32| #[trigger] list@.contains(g) <==> g == h || before.contains(g) by {
            if before.contains(g) {
                let k = choose|k: int| 0 <= k < before.len() && before[k] == g;
                let kk = if k < at {
                    k
                } else {
                    k + 1
                };
                assert(list@[kk] == g);
            }
            if list@.contains(g) && g != h {
                let k = choose|k: int| 0 <= k < list@.len() && list@[k] == g;
                let kk = if k < at {
                    k
                } else {
                    k - 1
                };
                assert(before[kk] == g);
            }
        }
    }
}

fn sorted(snapshots: &[ConnectorSnapshot]) -> (r: Vec<ConnectorSnapshot>)
    ensures
        r@ == by_handle(snapshots@, snapshots@.len() as int),
        r.len() == snapshots.len(),
{
    let mut r: Vec<ConnectorSnapshot> = Vec::new();
    let mut i: usize = 0;
    assert(r@ =~= seq![]);
    while i < snapshots.len()
        invariant
            i <= snapshots.len(),
            r.len() == i,
            r@ == by_handle(snapshots@, i as int),
        decreases snapshots.len() - i,
    {
        let x: ConnectorSnapshot = snapshots[i];
        let mut at: usize = 0;
        while at < r.len() && r[at].handle <= x.handle
            invariant
                at <= r.len(),
                sort_slot(r@, x, 0) == sort_slot(r@, x, at as int),
            decreases r.len() - at,
        {
            at += 1;
        }
        r.insert(at, x);
        i += 1;
    }
    r
}

impl OutputRegistry {
    pub fn new() -> (r: OutputRegistry)
        ensures
            r@ == Map::<u32, OutputId>::empty(),
    {
        OutputRegistry { by_connector: HashMap::new() }
    }

    /// Bind the registry's notion of "this connector" to an OutputId that was
    /// created outside the registry (typically the primary output).
    ///
    /// Without this, a later unplug of the primary connector would be a no-op —
    /// the registry wouldn't know which OutputId to remove.
    pub fn adopt(&mut self, connector_handle: u32, output: OutputId)
        ensures
            final(self)@ == old(self)@.insert(connector_handle, output),
    {
        self.by_connector.insert(connector_handle, output);
    }

    /// Whether the registry has a binding for `connector_handle`.
    pub fn knows(&self, connector_handle: u32) -> (r: bool)
        ensures
            r == self@.contains_key(connector_handle),
    {
        self.by_connector.contains_key(&connector_handle)
    }

    /// The OutputId currently bound to `connector_handle`, if any.
    pub fn output_for(&self, connector_handle: u32) -> (r: Option<OutputId>)
        ensures
            r == lookup(self@, connector_handle),
    {
        match self.by_connector.get(&connector_handle) {
            Some(o) => Some(*o),
            None => None,
        }
    }

    /// Number of connectors the registry is currently tracking.
    pub fn len(&self) -> (r: usize)
        ensures
            r == self@.len(),
    {
        self.by_connector.len()
    }

    pub fn is_empty(&self) -> (r: bool)
        ensures
            r == (self@.len() == 0),
    {
        self.by_connector.len() == 0
    }

    fn gone(&self, snapshots: &[ConnectorSnapshot]) -> (r: Vec<u32>)
        ensures
            r@ == gone_from(self@, snapshots@, 0),
    {
        let now: HashSet<u32> = handles_of(snapshots);
        let keys: Vec<u32> = keys_of(&self.by_connector);
        let mut r: Vec<u32> = Vec::new();
        let mut i: usize = 0;
        while i < keys.len()
            invariant
                i <= keys.len(),
                keys@.no_duplicates(),
                forall|h: u32| #[trigger] now@.contains(h) == snapshot_has(snapshots@, h),
                ascending(r@),
                forall|g: u32| #[trigger]
                    r@.contains(g) <==> keys@.take(i as int).contains(g) && !snapshot_has(
                        snapshots@,
                        g,
                    ),
            decreases keys.len() - i,
        {
            let h: u32 = keys[i];
            let ghost done = keys@.take(i as int);
            let ghost more = keys@.take(i + 1);
            proof {
                assert(more =~= done.push(h));
                assert forall|g: u32| #[trigger] more.contains(g) <==> g == h || done.contains(
                    g,
                ) by {
                    if done.contains(g) {
                        let k = choose|k: int| 0 <= k < done.len() && done[k] == g;
                        assert(more[k] == g);
                    }
                    assert(more[i as int] == h);
                }
                if done.contains(h) {
                    let k = choose|k: int| 0 <= k < done.len() && done[k] == h;
                    assert(keys@[k] == keys@[i as int]);
                }
            }
            if !now.contains(&h) {
                file_handle(&mut r, h);
            }
            i += 1;
        }
        proof {
            assert(keys@.take(keys@.len() as int) =~= keys@);
            assert forall|g: u32| #[trigger] keys@.contains(g) == self@.contains_key(g) by {
                assert(keys@.to_set().contains(g) == self@.dom().contains(g));
            }
            lemma_gone_from(self@, snapshots@, 0);
            lemma_same_list(r@, gone_from(self@, snapshots@, 0));
        }
        r
    }

    /// Apply a fresh connector snapshot to the WM. Returns the list of changes
    /// that took effect, in the order they were applied — removes first (so a
    /// re-plug of the same connector handle into a fresh slot reads cleanly in
    /// logs), then adds, then resizes.
    pub fn reconcile(
        &mut self,
        snapshots: &[ConnectorSnapshot],
        wm: &mut WindowManager,
    ) -> (r: Vec<HotplugChange>)
        requires
            old(wm)@.wf(),
            old(wm)@.next + snapshots@.len() <= u64::MAX,
        ensures
            final(wm)@.wf(),
            ({
                let done = reconciled(old(self)@, old(wm)@, snapshots@);
                &&& final(self)@ == done.bindings
                &&& final(wm)@ == done.wm
                &&& r@ == done.changes
            }),
    {
        let mut changes: Vec<HotplugChange> = Vec::new();
        let ghost start = Hotplug { bindings: self@, wm: wm@, changes: seq![] };
        assert(changes@ =~= seq![]);

        // Removes.
        let gone: Vec<u32> = self.gone(snapshots);
        let mut i: usize = 0;
        while i < gone.len()
            invariant
                i <= gone.len(),
                wm@.wf(),
                wm@.next == start.wm.next,
                (Hotplug { bindings: self@, wm: wm@, changes: changes@ }) == drop_all(
                    start,
                    gone@,
                    i as int,
                ),
            decreases gone.len() - i,
        {
            let h: u32 = gone[i];
            if let Some(oid) = self.output_for(h) {
                match wm.remove_output(oid) {
                    Ok(()) => {
                        self.by_connector.remove(&h);
                        changes.push(HotplugChange::Removed { connector: h, output: oid });
                    },
                    Err(WmError::LastOutput) => {
                        // The only monitor was unplugged. Keep the mapping so
                        // that plugging it in again is a bounds update.
                    },
                    Err(WmError::UnknownOutput) => {
                        self.by_connector.remove(&h);
                    },
                }
            }
            i += 1;
        }

        // Adds.
        let ghost dropped = drop_all(start, gone@, gone@.len() as int);
        let rows: Vec<ConnectorSnapshot> = sorted(snapshots);
        let mut i: usize = 0;
        while i < rows.len()
            invariant
                i <= rows.len(),
                wm@.wf(),
                wm@.next <= dropped.wm.next + i,
                dropped.wm.next + rows.len() <= u64::MAX,
                (Hotplug { bindings: self@, wm: wm@, changes: changes@ }) == add_all(
                    dropped,
                    rows@,
                    i as int,
                ),
            decreases rows.len() - i,
        {
            let s: ConnectorSnapshot = rows[i];
            if !self.knows(s.handle) {
                let oid: OutputId = wm.add_output(s.bounds);
                self.adopt(s.handle, oid);
                changes.push(HotplugChange::Added { connector: s.handle, output: oid });
            }
            i += 1;
        }

        // Resizes. Existing windows are not moved; that is the shell's job.
        let ghost added = add_all(dropped, rows@, rows@.len() as int);
        let mut i: usize = 0;
        while i < rows.len()
            invariant
                i <= rows.len(),
                wm@.wf(),
                (Hotplug { bindings: self@, wm: wm@, changes: changes@ }) == resize_all(
                    added,
                    rows@,
                    i as int,
                ),
            decreases rows.len() - i,
        {
            let s: ConnectorSnapshot = rows[i];
            if let Some(oid) = self.output_for(s.handle) {
                if let Some(o) = wm.output(oid) {
                    if o.bounds != s.bounds {
                        let done = wm.set_output_bounds(oid, s.bounds);
                        if done.is_ok() {
                            changes.push(
                                HotplugChange::Resized { connector: s.handle, output: oid },
                            );
                        }
                    }
                }
            }
            i += 1;
        }
        changes
    }
}

impl Default for OutputRegistry {
    fn default() -> (r: OutputRegistry)
        ensures
            r@ == Map::<u32, OutputId>::empty(),
    {
        OutputRegistry::new()
    }
}

// ---------------------------------------------------------------------------
// Laws
// ---------------------------------------------------------------------------

proof fn lemma_sort_slot(list: Seq<ConnectorSnapshot>, x: ConnectorSnapshot, i: int)
    requires
        0 <= i <= list.len(),
    ensures
        i <= sort_slot(list, x, i) <= list.len(),
    decreases list.len() - i,
{
    if i < list.len() && x.handle >= list[i].handle {
        lemma_sort_slot(list, x, i + 1);
    }
}

proof fn lemma_by_handle_len(s: Seq<ConnectorSnapshot>, n: int)
    requires
        0 <= n <= s.len(),
    ensures
        by_handle(s, n).len() == n,
    decreases n,
{
    if n > 0 {
        lemma_by_handle_len(s, n - 1);
        lemma_sort_slot(by_handle(s, n - 1), s[n - 1], 0);
    }
}

/// Where a sorted row comes from.
proof fn lemma_row_from(s: Seq<ConnectorSnapshot>, n: int, i: int) -> (k: int)
    requires
        0 <= i < n <= s.len(),
    ensures
        0 <= k < n,
        s[k] == by_handle(s, n)[i],
    decreases n,
{
    let list = by_handle(s, n - 1);
    lemma_by_handle_len(s, n - 1);
    lemma_sort_slot(list, s[n - 1], 0);
    let at = sort_slot(list, s[n - 1], 0);
    if i == at {
        n - 1
    } else if i < at {
        lemma_row_from(s, n - 1, i)
    } else {
        lemma_row_from(s, n - 1, i - 1)
    }
}

/// Where a row goes.
proof fn lemma_row_to(s: Seq<ConnectorSnapshot>, n: int, k: int) -> (i: int)
    requires
        0 <= k < n <= s.len(),
    ensures
        0 <= i < n,
        by_handle(s, n)[i] == s[k],
    decreases n,
{
    let list = by_handle(s, n - 1);
    lemma_by_handle_len(s, n - 1);
    lemma_sort_slot(list, s[n - 1], 0);
    let at = sort_slot(list, s[n - 1], 0);
    if k == n - 1 {
        at
    } else {
        let j = lemma_row_to(s, n - 1, k);
        if j < at {
            j
        } else {
            j + 1
        }
    }
}

proof fn lemma_none_gone(b: Bindings, s: Seq<ConnectorSnapshot>)
    requires
        forall|h: u32| #[trigger] b.contains_key(h) ==> snapshot_has(s, h),
    ensures
        gone_from(b, s, 0) == Seq::<u32>::empty(),
{
    let gone = gone_from(b, s, 0);
    lemma_gone_from(b, s, 0);
    if gone.len() > 0 {
        assert(gone.contains(gone[0]));
    }
}

/// Whether a connector is bound to an output that has just its bounds.
pub open spec fn in_step(b: Bindings, wm: WmView, s: ConnectorSnapshot) -> bool {
    lookup(b, s.handle) matches Some(o) && wm.has(o) && wm.get(o).bounds == s.bounds
}

/// Whether a connector is bound, and its output, where there is one, has just
/// its bounds.
pub open spec fn quiet(b: Bindings, wm: WmView, s: ConnectorSnapshot) -> bool {
    lookup(b, s.handle) matches Some(o) && (wm.has(o) ==> wm.get(o).bounds == s.bounds)
}

proof fn lemma_nothing_to_do(st: Hotplug, rows: Seq<ConnectorSnapshot>, n: int)
    requires
        0 <= n <= rows.len(),
        forall|i: int| 0 <= i < rows.len() ==> quiet(st.bindings, st.wm, #[trigger] rows[i]),
    ensures
        add_all(st, rows, n) == st,
        resize_all(st, rows, n) == st,
    decreases n,
{
    if n > 0 {
        lemma_nothing_to_do(st, rows, n - 1);
        assert(quiet(st.bindings, st.wm, rows[n - 1]));
    }
}

proof fn lemma_quiet_rows(b: Bindings, wm: WmView, s: Seq<ConnectorSnapshot>)
    requires
        forall|i: int| 0 <= i < s.len() ==> quiet(b, wm, #[trigger] s[i]),
    ensures
        by_handle(s, s.len() as int).len() == s.len(),
        forall|i: int|
            0 <= i < s.len() ==> quiet(b, wm, #[trigger] by_handle(s, s.len() as int)[i]),
{
    let rows = by_handle(s, s.len() as int);
    lemma_by_handle_len(s, s.len() as int);
    assert forall|i: int| 0 <= i < rows.len() implies quiet(b, wm, #[trigger] rows[i]) by {
        let k = lemma_row_from(s, s.len() as int, i);
        assert(quiet(b, wm, s[k]));
    }
}

/// A snapshot that matches what is known already changes nothing.
pub proof fn law_matching_snapshot(b: Bindings, wm: WmView, s: Seq<ConnectorSnapshot>)
    requires
        forall|h: u32| #[trigger] b.contains_key(h) ==> snapshot_has(s, h),
        forall|i: int| 0 <= i < s.len() ==> quiet(b, wm, #[trigger] s[i]),
    ensures
        reconciled(b, wm, s) == (Hotplug { bindings: b, wm, changes: seq![] }),
{
    lemma_none_gone(b, s);
    lemma_quiet_rows(b, wm, s);
    let start = Hotplug { bindings: b, wm, changes: seq![] };
    lemma_nothing_to_do(start, by_handle(s, s.len() as int), s.len() as int);
}

proof fn lemma_drop_keeps_last(st: Hotplug, gone: Seq<u32>, n: int, h: u32, o: OutputId)
    requires
        0 <= n <= gone.len(),
        st.wm.outputs.len() == 1,
        st.wm.has(o),
        lookup(st.bindings, h) == Some(o),
    ensures
        drop_all(st, gone, n).wm == st.wm,
        drop_all(st, gone, n).changes == st.changes,
        lookup(drop_all(st, gone, n).bindings, h) == Some(o),
    decreases n,
{
    if n > 0 {
        lemma_drop_keeps_last(st, gone, n - 1, h, o);
    }
}

/// Unplugging the only monitor changes nothing: its output stays and so does
/// its binding, so that plugging it in again is no new output.
pub proof fn law_last_output_survives(b: Bindings, wm: WmView, h: u32, o: OutputId)
    requires
        wm.outputs.len() == 1,
        wm.has(o),
        lookup(b, h) == Some(o),
    ensures
        ({
            let done = reconciled(b, wm, seq![]);
            &&& done.wm == wm
            &&& done.changes == Seq::<HotplugChange>::empty()
            &&& lookup(done.bindings, h) == Some(o)
        }),
{
    let start = Hotplug { bindings: b, wm, changes: seq![] };
    let gone = gone_from(b, seq![], 0);
    lemma_drop_keeps_last(start, gone, gone.len() as int, h, o);
}

proof fn lemma_added_bound(st: Hotplug, rows: Seq<ConnectorSnapshot>, n: int)
    requires
        0 <= n <= rows.len(),
    ensures
        forall|i: int|
            0 <= i < n ==> lookup(
                add_all(st, rows, n).bindings,
                (#[trigger] rows[i]).handle,
            ) is Some,
    decreases n,
{
    if n > 0 {
        lemma_added_bound(st, rows, n - 1);
    }
}

proof fn lemma_resize_keeps_bindings(st: Hotplug, rows: Seq<ConnectorSnapshot>, n: int)
    requires
        0 <= n <= rows.len(),
    ensures
        resize_all(st, rows, n).bindings == st.bindings,
    decreases n,
{
    if n > 0 {
        lemma_resize_keeps_bindings(st, rows, n - 1);
    }
}

/// Every connector of the snapshot is bound to an output afterwards.
pub proof fn law_connected_are_bound(b: Bindings, wm: WmView, s: Seq<ConnectorSnapshot>, k: int)
    requires
        0 <= k < s.len(),
    ensures
        lookup(reconciled(b, wm, s).bindings, s[k].handle) is Some,
{
    let start = Hotplug { bindings: b, wm, changes: seq![] };
    let gone = gone_from(b, s, 0);
    let rows = by_handle(s, s.len() as int);
    let dropped = drop_all(start, gone, gone.len() as int);
    lemma_by_handle_len(s, s.len() as int);
    lemma_added_bound(dropped, rows, rows.len() as int);
    lemma_resize_keeps_bindings(
        add_all(dropped, rows, rows.len() as int),
        rows,
        rows.len() as int,
    );
    let i = lemma_row_to(s, s.len() as int, k);
    assert(rows[i].handle == s[k].handle);
}

/// Whether every bound connector has an output, and no two the same.
pub open spec fn linked(b: Bindings, wm: WmView) -> bool {
    &&& forall|h: u32| #[trigger] lookup(b, h) matches Some(o) ==> wm.has(o)
    &&& forall|g: u32, h: u32|
        g != h && #[trigger] lookup(b, g) is Some ==> lookup(b, g) != #[trigger] lookup(b, h)
}

/// Bindings and outputs that a reconcile can start from, and leaves behind.
pub open spec fn consistent(b: Bindings, wm: WmView) -> bool {
    wm.wf() && linked(b, wm)
}

proof fn lemma_drop_one(st: Hotplug, h: u32)
    requires
        consistent(st.bindings, st.wm),
    ensures
        ({
            let after = drop_connector(st, h);
            &&& consistent(after.bindings, after.wm)
            &&& after.wm.next == st.wm.next
            &&& after.wm.outputs.len() <= st.wm.outputs.len()
            &&& lookup(after.bindings, h) is None || after.wm.outputs.len() == 1
            &&& forall|g: u32| #[trigger]
                lookup(after.bindings, g) is None || lookup(after.bindings, g) == lookup(
                    st.bindings,
                    g,
                )
        }),
{
    let after = drop_connector(st, h);
    assert forall|g: u32| g != h implies #[trigger] lookup(after.bindings, g) == lookup(
        st.bindings,
        g,
    ) by {}
    match lookup(st.bindings, h) {
        None => {},
        Some(o) => {
            assert(st.wm.has(o));
            if st.wm.outputs.len() > 1 {
                law_output_removed(st.wm, o, o);
                lemma_output_index(st.wm.outputs, o, 0);
                assert forall|g: u32| #[trigger] lookup(after.bindings, g) matches Some(
                    p,
                ) ==> after.wm.has(p) by {
                    if g != h && lookup(after.bindings, g) is Some {
                        let p = lookup(after.bindings, g)->0;
                        assert(lookup(st.bindings, g) == Some(p));
                        law_output_removed(st.wm, o, p);
                    }
                }
            }
        },
    }
}

proof fn lemma_drop_sync(st: Hotplug, gone: Seq<u32>, n: int)
    requires
        consistent(st.bindings, st.wm),
        0 <= n <= gone.len(),
    ensures
        ({
            let after = drop_all(st, gone, n);
            &&& consistent(after.bindings, after.wm)
            &&& after.wm.next == st.wm.next
            &&& forall|k: int|
                0 <= k < n ==> lookup(after.bindings, #[trigger] gone[k]) is None
                    || after.wm.outputs.len() == 1
        }),
    decreases n,
{
    if n > 0 {
        lemma_drop_sync(st, gone, n - 1);
        let before = drop_all(st, gone, n - 1);
        lemma_drop_one(before, gone[n - 1]);
        let after = drop_all(st, gone, n);
        assert forall|k: int| 0 <= k < n implies lookup(after.bindings, #[trigger] gone[k]) is None
            || after.wm.outputs.len() == 1 by {
            if k < n - 1 {
                assert(lookup(before.bindings, gone[k]) is None || before.wm.outputs.len() == 1);
                assert(after.wm.outputs.len() > 0);
            }
        }
    }
}

proof fn lemma_add_sync(st: Hotplug, rows: Seq<ConnectorSnapshot>, n: int)
    requires
        consistent(st.bindings, st.wm),
        0 <= n <= rows.len(),
        st.wm.next + rows.len() <= u64::MAX,
    ensures
        ({
            let after = add_all(st, rows, n);
            &&& consistent(after.bindings, after.wm)
            &&& after.wm.next <= st.wm.next + n
            &&& forall|h: u32|
                !(exists|i: int| 0 <= i < n && (#[trigger] rows[i]).handle == h)
                    ==> #[trigger] lookup(after.bindings, h) == lookup(st.bindings, h)
        }),
    decreases n,
{
    if n > 0 {
        lemma_add_sync(st, rows, n - 1);
        let before = add_all(st, rows, n - 1);
        let s = rows[n - 1];
        let after = add_all(st, rows, n);
        if !before.bindings.contains_key(s.handle) {
            law_output_added(before.wm, s.bounds, before.wm.next);
            assert forall|g: u32| #[trigger] lookup(after.bindings, g) matches Some(
                p,
            ) ==> after.wm.has(p) by {
                if g != s.handle && lookup(after.bindings, g) is Some {
                    let p = lookup(after.bindings, g)->0;
                    assert(lookup(before.bindings, g) == Some(p));
                    law_output_added(before.wm, s.bounds, p);
                }
            }
            assert forall|g: u32, h: u32|
                g != h && #[trigger] lookup(after.bindings, g) is Some implies lookup(
                after.bindings,
                g,
            ) != #[trigger] lookup(after.bindings, h) by {
                if g == s.handle {
                    assert(lookup(after.bindings, h) == lookup(before.bindings, h));
                } else if h == s.handle {
                    assert(lookup(after.bindings, g) == lookup(before.bindings, g));
                } else {
                    assert(lookup(after.bindings, g) == lookup(before.bindings, g));
                    assert(lookup(after.bindings, h) == lookup(before.bindings, h));
                }
            }
        }
        assert forall|h: u32|
            !(exists|i: int| 0 <= i < n && (#[trigger] rows[i]).handle == h) implies #[trigger] lookup(
            after.bindings,
            h,
        ) == lookup(st.bindings, h) by {
            assert(rows[n - 1].handle != h);
            assert(lookup(before.bindings, h) == lookup(st.bindings, h));
        }
    }
}

proof fn lemma_resize_sync(st: Hotplug, rows: Seq<ConnectorSnapshot>, n: int)
    requires
        consistent(st.bindings, st.wm),
        0 <= n <= rows.len(),
        forall|i: int, j: int|
            0 <= i < j < rows.len() ==> (#[trigger] rows[i]).handle != (#[trigger] rows[j]).handle,
        forall|i: int|
            0 <= i < rows.len() ==> lookup(st.bindings, (#[trigger] rows[i]).handle) is Some,
    ensures
        ({
            let after = resize_all(st, rows, n);
            &&& after.bindings == st.bindings
            &&& consistent(after.bindings, after.wm)
            &&& after.wm.outputs.len() == st.wm.outputs.len()
            &&& forall|i: int|
                0 <= i < n ==> in_step(after.bindings, after.wm, #[trigger] rows[i])
        }),
    decreases n,
{
    if n > 0 {
        lemma_resize_sync(st, rows, n - 1);
        let before = resize_all(st, rows, n - 1);
        let after = resize_all(st, rows, n);
        let s = rows[n - 1];
        let o = lookup(st.bindings, s.handle)->0;
        assert(before.wm.has(o));
        if before.wm.get(o).bounds != s.bounds {
            law_output_resized(before.wm, o, s.bounds, o);
            lemma_output_index(before.wm.outputs, o, 0);
            assert forall|h: u32| #[trigger] lookup(after.bindings, h) matches Some(
                p,
            ) ==> after.wm.has(p) by {
                if lookup(after.bindings, h) is Some {
                    law_output_resized(before.wm, o, s.bounds, lookup(after.bindings, h)->0);
                }
            }
            assert forall|i: int| 0 <= i < n implies in_step(
                after.bindings,
                after.wm,
                #[trigger] rows[i],
            ) by {
                if i < n - 1 {
                    assert(in_step(before.bindings, before.wm, rows[i]));
                    let p = lookup(st.bindings, rows[i].handle)->0;
                    assert(rows[i].handle != s.handle);
                    law_output_resized(before.wm, o, s.bounds, p);
                }
            }
        } else {
            assert forall|i: int| 0 <= i < n implies in_step(
                after.bindings,
                after.wm,
                #[trigger] rows[i],
            ) by {
                if i < n - 1 {
                    assert(in_step(before.bindings, before.wm, rows[i]));
                }
            }
        }
    }
}

proof fn lemma_rows_distinct(s: Seq<ConnectorSnapshot>, n: int)
    requires
        0 <= n <= s.len(),
        forall|i: int, j: int|
            0 <= i < j < s.len() ==> (#[trigger] s[i]).handle != (#[trigger] s[j]).handle,
    ensures
        forall|i: int, j: int|
            0 <= i < j < n ==> (#[trigger] by_handle(s, n)[i]).handle != (#[trigger] by_handle(
                s,
                n,
            )[j]).handle,
    decreases n,
{
    if n > 0 {
        lemma_rows_distinct(s, n - 1);
        lemma_by_handle_len(s, n - 1);
        let list = by_handle(s, n - 1);
        let at = sort_slot(list, s[n - 1], 0);
        lemma_sort_slot(list, s[n - 1], 0);
        let rows = by_handle(s, n);
        assert forall|i: int, j: int| 0 <= i < j < n implies (#[trigger] rows[i]).handle
            != (#[trigger] rows[j]).handle by {
            let ii = if i < at {
                i
            } else {
                i - 1
            };
            let jj = if j < at {
                j
            } else {
                j - 1
            };
            if i == at {
                let k = lemma_row_from(s, n - 1, jj);
                assert(rows[j] == list[jj]);
                assert(s[k].handle != s[n - 1].handle);
            } else if j == at {
                let k = lemma_row_from(s, n - 1, ii);
                assert(rows[i] == list[ii]);
                assert(s[k].handle != s[n - 1].handle);
            } else {
                assert(rows[i] == list[ii] && rows[j] == list[jj]);
            }
        }
    }
}

pub open spec fn distinct_handles(s: Seq<ConnectorSnapshot>) -> bool {
    forall|i: int, j: int|
        0 <= i < j < s.len() ==> (#[trigger] s[i]).handle != (#[trigger] s[j]).handle
}

proof fn lemma_reconciled(b: Bindings, wm: WmView, s: Seq<ConnectorSnapshot>)
    requires
        consistent(b, wm),
        wm.next + s.len() <= u64::MAX,
        distinct_handles(s),
    ensures
        ({
            let done = reconciled(b, wm, s);
            &&& consistent(done.bindings, done.wm)
            &&& forall|k: int|
                0 <= k < s.len() ==> in_step(done.bindings, done.wm, #[trigger] s[k])
        }),
{
    let start = Hotplug { bindings: b, wm, changes: seq![] };
    let gone = gone_from(b, s, 0);
    let m = s.len() as int;
    let rows = by_handle(s, m);
    let dropped = drop_all(start, gone, gone.len() as int);
    let added = add_all(dropped, rows, m);
    lemma_by_handle_len(s, m);
    lemma_drop_sync(start, gone, gone.len() as int);
    lemma_add_sync(dropped, rows, m);
    lemma_added_bound(dropped, rows, m);
    lemma_rows_distinct(s, m);
    lemma_resize_sync(added, rows, m);
    let done = reconciled(b, wm, s);
    assert forall|k: int| 0 <= k < s.len() implies in_step(
        done.bindings,
        done.wm,
        #[trigger] s[k],
    ) by {
        let i = lemma_row_to(s, m, k);
        assert(rows[i] == s[k]);
    }
}

/// A reconcile brings the outputs in step with the connectors: each that is
/// connected has an output of its own, with its bounds, and one that is not
/// connected has none, unless its output was the last one left. What is left
/// behind is fit for the next reconcile.
pub proof fn law_outputs_follow_connectors(
    b: Bindings,
    wm: WmView,
    s: Seq<ConnectorSnapshot>,
    k: int,
    h: u32,
)
    requires
        consistent(b, wm),
        wm.next + s.len() <= u64::MAX,
        distinct_handles(s),
        0 <= k < s.len(),
        !snapshot_has(s, h),
    ensures
        ({
            let done = reconciled(b, wm, s);
            &&& consistent(done.bindings, done.wm)
            &&& in_step(done.bindings, done.wm, s[k])
            &&& lookup(done.bindings, h) is None || after_drops(b, wm, s).wm.outputs.len() == 1
        }),
{
    let start = Hotplug { bindings: b, wm, changes: seq![] };
    let gone = gone_from(b, s, 0);
    let m = s.len() as int;
    let rows = by_handle(s, m);
    let dropped = drop_all(start, gone, gone.len() as int);
    let added = add_all(dropped, rows, m);
    lemma_by_handle_len(s, m);
    lemma_reconciled(b, wm, s);
    lemma_drop_sync(start, gone, gone.len() as int);
    lemma_add_sync(dropped, rows, m);
    lemma_resize_keeps_bindings(added, rows, m);
    assert forall|i: int| 0 <= i < m implies (#[trigger] rows[i]).handle != h by {
        let j = lemma_row_from(s, m, i);
        assert(s[j].handle != h);
    }
    assert(lookup(added.bindings, h) == lookup(dropped.bindings, h));
    lemma_gone_from(b, s, 0);
    if lookup(b, h) is Some {
        assert(gone.contains(h));
        let j = choose|j: int| 0 <= j < gone.len() && gone[j] == h;
        assert(gone[j] == h);
    } else {
        lemma_drop_none(start, gone, gone.len() as int, h);
    }
}

proof fn lemma_drop_none(st: Hotplug, gone: Seq<u32>, n: int, h: u32)
    requires
        consistent(st.bindings, st.wm),
        0 <= n <= gone.len(),
        lookup(st.bindings, h) is None,
    ensures
        lookup(drop_all(st, gone, n).bindings, h) is None,
    decreases n,
{
    if n > 0 {
        lemma_drop_none(st, gone, n - 1, h);
        lemma_drop_sync(st, gone, n - 1);
        lemma_drop_one(drop_all(st, gone, n - 1), gone[n - 1]);
    }
}

/// Whether a connector is gone but kept its output, as the last one left, while
/// new outputs came. It goes with the next reconcile.
pub open spec fn stranded(done: Hotplug, s: Seq<ConnectorSnapshot>) -> bool {
    done.wm.outputs.len() > 1 && exists|h: u32| #[trigger] is_gone(done.bindings, s, h)
}

/// Whether two rows want different bounds of one output.
pub open spec fn contended(done: Hotplug, s: Seq<ConnectorSnapshot>) -> bool {
    exists|i: int, j: int|
        0 <= i < s.len() && 0 <= j < s.len() && disagree(
            done.bindings,
            done.wm,
            #[trigger] s[i],
            #[trigger] s[j],
        )
}

pub open spec fn disagree(
    b: Bindings,
    wm: WmView,
    x: ConnectorSnapshot,
    y: ConnectorSnapshot,
) -> bool {
    &&& lookup(b, x.handle) matches Some(o) && wm.has(o)
    &&& lookup(b, x.handle) == lookup(b, y.handle)
    &&& x.bounds != y.bounds
}

proof fn lemma_drop_rest(st: Hotplug, gone: Seq<u32>, n: int)
    requires
        st.wm.wf(),
        0 <= n <= gone.len(),
    ensures
        ({
            let after = drop_all(st, gone, n);
            &&& after.wm.wf()
            &&& after.wm.next == st.wm.next
            &&& forall|k: int|
                0 <= k < n ==> (lookup(after.bindings, #[trigger] gone[k]) matches Some(
                    o,
                ) ==> after.wm.has(o) && after.wm.outputs.len() == 1)
        }),
    decreases n,
{
    if n > 0 {
        lemma_drop_rest(st, gone, n - 1);
        let before = drop_all(st, gone, n - 1);
        if let Some(o) = lookup(before.bindings, gone[n - 1]) {
            if before.wm.has(o) && before.wm.outputs.len() > 1 {
                law_output_removed(before.wm, o, o);
            }
        }
        let after = drop_all(st, gone, n);
        assert forall|k: int| 0 <= k < n implies (lookup(
            after.bindings,
            #[trigger] gone[k],
        ) matches Some(o) ==> after.wm.has(o) && after.wm.outputs.len() == 1) by {
            if k < n - 1 && lookup(after.bindings, gone[k]) is Some {
                assert(lookup(before.bindings, gone[k]) is Some);
            }
        }
    }
}

proof fn lemma_add_rest(st: Hotplug, rows: Seq<ConnectorSnapshot>, n: int)
    requires
        st.wm.wf(),
        0 <= n <= rows.len(),
        st.wm.next + rows.len() <= u64::MAX,
    ensures
        ({
            let after = add_all(st, rows, n);
            &&& after.wm.wf()
            &&& after.wm.next <= st.wm.next + n
            &&& after.wm.outputs.len() == 1 ==> after == st
        }),
    decreases n,
{
    if n > 0 {
        lemma_add_rest(st, rows, n - 1);
        let before = add_all(st, rows, n - 1);
        law_output_added(before.wm, rows[n - 1].bounds, before.wm.next);
    }
}

proof fn lemma_resize_rest(st: Hotplug, rows: Seq<ConnectorSnapshot>, n: int)
    requires
        st.wm.wf(),
        0 <= n <= rows.len(),
        forall|i: int|
            0 <= i < rows.len() ==> lookup(st.bindings, (#[trigger] rows[i]).handle) is Some,
        forall|i: int, j: int|
            0 <= i < rows.len() && 0 <= j < rows.len() ==> !disagree(
                st.bindings,
                st.wm,
                #[trigger] rows[i],
                #[trigger] rows[j],
            ),
    ensures
        ({
            let after = resize_all(st, rows, n);
            &&& after.bindings == st.bindings
            &&& after.wm.wf()
            &&& after.wm.outputs.len() == st.wm.outputs.len()
            &&& forall|o: OutputId| #[trigger] after.wm.has(o) == st.wm.has(o)
            &&& forall|i: int| 0 <= i < n ==> quiet(after.bindings, after.wm, #[trigger] rows[i])
        }),
    decreases n,
{
    if n > 0 {
        lemma_resize_rest(st, rows, n - 1);
        let before = resize_all(st, rows, n - 1);
        let after = resize_all(st, rows, n);
        let s = rows[n - 1];
        let o = lookup(st.bindings, s.handle)->0;
        if before.wm.has(o) && before.wm.get(o).bounds != s.bounds {
            assert forall|p: OutputId| #[trigger] after.wm.has(p) == st.wm.has(p) by {
                law_output_resized(before.wm, o, s.bounds, p);
            }
            law_output_resized(before.wm, o, s.bounds, o);
            lemma_output_index(before.wm.outputs, o, 0);
            assert forall|i: int| 0 <= i < n implies quiet(
                after.bindings,
                after.wm,
                #[trigger] rows[i],
            ) by {
                let p = lookup(st.bindings, rows[i].handle)->0;
                law_output_resized(before.wm, o, s.bounds, p);
                if p == o {
                    assert(!disagree(st.bindings, st.wm, rows[i], rows[n - 1]));
                } else {
                    assert(i < n - 1);
                    assert(quiet(before.bindings, before.wm, rows[i]));
                }
            }
        } else {
            assert forall|i: int| 0 <= i < n implies quiet(
                after.bindings,
                after.wm,
                #[trigger] rows[i],
            ) by {
                if i < n - 1 {
                    assert(quiet(before.bindings, before.wm, rows[i]));
                }
            }
        }
    }
}

proof fn lemma_drop_nothing(st: Hotplug, gone: Seq<u32>, n: int)
    requires
        st.wm.outputs.len() == 1,
        0 <= n <= gone.len(),
        forall|k: int|
            0 <= k < gone.len() ==> (lookup(st.bindings, #[trigger] gone[k]) matches Some(
                o,
            ) && st.wm.has(o)),
    ensures
        drop_all(st, gone, n) == st,
    decreases n,
{
    if n > 0 {
        lemma_drop_nothing(st, gone, n - 1);
        assert(lookup(st.bindings, gone[n - 1]) is Some);
    }
}

/// A reconcile settles: the same snapshot again changes nothing and reports
/// nothing. There are two exceptions: a connector that is gone but kept its output
/// as the last one left while new outputs came, and rows that want different
/// bounds of one output.
pub proof fn law_reconcile_settles(b: Bindings, wm: WmView, s: Seq<ConnectorSnapshot>)
    requires
        wm.wf(),
        wm.next + s.len() <= u64::MAX,
        !stranded(reconciled(b, wm, s), s),
        !contended(reconciled(b, wm, s), s),
    ensures
        ({
            let done = reconciled(b, wm, s);
            let again = reconciled(done.bindings, done.wm, s);
            &&& again.bindings == done.bindings
            &&& again.wm == done.wm
            &&& again.changes == Seq::<HotplugChange>::empty()
        }),
{
    let start = Hotplug { bindings: b, wm, changes: seq![] };
    let m = s.len() as int;
    let rows = by_handle(s, m);
    let gone = gone_from(b, s, 0);
    let dropped = drop_all(start, gone, gone.len() as int);
    let added = add_all(dropped, rows, m);
    let done = reconciled(b, wm, s);
    lemma_by_handle_len(s, m);
    lemma_drop_rest(start, gone, gone.len() as int);
    lemma_add_rest(dropped, rows, m);
    lemma_added_bound(dropped, rows, m);
    lemma_resize_keeps(added, rows, m);
    assert forall|i: int, j: int| 0 <= i < m && 0 <= j < m implies !disagree(
        added.bindings,
        added.wm,
        #[trigger] rows[i],
        #[trigger] rows[j],
    ) by {
        let k = lemma_row_from(s, m, i);
        let l = lemma_row_from(s, m, j);
        assert(!disagree(done.bindings, done.wm, s[k], s[l]));
    }
    lemma_resize_rest(added, rows, m);
    let again = Hotplug { bindings: done.bindings, wm: done.wm, changes: seq![] };
    let left = gone_from(done.bindings, s, 0);
    lemma_gone_from(done.bindings, s, 0);
    if done.wm.outputs.len() == 1 {
        lemma_gone_from(b, s, 0);
        assert forall|k: int| 0 <= k < left.len() implies (lookup(
            done.bindings,
            #[trigger] left[k],
        ) matches Some(o) && done.wm.has(o)) by {
            assert(left.contains(left[k]));
            lemma_drop_subset(start, gone, gone.len() as int, left[k]);
            assert(gone.contains(left[k]));
            let j = choose|j: int| 0 <= j < gone.len() && gone[j] == left[k];
            assert(lookup(dropped.bindings, gone[j]) is Some);
        }
        lemma_drop_nothing(again, left, left.len() as int);
    } else {
        if left.len() > 0 {
            assert(left.contains(left[0]));
            assert(is_gone(done.bindings, s, left[0]));
        }
    }
    lemma_nothing_to_do(again, rows, m);
}

proof fn lemma_drop_subset(st: Hotplug, gone: Seq<u32>, n: int, h: u32)
    requires
        0 <= n <= gone.len(),
    ensures
        lookup(drop_all(st, gone, n).bindings, h) is Some ==> lookup(
            drop_all(st, gone, n).bindings,
            h,
        ) == lookup(st.bindings, h),
    decreases n,
{
    if n > 0 {
        lemma_drop_subset(st, gone, n - 1, h);
    }
}

proof fn lemma_resize_keeps(st: Hotplug, rows: Seq<ConnectorSnapshot>, n: int)
    requires
        st.wm.wf(),
        0 <= n <= rows.len(),
    ensures
        resize_all(st, rows, n).bindings == st.bindings,
        resize_all(st, rows, n).wm.wf(),
        forall|o: OutputId| #[trigger] resize_all(st, rows, n).wm.has(o) == st.wm.has(o),
    decreases n,
{
    if n > 0 {
        lemma_resize_keeps(st, rows, n - 1);
        let before = resize_all(st, rows, n - 1);
        let after = resize_all(st, rows, n);
        let s = rows[n - 1];
        if lookup(before.bindings, s.handle) is Some {
            let o = lookup(before.bindings, s.handle)->0;
            if before.wm.has(o) && before.wm.get(o).bounds != s.bounds {
                law_output_resized(before.wm, o, s.bounds, o);
                assert forall|p: OutputId| #[trigger] after.wm.has(p) == st.wm.has(p) by {
                    law_output_resized(before.wm, o, s.bounds, p);
                }
            }
        }
    }
}

/// Whether a reported change says what became of its connector's binding.
pub open spec fn agrees(before: Bindings, after: Bindings, change: HotplugChange) -> bool {
    let was = lookup(before, change.connector_spec());
    let is = lookup(after, change.connector_spec());
    match change {
        HotplugChange::Added { .. } => was is None && is == Some(change.output_spec()),
        HotplugChange::Removed { .. } => was == Some(change.output_spec()) && is is None,
        HotplugChange::Resized { .. } => is == Some(change.output_spec()),
    }
}

proof fn lemma_drop_changes(st: Hotplug, gone: Seq<u32>, n: int)
    requires
        st.changes.len() == 0,
        0 <= n <= gone.len(),
    ensures
        ({
            let after = drop_all(st, gone, n);
            &&& forall|h: u32| #[trigger]
                lookup(after.bindings, h) is None || lookup(after.bindings, h) == lookup(
                    st.bindings,
                    h,
                )
            &&& forall|h: u32|
                !gone.contains(h) ==> #[trigger] lookup(after.bindings, h) == lookup(st.bindings, h)
            &&& forall|i: int|
                0 <= i < after.changes.len() ==> (#[trigger] after.changes[i]) is Removed
                    && gone.contains(after.changes[i].connector_spec()) && agrees(
                    st.bindings,
                    after.bindings,
                    after.changes[i],
                )
        }),
    decreases n,
{
    if n > 0 {
        lemma_drop_changes(st, gone, n - 1);
        let now = drop_all(st, gone, n - 1);
        let after = drop_all(st, gone, n);
        let g = gone[n - 1];
        assert(gone.contains(g));
        assert forall|h: u32| h != g implies #[trigger] lookup(after.bindings, h) == lookup(
            now.bindings,
            h,
        ) by {}
        assert(lookup(after.bindings, g) is None || after == now);
        assert forall|i: int| 0 <= i < after.changes.len() implies (
        #[trigger] after.changes[i]) is Removed && gone.contains(after.changes[i].connector_spec())
            && agrees(st.bindings, after.bindings, after.changes[i]) by {
            if i < now.changes.len() {
                assert(after.changes[i] == now.changes[i]);
                assert(agrees(st.bindings, now.bindings, now.changes[i]));
            }
        }
    }
}

proof fn lemma_add_changes(st: Hotplug, rows: Seq<ConnectorSnapshot>, n: int)
    requires
        0 <= n <= rows.len(),
    ensures
        ({
            let after = add_all(st, rows, n);
            &&& st.changes.is_prefix_of(after.changes)
            &&& forall|h: u32| #[trigger]
                lookup(st.bindings, h) is Some ==> lookup(after.bindings, h) == lookup(
                    st.bindings,
                    h,
                )
            &&& forall|h: u32|
                !snapshot_has(rows, h) ==> #[trigger] lookup(after.bindings, h) == lookup(
                    st.bindings,
                    h,
                )
            &&& forall|i: int|
                st.changes.len() <= i < after.changes.len() ==> (
                #[trigger] after.changes[i]) is Added && snapshot_has(
                    rows,
                    after.changes[i].connector_spec(),
                ) && agrees(st.bindings, after.bindings, after.changes[i])
        }),
    decreases n,
{
    if n > 0 {
        lemma_add_changes(st, rows, n - 1);
        let now = add_all(st, rows, n - 1);
        let after = add_all(st, rows, n);
        let g = rows[n - 1].handle;
        assert(snapshot_has(rows, g));
        assert forall|i: int| st.changes.len() <= i < after.changes.len() implies (
        #[trigger] after.changes[i]) is Added && snapshot_has(
            rows,
            after.changes[i].connector_spec(),
        ) && agrees(st.bindings, after.bindings, after.changes[i]) by {
            if i < now.changes.len() {
                assert(after.changes[i] == now.changes[i]);
                assert(agrees(st.bindings, now.bindings, now.changes[i]));
            }
        }
    }
}

proof fn lemma_resize_changes(st: Hotplug, rows: Seq<ConnectorSnapshot>, n: int)
    requires
        0 <= n <= rows.len(),
    ensures
        ({
            let after = resize_all(st, rows, n);
            &&& after.bindings == st.bindings
            &&& st.changes.is_prefix_of(after.changes)
            &&& forall|i: int|
                st.changes.len() <= i < after.changes.len() ==> (
                #[trigger] after.changes[i]) is Resized && agrees(
                    st.bindings,
                    after.bindings,
                    after.changes[i],
                )
        }),
    decreases n,
{
    if n > 0 {
        lemma_resize_changes(st, rows, n - 1);
        let now = resize_all(st, rows, n - 1);
        let after = resize_all(st, rows, n);
        assert forall|i: int| st.changes.len() <= i < after.changes.len() implies (
        #[trigger] after.changes[i]) is Resized && agrees(
            st.bindings,
            after.bindings,
            after.changes[i],
        ) by {
            if i < now.changes.len() {
                assert(after.changes[i] == now.changes[i]);
            }
        }
    }
}

/// Every change that a reconcile reports is true of the bindings: a connector
/// reported as added had no output and is bound to the reported one now, one
/// reported as removed was bound to the reported output and is not known any
/// more, and one reported as resized is bound to the reported output.
pub proof fn law_changes_agree(b: Bindings, wm: WmView, s: Seq<ConnectorSnapshot>, i: int)
    requires
        0 <= i < reconciled(b, wm, s).changes.len(),
    ensures
        agrees(b, reconciled(b, wm, s).bindings, reconciled(b, wm, s).changes[i]),
{
    let start = Hotplug { bindings: b, wm, changes: seq![] };
    let gone = gone_from(b, s, 0);
    let m = s.len() as int;
    let rows = by_handle(s, m);
    lemma_by_handle_len(s, m);
    let dropped = drop_all(start, gone, gone.len() as int);
    let added = add_all(dropped, rows, m);
    let done = resize_all(added, rows, m);
    lemma_drop_changes(start, gone, gone.len() as int);
    lemma_add_changes(dropped, rows, m);
    lemma_resize_changes(added, rows, m);
    let change = done.changes[i];
    let h = change.connector_spec();
    if snapshot_has(rows, h) {
        let j = choose|j: int| 0 <= j < rows.len() && (#[trigger] rows[j]).handle == h;
        let k = lemma_row_from(s, m, j);
        assert(s[k].handle == h);
        lemma_gone_from(b, s, 0);
        assert(!gone.contains(h));
    }
    if i < dropped.changes.len() {
        assert(change == dropped.changes[i]);
    } else if i < added.changes.len() {
        assert(change == added.changes[i]);
    }
}

} // verus!
