//! Outputs, their reserved edges, and the geometry shared by the whole shell.
//!
//! Lengths and positions are whole multiples of 1/256 logical pixel, the
//! resolution of Wayland's own 24.8 fixed-point coordinates; [`PX`] is one
//! logical pixel.

use vstd::prelude::*;

use crate::text::{own, str_eq};

verus! {

pub type OutputId = u64;

pub type WindowId = u64;

pub type WorkspaceId = u64;

/// One logical pixel in coordinate units.
pub const PX: i64 = 256;

/// Coordinates within this distance of the origin can be added and subtracted
/// freely.
pub const COORD_LIMIT: i64 = 0x100_0000_0000;

pub open spec fn coord(v: i64) -> bool {
    -COORD_LIMIT <= v <= COORD_LIMIT
}

/// A rectangle by its top-left corner and its size.
#[derive(Debug, Clone, Copy, PartialEq, Eq, Structural)]
pub struct Rect {
    pub x: i64,
    pub y: i64,
    pub w: i64,
    pub h: i64,
}

impl Rect {
    pub open spec fn bounded(self) -> bool {
        coord(self.x) && coord(self.y) && coord(self.w) && coord(self.h)
    }

    /// Whether a point lies inside. The right and bottom edges are outside.
    pub open spec fn holds(self, px: int, py: int) -> bool {
        self.x <= px < self.x + self.w && self.y <= py < self.y + self.h
    }

    /// A rectangle in coordinate units.
    pub fn new(x: i64, y: i64, w: i64, h: i64) -> (r: Rect)
        ensures
            r == (Rect { x, y, w, h }),
    {
        Rect { x, y, w, h }
    }

    /// A rectangle in whole logical pixels.
    pub fn px(x: i32, y: i32, w: i32, h: i32) -> (r: Rect)
        ensures
            r.x == x * PX && r.y == y * PX && r.w == w * PX && r.h == h * PX,
    {
        Rect { x: x as i64 * PX, y: y as i64 * PX, w: w as i64 * PX, h: h as i64 * PX }
    }

    pub fn contains(self, px: i64, py: i64) -> (r: bool)
        ensures
            r == self.holds(px as int, py as int),
    {
        self.x <= px && (px as i128) < self.x as i128 + self.w as i128 && self.y <= py && (py
            as i128) < self.y as i128 + self.h as i128
    }
}

/// Reserved width on each edge of an output.
#[derive(Debug, Clone, Copy, PartialEq, Eq, Structural)]
pub struct Struts {
    pub top: i64,
    pub bottom: i64,
    pub left: i64,
    pub right: i64,
}

pub open spec fn no_struts() -> Struts {
    Struts { top: 0, bottom: 0, left: 0, right: 0 }
}

impl Default for Struts {
    fn default() -> (r: Struts)
        ensures
            r == no_struts(),
    {
        Struts { top: 0, bottom: 0, left: 0, right: 0 }
    }
}

/// A monitor as window placement sees it.
#[derive(Debug, Clone, Copy, PartialEq, Eq, Structural)]
pub struct Monitor {
    pub work_area: Rect,
}

/// Where a window can be snapped to.
#[derive(Debug, Clone, Copy, PartialEq, Eq, Structural)]
pub enum SnapZone {
    Left,
    Right,
    Maximize,
}

/// How a window is shown.
#[derive(Debug, Clone, Copy, PartialEq, Eq, Structural)]
pub enum WinState {
    Floating,
    Maximized,
    Snapped(SnapZone),
    Minimized,
    Fullscreen,
}

/// An output with its reservations composed.
#[derive(Debug, Clone, Copy, PartialEq, Eq, Structural)]
pub struct Output {
    pub id: OutputId,
    pub bounds: Rect,
    pub struts: Struts,
}

#[derive(Debug, Clone, Copy, PartialEq, Eq, Structural)]
pub enum WmError {
    /// The last output cannot be removed: a session without one has no useful
    /// coordinate system.
    LastOutput,
    UnknownOutput,
}

/// One contributor's reservation on an output.
struct StrutLayer {
    name: String,
    struts: Struts,
}

struct OutputState {
    id: OutputId,
    bounds: Rect,
    layers: Vec<StrutLayer>,
}

/// The outputs of the session. The first one is the primary.
pub struct WindowManager {
    outputs: Vec<OutputState>,
    next: OutputId,
}

/// Named reservations, in the order in which they were made.
pub type Layers = Seq<(Seq<char>, Struts)>;

pub struct OutputView {
    pub id: OutputId,
    pub bounds: Rect,
    pub layers: Layers,
}

/// The outputs in order, and the id that the next one gets.
pub struct WmView {
    pub outputs: Seq<OutputView>,
    pub next: OutputId,
}

pub open spec fn max_int(a: i64, b: i64) -> i64 {
    if a >= b {
        a
    } else {
        b
    }
}

/// The wider reservation on every edge.
pub open spec fn widest(a: Struts, b: Struts) -> Struts {
    Struts {
        top: max_int(a.top, b.top),
        bottom: max_int(a.bottom, b.bottom),
        left: max_int(a.left, b.left),
        right: max_int(a.right, b.right),
    }
}

/// All reservations together: on each edge the widest one.
pub open spec fn composed(layers: Layers) -> Struts
    decreases layers.len(),
{
    if layers.len() == 0 {
        no_struts()
    } else {
        widest(composed(layers.drop_last()), layers.last().1)
    }
}

/// The position of the layer `name` from index `i` on; the length where there
/// is none.
pub open spec fn layer_index(layers: Layers, name: Seq<char>, i: int) -> int
    decreases layers.len() - i,
{
    if i < 0 || i >= layers.len() {
        layers.len() as int
    } else if layers[i].0 == name {
        i
    } else {
        layer_index(layers, name, i + 1)
    }
}

/// The layers with `name` reserving `s`.
pub open spec fn with_layer(layers: Layers, name: Seq<char>, s: Struts) -> Layers {
    let i = layer_index(layers, name, 0);
    if i < layers.len() {
        layers.update(i, (name, s))
    } else {
        layers.push((name, s))
    }
}

/// The layers without `name`.
pub open spec fn without_layer(layers: Layers, name: Seq<char>) -> Layers {
    let i = layer_index(layers, name, 0);
    if i < layers.len() {
        layers.remove(i)
    } else {
        layers
    }
}

/// The position of the output `id` from index `i` on; the length where there is
/// none.
pub open spec fn output_index(outs: Seq<OutputView>, id: OutputId, i: int) -> int
    decreases outs.len() - i,
{
    if i < 0 || i >= outs.len() {
        outs.len() as int
    } else if outs[i].id == id {
        i
    } else {
        output_index(outs, id, i + 1)
    }
}

impl WmView {
    pub open spec fn index(self, id: OutputId) -> int {
        output_index(self.outputs, id, 0)
    }

    pub open spec fn has(self, id: OutputId) -> bool {
        self.index(id) < self.outputs.len()
    }

    pub open spec fn get(self, id: OutputId) -> OutputView {
        self.outputs[self.index(id)]
    }

    /// At least one output, and every id given out once and before `next`.
    pub open spec fn wf(self) -> bool {
        &&& self.outputs.len() > 0
        &&& forall|i: int| 0 <= i < self.outputs.len() ==> (#[trigger] self.outputs[i]).id < self.next
        &&& forall|i: int, j: int|
            0 <= i < j < self.outputs.len() ==> (#[trigger] self.outputs[i]).id
                != (#[trigger] self.outputs[j]).id
    }

    pub open spec fn with_output(self, bounds: Rect) -> WmView {
        WmView {
            outputs: self.outputs.push(OutputView { id: self.next, bounds, layers: seq![] }),
            next: (self.next + 1) as OutputId,
        }
    }

    pub open spec fn without_output(self, id: OutputId) -> WmView {
        WmView { outputs: self.outputs.remove(self.index(id)), next: self.next }
    }

    pub open spec fn with_bounds(self, id: OutputId, bounds: Rect) -> WmView {
        WmView {
            outputs: self.outputs.update(
                self.index(id),
                OutputView { bounds, ..self.get(id) },
            ),
            next: self.next,
        }
    }

    pub open spec fn with_layers(self, id: OutputId, layers: Layers) -> WmView {
        WmView {
            outputs: self.outputs.update(
                self.index(id),
                OutputView { layers, ..self.get(id) },
            ),
            next: self.next,
        }
    }

    /// The outputs once `name` reserves `s` on `id`, where there is such an output.
    pub open spec fn set_layer(self, id: OutputId, name: Seq<char>, s: Struts) -> WmView {
        if self.has(id) {
            self.with_layers(id, with_layer(self.get(id).layers, name, s))
        } else {
            self
        }
    }

    /// The outputs once `name` reserves nothing on `id`.
    pub open spec fn clear_layer(self, id: OutputId, name: Seq<char>) -> WmView {
        if self.has(id) {
            self.with_layers(id, without_layer(self.get(id).layers, name))
        } else {
            self
        }
    }
}

/// An output as callers see it.
pub open spec fn public_output(o: OutputView) -> Output {
    Output { id: o.id, bounds: o.bounds, struts: composed(o.layers) }
}

pub proof fn lemma_output_index(outs: Seq<OutputView>, id: OutputId, i: int)
    requires
        0 <= i <= outs.len(),
    ensures
        i <= output_index(outs, id, i) <= outs.len(),
        output_index(outs, id, i) < outs.len() ==> outs[output_index(outs, id, i)].id == id,
        forall|k: int| i <= k < output_index(outs, id, i) ==> (#[trigger] outs[k]).id != id,
    decreases outs.len() - i,
{
    if i < outs.len() && outs[i].id != id {
        lemma_output_index(outs, id, i + 1);
    }
}

/// An output is found where it stands.
proof fn lemma_output_at(wm: WmView, i: int)
    requires
        wm.wf(),
        0 <= i < wm.outputs.len(),
    ensures
        wm.index(wm.outputs[i].id) == i,
{
    lemma_output_index(wm.outputs, wm.outputs[i].id, 0);
}

/// An output that is added is there, with an id of its own and its bounds; the
/// others are as they were.
pub proof fn law_output_added(wm: WmView, bounds: Rect, o: OutputId)
    requires
        wm.wf(),
        wm.next < u64::MAX,
    ensures
        wm.with_output(bounds).wf(),
        !wm.has(wm.next),
        wm.with_output(bounds).has(wm.next),
        wm.with_output(bounds).get(wm.next).bounds == bounds,
        wm.has(o) ==> wm.with_output(bounds).has(o) && wm.with_output(bounds).get(o) == wm.get(o),
{
    let after = wm.with_output(bounds);
    lemma_output_index(wm.outputs, wm.next, 0);
    assert(after.outputs[wm.outputs.len() as int].id == wm.next);
    lemma_output_at(after, wm.outputs.len() as int);
    lemma_output_index(wm.outputs, o, 0);
    if wm.has(o) {
        assert(after.outputs[wm.index(o)] == wm.get(o));
        lemma_output_at(after, wm.index(o));
    }
}

/// An output that is removed is gone; the others are as they were.
pub proof fn law_output_removed(wm: WmView, id: OutputId, o: OutputId)
    requires
        wm.wf(),
        wm.has(id),
        wm.outputs.len() > 1,
    ensures
        wm.without_output(id).wf(),
        !wm.without_output(id).has(id),
        o != id && wm.has(o) ==> wm.without_output(id).has(o) && wm.without_output(id).get(o)
            == wm.get(o),
{
    let after = wm.without_output(id);
    lemma_output_index(wm.outputs, id, 0);
    let at = wm.index(id);
    assert(wm.outputs[at].id == id);
    assert forall|i: int| 0 <= i < after.outputs.len() implies (#[trigger] after.outputs[i]).id
        < after.next && after.outputs[i].id != id by {
        let k = if i < at {
            i
        } else {
            i + 1
        };
        assert(after.outputs[i] == wm.outputs[k]);
    }
    assert(after.wf());
    lemma_output_index(after.outputs, id, 0);
    lemma_output_index(wm.outputs, o, 0);
    if o != id && wm.has(o) {
        let k = if wm.index(o) < at {
            wm.index(o)
        } else {
            wm.index(o) - 1
        };
        assert(after.outputs[k] == wm.get(o));
        lemma_output_at(after, k);
    }
}

/// An output whose bounds are changed has them; the others are as they were.
pub proof fn law_output_resized(wm: WmView, id: OutputId, bounds: Rect, o: OutputId)
    requires
        wm.wf(),
        wm.has(id),
    ensures
        wm.with_bounds(id, bounds).wf(),
        wm.with_bounds(id, bounds).has(id),
        wm.with_bounds(id, bounds).get(id).bounds == bounds,
        wm.with_bounds(id, bounds).has(o) == wm.has(o),
        o != id && wm.has(o) ==> wm.with_bounds(id, bounds).has(o) && wm.with_bounds(
            id,
            bounds,
        ).get(o) == wm.get(o),
{
    let after = wm.with_bounds(id, bounds);
    lemma_output_index(wm.outputs, id, 0);
    let at = wm.index(id);
    assert(wm.outputs[at].id == id);
    assert forall|i: int| 0 <= i < after.outputs.len() implies (#[trigger] after.outputs[i]).id
        == wm.outputs[i].id by {}
    assert(after.wf());
    lemma_output_at(after, at);
    lemma_output_index(wm.outputs, o, 0);
    lemma_output_index(after.outputs, o, 0);
    if after.has(o) {
        assert(wm.outputs[after.index(o)].id == o);
    }
    if o != id && wm.has(o) {
        assert(after.outputs[wm.index(o)] == wm.get(o));
        lemma_output_at(after, wm.index(o));
    }
}

pub proof fn lemma_layer_index(layers: Layers, name: Seq<char>, i: int)
    requires
        0 <= i <= layers.len(),
    ensures
        i <= layer_index(layers, name, i) <= layers.len(),
        layer_index(layers, name, i) < layers.len() ==> layers[layer_index(layers, name, i)].0
            == name,
        forall|k: int| i <= k < layer_index(layers, name, i) ==> (#[trigger] layers[k]).0 != name,
    decreases layers.len() - i,
{
    if i < layers.len() && layers[i].0 != name {
        lemma_layer_index(layers, name, i + 1);
    }
}

spec fn layers_view(v: Seq<StrutLayer>) -> Layers {
    v.map_values(|l: StrutLayer| (l.name@, l.struts))
}

spec fn output_view(o: OutputState) -> OutputView {
    OutputView { id: o.id, bounds: o.bounds, layers: layers_view(o.layers@) }
}

impl View for WindowManager {
    type V = WmView;

    closed spec fn view(&self) -> WmView {
        WmView {
            outputs: self.outputs@.map_values(|o: OutputState| output_view(o)),
            next: self.next,
        }
    }
}

fn wider(a: i64, b: i64) -> (r: i64)
    ensures
        r == max_int(a, b),
{
    if a >= b {
        a
    } else {
        b
    }
}

fn compose(layers: &Vec<StrutLayer>) -> (r: Struts)
    ensures
        r == composed(layers_view(layers@)),
{
    let mut r: Struts = Struts::default();
    let mut i: usize = 0;
    let ghost all = layers_view(layers@);
    while i < layers.len()
        invariant
            i <= layers.len(),
            all == layers_view(layers@),
            r == composed(all.take(i as int)),
        decreases layers.len() - i,
    {
        let s: Struts = layers[i].struts;
        assert(all.take(i + 1).drop_last() =~= all.take(i as int));
        assert(all.take(i + 1).last() == (layers@[i as int].name@, s));
        r = Struts {
            top: wider(r.top, s.top),
            bottom: wider(r.bottom, s.bottom),
            left: wider(r.left, s.left),
            right: wider(r.right, s.right),
        };
        i += 1;
    }
    assert(all.take(all.len() as int) =~= all);
    r
}

impl WindowManager {
    /// A session with one output, the primary.
    pub fn new(monitor: Monitor) -> (r: WindowManager)
        ensures
            r@.wf(),
            r@.outputs == seq![
                OutputView { id: 0, bounds: monitor.work_area, layers: seq![] },
            ],
            r@.next == 1,
    {
        let first = OutputState { id: 0, bounds: monitor.work_area, layers: Vec::new() };
        assert(layers_view(first.layers@) =~= seq![]);
        let mut outputs: Vec<OutputState> = Vec::new();
        outputs.push(first);
        let r = WindowManager { outputs, next: 1 };
        assert(r@.outputs =~= seq![
            OutputView { id: 0, bounds: monitor.work_area, layers: seq![] },
        ]);
        r
    }

    fn position(&self, id: OutputId) -> (r: usize)
        ensures
            r == self@.index(id),
            r <= self.outputs.len(),
            self@.outputs.len() == self.outputs.len(),
            r < self.outputs.len() ==> self.outputs@[r as int].id == id,
    {
        let mut i: usize = 0;
        let ghost outs = self@.outputs;
        while i < self.outputs.len()
            invariant
                i <= self.outputs.len(),
                outs == self@.outputs,
                outs.len() == self.outputs.len(),
                output_index(outs, id, 0) == output_index(outs, id, i as int),
            decreases self.outputs.len() - i,
        {
            assert(outs[i as int].id == self.outputs@[i as int].id);
            if self.outputs[i].id == id {
                return i;
            }
            i += 1;
        }
        i
    }

    /// Every output, the primary first.
    pub fn outputs(&self) -> (r: Vec<Output>)
        ensures
            r@ == self@.outputs.map_values(|o: OutputView| public_output(o)),
    {
        let mut r: Vec<Output> = Vec::new();
        let mut i: usize = 0;
        while i < self.outputs.len()
            invariant
                i <= self.outputs.len(),
                r.len() == i,
                self@.outputs.len() == self.outputs.len(),
                forall|k: int| 0 <= k < i ==> #[trigger] r@[k] == public_output(self@.outputs[k]),
            decreases self.outputs.len() - i,
        {
            let o: &OutputState = &self.outputs[i];
            assert(self@.outputs[i as int] == output_view(*o));
            r.push(Output { id: o.id, bounds: o.bounds, struts: compose(&o.layers) });
            i += 1;
        }
        assert(r@ =~= self@.outputs.map_values(|o: OutputView| public_output(o)));
        r
    }

    /// The output with this id.
    pub fn output(&self, id: OutputId) -> (r: Option<Output>)
        ensures
            r == (if self@.has(id) {
                Some(public_output(self@.get(id)))
            } else {
                None
            }),
    {
        let i: usize = self.position(id);
        if i < self.outputs.len() {
            let o: &OutputState = &self.outputs[i];
            assert(self@.outputs[i as int] == output_view(*o));
            Some(Output { id: o.id, bounds: o.bounds, struts: compose(&o.layers) })
        } else {
            None
        }
    }

    /// The primary output.
    pub fn primary_output(&self) -> (r: Option<OutputId>)
        ensures
            r == (if self@.outputs.len() > 0 {
                Some(self@.outputs[0].id)
            } else {
                None
            }),
    {
        if self.outputs.len() > 0 {
            assert(self@.outputs[0] == output_view(self.outputs@[0]));
            Some(self.outputs[0].id)
        } else {
            None
        }
    }

    /// What the reservations leave of the primary output.
    pub fn active_monitor(&self) -> (r: Option<Monitor>)
        requires
            self@.outputs.len() > 0 ==> {
                let s = composed(self@.outputs[0].layers);
                self@.outputs[0].bounds.bounded() && coord(s.top) && coord(s.bottom) && coord(
                    s.left,
                ) && coord(s.right)
            },
        ensures
            match r {
                None => self@.outputs.len() == 0,
                Some(m) => {
                    let o = self@.outputs[0];
                    let s = composed(o.layers);
                    &&& self@.outputs.len() > 0
                    &&& m.work_area.x == o.bounds.x + s.left
                    &&& m.work_area.y == o.bounds.y + s.top
                    &&& m.work_area.w == o.bounds.w - s.left - s.right
                    &&& m.work_area.h == o.bounds.h - s.top - s.bottom
                },
            },
    {
        if self.outputs.len() == 0 {
            return None;
        }
        let o: &OutputState = &self.outputs[0];
        assert(self@.outputs[0] == output_view(*o));
        let s: Struts = compose(&o.layers);
        let b: Rect = o.bounds;
        Some(
            Monitor {
                work_area: Rect {
                    x: b.x + s.left,
                    y: b.y + s.top,
                    w: b.w - s.left - s.right,
                    h: b.h - s.top - s.bottom,
                },
            },
        )
    }

    /// A new output, with an id that was never used before.
    pub fn add_output(&mut self, bounds: Rect) -> (r: OutputId)
        requires
            old(self)@.next < u64::MAX,
        ensures
            r == old(self)@.next,
            final(self)@ == old(self)@.with_output(bounds),
            old(self)@.wf() ==> final(self)@.wf(),
    {
        let id: OutputId = self.next;
        let o = OutputState { id, bounds, layers: Vec::new() };
        assert(layers_view(o.layers@) =~= seq![]);
        self.outputs.push(o);
        self.next = id + 1;
        assert(self@.outputs =~= old(self)@.with_output(bounds).outputs);
        id
    }

    /// Takes an output away, unless it is the last one.
    pub fn remove_output(&mut self, id: OutputId) -> (r: Result<(), WmError>)
        ensures
            r == (if !old(self)@.has(id) {
                Err(WmError::UnknownOutput)
            } else if old(self)@.outputs.len() == 1 {
                Err(WmError::LastOutput)
            } else {
                Ok(())
            }),
            final(self)@ == (if r is Ok {
                old(self)@.without_output(id)
            } else {
                old(self)@
            }),
            old(self)@.wf() ==> final(self)@.wf(),
    {
        let i: usize = self.position(id);
        if i >= self.outputs.len() {
            return Err(WmError::UnknownOutput);
        }
        if self.outputs.len() == 1 {
            return Err(WmError::LastOutput);
        }
        self.outputs.remove(i);
        assert(self@.outputs =~= old(self)@.without_output(id).outputs);
        Ok(())
    }

    /// Changes the bounds of an output.
    pub fn set_output_bounds(&mut self, id: OutputId, bounds: Rect) -> (r: Result<(), WmError>)
        ensures
            r == (if old(self)@.has(id) {
                Ok(())
            } else {
                Err(WmError::UnknownOutput)
            }),
            final(self)@ == (if r is Ok {
                old(self)@.with_bounds(id, bounds)
            } else {
                old(self)@
            }),
            old(self)@.wf() ==> final(self)@.wf(),
    {
        let i: usize = self.position(id);
        if i >= self.outputs.len() {
            return Err(WmError::UnknownOutput);
        }
        let ghost before = self.outputs@[i as int];
        assert(self@.outputs[i as int] == output_view(before));
        let mut layers: Vec<StrutLayer> = Vec::new();
        std::mem::swap(&mut layers, &mut self.outputs[i].layers);
        let o = OutputState { id, bounds, layers };
        self.outputs.set(i, o);
        assert(self@.outputs =~= old(self)@.with_bounds(id, bounds).outputs);
        Ok(())
    }

    /// Lets `name` reserve edges of an output; its earlier reservation there is
    /// replaced.
    pub fn set_strut_layer(&mut self, id: OutputId, name: &str, struts: Struts) -> (r: Result<
        (),
        WmError,
    >)
        ensures
            r == (if old(self)@.has(id) {
                Ok(())
            } else {
                Err(WmError::UnknownOutput)
            }),
            final(self)@ == old(self)@.set_layer(id, name@, struts),
            old(self)@.wf() ==> final(self)@.wf(),
    {
        let i: usize = self.position(id);
        if i >= self.outputs.len() {
            return Err(WmError::UnknownOutput);
        }
        assert(self@.outputs[i as int] == output_view(self.outputs@[i as int]));
        let bounds: Rect = self.outputs[i].bounds;
        let mut layers: Vec<StrutLayer> = Vec::new();
        std::mem::swap(&mut layers, &mut self.outputs[i].layers);
        let at: usize = layer_position(&layers, name);
        let ghost was = layers_view(layers@);
        let layer = StrutLayer { name: own(name), struts };
        if at < layers.len() {
            layers.set(at, layer);
        } else {
            layers.push(layer);
        }
        assert(layers_view(layers@) =~= with_layer(was, name@, struts));
        self.outputs.set(i, OutputState { id, bounds, layers });
        assert(self@.outputs =~= old(self)@.set_layer(id, name@, struts).outputs);
        Ok(())
    }

    /// Drops the reservation of `name` on an output.
    pub fn clear_strut_layer(&mut self, id: OutputId, name: &str) -> (r: Result<(), WmError>)
        ensures
            r == (if old(self)@.has(id) {
                Ok(())
            } else {
                Err(WmError::UnknownOutput)
            }),
            final(self)@ == old(self)@.clear_layer(id, name@),
            old(self)@.wf() ==> final(self)@.wf(),
    {
        let i: usize = self.position(id);
        if i >= self.outputs.len() {
            return Err(WmError::UnknownOutput);
        }
        assert(self@.outputs[i as int] == output_view(self.outputs@[i as int]));
        let bounds: Rect = self.outputs[i].bounds;
        let mut layers: Vec<StrutLayer> = Vec::new();
        std::mem::swap(&mut layers, &mut self.outputs[i].layers);
        let at: usize = layer_position(&layers, name);
        let ghost was = layers_view(layers@);
        if at < layers.len() {
            layers.remove(at);
        }
        assert(layers_view(layers@) =~= without_layer(was, name@));
        self.outputs.set(i, OutputState { id, bounds, layers });
        assert(self@.outputs =~= old(self)@.clear_layer(id, name@).outputs);
        Ok(())
    }

    /// The reservation that is made by hand.
    pub fn set_struts(&mut self, id: OutputId, struts: Struts) -> (r: Result<(), WmError>)
        ensures
            r == (if old(self)@.has(id) {
                Ok(())
            } else {
                Err(WmError::UnknownOutput)
            }),
            final(self)@ == old(self)@.set_layer(id, "manual"@, struts),
            old(self)@.wf() ==> final(self)@.wf(),
    {
        self.set_strut_layer(id, "manual", struts)
    }
}

fn layer_position(layers: &Vec<StrutLayer>, name: &str) -> (r: usize)
    ensures
        r == layer_index(layers_view(layers@), name@, 0),
        r <= layers.len(),
{
    let mut i: usize = 0;
    let ghost all = layers_view(layers@);
    while i < layers.len()
        invariant
            i <= layers.len(),
            all == layers_view(layers@),
            layer_index(all, name@, 0) == layer_index(all, name@, i as int),
        decreases layers.len() - i,
    {
        assert(all[i as int].0 == layers@[i as int].name@);
        if str_eq(layers[i].name.as_str(), name) {
            return i;
        }
        i += 1;
    }
    i
}

// ---------------------------------------------------------------------------
// Laws
// ---------------------------------------------------------------------------

proof fn lemma_no_layer(layers: Layers, name: Seq<char>, i: int)
    requires
        0 <= i <= layers.len(),
        forall|k: int| i <= k < layers.len() ==> (#[trigger] layers[k]).0 != name,
    ensures
        layer_index(layers, name, i) == layers.len(),
    decreases layers.len() - i,
{
    if i < layers.len() {
        lemma_no_layer(layers, name, i + 1);
    }
}

/// A reservation that is made and dropped again leaves every other one as it
/// was.
pub proof fn law_layer_round_trip(layers: Layers, name: Seq<char>, s: Struts)
    requires
        layer_index(layers, name, 0) == layers.len(),
    ensures
        without_layer(with_layer(layers, name, s), name) == layers,
{
    lemma_layer_index(layers, name, 0);
    let more = layers.push((name, s));
    lemma_layer_index(more, name, 0);
    let i = layer_index(more, name, 0);
    assert(more[layers.len() as int].0 == name);
    assert(i == layers.len()) by {
        if i < layers.len() {
            assert(more[i] == layers[i]);
        }
    }
    assert(more.remove(i) =~= layers);
}

/// While `name` reserves `s`, the output reserves at least `s` on every edge.
pub proof fn law_layer_reserves(layers: Layers, i: int)
    requires
        0 <= i < layers.len(),
    ensures
        composed(layers).top >= layers[i].1.top,
        composed(layers).bottom >= layers[i].1.bottom,
        composed(layers).left >= layers[i].1.left,
        composed(layers).right >= layers[i].1.right,
    decreases layers.len(),
{
    if i < layers.len() - 1 {
        law_layer_reserves(layers.drop_last(), i);
    }
}

/// The right and the bottom edge of a rectangle belong to its neighbours: of two that
/// meet, a point on the line between them is in one alone.
pub proof fn law_edges(r: Rect, py: int)
    requires
        r.w > 0,
        r.h > 0,
        r.y <= py < r.y + r.h,
    ensures
        r.holds(r.x as int, py),
        r.holds(r.x + r.w - 1, py),
        !r.holds(r.x + r.w, py),
        !r.holds(r.x - 1, py),
        r.holds(r.x as int, r.y as int),
        !r.holds(r.x as int, r.y + r.h),
        !r.holds(r.x as int, r.y - 1),
{
}

/// What is reserved on an edge is what the widest reservation takes, and no more: it
/// is none where nothing is reserved there.
pub proof fn law_reserves_no_more(layers: Layers)
    ensures
        composed(layers).top == 0 || exists|i: int|
            0 <= i < layers.len() && composed(layers).top == (#[trigger] layers[i]).1.top,
        composed(layers).bottom == 0 || exists|i: int|
            0 <= i < layers.len() && composed(layers).bottom == (#[trigger] layers[i]).1.bottom,
        composed(layers).left == 0 || exists|i: int|
            0 <= i < layers.len() && composed(layers).left == (#[trigger] layers[i]).1.left,
        composed(layers).right == 0 || exists|i: int|
            0 <= i < layers.len() && composed(layers).right == (#[trigger] layers[i]).1.right,
        composed(layers).top >= 0 && composed(layers).bottom >= 0 && composed(layers).left >= 0
            && composed(layers).right >= 0,
    decreases layers.len(),
{
    if layers.len() > 0 {
        let rest = layers.drop_last();
        law_reserves_no_more(rest);
        let c = composed(layers);
        let n = layers.len() - 1;
        assert(layers[n] == layers.last());
        if c.top != 0 && c.top == composed(rest).top {
            let i = choose|i: int|
                0 <= i < rest.len() && composed(rest).top == (#[trigger] rest[i]).1.top;
            assert(layers[i] == rest[i]);
        }
        if c.bottom != 0 && c.bottom == composed(rest).bottom {
            let i = choose|i: int|
                0 <= i < rest.len() && composed(rest).bottom == (#[trigger] rest[i]).1.bottom;
            assert(layers[i] == rest[i]);
        }
        if c.left != 0 && c.left == composed(rest).left {
            let i = choose|i: int|
                0 <= i < rest.len() && composed(rest).left == (#[trigger] rest[i]).1.left;
            assert(layers[i] == rest[i]);
        }
        if c.right != 0 && c.right == composed(rest).right {
            let i = choose|i: int|
                0 <= i < rest.len() && composed(rest).right == (#[trigger] rest[i]).1.right;
            assert(layers[i] == rest[i]);
        }
    }
}

/// A reservation is made under its name: it is there afterwards, and every other
/// name reserves what it did.
pub proof fn law_layer_set(layers: Layers, name: Seq<char>, s: Struts, i: int)
    requires
        0 <= i < layers.len(),
    ensures
        with_layer(layers, name, s).contains((name, s)),
        layers[i].0 != name ==> with_layer(layers, name, s)[i] == layers[i],
        with_layer(layers, name, s).len() <= layers.len() + 1,
        layers[i].0 == name ==> with_layer(layers, name, s).len() == layers.len(),
{
    lemma_layer_at(layers, name, 0);
    let k = layer_index(layers, name, 0);
    let w = with_layer(layers, name, s);
    if k < layers.len() {
        assert(w[k] == (name, s));
    } else {
        assert(w[layers.len() as int] == (name, s));
        assert(layers[i].0 != name);
    }
}

proof fn lemma_layer_at(layers: Layers, name: Seq<char>, i: int)
    requires
        0 <= i <= layers.len(),
    ensures
        i <= layer_index(layers, name, i) <= layers.len(),
        layer_index(layers, name, i) < layers.len() ==> layers[layer_index(layers, name, i)].0
            == name,
        forall|k: int| i <= k < layer_index(layers, name, i) ==> (#[trigger] layers[k]).0 != name,
    decreases layers.len() - i,
{
    if i < layers.len() && layers[i].0 != name {
        lemma_layer_at(layers, name, i + 1);
    }
}

/// Reservations of an output that is not there change nothing, and those of one output
/// leave the bounds and the other outputs as they are.
pub proof fn law_reservation_is_local(wm: WmView, id: OutputId, name: Seq<char>, s: Struts, i: int)
    requires
        0 <= i < wm.outputs.len(),
    ensures
        !wm.has(id) ==> wm.set_layer(id, name, s) == wm && wm.clear_layer(id, name) == wm,
        wm.set_layer(id, name, s).outputs.len() == wm.outputs.len(),
        wm.set_layer(id, name, s).outputs[i].bounds == wm.outputs[i].bounds,
        wm.set_layer(id, name, s).outputs[i].id == wm.outputs[i].id,
        wm.outputs[i].id != id ==> wm.set_layer(id, name, s).outputs[i] == wm.outputs[i],
        wm.outputs[i].id != id ==> wm.clear_layer(id, name).outputs[i] == wm.outputs[i],
        wm.set_layer(id, name, s).next == wm.next,
{
    lemma_output_place(wm.outputs, id, 0);
}

proof fn lemma_output_place(outs: Seq<OutputView>, id: OutputId, i: int)
    requires
        0 <= i <= outs.len(),
    ensures
        i <= output_index(outs, id, i) <= outs.len(),
        output_index(outs, id, i) < outs.len() ==> outs[output_index(outs, id, i)].id == id,
    decreases outs.len() - i,
{
    if i < outs.len() && outs[i].id != id {
        lemma_output_place(outs, id, i + 1);
    }
}

/// An output is told with its own id and bounds, and with what its layers reserve
/// together.
pub proof fn law_public_output(o: OutputView, name: Seq<char>, s: Struts)
    ensures
        public_output(o).id == o.id,
        public_output(o).bounds == o.bounds,
        o.layers.len() == 0 ==> public_output(o).struts.top == 0 && public_output(o).struts.bottom
            == 0 && public_output(o).struts.left == 0 && public_output(o).struts.right == 0,
        o.layers == seq![(name, s)] && s.top >= 0 && s.bottom >= 0 && s.left >= 0 && s.right >= 0
            ==> public_output(o).struts == s,
{
    reveal_with_fuel(composed, 2);
    assert(seq![(name, s)].drop_last() =~= seq![]);
}

} // verus!
