//! How an event finds the plugin that takes it.
//!
//! The plugins are asked by input priority, and the first whose handlers consume
//! the event ends the walk. What the handlers report, each if it is run, is the
//! caller's to say.

use vstd::prelude::*;

use crate::input::Gesture;
use crate::plugins::gestures::{gesture_step, GestureStep};
use crate::plugins::touch::{
    motion_route, no_claims, on_pointer_motion, on_pointer_press, on_pointer_release, press_route,
    release_route, Handler, Route, RouteFacts, RouteView, TouchClaims, Touched,
};
use crate::plugins::{
    consumed_at, fresh_walk, input_order, lemma_input_order, lemma_next_active, Dispatch,
    DispatchStep, GesturePlugin, Plugin, ShellFacts, ShellPlugin,
};
use crate::wm::OutputId;

verus! {

/// An event that leaves no claim behind.
#[derive(Debug, Clone, Copy, PartialEq, Eq, Structural)]
pub enum InputEvent {
    PointerPress,
    PointerMotion,
    PointerRelease,
    TouchMotion { slot: i32 },
    TouchUp { slot: i32 },
}

/// What a plugin answers to an event.
pub open spec fn route_to(
    e: InputEvent,
    p: ShellPlugin,
    claims: TouchClaims,
    f: RouteFacts,
) -> RouteView {
    match e {
        InputEvent::PointerPress => press_route(p, f),
        InputEvent::PointerMotion => motion_route(p, f),
        InputEvent::PointerRelease => release_route(p, f),
        InputEvent::TouchMotion { slot } => claims.drag_route(p, f, slot),
        InputEvent::TouchUp { slot } => claims.up_route(p, f, slot),
    }
}

/// Whether one of the handlers is in the list.
pub open spec fn overlap(list: Seq<Handler>, hs: Seq<Handler>) -> bool {
    exists|i: int| 0 <= i < hs.len() && list.contains(#[trigger] hs[i])
}

/// Whether a plugin that answers so takes the event, where these handlers consume
/// it.
pub open spec fn settles(r: RouteView, consuming: Seq<Handler>) -> bool {
    match r {
        RouteView::Pass => false,
        RouteView::Swallow => true,
        RouteView::Consume(_) => true,
        RouteView::Try(hs) => overlap(consuming, hs),
    }
}

/// The plugin that takes an event: the first in input order, among the active
/// ones, whose handlers consume it.
pub open spec fn taker(
    e: InputEvent,
    claims: TouchClaims,
    facts: ShellFacts,
    f: RouteFacts,
    consuming: Seq<Handler>,
) -> Option<ShellPlugin> {
    let order = fresh_walk().order;
    let k = consumed_at(
        order,
        facts,
        |p: ShellPlugin| settles(route_to(e, p, claims, f), consuming),
        0,
    );
    if k < order.len() {
        Some(order[k])
    } else {
        None
    }
}

fn among(list: &Vec<Handler>, h: Handler) -> (r: bool)
    ensures
        r == list@.contains(h),
{
    let mut i: usize = 0;
    while i < list.len()
        invariant
            i <= list.len(),
            forall|k: int| 0 <= k < i ==> #[trigger] list@[k] != h,
        decreases list.len() - i,
    {
        if list[i] == h {
            assert(list@[i as int] == h);
            return true;
        }
        i += 1;
    }
    false
}

fn any_among(list: &Vec<Handler>, hs: &Vec<Handler>) -> (r: bool)
    ensures
        r == overlap(list@, hs@),
{
    let mut i: usize = 0;
    while i < hs.len()
        invariant
            i <= hs.len(),
            forall|k: int| 0 <= k < i ==> !list@.contains(#[trigger] hs@[k]),
        decreases hs.len() - i,
    {
        if among(list, hs[i]) {
            assert(list@.contains(hs@[i as int]));
            return true;
        }
        i += 1;
    }
    false
}

fn settled(r: &Route, consuming: &Vec<Handler>) -> (b: bool)
    ensures
        b == settles(r@, consuming@),
{
    match r {
        Route::Pass => false,
        Route::Swallow => true,
        Route::Consume(_) => true,
        Route::Try(v) => any_among(consuming, v),
    }
}

fn route(e: InputEvent, p: ShellPlugin, claims: &TouchClaims, f: &RouteFacts) -> (r: Route)
    ensures
        r@ == route_to(e, p, *claims, *f),
{
    match e {
        InputEvent::PointerPress => on_pointer_press(p, f),
        InputEvent::PointerMotion => on_pointer_motion(p, f),
        InputEvent::PointerRelease => on_pointer_release(p, f),
        InputEvent::TouchMotion { slot } => claims.on_touch_motion(p, f, slot),
        InputEvent::TouchUp { slot } => {
            let mut left: TouchClaims = *claims;
            left.on_touch_up(p, f, slot)
        },
    }
}

/// Try each active plugin by input priority; stop at the first that takes the
/// event.
fn dispatch(
    e: InputEvent,
    claims: &TouchClaims,
    facts: &ShellFacts,
    f: &RouteFacts,
    consuming: &Vec<Handler>,
) -> (r: Option<ShellPlugin>)
    ensures
        r == taker(e, *claims, *facts, *f, consuming@),
{
    let ghost order = fresh_walk().order;
    let ghost takes = |p: ShellPlugin| settles(route_to(e, p, *claims, *f), consuming@);
    let ghost k = consumed_at(order, *facts, takes, 0);
    proof {
        lemma_next_active(order, *facts, 0);
    }
    let (mut walk, mut step) = Dispatch::start(facts);
    loop
        invariant
            order == fresh_walk().order,
            takes == (|p: ShellPlugin| settles(route_to(e, p, *claims, *f), consuming@)),
            k == consumed_at(order, *facts, takes, 0),
            walk@.wf(),
            walk@.order == order,
            match step {
                DispatchStep::Ask(p) => {
                    &&& walk@.asked == Some(p)
                    &&& walk@.at >= 1
                    &&& order[walk@.at - 1] == p
                    &&& k == (if takes(p) {
                        walk@.at - 1
                    } else {
                        consumed_at(order, *facts, takes, walk@.at)
                    })
                },
                DispatchStep::Done(r) => r == (if k < order.len() {
                    Some(order[k])
                } else {
                    None
                }),
            },
        decreases
            order.len() - walk@.at,
            if step is Ask {
                1int
            } else {
                0
            },
    {
        match step {
            DispatchStep::Done(r) => {
                return r;
            },
            DispatchStep::Ask(p) => {
                let r: Route = route(e, p, claims, f);
                let consumed: bool = settled(&r, consuming);
                assert(consumed == takes(p));
                proof {
                    lemma_next_active(order, *facts, walk@.at);
                }
                step = walk.answered(facts, p, consumed);
            },
        }
    }
}

/// A press of the pointer: the plugin that takes it, by its identifier.
pub fn pointer_press(facts: &ShellFacts, f: &RouteFacts, consuming: &Vec<Handler>) -> (r: Option<
    &'static str,
>)
    ensures
        match taker(InputEvent::PointerPress, no_claims(), *facts, *f, consuming@) {
            Some(p) => r is Some && r->0@ == p.id_spec(),
            None => r is None,
        },
{
    match dispatch(InputEvent::PointerPress, &TouchClaims::default(), facts, f, consuming) {
        Some(p) => Some(p.id()),
        None => None,
    }
}

/// A motion of the pointer: whether a plugin took it, so that no client gets it.
pub fn pointer_motion(facts: &ShellFacts, f: &RouteFacts, consuming: &Vec<Handler>) -> (r: bool)
    ensures
        r == (taker(InputEvent::PointerMotion, no_claims(), *facts, *f, consuming@) is Some),
{
    dispatch(InputEvent::PointerMotion, &TouchClaims::default(), facts, f, consuming).is_some()
}

/// A release of the pointer: whether a plugin took it.
pub fn pointer_release(facts: &ShellFacts, f: &RouteFacts, consuming: &Vec<Handler>) -> (r: bool)
    ensures
        r == (taker(InputEvent::PointerRelease, no_claims(), *facts, *f, consuming@)
            is Some),
{
    dispatch(InputEvent::PointerRelease, &TouchClaims::default(), facts, f, consuming).is_some()
}

/// A finger moved: whether a plugin took it.
pub fn touch_motion(
    claims: &TouchClaims,
    facts: &ShellFacts,
    f: &RouteFacts,
    slot: i32,
    consuming: &Vec<Handler>,
) -> (r: bool)
    ensures
        r == (taker(InputEvent::TouchMotion { slot }, *claims, *facts, *f, consuming@) is Some),
{
    dispatch(InputEvent::TouchMotion { slot }, claims, facts, f, consuming).is_some()
}

/// A finger was lifted: whether a plugin took it. That one gives its claim up.
pub fn touch_up(
    claims: &mut TouchClaims,
    facts: &ShellFacts,
    f: &RouteFacts,
    slot: i32,
    consuming: &Vec<Handler>,
) -> (r: bool)
    ensures
        ({
            let by = taker(InputEvent::TouchUp { slot }, *old(claims), *facts, *f, consuming@);
            &&& r == (by is Some)
            &&& *final(claims) == (match by {
                Some(p) => old(claims).after_up(p, slot),
                None => *old(claims),
            })
        }),
{
    match dispatch(InputEvent::TouchUp { slot }, claims, facts, f, consuming) {
        Some(p) => {
            claims.on_touch_up(p, f, slot);
            true
        },
        None => false,
    }
}

// ---------------------------------------------------------------------------
// Presses of a finger
// ---------------------------------------------------------------------------

/// What a handler of a touch comes to, if it is run.
pub open spec fn report(h: Handler, consuming: Seq<Handler>, dragging: Seq<Handler>) -> Touched {
    Touched { consumed: consuming.contains(h), dragging: dragging.contains(h) }
}

/// The claims once the handlers from `i` on ran, up to the first that consumes
/// the touch, and whether one did.
pub open spec fn tried(
    c: TouchClaims,
    hs: Seq<Handler>,
    slot: i32,
    consuming: Seq<Handler>,
    dragging: Seq<Handler>,
    i: int,
) -> (TouchClaims, bool)
    decreases hs.len() - i,
{
    if i < 0 || i >= hs.len() {
        (c, false)
    } else {
        let t = report(hs[i], consuming, dragging);
        let next = c.after_press(hs[i], t, slot);
        if TouchClaims::consumed(hs[i], t) {
            (next, true)
        } else {
            tried(next, hs, slot, consuming, dragging, i + 1)
        }
    }
}

/// The claims once a plugin's answer was followed, and whether it took the touch.
pub open spec fn followed(
    c: TouchClaims,
    r: RouteView,
    slot: i32,
    consuming: Seq<Handler>,
    dragging: Seq<Handler>,
) -> (TouchClaims, bool) {
    match r {
        RouteView::Pass => (c, false),
        RouteView::Swallow => (c, true),
        RouteView::Consume(h) => (c.after_press(h, report(h, consuming, dragging), slot), true),
        RouteView::Try(hs) => tried(c, hs, slot, consuming, dragging, 0),
    }
}

/// The claims once the plugins from `i` on were asked, up to the first that takes
/// the touch, and which one did.
pub open spec fn touched_from(
    c: TouchClaims,
    order: Seq<ShellPlugin>,
    facts: ShellFacts,
    f: RouteFacts,
    slot: i32,
    consuming: Seq<Handler>,
    dragging: Seq<Handler>,
    i: int,
) -> (TouchClaims, Option<ShellPlugin>)
    decreases order.len() - i,
{
    if i < 0 || i >= order.len() {
        (c, None)
    } else if !order[i].enabled_spec(facts) {
        touched_from(c, order, facts, f, slot, consuming, dragging, i + 1)
    } else {
        let (next, taken) = followed(c, c.down_route(order[i], f), slot, consuming, dragging);
        if taken {
            (next, Some(order[i]))
        } else {
            touched_from(next, order, facts, f, slot, consuming, dragging, i + 1)
        }
    }
}

fn try_each(
    claims: &mut TouchClaims,
    hs: &Vec<Handler>,
    slot: i32,
    consuming: &Vec<Handler>,
    dragging: &Vec<Handler>,
) -> (taken: bool)
    ensures
        (*final(claims), taken) == tried(*old(claims), hs@, slot, consuming@, dragging@, 0),
{
    let mut i: usize = 0;
    while i < hs.len()
        invariant
            i <= hs.len(),
            tried(*old(claims), hs@, slot, consuming@, dragging@, 0) == tried(
                *claims,
                hs@,
                slot,
                consuming@,
                dragging@,
                i as int,
            ),
        decreases hs.len() - i,
    {
        let h: Handler = hs[i];
        let t = Touched { consumed: among(consuming, h), dragging: among(dragging, h) };
        if claims.touched(h, t, slot) {
            return true;
        }
        i += 1;
    }
    false
}

fn follow(
    claims: &mut TouchClaims,
    r: &Route,
    slot: i32,
    consuming: &Vec<Handler>,
    dragging: &Vec<Handler>,
) -> (taken: bool)
    ensures
        (*final(claims), taken) == followed(*old(claims), r@, slot, consuming@, dragging@),
{
    match r {
        Route::Pass => false,
        Route::Swallow => true,
        Route::Consume(h) => {
            let t = Touched { consumed: among(consuming, *h), dragging: among(dragging, *h) };
            claims.touched(*h, t, slot);
            true
        },
        Route::Try(hs) => try_each(claims, hs, slot, consuming, dragging),
    }
}

/// A finger came down: the plugin that takes it, by its identifier. A handler
/// that starts a drag claims the slot for its plugin.
pub fn touch_press(
    claims: &mut TouchClaims,
    facts: &ShellFacts,
    f: &RouteFacts,
    slot: i32,
    consuming: &Vec<Handler>,
    dragging: &Vec<Handler>,
) -> (r: Option<&'static str>)
    ensures
        ({
            let (after, by) = touched_from(
                *old(claims),
                fresh_walk().order,
                *facts,
                *f,
                slot,
                consuming@,
                dragging@,
                0,
            );
            &&& *final(claims) == after
            &&& match by {
                Some(p) => r is Some && r->0@ == p.id_spec(),
                None => r is None,
            }
        }),
{
    let order: Vec<ShellPlugin> = input_order();
    let mut i: usize = 0;
    while i < order.len()
        invariant
            i <= order.len(),
            order@ == fresh_walk().order,
            touched_from(
                *old(claims),
                order@,
                *facts,
                *f,
                slot,
                consuming@,
                dragging@,
                0,
            ) == touched_from(
                *claims,
                order@,
                *facts,
                *f,
                slot,
                consuming@,
                dragging@,
                i as int,
            ),
        decreases order.len() - i,
    {
        let p: ShellPlugin = order[i];
        if p.enabled(facts) {
            let answer: Route = claims.on_touch_press(p, f);
            if follow(claims, &answer, slot, consuming, dragging) {
                return Some(p.id());
            }
        }
        i += 1;
    }
    None
}

// ---------------------------------------------------------------------------
// Gestures
// ---------------------------------------------------------------------------

/// What is done for a recognised gesture. The plugins are asked as for any other
/// event, and only one answers gestures; it is always active, and every other
/// declines.
pub fn dispatch_gesture(facts: &ShellFacts, primary: Option<OutputId>, gesture: Gesture) -> (r:
    GestureStep)
    ensures
        r == gesture_step(primary, gesture),
{
    let ghost order = fresh_walk().order;
    let ghost j = choose|j: int| 0 <= j < order.len() && order[j] == ShellPlugin::Gestures;
    proof {
        lemma_input_order();
        assert(order.contains(ShellPlugin::Gestures));
        lemma_next_active(order, *facts, 0);
    }
    let (mut walk, mut step) = Dispatch::start(facts);
    loop
        invariant
            order == fresh_walk().order,
            0 <= j < order.len(),
            order[j] == ShellPlugin::Gestures,
            walk@.wf(),
            walk@.order == order,
            match step {
                DispatchStep::Ask(p) => {
                    &&& walk@.asked == Some(p)
                    &&& 1 <= walk@.at <= j + 1
                    &&& order[walk@.at - 1] == p
                },
                DispatchStep::Done(_) => false,
            },
        decreases order.len() - walk@.at,
    {
        match step {
            DispatchStep::Done(_) => {
                return GestureStep::Declined;
            },
            DispatchStep::Ask(p) => {
                if let ShellPlugin::Gestures = p {
                    return GesturePlugin.on_gesture(primary, gesture);
                }
                proof {
                    lemma_next_active(order, *facts, walk@.at);
                }
                step = walk.answered(facts, p, false);
            },
        }
    }
}

// ---------------------------------------------------------------------------
// Laws
// ---------------------------------------------------------------------------

/// A plugin that does not take a lifted finger had no claim to it.
pub proof fn law_only_taker_gives_up(
    c: TouchClaims,
    p: ShellPlugin,
    f: RouteFacts,
    slot: i32,
    consuming: Seq<Handler>,
)
    requires
        !settles(c.up_route(p, f, slot), consuming),
    ensures
        c.after_up(p, slot) == c,
{
}

/// A plugin that lets an event pass does not take it, one that swallows or consumes it
/// does, and one that offers handlers does where one of them consumes it.
pub proof fn law_settling(h: Handler, consuming: Seq<Handler>)
    ensures
        !settles(RouteView::Pass, consuming),
        settles(RouteView::Swallow, consuming),
        settles(RouteView::Consume(h), consuming),
        settles(RouteView::Try(seq![h]), consuming) == consuming.contains(h),
        !settles(RouteView::Try(seq![h]), seq![]),
{
    assert(seq![h][0] == h);
    if overlap(consuming, seq![h]) {
        let i = choose|i: int| 0 <= i < seq![h].len() && consuming.contains(#[trigger] seq![h][i]);
        assert(seq![h][i] == h);
    }
    if overlap(Seq::<Handler>::empty(), seq![h]) {
        let i = choose|i: int|
            0 <= i < seq![h].len() && Seq::<Handler>::empty().contains(#[trigger] seq![h][i]);
    }
}

/// Each kind of event is put to a plugin as that kind: presses as presses, motions as
/// motions, and those of a finger with its slot.
pub proof fn law_routes(p: ShellPlugin, c: TouchClaims, f: RouteFacts, slot: i32)
    ensures
        route_to(InputEvent::PointerPress, p, c, f) == press_route(p, f),
        route_to(InputEvent::PointerMotion, p, c, f) == motion_route(p, f),
        route_to(InputEvent::PointerRelease, p, c, f) == release_route(p, f),
        route_to(InputEvent::TouchMotion { slot }, p, c, f) == c.drag_route(p, f, slot),
        route_to(InputEvent::TouchUp { slot }, p, c, f) == c.up_route(p, f, slot),
{
}

/// Handlers are run in order up to the first that consumes the touch, which is told what
/// it reported; those behind it claim nothing.
pub proof fn law_handlers_in_order(
    c: TouchClaims,
    first: Handler,
    second: Handler,
    slot: i32,
    consuming: Seq<Handler>,
    dragging: Seq<Handler>,
)
    requires
        first != Handler::SelectionMenuPress,
        second != Handler::SelectionMenuPress,
    ensures
        report(first, consuming, dragging) == (Touched {
            consumed: consuming.contains(first),
            dragging: dragging.contains(first),
        }),
        consuming.contains(first) ==> tried(c, seq![first, second], slot, consuming, dragging, 0)
            == (c.after_press(first, report(first, consuming, dragging), slot), true),
        !consuming.contains(first) && !consuming.contains(second) ==> !tried(
            c,
            seq![first, second],
            slot,
            consuming,
            dragging,
            0,
        ).1,
        followed(c, RouteView::Pass, slot, consuming, dragging) == (c, false),
        followed(c, RouteView::Swallow, slot, consuming, dragging) == (c, true),
{
    reveal_with_fuel(tried, 4);
    let hs = seq![first, second];
    assert(hs[0] == first && hs[1] == second);
}

} // verus!
