//! Input — on-screen keyboard state machine + touch gestures.
//!
//! The on-screen keyboard (OSK) is a layout-aware state machine so the
//! compositor and the shell agree on its lifecycle. After
//! [`OskController::bind`], opening the keyboard reserves the bottom of an
//! output for it and closing gives the room back, so that the focused window
//! shrinks instead of being covered. Until then the controller is purely a state
//! machine.

use std::collections::HashMap;
use vstd::prelude::*;

use crate::keyboard::pages::law_shift_shows_capitals;
use crate::keyboard::{
    action_label, action_text, alpha, board, board_ok, cap_text, caps, code, find_key, floor_div,
    key_under, label_of, law_pages_nonempty, layout_rects, lemma_key_found, lemma_page_rect, modest, no_mods,
    page_rects, xkb_of, xkb_view, Action, Board, Edge, KeyAction, KeyActionView, KeyCap,
    KeyCapView, KeyKind, KeyKindView, KeyRect, Keyboard, KeyboardView, LayoutId, Modifier, Mods,
    Placement, ShiftState,
};
use crate::text::{own, own_all, strings};
use crate::wm::{
    coord, law_layer_round_trip, lemma_output_index, no_struts, output_index, with_layer, OutputId,
    Struts, WindowManager, WmView, COORD_LIMIT, PX,
};

verus! {

broadcast use vstd::std_specs::hash::group_hash_axioms;

/// Height of the draggable title strip at the top of the panel.
pub const OSK_TITLE_H: i64 = 30 * PX;

/// Inter-key gap.
pub const OSK_KEY_GAP: i64 = 6 * PX;

/// Width of the close (✕) button at the right end of the title strip.
pub const OSK_CLOSE_W: i64 = 40 * PX;

// ---------------------------------------------------------------------------
// OSK
// ---------------------------------------------------------------------------

#[derive(Debug, Clone, Copy, PartialEq, Eq, Structural)]
pub enum OskState {
    Closed,
    Opening,
    Open,
    Closing,
}

#[derive(Debug, Clone, Copy, PartialEq, Eq, Structural)]
pub enum OskLayout {
    Full,
    Split,
    Floating,
}

#[derive(Debug, Clone, Copy, PartialEq, Eq, Structural)]
pub enum InputMode {
    Text,
    Numeric,
    Url,
    Email,
    Search,
    Password,
}

/// What the enter key says in an input mode.
pub open spec fn enter_text(mode: InputMode) -> Seq<char> {
    match mode {
        InputMode::Search => "Search"@,
        InputMode::Url => "Go"@,
        InputMode::Email => "Next"@,
        _ => "↵"@,
    }
}

impl InputMode {
    pub fn enter_label(self) -> (r: &'static str)
        ensures
            r@ == enter_text(self),
    {
        match self {
            InputMode::Search => "Search",
            InputMode::Url => "Go",
            InputMode::Email => "Next",
            _ => "↵",
        }
    }
}

#[derive(Debug, Clone, Copy, PartialEq, Eq, Structural)]
pub struct OskRect {
    pub x: i64,
    pub y: i64,
    pub w: i64,
    pub h: i64,
}

impl OskRect {
    pub open spec fn bounded(self) -> bool {
        coord(self.x) && coord(self.y) && coord(self.w) && coord(self.h)
    }

    pub open spec fn holds(self, px: int, py: int) -> bool {
        self.x <= px < self.x + self.w && self.y <= py < self.y + self.h
    }
}

#[derive(Debug, Clone, Copy, PartialEq, Eq, Structural)]
pub struct FocusedField {
    pub rect: OskRect,
    pub mode: InputMode,
    pub has_hw_keyboard: bool,
}

#[derive(Debug, Clone, Copy, PartialEq, Eq, Structural)]
pub struct OskGeometry {
    pub panel: OskRect,
    pub reserved_top_y: i64,
}

#[derive(Debug, Clone, Copy, PartialEq, Eq, Structural)]
pub struct OskConfig {
    pub screen_w: i64,
    pub screen_h: i64,
    pub keyboard_h: i64,
    pub margin: i64,
    pub layout: OskLayout,
}

impl OskConfig {
    pub open spec fn bounded(self) -> bool {
        coord(self.screen_w) && coord(self.screen_h) && coord(self.keyboard_h) && coord(self.margin)
    }
}

impl Default for OskConfig {
    fn default() -> (r: OskConfig)
        ensures
            r == (OskConfig {
                screen_w: (1440 * PX) as i64,
                screen_h: (900 * PX) as i64,
                keyboard_h: (280 * PX) as i64,
                margin: (24 * PX) as i64,
                layout: OskLayout::Full,
            }),
    {
        OskConfig {
            screen_w: 1440 * PX,
            screen_h: 900 * PX,
            keyboard_h: 280 * PX,
            margin: 24 * PX,
            layout: OskLayout::Full,
        }
    }
}

#[derive(Debug, Clone, Copy, PartialEq, Eq, Structural)]
pub enum OskError {
    /// Illegal transition, from the first state to the second.
    BadTransition(OskState, OskState),
}

/// Which output the keyboard reserves room on, and whether it does so now.
#[derive(Debug, Clone, Copy, PartialEq, Eq, Structural)]
pub struct OskBinding {
    pub output: OutputId,
    pub has_layer: bool,
}

pub struct OskController {
    state: OskState,
    config: OskConfig,
    enter_label: &'static str,
    binding: Option<OskBinding>,
    /// The live keyboard: active page, modifier latches and placement.
    kb: Keyboard,
    /// Active title-bar drag: pointer offset (dx,dy) from the panel's top-left
    /// at grab time, so the panel tracks the finger 1:1.
    drag: Option<(i64, i64)>,
    /// The key currently held down (for the press-down visual), as a (row,col).
    pressed: Option<(usize, usize)>,
}

pub struct OskView {
    pub state: OskState,
    pub config: OskConfig,
    pub enter_label: Seq<char>,
    pub binding: Option<OskBinding>,
    pub kb: KeyboardView,
    pub drag: Option<(i64, i64)>,
    pub pressed: Option<(usize, usize)>,
}

impl View for OskController {
    type V = OskView;

    closed spec fn view(&self) -> OskView {
        OskView {
            state: self.state,
            config: self.config,
            enter_label: self.enter_label@,
            binding: self.binding,
            kb: self.kb@,
            drag: self.drag,
            pressed: self.pressed,
        }
    }
}

/// Whether the keyboard is on screen or on its way there.
pub open spec fn visible(s: OskState) -> bool {
    s == OskState::Open || s == OskState::Opening
}

pub open spec fn far_coord(v: i64) -> bool {
    -4 * COORD_LIMIT <= v <= 4 * COORD_LIMIT
}

/// The reservation of the keyboard.
pub open spec fn osk_struts(c: OskConfig) -> Struts {
    Struts { bottom: c.keyboard_h, ..no_struts() }
}

pub open spec fn min_int(a: int, b: int) -> int {
    if a <= b {
        a
    } else {
        b
    }
}

pub open spec fn max_of(a: int, b: int) -> int {
    if a >= b {
        a
    } else {
        b
    }
}

/// A value kept between two bounds.
pub open spec fn clamped(v: int, lo: int, hi: int) -> int {
    if v < lo {
        lo
    } else if v > hi {
        hi
    } else {
        v
    }
}

/// The width of a docked panel: 72% of the screen, between 680 and 1120 pixels,
/// and no wider than the screen.
pub open spec fn docked_w(c: OskConfig) -> int {
    min_int(clamped(c.screen_w * 72 / 100, 680 * PX, 1120 * PX), c.screen_w as int)
}

/// A docked panel is centred.
pub open spec fn docked_x(c: OskConfig) -> int {
    max_of((c.screen_w - docked_w(c)) / 2, 0)
}

/// The width of a floating panel: 62% of the screen, at least 480 pixels, and no
/// wider than the screen.
pub open spec fn floating_w(c: OskConfig) -> int {
    min_int(max_of(c.screen_w * 62 / 100, 480 * PX), c.screen_w as int)
}

/// The panel for a placement.
pub open spec fn panel_of(c: OskConfig, p: Placement) -> OskRect {
    match p {
        Placement::Docked(Edge::Bottom) => OskRect {
            x: docked_x(c) as i64,
            y: (c.screen_h - c.keyboard_h) as i64,
            w: docked_w(c) as i64,
            h: c.keyboard_h,
        },
        Placement::Docked(Edge::Top) => OskRect {
            x: docked_x(c) as i64,
            y: 0,
            w: docked_w(c) as i64,
            h: c.keyboard_h,
        },
        Placement::Floating { x, y } => OskRect { x, y, w: floating_w(c) as i64, h: c.keyboard_h },
    }
}

/// Where the configured layout puts the panel when a field asks for it.
pub open spec fn geometry_of(c: OskConfig) -> OskGeometry {
    let panel = match c.layout {
        OskLayout::Floating => OskRect {
            x: (c.screen_w * 15 / 100) as i64,
            y: (c.screen_h - c.keyboard_h - 80 * PX) as i64,
            w: (c.screen_w * 70 / 100) as i64,
            h: c.keyboard_h,
        },
        _ => OskRect {
            x: 0,
            y: (c.screen_h - c.keyboard_h) as i64,
            w: c.screen_w,
            h: c.keyboard_h,
        },
    };
    OskGeometry { panel, reserved_top_y: panel.y }
}

impl OskView {
    pub open spec fn wf(self) -> bool {
        &&& self.kb.wf()
        &&& self.config.bounded()
        &&& self.kb.placement matches Placement::Floating { x, y } ==> far_coord(x) && far_coord(y)
        &&& self.drag matches Some((dx, dy)) ==> far_coord(dx) && far_coord(dy)
    }

    pub open spec fn panel(self) -> OskRect {
        panel_of(self.config, self.kb.placement)
    }

    pub open spec fn board(self) -> Board {
        let p = self.panel();
        board((p.x, p.y, p.w, p.h), OSK_TITLE_H, OSK_KEY_GAP)
    }

    /// The keys of the current page, laid out in the panel.
    pub open spec fn rects(self) -> Seq<KeyRect> {
        page_rects(self.kb.page.rows, self.kb.page.rows.len() as int, self.board())
    }

    /// The index of the key under a point; the number of keys where there is none.
    pub open spec fn key_index(self, px: int, py: int) -> int {
        key_under(self.rects(), px, py, 0)
    }

    pub open spec fn placed(self, placement: Placement) -> OskView {
        OskView { kb: KeyboardView { placement, ..self.kb }, ..self }
    }

    /// Once a drag went to a point: the panel floats where the finger took it,
    /// kept on the screen.
    pub open spec fn dragged(self, px: int, py: int) -> OskView {
        match self.drag {
            None => self,
            Some((dx, dy)) => self.placed(
                Placement::Floating {
                    x: clamped(
                        px - dx,
                        0,
                        max_of(self.config.screen_w - floating_w(self.config), 0),
                    ) as i64,
                    y: clamped(
                        py - dy,
                        0,
                        max_of(self.config.screen_h - self.config.keyboard_h, 0),
                    ) as i64,
                },
            ),
        }
    }

    /// Whether the panel stands at the height of a field.
    pub open spec fn covers(self, field: OskRect) -> bool {
        field.y + field.h > self.panel().y && field.y < self.panel().y + self.panel().h
    }

    /// Whether there is room for the panel above the field, and below it.
    pub open spec fn room_above(self, field: OskRect) -> bool {
        field.y - self.panel().h - self.config.margin >= 0
    }

    pub open spec fn room_below(self, field: OskRect) -> bool {
        field.y + field.h + self.config.margin + self.panel().h <= self.config.screen_h
    }

    /// Out of the way of a field: a floating panel that covers it goes above it if
    /// there is room, else below it, else to the bottom of the screen.
    pub open spec fn beside(self, field: OskRect) -> OskView {
        if self.kb.placement is Floating && self.covers(field) {
            self.placed(
                Placement::Floating {
                    x: self.panel().x,
                    y: (if self.room_above(field) {
                        field.y - self.panel().h - self.config.margin
                    } else if self.room_below(field) {
                        field.y + field.h + self.config.margin
                    } else {
                        max_of(self.config.screen_h - self.panel().h, 0)
                    }) as i64,
                },
            )
        } else {
            self
        }
    }

    /// How far a field reaches below the keyboard's upper edge.
    pub open spec fn overlap(self, field: OskRect) -> int {
        field.y + field.h - geometry_of(self.config).reserved_top_y
    }

    /// How far a field must be scrolled up.
    pub open spec fn scroll_for(self, field: OskRect) -> int {
        if self.overlap(field) > 0 {
            self.overlap(field) + self.config.margin
        } else {
            0
        }
    }

    /// The binding and the outputs once the keyboard reserves its room.
    pub open spec fn pushed(self, wm: WmView) -> (Option<OskBinding>, WmView) {
        match self.binding {
            None => (None, wm),
            Some(b) => (
                Some(OskBinding { has_layer: b.has_layer || wm.has(b.output), ..b }),
                wm.set_layer(b.output, "osk"@, osk_struts(self.config)),
            ),
        }
    }

    /// The outputs once the keyboard gives its room back, where it had any.
    pub open spec fn restored(self, wm: WmView) -> WmView {
        match self.binding {
            Some(b) => if b.has_layer {
                wm.clear_layer(b.output, "osk"@)
            } else {
                wm
            },
            None => wm,
        }
    }
}

proof fn lemma_share(w: int, percent: int)
    requires
        0 <= percent <= 100,
        -COORD_LIMIT <= w <= COORD_LIMIT,
    ensures
        -COORD_LIMIT <= w * percent / 100 <= COORD_LIMIT,
{
    assert(-COORD_LIMIT * 100 <= w * percent <= COORD_LIMIT * 100) by (nonlinear_arith)
        requires
            0 <= percent <= 100,
            -COORD_LIMIT <= w <= COORD_LIMIT,
    ;
}

/// A share of a length, rounded down.
fn share(w: i64, percent: i64) -> (r: i64)
    requires
        coord(w),
        0 <= percent <= 100,
    ensures
        r == w * percent / 100,
        coord(r),
{
    proof {
        lemma_share(w as int, percent as int);
        assert(-COORD_LIMIT * 100 <= w * percent <= COORD_LIMIT * 100) by (nonlinear_arith)
            requires
                0 <= percent <= 100,
                -COORD_LIMIT <= w <= COORD_LIMIT,
        ;
    }
    floor_div(w * percent, 100)
}

proof fn lemma_panel(o: OskView)
    requires
        o.wf(),
    ensures
        board_ok(o.board()),
        coord(o.panel().w),
        coord(o.panel().h),
        far_coord(o.panel().x),
        far_coord(o.panel().y),
        -COORD_LIMIT <= docked_w(o.config) <= COORD_LIMIT,
        -COORD_LIMIT <= floating_w(o.config) <= COORD_LIMIT,
        0 <= docked_x(o.config) <= COORD_LIMIT,
{
    lemma_share(o.config.screen_w as int, 72);
    lemma_share(o.config.screen_w as int, 62);
}

fn floating_width(c: &OskConfig) -> (r: i64)
    requires
        c.bounded(),
    ensures
        r == floating_w(*c),
{
    let narrow: i64 = share(c.screen_w, 62);
    let narrow: i64 = if narrow >= 480 * PX {
        narrow
    } else {
        480 * PX
    };
    if narrow <= c.screen_w {
        narrow
    } else {
        c.screen_w
    }
}

/// Resolve the panel rect from placement + screen size. A docked keyboard is a
/// *centred, normal-width* panel, so the dock stays visible either side of it; a
/// floating one is narrower so it reads as a movable window.
fn panel_rect_inner(c: &OskConfig, placement: Placement) -> (r: OskRect)
    requires
        c.bounded(),
    ensures
        r == panel_of(*c, placement),
{
    proof {
        lemma_share(c.screen_w as int, 72);
        lemma_share(c.screen_w as int, 62);
    }
    let wide: i64 = share(c.screen_w, 72);
    let lo: i64 = 680 * PX;
    let hi: i64 = 1120 * PX;
    let wide: i64 = if wide < lo {
        lo
    } else if wide > hi {
        hi
    } else {
        wide
    };
    let wide: i64 = if wide <= c.screen_w {
        wide
    } else {
        c.screen_w
    };
    let spare: i64 = floor_div(c.screen_w - wide, 2);
    let x: i64 = if spare >= 0 {
        spare
    } else {
        0
    };
    match placement {
        Placement::Docked(Edge::Bottom) => OskRect {
            x,
            y: c.screen_h - c.keyboard_h,
            w: wide,
            h: c.keyboard_h,
        },
        Placement::Docked(Edge::Top) => OskRect { x, y: 0, w: wide, h: c.keyboard_h },
        Placement::Floating { x, y } => {
            OskRect { x, y, w: floating_width(c), h: c.keyboard_h }
        },
    }
}

fn compute_geometry(c: &OskConfig) -> (r: OskGeometry)
    requires
        c.bounded(),
    ensures
        r == geometry_of(*c),
{
    proof {
        lemma_share(c.screen_w as int, 15);
        lemma_share(c.screen_w as int, 70);
    }
    let panel: OskRect = match c.layout {
        OskLayout::Floating => OskRect {
            x: share(c.screen_w, 15),
            y: c.screen_h - c.keyboard_h - 80 * PX,
            w: share(c.screen_w, 70),
            h: c.keyboard_h,
        },
        _ => OskRect { x: 0, y: c.screen_h - c.keyboard_h, w: c.screen_w, h: c.keyboard_h },
    };
    OskGeometry { panel, reserved_top_y: panel.y }
}

impl OskController {
    pub fn new(config: OskConfig) -> (r: OskController)
        requires
            config.bounded(),
        ensures
            r@.wf(),
            r@.state == OskState::Closed,
            r@.config == config,
            r@.enter_label == "↵"@,
            r@.binding is None,
            r@.kb.page.id == LayoutId::Turkish,
            r@.kb.home_alpha == LayoutId::Turkish,
            r@.kb.mods == no_mods(),
            r@.kb.placement == Placement::Docked(Edge::Bottom),
            !r@.kb.split,
            r@.kb.pending_xkb == xkb_of(LayoutId::Turkish),
            r@.drag is None,
            r@.pressed is None,
    {
        OskController {
            state: OskState::Closed,
            config,
            enter_label: "↵",
            binding: None,
            kb: Keyboard::default(),
            drag: None,
            pressed: None,
        }
    }

    pub fn state(&self) -> (r: OskState)
        ensures
            r == self@.state,
    {
        self.state
    }

    pub fn enter_label(&self) -> (r: &'static str)
        ensures
            r@ == self@.enter_label,
    {
        self.enter_label
    }

    pub fn set_layout(&mut self, layout: OskLayout)
        ensures
            final(self)@ == (OskView {
                config: OskConfig { layout, ..old(self)@.config },
                ..old(self)@
            }),
            old(self)@.wf() ==> final(self)@.wf(),
    {
        self.config.layout = layout;
    }

    pub fn set_screen(&mut self, w: i64, h: i64)
        requires
            coord(w),
            coord(h),
        ensures
            final(self)@ == (OskView {
                config: OskConfig { screen_w: w, screen_h: h, ..old(self)@.config },
                ..old(self)@
            }),
            old(self)@.wf() ==> final(self)@.wf(),
    {
        self.config.screen_w = w;
        self.config.screen_h = h;
    }

    /// Publish the keyboard's bottom reservation as a dedicated `"osk"` layer on
    /// the bound output. Layers compose by the widest edge, so this never
    /// clobbers the dock, the panel or what was reserved by hand.
    fn push_strut(&mut self, wm: &mut WindowManager)
        ensures
            final(self)@ == (OskView { binding: old(self)@.pushed(old(wm)@).0, ..old(self)@ }),
            final(wm)@ == old(self)@.pushed(old(wm)@).1,
            old(wm)@.wf() ==> final(wm)@.wf(),
    {
        if let Some(b) = self.binding {
            let struts = Struts { top: 0, bottom: self.config.keyboard_h, left: 0, right: 0 };
            if wm.set_strut_layer(b.output, "osk", struts).is_ok() {
                self.binding = Some(OskBinding { output: b.output, has_layer: true });
            }
        }
    }

    /// Mirror of [`push_strut`](Self::push_strut): drop the `"osk"` layer. Other
    /// contributors keep their own reservations untouched.
    fn restore_strut(&mut self, wm: &mut WindowManager)
        ensures
            final(self)@ == (OskView {
                binding: match old(self)@.binding {
                    Some(b) => Some(OskBinding { has_layer: false, ..b }),
                    None => None,
                },
                ..old(self)@
            }),
            final(wm)@ == old(self)@.restored(old(wm)@),
            old(wm)@.wf() ==> final(wm)@.wf(),
    {
        if let Some(b) = self.binding {
            if b.has_layer {
                let _ = wm.clear_strut_layer(b.output, "osk");
                self.binding = Some(OskBinding { output: b.output, has_layer: false });
            }
        }
    }

    /// Wire this controller to an output.
    ///
    /// After binding, the controller publishes a `bottom: keyboard_h` strut
    /// whenever the keyboard goes from a closed-ish state to `Opening`, and
    /// drops it on the way back to `Closing`. The output's bounds become the
    /// screen size. A reservation on an output bound before is dropped first;
    /// a keyboard that is open already reserves its room right away.
    pub fn bind(&mut self, wm: &mut WindowManager, output: OutputId)
        requires
            old(self)@.wf(),
            old(wm)@.has(output) ==> old(wm)@.get(output).bounds.bounded(),
        ensures
            final(self)@.wf(),
            old(wm)@.wf() ==> final(wm)@.wf(),
            ({
                let freed = old(self)@.restored(old(wm)@);
                let bound = OskView {
                    binding: Some(OskBinding { output, has_layer: false }),
                    config: if freed.has(output) {
                        OskConfig {
                            screen_w: freed.get(output).bounds.w,
                            screen_h: freed.get(output).bounds.h,
                            ..old(self)@.config
                        }
                    } else {
                        old(self)@.config
                    },
                    ..old(self)@
                };
                if visible(old(self)@.state) {
                    &&& final(self)@ == (OskView { binding: bound.pushed(freed).0, ..bound })
                    &&& final(wm)@ == bound.pushed(freed).1
                } else {
                    final(self)@ == bound && final(wm)@ == freed
                }
            }),
    {
        proof {
            lemma_cleared_output(*old(self), *old(wm), output);
        }
        self.restore_strut(wm);
        if let Some(o) = wm.output(output) {
            self.config.screen_w = o.bounds.w;
            self.config.screen_h = o.bounds.h;
        }
        self.binding = Some(OskBinding { output, has_layer: false });
        if self.state == OskState::Opening || self.state == OskState::Open {
            self.push_strut(wm);
        }
    }

    /// Tear down the binding. A reservation this controller made is dropped
    /// first; afterwards opening and closing leave the outputs alone.
    pub fn unbind(&mut self, wm: &mut WindowManager)
        ensures
            final(self)@ == (OskView { binding: None, ..old(self)@ }),
            final(wm)@ == old(self)@.restored(old(wm)@),
            old(self)@.wf() ==> final(self)@.wf(),
            old(wm)@.wf() ==> final(wm)@.wf(),
    {
        self.restore_strut(wm);
        self.binding = None;
    }

    /// A field wants text. Nothing happens where a hardware keyboard is there;
    /// else the keyboard opens, and reserves its room if it was not showing yet.
    pub fn open_for(&mut self, wm: &mut WindowManager, field: FocusedField) -> (r: Option<
        OskGeometry,
    >)
        requires
            old(self)@.wf(),
        ensures
            final(self)@.wf(),
            old(wm)@.wf() ==> final(wm)@.wf(),
            field.has_hw_keyboard ==> r is None && final(self)@ == old(self)@ && final(wm)@ == old(
                wm,
            )@,
            !field.has_hw_keyboard ==> {
                let opened = OskView {
                    enter_label: enter_text(field.mode),
                    state: if visible(old(self)@.state) {
                        old(self)@.state
                    } else {
                        OskState::Opening
                    },
                    ..old(self)@
                };
                &&& r == Some(geometry_of(old(self)@.config))
                &&& if visible(old(self)@.state) {
                    final(self)@ == opened && final(wm)@ == old(wm)@
                } else {
                    &&& final(self)@ == (OskView { binding: opened.pushed(old(wm)@).0, ..opened })
                    &&& final(wm)@ == opened.pushed(old(wm)@).1
                }
            },
    {
        if field.has_hw_keyboard {
            return None;
        }
        self.enter_label = field.mode.enter_label();
        let was_dormant: bool = self.state == OskState::Closed || self.state == OskState::Closing;
        if was_dormant {
            self.state = OskState::Opening;
            self.push_strut(wm);
        }
        Some(compute_geometry(&self.config))
    }

    pub fn confirm_open(&mut self) -> (r: Result<(), OskError>)
        ensures
            r == (if old(self)@.state == OskState::Opening {
                Ok(())
            } else {
                Err(OskError::BadTransition(old(self)@.state, OskState::Open))
            }),
            final(self)@ == (if r is Ok {
                OskView { state: OskState::Open, ..old(self)@ }
            } else {
                old(self)@
            }),
            old(self)@.wf() ==> final(self)@.wf(),
    {
        match self.state {
            OskState::Opening => {
                self.state = OskState::Open;
                Ok(())
            },
            s => Err(OskError::BadTransition(s, OskState::Open)),
        }
    }

    /// Start closing; the reserved room is given back at once.
    pub fn close(&mut self, wm: &mut WindowManager)
        ensures
            if visible(old(self)@.state) {
                &&& final(self)@ == (OskView {
                    state: OskState::Closing,
                    binding: match old(self)@.binding {
                        Some(b) => Some(OskBinding { has_layer: false, ..b }),
                        None => None,
                    },
                    ..old(self)@
                })
                &&& final(wm)@ == old(self)@.restored(old(wm)@)
            } else {
                final(self)@ == old(self)@ && final(wm)@ == old(wm)@
            },
            old(self)@.wf() ==> final(self)@.wf(),
            old(wm)@.wf() ==> final(wm)@.wf(),
    {
        let was_visible: bool = self.state == OskState::Open || self.state == OskState::Opening;
        if was_visible {
            self.state = OskState::Closing;
            self.restore_strut(wm);
        }
    }

    pub fn confirm_close(&mut self) -> (r: Result<(), OskError>)
        ensures
            r == (if visible(old(self)@.state) {
                Err(OskError::BadTransition(old(self)@.state, OskState::Closed))
            } else {
                Ok(())
            }),
            final(self)@ == (if r is Ok {
                OskView { state: OskState::Closed, ..old(self)@ }
            } else {
                old(self)@
            }),
            old(self)@.wf() ==> final(self)@.wf(),
    {
        match self.state {
            OskState::Closing => {
                self.state = OskState::Closed;
                Ok(())
            },
            OskState::Closed => Ok(()),
            s => Err(OskError::BadTransition(s, OskState::Closed)),
        }
    }

    pub fn geometry(&self) -> (r: OskGeometry)
        requires
            self@.wf(),
        ensures
            r == geometry_of(self@.config),
    {
        compute_geometry(&self.config)
    }

    /// How far a field must be scrolled up to be clear of the keyboard, margin
    /// included; nothing where it is clear already.
    pub fn scroll_offset_for(&self, field: &FocusedField) -> (r: i64)
        requires
            self@.wf(),
            field.rect.bounded(),
        ensures
            r == self@.scroll_for(field.rect),
    {
        let geom: OskGeometry = compute_geometry(&self.config);
        let overlap: i64 = field.rect.y + field.rect.h - geom.reserved_top_y;
        if overlap > 0 {
            overlap + self.config.margin
        } else {
            0
        }
    }
}

proof fn lemma_cleared_output(osk: OskController, wm: WindowManager, output: OutputId)
    requires
        wm@.has(output) ==> wm@.get(output).bounds.bounded(),
    ensures
        osk@.restored(wm@).has(output) ==> osk@.restored(wm@).get(output).bounds.bounded(),
{
    if let Some(b) = osk@.binding {
        if b.has_layer && wm@.has(b.output) {
            let after = wm@.clear_layer(b.output, "osk"@);
            lemma_output_index(wm@.outputs, b.output, 0);
            lemma_same_outputs(wm@, after, output, 0);
            lemma_output_index(wm@.outputs, output, 0);
        }
    }
}

/// Changing the layers of one output leaves ids, places and bounds alone.
proof fn lemma_same_outputs(a: WmView, b: WmView, id: OutputId, i: int)
    requires
        a.outputs.len() == b.outputs.len(),
        0 <= i <= a.outputs.len(),
        forall|k: int|
            0 <= k < a.outputs.len() ==> (#[trigger] a.outputs[k]).id == b.outputs[k].id
                && a.outputs[k].bounds == b.outputs[k].bounds,
    ensures
        output_index(a.outputs, id, i) == output_index(b.outputs, id, i),
        output_index(a.outputs, id, i) < a.outputs.len()
            ==> a.outputs[output_index(a.outputs, id, i)].bounds
            == b.outputs[output_index(b.outputs, id, i)].bounds,
    decreases a.outputs.len() - i,
{
    if i < a.outputs.len() && a.outputs[i].id != id {
        lemma_same_outputs(a, b, id, i + 1);
    }
}

// ---------------------------------------------------------------------------
// Presses
// ---------------------------------------------------------------------------

/// One key, fully resolved for the renderer: its rect, the glyph to draw
/// (already shift-folded) and highlight flags.
#[derive(Debug, Clone, PartialEq, Eq)]
pub struct RenderKey {
    pub x: i64,
    pub y: i64,
    pub w: i64,
    pub h: i64,
    pub label: String,
    /// This key is the one under the finger right now (press animation).
    pub pressed: bool,
    /// This key is an active/locked modifier (Shift latched, Caps, Ctrl…).
    pub active_mod: bool,
    /// Wide "action" key (space, enter, layout switch) — renderer can tint it.
    pub is_action: bool,
    /// Draw the logo instead of a text label (the Win/Super key).
    pub is_logo: bool,
}

pub struct RenderKeyView {
    pub x: i64,
    pub y: i64,
    pub w: i64,
    pub h: i64,
    pub label: Seq<char>,
    pub pressed: bool,
    pub active_mod: bool,
    pub is_action: bool,
    pub is_logo: bool,
}

impl View for RenderKey {
    type V = RenderKeyView;

    open spec fn view(&self) -> RenderKeyView {
        RenderKeyView {
            x: self.x,
            y: self.y,
            w: self.w,
            h: self.h,
            label: self.label@,
            pressed: self.pressed,
            active_mod: self.active_mod,
            is_action: self.is_action,
            is_logo: self.is_logo,
        }
    }
}

/// A press resolved against the live panel.
#[derive(Debug, Clone, PartialEq, Eq)]
pub enum OskPress {
    /// A normal key fired.
    Key(KeyAction),
    /// The press landed on the title strip — begin a drag instead of typing.
    TitleGrab,
    /// Nothing under the point.
    Miss,
}

pub enum OskPressView {
    Key(KeyActionView),
    TitleGrab,
    Miss,
}

impl View for OskPress {
    type V = OskPressView;

    open spec fn view(&self) -> OskPressView {
        match *self {
            OskPress::Key(a) => OskPressView::Key(a@),
            OskPress::TitleGrab => OskPressView::TitleGrab,
            OskPress::Miss => OskPressView::Miss,
        }
    }
}

/// A press resolved when the caller is capturing text into its *own* field
/// (e.g. the Wi-Fi password box) rather than forwarding evdev codes to a client.
#[derive(Debug, Clone, PartialEq, Eq)]
pub enum OskTextPress {
    /// Nothing typable under the point.
    Miss,
    /// Title-strip drag / non-text consumed press — swallow it, no text.
    Title,
    /// Append this string to the field.
    Char(String),
    /// Delete the last character.
    Backspace,
    /// Enter / Go — submit the field.
    Enter,
    /// A modifier / layout / action key, already applied to the model.
    Action(KeyAction),
}

pub enum OskTextPressView {
    Miss,
    Title,
    Char(Seq<char>),
    Backspace,
    Enter,
    Action(KeyActionView),
}

impl View for OskTextPress {
    type V = OskTextPressView;

    open spec fn view(&self) -> OskTextPressView {
        match *self {
            OskTextPress::Miss => OskTextPressView::Miss,
            OskTextPress::Title => OskTextPressView::Title,
            OskTextPress::Char(s) => OskTextPressView::Char(s@),
            OskTextPress::Backspace => OskTextPressView::Backspace,
            OskTextPress::Enter => OskTextPressView::Enter,
            OskTextPress::Action(a) => OskTextPressView::Action(a@),
        }
    }
}

/// Where on the panel a press lands.
pub enum PressZone {
    Outside,
    /// The close button at the right end of the title strip.
    Close,
    /// The rest of the title strip.
    Title,
    /// The key of this row and column.
    Key(usize, usize),
    /// Between the keys.
    Gap,
}

impl OskView {
    pub open spec fn zone(self, px: int, py: int) -> PressZone {
        let panel = self.panel();
        if !panel.holds(px, py) {
            PressZone::Outside
        } else if py < panel.y + OSK_TITLE_H {
            if px >= panel.x + panel.w - OSK_CLOSE_W {
                PressZone::Close
            } else {
                PressZone::Title
            }
        } else {
            let i = self.key_index(px, py);
            if i < self.rects().len() {
                PressZone::Key(self.rects()[i].row, self.rects()[i].col)
            } else {
                PressZone::Gap
            }
        }
    }

    /// The controller after a press: a key is held and has acted, the title
    /// strip starts a drag.
    pub open spec fn pressed_at(self, px: i64, py: i64, now_ms: u64) -> OskView {
        match self.zone(px as int, py as int) {
            PressZone::Title => OskView {
                drag: Some(((px - self.panel().x) as i64, (py - self.panel().y) as i64)),
                ..self
            },
            PressZone::Key(row, col) => OskView {
                pressed: Some((row, col)),
                kb: self.kb.pressed(row as int, col as int, now_ms),
                ..self
            },
            _ => self,
        }
    }

    /// What a press asks of the compositor.
    pub open spec fn press_result(self, px: i64, py: i64) -> OskPressView {
        match self.zone(px as int, py as int) {
            PressZone::Close => OskPressView::Key(KeyActionView::Special(Action::Hide)),
            PressZone::Title => OskPressView::TitleGrab,
            PressZone::Key(row, col) => OskPressView::Key(
                self.kb.press_result(row as int, col as int),
            ),
            _ => OskPressView::Miss,
        }
    }

    /// What a press means to a field of the compositor's own.
    pub open spec fn text_result(self, px: i64, py: i64) -> OskTextPressView {
        match self.zone(px as int, py as int) {
            PressZone::Close => OskTextPressView::Action(KeyActionView::Special(Action::Hide)),
            PressZone::Title => OskTextPressView::Title,
            PressZone::Key(row, col) => key_text(
                self.kb.page.rows[row as int][col as int],
                self.kb.mods,
                self.kb.press_result(row as int, col as int),
            ),
            _ => OskTextPressView::Miss,
        }
    }

    /// A key as the renderer draws it.
    pub open spec fn drawn(self, r: KeyRect) -> RenderKeyView {
        let cap = self.kb.page.rows[r.row as int][r.col as int];
        RenderKeyView {
            x: r.x,
            y: r.y,
            w: r.w,
            h: r.h,
            label: drawn_label(cap, self.kb),
            pressed: self.pressed == Some((r.row, r.col)),
            active_mod: mod_active(cap.kind, self.kb.mods),
            is_action: cap.kind is Action || cap.width >= 200,
            is_logo: cap.kind == KeyKindView::Key(code::LEFTMETA),
        }
    }
}

/// The text that a key types into a field; keys that type nothing act.
pub open spec fn key_text(cap: KeyCapView, mods: Mods, action: KeyActionView) -> OskTextPressView {
    match cap.kind {
        KeyKindView::Unicode(s) => OskTextPressView::Char(s),
        KeyKindView::Key(c) => if c == code::BACKSPACE {
            OskTextPressView::Backspace
        } else if c == code::ENTER || c == code::KPENTER {
            OskTextPressView::Enter
        } else if c == code::SPACE {
            OskTextPressView::Char(" "@)
        } else {
            OskTextPressView::Char(cap_text(cap, mods.shift != ShiftState::Off))
        },
        KeyKindView::Modifier(_) => OskTextPressView::Action(action),
        KeyKindView::Action(_) => OskTextPressView::Action(action),
    }
}

/// The label to draw: the language key shows the live code, the word actions
/// are in the active language, every other key follows shift.
pub open spec fn drawn_label(cap: KeyCapView, kb: KeyboardView) -> Seq<char> {
    let plain = cap_text(cap, kb.mods.shift != ShiftState::Off);
    match cap.kind {
        KeyKindView::Action(a) => if a == Action::Language {
            label_of(kb.page.id)
        } else {
            match action_text(a, kb.home_alpha) {
                Some(t) => t,
                None => plain,
            }
        },
        _ => plain,
    }
}

/// Whether a key is a modifier that is latched or locked.
pub open spec fn mod_active(kind: KeyKindView, mods: Mods) -> bool {
    match kind {
        KeyKindView::Modifier(Modifier::Shift) => mods.shift != ShiftState::Off,
        KeyKindView::Modifier(Modifier::Ctrl) => mods.ctrl,
        KeyKindView::Modifier(Modifier::Alt) => mods.alt,
        KeyKindView::Modifier(Modifier::AltGr) => mods.altgr,
        _ => false,
    }
}

pub open spec fn drawn_keys(v: Seq<RenderKey>) -> Seq<RenderKeyView> {
    v.map_values(|k: RenderKey| k@)
}

/// Whether `key` represents a modifier that is currently latched/locked, for
/// the render highlight.
fn is_active_mod(mods: &Mods, kind: KeyKind) -> (r: bool)
    ensures
        r == mod_active(kind@, *mods),
{
    match kind {
        KeyKind::Modifier(Modifier::Shift) => mods.shifted(),
        KeyKind::Modifier(Modifier::Ctrl) => mods.ctrl,
        KeyKind::Modifier(Modifier::Alt) => mods.alt,
        KeyKind::Modifier(Modifier::AltGr) => mods.altgr,
        _ => false,
    }
}

impl OskController {
    /// Resolve the panel rectangle in output coordinates, honouring the
    /// keyboard's placement (docked bottom/top or floating after a drag).
    pub fn panel_rect(&self) -> (r: OskRect)
        requires
            self@.wf(),
        ensures
            r == self@.panel(),
    {
        panel_rect_inner(&self.config, self.kb.placement())
    }

    /// True while the keyboard should be drawn (open or animating open).
    pub fn is_visible(&self) -> (r: bool)
        ensures
            r == visible(self@.state),
    {
        self.state == OskState::Open || self.state == OskState::Opening
    }

    pub fn layout_id(&self) -> (r: LayoutId)
        ensures
            r == self@.kb.page.id,
    {
        self.kb.layout_id()
    }

    /// The output the keyboard is currently bound to (where it should render),
    /// if any. Set by [`bind`](Self::bind).
    pub fn bound_output(&self) -> (r: Option<OutputId>)
        ensures
            r == (match self@.binding {
                Some(b) => Some(b.output),
                None => None,
            }),
    {
        match self.binding {
            Some(b) => Some(b.output),
            None => None,
        }
    }

    pub fn is_split(&self) -> (r: bool)
        ensures
            r == self@.kb.split,
    {
        self.kb.split()
    }

    /// Switch the active page directly (e.g. a layout button on the shell).
    /// Returns the xkb `(layout, variant)` the seat keyboard should adopt so
    /// evdev codes produce the page's glyphs — `None` to keep the current one.
    pub fn goto_layout(&mut self, id: LayoutId) -> (r: Option<(&'static str, &'static str)>)
        ensures
            xkb_view(r) == xkb_of(id),
            final(self)@ == (OskView { kb: old(self)@.kb.at_page(id), ..old(self)@ }),
            old(self)@.wf() ==> final(self)@.wf(),
    {
        self.kb.goto(id)
    }

    /// Drain a pending seat xkb `(layout, variant)` change queued by the last
    /// page switch (or the initial layout).
    pub fn take_pending_xkb(&mut self) -> (r: Option<(&'static str, &'static str)>)
        ensures
            xkb_view(r) == old(self)@.kb.pending_xkb,
            final(self)@ == (OskView {
                kb: KeyboardView { pending_xkb: None, ..old(self)@.kb },
                ..old(self)@
            }),
            old(self)@.wf() ==> final(self)@.wf(),
    {
        self.kb.take_pending_xkb()
    }

    fn rects(&self) -> (r: Vec<KeyRect>)
        requires
            self@.wf(),
        ensures
            r@ == self@.rects(),
    {
        let panel: OskRect = self.panel_rect();
        proof {
            lemma_panel(self@);
            law_pages_nonempty(self@.kb.page.id);
        }
        layout_rects(
            self.kb.page(),
            (panel.x, panel.y, panel.w, panel.h),
            OSK_TITLE_H,
            OSK_KEY_GAP,
        )
    }

    fn draw(&self, r: &KeyRect) -> (k: RenderKey)
        requires
            self@.wf(),
            self@.kb.has_key(r.row as int, r.col as int),
        ensures
            k@ == self@.drawn(*r),
    {
        let page = self.kb.page();
        assert(self@.kb.page.rows[r.row as int] == caps(page.rows@[r.row as int]@));
        let key: &KeyCap = &page.rows[r.row][r.col];
        assert(self@.kb.page.rows[r.row as int][r.col as int] == key@);
        let mods: Mods = self.kb.mods();
        // Dynamic caps: the language key shows the live language code (TR/EN);
        // Copy/Paste/Cut/Select-All are localised to the active language.
        let plain: &'static str = key.display(mods.shifted());
        let label: &'static str = match key.kind {
            KeyKind::Action(a) => {
                if a == Action::Language {
                    self.kb.layout_id().short_label()
                } else {
                    match action_label(a, self.kb.language()) {
                        Some(t) => t,
                        None => plain,
                    }
                }
            },
            _ => plain,
        };
        let held: bool = match self.pressed {
            Some((row, col)) => row == r.row && col == r.col,
            None => false,
        };
        let is_action: bool = match key.kind {
            KeyKind::Action(_) => true,
            _ => key.width >= 200,
        };
        let is_logo: bool = match key.kind {
            KeyKind::Key(c) => c == code::LEFTMETA,
            _ => false,
        };
        RenderKey {
            x: r.x,
            y: r.y,
            w: r.w,
            h: r.h,
            label: own(label),
            pressed: held,
            active_mod: is_active_mod(&mods, key.kind),
            is_action,
            is_logo,
        }
    }

    /// Build the renderer's key list for the current page + modifier state.
    pub fn render_keys(&self) -> (r: Vec<RenderKey>)
        requires
            self@.wf(),
        ensures
            drawn_keys(r@) == self@.rects().map_values(|k: KeyRect| self@.drawn(k)),
    {
        let rects: Vec<KeyRect> = self.rects();
        let mut r: Vec<RenderKey> = Vec::new();
        let mut i: usize = 0;
        while i < rects.len()
            invariant
                i <= rects.len(),
                self@.wf(),
                rects@ == self@.rects(),
                r.len() == i,
                forall|k: int| 0 <= k < i ==> (#[trigger] r@[k])@ == self@.drawn(rects@[k]),
            decreases rects.len() - i,
        {
            proof {
                lemma_rect_key(self@, i as int);
            }
            r.push(self.draw(&rects[i]));
            i += 1;
        }
        assert(drawn_keys(r@) =~= self@.rects().map_values(|k: KeyRect| self@.drawn(k)));
        r
    }

    fn zone_at(&self, px: i64, py: i64) -> (r: PressZone)
        requires
            self@.wf(),
        ensures
            r == self@.zone(px as int, py as int),
            r matches PressZone::Key(row, col) ==> self@.kb.has_key(row as int, col as int),
    {
        let panel: OskRect = self.panel_rect();
        proof {
            lemma_panel(self@);
        }
        if px < panel.x || px >= panel.x + panel.w || py < panel.y || py >= panel.y + panel.h {
            return PressZone::Outside;
        }
        if py < panel.y + OSK_TITLE_H {
            if px >= panel.x + panel.w - OSK_CLOSE_W {
                return PressZone::Close;
            }
            return PressZone::Title;
        }
        let rects: Vec<KeyRect> = self.rects();
        match find_key(&rects, px, py) {
            Some(hit) => {
                proof {
                    let i = key_under(rects@, px as int, py as int, 0);
                    lemma_key_found(rects@, px as int, py as int, 0);
                    lemma_rect_key(self@, i);
                }
                PressZone::Key(hit.row, hit.col)
            },
            None => {
                proof {
                    lemma_key_found(rects@, px as int, py as int, 0);
                }
                PressZone::Gap
            },
        }
    }

    fn grab(&mut self, px: i64, py: i64)
        requires
            old(self)@.wf(),
            old(self)@.zone(px as int, py as int) is Title,
        ensures
            final(self)@ == (OskView {
                drag: Some(
                    ((px - old(self)@.panel().x) as i64, (py - old(self)@.panel().y) as i64),
                ),
                ..old(self)@
            }),
            final(self)@.wf(),
    {
        let panel: OskRect = self.panel_rect();
        proof {
            lemma_panel(self@);
        }
        self.drag = Some((px - panel.x, py - panel.y));
    }

    /// Hit-test a press at output coordinates `(px, py)`. A press on the title
    /// strip arms a drag; a press on a key records the press-down (for the
    /// animation) and returns the resolved [`KeyAction`]; pressing the modifier
    /// keys only flips state. `now_ms` drives the double-tap-Caps timing.
    pub fn press_at(&mut self, px: i64, py: i64, now_ms: u64) -> (r: OskPress)
        requires
            old(self)@.wf(),
        ensures
            final(self)@.wf(),
            final(self)@ == old(self)@.pressed_at(px, py, now_ms),
            r@ == old(self)@.press_result(px, py),
    {
        match self.zone_at(px, py) {
            PressZone::Outside => OskPress::Miss,
            PressZone::Close => OskPress::Key(KeyAction::Special(Action::Hide)),
            PressZone::Title => {
                self.grab(px, py);
                OskPress::TitleGrab
            },
            PressZone::Key(row, col) => {
                self.pressed = Some((row, col));
                let action: KeyAction = self.kb.press(row, col, now_ms);
                OskPress::Key(action)
            },
            PressZone::Gap => OskPress::Miss,
        }
    }

    /// Like [`press_at`](Self::press_at) but for compositor-internal text
    /// capture: returns the typed glyph / edit action instead of a client-bound
    /// keycode. Still drives the keyboard model (shift latch, page/layout, press
    /// highlight) so the keyboard behaves normally.
    pub fn press_text_at(&mut self, px: i64, py: i64, now_ms: u64) -> (r: OskTextPress)
        requires
            old(self)@.wf(),
        ensures
            final(self)@.wf(),
            final(self)@ == old(self)@.pressed_at(px, py, now_ms),
            r@ == old(self)@.text_result(px, py),
    {
        match self.zone_at(px, py) {
            PressZone::Outside => OskTextPress::Miss,
            PressZone::Close => OskTextPress::Action(KeyAction::Special(Action::Hide)),
            PressZone::Title => {
                self.grab(px, py);
                OskTextPress::Title
            },
            PressZone::Key(row, col) => {
                self.pressed = Some((row, col));
                // Resolve the glyph *before* `press()` consumes the shift latch.
                let page = self.kb.page();
                assert(self@.kb.page.rows[row as int] == caps(page.rows@[row as int]@));
                let key: &KeyCap = &page.rows[row][col];
                assert(self@.kb.page.rows[row as int][col as int] == key@);
                let kind: KeyKind = key.kind;
                let shifted: bool = self.kb.mods().shifted();
                let glyph: &'static str = key.display(shifted);
                let action: KeyAction = self.kb.press(row, col, now_ms);
                match kind {
                    KeyKind::Unicode(s) => OskTextPress::Char(own(s)),
                    KeyKind::Key(c) => {
                        if c == code::BACKSPACE {
                            OskTextPress::Backspace
                        } else if c == code::ENTER || c == code::KPENTER {
                            OskTextPress::Enter
                        } else if c == code::SPACE {
                            OskTextPress::Char(own(" "))
                        } else {
                            OskTextPress::Char(own(glyph))
                        }
                    },
                    KeyKind::Modifier(_) => OskTextPress::Action(action),
                    KeyKind::Action(_) => OskTextPress::Action(action),
                }
            },
            PressZone::Gap => OskTextPress::Miss,
        }
    }

    /// Long-press alternates for the key under `(px,py)`, or empty.
    pub fn alternates_at(&self, px: i64, py: i64) -> (r: Vec<String>)
        requires
            self@.wf(),
        ensures
            ({
                let i = self@.key_index(px as int, py as int);
                strings(r@) == (if i < self@.rects().len() {
                    let k = self@.rects()[i];
                    self@.kb.page.rows[k.row as int][k.col as int].alternates
                } else {
                    seq![]
                })
            }),
    {
        let rects: Vec<KeyRect> = self.rects();
        proof {
            lemma_key_found(rects@, px as int, py as int, 0);
        }
        match find_key(&rects, px, py) {
            Some(hit) => {
                proof {
                    lemma_rect_key(self@, key_under(rects@, px as int, py as int, 0));
                }
                let alts: Vec<&'static str> = self.kb.alternates_at(hit.row, hit.col);
                own_all(&alts)
            },
            None => {
                let r: Vec<String> = Vec::new();
                assert(strings(r@) =~= seq![]);
                r
            },
        }
    }

    /// Clear the press-down highlight (finger lifted / left the key).
    pub fn release(&mut self)
        ensures
            final(self)@ == (OskView { pressed: None, ..old(self)@ }),
            old(self)@.wf() ==> final(self)@.wf(),
    {
        self.pressed = None;
    }

    // --- Dragging ---------------------------------------------------------

    /// Move an in-progress title drag so the panel's top-left tracks the finger.
    /// Switches placement to `Floating` and keeps the panel on the screen. No-op
    /// if no drag is armed.
    pub fn drag_to(&mut self, px: i64, py: i64)
        requires
            old(self)@.wf(),
        ensures
            final(self)@.wf(),
            final(self)@ == old(self)@.dragged(px as int, py as int),
    {
        if let Some((dx, dy)) = self.drag {
            proof {
                lemma_panel(self@);
            }
            // Clamp so the panel stays on-screen, as wide as it is once it floats.
            let room: i64 = self.config.screen_w - floating_width(&self.config);
            let x: i64 = kept(px as i128 - dx as i128, room);
            let y: i64 = kept(py as i128 - dy as i128, self.config.screen_h - self.config.keyboard_h);
            self.kb.place(Placement::Floating { x, y });
        }
    }

    /// Finish a drag. If the panel was dropped against an edge it re-docks
    /// there; otherwise it stays floating.
    pub fn drag_end(&mut self)
        requires
            old(self)@.wf(),
        ensures
            final(self)@.wf(),
            ({
                let c = old(self)@.config;
                let panel = old(self)@.panel();
                let snap = c.margin * 3 / 2;
                final(self)@ == (OskView {
                    drag: None,
                    kb: KeyboardView {
                        placement: if panel.y + panel.h >= c.screen_h - snap {
                            Placement::Docked(Edge::Bottom)
                        } else if panel.y <= snap {
                            Placement::Docked(Edge::Top)
                        } else {
                            old(self)@.kb.placement
                        },
                        ..old(self)@.kb
                    },
                    ..old(self)@
                })
            }),
    {
        self.drag = None;
        let panel: OskRect = self.panel_rect();
        proof {
            lemma_panel(self@);
        }
        let snap: i64 = floor_div(self.config.margin * 3, 2);
        if panel.y + panel.h >= self.config.screen_h - snap {
            self.kb.place(Placement::Docked(Edge::Bottom));
        } else if panel.y <= snap {
            self.kb.place(Placement::Docked(Edge::Top));
        }
    }

    pub fn is_dragging(&self) -> (r: bool)
        ensures
            r == (self@.drag is Some),
    {
        self.drag.is_some()
    }

    /// Restore the default bottom-centre dock.
    pub fn restore_default_position(&mut self)
        ensures
            final(self)@ == (OskView {
                kb: KeyboardView {
                    placement: Placement::Docked(Edge::Bottom),
                    ..old(self)@.kb
                },
                ..old(self)@
            }),
            old(self)@.wf() ==> final(self)@.wf(),
    {
        self.kb.place(Placement::default());
    }

    /// Auto-reposition so a focused field stays visible. A *floating* panel that
    /// overlaps the field relocates above the field if there is room, else
    /// below, else to the bottom of the screen. For a docked panel the reserved
    /// room already lifts the content, so this is a no-op there.
    pub fn auto_position(&mut self, field: OskRect)
        requires
            old(self)@.wf(),
            field.bounded(),
        ensures
            final(self)@.wf(),
            final(self)@ == old(self)@.beside(field),
    {
        let floating: bool = match self.kb.placement() {
            Placement::Floating { x: _, y: _ } => true,
            Placement::Docked(_) => false,
        };
        if !floating {
            return;
        }
        let panel: OskRect = self.panel_rect();
        proof {
            lemma_panel(self@);
        }
        let overlaps: bool = field.y + field.h > panel.y && field.y < panel.y + panel.h;
        if !overlaps {
            return;
        }
        let above: i64 = field.y - panel.h - self.config.margin;
        let below: i64 = field.y + field.h + self.config.margin;
        let y: i64 = if above >= 0 {
            above
        } else if below + panel.h <= self.config.screen_h {
            below
        } else {
            let lowest: i64 = self.config.screen_h - panel.h;
            if lowest >= 0 {
                lowest
            } else {
                0
            }
        };
        self.kb.place(Placement::Floating { x: panel.x, y });
    }
}

/// A position kept between 0 and `hi`, or at 0 where `hi` is below it.
fn kept(v: i128, hi: i64) -> (r: i64)
    ensures
        r == clamped(v as int, 0, max_of(hi as int, 0)),
{
    let hi: i64 = if hi >= 0 {
        hi
    } else {
        0
    };
    if v < 0 {
        0
    } else if v > hi as i128 {
        hi
    } else {
        v as i64
    }
}

/// Every laid-out rect belongs to a key of the page.
proof fn lemma_rect_key(o: OskView, i: int)
    requires
        o.wf(),
        0 <= i < o.rects().len(),
    ensures
        o.kb.has_key(o.rects()[i].row as int, o.rects()[i].col as int),
{
    let rows = o.kb.page.rows;
    law_pages_nonempty(o.kb.page.id);
    let (r, c) = lemma_page_rect(rows, rows.len() as int, o.board(), i);
    assert(modest(rows));
    assert(crate::keyboard::modest_row(rows[r]));
}

// ---------------------------------------------------------------------------
// Laws of the keyboard's reservation
// ---------------------------------------------------------------------------

/// Opening and then closing the keyboard leaves every output as it was, unless
/// something else reserved room under the keyboard's name.
pub proof fn law_close_restores(o: OskView, wm: WmView, id: OutputId)
    requires
        o.binding == Some(OskBinding { output: id, has_layer: false }),
        wm.has(id),
        crate::wm::layer_index(wm.get(id).layers, "osk"@, 0) == wm.get(id).layers.len(),
    ensures
        ({
            let (binding, opened) = o.pushed(wm);
            (OskView { binding, ..o }).restored(opened) == wm
        }),
{
    lemma_output_index(wm.outputs, id, 0);
    let i = wm.index(id);
    let s = osk_struts(o.config);
    let (binding, opened) = o.pushed(wm);
    law_layer_round_trip(wm.get(id).layers, "osk"@, s);
    lemma_same_outputs(wm, opened, id, 0);
    assert(opened.index(id) == i);
    assert(opened.get(id).layers == with_layer(wm.get(id).layers, "osk"@, s));
    let closed = (OskView { binding, ..o }).restored(opened);
    assert(closed.outputs =~= wm.outputs);
}

/// A keyboard that was never bound leaves the outputs alone.
pub proof fn law_unbound_touches_nothing(o: OskView, wm: WmView)
    requires
        o.binding is None,
    ensures
        o.pushed(wm).1 == wm,
        o.restored(wm) == wm,
{
}

/// A dragged panel stays on the screen, whether it was docked or floating.
pub proof fn law_drag_stays_on_screen(o: OskView, px: int, py: int)
    requires
        o.wf(),
        o.drag is Some,
        0 <= o.config.keyboard_h <= o.config.screen_h,
        0 <= o.config.screen_w,
    ensures
        ({
            let p = o.dragged(px, py).panel();
            &&& 0 <= p.x && p.x + p.w <= o.config.screen_w
            &&& 0 <= p.y && p.y + p.h <= o.config.screen_h
        }),
{
    lemma_panel(o);
    lemma_panel(o.dragged(px, py));
}

/// While it is on the screen, a dragged panel follows the finger: the point that
/// was grabbed stays under it.
pub proof fn law_drag_follows_finger(o: OskView, px: i64, py: i64, qx: int, qy: int)
    requires
        o.wf(),
        o.zone(px as int, py as int) == PressZone::Title,
        ({
            let (dx, dy) = (px - o.panel().x, py - o.panel().y);
            &&& 0 <= qx - dx <= o.config.screen_w - floating_w(o.config)
            &&& 0 <= qy - dy <= o.config.screen_h - o.config.keyboard_h
        }),
    ensures
        ({
            let p = o.pressed_at(px, py, 0).dragged(qx, qy).panel();
            qx - p.x == px - o.panel().x && qy - p.y == py - o.panel().y
        }),
{
    lemma_panel(o);
}

/// A panel that moved out of the way of a field no longer covers it, if there was
/// room on either side.
pub proof fn law_panel_leaves_field(o: OskView, field: OskRect)
    requires
        o.wf(),
        field.bounded(),
        o.kb.placement is Floating,
        o.config.margin >= 0,
        o.room_above(field) || o.room_below(field),
    ensures
        !o.beside(field).covers(field),
{
    lemma_panel(o);
}

/// A field that is scrolled by what is asked for ends above the keyboard, and a
/// margin above it where it was covered.
pub proof fn law_scroll_clears_field(o: OskView, field: OskRect)
    ensures
        ({
            let bottom = field.y + field.h - o.scroll_for(field);
            let top = geometry_of(o.config).reserved_top_y;
            if o.overlap(field) > 0 {
                bottom == top - o.config.margin
            } else {
                bottom <= top
            }
        }),
{
}

// ---------------------------------------------------------------------------
// Laws of typing
// ---------------------------------------------------------------------------

/// Every other key types just what is drawn on it at that moment, whatever the
/// modifiers: its plain label without Shift, its shifted one, where it has one,
/// while Shift is latched or locked. Backspace, Enter and the space bar do what
/// they are for, and a glyph of its own is typed as it is.
pub proof fn law_types_what_is_drawn(o: OskView, i: int, px: i64, py: i64)
    requires
        0 <= i < o.rects().len(),
        o.zone(px as int, py as int) == PressZone::Key(o.rects()[i].row, o.rects()[i].col),
    ensures
        ({
            let cap = o.kb.page.rows[o.rects()[i].row as int][o.rects()[i].col as int];
            let drawn = o.drawn(o.rects()[i]).label;
            let typed = o.text_result(px, py);
            &&& match cap.kind {
                KeyKindView::Unicode(s) => typed == OskTextPressView::Char(s),
                KeyKindView::Key(14) => typed == OskTextPressView::Backspace,
                KeyKindView::Key(28) => typed == OskTextPressView::Enter,
                KeyKindView::Key(96) => typed == OskTextPressView::Enter,
                KeyKindView::Key(57) => typed == OskTextPressView::Char(" "@),
                KeyKindView::Key(_) => typed == OskTextPressView::Char(drawn),
                _ => typed is Action,
            }
            &&& cap.kind is Key && o.kb.mods.shift == ShiftState::Off ==> drawn == cap.label
            &&& cap.kind is Key && o.kb.mods.shift == ShiftState::Latched && cap.shift_label is Some
                ==> drawn == cap.shift_label->0
            &&& cap.kind is Key && o.kb.mods.shift == ShiftState::Locked && cap.shift_label is Some
                ==> drawn == cap.shift_label->0
        }),
{
}

/// On a page of letters a key with a Latin letter types that letter without Shift,
/// and its capital, which is another character, with it.
pub proof fn law_shift_types_capitals(o: OskView, i: int, px: i64, py: i64)
    requires
        o.wf(),
        alpha(o.kb.page.id),
        0 <= i < o.rects().len(),
        o.zone(px as int, py as int) == PressZone::Key(o.rects()[i].row, o.rects()[i].col),
        ({
            let cap = o.kb.page.rows[o.rects()[i].row as int][o.rects()[i].col as int];
            &&& cap.kind matches KeyKindView::Key(c) && c != 14 && c != 28 && c != 57 && c != 96
            &&& cap.label.len() == 1 && 'a' <= cap.label[0] <= 'z'
        }),
    ensures
        ({
            let letter = o.kb.page.rows[o.rects()[i].row as int][o.rects()[i].col as int].label[0];
            match o.text_result(px, py) {
                OskTextPressView::Char(t) => {
                    &&& t.len() == 1
                    &&& if o.kb.mods.shift == ShiftState::Off {
                        t[0] == letter
                    } else if o.kb.page.id == LayoutId::Turkish && letter == 'i' {
                        t[0] == 'İ'
                    } else {
                        t[0] as int == letter as int - 32
                    }
                },
                _ => false,
            }
        }),
{
    lemma_rect_key(o, i);
    let (r, c) = (o.rects()[i].row as int, o.rects()[i].col as int);
    law_shift_shows_capitals(o.kb.page.id, r, c);
    law_types_what_is_drawn(o, i, px, py);
}

/// A key that is sent to the client is sent by its own code, with the modifiers
/// that are held, each once, and no other.
pub proof fn law_chord_holds_modifiers(k: KeyboardView, row: int, col: int, code: u32)
    requires
        k.has_key(row, col),
        k.page.rows[row][col].kind == KeyKindView::Key(code),
    ensures
        match k.press_result(row, col) {
            KeyActionView::Chord { mods, code: sent } => {
                &&& sent == code
                &&& mods.contains(42) == (k.mods.shift != ShiftState::Off)
                &&& mods.contains(29) == k.mods.ctrl
                &&& mods.contains(56) == k.mods.alt
                &&& mods.contains(100) == k.mods.altgr
                &&& mods.no_duplicates()
                &&& forall|m: u32| #[trigger]
                    mods.contains(m) ==> m == 42 || m == 29 || m == 56 || m == 100
            },
            _ => false,
        },
{
    let mods = crate::keyboard::held_codes(k.mods);
    let a = crate::keyboard::opt_code(k.mods.shift != ShiftState::Off, 42);
    let b = crate::keyboard::opt_code(k.mods.ctrl, 29);
    let c = crate::keyboard::opt_code(k.mods.alt, 56);
    let d = crate::keyboard::opt_code(k.mods.altgr, 100);
    assert(mods == a + b + c + d);
    if k.mods.shift != ShiftState::Off {
        assert(mods[0] == 42);
    }
    if k.mods.ctrl {
        assert(mods[a.len() as int] == 29);
    }
    if k.mods.alt {
        assert(mods[(a.len() + b.len()) as int] == 56);
    }
    if k.mods.altgr {
        assert(mods[(a.len() + b.len() + c.len()) as int] == 100);
    }
}

/// A modifier key sends nothing and changes only its own modifier; tapping Ctrl,
/// Alt or AltGr again takes it back. Shift that was off is latched, and the key
/// that follows uses it and every other modifier up, unless Shift was locked by
/// two taps within 300 ms.
pub proof fn law_modifier_keys(k: KeyboardView, row: int, col: int, m: Modifier, t: u64, u: u64)
    requires
        k.has_key(row, col),
        k.page.rows[row][col].kind == KeyKindView::Modifier(m),
    ensures
        ({
            let once = k.pressed(row, col, t);
            let twice = once.pressed(row, col, u);
            &&& k.press_result(row, col) == KeyActionView::Redraw
            &&& once.page == k.page
            &&& once.home_alpha == k.home_alpha
            &&& once.mods.ctrl == (if m == Modifier::Ctrl { !k.mods.ctrl } else { k.mods.ctrl })
            &&& once.mods.alt == (if m == Modifier::Alt { !k.mods.alt } else { k.mods.alt })
            &&& once.mods.altgr == (if m == Modifier::AltGr { !k.mods.altgr } else { k.mods.altgr })
            &&& m != Modifier::Shift ==> once.mods.shift == k.mods.shift && twice.mods == k.mods
            &&& m == Modifier::Shift && k.mods.shift == ShiftState::Off ==> {
                &&& once.mods.shift == ShiftState::Latched
                &&& t <= u <= t + 300 ==> twice.mods.shift == ShiftState::Locked
                &&& u > t + 300 ==> twice.mods.shift == ShiftState::Off
            }
            &&& m == Modifier::Shift && k.mods.shift == ShiftState::Locked ==> once.mods.shift
                == ShiftState::Off
        }),
{
}

/// A key that types leaves no modifier behind but a locked Shift, and changes
/// neither the page nor the language.
pub proof fn law_typing_uses_modifiers_up(k: KeyboardView, row: int, col: int, t: u64)
    requires
        k.has_key(row, col),
        k.page.rows[row][col].kind is Key || k.page.rows[row][col].kind is Unicode,
    ensures
        ({
            let after = k.pressed(row, col, t);
            &&& !after.mods.ctrl && !after.mods.alt && !after.mods.altgr
            &&& after.mods.shift == (if k.mods.shift == ShiftState::Locked {
                ShiftState::Locked
            } else {
                ShiftState::Off
            })
            &&& after.page == k.page && after.home_alpha == k.home_alpha
            &&& after.placement == k.placement && after.split == k.split
        }),
{
}

/// A touch on a key, below the title strip, is a press of that key.
pub proof fn law_finger_on_key(o: OskView, r: int, c: int, px: int, py: int)
    requires
        o.wf(),
        crate::keyboard::roomy(o.kb.page.rows, o.board()),
        o.kb.has_key(r, c),
        crate::keyboard::on_key(o.kb.page.rows, o.board(), r, c, px, py),
    ensures
        o.zone(px, py) == PressZone::Key(r as usize, c as usize),
{
    lemma_panel(o);
    law_pages_nonempty(o.kb.page.id);
    let rows = o.kb.page.rows;
    crate::keyboard::law_touch_finds_key(rows, o.board(), r, c, px, py);
    crate::keyboard::law_keys_inside_panel(rows, o.board(), r, c);
    assert(modest(rows));
    assert(crate::keyboard::modest_row(rows[r]));
}

/// The uppermost 30 pixels of the panel are for moving it, but for the last 40 at
/// the right, which close it; a press off the panel is none of the keyboard's.
pub proof fn law_title_strip(o: OskView, px: i64, py: i64)
    requires
        o.wf(),
    ensures
        ({
            let p = o.panel();
            let inside = p.x <= px < p.x + p.w && p.y <= py < p.y + p.h;
            &&& !inside ==> o.press_result(px, py) == OskPressView::Miss && o.text_result(px, py)
                == OskTextPressView::Miss && o.pressed_at(px, py, 0) == o
            &&& inside && py < p.y + 30 * 256 && px < p.x + p.w - 40 * 256 ==> o.press_result(px, py)
                == OskPressView::TitleGrab && o.pressed_at(px, py, 0).drag == Some(
                ((px - p.x) as i64, (py - p.y) as i64),
            )
            &&& inside && py < p.y + 30 * 256 && px >= p.x + p.w - 40 * 256 ==> o.press_result(
                px,
                py,
            ) == OskPressView::Key(KeyActionView::Special(Action::Hide))
            &&& inside && py >= p.y + 30 * 256 ==> o.press_result(px, py) != OskPressView::TitleGrab
        }),
{
}

/// A docked panel is centred, as far as halves go, lies on its edge, is as high as
/// configured and never wider than the screen; on a screen of 1120 pixels and more
/// it is between 680 and 1120 pixels wide.
pub proof fn law_docked_panel(c: OskConfig, edge: Edge)
    requires
        c.bounded(),
        0 <= c.screen_w,
        0 <= c.keyboard_h <= c.screen_h,
    ensures
        ({
            let p = panel_of(c, Placement::Docked(edge));
            let right = c.screen_w - (p.x + p.w);
            &&& p.h == c.keyboard_h
            &&& edge == Edge::Bottom ==> p.y + p.h == c.screen_h
            &&& edge == Edge::Top ==> p.y == 0
            &&& p.x >= 0 && right >= 0 && 0 <= right - p.x <= 1
            &&& c.screen_w >= 1120 * 256 ==> 680 * 256 <= p.w <= 1120 * 256
            &&& c.screen_w < 680 * 256 ==> p.w == c.screen_w
        }),
{
    lemma_share(c.screen_w as int, 72);
}

/// The place that is reserved for the keyboard ends at the bottom of the screen,
/// or 80 pixels above it where the panel floats, and is as wide as the screen or
/// centred on it.
pub proof fn law_reserved_place(c: OskConfig)
    requires
        c.bounded(),
        0 <= c.screen_w,
    ensures
        ({
            let g = geometry_of(c);
            let gap = if c.layout == OskLayout::Floating { 80 * 256int } else { 0 };
            &&& g.panel.h == c.keyboard_h
            &&& g.panel.y + g.panel.h == c.screen_h - gap
            &&& g.reserved_top_y == g.panel.y
            &&& c.layout != OskLayout::Floating ==> g.panel.x == 0 && g.panel.w == c.screen_w
            &&& c.layout == OskLayout::Floating ==> {
                let right = c.screen_w - (g.panel.x + g.panel.w);
                0 <= right - g.panel.x <= 2 && 3 * g.panel.x <= g.panel.w
            }
        }),
{
    lemma_share(c.screen_w as int, 15);
    lemma_share(c.screen_w as int, 70);
}

/// A panel that does not float, or is not in the way of the field, stays where it
/// is; one that moves goes above the field where there is room, a margin away.
pub proof fn law_panel_moves_only_if_needed(o: OskView, field: OskRect)
    requires
        o.wf(),
        field.bounded(),
    ensures
        ({
            let p = o.panel();
            let q = o.beside(field).panel();
            let apart = field.y + field.h <= p.y || p.y + p.h <= field.y;
            &&& !(o.kb.placement is Floating) || apart ==> q == p
            &&& o.kb.placement is Floating && !apart ==> {
                &&& q.x == p.x && q.w == p.w && q.h == p.h
                &&& field.y - p.h - o.config.margin >= 0 ==> q.y + q.h + o.config.margin == field.y
                &&& field.y - p.h - o.config.margin < 0 && field.y + field.h + o.config.margin + p.h
                    <= o.config.screen_h ==> q.y == field.y + field.h + o.config.margin
            }
        }),
{
    lemma_panel(o);
}

// ---------------------------------------------------------------------------
// Gestures
// ---------------------------------------------------------------------------

#[derive(Debug, Clone, Copy, PartialEq, Eq, Structural)]
pub enum Gesture {
    SwitchWorkspace { direction: SwipeDir },
    TaskOverview,
    ShowDesktop,
    LongPress,
    SecondaryTap,
    RevealDock,
}

#[derive(Debug, Clone, Copy, PartialEq, Eq, Structural)]
pub enum SwipeDir {
    Left,
    Right,
}

pub open spec fn magnitude(v: int) -> int {
    if v < 0 {
        -v
    } else {
        v
    }
}

/// What a stroke of so many fingers means: three fingers swipe sideways between
/// workspaces or up into the overview, four resting fingers show the desktop, one
/// resting finger is a long press, two a secondary tap.
pub open spec fn meaning(fingers: int, dx: int, dy: int, duration_ms: int) -> Option<Gesture> {
    let ax = magnitude(dx);
    let ay = magnitude(dy);
    if fingers == 3 && ax > 80 * PX && ax > ay {
        Some(
            Gesture::SwitchWorkspace {
                direction: if dx < 0 {
                    SwipeDir::Left
                } else {
                    SwipeDir::Right
                },
            },
        )
    } else if fingers == 3 && dy < -80 * PX {
        Some(Gesture::TaskOverview)
    } else if fingers == 4 && ax < 40 * PX && ay < 40 * PX {
        Some(Gesture::ShowDesktop)
    } else if fingers == 1 && ax < 8 * PX && ay < 8 * PX && duration_ms >= 550 {
        Some(Gesture::LongPress)
    } else if fingers == 2 && ax < 8 * PX && ay < 8 * PX && duration_ms < 250 {
        Some(Gesture::SecondaryTap)
    } else {
        None
    }
}

fn length(v: i64) -> (r: i128)
    ensures
        r == magnitude(v as int),
{
    if v < 0 {
        -(v as i128)
    } else {
        v as i128
    }
}

/// Classify a finished stroke by its peak finger count, displacement and
/// duration.
pub fn classify(fingers: u8, dx: i64, dy: i64, duration_ms: u32) -> (r: Option<Gesture>)
    ensures
        r == meaning(fingers as int, dx as int, dy as int, duration_ms as int),
{
    let ax: i128 = length(dx);
    let ay: i128 = length(dy);
    let far: i128 = 80 * PX as i128;
    let near: i128 = 40 * PX as i128;
    let still: i128 = 8 * PX as i128;
    if fingers == 3 && ax > far && ax > ay {
        Some(
            Gesture::SwitchWorkspace {
                direction: if dx < 0 {
                    SwipeDir::Left
                } else {
                    SwipeDir::Right
                },
            },
        )
    } else if fingers == 3 && dy < -80 * PX {
        Some(Gesture::TaskOverview)
    } else if fingers == 4 && ax < near && ay < near {
        Some(Gesture::ShowDesktop)
    } else if fingers == 1 && ax < still && ay < still && duration_ms >= 550 {
        Some(Gesture::LongPress)
    } else if fingers == 2 && ax < still && ay < still && duration_ms < 250 {
        Some(Gesture::SecondaryTap)
    } else {
        None
    }
}

// ---------------------------------------------------------------------------
// Touch aggregator
// ---------------------------------------------------------------------------

/// Per-finger bookkeeping kept by [`TouchAggregator`].
#[derive(Debug, Clone, Copy, PartialEq, Eq, Structural)]
pub struct Finger {
    pub start_x: i64,
    pub start_y: i64,
    pub last_x: i64,
    pub last_y: i64,
    pub start_time_ms: u64,
}

/// Aggregates raw touch events into a single [`Gesture`] when the last finger
/// lifts.
///
/// * Tracks one [`Finger`] per active slot.
/// * Records the highest concurrent finger count — users land their fingers
///   staggered, so the count at the moment of release is not the count that
///   defines the gesture.
/// * On the final `up()`, computes the **average displacement vector** across
///   all fingers of the stroke and the **maximum duration** any single finger
///   stayed on the screen, then runs [`classify`] over those.
pub struct TouchAggregator {
    fingers: HashMap<i32, Finger>,
    peak_count: u8,
    /// Displacements of the lifted fingers, added up, and their number.
    sum_dx: i128,
    sum_dy: i128,
    lifted: u64,
    /// The longest stay of a lifted finger.
    longest_ms: u64,
}

#[verifier::ext_equal]
pub struct TouchView {
    /// The fingers on the surface, by slot.
    pub fingers: Map<i32, Finger>,
    pub peak_count: int,
    pub sum_dx: int,
    pub sum_dy: int,
    pub lifted: int,
    pub longest_ms: int,
}

impl View for TouchAggregator {
    type V = TouchView;

    closed spec fn view(&self) -> TouchView {
        TouchView {
            fingers: self.fingers@,
            peak_count: self.peak_count as int,
            sum_dx: self.sum_dx as int,
            sum_dy: self.sum_dy as int,
            lifted: self.lifted as int,
            longest_ms: self.longest_ms as int,
        }
    }
}

/// How many lifted fingers one stroke counts; any beyond are not averaged in.
pub const STROKE_LIMIT: u64 = 0xffff_ffff_ffff_ffff;

pub open spec fn finger_ok(f: Finger) -> bool {
    coord(f.start_x) && coord(f.start_y) && coord(f.last_x) && coord(f.last_y)
}

/// No stroke yet.
pub open spec fn no_touch() -> TouchView {
    TouchView {
        fingers: Map::empty(),
        peak_count: 0,
        sum_dx: 0,
        sum_dy: 0,
        lifted: 0,
        longest_ms: 0,
    }
}

/// A mean that rounds towards zero.
pub open spec fn mean(sum: int, n: int) -> int {
    if sum >= 0 {
        sum / n
    } else {
        -((-sum) / n)
    }
}

impl TouchView {
    pub open spec fn wf(self) -> bool {
        &&& self.fingers.dom().finite()
        &&& forall|s: i32| #[trigger] self.fingers.contains_key(s) ==> finger_ok(self.fingers[s])
        &&& 0 <= self.lifted <= STROKE_LIMIT
        &&& -2 * COORD_LIMIT * self.lifted <= self.sum_dx <= 2 * COORD_LIMIT * self.lifted
        &&& -2 * COORD_LIMIT * self.lifted <= self.sum_dy <= 2 * COORD_LIMIT * self.lifted
        &&& self.fingers.len() == 0 ==> self == no_touch()
    }

    pub open spec fn has(self, slot: i32) -> bool {
        self.fingers.contains_key(slot)
    }

    /// The stroke once a finger landed. A slot that was down already starts anew.
    pub open spec fn landed(self, slot: i32, f: Finger) -> TouchView {
        let fingers = self.fingers.insert(slot, f);
        let live = (fingers.len() % 256) as int;
        TouchView {
            fingers,
            peak_count: if live > self.peak_count {
                live
            } else {
                self.peak_count
            },
            ..self
        }
    }

    pub open spec fn moved(self, slot: i32, x: i64, y: i64) -> TouchView {
        if self.fingers.contains_key(slot) {
            TouchView {
                fingers: self.fingers.insert(
                    slot,
                    Finger { last_x: x, last_y: y, ..self.fingers[slot] },
                ),
                ..self
            }
        } else {
            self
        }
    }

    /// The stroke once a finger is off the surface, its displacement and stay
    /// added up. Its stay counts in any case, its displacement as long as the
    /// count has room.
    pub open spec fn after_lift(self, slot: i32, now_ms: int) -> TouchView {
        let f = self.fingers[slot];
        let stay = if now_ms >= f.start_time_ms {
            now_ms - f.start_time_ms
        } else {
            0
        };
        let counts = self.lifted < STROKE_LIMIT;
        TouchView {
            fingers: self.fingers.remove(slot),
            peak_count: self.peak_count,
            sum_dx: if counts {
                self.sum_dx + (f.last_x - f.start_x)
            } else {
                self.sum_dx
            },
            sum_dy: if counts {
                self.sum_dy + (f.last_y - f.start_y)
            } else {
                self.sum_dy
            },
            lifted: if counts {
                self.lifted + 1
            } else {
                self.lifted
            },
            longest_ms: if stay > self.longest_ms {
                stay
            } else {
                self.longest_ms
            },
        }
    }

    /// What the whole stroke means.
    pub open spec fn stroke(self) -> Option<Gesture> {
        meaning(
            self.peak_count,
            mean(self.sum_dx, self.lifted),
            mean(self.sum_dy, self.lifted),
            self.longest_ms % 0x1_0000_0000,
        )
    }
}

fn mean_of(sum: i128, n: u64) -> (r: i64)
    requires
        n > 0,
        -2 * COORD_LIMIT * n <= sum <= 2 * COORD_LIMIT * n,
    ensures
        r == mean(sum as int, n as int),
        -2 * COORD_LIMIT <= r <= 2 * COORD_LIMIT,
{
    proof {
        assert(2 * COORD_LIMIT * n <= 2 * COORD_LIMIT * u64::MAX) by (nonlinear_arith)
            requires
                0 < n <= u64::MAX,
        ;
        assert(-2 * COORD_LIMIT * n == -(2 * COORD_LIMIT * n)) by (nonlinear_arith);
    }
    let size: i128 = if sum >= 0 {
        sum
    } else {
        -sum
    };
    let q: i128 = size / n as i128;
    assert(0 <= q <= 2 * COORD_LIMIT) by (nonlinear_arith)
        requires
            q == size as int / n as int,
            n > 0,
            0 <= size <= 2 * COORD_LIMIT * n,
    ;
    if sum >= 0 {
        q as i64
    } else {
        -(q as i64)
    }
}

impl TouchAggregator {
    pub fn new() -> (r: TouchAggregator)
        ensures
            r@ == no_touch(),
            r@.wf(),
    {
        let r = TouchAggregator {
            fingers: HashMap::new(),
            peak_count: 0,
            sum_dx: 0,
            sum_dy: 0,
            lifted: 0,
            longest_ms: 0,
        };
        assert(r@ =~= no_touch());
        r
    }

    /// True while at least one finger is on the surface.
    pub fn is_active(&self) -> (r: bool)
        ensures
            r == (self@.fingers.len() > 0),
    {
        self.fingers.len() > 0
    }

    /// Live finger count — useful as a heuristic (e.g. suppress click-to-focus
    /// when a multi-finger stroke is in progress).
    pub fn fingers(&self) -> (r: u8)
        ensures
            r == self@.fingers.len() % 256,
    {
        (self.fingers.len() % 256) as u8
    }

    /// Record a new finger landing. `now_ms` is a monotonic millisecond
    /// timestamp, conventionally taken from the input event itself.
    pub fn down(&mut self, slot: i32, x: i64, y: i64, now_ms: u64)
        requires
            old(self)@.wf(),
            coord(x),
            coord(y),
        ensures
            final(self)@.wf(),
            final(self)@ == old(self)@.landed(
                slot,
                Finger {
                    start_x: x,
                    start_y: y,
                    last_x: x,
                    last_y: y,
                    start_time_ms: now_ms,
                },
            ),
    {
        let f = Finger {
            start_x: x,
            start_y: y,
            last_x: x,
            last_y: y,
            start_time_ms: now_ms,
        };
        self.fingers.insert(slot, f);
        let live: u8 = self.fingers();
        if live > self.peak_count {
            self.peak_count = live;
        }
    }

    /// Update the latest position for a tracked finger. Missing slots are
    /// silently ignored — a motion can come after the matching cancel.
    pub fn motion(&mut self, slot: i32, x: i64, y: i64)
        requires
            old(self)@.wf(),
            coord(x),
            coord(y),
        ensures
            final(self)@.wf(),
            final(self)@ == old(self)@.moved(slot, x, y),
    {
        let held: Option<Finger> = match self.fingers.get(&slot) {
            Some(f) => Some(*f),
            None => None,
        };
        if let Some(f) = held {
            self.fingers.insert(
                slot,
                Finger {
                    start_x: f.start_x,
                    start_y: f.start_y,
                    last_x: x,
                    last_y: y,
                    start_time_ms: f.start_time_ms,
                },
            );
        }
    }

    /// Lift a finger. When this drains the last finger, classify the gesture
    /// over the recorded stroke and reset internal state. Returning `Some`
    /// hands the gesture upward to the gesture dispatcher.
    pub fn up(&mut self, slot: i32, now_ms: u64) -> (r: Option<Gesture>)
        requires
            old(self)@.wf(),
        ensures
            final(self)@.wf(),
            !old(self)@.has(slot) ==> r is None && final(self)@ == old(self)@,
            old(self)@.has(slot) ==> {
                let lifted = old(self)@.after_lift(slot, now_ms as int);
                if lifted.fingers.len() > 0 {
                    r is None && final(self)@ == lifted
                } else {
                    r == lifted.stroke() && final(self)@ == no_touch()
                }
            },
    {
        let ghost before = self@;
        let f: Finger = match self.fingers.remove(&slot) {
            Some(f) => f,
            None => {
                assert(self@ =~= before);
                return None;
            },
        };
        assert(finger_ok(before.fingers[slot]));
        proof {
            assert(2 * COORD_LIMIT * self@.lifted <= 2 * COORD_LIMIT * STROKE_LIMIT)
                by (nonlinear_arith)
                requires
                    0 <= self@.lifted <= STROKE_LIMIT,
            ;
            assert(2 * COORD_LIMIT * (self@.lifted + 1) == 2 * COORD_LIMIT * self@.lifted + 2
                * COORD_LIMIT) by (nonlinear_arith);
            assert(-2 * COORD_LIMIT * (self@.lifted + 1) == -2 * COORD_LIMIT * self@.lifted - 2
                * COORD_LIMIT) by (nonlinear_arith);
            assert(-2 * COORD_LIMIT * self@.lifted == -(2 * COORD_LIMIT * self@.lifted))
                by (nonlinear_arith);
        }
        if self.lifted < STROKE_LIMIT {
            self.sum_dx = self.sum_dx + (f.last_x - f.start_x) as i128;
            self.sum_dy = self.sum_dy + (f.last_y - f.start_y) as i128;
            self.lifted = self.lifted + 1;
        }
        let stay: u64 = now_ms.saturating_sub(f.start_time_ms);
        if stay > self.longest_ms {
            self.longest_ms = stay;
        }
        assert(self@ =~= old(self)@.after_lift(slot, now_ms as int));
        if self.fingers.len() > 0 {
            // Multi-finger gesture still in progress; defer emission until the
            // surface is finger-free.
            return None;
        }
        assert(-2 * COORD_LIMIT * self@.lifted == -(2 * COORD_LIMIT * self@.lifted))
            by (nonlinear_arith);
        let dx: i64 = mean_of(self.sum_dx, self.lifted);
        let dy: i64 = mean_of(self.sum_dy, self.lifted);
        let duration_ms: u32 = (self.longest_ms % 0x1_0000_0000) as u32;
        let gesture: Option<Gesture> = classify(self.peak_count, dx, dy, duration_ms);
        self.cancel();
        gesture
    }

    /// Drop all tracked fingers (touch cancel). No gesture is emitted; callers
    /// should treat the stroke as discarded.
    pub fn cancel(&mut self)
        ensures
            final(self)@ == no_touch(),
            final(self)@.wf(),
    {
        self.fingers.clear();
        self.peak_count = 0;
        self.sum_dx = 0;
        self.sum_dy = 0;
        self.lifted = 0;
        self.longest_ms = 0;
        assert(self@ =~= no_touch());
    }
}

impl Default for TouchAggregator {
    fn default() -> (r: TouchAggregator)
        ensures
            r@ == no_touch(),
            r@.wf(),
    {
        TouchAggregator::new()
    }
}

// ---------------------------------------------------------------------------
// Touch arbitration
// ---------------------------------------------------------------------------

/// Touch arbitration: decides whether a *free* touch sequence (one not already
/// claimed by an overlay / the dock) belongs to the focused client or is a
/// compositor multi-finger gesture.
///
/// A single finger is forwarded to the client. The moment a **second** finger
/// lands, the sequence is **claimed** as a compositor gesture: the caller
/// cancels the client's in-progress touch ([`TouchRoute::Claim`]) and forwards
/// nothing more until every finger lifts.
#[derive(Debug)]
pub struct TouchArbiter {
    claimed: bool,
}

/// Where a free touch should go this event.
#[derive(Debug, Clone, Copy, PartialEq, Eq, Structural)]
pub enum TouchRoute {
    /// Forward to the focused client (one finger — tap / drag / scroll).
    Client,
    /// Just crossed into a gesture — cancel the client's touch session now,
    /// then treat the rest of the sequence as gesture-only.
    Claim,
    /// Already a gesture — feed the aggregator only, forward nothing.
    Gesture,
}

/// Where a finger goes, given whether the sequence is claimed already.
pub open spec fn route(claimed: bool, free_fingers: u8) -> TouchRoute {
    if claimed {
        TouchRoute::Gesture
    } else if free_fingers >= 2 {
        TouchRoute::Claim
    } else {
        TouchRoute::Client
    }
}

impl TouchArbiter {
    /// Whether the sequence is a claimed gesture.
    pub closed spec fn claimed(self) -> bool {
        self.claimed
    }

    pub fn new() -> (r: TouchArbiter)
        ensures
            !r.claimed(),
    {
        TouchArbiter { claimed: false }
    }

    /// Decide routing for a free-touch *down*. `free_fingers` is the
    /// aggregator's finger count *after* this down was recorded. A single finger
    /// goes to the client; the **second** finger claims the sequence as a
    /// compositor gesture — two fingers drive window move /
    /// double-tap-fullscreen, three+ drive workspace / overview swipes.
    pub fn down(&mut self, free_fingers: u8) -> (r: TouchRoute)
        ensures
            r == route(old(self).claimed(), free_fingers),
            final(self).claimed() == (r != TouchRoute::Client),
    {
        if self.claimed {
            TouchRoute::Gesture
        } else if free_fingers >= 2 {
            self.claimed = true;
            TouchRoute::Claim
        } else {
            TouchRoute::Client
        }
    }

    /// Whether the current sequence is a claimed gesture — motion/up of a free
    /// touch then bypass the client.
    pub fn is_gesture(&self) -> (r: bool)
        ensures
            r == self.claimed(),
    {
        self.claimed
    }

    /// Note a finger lifting; `still_active` = any fingers remain. Resets the
    /// claim once the sequence ends.
    pub fn up(&mut self, still_active: bool)
        ensures
            final(self).claimed() == (old(self).claimed() && still_active),
    {
        if !still_active {
            self.claimed = false;
        }
    }

    /// Hard reset on a touch cancel.
    pub fn cancel(&mut self)
        ensures
            !final(self).claimed(),
    {
        self.claimed = false;
    }
}

impl Default for TouchArbiter {
    fn default() -> (r: TouchArbiter)
        ensures
            !r.claimed(),
    {
        TouchArbiter::new()
    }
}

// ---------------------------------------------------------------------------
// Laws of strokes
// ---------------------------------------------------------------------------

/// Three fingers that go sideways by more than 80 pixels, and further than they go
/// up or down, switch the workspace the way they go, whatever else they do.
pub proof fn law_sideways_stroke(dx: int, dy: int, t: int, other_dy: int, u: int)
    requires
        dx > 80 * 256 || dx < -80 * 256,
        (dx > 0 && -dx < dy < dx) || (dx < 0 && dx < dy < -dx),
        (dx > 0 && -dx < other_dy < dx) || (dx < 0 && dx < other_dy < -dx),
    ensures
        dx < 0 ==> meaning(3, dx, dy, t) == Some(
            Gesture::SwitchWorkspace { direction: SwipeDir::Left },
        ),
        dx > 0 ==> meaning(3, dx, dy, t) == Some(
            Gesture::SwitchWorkspace { direction: SwipeDir::Right },
        ),
        meaning(3, dx, other_dy, u) == meaning(3, dx, dy, t),
        meaning(3, -dx, dy, t) != meaning(3, dx, dy, t),
{
}

/// Three fingers that go up by more than 80 pixels, and at least as far as they go
/// sideways, open the overview; going down as far does nothing.
pub proof fn law_upward_stroke(dx: int, dy: int, t: int)
    requires
        dy < -80 * 256,
        dy <= dx <= -dy,
    ensures
        meaning(3, dx, dy, t) == Some(Gesture::TaskOverview),
        meaning(3, dx, -dy, t) is None,
        meaning(3, -dx, dy, t) == meaning(3, dx, dy, t),
{
}

/// Fingers that rest: four of them, within 40 pixels, show the desktop; one,
/// within 8 pixels for 550 ms, is a long press; two, within 8 pixels and for less
/// than 250 ms, are a secondary tap. In which direction they tremble makes no
/// difference.
pub proof fn law_resting_fingers(dx: int, dy: int, t: int)
    ensures
        -40 * 256 < dx < 40 * 256 && -40 * 256 < dy < 40 * 256 ==> meaning(4, dx, dy, t) == Some(
            Gesture::ShowDesktop,
        ),
        -8 * 256 < dx < 8 * 256 && -8 * 256 < dy < 8 * 256 ==> {
            &&& t >= 550 ==> meaning(1, dx, dy, t) == Some(Gesture::LongPress)
            &&& t < 550 ==> meaning(1, dx, dy, t) is None
            &&& t < 250 ==> meaning(2, dx, dy, t) == Some(Gesture::SecondaryTap)
            &&& t >= 250 ==> meaning(2, dx, dy, t) is None
            &&& meaning(3, dx, dy, t) is None
        },
        forall|f: int| f != 3 ==> #[trigger] meaning(f, -dx, dy, t) == meaning(f, dx, dy, t),
        forall|f: int| f != 3 ==> #[trigger] meaning(f, dx, -dy, t) == meaning(f, dx, dy, t),
{
}

/// No gesture is found in anything else: each needs its number of fingers, and how
/// far they went.
pub proof fn law_gestures_are_deliberate(f: int, dx: int, dy: int, t: int)
    ensures
        match meaning(f, dx, dy, t) {
            None => true,
            Some(Gesture::SwitchWorkspace { .. }) => f == 3 && (dx > 80 * 256 || dx < -80 * 256) && (
            dx > dy || dx < dy) && (dx > -dy || dx < -dy),
            Some(Gesture::TaskOverview) => f == 3 && dy < -80 * 256,
            Some(Gesture::ShowDesktop) => f == 4 && -40 * 256 < dx < 40 * 256 && -40 * 256 < dy < 40
                * 256,
            Some(Gesture::LongPress) => f == 1 && t >= 550 && -8 * 256 < dx < 8 * 256 && -8 * 256
                < dy < 8 * 256,
            Some(Gesture::SecondaryTap) => f == 2 && t < 250 && -8 * 256 < dx < 8 * 256 && -8 * 256
                < dy < 8 * 256,
            Some(Gesture::RevealDock) => false,
        },
{
}

/// The finger that lands at a point, at a time.
pub open spec fn fresh_finger(x: i64, y: i64, t: u64) -> Finger {
    Finger { start_x: x, start_y: y, last_x: x, last_y: y, start_time_ms: t }
}

/// One finger's stroke is classified by where it went and how long it stayed.
pub proof fn law_one_finger_stroke(
    slot: i32,
    from: (i64, i64),
    to: (i64, i64),
    t: u64,
    u: u64,
)
    requires
        t <= u <= u32::MAX,
    ensures
        ({
            let down = no_touch().landed(slot, fresh_finger(from.0, from.1, t));
            let lifted = down.moved(slot, to.0, to.1).after_lift(slot, u as int);
            &&& down.peak_count == 1
            &&& lifted.fingers.len() == 0
            &&& lifted.stroke() == meaning(1, to.0 - from.0, to.1 - from.1, u - t)
        }),
{
    let down = no_touch().landed(slot, fresh_finger(from.0, from.1, t));
    let moved = down.moved(slot, to.0, to.1);
    let lifted = moved.after_lift(slot, u as int);
    assert(down.fingers.dom() =~= set![slot]);
    assert(lifted.fingers.dom() =~= Set::empty());
    lemma_mean_of_one(lifted.sum_dx);
    lemma_mean_of_one(lifted.sum_dy);
}

proof fn lemma_mean_of_one(sum: int)
    ensures
        mean(sum, 1) == sum,
{
}

/// A stroke of three fingers that all go the same way is classified by that way,
/// by their number and by the longest stay, in whatever order they are lifted.
pub proof fn law_three_finger_stroke(
    s: (i32, i32, i32),
    p: (i64, i64),
    q: (i64, i64),
    r: (i64, i64),
    by: (int, int),
    t: u64,
    up: (u64, u64, u64),
)
    requires
        s.0 != s.1 && s.1 != s.2 && s.0 != s.2,
        t <= up.0 <= u32::MAX && t <= up.1 <= u32::MAX && t <= up.2 <= u32::MAX,
        i64::MIN <= p.0 + by.0 <= i64::MAX && i64::MIN <= p.1 + by.1 <= i64::MAX,
        i64::MIN <= q.0 + by.0 <= i64::MAX && i64::MIN <= q.1 + by.1 <= i64::MAX,
        i64::MIN <= r.0 + by.0 <= i64::MAX && i64::MIN <= r.1 + by.1 <= i64::MAX,
    ensures
        ({
            let down = no_touch().landed(s.0, fresh_finger(p.0, p.1, t)).landed(
                s.1,
                fresh_finger(q.0, q.1, t),
            ).landed(s.2, fresh_finger(r.0, r.1, t));
            let moved = down.moved(s.0, (p.0 + by.0) as i64, (p.1 + by.1) as i64).moved(
                s.1,
                (q.0 + by.0) as i64,
                (q.1 + by.1) as i64,
            ).moved(s.2, (r.0 + by.0) as i64, (r.1 + by.1) as i64);
            let lifted = moved.after_lift(s.0, up.0 as int).after_lift(
                s.1,
                up.1 as int,
            ).after_lift(s.2, up.2 as int);
            let longest = max_of(max_of(up.0 - t, up.1 - t), up.2 - t);
            &&& down.peak_count == 3
            &&& lifted.fingers.len() == 0
            &&& lifted.stroke() == meaning(3, by.0, by.1, longest)
        }),
{
    let a = no_touch().landed(s.0, fresh_finger(p.0, p.1, t));
    let b = a.landed(s.1, fresh_finger(q.0, q.1, t));
    let down = b.landed(s.2, fresh_finger(r.0, r.1, t));
    assert(a.fingers.dom() =~= set![s.0]);
    assert(b.fingers.dom() =~= set![s.0].insert(s.1));
    assert(down.fingers.dom() =~= set![s.0].insert(s.1).insert(s.2));
    let moved = down.moved(s.0, (p.0 + by.0) as i64, (p.1 + by.1) as i64).moved(
        s.1,
        (q.0 + by.0) as i64,
        (q.1 + by.1) as i64,
    ).moved(s.2, (r.0 + by.0) as i64, (r.1 + by.1) as i64);
    let lifted = moved.after_lift(s.0, up.0 as int).after_lift(s.1, up.1 as int).after_lift(
        s.2,
        up.2 as int,
    );
    assert(lifted.fingers.dom() =~= Set::empty());
    assert(lifted.sum_dx == 3 * by.0 && lifted.sum_dy == 3 * by.1);
    assert(mean(3 * by.0, 3) == by.0);
    assert(mean(3 * by.1, 3) == by.1);
}

/// The first finger goes to the client, the second claims the touches for a
/// gesture, and from then on all of them belong to it.
pub proof fn law_second_finger_claims(n: u8)
    ensures
        n <= 1 ==> route(false, n) == TouchRoute::Client,
        n >= 2 ==> route(false, n) == TouchRoute::Claim,
        route(true, n) == TouchRoute::Gesture,
{
}

/// It makes no difference to a stroke in which order two fingers are lifted,
/// unless the count has room for just one of them.
pub proof fn law_lift_order(v: TouchView, a: i32, at_a: int, b: i32, at_b: int)
    requires
        v.has(a),
        v.has(b),
        a != b,
        v.lifted + 1 != STROKE_LIMIT,
    ensures
        v.after_lift(a, at_a).after_lift(b, at_b) == v.after_lift(b, at_b).after_lift(a, at_a),
{
    let ab = v.after_lift(a, at_a).after_lift(b, at_b);
    let ba = v.after_lift(b, at_b).after_lift(a, at_a);
    assert(ab.fingers =~= ba.fingers);
    assert(ab =~= ba);
}

/// Whether a sequence stays claimed through `downs` further fingers.
pub open spec fn claimed_after(claimed: bool, downs: Seq<u8>) -> bool
    decreases downs.len(),
{
    if downs.len() == 0 {
        claimed
    } else {
        route(claimed_after(claimed, downs.drop_last()), downs.last()) != TouchRoute::Client
    }
}

/// Once claimed, a sequence stays a gesture however many fingers land: the
/// client sees none of them, and is told only once.
pub proof fn law_claim_holds(downs: Seq<u8>, next: u8)
    ensures
        claimed_after(true, downs),
        route(claimed_after(true, downs), next) == TouchRoute::Gesture,
    decreases downs.len(),
{
    if downs.len() > 0 {
        law_claim_holds(downs.drop_last(), next);
    }
}

/// One finger after another, never two at once, always reaches the client.
pub proof fn law_single_finger_reaches_client(downs: Seq<u8>)
    requires
        forall|i: int| 0 <= i < downs.len() ==> #[trigger] downs[i] <= 1,
    ensures
        !claimed_after(false, downs),
    decreases downs.len(),
{
    if downs.len() > 0 {
        let t = downs.drop_last();
        assert forall|i: int| 0 <= i < t.len() implies #[trigger] t[i] <= 1 by {
            assert(t[i] == downs[i]);
        }
        law_single_finger_reaches_client(t);
    }
}

// ---------------------------------------------------------------------------
// Laws of the panel
// ---------------------------------------------------------------------------

/// Backspace, either enter key and the space bar do in a field what they say, whatever
/// is held; a picture is typed as it is.
pub proof fn law_editing_keys(cap: KeyCapView, mods: Mods, action: KeyActionView, s: Seq<char>)
    ensures
        cap.kind == KeyKindView::Key(14) ==> key_text(cap, mods, action)
            == OskTextPressView::Backspace,
        cap.kind == KeyKindView::Key(28) ==> key_text(cap, mods, action) == OskTextPressView::Enter,
        cap.kind == KeyKindView::Key(96) ==> key_text(cap, mods, action) == OskTextPressView::Enter,
        cap.kind == KeyKindView::Key(57) ==> key_text(cap, mods, action) == OskTextPressView::Char(
            " "@,
        ),
        cap.kind == KeyKindView::Unicode(s) ==> key_text(cap, mods, action)
            == OskTextPressView::Char(s),
        cap.kind is Modifier || cap.kind is Action ==> key_text(cap, mods, action)
            == OskTextPressView::Action(action),
{
}

/// A modifier's key is lit while that modifier, and no other, is in effect; no other key
/// is ever lit.
pub proof fn law_lit_modifiers(mods: Mods, kind: KeyKindView)
    ensures
        mod_active(KeyKindView::Modifier(Modifier::Shift), mods) <==> mods.shift != ShiftState::Off,
        mod_active(KeyKindView::Modifier(Modifier::Ctrl), mods) <==> mods.ctrl,
        mod_active(KeyKindView::Modifier(Modifier::Alt), mods) <==> mods.alt,
        mod_active(KeyKindView::Modifier(Modifier::AltGr), mods) <==> mods.altgr,
        !(kind is Modifier) ==> !mod_active(kind, mods),
{
}

/// The language key shows the page's code, an editing key its word in the language that
/// is in use, and every other key its own label.
pub proof fn law_labels(cap: KeyCapView, kb: KeyboardView)
    ensures
        cap.kind == KeyKindView::Action(Action::Language) && kb.page.id == LayoutId::Turkish
            ==> drawn_label(cap, kb) == "TR"@,
        cap.kind == KeyKindView::Action(Action::Language) && kb.page.id == LayoutId::English
            ==> drawn_label(cap, kb) == "EN"@,
        cap.kind == KeyKindView::Action(Action::Copy) && kb.home_alpha == LayoutId::Turkish
            ==> drawn_label(cap, kb) == "Kopyala"@,
        cap.kind == KeyKindView::Action(Action::Copy) && kb.home_alpha == LayoutId::English
            ==> drawn_label(cap, kb) == "Copy"@,
        !(cap.kind is Action) && kb.mods.shift == ShiftState::Off ==> drawn_label(cap, kb)
            == cap.label,
        !(cap.kind is Action) && kb.mods.shift != ShiftState::Off ==> (cap.shift_label matches Some(s)
            ==> drawn_label(cap, kb) == s),
{
}

/// The enter key says what it does in the field: search, go, next, or its sign.
pub proof fn law_enter_labels()
    ensures
        enter_text(InputMode::Search) == "Search"@,
        enter_text(InputMode::Url) == "Go"@,
        enter_text(InputMode::Email) == "Next"@,
        enter_text(InputMode::Text) == "↵"@,
        enter_text(InputMode::Numeric) == "↵"@,
        enter_text(InputMode::Password) == "↵"@,
{
}

/// A floating panel is where it was put, has the keyboard's height, takes 62 hundredths
/// of the screen but no less than 480 pixels, and is never wider than the screen.
pub proof fn law_floating_panel(c: OskConfig, x: i64, y: i64)
    requires
        c.bounded(),
        c.screen_w >= 0,
    ensures
        ({
            let p = panel_of(c, Placement::Floating { x, y });
            &&& p.x == x && p.y == y && p.h == c.keyboard_h
            &&& p.w <= c.screen_w
            &&& c.screen_w >= 1000 * 256 ==> p.w == c.screen_w * 62int / 100
            &&& 480 * 256 <= c.screen_w <= 700 * 256 ==> p.w == 480 * 256
            &&& c.screen_w < 480 * 256 ==> p.w == c.screen_w
        }),
{
}

/// A docked panel takes 72 hundredths of the screen, but no less than 680 and no more
/// than 1120 pixels.
pub proof fn law_docked_width(c: OskConfig)
    requires
        c.bounded(),
        c.screen_w >= 0,
    ensures
        1000 * 256 <= c.screen_w <= 1500 * 256 ==> docked_w(c) == c.screen_w * 72int / 100,
        c.screen_w >= 1600 * 256 ==> docked_w(c) == 1120 * 256,
        680 * 256 <= c.screen_w <= 900 * 256 ==> docked_w(c) == 680 * 256,
        c.screen_w < 680 * 256 ==> docked_w(c) == c.screen_w,
{
}

/// A floating panel that stands over a field goes above it, a margin away, where there
/// is room, else as far below it; it keeps its column and its height.
pub proof fn law_panel_goes_beside(o: OskView, field: OskRect)
    requires
        o.wf(),
        field.bounded(),
        o.kb.placement is Floating,
        field.y + field.h > o.panel().y,
        field.y < o.panel().y + o.panel().h,
    ensures
        field.y - o.panel().h - o.config.margin >= 0 ==> o.beside(field).panel().y + o.panel().h
            + o.config.margin == field.y,
        field.y - o.panel().h - o.config.margin < 0 && field.y + field.h + o.config.margin
            + o.panel().h <= o.config.screen_h ==> o.beside(field).panel().y == field.y + field.h
            + o.config.margin,
        o.beside(field).panel().x == o.panel().x,
        o.beside(field).panel().h == o.panel().h,
{
}

/// A field is scrolled just so far that it ends a margin above the keyboard, and not at
/// all where it does not reach below the keyboard's upper edge.
pub proof fn law_scroll_amount(o: OskView, field: OskRect)
    ensures
        field.y + field.h > geometry_of(o.config).reserved_top_y ==> field.y + field.h
            - o.scroll_for(field) + o.config.margin == geometry_of(o.config).reserved_top_y,
        field.y + field.h <= geometry_of(o.config).reserved_top_y ==> o.scroll_for(field) == 0,
{
}

/// The keyboard reserves its height at the bottom of the output it is bound to, and
/// nothing on the other edges.
pub proof fn law_reservation(c: OskConfig)
    ensures
        osk_struts(c).bottom == c.keyboard_h,
        osk_struts(c).top == 0 && osk_struts(c).left == 0 && osk_struts(c).right == 0,
        visible(OskState::Open) && visible(OskState::Opening),
        !visible(OskState::Closed) && !visible(OskState::Closing),
{
}

/// A key is drawn where it is touched, marked as pressed just while it is, and as the
/// logo where it is the system's own key.
pub proof fn law_drawn_key(o: OskView, r: KeyRect)
    ensures
        ({
            let d = o.drawn(r);
            let cap = o.kb.page.rows[r.row as int][r.col as int];
            &&& d.x == r.x && d.y == r.y && d.w == r.w && d.h == r.h
            &&& d.pressed <==> o.pressed == Some((r.row, r.col))
            &&& d.is_logo <==> cap.kind == KeyKindView::Key(125)
            &&& cap.kind is Action ==> d.is_action
            &&& cap.width >= 200 ==> d.is_action
            &&& cap.width < 200 && !(cap.kind is Action) ==> !d.is_action
        }),
{
}

} // verus!
