//! On-screen-keyboard engine: the model behind the keyboard overlay.
//!
//! [`input`](crate::input) owns the keyboard's lifecycle. This module owns
//! everything *inside* the panel: the keycaps, the layouts, the modifier state
//! machine, the geometry of the keys, long-press alternates and double-tap
//! Caps-Lock.
//!
//! ## How a keypress becomes text
//!
//! A [`KeyKind::Key`] carries a raw **evdev** keycode. A tap resolves it to a
//! [`KeyAction::Chord`] — the active modifiers plus that keycode — which is fed
//! to the seat keyboard like a real keypress, so it reaches every client. The
//! glyph each keycode produces is decided by the seat's **xkb layout**, so when
//! the active layout changes ([`LayoutId`]) the seat's xkb layout is retuned too.
//!
//! ## Glyphs with no keycode (emoji, long-press accents)
//!
//! Emoji and accented alternates have no position in any xkb layout, so they
//! resolve to [`KeyAction::Commit`] — a literal string for the input method.

use vstd::prelude::*;

use crate::keyboard::pages::page_spec;
use crate::text::{own, strs};
use crate::wm::COORD_LIMIT;

pub mod code;
pub mod pages;

pub use crate::keyboard::pages::page_for;

verus! {

// ---------------------------------------------------------------------------
// Layout identity
// ---------------------------------------------------------------------------

/// The selectable layouts.
#[derive(Debug, Clone, Copy, PartialEq, Eq, Structural)]
pub enum LayoutId {
    /// English (US) QWERTY — letters page.
    English,
    /// Turkish (`tr`) — letters page.
    Turkish,
    /// Pinyin entry for Chinese: a Latin QWERTY whose commits are fed to a CJK
    /// input method for candidate selection.
    Chinese,
    /// `?123` symbols / punctuation page.
    Symbols,
    /// Telephone-style numeric keypad.
    Numeric,
    /// Emoji grid (pure `Commit` keys).
    Emoji,
}

/// The label on the layout-cycle key.
pub open spec fn label_of(id: LayoutId) -> Seq<char> {
    match id {
        LayoutId::English => "EN"@,
        LayoutId::Turkish => "TR"@,
        LayoutId::Chinese => "中"@,
        LayoutId::Symbols => "?123"@,
        LayoutId::Numeric => "123"@,
        LayoutId::Emoji => "☺"@,
    }
}

/// The xkb layout and variant that make evdev codes resolve to the glyphs on a
/// page. Pages with no xkb counterpart keep the previous letters layout.
pub open spec fn xkb_of(id: LayoutId) -> Option<(Seq<char>, Seq<char>)> {
    match id {
        LayoutId::English => Some(("us"@, ""@)),
        LayoutId::Turkish => Some(("tr"@, "f"@)),
        LayoutId::Chinese => Some(("us"@, ""@)),
        _ => None,
    }
}

pub open spec fn alpha(id: LayoutId) -> bool {
    id == LayoutId::English || id == LayoutId::Turkish || id == LayoutId::Chinese
}

pub open spec fn xkb_view(x: Option<(&'static str, &'static str)>) -> Option<
    (Seq<char>, Seq<char>),
> {
    match x {
        Some((layout, variant)) => Some((layout@, variant@)),
        None => None,
    }
}

impl LayoutId {
    /// The label shown on the layout-cycle key.
    pub fn short_label(self) -> (r: &'static str)
        ensures
            r@ == label_of(self),
    {
        match self {
            LayoutId::English => "EN",
            LayoutId::Turkish => "TR",
            LayoutId::Chinese => "中",
            LayoutId::Symbols => "?123",
            LayoutId::Numeric => "123",
            LayoutId::Emoji => "☺",
        }
    }

    /// xkb `(layout, variant)` to program into the seat keyboard so the evdev
    /// codes on this page resolve to the printed glyphs. Pages with no xkb
    /// counterpart (symbols/emoji) keep the previous letters layout.
    pub fn xkb(self) -> (r: Option<(&'static str, &'static str)>)
        ensures
            xkb_view(r) == xkb_of(self),
    {
        match self {
            LayoutId::English => Some(("us", "")),
            // The traditional Turkish typewriter layout.
            LayoutId::Turkish => Some(("tr", "f")),
            LayoutId::Chinese => Some(("us", "")),
            _ => None,
        }
    }

    /// The "alphabetic" layouts. Symbols / numeric / emoji are reached from a
    /// dedicated key and return to whichever of these was last active.
    pub fn is_alpha(self) -> (r: bool)
        ensures
            r == alpha(self),
    {
        match self {
            LayoutId::English => true,
            LayoutId::Turkish => true,
            LayoutId::Chinese => true,
            _ => false,
        }
    }
}

pub open spec fn opt_label(r: Option<&'static str>) -> Option<Seq<char>> {
    match r {
        Some(s) => Some(s@),
        None => None,
    }
}

/// The cap text of the word-action keys in a language.
pub open spec fn action_text(a: Action, language: LayoutId) -> Option<Seq<char>> {
    let tr = language == LayoutId::Turkish;
    match a {
        Action::Copy => Some(
            if tr {
                "Kopyala"@
            } else {
                "Copy"@
            },
        ),
        Action::Paste => Some(
            if tr {
                "Yapıştır"@
            } else {
                "Paste"@
            },
        ),
        Action::Cut => Some(
            if tr {
                "Kes"@
            } else {
                "Cut"@
            },
        ),
        Action::SelectAll => Some(
            if tr {
                "Tümü"@
            } else {
                "All"@
            },
        ),
        _ => None,
    }
}

/// Localised cap text for the word-action keys (Copy / Paste / Cut / Select-All)
/// in the keyboard's active `language`. `None` for non-word actions (the
/// renderer keeps their static glyph cap). Currently Turkish + English.
pub fn action_label(a: Action, language: LayoutId) -> (r: Option<&'static str>)
    ensures
        opt_label(r) == action_text(a, language),
{
    let tr: bool = language == LayoutId::Turkish;
    match a {
        Action::Copy => Some(if tr { "Kopyala" } else { "Copy" }),
        Action::Paste => Some(if tr { "Yapıştır" } else { "Paste" }),
        Action::Cut => Some(if tr { "Kes" } else { "Cut" }),
        Action::SelectAll => Some(if tr { "Tümü" } else { "All" }),
        _ => None,
    }
}

/// The alphabetic layout the on-screen keyboard opens in: always Turkish. The
/// user can switch live with the language key, and that choice is preserved
/// until they change it again.
pub fn system_default_layout() -> (r: LayoutId)
    ensures
        r == LayoutId::Turkish,
{
    LayoutId::Turkish
}

// ---------------------------------------------------------------------------
// Keycaps
// ---------------------------------------------------------------------------

/// What a key *does* when tapped.
#[derive(Debug, Clone, Copy, PartialEq, Eq)]
pub enum KeyKind {
    /// Emit a raw evdev keycode through the seat keyboard. The produced glyph
    /// is whatever the active xkb layout maps this code to.
    Key(u32),
    /// Commit a literal string (emoji / accented alternate) via the input
    /// method. No keycode involved.
    Unicode(&'static str),
    /// A latching / locking modifier.
    Modifier(Modifier),
    /// A compositor-level action (layout switch, clipboard, hide, dock…).
    Action(Action),
}

pub enum KeyKindView {
    Key(u32),
    Unicode(Seq<char>),
    Modifier(Modifier),
    Action(Action),
}

impl View for KeyKind {
    type V = KeyKindView;

    open spec fn view(&self) -> KeyKindView {
        match *self {
            KeyKind::Key(c) => KeyKindView::Key(c),
            KeyKind::Unicode(s) => KeyKindView::Unicode(s@),
            KeyKind::Modifier(m) => KeyKindView::Modifier(m),
            KeyKind::Action(a) => KeyKindView::Action(a),
        }
    }
}

/// Modifiers the keyboard can hold. Shift one-shot-latches on a single tap and
/// **locks** (Caps) on a double-tap; the rest one-shot-latch.
#[derive(Debug, Clone, Copy, PartialEq, Eq, Structural)]
pub enum Modifier {
    Shift,
    Ctrl,
    Alt,
    AltGr,
}

/// Compositor-level, non-text keys.
#[derive(Debug, Clone, Copy, PartialEq, Eq, Structural)]
pub enum Action {
    /// Cycle among alphabetic layouts.
    CycleAlpha,
    /// Keyboard-language selector (next to the space bar): cycles the
    /// alphabetic layout like [`Action::CycleAlpha`], but its cap shows the
    /// *current* language code (TR / EN).
    Language,
    /// Return to letters: from a symbols/numeric/emoji page, go back to the
    /// **last-used alphabetic layout** (never cycles language — that's the
    /// Language key's job).
    Letters,
    /// Jump to a specific page.
    Goto(LayoutId),
    Copy,
    Paste,
    Cut,
    SelectAll,
    /// Open the Recent-Apps overview ("recents").
    Recents,
    /// Collapse the keyboard (lose focus / user dismiss).
    Hide,
    /// Re-dock to the default bottom-centre position.
    DockDefault,
    /// Toggle split (tablet) mode.
    ToggleSplit,
}

/// One key. Its geometry is derived from `width` and the key's row.
#[derive(Debug, Clone)]
pub struct KeyCap {
    pub kind: KeyKind,
    /// Glyph/label shown when no shift is active.
    pub label: &'static str,
    /// Label when Shift/Caps is active (uppercase, or shifted symbol).
    pub shift_label: Option<&'static str>,
    /// Width in hundredths of a standard key cell.
    pub width: u32,
    /// Long-press popup glyphs. Empty == no popup.
    pub alternates: Vec<&'static str>,
}

#[verifier::ext_equal]
pub struct KeyCapView {
    pub kind: KeyKindView,
    pub label: Seq<char>,
    pub shift_label: Option<Seq<char>>,
    pub width: int,
    pub alternates: Seq<Seq<char>>,
}

impl View for KeyCap {
    type V = KeyCapView;

    open spec fn view(&self) -> KeyCapView {
        KeyCapView {
            kind: self.kind@,
            label: self.label@,
            shift_label: opt_label(self.shift_label),
            width: self.width as int,
            alternates: strs(self.alternates@),
        }
    }
}

pub open spec fn caps(v: Seq<KeyCap>) -> Seq<KeyCapView> {
    v.map_values(|k: KeyCap| k@)
}

pub open spec fn rows_view(v: Seq<Vec<KeyCap>>) -> Seq<Seq<KeyCapView>> {
    v.map_values(|r: Vec<KeyCap>| caps(r@))
}

/// A key with alternates.
pub open spec fn letter_cap(c: u32, lower: Seq<char>, upper: Seq<char>, alts: Seq<Seq<char>>) -> KeyCapView {
    KeyCapView {
        kind: KeyKindView::Key(c),
        label: lower,
        shift_label: Some(upper),
        width: 100,
        alternates: alts,
    }
}

/// A key without alternates.
pub open spec fn key_cap(c: u32, label: Seq<char>, shift: Seq<char>) -> KeyCapView {
    letter_cap(c, label, shift, seq![])
}

pub open spec fn act_cap(a: Action, label: Seq<char>, width: int) -> KeyCapView {
    KeyCapView {
        kind: KeyKindView::Action(a),
        label,
        shift_label: None,
        width,
        alternates: seq![],
    }
}

pub open spec fn mod_cap(m: Modifier, label: Seq<char>, width: int) -> KeyCapView {
    KeyCapView {
        kind: KeyKindView::Modifier(m),
        label,
        shift_label: None,
        width,
        alternates: seq![],
    }
}

pub open spec fn emoji_cap(s: Seq<char>) -> KeyCapView {
    KeyCapView {
        kind: KeyKindView::Unicode(s),
        label: s,
        shift_label: None,
        width: 100,
        alternates: seq![],
    }
}

/// A key of another width.
pub open spec fn wide_cap(k: KeyCapView, width: int) -> KeyCapView {
    KeyCapView { width, ..k }
}

/// The label of a key under the current shift state.
pub open spec fn cap_text(k: KeyCapView, shifted: bool) -> Seq<char> {
    if shifted {
        match k.shift_label {
            Some(s) => s,
            None => k.label,
        }
    } else {
        k.label
    }
}

impl KeyCap {
    pub(crate) fn key(c: u32, label: &'static str, shift: &'static str) -> (r: KeyCap)
        ensures
            r@ == key_cap(c, label@, shift@),
    {
        let r = KeyCap {
            kind: KeyKind::Key(c),
            label,
            shift_label: Some(shift),
            width: 100,
            alternates: Vec::new(),
        };
        assert(strs(r.alternates@) =~= seq![]);
        r
    }

    pub(crate) fn letter(
        c: u32,
        lower: &'static str,
        upper: &'static str,
        alts: Vec<&'static str>,
    ) -> (r: KeyCap)
        ensures
            r@ == letter_cap(c, lower@, upper@, strs(alts@)),
    {
        KeyCap {
            kind: KeyKind::Key(c),
            label: lower,
            shift_label: Some(upper),
            width: 100,
            alternates: alts,
        }
    }

    pub(crate) fn act(a: Action, label: &'static str, width: u32) -> (r: KeyCap)
        ensures
            r@ == act_cap(a, label@, width as int),
    {
        let r = KeyCap {
            kind: KeyKind::Action(a),
            label,
            shift_label: None,
            width,
            alternates: Vec::new(),
        };
        assert(strs(r.alternates@) =~= seq![]);
        r
    }

    pub(crate) fn modk(m: Modifier, label: &'static str, width: u32) -> (r: KeyCap)
        ensures
            r@ == mod_cap(m, label@, width as int),
    {
        let r = KeyCap {
            kind: KeyKind::Modifier(m),
            label,
            shift_label: None,
            width,
            alternates: Vec::new(),
        };
        assert(strs(r.alternates@) =~= seq![]);
        r
    }

    pub(crate) fn emoji(s: &'static str) -> (r: KeyCap)
        ensures
            r@ == emoji_cap(s@),
    {
        let r = KeyCap {
            kind: KeyKind::Unicode(s),
            label: s,
            shift_label: None,
            width: 100,
            alternates: Vec::new(),
        };
        assert(strs(r.alternates@) =~= seq![]);
        r
    }

    pub(crate) fn wide(self, width: u32) -> (r: KeyCap)
        ensures
            r@ == wide_cap(self@, width as int),
    {
        KeyCap {
            kind: self.kind,
            label: self.label,
            shift_label: self.shift_label,
            width,
            alternates: self.alternates,
        }
    }

    /// Label to draw given the current shift state.
    pub fn display(&self, shifted: bool) -> (r: &'static str)
        ensures
            r@ == cap_text(self@, shifted),
    {
        if shifted {
            match self.shift_label {
                Some(s) => s,
                None => self.label,
            }
        } else {
            self.label
        }
    }
}

/// A full keyboard page: rows of keycaps + which xkb layout it wants.
pub struct Page {
    pub id: LayoutId,
    pub rows: Vec<Vec<KeyCap>>,
}

pub struct PageView {
    pub id: LayoutId,
    pub rows: Seq<Seq<KeyCapView>>,
}

impl View for Page {
    type V = PageView;

    open spec fn view(&self) -> PageView {
        PageView { id: self.id, rows: rows_view(self.rows@) }
    }
}

// ---------------------------------------------------------------------------
// Modifier state machine
// ---------------------------------------------------------------------------

#[derive(Debug, Clone, Copy, PartialEq, Eq, Structural)]
pub enum ShiftState {
    Off,
    /// One-shot: applies to the next key, then clears.
    Latched,
    /// Locked (Caps Lock) until tapped off.
    Locked,
}

/// Tracks the live modifier latches. Shift gets the latch/lock treatment with
/// double-tap → Caps; Ctrl/Alt/AltGr are simple one-shot latches.
#[derive(Debug, Clone, Copy, PartialEq, Eq, Structural)]
pub struct Mods {
    pub shift: ShiftState,
    pub ctrl: bool,
    pub alt: bool,
    pub altgr: bool,
    /// Timestamp (ms) of the last Shift tap, for double-tap → Caps detection.
    pub last_shift_ms: u64,
}

/// Max gap between two Shift taps to count as a Caps-Lock double-tap.
pub const DOUBLE_TAP_MS: u64 = 300;

/// No modifier held.
pub open spec fn no_mods() -> Mods {
    Mods { shift: ShiftState::Off, ctrl: false, alt: false, altgr: false, last_shift_ms: 0 }
}

/// Shift after a tap: off → latched → locked on a quick second tap, off on a
/// slow one; locked → off.
pub open spec fn shift_after_tap(m: Mods, now_ms: u64) -> ShiftState {
    match m.shift {
        ShiftState::Off => ShiftState::Latched,
        ShiftState::Latched => if now_ms <= m.last_shift_ms + DOUBLE_TAP_MS {
            ShiftState::Locked
        } else {
            ShiftState::Off
        },
        ShiftState::Locked => ShiftState::Off,
    }
}

pub open spec fn toggled(m: Mods, which: Modifier, now_ms: u64) -> Mods {
    match which {
        Modifier::Shift => Mods {
            shift: shift_after_tap(m, now_ms),
            last_shift_ms: now_ms,
            ..m
        },
        Modifier::Ctrl => Mods { ctrl: !m.ctrl, ..m },
        Modifier::Alt => Mods { alt: !m.alt, ..m },
        Modifier::AltGr => Mods { altgr: !m.altgr, ..m },
    }
}

/// The latches after a key was emitted: only Caps survives.
pub open spec fn consumed(m: Mods) -> Mods {
    Mods {
        shift: if m.shift == ShiftState::Latched {
            ShiftState::Off
        } else {
            m.shift
        },
        ctrl: false,
        alt: false,
        altgr: false,
        last_shift_ms: m.last_shift_ms,
    }
}

pub open spec fn opt_code(on: bool, c: u32) -> Seq<u32> {
    if on {
        seq![c]
    } else {
        seq![]
    }
}

/// The evdev codes of the modifiers in effect.
pub open spec fn held_codes(m: Mods) -> Seq<u32> {
    opt_code(m.shift != ShiftState::Off, code::LEFTSHIFT) + opt_code(m.ctrl, code::LEFTCTRL)
        + opt_code(m.alt, code::LEFTALT) + opt_code(m.altgr, code::RIGHTALT)
}

impl Default for Mods {
    fn default() -> (r: Mods)
        ensures
            r == no_mods(),
    {
        Mods { shift: ShiftState::Off, ctrl: false, alt: false, altgr: false, last_shift_ms: 0 }
    }
}

impl Mods {
    /// True when letters should render/emit uppercase.
    pub fn shifted(&self) -> (r: bool)
        ensures
            r == (self.shift != ShiftState::Off),
    {
        self.shift != ShiftState::Off
    }

    /// Handle a Shift-key tap at `now_ms`. Off→Latched, Latched→(double-tap?
    /// Locked : Off), Locked→Off.
    pub fn tap_shift(&mut self, now_ms: u64)
        ensures
            *final(self) == toggled(*old(self), Modifier::Shift, now_ms),
    {
        self.shift = match self.shift {
            ShiftState::Off => ShiftState::Latched,
            ShiftState::Latched => {
                if now_ms.saturating_sub(self.last_shift_ms) <= DOUBLE_TAP_MS {
                    ShiftState::Locked
                } else {
                    ShiftState::Off
                }
            },
            ShiftState::Locked => ShiftState::Off,
        };
        self.last_shift_ms = now_ms;
    }

    pub fn toggle(&mut self, m: Modifier, now_ms: u64)
        ensures
            *final(self) == toggled(*old(self), m, now_ms),
    {
        match m {
            Modifier::Shift => self.tap_shift(now_ms),
            Modifier::Ctrl => {
                self.ctrl = !self.ctrl;
            },
            Modifier::Alt => {
                self.alt = !self.alt;
            },
            Modifier::AltGr => {
                self.altgr = !self.altgr;
            },
        }
    }

    /// Evdev modifier codes currently in effect for a chord.
    pub fn chord_codes(&self) -> (r: Vec<u32>)
        ensures
            r@ == held_codes(*self),
    {
        let mut v: Vec<u32> = Vec::new();
        if self.shifted() {
            v.push(code::LEFTSHIFT);
        }
        if self.ctrl {
            v.push(code::LEFTCTRL);
        }
        if self.alt {
            v.push(code::LEFTALT);
        }
        if self.altgr {
            v.push(code::RIGHTALT);
        }
        assert(v@ =~= held_codes(*self));
        v
    }

    /// Clear the one-shot latches after a normal key emission. A *Latched*
    /// Shift drops to Off; *Locked* (Caps) survives. Ctrl/Alt/AltGr are
    /// one-shot.
    pub fn consume_after_key(&mut self)
        ensures
            *final(self) == consumed(*old(self)),
    {
        if self.shift == ShiftState::Latched {
            self.shift = ShiftState::Off;
        }
        self.ctrl = false;
        self.alt = false;
        self.altgr = false;
    }
}

// ---------------------------------------------------------------------------
// Placement
// ---------------------------------------------------------------------------

#[derive(Debug, Clone, Copy, PartialEq, Eq, Structural)]
pub enum Edge {
    Bottom,
    Top,
}

/// Where the panel sits. `Docked(Bottom)` is the default; a title-bar drag
/// flips it to `Floating`.
#[derive(Debug, Clone, Copy, PartialEq, Eq, Structural)]
pub enum Placement {
    Docked(Edge),
    Floating { x: i64, y: i64 },
}

impl Default for Placement {
    fn default() -> (r: Placement)
        ensures
            r == Placement::Docked(Edge::Bottom),
    {
        Placement::Docked(Edge::Bottom)
    }
}

// ---------------------------------------------------------------------------
// Geometry
// ---------------------------------------------------------------------------

/// A laid-out key with its rect, ready to render and hit-test.
#[derive(Debug, Clone, Copy, PartialEq, Eq, Structural)]
pub struct KeyRect {
    pub x: i64,
    pub y: i64,
    pub w: i64,
    pub h: i64,
    pub row: usize,
    pub col: usize,
}

impl KeyRect {
    pub open spec fn holds(self, px: int, py: int) -> bool {
        self.x <= px < self.x + self.w && self.y <= py < self.y + self.h
    }

    pub fn contains(&self, px: i64, py: i64) -> (r: bool)
        ensures
            r == self.holds(px as int, py as int),
    {
        px >= self.x && (px as i128) < self.x as i128 + self.w as i128 && py >= self.y && (py
            as i128) < self.y as i128 + self.h as i128
    }
}

/// The panel that a page is laid into: its rect, the height of the title strip
/// at its top, and the gap between keys.
pub struct Board {
    pub x: int,
    pub y: int,
    pub w: int,
    pub h: int,
    pub title_h: int,
    pub gap: int,
}

/// The width of the first `n` keys of a row, in hundredths of a cell.
pub open spec fn units(row: Seq<KeyCapView>, n: int) -> int
    decreases n,
{
    if n <= 0 {
        0
    } else {
        units(row, n - 1) + row[n - 1].width
    }
}

/// What a row has for its keys once the gaps are taken off.
pub open spec fn content_w(row: Seq<KeyCapView>, b: Board) -> int {
    let c = b.w - b.gap * (row.len() + 1);
    if c > 0 {
        c
    } else {
        0
    }
}

/// The width of a key: its share of the row.
pub open spec fn key_w(row: Seq<KeyCapView>, c: int, b: Board) -> int {
    content_w(row, b) * row[c].width / units(row, row.len() as int)
}

/// The left edge of the key at column `c`: behind the keys before it, with a gap
/// before each.
pub open spec fn key_x(row: Seq<KeyCapView>, c: int, b: Board) -> int
    decreases c,
{
    if c <= 0 {
        b.x + b.gap
    } else {
        key_x(row, c - 1, b) + key_w(row, c - 1, b) + b.gap
    }
}

pub open spec fn at_least_one(n: int) -> int {
    if n > 1 {
        n
    } else {
        1
    }
}

/// The height of every row.
pub open spec fn row_h(rows: int, b: Board) -> int {
    let avail = if b.h - b.title_h > 0 {
        b.h - b.title_h
    } else {
        0
    };
    (avail - b.gap * (at_least_one(rows) + 1)) / at_least_one(rows)
}

/// The top edge of row `r`.
pub open spec fn row_y(rows: int, r: int, b: Board) -> int {
    b.y + b.title_h + b.gap + r * (row_h(rows, b) + b.gap)
}

pub open spec fn key_rect(rows: Seq<Seq<KeyCapView>>, r: int, c: int, b: Board) -> KeyRect {
    KeyRect {
        x: key_x(rows[r], c, b) as i64,
        y: row_y(rows.len() as int, r, b) as i64,
        w: key_w(rows[r], c, b) as i64,
        h: row_h(rows.len() as int, b) as i64,
        row: r as usize,
        col: c as usize,
    }
}

/// The first `n` keys of row `r`.
pub open spec fn row_rects(rows: Seq<Seq<KeyCapView>>, r: int, n: int, b: Board) -> Seq<KeyRect>
    decreases n,
{
    if n <= 0 {
        seq![]
    } else {
        row_rects(rows, r, n - 1, b).push(key_rect(rows, r, n - 1, b))
    }
}

/// The keys of the first `n` rows, row by row.
pub open spec fn page_rects(rows: Seq<Seq<KeyCapView>>, n: int, b: Board) -> Seq<KeyRect>
    decreases n,
{
    if n <= 0 {
        seq![]
    } else {
        page_rects(rows, n - 1, b) + row_rects(rows, n - 1, rows[n - 1].len() as int, b)
    }
}

/// A page small enough for its geometry to be computed: so many rows, so many
/// keys in a row.
pub const PAGE_LIMIT: usize = 0x10000;

/// Whether rows and columns are few enough, and keys have a width.
pub open spec fn modest(rows: Seq<Seq<KeyCapView>>) -> bool {
    &&& rows.len() <= PAGE_LIMIT
    &&& forall|r: int| 0 <= r < rows.len() ==> modest_row(#[trigger] rows[r])
}

pub open spec fn modest_row(row: Seq<KeyCapView>) -> bool {
    &&& row.len() <= PAGE_LIMIT
    &&& forall|c: int| 0 <= c < row.len() ==> 0 < (#[trigger] row[c]).width <= u32::MAX
}

pub open spec fn board_ok(b: Board) -> bool {
    &&& -8 * COORD_LIMIT <= b.x <= 8 * COORD_LIMIT
    &&& -8 * COORD_LIMIT <= b.y <= 8 * COORD_LIMIT
    &&& -COORD_LIMIT <= b.w <= COORD_LIMIT
    &&& -COORD_LIMIT <= b.h <= COORD_LIMIT
    &&& -COORD_LIMIT <= b.title_h <= COORD_LIMIT
    &&& -COORD_LIMIT <= b.gap <= COORD_LIMIT
}

proof fn lemma_units(row: Seq<KeyCapView>, m: int, n: int)
    requires
        modest_row(row),
        0 <= m <= n <= row.len(),
    ensures
        0 <= units(row, m) <= units(row, n) <= n * u32::MAX,
        m < n ==> units(row, m) < units(row, n),
    decreases n,
{
    if n > 0 {
        if m < n {
            lemma_units(row, m, n - 1);
        } else {
            lemma_units(row, n - 1, n - 1);
        }
        assert(row[n - 1].width > 0);
    }
    assert(n * u32::MAX >= 0) by (nonlinear_arith)
        requires
            n >= 0,
    ;
}

/// The keys before column `c` take no more than their share of the row.
proof fn lemma_key_x(row: Seq<KeyCapView>, c: int, b: Board)
    requires
        modest_row(row),
        0 <= c <= row.len(),
    ensures
        key_x(row, c, b) >= b.x + b.gap + c * b.gap,
        (key_x(row, c, b) - b.x - b.gap - c * b.gap) * units(row, row.len() as int) <= content_w(
            row,
            b,
        ) * units(row, c),
    decreases c,
{
    let u = units(row, row.len() as int);
    let cw = content_w(row, b);
    if c > 0 {
        lemma_key_x(row, c - 1, b);
        lemma_units(row, c - 1, row.len() as int);
        lemma_units(row, 0, row.len() as int);
        let w = row[c - 1].width;
        let k = cw * w / u;
        assert(0 <= k && k * u <= cw * w) by (nonlinear_arith)
            requires
                k == cw * w / u,
                u > 0,
                cw >= 0,
                w > 0,
        ;
        let before = key_x(row, c - 1, b) - b.x - b.gap - (c - 1) * b.gap;
        assert(c * b.gap == (c - 1) * b.gap + b.gap) by (nonlinear_arith);
        let now = key_x(row, c, b) - b.x - b.gap - c * b.gap;
        assert(now == before + k);
        assert(now * u <= cw * units(row, c)) by (nonlinear_arith)
            requires
                now == before + k,
                before * u <= cw * units(row, c - 1),
                k * u <= cw * w,
                units(row, c) == units(row, c - 1) + w,
        ;
    } else {
        assert(c * b.gap == 0) by (nonlinear_arith)
            requires
                c == 0,
        ;
        assert(cw * units(row, 0) == 0) by (nonlinear_arith)
            requires
                units(row, 0) == 0,
        ;
        assert((key_x(row, c, b) - b.x - b.gap - c * b.gap) * u == 0) by (nonlinear_arith)
            requires
                key_x(row, c, b) - b.x - b.gap - c * b.gap == 0,
        ;
    }
}

/// A key starts behind the left edge and ends before the right edge of its row.
proof fn lemma_key_span(row: Seq<KeyCapView>, c: int, b: Board)
    requires
        modest_row(row),
        0 <= c < row.len(),
    ensures
        0 <= key_w(row, c, b) <= content_w(row, b),
        b.x + b.gap + c * b.gap <= key_x(row, c, b),
        b.gap >= 0 ==> b.x + b.gap <= key_x(row, c, b),
        key_x(row, c, b) + key_w(row, c, b) <= b.x + b.gap + content_w(row, b) + c * b.gap,
{
    let u = units(row, row.len() as int);
    let cw = content_w(row, b);
    lemma_key_x(row, c, b);
    lemma_key_x(row, c + 1, b);
    lemma_units(row, c, row.len() as int);
    lemma_units(row, c + 1, row.len() as int);
    let w = row[c].width;
    let k = key_w(row, c, b);
    assert(w <= u) by {
        lemma_units(row, 0, c);
    }
    assert(0 <= k <= cw) by (nonlinear_arith)
        requires
            k == cw * w / u,
            u > 0,
            cw >= 0,
            0 < w <= u,
    ;
    assert(b.gap >= 0 ==> c * b.gap >= 0) by (nonlinear_arith)
        requires
            c >= 0,
    ;
    let sum = key_x(row, c + 1, b) - b.x - b.gap - (c + 1) * b.gap;
    assert((c + 1) * b.gap == c * b.gap + b.gap) by (nonlinear_arith);
    assert(sum <= cw) by (nonlinear_arith)
        requires
            sum * u <= cw * units(row, c + 1),
            units(row, c + 1) <= u,
            u > 0,
            cw >= 0,
    ;
}

/// Division that rounds down, whatever the sign.
pub(crate) fn floor_div(n: i64, d: i64) -> (r: i64)
    requires
        d > 0,
        n > i64::MIN + d,
    ensures
        r == n as int / d as int,
{
    if n >= 0 {
        n / d
    } else {
        let m: i64 = -(n + 1);
        let q: i64 = m / d;
        assert(-q - 1 == n as int / d as int) by (nonlinear_arith)
            requires
                d > 0,
                m == -(n + 1),
                m >= 0,
                q == m as int / d as int,
        ;
        -q - 1
    }
}

proof fn lemma_row_h(rows: int, b: Board)
    requires
        board_ok(b),
        0 <= rows <= PAGE_LIMIT,
    ensures
        -2 * COORD_LIMIT <= row_h(rows, b) <= 4 * COORD_LIMIT,
        -COORD_LIMIT * (PAGE_LIMIT + 1) <= (if b.h - b.title_h > 0 {
            b.h - b.title_h
        } else {
            0
        }) - b.gap * (at_least_one(rows) + 1) <= COORD_LIMIT * (PAGE_LIMIT + 3),
        row_h(rows, b) * at_least_one(rows) <= (if b.h - b.title_h > 0 {
            b.h - b.title_h
        } else {
            0
        }) - b.gap * (at_least_one(rows) + 1),
{
    let n = at_least_one(rows);
    let avail = if b.h - b.title_h > 0 {
        b.h - b.title_h
    } else {
        0
    };
    let top = avail - b.gap * (n + 1);
    lemma_gaps(b.gap, n);
    let h = row_h(rows, b);
    assert(h * n <= top && top < h * n + n) by (nonlinear_arith)
        requires
            h == top / n,
            n >= 1,
    ;
    assert(-(COORD_LIMIT * (n + 1)) <= b.gap * (n + 1) <= COORD_LIMIT * (n + 1))
        by (nonlinear_arith)
        requires
            -COORD_LIMIT <= b.gap <= COORD_LIMIT,
            n >= 1,
    ;
    assert(h >= -2 * COORD_LIMIT) by (nonlinear_arith)
        requires
            h == top / n,
            n >= 1,
            top >= -(COORD_LIMIT * (n + 1)),
            COORD_LIMIT >= 1,
    ;
    assert(h <= 4 * COORD_LIMIT) by (nonlinear_arith)
        requires
            h == top / n,
            n >= 1,
            top <= 2 * COORD_LIMIT + COORD_LIMIT * (n + 1),
            COORD_LIMIT >= 1,
    ;
}

/// The gaps beside and between `n` keys or rows.
proof fn lemma_gaps(gap: int, n: int)
    requires
        -COORD_LIMIT <= gap <= COORD_LIMIT,
        0 <= n <= PAGE_LIMIT,
    ensures
        -COORD_LIMIT * (PAGE_LIMIT + 1) <= gap * (n + 1) <= COORD_LIMIT * (PAGE_LIMIT + 1),
        -COORD_LIMIT * PAGE_LIMIT <= n * gap <= COORD_LIMIT * PAGE_LIMIT,
{
    assert(-COORD_LIMIT * (PAGE_LIMIT + 1) <= gap * (n + 1) <= COORD_LIMIT * (PAGE_LIMIT + 1))
        by (nonlinear_arith)
        requires
            -COORD_LIMIT <= gap <= COORD_LIMIT,
            0 <= n <= PAGE_LIMIT,
    ;
    assert(-COORD_LIMIT * PAGE_LIMIT <= n * gap <= COORD_LIMIT * PAGE_LIMIT) by (nonlinear_arith)
        requires
            -COORD_LIMIT <= gap <= COORD_LIMIT,
            0 <= n <= PAGE_LIMIT,
    ;
}

/// Lay a page's rows into rects inside `panel` (x,y,w,h), leaving `title_h` at
/// the top for the drag handle and `gap` between keys.
pub fn layout_rects(page: &Page, panel: (i64, i64, i64, i64), title_h: i64, gap: i64) -> (r: Vec<
    KeyRect,
>)
    requires
        modest(page@.rows),
        board_ok(board(panel, title_h, gap)),
    ensures
        r@ == page_rects(page@.rows, page@.rows.len() as int, board(panel, title_h, gap)),
{
    let (px, py, pw, ph) = panel;
    let ghost b = board(panel, title_h, gap);
    let ghost rows = page@.rows;
    assert(rows.len() == page.rows.len());
    let n: i64 = if page.rows.len() > 1 {
        page.rows.len() as i64
    } else {
        1
    };
    let avail: i64 = if ph - title_h > 0 {
        ph - title_h
    } else {
        0
    };
    proof {
        lemma_row_h(rows.len() as int, b);
        lemma_gaps(b.gap, n as int);
    }
    let h: i64 = floor_div(avail - gap * (n + 1), n);
    let mut out: Vec<KeyRect> = Vec::new();
    let mut ri: usize = 0;
    assert(out@ =~= seq![]);
    while ri < page.rows.len()
        invariant
            ri <= page.rows.len(),
            rows == page@.rows,
            rows.len() == page.rows.len(),
            modest(rows),
            b == board(panel, title_h, gap),
            board_ok(b),
            px == b.x,
            py == b.y,
            pw == b.w,
            title_h == b.title_h,
            gap == b.gap,
            h == row_h(rows.len() as int, b),
            -2 * COORD_LIMIT <= h <= 4 * COORD_LIMIT,
            out@ == page_rects(rows, ri as int, b),
        decreases page.rows.len() - ri,
    {
        let row: &Vec<KeyCap> = &page.rows[ri];
        let ghost line = rows[ri as int];
        assert(line == caps(row@));
        assert(line.len() == row.len());
        assert(modest_row(line));
        proof {
            assert(-3 * COORD_LIMIT * PAGE_LIMIT <= ri * (h + gap) <= 5 * COORD_LIMIT * PAGE_LIMIT)
                by (nonlinear_arith)
                requires
                    0 <= ri <= PAGE_LIMIT,
                    -2 * COORD_LIMIT <= h <= 4 * COORD_LIMIT,
                    -COORD_LIMIT <= gap <= COORD_LIMIT,
            ;
        }
        let y: i64 = py + title_h + gap + ri as i64 * (h + gap);
        let mut total: i64 = 0;
        let mut k: usize = 0;
        while k < row.len()
            invariant
                k <= row.len(),
                line == caps(row@),
                line.len() == row.len(),
                modest_row(line),
                total == units(line, k as int),
                0 <= total <= k * u32::MAX,
            decreases row.len() - k,
        {
            assert(line[k as int].width == row@[k as int].width);
            total += row[k].width as i64;
            k += 1;
        }
        proof {
            lemma_gaps(b.gap, row.len() as int);
        }
        let spare: i64 = pw - gap * (row.len() as i64 + 1);
        let content: i64 = if spare > 0 {
            spare
        } else {
            0
        };
        assert(content == content_w(line, b));
        let mut x: i64 = px + gap;
        let mut ci: usize = 0;
        let ghost done = out@;
        assert(done + row_rects(rows, ri as int, 0, b) =~= done);
        while ci < row.len()
            invariant
                ci <= row.len(),
                rows[ri as int] == line,
                line == caps(row@),
                line.len() == row.len(),
                modest_row(line),
                board_ok(b),
                gap == b.gap,
                total == units(line, line.len() as int),
                content == content_w(line, b),
                0 <= content <= COORD_LIMIT * (PAGE_LIMIT + 2),
                x == key_x(line, ci as int, b),
                y == row_y(rows.len() as int, ri as int, b),
                h == row_h(rows.len() as int, b),
                out@ == done + row_rects(rows, ri as int, ci as int, b),
            decreases row.len() - ci,
        {
            assert(line[ci as int].width == row@[ci as int].width);
            proof {
                lemma_key_span(line, ci as int, b);
                lemma_units(line, 0, line.len() as int);
                lemma_gaps(b.gap, ci as int);
                assert(0 <= content * row@[ci as int].width <= COORD_LIMIT * (PAGE_LIMIT + 2)
                    * u32::MAX) by (nonlinear_arith)
                    requires
                        0 <= content <= COORD_LIMIT * (PAGE_LIMIT + 2),
                        0 <= row@[ci as int].width <= u32::MAX,
                ;
            }
            let w: i64 = (content as i128 * row[ci].width as i128 / total as i128) as i64;
            assert(w == key_w(line, ci as int, b));
            out.push(KeyRect { x, y, w, h, row: ri, col: ci });
            assert(out@ =~= done + row_rects(rows, ri as int, ci + 1, b));
            x = x + w + gap;
            ci += 1;
        }
        ri += 1;
    }
    out
}

pub open spec fn board(panel: (i64, i64, i64, i64), title_h: i64, gap: i64) -> Board {
    Board {
        x: panel.0 as int,
        y: panel.1 as int,
        w: panel.2 as int,
        h: panel.3 as int,
        title_h: title_h as int,
        gap: gap as int,
    }
}

/// The index of the first key under a point, from index `i` on; the length
/// where there is none.
pub open spec fn key_under(rects: Seq<KeyRect>, px: int, py: int, i: int) -> int
    decreases rects.len() - i,
{
    if i < 0 || i >= rects.len() {
        rects.len() as int
    } else if rects[i].holds(px, py) {
        i
    } else {
        key_under(rects, px, py, i + 1)
    }
}

/// The first key under a point.
pub fn find_key(rects: &Vec<KeyRect>, px: i64, py: i64) -> (r: Option<KeyRect>)
    ensures
        ({
            let i = key_under(rects@, px as int, py as int, 0);
            r == (if i < rects@.len() {
                Some(rects@[i])
            } else {
                None
            })
        }),
{
    let mut i: usize = 0;
    while i < rects.len()
        invariant
            i <= rects.len(),
            key_under(rects@, px as int, py as int, 0) == key_under(
                rects@,
                px as int,
                py as int,
                i as int,
            ),
        decreases rects.len() - i,
    {
        if rects[i].contains(px, py) {
            return Some(rects[i]);
        }
        i += 1;
    }
    None
}

proof fn lemma_row_rects(rows: Seq<Seq<KeyCapView>>, r: int, n: int, b: Board, i: int)
    requires
        0 <= i < n,
    ensures
        row_rects(rows, r, n, b).len() == n,
        row_rects(rows, r, n, b)[i] == key_rect(rows, r, i, b),
    decreases n,
{
    if n > 1 {
        if i < n - 1 {
            lemma_row_rects(rows, r, n - 1, b, i);
        } else {
            lemma_row_rects(rows, r, n - 1, b, 0);
        }
    } else {
        assert(row_rects(rows, r, 0, b).len() == 0);
    }
}

proof fn lemma_row_rects_len(rows: Seq<Seq<KeyCapView>>, r: int, n: int, b: Board)
    requires
        0 <= n,
    ensures
        row_rects(rows, r, n, b).len() == n,
    decreases n,
{
    if n > 0 {
        lemma_row_rects_len(rows, r, n - 1, b);
    }
}

/// Which key a laid-out rect belongs to.
pub proof fn lemma_page_rect(rows: Seq<Seq<KeyCapView>>, n: int, b: Board, i: int) -> (rc: (
    int,
    int,
))
    requires
        0 <= n <= rows.len(),
        0 <= i < page_rects(rows, n, b).len(),
    ensures
        0 <= rc.0 < n,
        0 <= rc.1 < rows[rc.0].len(),
        page_rects(rows, n, b)[i] == key_rect(rows, rc.0, rc.1, b),
    decreases n,
{
    let before = page_rects(rows, n - 1, b);
    let last = row_rects(rows, n - 1, rows[n - 1].len() as int, b);
    lemma_row_rects_len(rows, n - 1, rows[n - 1].len() as int, b);
    if i < before.len() {
        lemma_page_rect(rows, n - 1, b, i)
    } else {
        lemma_row_rects(rows, n - 1, rows[n - 1].len() as int, b, i - before.len());
        (n - 1, i - before.len())
    }
}

/// A panel with room for its keys: wide enough for the gaps of every row and
/// high enough for the title strip and the gaps between rows, none of which is
/// negative.
pub open spec fn roomy(rows: Seq<Seq<KeyCapView>>, b: Board) -> bool {
    &&& b.gap >= 0
    &&& b.h - b.title_h >= b.gap * (at_least_one(rows.len() as int) + 1)
    &&& forall|r: int|
        0 <= r < rows.len() ==> b.w >= b.gap * ((#[trigger] rows[r]).len() + 1)
}

/// Every key lies inside the panel, below the title strip, at least a gap away
/// from each edge.
pub proof fn law_keys_inside_panel(rows: Seq<Seq<KeyCapView>>, b: Board, r: int, c: int)
    requires
        modest(rows),
        board_ok(b),
        roomy(rows, b),
        0 <= r < rows.len(),
        0 <= c < rows[r].len(),
    ensures
        b.x + b.gap <= key_x(rows[r], c, b),
        key_x(rows[r], c, b) + key_w(rows[r], c, b) <= b.x + b.w - b.gap,
        b.y + b.title_h + b.gap <= row_y(rows.len() as int, r, b),
        row_y(rows.len() as int, r, b) + row_h(rows.len() as int, b) <= b.y + b.h - b.gap,
        key_w(rows[r], c, b) >= 0,
        row_h(rows.len() as int, b) >= 0,
{
    let row = rows[r];
    assert(modest_row(row));
    lemma_key_span(row, c, b);
    let len = row.len() as int;
    assert(b.gap * (len + 1) >= 2 * b.gap + c * b.gap) by (nonlinear_arith)
        requires
            b.gap >= 0,
            c <= len - 1,
    ;
    assert(content_w(row, b) <= b.w - b.gap * (len + 1));
    lemma_row_h(rows.len() as int, b);
    let n = rows.len() as int;
    let h = row_h(n, b);
    let top = b.h - b.title_h - b.gap * (n + 1);
    assert(h >= 0) by (nonlinear_arith)
        requires
            h == top / n,
            n >= 1,
            top >= 0,
    ;
    assert(0 <= r * (h + b.gap)) by (nonlinear_arith)
        requires
            r >= 0,
            h >= 0,
            b.gap >= 0,
    ;
    assert(r * (h + b.gap) + h + b.gap <= n * h + n * b.gap) by (nonlinear_arith)
        requires
            r <= n - 1,
            h >= 0,
            b.gap >= 0,
    ;
    assert(b.gap * (n + 1) == n * b.gap + b.gap) by (nonlinear_arith);
    assert(n * h == h * n) by (nonlinear_arith);
    assert(h * n <= top);
}

proof fn lemma_key_x_step(row: Seq<KeyCapView>, c: int, d: int, b: Board)
    requires
        modest_row(row),
        b.gap >= 0,
        0 <= c < d <= row.len(),
    ensures
        key_x(row, c, b) + key_w(row, c, b) + b.gap <= key_x(row, d, b),
    decreases d,
{
    if c < d - 1 {
        lemma_key_x_step(row, c, d - 1, b);
        lemma_key_span(row, d - 1, b);
    }
}

/// Two keys never overlap: those in one row stand side by side, those in two
/// rows one above the other, with a gap between them.
pub proof fn law_keys_disjoint(
    rows: Seq<Seq<KeyCapView>>,
    b: Board,
    r: int,
    c: int,
    s: int,
    d: int,
)
    requires
        modest(rows),
        board_ok(b),
        roomy(rows, b),
        0 <= r < rows.len(),
        0 <= c < rows[r].len(),
        0 <= s < rows.len(),
        0 <= d < rows[s].len(),
        r < s || (r == s && c < d),
    ensures
        r == s ==> key_x(rows[r], c, b) + key_w(rows[r], c, b) + b.gap <= key_x(rows[r], d, b),
        r < s ==> row_y(rows.len() as int, r, b) + row_h(rows.len() as int, b) + b.gap <= row_y(
            rows.len() as int,
            s,
            b,
        ),
{
    assert(modest_row(rows[r]));
    if r == s {
        lemma_key_x_step(rows[r], c, d, b);
    } else {
        law_keys_inside_panel(rows, b, r, c);
        let h = row_h(rows.len() as int, b);
        assert(r * (h + b.gap) + h + b.gap <= s * (h + b.gap)) by (nonlinear_arith)
            requires
                r < s,
                h >= 0,
                b.gap >= 0,
        ;
    }
}

proof fn lemma_rect_index(rows: Seq<Seq<KeyCapView>>, n: int, b: Board, r: int, c: int) -> (i: int)
    requires
        0 <= r < n <= rows.len(),
        0 <= c < rows[r].len(),
    ensures
        0 <= i < page_rects(rows, n, b).len(),
        page_rects(rows, n, b)[i] == key_rect(rows, r, c, b),
    decreases n,
{
    let before = page_rects(rows, n - 1, b);
    let last = row_rects(rows, n - 1, rows[n - 1].len() as int, b);
    if r < n - 1 {
        let i = lemma_rect_index(rows, n - 1, b, r, c);
        assert(page_rects(rows, n, b)[i] == before[i]);
        i
    } else {
        lemma_row_rects(rows, r, rows[r].len() as int, b, c);
        assert(page_rects(rows, n, b)[before.len() + c] == last[c]);
        before.len() + c
    }
}

/// The first key under a point is under it, and there is one if any key is.
pub proof fn lemma_key_found(rects: Seq<KeyRect>, px: int, py: int, i: int)
    requires
        0 <= i <= rects.len(),
    ensures
        i <= key_under(rects, px, py, i) <= rects.len(),
        key_under(rects, px, py, i) < rects.len() ==> rects[key_under(rects, px, py, i)].holds(
            px,
            py,
        ),
        forall|k: int|
            i <= k < rects.len() && (#[trigger] rects[k]).holds(px, py) ==> key_under(
                rects,
                px,
                py,
                i,
            ) <= k,
    decreases rects.len() - i,
{
    if i < rects.len() && !rects[i].holds(px, py) {
        lemma_key_found(rects, px, py, i + 1);
    }
}

/// Whether a point lies on the key at row `r` and column `c`.
pub open spec fn on_key(
    rows: Seq<Seq<KeyCapView>>,
    b: Board,
    r: int,
    c: int,
    px: int,
    py: int,
) -> bool {
    &&& key_x(rows[r], c, b) <= px < key_x(rows[r], c, b) + key_w(rows[r], c, b)
    &&& row_y(rows.len() as int, r, b) <= py < row_y(rows.len() as int, r, b) + row_h(
        rows.len() as int,
        b,
    )
}

proof fn lemma_holds_is_on_key(
    rows: Seq<Seq<KeyCapView>>,
    b: Board,
    r: int,
    c: int,
    px: int,
    py: int,
)
    requires
        modest(rows),
        board_ok(b),
        roomy(rows, b),
        0 <= r < rows.len(),
        0 <= c < rows[r].len(),
    ensures
        key_rect(rows, r, c, b).holds(px, py) == on_key(rows, b, r, c, px, py),
{
    law_keys_inside_panel(rows, b, r, c);
}

/// A touch anywhere on a key finds that key and no other.
pub proof fn law_touch_finds_key(
    rows: Seq<Seq<KeyCapView>>,
    b: Board,
    r: int,
    c: int,
    px: int,
    py: int,
)
    requires
        modest(rows),
        board_ok(b),
        roomy(rows, b),
        0 <= r < rows.len(),
        0 <= c < rows[r].len(),
        on_key(rows, b, r, c, px, py),
    ensures
        ({
            let rects = page_rects(rows, rows.len() as int, b);
            let i = key_under(rects, px, py, 0);
            &&& i < rects.len()
            &&& rects[i].row == r
            &&& rects[i].col == c
        }),
{
    let n = rows.len() as int;
    let rects = page_rects(rows, n, b);
    let k = lemma_rect_index(rows, n, b, r, c);
    lemma_holds_is_on_key(rows, b, r, c, px, py);
    lemma_key_found(rects, px, py, 0);
    let i = key_under(rects, px, py, 0);
    let (s, d) = lemma_page_rect(rows, n, b, i);
    lemma_holds_is_on_key(rows, b, s, d, px, py);
    assert(modest_row(rows[s]));
    if s < r || (s == r && d < c) {
        law_keys_disjoint(rows, b, s, d, r, c);
    } else if r < s || c < d {
        law_keys_disjoint(rows, b, r, c, s, d);
    }
}

// ---------------------------------------------------------------------------
// Press resolution
// ---------------------------------------------------------------------------

/// Resolution of a committed key tap.
#[derive(Debug, Clone, PartialEq, Eq)]
pub enum KeyAction {
    /// Inject `code` through the seat keyboard with `mods` held (evdev codes).
    Chord { mods: Vec<u32>, code: u32 },
    /// Commit a literal string via the input-method (emoji / accented alt).
    Commit(String),
    /// A compositor-level action.
    Special(Action),
    /// Modifier state changed; nothing to emit, just redraw.
    Redraw,
}

pub enum KeyActionView {
    Chord { mods: Seq<u32>, code: u32 },
    Commit(Seq<char>),
    Special(Action),
    Redraw,
}

impl View for KeyAction {
    type V = KeyActionView;

    open spec fn view(&self) -> KeyActionView {
        match *self {
            KeyAction::Chord { mods, code } => KeyActionView::Chord { mods: mods@, code },
            KeyAction::Commit(s) => KeyActionView::Commit(s@),
            KeyAction::Special(a) => KeyActionView::Special(a),
            KeyAction::Redraw => KeyActionView::Redraw,
        }
    }
}

/// The live page + modifiers + placement: the keyboard's typing brain.
pub struct Keyboard {
    page: Page,
    /// Which alpha layout to return to from symbols/emoji/numeric.
    home_alpha: LayoutId,
    pub mods: Mods,
    pub placement: Placement,
    split: bool,
    /// The xkb `(layout, variant)` the seat keyboard should adopt — set when
    /// the page changes (and at construction), drained by
    /// [`take_pending_xkb`](Self::take_pending_xkb).
    pending_xkb: Option<(&'static str, &'static str)>,
}

pub struct KeyboardView {
    pub page: PageView,
    pub home_alpha: LayoutId,
    pub mods: Mods,
    pub placement: Placement,
    pub split: bool,
    pub pending_xkb: Option<(Seq<char>, Seq<char>)>,
}

impl View for Keyboard {
    type V = KeyboardView;

    closed spec fn view(&self) -> KeyboardView {
        KeyboardView {
            page: self.page@,
            home_alpha: self.home_alpha,
            mods: self.mods,
            placement: self.placement,
            split: self.split,
            pending_xkb: xkb_view(self.pending_xkb),
        }
    }
}

impl KeyboardView {
    /// The page shows what its id says, and the language is an alphabetic
    /// layout.
    pub open spec fn wf(self) -> bool {
        self.page == page_spec(self.page.id) && alpha(self.home_alpha)
    }

    pub open spec fn has_key(self, row: int, col: int) -> bool {
        0 <= row < self.page.rows.len() && 0 <= col < self.page.rows[row].len()
    }

    /// The keyboard once it shows the page `id`.
    pub open spec fn at_page(self, id: LayoutId) -> KeyboardView {
        KeyboardView {
            page: page_spec(id),
            home_alpha: if alpha(id) {
                id
            } else {
                self.home_alpha
            },
            pending_xkb: match xkb_of(id) {
                Some(x) => Some(x),
                None => self.pending_xkb,
            },
            ..self
        }
    }

    /// The language that follows the current one.
    pub open spec fn next_alpha(self) -> LayoutId {
        if self.home_alpha == LayoutId::Turkish {
            LayoutId::English
        } else {
            LayoutId::Turkish
        }
    }

    /// The keyboard once an action was taken.
    pub open spec fn acted(self, a: Action) -> KeyboardView {
        match a {
            Action::CycleAlpha => self.at_page(self.next_alpha()),
            Action::Language => self.at_page(self.next_alpha()),
            Action::Letters => self.at_page(self.home_alpha),
            Action::Goto(id) => self.at_page(id),
            Action::ToggleSplit => KeyboardView { split: !self.split, ..self },
            Action::DockDefault => KeyboardView { placement: Placement::Docked(Edge::Bottom), ..self },
            _ => self,
        }
    }

    /// The keyboard once the key at (`row`, `col`) was tapped.
    pub open spec fn pressed(self, row: int, col: int, now_ms: u64) -> KeyboardView {
        if !self.has_key(row, col) {
            self
        } else {
            match self.page.rows[row][col].kind {
                KeyKindView::Modifier(m) => KeyboardView {
                    mods: toggled(self.mods, m, now_ms),
                    ..self
                },
                KeyKindView::Unicode(_) => KeyboardView { mods: consumed(self.mods), ..self },
                KeyKindView::Key(_) => KeyboardView { mods: consumed(self.mods), ..self },
                KeyKindView::Action(a) => self.acted(a),
            }
        }
    }

    /// What the tap asks of the compositor.
    pub open spec fn press_result(self, row: int, col: int) -> KeyActionView {
        if !self.has_key(row, col) {
            KeyActionView::Redraw
        } else {
            match self.page.rows[row][col].kind {
                KeyKindView::Modifier(m) => KeyActionView::Redraw,
                KeyKindView::Unicode(s) => KeyActionView::Commit(s),
                KeyKindView::Key(c) => KeyActionView::Chord {
                    mods: held_codes(self.mods),
                    code: c,
                },
                KeyKindView::Action(a) => action_result(a),
            }
        }
    }
}

/// Whether an action is taken by the keyboard itself.
pub open spec fn own_action(a: Action) -> bool {
    match a {
        Action::CycleAlpha => true,
        Action::Language => true,
        Action::Letters => true,
        Action::Goto(_) => true,
        Action::ToggleSplit => true,
        Action::DockDefault => true,
        _ => false,
    }
}

pub open spec fn action_result(a: Action) -> KeyActionView {
    if own_action(a) {
        KeyActionView::Redraw
    } else {
        KeyActionView::Special(a)
    }
}

impl Default for Keyboard {
    fn default() -> (r: Keyboard)
        ensures
            r@.wf(),
            r@.page.id == LayoutId::Turkish,
            r@.home_alpha == LayoutId::Turkish,
            r@.mods == no_mods(),
            r@.placement == Placement::Docked(Edge::Bottom),
            !r@.split,
            r@.pending_xkb == xkb_of(LayoutId::Turkish),
    {
        Keyboard::new(system_default_layout())
    }
}

impl Keyboard {
    pub fn new(alpha_layout: LayoutId) -> (r: Keyboard)
        ensures
            r@.wf(),
            r@.page.id == alpha_layout,
            r@.home_alpha == (if alpha(alpha_layout) {
                alpha_layout
            } else {
                LayoutId::Turkish
            }),
            r@.mods == no_mods(),
            r@.placement == Placement::Docked(Edge::Bottom),
            !r@.split,
            r@.pending_xkb == xkb_of(alpha_layout),
    {
        Keyboard {
            page: page_for(alpha_layout),
            home_alpha: if alpha_layout.is_alpha() {
                alpha_layout
            } else {
                system_default_layout()
            },
            mods: Mods::default(),
            placement: Placement::default(),
            split: false,
            pending_xkb: alpha_layout.xkb(),
        }
    }

    /// Drain the pending xkb `(layout, variant)`, if the page changed since the
    /// last call. The compositor applies it to the seat keyboard.
    pub fn take_pending_xkb(&mut self) -> (r: Option<(&'static str, &'static str)>)
        ensures
            xkb_view(r) == old(self)@.pending_xkb,
            final(self)@ == (KeyboardView { pending_xkb: None, ..old(self)@ }),
    {
        self.pending_xkb.take()
    }

    pub fn page(&self) -> (r: &Page)
        ensures
            r@ == self@.page,
    {
        &self.page
    }

    pub fn layout_id(&self) -> (r: LayoutId)
        ensures
            r == self@.page.id,
    {
        self.page.id
    }

    /// The active *language* (last alphabetic layout) — stays Turkish/English
    /// even while a symbols/numeric/emoji page is showing, so action caps like
    /// Copy/Paste can be localised to it.
    pub fn language(&self) -> (r: LayoutId)
        ensures
            r == self@.home_alpha,
    {
        self.home_alpha
    }

    pub fn split(&self) -> (r: bool)
        ensures
            r == self@.split,
    {
        self.split
    }

    /// The modifiers held.
    pub fn mods(&self) -> (r: Mods)
        ensures
            r == self@.mods,
    {
        self.mods
    }

    /// Where the panel sits.
    pub fn placement(&self) -> (r: Placement)
        ensures
            r == self@.placement,
    {
        self.placement
    }

    /// Puts the panel somewhere else.
    pub fn place(&mut self, placement: Placement)
        ensures
            final(self)@ == (KeyboardView { placement, ..old(self)@ }),
    {
        self.placement = placement;
    }

    /// Switch to a page. Remembers the last alpha page so `CycleAlpha` / the
    /// `ABC` key knows where to go back to. Returns the new xkb layout to push
    /// to the seat (`None` == keep current).
    pub fn goto(&mut self, id: LayoutId) -> (r: Option<(&'static str, &'static str)>)
        ensures
            xkb_view(r) == xkb_of(id),
            final(self)@ == old(self)@.at_page(id),
            old(self)@.wf() ==> final(self)@.wf(),
    {
        if id.is_alpha() {
            self.home_alpha = id;
        }
        self.page = page_for(id);
        // Pages with no xkb counterpart (symbols/emoji/numeric) keep the
        // previous layout — that way returning to letters still types correctly.
        let x: Option<(&'static str, &'static str)> = id.xkb();
        if x.is_some() {
            self.pending_xkb = x;
        }
        x
    }

    /// Go on to the next language.
    pub fn cycle_alpha(&mut self) -> (r: Option<(&'static str, &'static str)>)
        ensures
            xkb_view(r) == xkb_of(old(self)@.next_alpha()),
            final(self)@ == old(self)@.at_page(old(self)@.next_alpha()),
            old(self)@.wf() ==> final(self)@.wf(),
    {
        let next: LayoutId = match self.home_alpha {
            LayoutId::Turkish => LayoutId::English,
            LayoutId::English => LayoutId::Turkish,
            _ => LayoutId::Turkish,
        };
        self.goto(next)
    }

    /// Resolve a tap on the key at (`row`, `col`). Mutates modifier / page
    /// state and returns what the compositor should do. For long-press the
    /// caller uses [`alternates_at`](Self::alternates_at) instead.
    pub fn press(&mut self, row: usize, col: usize, now_ms: u64) -> (r: KeyAction)
        ensures
            r@ == old(self)@.press_result(row as int, col as int),
            final(self)@ == old(self)@.pressed(row as int, col as int, now_ms),
            old(self)@.wf() ==> final(self)@.wf(),
    {
        assert(self@.page.rows.len() == self.page.rows.len());
        if row >= self.page.rows.len() {
            return KeyAction::Redraw;
        }
        assert(self@.page.rows[row as int] == caps(self.page.rows@[row as int]@));
        if col >= self.page.rows[row].len() {
            return KeyAction::Redraw;
        }
        assert(self@.page.rows[row as int][col as int] == self.page.rows@[row as int]@[col as int]@);
        let kind: KeyKind = self.page.rows[row][col].kind;
        match kind {
            KeyKind::Modifier(m) => {
                self.mods.toggle(m, now_ms);
                KeyAction::Redraw
            },
            KeyKind::Unicode(s) => {
                self.mods.consume_after_key();
                KeyAction::Commit(own(s))
            },
            KeyKind::Key(c) => {
                let mods: Vec<u32> = self.mods.chord_codes();
                self.mods.consume_after_key();
                KeyAction::Chord { mods, code: c }
            },
            KeyKind::Action(a) => self.apply_action(a),
        }
    }

    fn apply_action(&mut self, a: Action) -> (r: KeyAction)
        ensures
            r@ == action_result(a),
            final(self)@ == old(self)@.acted(a),
            old(self)@.wf() ==> final(self)@.wf(),
    {
        match a {
            Action::CycleAlpha => {
                self.cycle_alpha();
                KeyAction::Redraw
            },
            Action::Language => {
                self.cycle_alpha();
                KeyAction::Redraw
            },
            Action::Letters => {
                // Back to the language we were using — don't change it.
                let home: LayoutId = self.home_alpha;
                self.goto(home);
                KeyAction::Redraw
            },
            Action::Goto(id) => {
                self.goto(id);
                KeyAction::Redraw
            },
            Action::ToggleSplit => {
                self.split = !self.split;
                KeyAction::Redraw
            },
            Action::DockDefault => {
                self.placement = Placement::default();
                KeyAction::Redraw
            },
            // Copy/Paste/Cut/SelectAll/Hide are compositor-side; bubble up.
            other => KeyAction::Special(other),
        }
    }

    /// Long-press alternates for the key at (`row`,`col`). Empty == no popup.
    pub fn alternates_at(&self, row: usize, col: usize) -> (r: Vec<&'static str>)
        ensures
            strs(r@) == (if self@.has_key(row as int, col as int) {
                self@.page.rows[row as int][col as int].alternates
            } else {
                seq![]
            }),
    {
        let mut r: Vec<&'static str> = Vec::new();
        assert(strs(r@) =~= seq![]);
        assert(self@.page.rows.len() == self.page.rows.len());
        if row >= self.page.rows.len() {
            return r;
        }
        assert(self@.page.rows[row as int] == caps(self.page.rows@[row as int]@));
        if col >= self.page.rows[row].len() {
            return r;
        }
        assert(self@.page.rows[row as int][col as int] == self.page.rows@[row as int]@[col as int]@);
        let alts: &Vec<&'static str> = &self.page.rows[row][col].alternates;
        let mut i: usize = 0;
        while i < alts.len()
            invariant
                i <= alts.len(),
                r@ == alts@.take(i as int),
            decreases alts.len() - i,
        {
            r.push(alts[i]);
            i += 1;
            assert(alts@.take(i as int) =~= alts@.take(i - 1).push(alts@[i - 1]));
        }
        assert(alts@.take(alts@.len() as int) =~= alts@);
        r
    }
}

// ---------------------------------------------------------------------------
// Laws
// ---------------------------------------------------------------------------

/// Shift is one-shot: latched by a tap, gone after one key. Two quick taps lock
/// it; the lock survives keys and ends with the next tap.
pub proof fn law_shift(m: Mods, t: u64, u: u64, v: u64)
    requires
        m.shift == ShiftState::Off,
        t <= u,
    ensures
        ({
            let once = toggled(m, Modifier::Shift, t);
            let twice = toggled(once, Modifier::Shift, u);
            &&& once.shift == ShiftState::Latched
            &&& consumed(once).shift == ShiftState::Off
            &&& u - t <= DOUBLE_TAP_MS ==> {
                &&& twice.shift == ShiftState::Locked
                &&& consumed(twice).shift == ShiftState::Locked
                &&& toggled(twice, Modifier::Shift, v).shift == ShiftState::Off
            }
            &&& u - t > DOUBLE_TAP_MS ==> twice.shift == ShiftState::Off
        }),
{
}

/// The other modifiers are one-shot too: a key uses them up.
pub proof fn law_modifiers_one_shot(m: Mods)
    ensures
        !consumed(m).ctrl && !consumed(m).alt && !consumed(m).altgr,
        consumed(consumed(m)) == consumed(m),
{
}

/// Returning to letters from any page shows the language that was in use, and
/// keeps it.
pub proof fn law_letters_keep_language(k: KeyboardView, id: LayoutId)
    requires
        k.wf(),
        !alpha(id),
    ensures
        k.at_page(id).home_alpha == k.home_alpha,
        k.at_page(id).acted(Action::Letters).page.id == k.home_alpha,
        k.at_page(id).acted(Action::Letters).home_alpha == k.home_alpha,
{
}

/// Turkish and English follow each other.
pub proof fn law_language_round_trip(k: KeyboardView)
    requires
        k.home_alpha == LayoutId::Turkish || k.home_alpha == LayoutId::English,
    ensures
        k.acted(Action::Language).acted(Action::Language).home_alpha == k.home_alpha,
        k.acted(Action::Language).home_alpha != k.home_alpha,
        k.acted(Action::Language).page.id == k.acted(Action::Language).home_alpha,
{
}

/// Every page has rows, no row is empty, and every key has a width.
pub proof fn law_pages_nonempty(id: LayoutId)
    ensures
        page_spec(id).rows.len() > 0,
        forall|r: int| 0 <= r < page_spec(id).rows.len() ==> (#[trigger] page_spec(id).rows[r]).len() > 0,
        modest(page_spec(id).rows),
{
}

/// Shift on its second tap within three tenths of a second locks, on a later one it
/// is taken back.
pub proof fn law_double_tap_time(m: Mods, t: u64, u: u64)
    requires
        m.shift == ShiftState::Off,
        t <= u,
    ensures
        toggled(toggled(m, Modifier::Shift, t), Modifier::Shift, u).shift == (if u - t <= 300 {
            ShiftState::Locked
        } else {
            ShiftState::Off
        }),
{
}

/// A tap on Ctrl, Alt or AltGr changes that modifier and no other, and a second tap
/// takes it back.
pub proof fn law_modifier_taps(m: Mods, which: Modifier, t: u64, u: u64)
    requires
        which != Modifier::Shift,
    ensures
        toggled(toggled(m, which, t), which, u) == m,
        toggled(m, which, t).shift == m.shift,
        (toggled(m, which, t).ctrl != m.ctrl) == (which == Modifier::Ctrl),
        (toggled(m, which, t).alt != m.alt) == (which == Modifier::Alt),
        (toggled(m, which, t).altgr != m.altgr) == (which == Modifier::AltGr),
        toggled(m, Modifier::Shift, t).ctrl == m.ctrl && toggled(m, Modifier::Shift, t).alt == m.alt
            && toggled(m, Modifier::Shift, t).altgr == m.altgr,
{
}

/// A chord holds the evdev code of just those modifiers that are in effect: 42 for
/// Shift, 29 for Ctrl, 56 for Alt, 100 for AltGr, in that order.
pub proof fn law_held_codes(m: Mods)
    ensures
        held_codes(m).contains(42u32) == (m.shift != ShiftState::Off),
        held_codes(m).contains(29u32) == m.ctrl,
        held_codes(m).contains(56u32) == m.alt,
        held_codes(m).contains(100u32) == m.altgr,
        m.shift == ShiftState::Off && !m.ctrl && !m.alt && !m.altgr ==> held_codes(m).len() == 0,
        m.shift != ShiftState::Off && m.ctrl && m.alt && m.altgr ==> held_codes(m) == seq![
            42u32,
            29u32,
            56u32,
            100u32,
        ],
        held_codes(m).len() <= 4,
{
    let h = held_codes(m);
    let a = opt_code(m.shift != ShiftState::Off, 42u32);
    let b = opt_code(m.ctrl, 29u32);
    let c = opt_code(m.alt, 56u32);
    let d = opt_code(m.altgr, 100u32);
    assert(h == a + b + c + d);
    if m.shift != ShiftState::Off {
        assert(h[0] == 42);
    }
    if m.ctrl {
        assert(h[a.len() as int] == 29);
    }
    if m.alt {
        assert(h[(a.len() + b.len()) as int] == 56);
    }
    if m.altgr {
        assert(h[(a.len() + b.len() + c.len()) as int] == 100);
    }
    assert(m.shift != ShiftState::Off && m.ctrl && m.alt && m.altgr ==> h =~= seq![
        42u32,
        29u32,
        56u32,
        100u32,
    ]);
}

/// A key that is drawn under Shift shows its second label, where it has one.
pub proof fn law_shift_labels(c: u32, lower: Seq<char>, upper: Seq<char>, a: Action, width: int)
    ensures
        cap_text(key_cap(c, lower, upper), false) == lower,
        cap_text(key_cap(c, lower, upper), true) == upper,
        cap_text(act_cap(a, lower, width), true) == lower,
        cap_text(act_cap(a, lower, width), false) == lower,
        cap_text(emoji_cap(lower), true) == lower,
{
}

/// The three letter pages are the languages; each other page keeps the language.
pub proof fn law_languages(id: LayoutId)
    ensures
        label_of(LayoutId::English) == "EN"@,
        label_of(LayoutId::Turkish) == "TR"@,
        xkb_of(LayoutId::English) == Some(("us"@, ""@)),
        xkb_of(LayoutId::Turkish) == Some(("tr"@, "f"@)),
        xkb_of(LayoutId::Chinese) == Some(("us"@, ""@)),
        (xkb_of(id) is Some) == alpha(id),
        alpha(id) <==> id != LayoutId::Symbols && id != LayoutId::Numeric && id != LayoutId::Emoji,
{
}

/// The words on the editing keys follow the language: Turkish ones on the Turkish
/// keyboard, English ones on every other; other keys have no words.
pub proof fn law_action_words(a: Action, id: LayoutId)
    ensures
        action_text(Action::Copy, LayoutId::Turkish) == Some("Kopyala"@),
        action_text(Action::Paste, LayoutId::Turkish) == Some("Yapıştır"@),
        action_text(Action::Cut, LayoutId::Turkish) == Some("Kes"@),
        action_text(Action::SelectAll, LayoutId::Turkish) == Some("Tümü"@),
        id != LayoutId::Turkish ==> action_text(Action::Copy, id) == Some("Copy"@) && action_text(
            Action::Paste,
            id,
        ) == Some("Paste"@) && action_text(Action::Cut, id) == Some("Cut"@) && action_text(
            Action::SelectAll,
            id,
        ) == Some("All"@),
        (action_text(a, id) is Some) == (a == Action::Copy || a == Action::Paste || a == Action::Cut
            || a == Action::SelectAll),
{
}

/// A tap that only changes the keyboard is drawn and nothing is handed on; every other
/// action is handed on and leaves the keyboard as it is.
pub proof fn law_own_actions(k: KeyboardView, a: Action)
    ensures
        action_result(a) == KeyActionView::Special(a) ==> k.acted(a) == k,
        action_result(a) == KeyActionView::Special(a) || action_result(a) == KeyActionView::Redraw,
        action_result(Action::Copy) == KeyActionView::Special(Action::Copy),
        action_result(Action::Paste) == KeyActionView::Special(Action::Paste),
        action_result(Action::Cut) == KeyActionView::Special(Action::Cut),
        action_result(Action::SelectAll) == KeyActionView::Special(Action::SelectAll),
        action_result(Action::Language) == KeyActionView::Redraw,
        action_result(Action::ToggleSplit) == KeyActionView::Redraw,
        k.acted(Action::ToggleSplit).acted(Action::ToggleSplit) == k,
        k.acted(Action::ToggleSplit).split != k.split,
        k.acted(Action::ToggleSplit).page == k.page,
        k.acted(Action::DockDefault).placement == Placement::Docked(Edge::Bottom),
        k.acted(Action::DockDefault).page == k.page,
        k.acted(Action::CycleAlpha) == k.acted(Action::Language),
        k.acted(a).mods == k.mods,
{
}

/// Going to a page shows that page; a letter page becomes the language and has its
/// layout pushed, another one changes neither.
pub proof fn law_goto(k: KeyboardView, id: LayoutId)
    ensures
        k.acted(Action::Goto(id)).page.id == id,
        alpha(id) ==> k.acted(Action::Goto(id)).home_alpha == id && k.acted(
            Action::Goto(id),
        ).pending_xkb is Some,
        !alpha(id) ==> k.acted(Action::Goto(id)).home_alpha == k.home_alpha && k.acted(
            Action::Goto(id),
        ).pending_xkb == k.pending_xkb,
        k.acted(Action::Goto(id)).split == k.split,
        k.acted(Action::Goto(id)).placement == k.placement,
{
}

/// A tap beside every key changes nothing.
pub proof fn law_tap_beside(k: KeyboardView, row: int, col: int, now: u64)
    requires
        row < 0 || row >= k.page.rows.len() || col < 0 || col >= k.page.rows[row].len(),
    ensures
        k.pressed(row, col, now) == k,
        k.press_result(row, col) == KeyActionView::Redraw,
{
}

/// Rows are equally high and stand a gap apart, the first one a gap below the title
/// strip; together with their gaps they fill the height but for less than one unit a
/// row.
pub proof fn law_rows_fill_height(rows: int, r: int, b: Board)
    requires
        rows > 0,
        b.h >= b.title_h,
    ensures
        row_y(rows, 0, b) == b.y + b.title_h + b.gap,
        row_y(rows, r + 1, b) - row_y(rows, r, b) == row_h(rows, b) + b.gap,
        0 <= b.y + b.h - row_y(rows, rows, b) < rows,
{
    let h = row_h(rows, b);
    let free = b.h - b.title_h - b.gap * (rows + 1);
    assert(h == free / rows);
    assert(free - rows < rows * h <= free) by (nonlinear_arith)
        requires
            h == free / rows,
            rows > 0,
    ;
    assert(rows * (h + b.gap) == rows * h + b.gap * (rows + 1) - b.gap) by (nonlinear_arith);
    assert((r + 1) * (h + b.gap) == r * (h + b.gap) + (h + b.gap)) by (nonlinear_arith);
    assert(0 * (h + b.gap) == 0);
}

proof fn lemma_key_ends(row: Seq<KeyCapView>, n: int, b: Board)
    requires
        modest_row(row),
        row.len() > 0,
        0 <= n <= row.len(),
    ensures
        units(row, row.len() as int) > 0,
        key_x(row, n, b) - b.x - b.gap * (n + 1) <= content_w(row, b),
        content_w(row, b) * units(row, n) - n * units(row, row.len() as int) <= (key_x(row, n, b)
            - b.x - b.gap * (n + 1)) * units(row, row.len() as int) <= content_w(row, b) * units(
            row,
            n,
        ),
    decreases n,
{
    let total = units(row, row.len() as int);
    let cw = content_w(row, b);
    lemma_units_grow(row, n, row.len() as int);
    lemma_units_grow(row, 0, row.len() as int);
    if n == 0 {
        assert(cw * 0 == 0 && 0 * total == 0);
        assert(b.gap * 1 == b.gap);
    } else {
        lemma_key_ends(row, n - 1, b);
        let w = row[n - 1].width;
        let k = key_w(row, n - 1, b);
        assert(k == cw * w / total);
        assert(cw * w - total < k * total <= cw * w) by (nonlinear_arith)
            requires
                k == (cw * w) / total,
                total > 0,
        ;
        let x0 = key_x(row, n - 1, b) - b.x - b.gap * n;
        let x1 = key_x(row, n, b) - b.x - b.gap * (n + 1);
        assert(b.gap * (n + 1) == b.gap * n + b.gap) by (nonlinear_arith);
        assert(b.gap * ((n - 1) + 1) == b.gap * n);
        assert(x1 == x0 + k);
        assert(x1 * total == x0 * total + k * total) by (nonlinear_arith)
            requires
                x1 == x0 + k,
        ;
        assert(cw * units(row, n) == cw * units(row, n - 1) + cw * w) by (nonlinear_arith)
            requires
                units(row, n) == units(row, n - 1) + w,
        ;
        assert(n * total == (n - 1) * total + total) by (nonlinear_arith);
        let u = units(row, n);
        assert(x1 <= cw) by (nonlinear_arith)
            requires
                x1 * total <= cw * u,
                0 <= u <= total,
                total > 0,
                cw >= 0,
        ;
    }
}

proof fn lemma_units_grow(row: Seq<KeyCapView>, n: int, m: int)
    requires
        modest_row(row),
        0 <= n <= m <= row.len(),
    ensures
        0 <= units(row, n) <= units(row, m),
        n < m ==> units(row, n) < units(row, m),
    decreases m,
{
    if m > 0 {
        assert(row[m - 1].width > 0);
        if n < m {
            lemma_units_grow(row, n, m - 1);
        } else {
            lemma_units_grow(row, n - 1, m - 1);
        }
    }
}

/// The keys of a row fill the panel's width: behind the last one there is a gap and
/// less than one unit a key.
pub proof fn law_keys_fill_width(row: Seq<KeyCapView>, b: Board)
    requires
        modest_row(row),
        row.len() > 0,
        b.w >= b.gap * (row.len() + 1),
    ensures
        key_x(row, 0, b) == b.x + b.gap,
        0 <= b.x + b.w - key_x(row, row.len() as int, b) <= row.len(),
{
    let n = row.len() as int;
    let total = units(row, n);
    let cw = content_w(row, b);
    lemma_key_ends(row, n, b);
    let x = key_x(row, n, b) - b.x - b.gap * (n + 1);
    assert(x >= cw - n) by (nonlinear_arith)
        requires
            cw * total - n * total <= x * total,
            total > 0,
    ;
}

/// Keys of one width are drawn equally wide wherever they stand, and a wider key is
/// drawn no narrower: its share grows with its width.
pub proof fn law_key_shares(row: Seq<KeyCapView>, c: int, d: int, b: Board)
    requires
        modest_row(row),
        0 <= c < row.len(),
        0 <= d < row.len(),
    ensures
        row[c].width == row[d].width ==> key_w(row, c, b) == key_w(row, d, b),
        row[c].width <= row[d].width ==> key_w(row, c, b) <= key_w(row, d, b),
        row[d].width == 2 * row[c].width ==> 2 * key_w(row, c, b) <= key_w(row, d, b) <= 2 * key_w(
            row,
            c,
            b,
        ) + 1,
        c + 1 < row.len() ==> key_x(row, c + 1, b) == key_x(row, c, b) + key_w(row, c, b) + b.gap,
{
    let total = units(row, row.len() as int);
    let cw = content_w(row, b);
    lemma_units_grow(row, 0, row.len() as int);
    let v = row[c].width;
    let w = row[d].width;
    if v <= w {
        assert(cw * v / total <= cw * w / total) by (nonlinear_arith)
            requires
                cw >= 0,
                v <= w,
                total > 0,
        ;
    }
    if w == 2 * v {
        let p = cw * v;
        assert(cw * w == 2 * p) by (nonlinear_arith)
            requires
                w == 2 * v,
                p == cw * v,
        ;
        assert(2 * (p / total) <= (2 * p) / total <= 2 * (p / total) + 1) by (nonlinear_arith)
            requires
                total > 0,
        ;
    }
}

} // verus!
