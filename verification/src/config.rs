//! Persistent compositor configuration.
//!
//! A small JSON file at `$XDG_CONFIG_HOME/bacak/compositor.json` (falling back
//! to `~/.config/bacak/compositor.json`). This module holds the options, their
//! defaults, how one of them is set by name, and how a hand-edited file is put
//! right; reading and writing the file is left to the caller.

use vstd::prelude::*;

use crate::text::{
    chars_of, concat3, has_string, is_str, join_from, join_path, join_upto,
    lemma_split_concat, lemma_split_free, lemma_split_join, lemma_trim, lowercase, opt_str, path_join, push_str, split, split_at_char,
    str_eq, string_of, strings, strs, texts, trim, trimmed, is_whitespace, law_trim_undoes_padding,
    law_white_space,
};

verus! {

/// Which screen edge the dock lives on. `Bottom` is the default; the other
/// edges flip the layout (row ↔ column), the reserved strut side, the
/// reveal-slide direction, and the auto-hide hot-zone.
#[derive(Debug, Clone, Copy, PartialEq, Eq, Structural)]
pub enum DockEdge {
    Bottom,
    Top,
    Left,
    Right,
}

impl Default for DockEdge {
    fn default() -> (r: DockEdge)
        ensures
            r == DockEdge::Bottom,
    {
        DockEdge::Bottom
    }
}

impl DockEdge {
    /// True for `Bottom`/`Top` — the bar runs left-to-right.
    pub fn is_horizontal(self) -> (r: bool)
        ensures
            r == (self == DockEdge::Bottom || self == DockEdge::Top),
    {
        match self {
            DockEdge::Bottom => true,
            DockEdge::Top => true,
            _ => false,
        }
    }
}

// ---------------------------------------------------------------------------
// Numbers
// ---------------------------------------------------------------------------

/// A single-precision number by its IEEE 754 bit pattern: a sign bit, eight
/// bits of exponent and 23 of fraction.
#[derive(Debug, Clone, Copy, PartialEq, Eq, Structural)]
pub struct Number {
    pub bits: u32,
}

/// The bits behind the sign of infinity; a larger magnitude is no number.
pub const INFINITY_BITS: u32 = 0x7f80_0000;

/// The sign bit.
pub const SIGN_BIT: u32 = 0x8000_0000;

/// The bits of one.
pub const ONE_BITS: u32 = 0x3f80_0000;

/// Zero.
pub open spec fn zero() -> Number {
    Number { bits: 0 }
}

/// One.
pub open spec fn one() -> Number {
    Number { bits: ONE_BITS }
}

impl Number {
    /// The bits behind the sign.
    pub open spec fn magnitude(self) -> int {
        self.bits as int % SIGN_BIT as int
    }

    pub open spec fn nan(self) -> bool {
        self.magnitude() > INFINITY_BITS
    }

    pub open spec fn finite(self) -> bool {
        self.magnitude() < INFINITY_BITS
    }

    /// Magnitudes grow with the value they stand for, so the signed magnitude
    /// orders every value that is a number; both zeros come out equal.
    pub open spec fn rank(self) -> int {
        if self.bits < SIGN_BIT {
            self.magnitude()
        } else {
            -self.magnitude()
        }
    }

    pub open spec fn lt(self, other: Number) -> bool {
        !self.nan() && !other.nan() && self.rank() < other.rank()
    }

    pub open spec fn le(self, other: Number) -> bool {
        !self.nan() && !other.nan() && self.rank() <= other.rank()
    }

    fn magnitude_bits(self) -> (r: u32)
        ensures
            r == self.magnitude(),
    {
        self.bits % SIGN_BIT
    }

    pub fn is_nan(self) -> (r: bool)
        ensures
            r == self.nan(),
    {
        self.magnitude_bits() > INFINITY_BITS
    }

    pub fn is_finite(self) -> (r: bool)
        ensures
            r == self.finite(),
    {
        self.magnitude_bits() < INFINITY_BITS
    }

    fn signed_magnitude(self) -> (r: i64)
        ensures
            r == self.rank(),
    {
        if self.bits < SIGN_BIT {
            self.magnitude_bits() as i64
        } else {
            -(self.magnitude_bits() as i64)
        }
    }

    pub fn less(self, other: Number) -> (r: bool)
        ensures
            r == self.lt(other),
    {
        !self.is_nan() && !other.is_nan() && self.signed_magnitude() < other.signed_magnitude()
    }

    pub fn at_most(self, other: Number) -> (r: bool)
        ensures
            r == self.le(other),
    {
        !self.is_nan() && !other.is_nan() && self.signed_magnitude() <= other.signed_magnitude()
    }

    /// The number kept between two bounds; what is no number stays so.
    pub fn clamp(self, lo: Number, hi: Number) -> (r: Number)
        requires
            lo.le(hi),
        ensures
            r == clamped(self, lo, hi),
    {
        if self.less(lo) {
            lo
        } else if hi.less(self) {
            hi
        } else {
            self
        }
    }
}

pub open spec fn clamped(x: Number, lo: Number, hi: Number) -> Number {
    if x.lt(lo) {
        lo
    } else if hi.lt(x) {
        hi
    } else {
        x
    }
}

// ---------------------------------------------------------------------------
// Options
// ---------------------------------------------------------------------------

/// User-tunable compositor options.
#[derive(Debug, Clone, PartialEq, Eq)]
pub struct CompositorConfig {
    /// Enable the glassmorphism backdrop blur pipeline. Off by default — it
    /// costs an extra offscreen render + blur per frame.
    pub blur: bool,
    /// Gaussian blur reach in pixels.
    pub blur_radius: Number,
    /// Drop-shadow opacity for the topmost window.
    pub shadow_top: Number,
    /// Per-z-rank shadow opacity falloff.
    pub shadow_step: Number,
    /// Minimum shadow opacity for deep stacks.
    pub shadow_floor: Number,
    /// Minimise dock-slot width / height (px).
    pub dock_slot_w: Number,
    pub dock_slot_h: Number,
    /// Show the compositor-drawn dock and reserve a strut for it so
    /// windows/snap math don't overlap the bar.
    pub dock: bool,
    /// Dock band height in pixels (also the reserved strut).
    pub dock_height: Number,
    /// Which screen edge the dock lives on.
    pub dock_edge: DockEdge,
    /// Auto-hide the dock: it tucks off the edge and reveals when the pointer
    /// hits the screen edge or hovers the bar. While auto-hiding the dock
    /// reserves *no* strut. Off by default.
    pub dock_autohide: bool,
    /// App ids (or `.desktop` basenames) pinned to the dock, in order. A pinned
    /// app shows a launcher tile even when not running. Empty by default.
    pub dock_pinned: Vec<String>,
    /// Compositor-native wallpaper solid colour [R, G, B] (0–255).
    pub wallpaper_color: [u8; 3],
    /// Optional wallpaper image path (PNG or JPEG). Takes precedence over the
    /// solid colour.
    pub wallpaper_image: Option<String>,
}

pub struct ConfigView {
    pub blur: bool,
    pub blur_radius: Number,
    pub shadow_top: Number,
    pub shadow_step: Number,
    pub shadow_floor: Number,
    pub dock_slot_w: Number,
    pub dock_slot_h: Number,
    pub dock: bool,
    pub dock_height: Number,
    pub dock_edge: DockEdge,
    pub dock_autohide: bool,
    pub dock_pinned: Seq<Seq<char>>,
    pub wallpaper_color: Seq<u8>,
    pub wallpaper_image: Option<Seq<char>>,
}

impl View for CompositorConfig {
    type V = ConfigView;

    open spec fn view(&self) -> ConfigView {
        ConfigView {
            blur: self.blur,
            blur_radius: self.blur_radius,
            shadow_top: self.shadow_top,
            shadow_step: self.shadow_step,
            shadow_floor: self.shadow_floor,
            dock_slot_w: self.dock_slot_w,
            dock_slot_h: self.dock_slot_h,
            dock: self.dock,
            dock_height: self.dock_height,
            dock_edge: self.dock_edge,
            dock_autohide: self.dock_autohide,
            dock_pinned: strings(self.dock_pinned@),
            wallpaper_color: self.wallpaper_color@,
            wallpaper_image: opt_str(self.wallpaper_image),
        }
    }
}

/// The tuned defaults: a blur reach of 24, shadows from 1 down to 0.3 in steps
/// of 0.18, dock slots of 96 by 12, and a dock band of 56.
pub open spec fn default_config() -> ConfigView {
    ConfigView {
        blur: false,
        blur_radius: Number { bits: 0x41c0_0000 },
        shadow_top: one(),
        shadow_step: Number { bits: 0x3e38_51ec },
        shadow_floor: Number { bits: 0x3e99_999a },
        dock_slot_w: Number { bits: 0x42c0_0000 },
        dock_slot_h: Number { bits: 0x4140_0000 },
        dock: false,
        dock_height: Number { bits: 0x4260_0000 },
        dock_edge: DockEdge::Bottom,
        dock_autohide: false,
        dock_pinned: seq![],
        wallpaper_color: seq![10u8, 14u8, 22u8],
        wallpaper_image: None,
    }
}

impl Default for CompositorConfig {
    fn default() -> (r: CompositorConfig)
        ensures
            r@ == default_config(),
    {
        let r = CompositorConfig {
            blur: false,
            blur_radius: Number { bits: 0x41c0_0000 },
            shadow_top: Number { bits: ONE_BITS },
            shadow_step: Number { bits: 0x3e38_51ec },
            shadow_floor: Number { bits: 0x3e99_999a },
            dock_slot_w: Number { bits: 0x42c0_0000 },
            dock_slot_h: Number { bits: 0x4140_0000 },
            dock: false,
            dock_height: Number { bits: 0x4260_0000 },
            dock_edge: DockEdge::Bottom,
            dock_autohide: false,
            dock_pinned: Vec::new(),
            wallpaper_color: [10, 14, 22],
            wallpaper_image: None,
        };
        assert(strings(r.dock_pinned@) =~= seq![]);
        assert(r.wallpaper_color@ =~= seq![10u8, 14u8, 22u8]);
        r
    }
}

// ---------------------------------------------------------------------------
// Lists
// ---------------------------------------------------------------------------

/// The list with an entry added, unless it is empty or listed already.
pub open spec fn with_entry(list: Seq<Seq<char>>, entry: Seq<char>) -> Seq<Seq<char>> {
    if entry.len() > 0 && !list.contains(entry) {
        list.push(entry)
    } else {
        list
    }
}

/// The entries of the first `n` parts.
pub open spec fn entries(parts: Seq<Seq<char>>, n: int) -> Seq<Seq<char>>
    decreases n,
{
    if n <= 0 {
        seq![]
    } else {
        with_entry(entries(parts, n - 1), trim(parts[n - 1]))
    }
}

/// The entries of a comma-separated list: trimmed, without empty ones, each once,
/// in order.
pub open spec fn list_of(value: Seq<char>) -> Seq<Seq<char>> {
    entries(split(value, ','), split(value, ',').len() as int)
}

fn read_list(value: &[char]) -> (r: Vec<String>)
    ensures
        strings(r@) == list_of(value@),
{
    let parts: Vec<&[char]> = split_at_char(value, ',');
    let ghost all = split(value@, ',');
    assert(all.len() == parts.len());
    let mut out: Vec<String> = Vec::new();
    let mut i: usize = 0;
    assert(strings(out@) =~= seq![]);
    while i < parts.len()
        invariant
            i <= parts.len(),
            texts(parts@) == all,
            strings(out@) == entries(all, i as int),
        decreases parts.len() - i,
    {
        assert(all[i as int] == parts@[i as int]@);
        let t: String = string_of(trimmed(parts[i]));
        let ghost done = strings(out@);
        if !t.as_str().is_empty() && !has_string(&out, t.as_str()) {
            out.push(t);
            assert(strings(out@) =~= done.push(t@));
        }
        i += 1;
    }
    out
}

/// Split a comma-separated list value into trimmed, non-empty,
/// order-preserving, de-duplicated entries. Used for list-typed keys like
/// `dock_pinned` and as the normaliser in
/// [`sanitize`](CompositorConfig::sanitize).
pub fn parse_list(value: &str) -> (r: Vec<String>)
    ensures
        strings(r@) == list_of(value@),
{
    let value: Vec<char> = chars_of(value);
    read_list(value.as_slice())
}

// ---------------------------------------------------------------------------
// Setting fields by name
// ---------------------------------------------------------------------------

/// Every settable key, for help text and validation.
pub open spec fn key_names() -> Seq<Seq<char>> {
    seq![
        "blur"@,
        "blur_radius"@,
        "shadow_top"@,
        "shadow_step"@,
        "shadow_floor"@,
        "dock_slot_w"@,
        "dock_slot_h"@,
        "dock"@,
        "dock_height"@,
        "dock_edge"@,
        "dock_autohide"@,
        "dock_pinned"@,
    ]
}

/// Every settable key.
pub fn keys() -> (r: Vec<String>)
    ensures
        strings(r@) == key_names(),
{
    let names: Vec<&str> = vec![
        "blur",
        "blur_radius",
        "shadow_top",
        "shadow_step",
        "shadow_floor",
        "dock_slot_w",
        "dock_slot_h",
        "dock",
        "dock_height",
        "dock_edge",
        "dock_autohide",
        "dock_pinned",
    ];
    assert(strs(names@) =~= key_names());
    crate::text::own_all(&names)
}

/// What is said of a key that does not exist.
pub open spec fn unknown_key(key: Seq<char>) -> Seq<char> {
    "unknown key `"@ + key + "` (valid: "@ + join_upto(
        key_names(),
        0,
        key_names().len() as int,
        ", "@,
    ) + ")"@
}

fn unknown(key: &str) -> (r: String)
    ensures
        r@ == unknown_key(key@),
{
    let mut v: Vec<char> = chars_of("unknown key `");
    push_str(&mut v, key);
    push_str(&mut v, "` (valid: ");
    let names: Vec<String> = keys();
    assert(strings(names@).len() == names.len());
    let list: Vec<char> = join_from(&names, 0, ", ");
    crate::text::push_all(&mut v, list.as_slice());
    push_str(&mut v, ")");
    string_of(v.as_slice())
}

pub open spec fn flag_of(value: Seq<char>) -> Option<bool> {
    if value == "true"@ {
        Some(true)
    } else if value == "false"@ {
        Some(false)
    } else {
        None
    }
}

pub open spec fn not_a_flag(value: Seq<char>) -> Seq<char> {
    "`"@ + value + "` is not true/false"@
}

pub open spec fn not_a_number(value: Seq<char>) -> Seq<char> {
    "`"@ + value + "` is not a number"@
}

pub open spec fn not_an_edge(value: Seq<char>) -> Seq<char> {
    "`"@ + value + "` is not one of bottom/top/left/right"@
}

/// The edge of a name in lower case.
pub open spec fn edge_of(name: Seq<char>) -> Option<DockEdge> {
    if name == "bottom"@ {
        Some(DockEdge::Bottom)
    } else if name == "top"@ {
        Some(DockEdge::Top)
    } else if name == "left"@ {
        Some(DockEdge::Left)
    } else if name == "right"@ {
        Some(DockEdge::Right)
    } else {
        None
    }
}

pub enum FieldKind {
    Flag,
    Num,
    Edge,
    List,
    Unknown,
}

/// What kind of value a key takes.
pub open spec fn kind_of(key: Seq<char>) -> FieldKind {
    if key == "blur"@ || key == "dock"@ || key == "dock_autohide"@ {
        FieldKind::Flag
    } else if key == "blur_radius"@ || key == "shadow_top"@ || key == "shadow_step"@ || key
        == "shadow_floor"@ || key == "dock_slot_w"@ || key == "dock_slot_h"@ || key
        == "dock_height"@ {
        FieldKind::Num
    } else if key == "dock_edge"@ {
        FieldKind::Edge
    } else if key == "dock_pinned"@ {
        FieldKind::List
    } else {
        FieldKind::Unknown
    }
}

impl ConfigView {
    pub open spec fn with_flag(self, key: Seq<char>, on: bool) -> ConfigView {
        if key == "blur"@ {
            ConfigView { blur: on, ..self }
        } else if key == "dock"@ {
            ConfigView { dock: on, ..self }
        } else {
            ConfigView { dock_autohide: on, ..self }
        }
    }

    pub open spec fn with_number(self, key: Seq<char>, n: Number) -> ConfigView {
        if key == "blur_radius"@ {
            ConfigView { blur_radius: n, ..self }
        } else if key == "shadow_top"@ {
            ConfigView { shadow_top: n, ..self }
        } else if key == "shadow_step"@ {
            ConfigView { shadow_step: n, ..self }
        } else if key == "shadow_floor"@ {
            ConfigView { shadow_floor: n, ..self }
        } else if key == "dock_slot_w"@ {
            ConfigView { dock_slot_w: n, ..self }
        } else if key == "dock_slot_h"@ {
            ConfigView { dock_slot_h: n, ..self }
        } else {
            ConfigView { dock_height: n, ..self }
        }
    }

    /// The configuration once `key` is set to `value`; `number` is what `value`
    /// reads as a number. The message says why it was refused.
    pub open spec fn with_field(
        self,
        key: Seq<char>,
        value: Seq<char>,
        number: Option<Number>,
    ) -> Result<ConfigView, Seq<char>> {
        match kind_of(key) {
            FieldKind::Flag => match flag_of(value) {
                Some(on) => Ok(self.with_flag(key, on)),
                None => Err(not_a_flag(value)),
            },
            FieldKind::Num => match number {
                Some(n) => Ok(self.with_number(key, n)),
                None => Err(not_a_number(value)),
            },
            FieldKind::Edge => match edge_of(lowercase(trim(value))) {
                Some(e) => Ok(ConfigView { dock_edge: e, ..self }),
                None => Err(not_an_edge(lowercase(trim(value)))),
            },
            FieldKind::List => Ok(ConfigView { dock_pinned: list_of(value), ..self }),
            FieldKind::Unknown => Err(unknown_key(key)),
        }
    }

    /// The configuration with `key` back at its default.
    pub open spec fn without_field(self, key: Seq<char>) -> Result<ConfigView, Seq<char>> {
        let d = default_config();
        match kind_of(key) {
            FieldKind::Flag => Ok(
                self.with_flag(
                    key,
                    if key == "blur"@ {
                        d.blur
                    } else if key == "dock"@ {
                        d.dock
                    } else {
                        d.dock_autohide
                    },
                ),
            ),
            FieldKind::Num => Ok(
                self.with_number(
                    key,
                    if key == "blur_radius"@ {
                        d.blur_radius
                    } else if key == "shadow_top"@ {
                        d.shadow_top
                    } else if key == "shadow_step"@ {
                        d.shadow_step
                    } else if key == "shadow_floor"@ {
                        d.shadow_floor
                    } else if key == "dock_slot_w"@ {
                        d.dock_slot_w
                    } else if key == "dock_slot_h"@ {
                        d.dock_slot_h
                    } else {
                        d.dock_height
                    },
                ),
            ),
            FieldKind::Edge => Ok(ConfigView { dock_edge: d.dock_edge, ..self }),
            FieldKind::List => Ok(ConfigView { dock_pinned: d.dock_pinned, ..self }),
            FieldKind::Unknown => Err(unknown_key(key)),
        }
    }

    /// The configuration with every value put right.
    pub open spec fn sane(self) -> ConfigView {
        let d = default_config();
        let top = clamped(numeric(self.shadow_top, d.shadow_top), zero(), one());
        ConfigView {
            blur_radius: not_below_zero(self.blur_radius, d.blur_radius),
            shadow_top: top,
            shadow_floor: clamped(numeric(self.shadow_floor, d.shadow_floor), zero(), top),
            shadow_step: not_below_zero(self.shadow_step, d.shadow_step),
            dock_slot_w: above_zero(self.dock_slot_w, d.dock_slot_w),
            dock_slot_h: above_zero(self.dock_slot_h, d.dock_slot_h),
            dock_height: above_zero(self.dock_height, d.dock_height),
            dock_pinned: list_of(
                join_upto(self.dock_pinned, 0, self.dock_pinned.len() as int, ","@),
            ),
            ..self
        }
    }
}

/// `x`, or `d` where `x` is no number.
pub open spec fn numeric(x: Number, d: Number) -> Number {
    if x.nan() {
        d
    } else {
        x
    }
}

/// `x`, or `d` where `x` is infinite, no number, or below zero.
pub open spec fn not_below_zero(x: Number, d: Number) -> Number {
    if !x.finite() || x.lt(zero()) {
        d
    } else {
        x
    }
}

/// `x`, or `d` where `x` is infinite, no number, or not above zero.
pub open spec fn above_zero(x: Number, d: Number) -> Number {
    if !x.finite() || x.le(zero()) {
        d
    } else {
        x
    }
}

fn kept_numeric(x: Number, d: Number) -> (r: Number)
    ensures
        r == numeric(x, d),
{
    if x.is_nan() {
        d
    } else {
        x
    }
}

fn kept_not_below(x: Number, d: Number) -> (r: Number)
    ensures
        r == not_below_zero(x, d),
{
    if !x.is_finite() || x.less(Number { bits: 0 }) {
        d
    } else {
        x
    }
}

fn kept_above(x: Number, d: Number) -> (r: Number)
    ensures
        r == above_zero(x, d),
{
    if !x.is_finite() || x.at_most(Number { bits: 0 }) {
        d
    } else {
        x
    }
}

pub open spec fn outcome(
    r: Result<(), String>,
    before: ConfigView,
    after: ConfigView,
    spec: Result<ConfigView, Seq<char>>,
) -> bool {
    match (r, spec) {
        (Ok(()), Ok(c)) => after == c,
        (Err(e), Err(m)) => e@ == m && after == before,
        _ => false,
    }
}

fn read_flag(value: &str) -> (r: Result<bool, String>)
    ensures
        match (r, flag_of(value@)) {
            (Ok(on), Some(f)) => on == f,
            (Err(e), None) => e@ == not_a_flag(value@),
            _ => false,
        },
{
    if str_eq(value, "true") {
        Ok(true)
    } else if str_eq(value, "false") {
        Ok(false)
    } else {
        Err(concat3("`", value, "` is not true/false"))
    }
}

fn read_number(value: &str, number: Option<Number>) -> (r: Result<Number, String>)
    ensures
        match (r, number) {
            (Ok(n), Some(m)) => n == m,
            (Err(e), None) => e@ == not_a_number(value@),
            _ => false,
        },
{
    match number {
        Some(n) => Ok(n),
        None => Err(concat3("`", value, "` is not a number")),
    }
}

/// The dock edge of a name that is trimmed and in lower case already.
pub fn dock_edge_named(name: &str) -> (r: Result<DockEdge, String>)
    ensures
        match (r, edge_of(name@)) {
            (Ok(e), Some(f)) => e == f,
            (Err(e), None) => e@ == not_an_edge(name@),
            _ => false,
        },
{
    if str_eq(name, "bottom") {
        Ok(DockEdge::Bottom)
    } else if str_eq(name, "top") {
        Ok(DockEdge::Top)
    } else if str_eq(name, "left") {
        Ok(DockEdge::Left)
    } else if str_eq(name, "right") {
        Ok(DockEdge::Right)
    } else {
        Err(concat3("`", name, "` is not one of bottom/top/left/right"))
    }
}

impl CompositorConfig {
    fn set_flag(&mut self, key: &str, on: bool)
        requires
            kind_of(key@) is Flag,
        ensures
            final(self)@ == old(self)@.with_flag(key@, on),
    {
        if str_eq(key, "blur") {
            self.blur = on;
        } else if str_eq(key, "dock") {
            self.dock = on;
        } else {
            self.dock_autohide = on;
        }
    }

    fn set_number(&mut self, key: &str, n: Number)
        requires
            kind_of(key@) is Num,
        ensures
            final(self)@ == old(self)@.with_number(key@, n),
    {
        if str_eq(key, "blur_radius") {
            self.blur_radius = n;
        } else if str_eq(key, "shadow_top") {
            self.shadow_top = n;
        } else if str_eq(key, "shadow_step") {
            self.shadow_step = n;
        } else if str_eq(key, "shadow_floor") {
            self.shadow_floor = n;
        } else if str_eq(key, "dock_slot_w") {
            self.dock_slot_w = n;
        } else if str_eq(key, "dock_slot_h") {
            self.dock_slot_h = n;
        } else {
            self.dock_height = n;
        }
    }

    /// Set one field from string `key`/`value`. Type-checks the value; does
    /// *not* clamp — the caller runs [`sanitize`](Self::sanitize) afterwards so
    /// out-of-range input is corrected consistently with file loading. `number`
    /// is what `value` reads as a single-precision number.
    pub fn set_field(&mut self, key: &str, value: &str, number: Option<Number>) -> (r: Result<
        (),
        String,
    >)
        ensures
            outcome(r, old(self)@, final(self)@, old(self)@.with_field(key@, value@, number)),
    {
        match field_kind(key) {
            FieldKind::Flag => match read_flag(value) {
                Ok(on) => {
                    self.set_flag(key, on);
                    Ok(())
                },
                Err(e) => Err(e),
            },
            FieldKind::Num => match read_number(value, number) {
                Ok(n) => {
                    self.set_number(key, n);
                    Ok(())
                },
                Err(e) => Err(e),
            },
            FieldKind::Edge => {
                let v: Vec<char> = chars_of(value);
                let name: String = string_of(trimmed(v.as_slice()));
                let name: String = name.as_str().to_lowercase();
                match dock_edge_named(name.as_str()) {
                    Ok(e) => {
                        self.dock_edge = e;
                        Ok(())
                    },
                    Err(e) => Err(e),
                }
            },
            FieldKind::List => {
                self.dock_pinned = parse_list(value);
                Ok(())
            },
            FieldKind::Unknown => Err(unknown(key)),
        }
    }

    /// Reset one field to its default. Unknown key → error listing the valid
    /// ones.
    pub fn reset_field(&mut self, key: &str) -> (r: Result<(), String>)
        ensures
            outcome(r, old(self)@, final(self)@, old(self)@.without_field(key@)),
    {
        let d: CompositorConfig = CompositorConfig::default();
        match field_kind(key) {
            FieldKind::Flag => {
                let on: bool = if str_eq(key, "blur") {
                    d.blur
                } else if str_eq(key, "dock") {
                    d.dock
                } else {
                    d.dock_autohide
                };
                self.set_flag(key, on);
                Ok(())
            },
            FieldKind::Num => {
                let n: Number = if str_eq(key, "blur_radius") {
                    d.blur_radius
                } else if str_eq(key, "shadow_top") {
                    d.shadow_top
                } else if str_eq(key, "shadow_step") {
                    d.shadow_step
                } else if str_eq(key, "shadow_floor") {
                    d.shadow_floor
                } else if str_eq(key, "dock_slot_w") {
                    d.dock_slot_w
                } else if str_eq(key, "dock_slot_h") {
                    d.dock_slot_h
                } else {
                    d.dock_height
                };
                self.set_number(key, n);
                Ok(())
            },
            FieldKind::Edge => {
                self.dock_edge = d.dock_edge;
                Ok(())
            },
            FieldKind::List => {
                self.dock_pinned = d.dock_pinned;
                Ok(())
            },
            FieldKind::Unknown => Err(unknown(key)),
        }
    }

    /// Clamp out-of-range / nonsensical values so a hand-edited config can't
    /// break rendering (negative radii, zero-area dock slots, shadow opacities
    /// outside `[0, 1]`, …). An opacity that is no number goes back to its
    /// default.
    pub fn sanitize(&mut self)
        ensures
            final(self)@ == old(self)@.sane(),
    {
        let d: CompositorConfig = CompositorConfig::default();
        self.blur_radius = kept_not_below(self.blur_radius, d.blur_radius);
        let zero: Number = Number { bits: 0 };
        self.shadow_top = kept_numeric(self.shadow_top, d.shadow_top).clamp(
            zero,
            Number { bits: ONE_BITS },
        );
        self.shadow_floor = kept_numeric(self.shadow_floor, d.shadow_floor).clamp(
            zero,
            self.shadow_top,
        );
        self.shadow_step = kept_not_below(self.shadow_step, d.shadow_step);
        self.dock_slot_w = kept_above(self.dock_slot_w, d.dock_slot_w);
        self.dock_slot_h = kept_above(self.dock_slot_h, d.dock_slot_h);
        self.dock_height = kept_above(self.dock_height, d.dock_height);
        // A hand-edited file may carry blanks / dupes / padded names — run the
        // same normaliser as for a value that is set.
        assert(strings(self.dock_pinned@).len() == self.dock_pinned@.len());
        let joined: Vec<char> = join_from(&self.dock_pinned, 0, ",");
        self.dock_pinned = read_list(joined.as_slice());
    }

    /// What a loaded file gives: its options put right, or the defaults where
    /// there is no file or it could not be read.
    pub fn load(parsed: Option<CompositorConfig>) -> (r: CompositorConfig)
        ensures
            r@ == (match parsed {
                Some(c) => c@.sane(),
                None => default_config(),
            }),
    {
        match parsed {
            Some(c) => {
                let mut c = c;
                c.sanitize();
                c
            },
            None => CompositorConfig::default(),
        }
    }

    /// Effective blur setting: the `BACAK_BLUR` environment variable
    /// force-enables it regardless of the file; otherwise the file value wins.
    pub fn blur_enabled(&self, forced: bool) -> (r: bool)
        ensures
            r == (forced || self.blur),
    {
        forced || self.blur
    }
}

fn field_kind(key: &str) -> (r: FieldKind)
    ensures
        r == kind_of(key@),
{
    let k: Vec<char> = chars_of(key);
    let k: &[char] = k.as_slice();
    if is_str(k, "blur") || is_str(k, "dock") || is_str(k, "dock_autohide") {
        FieldKind::Flag
    } else if is_str(k, "blur_radius") || is_str(k, "shadow_top") || is_str(k, "shadow_step")
        || is_str(k, "shadow_floor") || is_str(k, "dock_slot_w") || is_str(k, "dock_slot_h")
        || is_str(k, "dock_height") {
        FieldKind::Num
    } else if is_str(k, "dock_edge") {
        FieldKind::Edge
    } else if is_str(k, "dock_pinned") {
        FieldKind::List
    } else {
        FieldKind::Unknown
    }
}

/// The on-disk config path per the XDG Base Directory specification, given
/// `$XDG_CONFIG_HOME` and `$HOME`.
pub fn config_path(xdg_config_home: Option<&str>, home: Option<&str>) -> (r: Option<String>)
    ensures
        opt_str(r) == (match (xdg_config_home, home) {
            (Some(dir), _) if dir@.len() > 0 => Some(path_join(dir@, "bacak/compositor.json"@)),
            (_, Some(home)) => Some(path_join(home@, ".config/bacak/compositor.json"@)),
            _ => None,
        }),
{
    if let Some(dir) = xdg_config_home {
        if !dir.is_empty() {
            return Some(join_path(dir, "bacak/compositor.json"));
        }
    }
    match home {
        Some(home) => Some(join_path(home, ".config/bacak/compositor.json")),
        None => None,
    }
}


// ---------------------------------------------------------------------------
// Laws
// ---------------------------------------------------------------------------

/// A list as the normaliser leaves it: no entry is empty, padded, repeated, or
/// holds the separator.
pub open spec fn clean(list: Seq<Seq<char>>) -> bool {
    &&& forall|k: int|
        0 <= k < list.len() ==> {
            &&& (#[trigger] list[k]).len() > 0
            &&& trim(list[k]) == list[k]
            &&& !list[k].contains(',')
        }
    &&& forall|i: int, j: int| 0 <= i < j < list.len() ==> list[i] != list[j]
}

proof fn lemma_entries_clean(parts: Seq<Seq<char>>, n: int)
    requires
        0 <= n <= parts.len(),
        forall|k: int| 0 <= k < parts.len() ==> !(#[trigger] parts[k]).contains(','),
    ensures
        clean(entries(parts, n)),
    decreases n,
{
    if n > 0 {
        lemma_entries_clean(parts, n - 1);
        lemma_trim(parts[n - 1]);
        let list = entries(parts, n - 1);
        let entry = trim(parts[n - 1]);
        assert(!entry.contains(','));
        if entry.len() > 0 && !list.contains(entry) {
            let next = list.push(entry);
            assert forall|i: int, j: int| 0 <= i < j < next.len() implies next[i] != next[j] by {
                assert(list.contains(list[i]));
            }
        }
    }
}

proof fn lemma_entries_of_clean(list: Seq<Seq<char>>, n: int)
    requires
        clean(list),
        0 <= n <= list.len(),
    ensures
        entries(list, n) == list.take(n),
    decreases n,
{
    if n > 0 {
        lemma_entries_of_clean(list, n - 1);
        let before = list.take(n - 1);
        if before.contains(list[n - 1]) {
            let k = choose|k: int| 0 <= k < before.len() && before[k] == list[n - 1];
            assert(list[k] == list[n - 1]);
        }
        assert(list.take(n) =~= before.push(list[n - 1]));
    } else {
        assert(list.take(0) =~= seq![]);
    }
}

/// Whatever is read as a list comes out clean: trimmed, with no empty entry and
/// none twice.
pub proof fn law_list_clean(value: Seq<char>)
    ensures
        clean(list_of(value)),
{
    lemma_split_free(value, ',', 0);
    lemma_entries_clean(split(value, ','), split(value, ',').len() as int);
}

/// A clean list, written out with commas, is read back as it was.
pub proof fn law_list_round_trip(list: Seq<Seq<char>>)
    requires
        clean(list),
    ensures
        list_of(join_upto(list, 0, list.len() as int, ","@)) == list,
{
    reveal_strlit(",");
    assert(","@ =~= seq![',']);
    let n = list.len() as int;
    if n == 0 {
        let s = join_upto(list, 0, 0, ","@);
        assert(split(s, ',') =~= seq![s.skip(0)]);
        lemma_trim(s.skip(0));
        reveal_with_fuel(entries, 2);
        assert(trim(s.skip(0)).len() == 0) by {
            assert(s.skip(0).len() == 0);
        }
        assert(list_of(s) =~= list);
    } else {
        lemma_split_join(list, ',', n);
        assert(list.take(n) =~= list);
        lemma_entries_of_clean(list, n);
    }
}

/// The list with the entries of the first `n` parts added.
pub open spec fn extended(list: Seq<Seq<char>>, parts: Seq<Seq<char>>, n: int) -> Seq<Seq<char>>
    decreases n,
{
    if n <= 0 {
        list
    } else {
        with_entry(extended(list, parts, n - 1), trim(parts[n - 1]))
    }
}

proof fn lemma_entries_extended(a: Seq<Seq<char>>, b: Seq<Seq<char>>, n: int)
    requires
        0 <= n <= b.len(),
    ensures
        entries(a + b, a.len() + n) == extended(entries(a, a.len() as int), b, n),
    decreases n,
{
    if n > 0 {
        lemma_entries_extended(a, b, n - 1);
    } else {
        lemma_entries_prefix(a, b, a.len() as int);
    }
}

proof fn lemma_entries_prefix(a: Seq<Seq<char>>, b: Seq<Seq<char>>, n: int)
    requires
        0 <= n <= a.len(),
    ensures
        entries(a + b, n) == entries(a, n),
    decreases n,
{
    if n > 0 {
        lemma_entries_prefix(a, b, n - 1);
    }
}

/// A list keeps what it held, in front, and gets every entry that is not empty.
proof fn lemma_extended(list: Seq<Seq<char>>, parts: Seq<Seq<char>>, n: int)
    requires
        0 <= n <= parts.len(),
    ensures
        list.len() <= extended(list, parts, n).len(),
        extended(list, parts, n).take(list.len() as int) == list,
        forall|k: int|
            0 <= k < n && trim(#[trigger] parts[k]).len() > 0 ==> extended(
                list,
                parts,
                n,
            ).contains(trim(parts[k])),
    decreases n,
{
    if n > 0 {
        lemma_extended(list, parts, n - 1);
        let before = extended(list, parts, n - 1);
        let after = extended(list, parts, n);
        let entry = trim(parts[n - 1]);
        assert(after.take(list.len() as int) =~= before.take(list.len() as int));
        assert forall|k: int| 0 <= k < n && trim(#[trigger] parts[k]).len() > 0 implies after.contains(
            trim(parts[k]),
        ) by {
            if k < n - 1 {
                let m = choose|m: int| 0 <= m < before.len() && before[m] == trim(parts[k]);
                assert(after[m] == trim(parts[k]));
            } else if !before.contains(entry) {
                assert(after[before.len() as int] == entry);
            }
        }
    } else {
        assert(list.take(list.len() as int) =~= list);
    }
}

proof fn lemma_extended_again(list: Seq<Seq<char>>, parts: Seq<Seq<char>>, n: int)
    requires
        0 <= n <= parts.len(),
        forall|k: int|
            0 <= k < n && trim(#[trigger] parts[k]).len() > 0 ==> list.contains(trim(parts[k])),
    ensures
        extended(list, parts, n) == list,
    decreases n,
{
    if n > 0 {
        lemma_extended_again(list, parts, n - 1);
    }
}

/// Adding a text to a clean list and putting it right adds the text's entries.
proof fn lemma_list_with(list: Seq<Seq<char>>, value: Seq<char>)
    requires
        clean(list),
    ensures
        list_of(join_upto(list.push(value), 0, (list.len() + 1) as int, ","@)) == extended(
            list,
            split(value, ','),
            split(value, ',').len() as int,
        ),
{
    reveal_strlit(",");
    assert(","@ =~= seq![',']);
    let n = list.len() as int;
    let parts = split(value, ',');
    let more = list.push(value);
    let s = join_upto(more, 0, n + 1, ","@);
    if n == 0 {
        assert(s == value);
        assert(list =~= seq![]);
        assert(seq![] + parts =~= parts);
        lemma_entries_extended(seq![], parts, parts.len() as int);
    } else {
        lemma_join_prefix(list, value, n);
        lemma_split_join(list, ',', n);
        assert(list.take(n) =~= list);
        lemma_split_concat(join_upto(list, 0, n, ","@), ',', value, 0);
        assert(split(s, ',') == list + parts);
        lemma_entries_extended(list, parts, parts.len() as int);
        lemma_entries_of_clean(list, n);
    }
}

proof fn lemma_join_prefix(list: Seq<Seq<char>>, value: Seq<char>, n: int)
    requires
        0 <= n <= list.len(),
    ensures
        join_upto(list.push(value), 0, n, ","@) == join_upto(list, 0, n, ","@),
    decreases n,
{
    if n > 0 {
        lemma_join_prefix(list, value, n - 1);
    }
}

/// Adding a text to a clean list and putting it right keeps the entries that were
/// there, in front; adding it once more changes nothing, whatever the text.
pub proof fn law_list_grows_once(list: Seq<Seq<char>>, value: Seq<char>)
    requires
        clean(list),
    ensures
        ({
            let once = list_of(join_upto(list.push(value), 0, (list.len() + 1) as int, ","@));
            &&& clean(once)
            &&& list.len() <= once.len()
            &&& once.take(list.len() as int) == list
            &&& list_of(join_upto(once.push(value), 0, (once.len() + 1) as int, ","@)) == once
        }),
{
    let parts = split(value, ',');
    let once = list_of(join_upto(list.push(value), 0, (list.len() + 1) as int, ","@));
    law_list_clean(join_upto(list.push(value), 0, (list.len() + 1) as int, ","@));
    lemma_list_with(list, value);
    lemma_extended(list, parts, parts.len() as int);
    lemma_list_with(once, value);
    lemma_extended_again(once, parts, parts.len() as int);
}

/// Putting a configuration right a second time changes nothing.
pub proof fn law_sanitize_once(c: ConfigView)
    ensures
        c.sane().sane() == c.sane(),
{
    law_list_clean(join_upto(c.dock_pinned, 0, c.dock_pinned.len() as int, ","@));
    law_list_round_trip(c.sane().dock_pinned);
}

/// Once put right, whatever it held, sizes are above zero, the reach and the
/// falloff are not below it, the topmost shadow lies between zero and one, the
/// floor between zero and the topmost shadow, and the list is clean.
pub proof fn law_sanitize_in_range(c: ConfigView)
    ensures
        ({
            let s = c.sane();
            &&& s.blur_radius.finite() && zero().le(s.blur_radius)
            &&& s.shadow_step.finite() && zero().le(s.shadow_step)
            &&& s.dock_slot_w.finite() && zero().lt(s.dock_slot_w)
            &&& s.dock_slot_h.finite() && zero().lt(s.dock_slot_h)
            &&& s.dock_height.finite() && zero().lt(s.dock_height)
            &&& zero().le(s.shadow_top) && s.shadow_top.le(one())
            &&& zero().le(s.shadow_floor) && s.shadow_floor.le(s.shadow_top)
            &&& clean(s.dock_pinned)
        }),
{
    law_list_clean(join_upto(c.dock_pinned, 0, c.dock_pinned.len() as int, ","@));
}

/// Numbers that are in range already are left as they are.
pub proof fn law_sanitize_keeps(c: ConfigView)
    ensures
        ({
            let s = c.sane();
            &&& c.blur_radius.finite() && zero().le(c.blur_radius) ==> s.blur_radius
                == c.blur_radius
            &&& c.shadow_step.finite() && zero().le(c.shadow_step) ==> s.shadow_step
                == c.shadow_step
            &&& c.dock_slot_w.finite() && zero().lt(c.dock_slot_w) ==> s.dock_slot_w
                == c.dock_slot_w
            &&& c.dock_slot_h.finite() && zero().lt(c.dock_slot_h) ==> s.dock_slot_h
                == c.dock_slot_h
            &&& c.dock_height.finite() && zero().lt(c.dock_height) ==> s.dock_height
                == c.dock_height
            &&& zero().le(c.shadow_top) && c.shadow_top.le(one()) ==> s.shadow_top == c.shadow_top
            &&& zero().le(c.shadow_floor) && c.shadow_floor.le(s.shadow_top) ==> s.shadow_floor
                == c.shadow_floor
        }),
{
}

/// Resetting a key undoes setting it: what it was set to does not matter.
pub proof fn law_reset_undoes_set(
    c: ConfigView,
    key: Seq<char>,
    value: Seq<char>,
    number: Option<Number>,
)
    ensures
        c.with_field(key, value, number) matches Ok(d) ==> d.without_field(key)
            == c.without_field(key),
{
}

/// Keys are independent: setting two of them in either order comes to the same.
pub proof fn law_keys_independent(
    c: ConfigView,
    key: Seq<char>,
    value: Seq<char>,
    number: Option<Number>,
    other: Seq<char>,
    other_value: Seq<char>,
    other_number: Option<Number>,
)
    requires
        key != other,
        c.with_field(key, value, number) is Ok,
        c.with_field(other, other_value, other_number) is Ok,
    ensures
        c.with_field(key, value, number)->Ok_0.with_field(other, other_value, other_number)
            == c.with_field(other, other_value, other_number)->Ok_0.with_field(key, value, number),
{
}

/// The defaults need no putting right, and resetting a key of them changes
/// nothing.
pub proof fn law_defaults_are_sane(key: Seq<char>)
    ensures
        default_config().sane() == default_config(),
        default_config().without_field(key) matches Ok(d) ==> d == default_config(),
{
    law_list_round_trip(default_config().dock_pinned);
    assert(default_config().dock_pinned =~= seq![]);
}

#[verifier::rlimit(30)]
proof fn lemma_key_lengths()
    ensures
        "blur"@.len() == 4,
        "blur_radius"@.len() == 11,
        "shadow_top"@.len() == 10,
        "shadow_step"@.len() == 11,
        "shadow_floor"@.len() == 12,
        "dock_slot_w"@.len() == 11,
        "dock_slot_h"@.len() == 11,
        "dock"@.len() == 4,
        "dock_height"@.len() == 11,
        "dock_edge"@.len() == 9,
        "dock_autohide"@.len() == 13,
        "dock_pinned"@.len() == 11,
        "blur"@[0] == 'b' && "dock"@[0] == 'd',
        "blur_radius"@[5] == 'r' && "shadow_step"@[5] == 'w',
        "dock_slot_w"@[5] == 's' && "dock_slot_h"@[5] == 's' && "dock_height"@[5] == 'h'
            && "dock_pinned"@[5] == 'p',
        "dock_slot_w"@[10] == 'w' && "dock_slot_h"@[10] == 'h',
{
    reveal_strlit("blur");
    reveal_strlit("blur_radius");
    reveal_strlit("shadow_top");
    reveal_strlit("shadow_step");
    reveal_strlit("shadow_floor");
    reveal_strlit("dock_slot_w");
    reveal_strlit("dock_slot_h");
    reveal_strlit("dock");
    reveal_strlit("dock_height");
    reveal_strlit("dock_edge");
    reveal_strlit("dock_autohide");
    reveal_strlit("dock_pinned");
}

/// A switch is set by the words `true` and `false`, each key its own and no other;
/// any other word is refused.
pub proof fn law_switches(c: ConfigView, value: Seq<char>, n: Option<Number>)
    ensures
        c.with_field("blur"@, "true"@, n) == Ok::<ConfigView, Seq<char>>(
            (ConfigView { blur: true, ..c }),
        ),
        c.with_field("blur"@, "false"@, n) == Ok::<ConfigView, Seq<char>>(
            (ConfigView { blur: false, ..c }),
        ),
        c.with_field("dock"@, "true"@, n) == Ok::<ConfigView, Seq<char>>(
            (ConfigView { dock: true, ..c }),
        ),
        c.with_field("dock"@, "false"@, n) == Ok::<ConfigView, Seq<char>>(
            (ConfigView { dock: false, ..c }),
        ),
        c.with_field("dock_autohide"@, "true"@, n) == Ok::<ConfigView, Seq<char>>(
            (ConfigView { dock_autohide: true, ..c }),
        ),
        c.with_field("dock_autohide"@, "false"@, n) == Ok::<ConfigView, Seq<char>>(
            (ConfigView { dock_autohide: false, ..c }),
        ),
        value != "true"@ && value != "false"@ ==> c.with_field("blur"@, value, n) is Err
            && c.with_field("dock"@, value, n) is Err && c.with_field("dock_autohide"@, value, n)
            is Err,
{
    lemma_key_lengths();
    reveal_strlit("true");
    reveal_strlit("false");
    assert("true"@.len() == 4 && "false"@.len() == 5);
}

/// Each number is stored under its own key, whatever it is, and every other value
/// stays; what is no number is refused.
pub proof fn law_number_keys(c: ConfigView, value: Seq<char>, n: Number)
    ensures
        c.with_field("blur_radius"@, value, Some(n)) == Ok::<ConfigView, Seq<char>>(
            (ConfigView { blur_radius: n, ..c }),
        ),
        c.with_field("shadow_top"@, value, Some(n)) == Ok::<ConfigView, Seq<char>>(
            (ConfigView { shadow_top: n, ..c }),
        ),
        c.with_field("shadow_step"@, value, Some(n)) == Ok::<ConfigView, Seq<char>>(
            (ConfigView { shadow_step: n, ..c }),
        ),
        c.with_field("shadow_floor"@, value, Some(n)) == Ok::<ConfigView, Seq<char>>(
            (ConfigView { shadow_floor: n, ..c }),
        ),
        c.with_field("dock_slot_w"@, value, Some(n)) == Ok::<ConfigView, Seq<char>>(
            (ConfigView { dock_slot_w: n, ..c }),
        ),
        c.with_field("dock_slot_h"@, value, Some(n)) == Ok::<ConfigView, Seq<char>>(
            (ConfigView { dock_slot_h: n, ..c }),
        ),
        c.with_field("dock_height"@, value, Some(n)) == Ok::<ConfigView, Seq<char>>(
            (ConfigView { dock_height: n, ..c }),
        ),
        c.with_field("blur_radius"@, value, None) is Err,
        c.with_field("shadow_top"@, value, None) is Err,
        c.with_field("dock_height"@, value, None) is Err,
{
    lemma_key_lengths();
}

/// The dock's edge is set by its name, with white space round it or not, and the pins
/// by a list; another name is refused.
#[verifier::rlimit(30)]
pub proof fn law_dock_keys(c: ConfigView, before: Seq<char>, after: Seq<char>, n: Option<Number>)
    requires
        forall|i: int| 0 <= i < before.len() ==> is_whitespace(#[trigger] before[i]),
        forall|i: int| 0 <= i < after.len() ==> is_whitespace(#[trigger] after[i]),
    ensures
        lowercase("bottom"@) == "bottom"@ ==> c.with_field(
            "dock_edge"@,
            before + "bottom"@ + after,
            n,
        ) == Ok::<ConfigView, Seq<char>>((ConfigView { dock_edge: DockEdge::Bottom, ..c })),
        lowercase("top"@) == "top"@ ==> c.with_field("dock_edge"@, before + "top"@ + after, n)
            == Ok::<ConfigView, Seq<char>>((ConfigView { dock_edge: DockEdge::Top, ..c })),
        lowercase("left"@) == "left"@ ==> c.with_field("dock_edge"@, before + "left"@ + after, n)
            == Ok::<ConfigView, Seq<char>>((ConfigView { dock_edge: DockEdge::Left, ..c })),
        lowercase("right"@) == "right"@ ==> c.with_field("dock_edge"@, before + "right"@ + after, n)
            == Ok::<ConfigView, Seq<char>>((ConfigView { dock_edge: DockEdge::Right, ..c })),
        c.with_field("dock_pinned"@, before, n) == Ok::<ConfigView, Seq<char>>(
            (ConfigView { dock_pinned: list_of(before), ..c }),
        ),
{
    lemma_key_lengths();
    reveal_strlit("bottom");
    reveal_strlit("top");
    reveal_strlit("left");
    reveal_strlit("right");
    assert("bottom"@.len() == 6 && "top"@.len() == 3 && "left"@.len() == 4 && "right"@.len() == 5);
    law_white_space('b');
    law_white_space('m');
    law_white_space('t');
    law_white_space('p');
    law_white_space('l');
    law_white_space('r');
    law_trim_undoes_padding(before, "bottom"@, after);
    law_trim_undoes_padding(before, "top"@, after);
    law_trim_undoes_padding(before, "left"@, after);
    law_trim_undoes_padding(before, "right"@, after);
}

/// The keys that are listed are just those that can be set and reset.
pub proof fn law_listed_keys(c: ConfigView, key: Seq<char>, value: Seq<char>, n: Option<Number>)
    ensures
        key_names().contains(key) == (c.without_field(key) is Ok),
        !key_names().contains(key) ==> c.with_field(key, value, n) is Err,
        key_names().len() == 12,
{
    let k = key_names();
    assert(k[0] == "blur"@ && k[1] == "blur_radius"@ && k[2] == "shadow_top"@ && k[3]
        == "shadow_step"@ && k[4] == "shadow_floor"@ && k[5] == "dock_slot_w"@ && k[6]
        == "dock_slot_h"@ && k[7] == "dock"@ && k[8] == "dock_height"@ && k[9] == "dock_edge"@
        && k[10] == "dock_autohide"@ && k[11] == "dock_pinned"@);
}

/// A reset key has its default again and leaves the other values: no blur, no dock, a
/// radius of 24, shadows from 1 in steps of 0.18 down to 0.3, slots of 96 by 12, a band
/// of 56 at the bottom, and no pins, as single-precision numbers.
pub proof fn law_reset_values(c: ConfigView)
    ensures
        c.without_field("blur"@) == Ok::<ConfigView, Seq<char>>((ConfigView { blur: false, ..c })),
        c.without_field("dock"@) == Ok::<ConfigView, Seq<char>>((ConfigView { dock: false, ..c })),
        c.without_field("dock_autohide"@) == Ok::<ConfigView, Seq<char>>(
            (ConfigView { dock_autohide: false, ..c }),
        ),
        c.without_field("blur_radius"@) == Ok::<ConfigView, Seq<char>>(
            (ConfigView { blur_radius: Number { bits: 0x41c0_0000 }, ..c }),
        ),
        c.without_field("shadow_top"@) == Ok::<ConfigView, Seq<char>>(
            (ConfigView { shadow_top: Number { bits: 0x3f80_0000 }, ..c }),
        ),
        c.without_field("shadow_step"@) == Ok::<ConfigView, Seq<char>>(
            (ConfigView { shadow_step: Number { bits: 0x3e38_51ec }, ..c }),
        ),
        c.without_field("shadow_floor"@) == Ok::<ConfigView, Seq<char>>(
            (ConfigView { shadow_floor: Number { bits: 0x3e99_999a }, ..c }),
        ),
        c.without_field("dock_slot_w"@) == Ok::<ConfigView, Seq<char>>(
            (ConfigView { dock_slot_w: Number { bits: 0x42c0_0000 }, ..c }),
        ),
        c.without_field("dock_slot_h"@) == Ok::<ConfigView, Seq<char>>(
            (ConfigView { dock_slot_h: Number { bits: 0x4140_0000 }, ..c }),
        ),
        c.without_field("dock_height"@) == Ok::<ConfigView, Seq<char>>(
            (ConfigView { dock_height: Number { bits: 0x4260_0000 }, ..c }),
        ),
        c.without_field("dock_edge"@) == Ok::<ConfigView, Seq<char>>(
            (ConfigView { dock_edge: DockEdge::Bottom, ..c }),
        ),
        c.without_field("dock_pinned"@) == Ok::<ConfigView, Seq<char>>(
            (ConfigView { dock_pinned: seq![], ..c }),
        ),
{
    lemma_key_lengths();
}

/// Numbers are ordered as single-precision values are: a larger magnitude is larger
/// above zero and smaller below it, both zeros are equal, and what is no number is
/// neither smaller nor larger than anything.
pub proof fn law_number_order(a: u32, b: u32, x: Number)
    requires
        a < b <= 0x7f80_0000,
    ensures
        (Number { bits: a }).lt(Number { bits: b }),
        !(Number { bits: b }).lt(Number { bits: a }),
        (Number { bits: (b + 0x8000_0000) as u32 }).lt(Number { bits: (a + 0x8000_0000) as u32 }),
        (Number { bits: (b + 0x8000_0000) as u32 }).lt(Number { bits: a }),
        !(Number { bits: 0x8000_0000 }).lt(Number { bits: 0 }),
        (Number { bits: 0x8000_0000 }).le(Number { bits: 0 }) && (Number { bits: 0 }).le(
            Number { bits: 0x8000_0000 },
        ),
        !(Number { bits: 0x7fc0_0000 }).lt(x) && !x.lt(Number { bits: 0x7fc0_0000 }) && !x.le(
            Number { bits: 0x7fc0_0000 },
        ),
        (Number { bits: a }).finite(),
        !(Number { bits: 0x7f80_0000 }).finite() && !(Number { bits: 0x7f80_0000 }).nan(),
        !(Number { bits: 0xff80_0000 }).finite() && !(Number { bits: 0xff80_0000 }).nan(),
        (Number { bits: 0x7fc0_0000 }).nan() && (Number { bits: 0xffc0_0000 }).nan(),
        one() == (Number { bits: 0x3f80_0000 }),
        zero() == (Number { bits: 0 }),
{
}

/// A number is kept where it lies between the bounds, and comes out as the nearer bound
/// where it does not.
pub proof fn law_clamp(x: Number, lo: Number, hi: Number)
    requires
        lo.le(hi),
        !x.nan(),
    ensures
        lo.le(clamped(x, lo, hi)) && clamped(x, lo, hi).le(hi),
        lo.le(x) && x.le(hi) ==> clamped(x, lo, hi) == x,
        x.lt(lo) ==> clamped(x, lo, hi) == lo,
        hi.lt(x) ==> clamped(x, lo, hi) == hi,
{
}

/// Putting a configuration right touches neither the switches nor the edge nor the
/// wallpaper.
pub proof fn law_sanitize_touches_numbers_alone(c: ConfigView)
    ensures
        c.sane().blur == c.blur,
        c.sane().dock == c.dock,
        c.sane().dock_edge == c.dock_edge,
        c.sane().dock_autohide == c.dock_autohide,
        c.sane().wallpaper_color == c.wallpaper_color,
        c.sane().wallpaper_image == c.wallpaper_image,
        c.dock_slot_w.lt(zero()) ==> c.sane().dock_slot_w == (Number { bits: 0x42c0_0000 }),
        c.dock_slot_h.lt(zero()) ==> c.sane().dock_slot_h == (Number { bits: 0x4140_0000 }),
        c.dock_height.lt(zero()) ==> c.sane().dock_height == (Number { bits: 0x4260_0000 }),
        c.blur_radius.lt(zero()) ==> c.sane().blur_radius == (Number { bits: 0x41c0_0000 }),
        c.shadow_step.lt(zero()) ==> c.sane().shadow_step == (Number { bits: 0x3e38_51ec }),
{
}

} // verus!
