//! evdev keycodes (linux/input-event-codes.h), before the `+8` xkb offset.

use vstd::prelude::*;

verus! {

pub const ESC: u32 = 1;
pub const N1: u32 = 2;
pub const N2: u32 = 3;
pub const N3: u32 = 4;
pub const N4: u32 = 5;
pub const N5: u32 = 6;
pub const N6: u32 = 7;
pub const N7: u32 = 8;
pub const N8: u32 = 9;
pub const N9: u32 = 10;
pub const N0: u32 = 11;
pub const MINUS: u32 = 12;
pub const EQUAL: u32 = 13;
pub const BACKSPACE: u32 = 14;
pub const TAB: u32 = 15;
pub const Q: u32 = 16;
pub const W: u32 = 17;
pub const E: u32 = 18;
pub const R: u32 = 19;
pub const T: u32 = 20;
pub const Y: u32 = 21;
pub const U: u32 = 22;
pub const I: u32 = 23;
pub const O: u32 = 24;
pub const P: u32 = 25;
pub const LEFTBRACE: u32 = 26;
pub const RIGHTBRACE: u32 = 27;
pub const ENTER: u32 = 28;
pub const LEFTCTRL: u32 = 29;
pub const A: u32 = 30;
pub const S: u32 = 31;
pub const D: u32 = 32;
pub const F: u32 = 33;
pub const G: u32 = 34;
pub const H: u32 = 35;
pub const J: u32 = 36;
pub const K: u32 = 37;
pub const L: u32 = 38;
pub const SEMICOLON: u32 = 39;
pub const APOSTROPHE: u32 = 40;
pub const GRAVE: u32 = 41;
pub const LEFTSHIFT: u32 = 42;
pub const BACKSLASH: u32 = 43;
pub const Z: u32 = 44;
pub const X: u32 = 45;
pub const C: u32 = 46;
pub const V: u32 = 47;
pub const B: u32 = 48;
pub const N: u32 = 49;
pub const M: u32 = 50;
pub const COMMA: u32 = 51;
pub const DOT: u32 = 52;
pub const SLASH: u32 = 53;
pub const RIGHTSHIFT: u32 = 54;
pub const LEFTALT: u32 = 56;
pub const SPACE: u32 = 57;
pub const CAPSLOCK: u32 = 58;
/// AltGr.
pub const RIGHTALT: u32 = 100;
pub const HOME: u32 = 102;
pub const UP: u32 = 103;
pub const LEFT: u32 = 105;
pub const RIGHT: u32 = 106;
pub const END: u32 = 107;
pub const DOWN: u32 = 108;
pub const DELETE: u32 = 111;
/// The extra `<>|` key left of `z` on ISO keyboards (Turkish F uses it).
pub const LSGT: u32 = 86;
/// Left "Super"/Windows/Meta key.
pub const LEFTMETA: u32 = 125;
/// The application/menu key (we repurpose its cap as a layout menu).
pub const MENU: u32 = 139;

pub const KP7: u32 = 71;
pub const KP8: u32 = 72;
pub const KP9: u32 = 73;
pub const KP4: u32 = 75;
pub const KP5: u32 = 76;
pub const KP6: u32 = 77;
pub const KP1: u32 = 79;
pub const KP2: u32 = 80;
pub const KP3: u32 = 81;
pub const KP0: u32 = 82;
pub const KPDOT: u32 = 83;
pub const KPPLUS: u32 = 78;
pub const KPMINUS: u32 = 74;
pub const KPENTER: u32 = 96;

} // verus!
