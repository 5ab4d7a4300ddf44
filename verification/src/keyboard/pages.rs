//! The keycaps of every page.

use vstd::prelude::*;

use crate::keyboard::{
    act_cap, alpha, caps, code, emoji_cap, key_cap, letter_cap, mod_cap, rows_view, wide_cap, Action, KeyCap,
    KeyCapView, KeyKindView, LayoutId, Modifier, Page, PageView,
};

verus! {

/// The digits and their shifted symbols.
pub open spec fn row_digits_spec() -> Seq<KeyCapView> {
    seq![
        letter_cap(code::N1, "1"@, "!"@, seq!["¹"@, "½"@]),
        letter_cap(code::N2, "2"@, "@"@, seq!["²"@]),
        letter_cap(code::N3, "3"@, "#"@, seq!["³"@]),
        letter_cap(code::N4, "4"@, "$"@, seq!["₺"@, "€"@, "£"@]),
        letter_cap(code::N5, "5"@, "%"@, seq!["‰"@]),
        letter_cap(code::N6, "6"@, "^"@, seq![]),
        letter_cap(code::N7, "7"@, "&"@, seq![]),
        letter_cap(code::N8, "8"@, "*"@, seq!["•"@, "×"@]),
        letter_cap(code::N9, "9"@, "("@, seq![]),
        letter_cap(code::N0, "0"@, ")"@, seq!["°"@]),
    ]
}

fn row_digits() -> (r: Vec<KeyCap>)
    ensures
        caps(r@) == row_digits_spec(),
{
    let r: Vec<KeyCap> = vec![
        KeyCap::letter(code::N1, "1", "!", vec!["¹", "½"]),
        KeyCap::letter(code::N2, "2", "@", vec!["²"]),
        KeyCap::letter(code::N3, "3", "#", vec!["³"]),
        KeyCap::letter(code::N4, "4", "$", vec!["₺", "€", "£"]),
        KeyCap::letter(code::N5, "5", "%", vec!["‰"]),
        KeyCap::letter(code::N6, "6", "^", vec![]),
        KeyCap::letter(code::N7, "7", "&", vec![]),
        KeyCap::letter(code::N8, "8", "*", vec!["•", "×"]),
        KeyCap::letter(code::N9, "9", "(", vec![]),
        KeyCap::letter(code::N0, "0", ")", vec!["°"]),
    ];
    assert(caps(r@) =~~= row_digits_spec());
    r
}

/// Shared bottom row: layout switch, comma, language, space, dot, enter.
pub open spec fn row_bottom_spec(switch: Action, space_w: int) -> Seq<KeyCapView> {
    seq![
        act_cap(switch, "?123"@, 150),
        act_cap(Action::Goto(LayoutId::Emoji), "☺"@, 100),
        letter_cap(code::COMMA, ","@, ";"@, seq![]),
        act_cap(Action::Language, "EN"@, 100),
        wide_cap(key_cap(code::SPACE, " "@, " "@), space_w - 200),
        letter_cap(code::DOT, "."@, ":"@, seq!["…"@]),
        wide_cap(key_cap(code::ENTER, "↵ Enter"@, "↵ Enter"@), 220),
    ]
}

fn row_bottom(switch: Action, space_w: u32) -> (r: Vec<KeyCap>)
    requires
        space_w >= 200,
    ensures
        caps(r@) == row_bottom_spec(switch, space_w as int),
{
    let r: Vec<KeyCap> = vec![
        KeyCap::act(switch, "?123", 150),
        KeyCap::act(Action::Goto(LayoutId::Emoji), "☺", 100),
        KeyCap::letter(code::COMMA, ",", ";", vec![]),
        KeyCap::act(Action::Language, "EN", 100),
        KeyCap::key(code::SPACE, " ", " ").wide(space_w - 200),
        KeyCap::letter(code::DOT, ".", ":", vec!["…"]),
        KeyCap::key(code::ENTER, "↵ Enter", "↵ Enter").wide(220),
    ];
    assert(caps(r@) =~~= row_bottom_spec(switch, space_w as int));
    r
}

/// Modifiers, arrows and the clipboard, shared by the English and symbol pages.
pub open spec fn row_alt_ctrl_spec() -> Seq<KeyCapView> {
    seq![
        key_cap(code::TAB, "⇥"@, "⇥"@),
        mod_cap(Modifier::Ctrl, "Ctrl"@, 120),
        mod_cap(Modifier::Alt, "Alt"@, 100),
        mod_cap(Modifier::AltGr, "AltGr"@, 120),
        key_cap(code::LEFT, "←"@, "←"@),
        key_cap(code::UP, "↑"@, "↑"@),
        key_cap(code::DOWN, "↓"@, "↓"@),
        key_cap(code::RIGHT, "→"@, "→"@),
        act_cap(Action::Copy, "Copy"@, 160),
        act_cap(Action::Paste, "Paste"@, 160),
        act_cap(Action::Recents, "❐"@, 100),
    ]
}

fn row_alt_ctrl() -> (r: Vec<KeyCap>)
    ensures
        caps(r@) == row_alt_ctrl_spec(),
{
    let r: Vec<KeyCap> = vec![
        KeyCap::key(code::TAB, "⇥", "⇥"),
        KeyCap::modk(Modifier::Ctrl, "Ctrl", 120),
        KeyCap::modk(Modifier::Alt, "Alt", 100),
        KeyCap::modk(Modifier::AltGr, "AltGr", 120),
        KeyCap::key(code::LEFT, "←", "←"),
        KeyCap::key(code::UP, "↑", "↑"),
        KeyCap::key(code::DOWN, "↓", "↓"),
        KeyCap::key(code::RIGHT, "→", "→"),
        KeyCap::act(Action::Copy, "Copy", 160),
        KeyCap::act(Action::Paste, "Paste", 160),
        KeyCap::act(Action::Recents, "❐", 100),
    ];
    assert(caps(r@) =~~= row_alt_ctrl_spec());
    r
}

/// q to p.
pub open spec fn english_top_spec() -> Seq<KeyCapView> {
    seq![
        letter_cap(code::Q, "q"@, "Q"@, seq![]),
        letter_cap(code::W, "w"@, "W"@, seq![]),
        letter_cap(code::E, "e"@, "E"@, seq!["è"@, "é"@, "ê"@, "ë"@, "€"@]),
        letter_cap(code::R, "r"@, "R"@, seq![]),
        letter_cap(code::T, "t"@, "T"@, seq![]),
        letter_cap(code::Y, "y"@, "Y"@, seq!["ÿ"@]),
        letter_cap(code::U, "u"@, "U"@, seq!["ù"@, "ú"@, "û"@, "ü"@]),
        letter_cap(code::I, "i"@, "I"@, seq!["ì"@, "í"@, "î"@, "ï"@]),
        letter_cap(code::O, "o"@, "O"@, seq!["ò"@, "ó"@, "ô"@, "ö"@, "ø"@]),
        letter_cap(code::P, "p"@, "P"@, seq![]),
    ]
}

fn english_top() -> (r: Vec<KeyCap>)
    ensures
        caps(r@) == english_top_spec(),
{
    let r: Vec<KeyCap> = vec![
        KeyCap::letter(code::Q, "q", "Q", vec![]),
        KeyCap::letter(code::W, "w", "W", vec![]),
        KeyCap::letter(code::E, "e", "E", vec!["è", "é", "ê", "ë", "€"]),
        KeyCap::letter(code::R, "r", "R", vec![]),
        KeyCap::letter(code::T, "t", "T", vec![]),
        KeyCap::letter(code::Y, "y", "Y", vec!["ÿ"]),
        KeyCap::letter(code::U, "u", "U", vec!["ù", "ú", "û", "ü"]),
        KeyCap::letter(code::I, "i", "I", vec!["ì", "í", "î", "ï"]),
        KeyCap::letter(code::O, "o", "O", vec!["ò", "ó", "ô", "ö", "ø"]),
        KeyCap::letter(code::P, "p", "P", vec![]),
    ];
    assert(caps(r@) =~~= english_top_spec());
    r
}

/// a to l.
pub open spec fn english_home_spec() -> Seq<KeyCapView> {
    seq![
        letter_cap(code::A, "a"@, "A"@, seq!["à"@, "á"@, "â"@, "ä"@, "å"@, "æ"@]),
        letter_cap(code::S, "s"@, "S"@, seq!["ß"@, "ş"@, "ś"@]),
        letter_cap(code::D, "d"@, "D"@, seq![]),
        letter_cap(code::F, "f"@, "F"@, seq![]),
        letter_cap(code::G, "g"@, "G"@, seq!["ğ"@]),
        letter_cap(code::H, "h"@, "H"@, seq![]),
        letter_cap(code::J, "j"@, "J"@, seq![]),
        letter_cap(code::K, "k"@, "K"@, seq![]),
        letter_cap(code::L, "l"@, "L"@, seq![]),
    ]
}

fn english_home() -> (r: Vec<KeyCap>)
    ensures
        caps(r@) == english_home_spec(),
{
    let r: Vec<KeyCap> = vec![
        KeyCap::letter(code::A, "a", "A", vec!["à", "á", "â", "ä", "å", "æ"]),
        KeyCap::letter(code::S, "s", "S", vec!["ß", "ş", "ś"]),
        KeyCap::letter(code::D, "d", "D", vec![]),
        KeyCap::letter(code::F, "f", "F", vec![]),
        KeyCap::letter(code::G, "g", "G", vec!["ğ"]),
        KeyCap::letter(code::H, "h", "H", vec![]),
        KeyCap::letter(code::J, "j", "J", vec![]),
        KeyCap::letter(code::K, "k", "K", vec![]),
        KeyCap::letter(code::L, "l", "L", vec![]),
    ];
    assert(caps(r@) =~~= english_home_spec());
    r
}

/// Shift, z to m, backspace.
pub open spec fn english_low_spec() -> Seq<KeyCapView> {
    seq![
        mod_cap(Modifier::Shift, "⇧"@, 150),
        letter_cap(code::Z, "z"@, "Z"@, seq![]),
        letter_cap(code::X, "x"@, "X"@, seq![]),
        letter_cap(code::C, "c"@, "C"@, seq!["ç"@, "ć"@]),
        letter_cap(code::V, "v"@, "V"@, seq![]),
        letter_cap(code::B, "b"@, "B"@, seq![]),
        letter_cap(code::N, "n"@, "N"@, seq!["ñ"@]),
        letter_cap(code::M, "m"@, "M"@, seq![]),
        key_cap(code::BACKSPACE, "⌫"@, "⌫"@),
    ]
}

fn english_low() -> (r: Vec<KeyCap>)
    ensures
        caps(r@) == english_low_spec(),
{
    let r: Vec<KeyCap> = vec![
        KeyCap::modk(Modifier::Shift, "⇧", 150),
        KeyCap::letter(code::Z, "z", "Z", vec![]),
        KeyCap::letter(code::X, "x", "X", vec![]),
        KeyCap::letter(code::C, "c", "C", vec!["ç", "ć"]),
        KeyCap::letter(code::V, "v", "V", vec![]),
        KeyCap::letter(code::B, "b", "B", vec![]),
        KeyCap::letter(code::N, "n", "N", vec!["ñ"]),
        KeyCap::letter(code::M, "m", "M", vec![]),
        KeyCap::key(code::BACKSPACE, "⌫", "⌫"),
    ];
    assert(caps(r@) =~~= english_low_spec());
    r
}

/// Number row: + 1 2 3 4 5 6 7 8 9 0 / -  ⌫ ⌦
pub open spec fn turkish_digits_spec() -> Seq<KeyCapView> {
    seq![
        letter_cap(code::GRAVE, "+"@, "*"@, seq![]),
        letter_cap(code::N1, "1"@, "!"@, seq![]),
        letter_cap(code::N2, "2"@, "\""@, seq![]),
        letter_cap(code::N3, "3"@, "^"@, seq![]),
        letter_cap(code::N4, "4"@, "$"@, seq![]),
        letter_cap(code::N5, "5"@, "%"@, seq![]),
        letter_cap(code::N6, "6"@, "&"@, seq![]),
        letter_cap(code::N7, "7"@, "'"@, seq![]),
        letter_cap(code::N8, "8"@, "("@, seq![]),
        letter_cap(code::N9, "9"@, ")"@, seq![]),
        letter_cap(code::N0, "0"@, "="@, seq![]),
        letter_cap(code::MINUS, "/"@, "?"@, seq![]),
        letter_cap(code::EQUAL, "-"@, "_"@, seq![]),
        wide_cap(key_cap(code::BACKSPACE, "⌫"@, "⌫"@), 150),
        key_cap(code::DELETE, "⌦"@, "⌦"@),
    ]
}

fn turkish_digits() -> (r: Vec<KeyCap>)
    ensures
        caps(r@) == turkish_digits_spec(),
{
    let r: Vec<KeyCap> = vec![
        KeyCap::letter(code::GRAVE, "+", "*", vec![]),
        KeyCap::letter(code::N1, "1", "!", vec![]),
        KeyCap::letter(code::N2, "2", "\"", vec![]),
        KeyCap::letter(code::N3, "3", "^", vec![]),
        KeyCap::letter(code::N4, "4", "$", vec![]),
        KeyCap::letter(code::N5, "5", "%", vec![]),
        KeyCap::letter(code::N6, "6", "&", vec![]),
        KeyCap::letter(code::N7, "7", "'", vec![]),
        KeyCap::letter(code::N8, "8", "(", vec![]),
        KeyCap::letter(code::N9, "9", ")", vec![]),
        KeyCap::letter(code::N0, "0", "=", vec![]),
        KeyCap::letter(code::MINUS, "/", "?", vec![]),
        KeyCap::letter(code::EQUAL, "-", "_", vec![]),
        KeyCap::key(code::BACKSPACE, "⌫", "⌫").wide(150),
        KeyCap::key(code::DELETE, "⌦", "⌦"),
    ];
    assert(caps(r@) =~~= turkish_digits_spec());
    r
}

/// Top letter row: Tab f g ğ ı o d r n h p q w  ↵
pub open spec fn turkish_top_spec() -> Seq<KeyCapView> {
    seq![
        wide_cap(key_cap(code::TAB, "↹"@, "↹"@), 150),
        letter_cap(code::Q, "f"@, "F"@, seq![]),
        letter_cap(code::W, "g"@, "G"@, seq![]),
        letter_cap(code::E, "ğ"@, "Ğ"@, seq![]),
        letter_cap(code::R, "ı"@, "I"@, seq![]),
        letter_cap(code::T, "o"@, "O"@, seq![]),
        letter_cap(code::Y, "d"@, "D"@, seq![]),
        letter_cap(code::U, "r"@, "R"@, seq![]),
        letter_cap(code::I, "n"@, "N"@, seq![]),
        letter_cap(code::O, "h"@, "H"@, seq![]),
        letter_cap(code::P, "p"@, "P"@, seq![]),
        letter_cap(code::LEFTBRACE, "q"@, "Q"@, seq![]),
        letter_cap(code::RIGHTBRACE, "w"@, "W"@, seq![]),
        wide_cap(key_cap(code::ENTER, "↵ Giriş"@, "↵ Giriş"@), 260),
    ]
}

fn turkish_top() -> (r: Vec<KeyCap>)
    ensures
        caps(r@) == turkish_top_spec(),
{
    let r: Vec<KeyCap> = vec![
        KeyCap::key(code::TAB, "↹", "↹").wide(150),
        KeyCap::letter(code::Q, "f", "F", vec![]),
        KeyCap::letter(code::W, "g", "G", vec![]),
        KeyCap::letter(code::E, "ğ", "Ğ", vec![]),
        KeyCap::letter(code::R, "ı", "I", vec![]),
        KeyCap::letter(code::T, "o", "O", vec![]),
        KeyCap::letter(code::Y, "d", "D", vec![]),
        KeyCap::letter(code::U, "r", "R", vec![]),
        KeyCap::letter(code::I, "n", "N", vec![]),
        KeyCap::letter(code::O, "h", "H", vec![]),
        KeyCap::letter(code::P, "p", "P", vec![]),
        KeyCap::letter(code::LEFTBRACE, "q", "Q", vec![]),
        KeyCap::letter(code::RIGHTBRACE, "w", "W", vec![]),
        KeyCap::key(code::ENTER, "↵ Giriş", "↵ Giriş").wide(260),
    ];
    assert(caps(r@) =~~= turkish_top_spec());
    r
}

/// Home row: ⇧ u i e a ü t k m l y ş x  Abc
pub open spec fn turkish_home_spec() -> Seq<KeyCapView> {
    seq![
        mod_cap(Modifier::Shift, "⇧"@, 125),
        letter_cap(code::A, "u"@, "U"@, seq![]),
        letter_cap(code::S, "i"@, "İ"@, seq![]),
        letter_cap(code::D, "e"@, "E"@, seq!["€"@]),
        letter_cap(code::F, "a"@, "A"@, seq![]),
        letter_cap(code::G, "ü"@, "Ü"@, seq![]),
        letter_cap(code::H, "t"@, "T"@, seq!["₺"@]),
        letter_cap(code::J, "k"@, "K"@, seq![]),
        letter_cap(code::K, "m"@, "M"@, seq![]),
        letter_cap(code::L, "l"@, "L"@, seq![]),
        letter_cap(code::SEMICOLON, "y"@, "Y"@, seq![]),
        letter_cap(code::APOSTROPHE, "ş"@, "Ş"@, seq![]),
        letter_cap(code::BACKSLASH, "x"@, "X"@, seq![]),
        act_cap(Action::Letters, "Abc"@, 125),
    ]
}

fn turkish_home() -> (r: Vec<KeyCap>)
    ensures
        caps(r@) == turkish_home_spec(),
{
    let r: Vec<KeyCap> = vec![
        KeyCap::modk(Modifier::Shift, "⇧", 125),
        KeyCap::letter(code::A, "u", "U", vec![]),
        KeyCap::letter(code::S, "i", "İ", vec![]),
        KeyCap::letter(code::D, "e", "E", vec!["€"]),
        KeyCap::letter(code::F, "a", "A", vec![]),
        KeyCap::letter(code::G, "ü", "Ü", vec![]),
        KeyCap::letter(code::H, "t", "T", vec!["₺"]),
        KeyCap::letter(code::J, "k", "K", vec![]),
        KeyCap::letter(code::K, "m", "M", vec![]),
        KeyCap::letter(code::L, "l", "L", vec![]),
        KeyCap::letter(code::SEMICOLON, "y", "Y", vec![]),
        KeyCap::letter(code::APOSTROPHE, "ş", "Ş", vec![]),
        KeyCap::letter(code::BACKSLASH, "x", "X", vec![]),
        KeyCap::act(Action::Letters, "Abc", 125),
    ];
    assert(caps(r@) =~~= turkish_home_spec());
    r
}

/// Bottom row: ⇧ < j ö v c ç z s b . ,  ⇧  123
pub open spec fn turkish_low_spec() -> Seq<KeyCapView> {
    seq![
        mod_cap(Modifier::Shift, "⇧"@, 100),
        letter_cap(code::LSGT, "<"@, ">"@, seq![]),
        letter_cap(code::Z, "j"@, "J"@, seq![]),
        letter_cap(code::X, "ö"@, "Ö"@, seq![]),
        letter_cap(code::C, "v"@, "V"@, seq![]),
        letter_cap(code::V, "c"@, "C"@, seq![]),
        letter_cap(code::B, "ç"@, "Ç"@, seq![]),
        letter_cap(code::N, "z"@, "Z"@, seq![]),
        letter_cap(code::M, "s"@, "S"@, seq![]),
        letter_cap(code::COMMA, "b"@, "B"@, seq![]),
        letter_cap(code::DOT, "."@, ":"@, seq!["…"@]),
        letter_cap(code::SLASH, ","@, ";"@, seq![]),
        mod_cap(Modifier::Shift, "⇧"@, 100),
        act_cap(Action::Goto(LayoutId::Numeric), "123"@, 125),
    ]
}

fn turkish_low() -> (r: Vec<KeyCap>)
    ensures
        caps(r@) == turkish_low_spec(),
{
    let r: Vec<KeyCap> = vec![
        KeyCap::modk(Modifier::Shift, "⇧", 100),
        KeyCap::letter(code::LSGT, "<", ">", vec![]),
        KeyCap::letter(code::Z, "j", "J", vec![]),
        KeyCap::letter(code::X, "ö", "Ö", vec![]),
        KeyCap::letter(code::C, "v", "V", vec![]),
        KeyCap::letter(code::V, "c", "C", vec![]),
        KeyCap::letter(code::B, "ç", "Ç", vec![]),
        KeyCap::letter(code::N, "z", "Z", vec![]),
        KeyCap::letter(code::M, "s", "S", vec![]),
        KeyCap::letter(code::COMMA, "b", "B", vec![]),
        KeyCap::letter(code::DOT, ".", ":", vec!["…"]),
        KeyCap::letter(code::SLASH, ",", ";", vec![]),
        KeyCap::modk(Modifier::Shift, "⇧", 100),
        KeyCap::act(Action::Goto(LayoutId::Numeric), "123", 125),
    ];
    assert(caps(r@) =~~= turkish_low_spec());
    r
}

/// Control row: Ctrl Win Alt [lang] [space] AltGr ← → ↑ ↓  ❐ ☰
pub open spec fn turkish_control_spec() -> Seq<KeyCapView> {
    seq![
        mod_cap(Modifier::Ctrl, "Ctrl"@, 125),
        key_cap(code::LEFTMETA, "Win"@, "Win"@),
        mod_cap(Modifier::Alt, "Alt"@, 100),
        act_cap(Action::Language, "TR"@, 100),
        wide_cap(key_cap(code::SPACE, " "@, " "@), 400),
        mod_cap(Modifier::AltGr, "AltGr"@, 125),
        key_cap(code::LEFT, "←"@, "←"@),
        key_cap(code::RIGHT, "→"@, "→"@),
        key_cap(code::UP, "↑"@, "↑"@),
        key_cap(code::DOWN, "↓"@, "↓"@),
        act_cap(Action::Recents, "❐"@, 100),
        act_cap(Action::Goto(LayoutId::Symbols), "☰"@, 100),
    ]
}

fn turkish_control() -> (r: Vec<KeyCap>)
    ensures
        caps(r@) == turkish_control_spec(),
{
    let r: Vec<KeyCap> = vec![
        KeyCap::modk(Modifier::Ctrl, "Ctrl", 125),
        KeyCap::key(code::LEFTMETA, "Win", "Win"),
        KeyCap::modk(Modifier::Alt, "Alt", 100),
        KeyCap::act(Action::Language, "TR", 100),
        KeyCap::key(code::SPACE, " ", " ").wide(400),
        KeyCap::modk(Modifier::AltGr, "AltGr", 125),
        KeyCap::key(code::LEFT, "←", "←"),
        KeyCap::key(code::RIGHT, "→", "→"),
        KeyCap::key(code::UP, "↑", "↑"),
        KeyCap::key(code::DOWN, "↓", "↓"),
        KeyCap::act(Action::Recents, "❐", 100),
        KeyCap::act(Action::Goto(LayoutId::Symbols), "☰", 100),
    ];
    assert(caps(r@) =~~= turkish_control_spec());
    r
}

/// Punctuation that has a key of its own.
pub open spec fn symbol_marks_spec() -> Seq<KeyCapView> {
    seq![
        key_cap(code::GRAVE, "`"@, "~"@),
        key_cap(code::MINUS, "-"@, "_"@),
        key_cap(code::EQUAL, "="@, "+"@),
        key_cap(code::LEFTBRACE, "["@, "{"@),
        key_cap(code::RIGHTBRACE, "]"@, "}"@),
        key_cap(code::BACKSLASH, "\\"@, "|"@),
        key_cap(code::SEMICOLON, ";"@, ":"@),
        key_cap(code::APOSTROPHE, "'"@, "\""@),
        key_cap(code::SLASH, "/"@, "?"@),
    ]
}

fn symbol_marks() -> (r: Vec<KeyCap>)
    ensures
        caps(r@) == symbol_marks_spec(),
{
    let r: Vec<KeyCap> = vec![
        KeyCap::key(code::GRAVE, "`", "~"),
        KeyCap::key(code::MINUS, "-", "_"),
        KeyCap::key(code::EQUAL, "=", "+"),
        KeyCap::key(code::LEFTBRACE, "[", "{"),
        KeyCap::key(code::RIGHTBRACE, "]", "}"),
        KeyCap::key(code::BACKSLASH, "\\", "|"),
        KeyCap::key(code::SEMICOLON, ";", ":"),
        KeyCap::key(code::APOSTROPHE, "'", "\""),
        KeyCap::key(code::SLASH, "/", "?"),
    ];
    assert(caps(r@) =~~= symbol_marks_spec());
    r
}

/// Signs without a key, and backspace.
pub open spec fn symbol_signs_spec() -> Seq<KeyCapView> {
    seq![
        emoji_cap("€"@),
        emoji_cap("£"@),
        emoji_cap("₺"@),
        emoji_cap("•"@),
        emoji_cap("°"@),
        emoji_cap("…"@),
        emoji_cap("™"@),
        emoji_cap("©"@),
        emoji_cap("®"@),
        key_cap(code::BACKSPACE, "⌫"@, "⌫"@),
    ]
}

fn symbol_signs() -> (r: Vec<KeyCap>)
    ensures
        caps(r@) == symbol_signs_spec(),
{
    let r: Vec<KeyCap> = vec![
        KeyCap::emoji("€"),
        KeyCap::emoji("£"),
        KeyCap::emoji("₺"),
        KeyCap::emoji("•"),
        KeyCap::emoji("°"),
        KeyCap::emoji("…"),
        KeyCap::emoji("™"),
        KeyCap::emoji("©"),
        KeyCap::emoji("®"),
        KeyCap::key(code::BACKSPACE, "⌫", "⌫"),
    ];
    assert(caps(r@) =~~= symbol_signs_spec());
    r
}

/// Back to letters, emoji, comma, space, dot, enter.
pub open spec fn symbol_control_spec() -> Seq<KeyCapView> {
    seq![
        act_cap(Action::Letters, "ABC"@, 150),
        act_cap(Action::Goto(LayoutId::Emoji), "☺"@, 100),
        key_cap(code::COMMA, ","@, ";"@),
        wide_cap(key_cap(code::SPACE, " "@, " "@), 500),
        key_cap(code::DOT, "."@, ":"@),
        key_cap(code::ENTER, "↵"@, "↵"@),
    ]
}

fn symbol_control() -> (r: Vec<KeyCap>)
    ensures
        caps(r@) == symbol_control_spec(),
{
    let r: Vec<KeyCap> = vec![
        KeyCap::act(Action::Letters, "ABC", 150),
        KeyCap::act(Action::Goto(LayoutId::Emoji), "☺", 100),
        KeyCap::key(code::COMMA, ",", ";"),
        KeyCap::key(code::SPACE, " ", " ").wide(500),
        KeyCap::key(code::DOT, ".", ":"),
        KeyCap::key(code::ENTER, "↵", "↵"),
    ];
    assert(caps(r@) =~~= symbol_control_spec());
    r
}

/// 1 2 3
pub open spec fn numeric_123_spec() -> Seq<KeyCapView> {
    seq![
        key_cap(code::KP1, "1"@, "1"@),
        key_cap(code::KP2, "2"@, "2"@),
        key_cap(code::KP3, "3"@, "3"@),
    ]
}

fn numeric_123() -> (r: Vec<KeyCap>)
    ensures
        caps(r@) == numeric_123_spec(),
{
    let r: Vec<KeyCap> = vec![
        KeyCap::key(code::KP1, "1", "1"),
        KeyCap::key(code::KP2, "2", "2"),
        KeyCap::key(code::KP3, "3", "3"),
    ];
    assert(caps(r@) =~~= numeric_123_spec());
    r
}

/// 4 5 6
pub open spec fn numeric_456_spec() -> Seq<KeyCapView> {
    seq![
        key_cap(code::KP4, "4"@, "4"@),
        key_cap(code::KP5, "5"@, "5"@),
        key_cap(code::KP6, "6"@, "6"@),
    ]
}

fn numeric_456() -> (r: Vec<KeyCap>)
    ensures
        caps(r@) == numeric_456_spec(),
{
    let r: Vec<KeyCap> = vec![
        KeyCap::key(code::KP4, "4", "4"),
        KeyCap::key(code::KP5, "5", "5"),
        KeyCap::key(code::KP6, "6", "6"),
    ];
    assert(caps(r@) =~~= numeric_456_spec());
    r
}

/// 7 8 9
pub open spec fn numeric_789_spec() -> Seq<KeyCapView> {
    seq![
        key_cap(code::KP7, "7"@, "7"@),
        key_cap(code::KP8, "8"@, "8"@),
        key_cap(code::KP9, "9"@, "9"@),
    ]
}

fn numeric_789() -> (r: Vec<KeyCap>)
    ensures
        caps(r@) == numeric_789_spec(),
{
    let r: Vec<KeyCap> = vec![
        KeyCap::key(code::KP7, "7", "7"),
        KeyCap::key(code::KP8, "8", "8"),
        KeyCap::key(code::KP9, "9", "9"),
    ];
    assert(caps(r@) =~~= numeric_789_spec());
    r
}

/// Dot, 0, backspace.
pub open spec fn numeric_0_spec() -> Seq<KeyCapView> {
    seq![
        key_cap(code::KPDOT, "."@, "."@),
        key_cap(code::KP0, "0"@, "0"@),
        key_cap(code::BACKSPACE, "⌫"@, "⌫"@),
    ]
}

fn numeric_0() -> (r: Vec<KeyCap>)
    ensures
        caps(r@) == numeric_0_spec(),
{
    let r: Vec<KeyCap> = vec![
        KeyCap::key(code::KPDOT, ".", "."),
        KeyCap::key(code::KP0, "0", "0"),
        KeyCap::key(code::BACKSPACE, "⌫", "⌫"),
    ];
    assert(caps(r@) =~~= numeric_0_spec());
    r
}

/// Back to letters, minus, plus.
pub open spec fn numeric_signs_spec() -> Seq<KeyCapView> {
    seq![
        act_cap(Action::Letters, "ABC"@, 100),
        key_cap(code::KPMINUS, "−"@, "−"@),
        key_cap(code::KPPLUS, "+"@, "+"@),
    ]
}

fn numeric_signs() -> (r: Vec<KeyCap>)
    ensures
        caps(r@) == numeric_signs_spec(),
{
    let r: Vec<KeyCap> = vec![
        KeyCap::act(Action::Letters, "ABC", 100),
        KeyCap::key(code::KPMINUS, "−", "−"),
        KeyCap::key(code::KPPLUS, "+", "+"),
    ];
    assert(caps(r@) =~~= numeric_signs_spec());
    r
}

/// Enter, across the whole width.
pub open spec fn numeric_enter_spec() -> Seq<KeyCapView> {
    seq![
        wide_cap(key_cap(code::KPENTER, "↵"@, "↵"@), 300),
    ]
}

fn numeric_enter() -> (r: Vec<KeyCap>)
    ensures
        caps(r@) == numeric_enter_spec(),
{
    let r: Vec<KeyCap> = vec![
        KeyCap::key(code::KPENTER, "↵", "↵").wide(300),
    ];
    assert(caps(r@) =~~= numeric_enter_spec());
    r
}

/// Smiling faces.
pub open spec fn emoji_smiles_spec() -> Seq<KeyCapView> {
    seq![
        emoji_cap("😀"@),
        emoji_cap("😃"@),
        emoji_cap("😄"@),
        emoji_cap("😁"@),
        emoji_cap("😆"@),
        emoji_cap("😅"@),
        emoji_cap("😂"@),
        emoji_cap("🙂"@),
    ]
}

fn emoji_smiles() -> (r: Vec<KeyCap>)
    ensures
        caps(r@) == emoji_smiles_spec(),
{
    let r: Vec<KeyCap> = vec![
        KeyCap::emoji("😀"),
        KeyCap::emoji("😃"),
        KeyCap::emoji("😄"),
        KeyCap::emoji("😁"),
        KeyCap::emoji("😆"),
        KeyCap::emoji("😅"),
        KeyCap::emoji("😂"),
        KeyCap::emoji("🙂"),
    ];
    assert(caps(r@) =~~= emoji_smiles_spec());
    r
}

/// More faces.
pub open spec fn emoji_moods_spec() -> Seq<KeyCapView> {
    seq![
        emoji_cap("😉"@),
        emoji_cap("😊"@),
        emoji_cap("😍"@),
        emoji_cap("😘"@),
        emoji_cap("😎"@),
        emoji_cap("🤔"@),
        emoji_cap("😴"@),
        emoji_cap("😢"@),
    ]
}

fn emoji_moods() -> (r: Vec<KeyCap>)
    ensures
        caps(r@) == emoji_moods_spec(),
{
    let r: Vec<KeyCap> = vec![
        KeyCap::emoji("😉"),
        KeyCap::emoji("😊"),
        KeyCap::emoji("😍"),
        KeyCap::emoji("😘"),
        KeyCap::emoji("😎"),
        KeyCap::emoji("🤔"),
        KeyCap::emoji("😴"),
        KeyCap::emoji("😢"),
    ];
    assert(caps(r@) =~~= emoji_moods_spec());
    r
}

/// Hands and celebrations.
pub open spec fn emoji_hands_spec() -> Seq<KeyCapView> {
    seq![
        emoji_cap("😡"@),
        emoji_cap("👍"@),
        emoji_cap("👎"@),
        emoji_cap("🙏"@),
        emoji_cap("👏"@),
        emoji_cap("🔥"@),
        emoji_cap("🎉"@),
        emoji_cap("💯"@),
    ]
}

fn emoji_hands() -> (r: Vec<KeyCap>)
    ensures
        caps(r@) == emoji_hands_spec(),
{
    let r: Vec<KeyCap> = vec![
        KeyCap::emoji("😡"),
        KeyCap::emoji("👍"),
        KeyCap::emoji("👎"),
        KeyCap::emoji("🙏"),
        KeyCap::emoji("👏"),
        KeyCap::emoji("🔥"),
        KeyCap::emoji("🎉"),
        KeyCap::emoji("💯"),
    ];
    assert(caps(r@) =~~= emoji_hands_spec());
    r
}

/// Skin tones and joined sequences.
pub open spec fn emoji_people_spec() -> Seq<KeyCapView> {
    seq![
        emoji_cap("👍🏻"@),
        emoji_cap("👍🏽"@),
        emoji_cap("👍🏿"@),
        emoji_cap("👋🏽"@),
        emoji_cap("👨‍👩‍👧"@),
        emoji_cap("👩‍💻"@),
        emoji_cap("👨‍🚀"@),
        emoji_cap("❤"@),
    ]
}

fn emoji_people() -> (r: Vec<KeyCap>)
    ensures
        caps(r@) == emoji_people_spec(),
{
    let r: Vec<KeyCap> = vec![
        KeyCap::emoji("👍🏻"),
        KeyCap::emoji("👍🏽"),
        KeyCap::emoji("👍🏿"),
        KeyCap::emoji("👋🏽"),
        KeyCap::emoji("👨‍👩‍👧"),
        KeyCap::emoji("👩‍💻"),
        KeyCap::emoji("👨‍🚀"),
        KeyCap::emoji("❤"),
    ];
    assert(caps(r@) =~~= emoji_people_spec());
    r
}

/// Flags (regional-indicator pairs).
pub open spec fn emoji_flags_spec() -> Seq<KeyCapView> {
    seq![
        emoji_cap("🇹🇷"@),
        emoji_cap("🇺🇸"@),
        emoji_cap("🇬🇧"@),
        emoji_cap("🇩🇪"@),
        emoji_cap("🇫🇷"@),
        emoji_cap("🇪🇸"@),
        emoji_cap("🇮🇹"@),
        emoji_cap("🇯🇵"@),
    ]
}

fn emoji_flags() -> (r: Vec<KeyCap>)
    ensures
        caps(r@) == emoji_flags_spec(),
{
    let r: Vec<KeyCap> = vec![
        KeyCap::emoji("🇹🇷"),
        KeyCap::emoji("🇺🇸"),
        KeyCap::emoji("🇬🇧"),
        KeyCap::emoji("🇩🇪"),
        KeyCap::emoji("🇫🇷"),
        KeyCap::emoji("🇪🇸"),
        KeyCap::emoji("🇮🇹"),
        KeyCap::emoji("🇯🇵"),
    ];
    assert(caps(r@) =~~= emoji_flags_spec());
    r
}

/// Back to letters, space, backspace, enter.
pub open spec fn emoji_control_spec() -> Seq<KeyCapView> {
    seq![
        act_cap(Action::Letters, "ABC"@, 200),
        wide_cap(key_cap(code::SPACE, " "@, " "@), 400),
        key_cap(code::BACKSPACE, "⌫"@, "⌫"@),
        key_cap(code::ENTER, "↵"@, "↵"@),
    ]
}

fn emoji_control() -> (r: Vec<KeyCap>)
    ensures
        caps(r@) == emoji_control_spec(),
{
    let r: Vec<KeyCap> = vec![
        KeyCap::act(Action::Letters, "ABC", 200),
        KeyCap::key(code::SPACE, " ", " ").wide(400),
        KeyCap::key(code::BACKSPACE, "⌫", "⌫"),
        KeyCap::key(code::ENTER, "↵", "↵"),
    ];
    assert(caps(r@) =~~= emoji_control_spec());
    r
}

/// English (US) QWERTY.
pub open spec fn english_rows() -> Seq<Seq<KeyCapView>> {
    seq![
        row_digits_spec(),
        english_top_spec(),
        english_home_spec(),
        english_low_spec(),
        row_alt_ctrl_spec(),
        row_bottom_spec(Action::Goto(LayoutId::Symbols), 500),
    ]
}

fn page_english() -> (r: Page)
    ensures
        r@ == (PageView { id: LayoutId::English, rows: english_rows() }),
{
    let rows: Vec<Vec<KeyCap>> = vec![
        row_digits(),
        english_top(),
        english_home(),
        english_low(),
        row_alt_ctrl(),
        row_bottom(Action::Goto(LayoutId::Symbols), 500),
    ];
    assert(rows_view(rows@) =~= english_rows());
    Page { id: LayoutId::English, rows }
}

/// Turkish F-keyboard: the labels are what xkb `tr(f)` produces at each position.
pub open spec fn turkish_rows() -> Seq<Seq<KeyCapView>> {
    seq![
        turkish_digits_spec(),
        turkish_top_spec(),
        turkish_home_spec(),
        turkish_low_spec(),
        turkish_control_spec(),
    ]
}

fn page_turkish() -> (r: Page)
    ensures
        r@ == (PageView { id: LayoutId::Turkish, rows: turkish_rows() }),
{
    let rows: Vec<Vec<KeyCap>> = vec![
        turkish_digits(),
        turkish_top(),
        turkish_home(),
        turkish_low(),
        turkish_control(),
    ];
    assert(rows_view(rows@) =~= turkish_rows());
    Page { id: LayoutId::Turkish, rows }
}

/// `?123`: digits, punctuation and signs.
pub open spec fn symbols_rows() -> Seq<Seq<KeyCapView>> {
    seq![
        row_digits_spec(),
        symbol_marks_spec(),
        symbol_signs_spec(),
        row_alt_ctrl_spec(),
        symbol_control_spec(),
    ]
}

fn page_symbols() -> (r: Page)
    ensures
        r@ == (PageView { id: LayoutId::Symbols, rows: symbols_rows() }),
{
    let rows: Vec<Vec<KeyCap>> = vec![
        row_digits(),
        symbol_marks(),
        symbol_signs(),
        row_alt_ctrl(),
        symbol_control(),
    ];
    assert(rows_view(rows@) =~= symbols_rows());
    Page { id: LayoutId::Symbols, rows }
}

/// Telephone-style 3-column keypad; wide keys give big touch targets.
pub open spec fn numeric_rows() -> Seq<Seq<KeyCapView>> {
    seq![
        numeric_123_spec(),
        numeric_456_spec(),
        numeric_789_spec(),
        numeric_0_spec(),
        numeric_signs_spec(),
        numeric_enter_spec(),
    ]
}

fn page_numeric() -> (r: Page)
    ensures
        r@ == (PageView { id: LayoutId::Numeric, rows: numeric_rows() }),
{
    let rows: Vec<Vec<KeyCap>> = vec![
        numeric_123(),
        numeric_456(),
        numeric_789(),
        numeric_0(),
        numeric_signs(),
        numeric_enter(),
    ];
    assert(rows_view(rows@) =~= numeric_rows());
    Page { id: LayoutId::Numeric, rows }
}

/// Colour emoji, committed as they are.
pub open spec fn emoji_rows() -> Seq<Seq<KeyCapView>> {
    seq![
        emoji_smiles_spec(),
        emoji_moods_spec(),
        emoji_hands_spec(),
        emoji_people_spec(),
        emoji_flags_spec(),
        emoji_control_spec(),
    ]
}

fn page_emoji() -> (r: Page)
    ensures
        r@ == (PageView { id: LayoutId::Emoji, rows: emoji_rows() }),
{
    let rows: Vec<Vec<KeyCap>> = vec![
        emoji_smiles(),
        emoji_moods(),
        emoji_hands(),
        emoji_people(),
        emoji_flags(),
        emoji_control(),
    ];
    assert(rows_view(rows@) =~= emoji_rows());
    Page { id: LayoutId::Emoji, rows }
}

/// The page of a layout. Chinese is typed on the English keys.
pub open spec fn page_spec(id: LayoutId) -> PageView {
    PageView {
        id,
        rows: match id {
            LayoutId::English => english_rows(),
            LayoutId::Chinese => english_rows(),
            LayoutId::Turkish => turkish_rows(),
            LayoutId::Symbols => symbols_rows(),
            LayoutId::Numeric => numeric_rows(),
            LayoutId::Emoji => emoji_rows(),
        },
    }
}

fn page_english_as(id: LayoutId) -> (r: Page)
    ensures
        r@ == (PageView { id, rows: english_rows() }),
{
    let mut p: Page = page_english();
    p.id = id;
    p
}

/// Build the page for a given id.
pub fn page_for(id: LayoutId) -> (r: Page)
    ensures
        r@ == page_spec(id),
{
    match id {
        LayoutId::English => page_english_as(id),
        LayoutId::Chinese => page_english_as(id),
        LayoutId::Turkish => page_turkish(),
        LayoutId::Symbols => page_symbols(),
        LayoutId::Numeric => page_numeric(),
        LayoutId::Emoji => page_emoji(),
    }
}

// ---------------------------------------------------------------------------
// Laws
// ---------------------------------------------------------------------------

/// Whether a key with a Latin letter on it shows that letter's capital under
/// Shift: the one 32 places before it. In Turkish the dotted i keeps its dot and
/// the dotless one gets the plain capital.
pub open spec fn capital_under_shift(k: KeyCapView, turkish: bool) -> bool {
    k.label.len() == 1 && 'a' <= k.label[0] <= 'z' ==> {
        &&& k.shift_label is Some
        &&& k.shift_label->0.len() == 1
        &&& if turkish && k.label[0] == 'i' {
            k.shift_label->0[0] == 'İ'
        } else {
            k.shift_label->0[0] as int == k.label[0] as int - 32
        }
    }
}

#[verifier::rlimit(30)]
proof fn lemma_row_digits_capitals()
    ensures
        forall|c: int|
            0 <= c < row_digits_spec().len() ==> capital_under_shift(
                #[trigger] row_digits_spec()[c],
                false,
            ),
{
    reveal_strlit("1");
    reveal_strlit("!");
    reveal_strlit("2");
    reveal_strlit("@");
    reveal_strlit("3");
    reveal_strlit("#");
    reveal_strlit("4");
    reveal_strlit("$");
    reveal_strlit("5");
    reveal_strlit("%");
    reveal_strlit("6");
    reveal_strlit("^");
    reveal_strlit("7");
    reveal_strlit("&");
    reveal_strlit("8");
    reveal_strlit("*");
    reveal_strlit("9");
    reveal_strlit("(");
    reveal_strlit("0");
    reveal_strlit(")");
}

#[verifier::rlimit(30)]
proof fn lemma_english_top_capitals()
    ensures
        forall|c: int|
            0 <= c < english_top_spec().len() ==> capital_under_shift(
                #[trigger] english_top_spec()[c],
                false,
            ),
{
    reveal_strlit("q");
    reveal_strlit("Q");
    reveal_strlit("w");
    reveal_strlit("W");
    reveal_strlit("e");
    reveal_strlit("E");
    reveal_strlit("r");
    reveal_strlit("R");
    reveal_strlit("t");
    reveal_strlit("T");
    reveal_strlit("y");
    reveal_strlit("Y");
    reveal_strlit("u");
    reveal_strlit("U");
    reveal_strlit("i");
    reveal_strlit("I");
    reveal_strlit("o");
    reveal_strlit("O");
    reveal_strlit("p");
    reveal_strlit("P");
}

#[verifier::rlimit(30)]
proof fn lemma_english_home_capitals()
    ensures
        forall|c: int|
            0 <= c < english_home_spec().len() ==> capital_under_shift(
                #[trigger] english_home_spec()[c],
                false,
            ),
{
    reveal_strlit("a");
    reveal_strlit("A");
    reveal_strlit("s");
    reveal_strlit("S");
    reveal_strlit("d");
    reveal_strlit("D");
    reveal_strlit("f");
    reveal_strlit("F");
    reveal_strlit("g");
    reveal_strlit("G");
    reveal_strlit("h");
    reveal_strlit("H");
    reveal_strlit("j");
    reveal_strlit("J");
    reveal_strlit("k");
    reveal_strlit("K");
    reveal_strlit("l");
    reveal_strlit("L");
}

#[verifier::rlimit(30)]
proof fn lemma_english_low_capitals()
    ensures
        forall|c: int|
            0 <= c < english_low_spec().len() ==> capital_under_shift(
                #[trigger] english_low_spec()[c],
                false,
            ),
{
    reveal_strlit("⇧");
    reveal_strlit("z");
    reveal_strlit("Z");
    reveal_strlit("x");
    reveal_strlit("X");
    reveal_strlit("c");
    reveal_strlit("C");
    reveal_strlit("v");
    reveal_strlit("V");
    reveal_strlit("b");
    reveal_strlit("B");
    reveal_strlit("n");
    reveal_strlit("N");
    reveal_strlit("m");
    reveal_strlit("M");
    reveal_strlit("⌫");
}

#[verifier::rlimit(30)]
proof fn lemma_row_alt_ctrl_capitals()
    ensures
        forall|c: int|
            0 <= c < row_alt_ctrl_spec().len() ==> capital_under_shift(
                #[trigger] row_alt_ctrl_spec()[c],
                false,
            ),
{
    reveal_strlit("⇥");
    reveal_strlit("Ctrl");
    reveal_strlit("Alt");
    reveal_strlit("AltGr");
    reveal_strlit("←");
    reveal_strlit("↑");
    reveal_strlit("↓");
    reveal_strlit("→");
    reveal_strlit("Copy");
    reveal_strlit("Paste");
    reveal_strlit("❐");
}

#[verifier::rlimit(30)]
proof fn lemma_row_bottom_capitals(switch: Action, space_w: int)
    ensures
        forall|c: int|
            0 <= c < row_bottom_spec(switch, space_w).len() ==> capital_under_shift(
                #[trigger] row_bottom_spec(switch, space_w)[c],
                false,
            ),
{
    reveal_strlit("?123");
    reveal_strlit("☺");
    reveal_strlit(",");
    reveal_strlit(";");
    reveal_strlit("EN");
    reveal_strlit(" ");
    reveal_strlit(".");
    reveal_strlit(":");
    reveal_strlit("↵ Enter");
}

#[verifier::rlimit(30)]
proof fn lemma_turkish_digits_capitals()
    ensures
        forall|c: int|
            0 <= c < turkish_digits_spec().len() ==> capital_under_shift(
                #[trigger] turkish_digits_spec()[c],
                true,
            ),
{
    reveal_strlit("+");
    reveal_strlit("*");
    reveal_strlit("1");
    reveal_strlit("!");
    reveal_strlit("2");
    reveal_strlit("\"");
    reveal_strlit("3");
    reveal_strlit("^");
    reveal_strlit("4");
    reveal_strlit("$");
    reveal_strlit("5");
    reveal_strlit("%");
    reveal_strlit("6");
    reveal_strlit("&");
    reveal_strlit("7");
    reveal_strlit("'");
    reveal_strlit("8");
    reveal_strlit("(");
    reveal_strlit("9");
    reveal_strlit(")");
    reveal_strlit("0");
    reveal_strlit("=");
    reveal_strlit("/");
    reveal_strlit("?");
    reveal_strlit("-");
    reveal_strlit("_");
    reveal_strlit("⌫");
    reveal_strlit("⌦");
}

#[verifier::rlimit(30)]
proof fn lemma_turkish_top_capitals()
    ensures
        forall|c: int|
            0 <= c < turkish_top_spec().len() ==> capital_under_shift(
                #[trigger] turkish_top_spec()[c],
                true,
            ),
{
    reveal_strlit("↹");
    reveal_strlit("f");
    reveal_strlit("F");
    reveal_strlit("g");
    reveal_strlit("G");
    reveal_strlit("ğ");
    reveal_strlit("Ğ");
    reveal_strlit("ı");
    reveal_strlit("I");
    reveal_strlit("o");
    reveal_strlit("O");
    reveal_strlit("d");
    reveal_strlit("D");
    reveal_strlit("r");
    reveal_strlit("R");
    reveal_strlit("n");
    reveal_strlit("N");
    reveal_strlit("h");
    reveal_strlit("H");
    reveal_strlit("p");
    reveal_strlit("P");
    reveal_strlit("q");
    reveal_strlit("Q");
    reveal_strlit("w");
    reveal_strlit("W");
    reveal_strlit("↵ Giriş");
}

#[verifier::rlimit(30)]
proof fn lemma_turkish_home_capitals()
    ensures
        forall|c: int|
            0 <= c < turkish_home_spec().len() ==> capital_under_shift(
                #[trigger] turkish_home_spec()[c],
                true,
            ),
{
    reveal_strlit("⇧");
    reveal_strlit("u");
    reveal_strlit("U");
    reveal_strlit("i");
    reveal_strlit("İ");
    reveal_strlit("e");
    reveal_strlit("E");
    reveal_strlit("a");
    reveal_strlit("A");
    reveal_strlit("ü");
    reveal_strlit("Ü");
    reveal_strlit("t");
    reveal_strlit("T");
    reveal_strlit("k");
    reveal_strlit("K");
    reveal_strlit("m");
    reveal_strlit("M");
    reveal_strlit("l");
    reveal_strlit("L");
    reveal_strlit("y");
    reveal_strlit("Y");
    reveal_strlit("ş");
    reveal_strlit("Ş");
    reveal_strlit("x");
    reveal_strlit("X");
    reveal_strlit("Abc");
}

#[verifier::rlimit(30)]
proof fn lemma_turkish_low_capitals()
    ensures
        forall|c: int|
            0 <= c < turkish_low_spec().len() ==> capital_under_shift(
                #[trigger] turkish_low_spec()[c],
                true,
            ),
{
    reveal_strlit("⇧");
    reveal_strlit("<");
    reveal_strlit(">");
    reveal_strlit("j");
    reveal_strlit("J");
    reveal_strlit("ö");
    reveal_strlit("Ö");
    reveal_strlit("v");
    reveal_strlit("V");
    reveal_strlit("c");
    reveal_strlit("C");
    reveal_strlit("ç");
    reveal_strlit("Ç");
    reveal_strlit("z");
    reveal_strlit("Z");
    reveal_strlit("s");
    reveal_strlit("S");
    reveal_strlit("b");
    reveal_strlit("B");
    reveal_strlit(".");
    reveal_strlit(":");
    reveal_strlit(",");
    reveal_strlit(";");
    reveal_strlit("123");
}

#[verifier::rlimit(30)]
proof fn lemma_turkish_control_capitals()
    ensures
        forall|c: int|
            0 <= c < turkish_control_spec().len() ==> capital_under_shift(
                #[trigger] turkish_control_spec()[c],
                true,
            ),
{
    reveal_strlit("Ctrl");
    reveal_strlit("Win");
    reveal_strlit("Alt");
    reveal_strlit("TR");
    reveal_strlit(" ");
    reveal_strlit("AltGr");
    reveal_strlit("←");
    reveal_strlit("→");
    reveal_strlit("↑");
    reveal_strlit("↓");
    reveal_strlit("❐");
    reveal_strlit("☰");
}

/// On every page of letters, each key with a Latin letter shows its capital under
/// Shift.
#[verifier::rlimit(30)]
pub proof fn law_shift_shows_capitals(id: LayoutId, r: int, c: int)
    requires
        alpha(id),
        0 <= r < page_spec(id).rows.len(),
        0 <= c < page_spec(id).rows[r].len(),
    ensures
        capital_under_shift(page_spec(id).rows[r][c], id == LayoutId::Turkish),
{
    lemma_row_digits_capitals();
    lemma_english_top_capitals();
    lemma_english_home_capitals();
    lemma_english_low_capitals();
    lemma_row_alt_ctrl_capitals();
    lemma_row_bottom_capitals(Action::Goto(LayoutId::Symbols), 500);
    lemma_turkish_digits_capitals();
    lemma_turkish_top_capitals();
    lemma_turkish_home_capitals();
    lemma_turkish_low_capitals();
    lemma_turkish_control_capitals();
}

#[verifier::rlimit(30)]
proof fn lemma_turkish_digits_dotless()
    ensures
        forall|c: int|
            0 <= c < turkish_digits_spec().len() && (#[trigger] turkish_digits_spec()[c]).label == seq!['ı'] ==> turkish_digits_spec()[c].shift_label
                == Some(seq!['I']),
{
    reveal_strlit("+");
    reveal_strlit("*");
    reveal_strlit("1");
    reveal_strlit("!");
    reveal_strlit("2");
    reveal_strlit("\"");
    reveal_strlit("3");
    reveal_strlit("^");
    reveal_strlit("4");
    reveal_strlit("$");
    reveal_strlit("5");
    reveal_strlit("%");
    reveal_strlit("6");
    reveal_strlit("&");
    reveal_strlit("7");
    reveal_strlit("'");
    reveal_strlit("8");
    reveal_strlit("(");
    reveal_strlit("9");
    reveal_strlit(")");
    reveal_strlit("0");
    reveal_strlit("=");
    reveal_strlit("/");
    reveal_strlit("?");
    reveal_strlit("-");
    reveal_strlit("_");
    reveal_strlit("⌫");
    reveal_strlit("⌦");
    assert forall|c: int| 0 <= c < turkish_digits_spec().len() && (#[trigger] turkish_digits_spec()[c]).label == seq!['ı'] implies
        turkish_digits_spec()[c].shift_label == Some(seq!['I']) by {
        let l = turkish_digits_spec()[c].label;
        assert(l.len() == 1 && l[0] == 'ı');
    }
}

#[verifier::rlimit(30)]
proof fn lemma_turkish_top_dotless()
    ensures
        forall|c: int|
            0 <= c < turkish_top_spec().len() && (#[trigger] turkish_top_spec()[c]).label == seq!['ı'] ==> turkish_top_spec()[c].shift_label
                == Some(seq!['I']),
{
    reveal_strlit("↹");
    reveal_strlit("f");
    reveal_strlit("F");
    reveal_strlit("g");
    reveal_strlit("G");
    reveal_strlit("ğ");
    reveal_strlit("Ğ");
    reveal_strlit("ı");
    reveal_strlit("I");
    reveal_strlit("o");
    reveal_strlit("O");
    reveal_strlit("d");
    reveal_strlit("D");
    reveal_strlit("r");
    reveal_strlit("R");
    reveal_strlit("n");
    reveal_strlit("N");
    reveal_strlit("h");
    reveal_strlit("H");
    reveal_strlit("p");
    reveal_strlit("P");
    reveal_strlit("q");
    reveal_strlit("Q");
    reveal_strlit("w");
    reveal_strlit("W");
    reveal_strlit("↵ Giriş");
    assert("I"@ =~= seq!['I']);
    assert forall|c: int| 0 <= c < turkish_top_spec().len() && (#[trigger] turkish_top_spec()[c]).label == seq!['ı'] implies
        turkish_top_spec()[c].shift_label == Some(seq!['I']) by {
        let l = turkish_top_spec()[c].label;
        assert(l.len() == 1 && l[0] == 'ı');
    }
}

#[verifier::rlimit(30)]
proof fn lemma_turkish_home_dotless()
    ensures
        forall|c: int|
            0 <= c < turkish_home_spec().len() && (#[trigger] turkish_home_spec()[c]).label == seq!['ı'] ==> turkish_home_spec()[c].shift_label
                == Some(seq!['I']),
{
    reveal_strlit("⇧");
    reveal_strlit("u");
    reveal_strlit("U");
    reveal_strlit("i");
    reveal_strlit("İ");
    reveal_strlit("e");
    reveal_strlit("E");
    reveal_strlit("a");
    reveal_strlit("A");
    reveal_strlit("ü");
    reveal_strlit("Ü");
    reveal_strlit("t");
    reveal_strlit("T");
    reveal_strlit("k");
    reveal_strlit("K");
    reveal_strlit("m");
    reveal_strlit("M");
    reveal_strlit("l");
    reveal_strlit("L");
    reveal_strlit("y");
    reveal_strlit("Y");
    reveal_strlit("ş");
    reveal_strlit("Ş");
    reveal_strlit("x");
    reveal_strlit("X");
    reveal_strlit("Abc");
    assert forall|c: int| 0 <= c < turkish_home_spec().len() && (#[trigger] turkish_home_spec()[c]).label == seq!['ı'] implies
        turkish_home_spec()[c].shift_label == Some(seq!['I']) by {
        let l = turkish_home_spec()[c].label;
        assert(l.len() == 1 && l[0] == 'ı');
    }
}

#[verifier::rlimit(30)]
proof fn lemma_turkish_low_dotless()
    ensures
        forall|c: int|
            0 <= c < turkish_low_spec().len() && (#[trigger] turkish_low_spec()[c]).label == seq!['ı'] ==> turkish_low_spec()[c].shift_label
                == Some(seq!['I']),
{
    reveal_strlit("⇧");
    reveal_strlit("<");
    reveal_strlit(">");
    reveal_strlit("j");
    reveal_strlit("J");
    reveal_strlit("ö");
    reveal_strlit("Ö");
    reveal_strlit("v");
    reveal_strlit("V");
    reveal_strlit("c");
    reveal_strlit("C");
    reveal_strlit("ç");
    reveal_strlit("Ç");
    reveal_strlit("z");
    reveal_strlit("Z");
    reveal_strlit("s");
    reveal_strlit("S");
    reveal_strlit("b");
    reveal_strlit("B");
    reveal_strlit(".");
    reveal_strlit(":");
    reveal_strlit(",");
    reveal_strlit(";");
    reveal_strlit("123");
    assert forall|c: int| 0 <= c < turkish_low_spec().len() && (#[trigger] turkish_low_spec()[c]).label == seq!['ı'] implies
        turkish_low_spec()[c].shift_label == Some(seq!['I']) by {
        let l = turkish_low_spec()[c].label;
        assert(l.len() == 1 && l[0] == 'ı');
    }
}

#[verifier::rlimit(30)]
proof fn lemma_turkish_control_dotless()
    ensures
        forall|c: int|
            0 <= c < turkish_control_spec().len() && (#[trigger] turkish_control_spec()[c]).label == seq!['ı'] ==> turkish_control_spec()[c].shift_label
                == Some(seq!['I']),
{
    reveal_strlit("Ctrl");
    reveal_strlit("Win");
    reveal_strlit("Alt");
    reveal_strlit("TR");
    reveal_strlit(" ");
    reveal_strlit("AltGr");
    reveal_strlit("←");
    reveal_strlit("→");
    reveal_strlit("↑");
    reveal_strlit("↓");
    reveal_strlit("❐");
    reveal_strlit("☰");
    assert forall|c: int| 0 <= c < turkish_control_spec().len() && (#[trigger] turkish_control_spec()[c]).label == seq!['ı'] implies
        turkish_control_spec()[c].shift_label == Some(seq!['I']) by {
        let l = turkish_control_spec()[c].label;
        assert(l.len() == 1 && l[0] == 'ı');
    }
}

/// The dotless i of the Turkish page has the plain capital under Shift, the one
/// letter whose capital is a Latin one though it is none itself.
pub proof fn law_dotless_i(r: int, c: int)
    requires
        0 <= r < page_spec(LayoutId::Turkish).rows.len(),
        0 <= c < page_spec(LayoutId::Turkish).rows[r].len(),
        page_spec(LayoutId::Turkish).rows[r][c].label == seq!['ı'],
    ensures
        page_spec(LayoutId::Turkish).rows[r][c].shift_label == Some(seq!['I']),
{
    lemma_turkish_digits_dotless();
    lemma_turkish_top_dotless();
    lemma_turkish_home_dotless();
    lemma_turkish_low_dotless();
    lemma_turkish_control_dotless();
}

/// The letter rows of the English page follow the physical keyboard: the key codes
/// count up along each row, and the letters are those of a QWERTY keyboard.
#[verifier::rlimit(30)]
pub proof fn law_english_is_qwerty(c: int)
    ensures
        0 <= c < 10 ==> english_rows()[1][c].kind == KeyKindView::Key((16 + c) as u32)
            && english_rows()[1][c].label == seq!["qwertyuiop"@[c]],
        0 <= c < 9 ==> english_rows()[2][c].kind == KeyKindView::Key((30 + c) as u32)
            && english_rows()[2][c].label == seq!["asdfghjkl"@[c]],
        0 <= c < 7 ==> english_rows()[3][c + 1].kind == KeyKindView::Key((44 + c) as u32)
            && english_rows()[3][c + 1].label == seq!["zxcvbnm"@[c]],
        page_spec(LayoutId::English).rows == english_rows(),
{
    reveal_strlit("qwertyuiop");
    reveal_strlit("asdfghjkl");
    reveal_strlit("zxcvbnm");
    reveal_strlit("q");
    reveal_strlit("w");
    reveal_strlit("e");
    reveal_strlit("r");
    reveal_strlit("t");
    reveal_strlit("y");
    reveal_strlit("u");
    reveal_strlit("i");
    reveal_strlit("o");
    reveal_strlit("p");
    reveal_strlit("a");
    reveal_strlit("s");
    reveal_strlit("d");
    reveal_strlit("f");
    reveal_strlit("g");
    reveal_strlit("h");
    reveal_strlit("j");
    reveal_strlit("k");
    reveal_strlit("l");
    reveal_strlit("z");
    reveal_strlit("x");
    reveal_strlit("c");
    reveal_strlit("v");
    reveal_strlit("b");
    reveal_strlit("n");
    reveal_strlit("m");
    if 0 <= c < 10 {
        assert(english_rows()[1][c].label =~= seq!["qwertyuiop"@[c]]);
    }
    if 0 <= c < 9 {
        assert(english_rows()[2][c].label =~= seq!["asdfghjkl"@[c]]);
    }
    if 0 <= c < 7 {
        assert(english_rows()[3][c + 1].label =~= seq!["zxcvbnm"@[c]]);
    }
}

} // verus!
