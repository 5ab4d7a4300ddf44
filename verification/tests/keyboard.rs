//! The on-screen keyboard's pages, modifiers and presses.

use bacak_compositor::keyboard::code;
use bacak_compositor::keyboard::pages::page_for;
use bacak_compositor::keyboard::{
    action_label, find_key, layout_rects, system_default_layout, Action, KeyAction, KeyKind,
    Keyboard, LayoutId, Modifier, Mods, ShiftState, DOUBLE_TAP_MS,
};
use bacak_compositor::wm::PX;

#[test]
fn every_page_builds_nonempty() {
    for id in [
        LayoutId::English,
        LayoutId::Turkish,
        LayoutId::Chinese,
        LayoutId::Symbols,
        LayoutId::Numeric,
        LayoutId::Emoji,
    ] {
        let p = page_for(id);
        assert!(!p.rows.is_empty(), "{id:?} had no rows");
        assert!(p.rows.iter().all(|r| !r.is_empty()), "{id:?} had empty row");
    }
}

#[test]
fn shift_latches_then_consumes() {
    let mut kb = Keyboard::new(LayoutId::English);
    // find the Shift key (row 3, col 0 on the english page)
    let action = kb.press(3, 0, 100);
    assert_eq!(action, KeyAction::Redraw);
    assert!(kb.mods.shifted(), "single shift tap should latch");
    // Press 'z' (row 3 col 1) → chord carries LEFTSHIFT, then clears.
    let a = kb.press(3, 1, 110);
    match a {
        KeyAction::Chord { mods, code } => {
            assert!(mods.contains(&code::LEFTSHIFT));
            assert_eq!(code, code::Z);
        }
        other => panic!("expected chord, got {other:?}"),
    }
    assert!(!kb.mods.shifted(), "latched shift must clear after one key");
}

#[test]
fn double_tap_shift_locks_caps() {
    let mut kb = Keyboard::new(LayoutId::English);
    kb.press(3, 0, 100); // -> Latched
    kb.press(3, 0, 200); // within 300ms -> Locked
    assert_eq!(kb.mods.shift, ShiftState::Locked);
    // Caps survives a letter.
    let _ = kb.press(3, 1, 300);
    assert!(kb.mods.shifted(), "caps lock must survive a keypress");
    // Tap again -> off.
    kb.press(3, 0, 5000);
    assert_eq!(kb.mods.shift, ShiftState::Off);
}

#[test]
fn double_tap_too_slow_is_not_caps() {
    let mut kb = Keyboard::new(LayoutId::English);
    kb.press(3, 0, 100); // Latched
    kb.press(3, 0, 100 + DOUBLE_TAP_MS + 1); // too slow -> Off
    assert_eq!(kb.mods.shift, ShiftState::Off);
}

#[test]
fn ctrl_c_is_one_shot_chord() {
    let mut kb = Keyboard::new(LayoutId::English);
    // Ctrl lives in the util row (row 4, col 1).
    let a = kb.press(4, 1, 0);
    assert_eq!(a, KeyAction::Redraw);
    assert!(kb.mods.ctrl);
    // 'c' is row 3 col 3.
    let a = kb.press(3, 3, 10);
    match a {
        KeyAction::Chord { mods, code } => {
            assert!(mods.contains(&code::LEFTCTRL));
            assert_eq!(code, code::C);
        }
        other => panic!("expected ctrl chord, got {other:?}"),
    }
    assert!(!kb.mods.ctrl, "ctrl must be one-shot");
}

#[test]
fn emoji_keys_commit_unicode() {
    let mut kb = Keyboard::new(LayoutId::English);
    kb.goto(LayoutId::Emoji);
    let a = kb.press(0, 0, 0);
    match a {
        KeyAction::Commit(s) => assert!(!s.is_empty()),
        other => panic!("emoji should commit, got {other:?}"),
    }
}

#[test]
fn turkish_switch_programs_tr_xkb() {
    let mut kb = Keyboard::new(LayoutId::English);
    let xkb = kb.goto(LayoutId::Turkish);
    assert_eq!(xkb, Some(("tr", "f")));
    assert_eq!(kb.layout_id(), LayoutId::Turkish);
    // Turkish-F top letter row prints the dotless ı.
    let row = &kb.page().rows[1];
    assert!(row.iter().any(|k| k.label == "ı"));
}

#[test]
fn cycle_alpha_round_trips_and_keeps_home() {
    let mut kb = Keyboard::new(LayoutId::English);
    kb.goto(LayoutId::Symbols);
    // ABC from symbols returns to the remembered alpha (English).
    kb.cycle_alpha();
    assert_eq!(kb.layout_id(), LayoutId::Turkish); // English -> Turkish
}

#[test]
fn abc_returns_to_current_language_not_english() {
    // Bug: switching to symbols then back via ABC flipped TR→EN. ABC must
    // return to the *current* language; only the Language key cycles.
    let mut kb = Keyboard::new(LayoutId::Turkish);
    kb.goto(LayoutId::Symbols);
    let page = page_for(LayoutId::Symbols);
    let (ri, ci) = page
        .rows
        .iter()
        .enumerate()
        .find_map(|(ri, row)| {
            row.iter()
                .position(|k| matches!(k.kind, KeyKind::Action(Action::Letters)))
                .map(|ci| (ri, ci))
        })
        .expect("symbols page has an ABC (Letters) key");
    kb.press(ri, ci, 0);
    assert_eq!(
        kb.layout_id(),
        LayoutId::Turkish,
        "ABC must return to Turkish, not flip to English"
    );
    // Same from the numeric page.
    kb.goto(LayoutId::Numeric);
    kb.goto(LayoutId::Turkish); // simulate a no-op; home stays Turkish
    assert_eq!(kb.layout_id(), LayoutId::Turkish);
}

#[test]
fn recents_key_bubbles_to_special() {
    let mut kb = Keyboard::new(LayoutId::Turkish);
    let page = page_for(LayoutId::Turkish);
    let (ri, ci) = page
        .rows
        .iter()
        .enumerate()
        .find_map(|(ri, row)| {
            row.iter()
                .position(|k| matches!(k.kind, KeyKind::Action(Action::Recents)))
                .map(|ci| (ri, ci))
        })
        .expect("Turkish page has a Recents key");
    assert_eq!(kb.press(ri, ci, 0), KeyAction::Special(Action::Recents));
}

#[test]
fn copy_paste_localised_per_language() {
    assert_eq!(action_label(Action::Copy, LayoutId::Turkish), Some("Kopyala"));
    assert_eq!(action_label(Action::Paste, LayoutId::Turkish), Some("Yapıştır"));
    assert_eq!(action_label(Action::Copy, LayoutId::English), Some("Copy"));
    assert_eq!(action_label(Action::Paste, LayoutId::English), Some("Paste"));
    // Non-word actions keep their glyph cap.
    assert_eq!(action_label(Action::Hide, LayoutId::Turkish), None);
    // `language()` tracks the alpha layout across a page switch.
    let mut kb = Keyboard::new(LayoutId::Turkish);
    kb.goto(LayoutId::Symbols);
    assert_eq!(kb.language(), LayoutId::Turkish);
}

#[test]
fn language_key_next_to_space_cycles_alpha() {
    let mut kb = Keyboard::new(LayoutId::Turkish);
    let page = page_for(LayoutId::Turkish);
    // The Language key must exist, in the same row as the space bar.
    let (ri, ci) = page
        .rows
        .iter()
        .enumerate()
        .find_map(|(ri, row)| {
            row.iter()
                .position(|k| matches!(k.kind, KeyKind::Action(Action::Language)))
                .map(|ci| (ri, ci))
        })
        .expect("Turkish page has a Language key");
    let has_space = page.rows[ri]
        .iter()
        .any(|k| matches!(k.kind, KeyKind::Key(code::SPACE)));
    assert!(has_space, "language key isn't on the space-bar row");
    assert_eq!(kb.layout_id(), LayoutId::Turkish);
    kb.press(ri, ci, 0);
    assert_eq!(kb.layout_id(), LayoutId::English, "language key should cycle TR→EN");
}

#[test]
fn turkish_is_f_layout() {
    let p = page_for(LayoutId::Turkish);
    // Top letter row: f g ğ ı o d r n h p q w
    let r1: Vec<&str> = p.rows[1].iter().map(|k| k.label).collect();
    for g in ["f", "g", "ğ", "ı", "o", "d", "r", "n", "h", "p", "q", "w"] {
        assert!(r1.contains(&g), "F top row missing {g}: {r1:?}");
    }
    // Home row: u i e a ü t k m l y ş x
    let r2: Vec<&str> = p.rows[2].iter().map(|k| k.label).collect();
    for g in ["u", "i", "e", "a", "ü", "t", "k", "m", "l", "y", "ş", "x"] {
        assert!(r2.contains(&g), "F home row missing {g}: {r2:?}");
    }
    // Bottom letter row: j ö v c ç z s b
    let r3: Vec<&str> = p.rows[3].iter().map(|k| k.label).collect();
    for g in ["j", "ö", "v", "c", "ç", "z", "s", "b"] {
        assert!(r3.contains(&g), "F bottom row missing {g}: {r3:?}");
    }
    // 'f' must sit on the physical Q position so tr(f) xkb emits it.
    let f = p.rows[1].iter().find(|k| k.label == "f").unwrap();
    assert_eq!(f.kind, KeyKind::Key(code::Q));
}

#[test]
fn layout_rects_cover_panel_without_overlap() {
    let page = page_for(LayoutId::English);
    let rects = layout_rects(&page, (0, 0, 1000 * PX, 320 * PX), 28 * PX, 6 * PX);
    assert!(!rects.is_empty());
    // All rects fall inside the panel.
    for r in &rects {
        assert!(r.x >= 0 && r.x + r.w <= 1000 * PX, "key escapes right edge");
        assert!(r.y >= 28 * PX && r.y + r.h <= 320 * PX, "key escapes vertical bounds");
        assert!(r.w > 0 && r.h > 0);
    }
}

#[test]
fn hit_test_finds_the_pressed_key() {
    let page = page_for(LayoutId::English);
    let rects = layout_rects(&page, (0, 0, 1000 * PX, 320 * PX), 28 * PX, 6 * PX);
    // Pick a key and hit its centre.
    let target = &rects[15];
    let cx = target.x + target.w / 2;
    let cy = target.y + target.h / 2;
    let hit = rects.iter().find(|r| r.contains(cx, cy)).unwrap();
    assert_eq!((hit.row, hit.col), (target.row, target.col));
}

#[test]
fn long_press_exposes_accents() {
    let kb = Keyboard::new(LayoutId::English);
    // 'a' is row 2 col 0 on english; has à á â ä …
    let alts = kb.alternates_at(2, 0);
    assert!(alts.contains(&"à"));
    assert!(alts.contains(&"ä"));
}

#[test]
fn keys_may_be_laid_out_with_an_overlap() {
    let page = page_for(LayoutId::English);
    let n = page.rows[0].len();
    let rects = layout_rects(&page, (0, 0, 1000 * PX, 320 * PX), -4 * PX, -2 * PX);
    assert_eq!((rects[0].x, rects[0].y), (-2 * PX, -6 * PX));
    for i in 1..n {
        assert_eq!(rects[i].x, rects[i - 1].x + rects[i - 1].w - 2 * PX);
    }
    let rows = page.rows.len() as i64;
    assert_eq!(rects[0].h, (324 * PX + 2 * PX * (rows + 1)) / rows);
    assert_eq!(rects[n].y, rects[0].y + rects[0].h - 2 * PX);
}

#[test]
fn keys_of_a_row_do_not_overlap() {
    for id in [LayoutId::English, LayoutId::Turkish, LayoutId::Emoji] {
        let rects = layout_rects(&page_for(id), (10 * PX, 20 * PX, 900 * PX, 300 * PX), 30 * PX, 6 * PX);
        for (i, a) in rects.iter().enumerate() {
            for b in &rects[i + 1..] {
                let apart = a.x + a.w <= b.x || b.x + b.w <= a.x || a.y + a.h <= b.y || b.y + b.h <= a.y;
                assert!(apart, "{a:?} and {b:?}");
            }
        }
    }
}

#[test]
fn a_point_between_keys_hits_none() {
    let rects = layout_rects(&page_for(LayoutId::English), (0, 0, 1000 * PX, 320 * PX), 28 * PX, 6 * PX);
    assert_eq!(find_key(&rects, 0, 0), None);
    let k = rects[0];
    assert_eq!(find_key(&rects, k.x, k.y), Some(k));
    assert_eq!(find_key(&rects, k.x + k.w, k.y), None);
}

#[test]
fn modifiers_hold_for_one_key() {
    let mut kb = Keyboard::new(LayoutId::English);
    let mut mods: Mods = kb.mods();
    mods.toggle(Modifier::Alt, 0);
    mods.toggle(Modifier::AltGr, 0);
    assert_eq!(mods.chord_codes().len(), 2);
    mods.consume_after_key();
    assert!(mods.chord_codes().is_empty());
    mods.tap_shift(1000);
    assert_eq!(mods.shift, ShiftState::Latched);
    assert_eq!(kb.press(99, 0, 0), KeyAction::Redraw);
}

#[test]
fn layouts_name_themselves_and_their_xkb() {
    assert_eq!(LayoutId::Turkish.xkb(), Some(("tr", "f")));
    assert_eq!(LayoutId::Emoji.xkb(), None);
    assert!(LayoutId::English.is_alpha());
    assert!(!LayoutId::Symbols.is_alpha());
    assert_eq!(LayoutId::Turkish.short_label(), "TR");
    assert!(system_default_layout().is_alpha());
}

#[test]
fn pending_xkb_is_taken_once() {
    let mut kb = Keyboard::new(LayoutId::Turkish);
    assert_eq!(kb.take_pending_xkb(), Some(("tr", "f")));
    assert_eq!(kb.take_pending_xkb(), None);
}
