//! The recent-apps carousel.

use bacak_compositor::carousel::{
    card_transform, clamp_overscroll, fling_target, hit_card, index_scroll, selected, spacing,
    CARD_H_FRAC, CARD_W_FRAC,
};
use bacak_compositor::wm::{Rect, PX};

const B: Rect = Rect { x: 0, y: 0, w: 1920 * PX, h: 1080 * PX };

fn sp() -> i64 {
    spacing(B)
}

#[test]
fn selected_rounds_to_nearest_and_clamps() {
    let s = sp();
    assert_eq!(selected(0, 5, s), 0);
    assert_eq!(selected(s * 49 / 100, 5, s), 0);
    assert_eq!(selected(s * 51 / 100, 5, s), 1);
    assert_eq!(selected(s * 99, 5, s), 4); // clamp to last
    assert_eq!(selected(-s * 5, 5, s), 0); // clamp to first
}

#[test]
fn overscroll_rubber_bands_past_ends() {
    let s = sp();
    // Inside the range is identity.
    assert_eq!(clamp_overscroll(s, 5, s), s);
    // Past the start: compressed toward 0.
    assert!(clamp_overscroll(-100 * PX, 5, s) > -100 * PX);
    assert!(clamp_overscroll(-100 * PX, 5, s) < 0);
    // Past the end: compressed.
    let hi = 4 * s;
    assert!(clamp_overscroll(hi + 100 * PX, 5, s) < hi + 100 * PX);
    assert!(clamp_overscroll(hi + 100 * PX, 5, s) > hi);
}

#[test]
fn fling_follows_velocity_direction() {
    let s = sp();
    // Centred on card 2, flung leftward (finger moves left => +index).
    let mid = index_scroll(2, s);
    let left_fling = fling_target(mid, -2000 * PX, 5, s); // negative px/s
    assert!(left_fling > 2, "leftward fling should advance index");
    let right_fling = fling_target(mid, 2000 * PX, 5, s);
    assert!(right_fling < 2, "rightward fling should retreat index");
}

#[test]
fn every_card_has_identical_outer_size() {
    // Uniform frame: size never depends on the card's distance from centre.
    let s = sp();
    let scroll = index_scroll(2, s);
    let centred = card_transform(2, scroll, B);
    let neighbour = card_transform(3, scroll, B);
    let far = card_transform(0, scroll, B);
    for t in [centred, neighbour, far] {
        assert_eq!(t.scale, 256, "no per-card scaling");
        assert_eq!(t.opacity, 256, "no per-card fade");
        assert_eq!(t.rect.w, CARD_W_FRAC * B.w / 100);
        assert_eq!(t.rect.h, CARD_H_FRAC * B.h / 100);
    }
    // The centred card is still nearest (on top), just not bigger.
    assert!(centred.dist < neighbour.dist);
}

#[test]
fn uniform_cards_do_not_overlap() {
    // The step must leave a positive gap between adjacent full-size frames.
    let a = card_transform(0, 0, B);
    let b = card_transform(1, 0, B);
    assert!(b.rect.x > a.rect.x + a.rect.w, "frames must not overlap");
}

#[test]
fn hit_card_picks_centre_when_overlapping() {
    let s = sp();
    // Point at the screen centre lands on the centred card (index 1 here).
    let scroll = index_scroll(1, s);
    assert_eq!(hit_card(960 * PX, 540 * PX, scroll, 3, B), Some(1));
}

#[test]
fn spacing_is_a_card_and_its_gap() {
    // 41 % of 1920 px.
    assert_eq!(sp(), 1920 * 256 * 41 / 100);
    assert_eq!(index_scroll(3, sp()), 3 * sp());
}

#[test]
fn off_the_cards_nothing_is_hit() {
    assert_eq!(hit_card(960 * PX, 10 * PX, 0, 3, B), None);
    assert_eq!(hit_card(960 * PX, 540 * PX, 0, 0, B), None);
}

#[test]
fn three_tenths_of_an_overscroll_are_kept() {
    let s = sp();
    assert_eq!(clamp_overscroll(-300 * PX, 5, s), -90 * PX);
    assert_eq!(clamp_overscroll(4 * s + 300 * PX, 5, s), 4 * s + 90 * PX);
}

#[test]
fn a_point_on_a_card_finds_it() {
    for scroll in [-100 * PX, 0, 333 * PX, index_scroll(3, spacing(B))] {
        for i in 0..5 {
            let r = card_transform(i, scroll, B).rect;
            for (x, y) in [(r.x, r.y), (r.x + r.w - 1, r.y + r.h - 1), (r.x + r.w / 2, r.y + 1)] {
                assert_eq!(hit_card(x, y, scroll, 5, B), Some(i));
            }
        }
    }
}
