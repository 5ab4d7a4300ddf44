//! Carousel kinematics for the Recent-Apps Overview.
//!
//! The scroll position is the horizontal offset of the centred card from card 0.
//! Every card has the *same* outer size — there is no centre-enlarge or
//! side-shrink; the focused card is marked by a ring only. The step between
//! cards ([`spacing`]) is a card width and a gap, so that full-size frames never
//! overlap.

use vstd::prelude::*;

use crate::keyboard::floor_div;
use crate::wm::{coord, Rect, COORD_LIMIT, PX};

verus! {

/// Card frame width in hundredths of the output width.
pub const CARD_W_FRAC: i64 = 36;

/// Card frame height in hundredths of the output height.
pub const CARD_H_FRAC: i64 = 52;

/// Gap between adjacent card frames in hundredths of the output width.
pub const GAP_FRAC: i64 = 5;

/// Hundredths of a second of release velocity projected forward to pick the snap
/// target.
pub const FLING_CENTISECONDS: i64 = 22;

/// Rubber-band factor, in tenths, for dragging past the first or last card.
pub const OVERSCROLL: i64 = 3;

/// Which axis a single-finger or mouse drag committed to.
#[derive(Debug, Clone, Copy, PartialEq, Eq, Structural)]
pub enum DragAxis {
    Undecided,
    Horizontal,
    Vertical,
}

/// Per-card render geometry derived from the scroll offset. `scale`, `opacity`
/// and `dist` are in 256ths.
#[derive(Debug, Clone, Copy, PartialEq, Eq, Structural)]
pub struct CardT {
    pub rect: Rect,
    pub scale: i64,
    pub opacity: i64,
    /// How many cards from the centre, at most three — 0 at the centre. The
    /// smaller is drawn on top.
    pub dist: i64,
}

pub open spec fn hundredths(v: int, f: int) -> int {
    v * f / 100
}

pub open spec fn spacing_of(bounds: Rect) -> int {
    hundredths(bounds.w as int, CARD_W_FRAC + GAP_FRAC)
}

/// Horizontal distance between adjacent card centres for an output of these
/// `bounds`: one card width and the gap.
pub fn spacing(bounds: Rect) -> (r: i64)
    requires
        coord(bounds.w),
    ensures
        r == spacing_of(bounds),
        -COORD_LIMIT <= r <= COORD_LIMIT,
{
    floor_div(bounds.w * 41, 100)
}

/// The scroll position that centres card `i`.
pub fn index_scroll(i: usize, spacing: i64) -> (r: i64)
    requires
        i64::MIN <= i * spacing <= i64::MAX,
    ensures
        r == i * spacing,
{
    let r: i128 = i as i128 * spacing as i128;
    r as i64
}

/// The card nearest to `num / den`, halves away from zero, within the first and
/// the last of `n`.
pub open spec fn nearest_card(num: int, den: int, n: int) -> int {
    if n <= 0 || den <= 0 || num < 0 {
        0
    } else {
        let q = (2 * num + den) / (2 * den);
        if q > n - 1 {
            n - 1
        } else {
            q
        }
    }
}

fn nearest(num: i128, den: i128, n: usize) -> (r: usize)
    requires
        -0x100_0000_0000_0000_0000_0000 <= num <= 0x100_0000_0000_0000_0000_0000,
        -0x100_0000_0000_0000_0000_0000 <= den <= 0x100_0000_0000_0000_0000_0000,
    ensures
        r == nearest_card(num as int, den as int, n as int),
{
    if n == 0 || den <= 0 || num < 0 {
        return 0;
    }
    let q: i128 = (2 * num + den) / (2 * den);
    assert(0 <= (2 * num + den) / (2 * den)) by (nonlinear_arith)
        requires
            num >= 0,
            den > 0,
    ;
    if q > (n - 1) as i128 {
        n - 1
    } else {
        q as usize
    }
}

/// The card nearest to the current scroll position.
pub fn selected(scroll: i64, n: usize, spacing: i64) -> (r: usize)
    ensures
        r == nearest_card(scroll as int, spacing as int, n as int),
{
    nearest(scroll as i128, spacing as i128, n)
}

/// A raw drag position, rubber-banded past the ends: only three tenths of what
/// is beyond counts.
pub open spec fn banded(raw: int, n: int, spacing: int) -> int {
    let hi = (n - 1) * spacing;
    if n <= 0 {
        0
    } else if raw < 0 {
        -((-raw) * OVERSCROLL / 10)
    } else if raw > hi {
        hi + (raw - hi) * OVERSCROLL / 10
    } else {
        raw
    }
}

/// Clamp a raw drag position, rubber-banding past the ends.
pub fn clamp_overscroll(raw: i64, n: usize, spacing: i64) -> (r: i64)
    requires
        coord(raw),
        n > 0 ==> -COORD_LIMIT <= (n - 1) * spacing <= COORD_LIMIT,
    ensures
        r == banded(raw as int, n as int, spacing as int),
{
    if n == 0 {
        return 0;
    }
    let hi: i64 = index_scroll(n - 1, spacing);
    if raw < 0 {
        -((-raw) * OVERSCROLL / 10)
    } else if raw > hi {
        hi + (raw - hi) * OVERSCROLL / 10
    } else {
        raw
    }
}

/// The card nearest to where a fling would end.
pub open spec fn fling_card(scroll: int, velocity: int, n: int, spacing: int) -> int {
    nearest_card(100 * scroll - FLING_CENTISECONDS * velocity, 100 * spacing, n)
}

/// Snap-target card after a fling: project the release velocity forward and
/// round to the nearest card. `velocity` is that of the finger per second;
/// moving right scrolls toward lower indices.
pub fn fling_target(scroll: i64, velocity: i64, n: usize, spacing: i64) -> (r: usize)
    ensures
        r == nearest_card(
            100 * scroll - FLING_CENTISECONDS * velocity,
            100 * spacing as int,
            n as int,
        ),
        r == fling_card(scroll as int, velocity as int, n as int, spacing as int),
{
    nearest(
        100 * (scroll as i128) - 22 * (velocity as i128),
        100 * (spacing as i128),
        n,
    )
}

pub open spec fn abs(v: int) -> int {
    if v < 0 {
        -v
    } else {
        v
    }
}

/// The geometry of card `i`: only its horizontal position depends on the card
/// and on the scroll.
pub open spec fn card_of(i: int, scroll: int, bounds: Rect) -> CardT {
    let s = spacing_of(bounds);
    let dx = i * s - scroll;
    let w = hundredths(bounds.w as int, CARD_W_FRAC as int);
    let h = hundredths(bounds.h as int, CARD_H_FRAC as int);
    let far = abs(dx) * PX / s;
    CardT {
        rect: Rect {
            x: (bounds.x + bounds.w as int / 2 + dx - w / 2) as i64,
            y: (bounds.y + bounds.h as int / 2 - h / 2) as i64,
            w: w as i64,
            h: h as i64,
        },
        scale: PX,
        opacity: PX,
        dist: if s <= 0 {
            0
        } else if far > 3 * PX {
            (3 * PX) as i64
        } else {
            far as i64
        },
    }
}

/// Render geometry for card `i` given the scroll offset and output bounds.
pub fn card_transform(i: usize, scroll: i64, bounds: Rect) -> (r: CardT)
    requires
        bounds.bounded(),
        coord(scroll),
        -COORD_LIMIT <= i * spacing_of(bounds) <= COORD_LIMIT,
    ensures
        r == card_of(i as int, scroll as int, bounds),
{
    let s: i64 = spacing(bounds);
    let dx: i64 = index_scroll(i, s) - scroll;
    let dist: i64 = if s > 0 {
        let far: i64 = if dx < 0 {
            (-dx) * PX / s
        } else {
            dx * PX / s
        };
        if far > 3 * PX {
            3 * PX
        } else {
            far
        }
    } else {
        0
    };
    let w: i64 = floor_div(bounds.w * CARD_W_FRAC, 100);
    let h: i64 = floor_div(bounds.h * CARD_H_FRAC, 100);
    let cx: i64 = bounds.x + floor_div(bounds.w, 2) + dx;
    let cy: i64 = bounds.y + floor_div(bounds.h, 2);
    CardT {
        rect: Rect::new(cx - floor_div(w, 2), cy - floor_div(h, 2), w, h),
        scale: PX,
        opacity: PX,
        dist,
    }
}

/// The card under the point among the first `n`, the nearest to the centre where
/// several are, the lowest of these.
pub open spec fn card_at(x: int, y: int, scroll: int, n: int, bounds: Rect) -> Option<int>
    decreases n,
{
    if n <= 0 {
        None
    } else {
        let before = card_at(x, y, scroll, n - 1, bounds);
        let t = card_of(n - 1, scroll, bounds);
        if t.rect.holds(x, y) && (before matches Some(b) ==> t.dist < card_of(
            b,
            scroll,
            bounds,
        ).dist) {
            Some(n - 1)
        } else {
            before
        }
    }
}

pub open spec fn opt_index(o: Option<usize>) -> Option<int> {
    match o {
        Some(i) => Some(i as int),
        None => None,
    }
}

/// The topmost card under `(x, y)`, if any — the inverse of [`card_transform`].
/// Nearest-to-centre wins when cards overlap.
pub fn hit_card(x: i64, y: i64, scroll: i64, n: usize, bounds: Rect) -> (r: Option<usize>)
    requires
        bounds.bounded(),
        coord(scroll),
        -COORD_LIMIT <= n * spacing_of(bounds) <= COORD_LIMIT,
    ensures
        opt_index(r) == card_at(x as int, y as int, scroll as int, n as int, bounds),
{
    let mut best: Option<(usize, i64)> = None;
    let mut i: usize = 0;
    while i < n
        invariant
            i <= n,
            bounds.bounded(),
            coord(scroll),
            -COORD_LIMIT <= n * spacing_of(bounds) <= COORD_LIMIT,
            match (best, card_at(x as int, y as int, scroll as int, i as int, bounds)) {
                (Some(b), Some(k)) => b.0 == k && b.1 == card_of(k, scroll as int, bounds).dist,
                (None, None) => true,
                _ => false,
            },
        decreases n - i,
    {
        proof {
            let s = spacing_of(bounds);
            assert(-COORD_LIMIT <= i * s <= COORD_LIMIT) by (nonlinear_arith)
                requires
                    0 <= i < n,
                    -COORD_LIMIT <= n * s <= COORD_LIMIT,
                    COORD_LIMIT > 0,
            ;
        }
        let t: CardT = card_transform(i, scroll, bounds);
        if t.rect.contains(x, y) {
            let nearer: bool = match best {
                Some((_, d)) => t.dist < d,
                None => true,
            };
            if nearer {
                best = Some((i, t.dist));
            }
        }
        i += 1;
    }
    match best {
        Some((i, _)) => Some(i),
        None => None,
    }
}

// ---------------------------------------------------------------------------
// Laws
// ---------------------------------------------------------------------------

/// Every card has the same size, scale and opacity, and the same height on
/// screen.
pub proof fn law_uniform_cards(i: int, j: int, scroll: int, other: int, bounds: Rect)
    ensures
        ({
            let a = card_of(i, scroll, bounds);
            let b = card_of(j, other, bounds);
            &&& a.rect.w == b.rect.w && a.rect.h == b.rect.h && a.rect.y == b.rect.y
            &&& a.scale == PX && b.scale == PX && a.opacity == PX && b.opacity == PX
        }),
{
}

/// Full-size frames leave a gap between them.
pub proof fn law_cards_apart(i: int, j: int, scroll: int, bounds: Rect)
    requires
        bounds.bounded(),
        bounds.w >= PX,
        -COORD_LIMIT <= scroll <= COORD_LIMIT,
        0 <= i < j,
        j * spacing_of(bounds) <= COORD_LIMIT,
    ensures
        ({
            let a = card_of(i, scroll, bounds);
            let b = card_of(j, scroll, bounds);
            b.rect.x > a.rect.x + a.rect.w
        }),
{
    let s = spacing_of(bounds);
    assert(j * s >= i * s + s && 0 <= i * s) by (nonlinear_arith)
        requires
            0 <= i < j,
            s >= 0,
    ;
}

proof fn lemma_card_at(x: int, y: int, scroll: int, i: int, m: int, n: int, bounds: Rect)
    requires
        bounds.bounded(),
        bounds.w >= PX,
        -COORD_LIMIT <= scroll <= COORD_LIMIT,
        0 <= m <= n,
        0 <= i < n,
        n * spacing_of(bounds) <= COORD_LIMIT,
        card_of(i, scroll, bounds).rect.holds(x, y),
    ensures
        card_at(x, y, scroll, m, bounds) == (if m <= i {
            None
        } else {
            Some(i)
        }),
    decreases m,
{
    if m > 0 {
        lemma_card_at(x, y, scroll, i, m - 1, n, bounds);
        let s = spacing_of(bounds);
        assert((m - 1) * s <= n * s && i * s <= n * s) by (nonlinear_arith)
            requires
                m - 1 <= n,
                i <= n,
                s >= 0,
        ;
        if m - 1 < i {
            law_cards_apart(m - 1, i, scroll, bounds);
        } else if i < m - 1 {
            law_cards_apart(i, m - 1, scroll, bounds);
        }
    }
}

/// Hit-testing undoes laying out: a point on a card finds that card, wherever the
/// carousel is scrolled to.
pub proof fn law_hit_is_inverse(x: int, y: int, scroll: int, i: int, n: int, bounds: Rect)
    requires
        bounds.bounded(),
        bounds.w >= PX,
        -COORD_LIMIT <= scroll <= COORD_LIMIT,
        0 <= i < n,
        n * spacing_of(bounds) <= COORD_LIMIT,
        card_of(i, scroll, bounds).rect.holds(x, y),
    ensures
        card_at(x, y, scroll, n, bounds) == Some(i),
{
    lemma_card_at(x, y, scroll, i, n, n, bounds);
}

/// Centring a card selects it, and its distance is zero.
pub proof fn law_centred_is_selected(i: int, n: int, bounds: Rect)
    requires
        0 <= i < n,
        bounds.bounded(),
        bounds.w >= PX,
    ensures
        nearest_card(i * spacing_of(bounds), spacing_of(bounds), n) == i,
        card_of(i, i * spacing_of(bounds), bounds).dist == 0,
{
    let s = spacing_of(bounds);
    assert(s > 0);
    assert(0 <= i * s && (2 * (i * s) + s) / (2 * s) == i) by (nonlinear_arith)
        requires
            0 <= i,
            s > 0,
    ;
    assert(0 * PX as int / s == 0) by (nonlinear_arith)
        requires
            s > 0,
    ;
}

/// Within the ends a drag is taken as it is; past one it is compressed toward
/// it, never beyond the finger.
pub proof fn law_rubber_band(raw: int, n: int, spacing: int)
    requires
        n > 0,
        spacing >= 0,
    ensures
        ({
            let hi = (n - 1) * spacing;
            let r = banded(raw, n, spacing);
            &&& 0 <= raw <= hi ==> r == raw
            &&& raw < 0 ==> raw <= r <= 0
            &&& raw > hi ==> hi <= r <= raw
        }),
{
    assert((n - 1) * spacing >= 0) by (nonlinear_arith)
        requires
            n > 0,
            spacing >= 0,
    ;
}

/// A fling never goes against the finger: moving left never lands on an earlier
/// card than standing still does, moving right never on a later one.
pub proof fn law_fling_direction(scroll: int, velocity: int, n: int, spacing: int)
    requires
        n > 0,
        spacing > 0,
    ensures
        ({
            let still = nearest_card(100 * scroll, 100 * spacing, n);
            let flung = nearest_card(100 * scroll - FLING_CENTISECONDS * velocity, 100 * spacing, n);
            &&& velocity <= 0 ==> flung >= still
            &&& velocity >= 0 ==> flung <= still
        }),
{
    let d = 100 * spacing;
    let a = 100 * scroll;
    let b = 100 * scroll - FLING_CENTISECONDS * velocity;
    lemma_nearest_grows(a, b, d, n);
    lemma_nearest_grows(b, a, d, n);
}

proof fn lemma_nearest_grows(a: int, b: int, d: int, n: int)
    requires
        d > 0,
        n > 0,
    ensures
        a <= b ==> nearest_card(a, d, n) <= nearest_card(b, d, n),
{
    if a <= b && a >= 0 {
        assert((2 * a + d) / (2 * d) <= (2 * b + d) / (2 * d)) by (nonlinear_arith)
            requires
                a <= b,
                d > 0,
        ;
    }
    if b >= 0 {
        assert(0 <= (2 * b + d) / (2 * d)) by (nonlinear_arith)
            requires
                b >= 0,
                d > 0,
        ;
    }
}

/// Cards are 36 hundredths of the output wide and 52 hundredths high, and their centres
/// stand 41 hundredths of its width apart: the gap is 5 hundredths.
pub proof fn law_card_measures(i: int, scroll: int, bounds: Rect)
    requires
        bounds.bounded(),
        bounds.w >= 0,
        bounds.h >= 0,
    ensures
        card_of(i, scroll, bounds).rect.w == bounds.w * 36int / 100,
        card_of(i, scroll, bounds).rect.h == bounds.h * 52int / 100,
        spacing_of(bounds) == bounds.w * 41int / 100,
        card_of(i, scroll, bounds).scale == 256,
        card_of(i, scroll, bounds).opacity == 256,
{
    let w = bounds.w as int;
    let h = bounds.h as int;
    assert(0 <= w * 36 / 100 <= w && 0 <= h * 52 / 100 <= h);
}

/// The centred card has the output's middle, to the unit; each next card stands one
/// spacing to its right, at the same height.
pub proof fn law_cards_in_a_row(i: int, scroll: int, bounds: Rect)
    requires
        bounds.bounded(),
        bounds.w >= 0,
        bounds.h >= 0,
        -COORD_LIMIT <= scroll <= COORD_LIMIT,
        -COORD_LIMIT <= i * spacing_of(bounds) <= COORD_LIMIT,
        -COORD_LIMIT <= (i + 1) * spacing_of(bounds) <= COORD_LIMIT,
    ensures
        card_of(i + 1, scroll, bounds).rect.x - card_of(i, scroll, bounds).rect.x == spacing_of(
            bounds,
        ),
        card_of(i + 1, scroll, bounds).rect.y == card_of(i, scroll, bounds).rect.y,
        ({
            let c = card_of(i, i * spacing_of(bounds), bounds).rect;
            &&& -2 <= 2 * c.x + c.w - (2 * bounds.x + bounds.w) <= 2
            &&& -2 <= 2 * c.y + c.h - (2 * bounds.y + bounds.h) <= 2
        }),
        card_of(i, i * spacing_of(bounds), bounds).dist == 0,
{
    let s = spacing_of(bounds);
    let w = bounds.w as int;
    let h = bounds.h as int;
    assert((i + 1) * s == i * s + s) by (nonlinear_arith);
    assert(0 <= w * 36 / 100 <= w && 0 <= h * 52 / 100 <= h);
    assert(0 <= s <= w);
    let far = 0int * 256 / s;
    if s > 0 {
        assert(0int / s == 0) by (nonlinear_arith)
            requires
                s > 0,
        ;
    }
}

/// Dragging to the left, that is scrolling on, moves every card to the left by as much.
pub proof fn law_scroll_moves_cards(i: int, scroll: int, by: int, bounds: Rect)
    requires
        bounds.bounded(),
        bounds.w >= 0,
        -COORD_LIMIT <= scroll <= COORD_LIMIT,
        -COORD_LIMIT <= scroll + by <= COORD_LIMIT,
        -COORD_LIMIT <= i * spacing_of(bounds) <= COORD_LIMIT,
    ensures
        card_of(i, scroll + by, bounds).rect.x == card_of(i, scroll, bounds).rect.x - by,
        card_of(i, scroll + by, bounds).rect.y == card_of(i, scroll, bounds).rect.y,
{
    let w = bounds.w as int;
    assert(0 <= w * 36 / 100 <= w);
}

/// The nearest card is never further away than half a spacing, except beyond the ends,
/// where it is the first or the last.
pub proof fn law_nearest_card(scroll: int, n: int, spacing: int)
    requires
        n > 0,
        spacing > 0,
    ensures
        0 <= nearest_card(scroll, spacing, n) < n,
        0 <= scroll <= (n - 1) * spacing ==> -spacing <= 2 * (scroll - nearest_card(
            scroll,
            spacing,
            n,
        ) * spacing) <= spacing,
        scroll < 0 ==> nearest_card(scroll, spacing, n) == 0,
        scroll > (n - 1) * spacing ==> nearest_card(scroll, spacing, n) == n - 1,
{
    if scroll >= 0 {
        let q = (2 * scroll + spacing) / (2 * spacing);
        assert(q * (2 * spacing) <= 2 * scroll + spacing < q * (2 * spacing) + 2 * spacing)
            by (nonlinear_arith)
            requires
                q == (2 * scroll + spacing) / (2 * spacing),
                spacing > 0,
        ;
        assert(q * (2 * spacing) == 2 * (q * spacing)) by (nonlinear_arith);
        assert(q >= 0) by (nonlinear_arith)
            requires
                2 * scroll + spacing < q * (2 * spacing) + 2 * spacing,
                scroll >= 0,
                spacing > 0,
        ;
        if q > n - 1 {
            if scroll <= (n - 1) * spacing {
                assert(q == n) by (nonlinear_arith)
                    requires
                        q * (2 * spacing) <= 2 * scroll + spacing,
                        scroll <= (n - 1) * spacing,
                        q > n - 1,
                        spacing > 0,
                ;
                assert(n * spacing == (n - 1) * spacing + spacing) by (nonlinear_arith);
            }
        } else if scroll > (n - 1) * spacing {
            assert(q >= n - 1) by (nonlinear_arith)
                requires
                    2 * scroll + spacing < q * (2 * spacing) + 2 * spacing,
                    scroll > (n - 1) * spacing,
                    spacing > 0,
            ;
        }
    }
}

/// Past an end three tenths of the way count, and alike at both ends.
pub proof fn law_band_is_symmetric(past: int, n: int, spacing: int)
    requires
        past > 0,
        n > 0,
        spacing >= 0,
    ensures
        banded(-past, n, spacing) == -(past * 3 / 10),
        banded((n - 1) * spacing + past, n, spacing) == (n - 1) * spacing + past * 3 / 10,
{
    assert((n - 1) * spacing >= 0) by (nonlinear_arith)
        requires
            n > 0,
            spacing >= 0,
    ;
}

/// A fling goes on for 22 hundredths of a second: from a centred card, a finger that goes
/// left that fast that it would pass `m` cards in that time lands `m` cards further, and
/// one that goes right `m` cards back; a finger at rest stays.
pub proof fn law_fling_distance(i: int, m: int, n: int, u: int)
    requires
        u > 0,
        0 <= m,
        0 <= i - m,
        i + m < n,
    ensures
        fling_card(i * (22 * u), -(100 * (m * u)), n, 22 * u) == i + m,
        fling_card(i * (22 * u), 100 * (m * u), n, 22 * u) == i - m,
        fling_card(i * (22 * u), 0, n, 22 * u) == i,
{
    let s = 22 * u;
    lemma_exact_card(i + m, n, 100 * s);
    lemma_exact_card(i - m, n, 100 * s);
    lemma_exact_card(i, n, 100 * s);
    assert(100 * (i * (22 * u)) + 22 * (100 * (m * u)) == (i + m) * (100 * (22 * u)))
        by (nonlinear_arith);
    assert(100 * (i * (22 * u)) - 22 * (100 * (m * u)) == (i - m) * (100 * (22 * u)))
        by (nonlinear_arith);
    assert(100 * (i * (22 * u)) == i * (100 * (22 * u))) by (nonlinear_arith);
}

proof fn lemma_exact_card(k: int, n: int, s: int)
    requires
        0 <= k < n,
        s > 0,
    ensures
        nearest_card(k * s, s, n) == k,
{
    assert(k * s >= 0) by (nonlinear_arith)
        requires
            k >= 0,
            s > 0,
    ;
    assert((2 * (k * s) + s) / (2 * s) == k) by (nonlinear_arith)
        requires
            s > 0,
            k >= 0,
    ;
}

} // verus!
