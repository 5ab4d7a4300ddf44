//! QR codes for the pairing panel: a pairing URI as an RGBA bitmap.

use vstd::prelude::*;

use crate::pixels::Picture;

verus! {

/// Quiet zone width in modules on every side — at least 4 are needed for
/// reliable scanning.
pub const QUIET_ZONE: usize = 4;

/// Width of the largest code, in modules.
pub const MAX_MODULES: usize = 177;

/// The symbol that `qrcode` makes of a text at medium error correction: its width
/// in modules, and which modules are dark, row by row. None where the text fits
/// no symbol.
pub uninterp spec fn qr_symbol(text: Seq<char>) -> Option<(usize, Seq<bool>)>;

pub open spec fn symbol_view(o: Option<(usize, Vec<bool>)>) -> Option<(usize, Seq<bool>)> {
    match o {
        Some(s) => Some((s.0, s.1@)),
        None => None,
    }
}

/// `qrcode::QrCode::new`, which encodes at medium error correction, with the
/// symbol's `width` and `to_colors`: the result depends on the text alone. Symbols
/// are square, and their versions run from 1 to 40, hence the bounds on the
/// width.
#[verifier::external_body]
fn encode(text: &str) -> (r: Option<(usize, Vec<bool>)>)
    ensures
        symbol_view(r) == qr_symbol(text@),
        r matches Some(s) ==> 21 <= s.0 <= MAX_MODULES && s.1@.len() == s.0 * s.0,
{
    let code = qrcode::QrCode::new(text.as_bytes()).ok()?;
    let dark = code.to_colors().into_iter().map(|c| c == qrcode::Color::Dark).collect();
    Some((code.width(), dark))
}

/// Whether the pixel at `(x, y)` belongs to a dark module; the quiet zone does
/// not.
pub open spec fn dark_at(modules: int, dark: Seq<bool>, module_px: int, x: int, y: int) -> bool {
    let mx = x / module_px - QUIET_ZONE;
    let my = y / module_px - QUIET_ZONE;
    0 <= mx < modules && 0 <= my < modules && dark[my * modules + mx]
}

/// Side of the bitmap in pixels.
pub open spec fn side_px(modules: int, module_px: int) -> int {
    (modules + 2 * QUIET_ZONE) * module_px
}

/// The bitmap: every channel of a dark module's pixel is 0, of any other 255, and
/// alpha is always 255.
pub open spec fn bitmap(modules: int, dark: Seq<bool>, module_px: int) -> Seq<u8> {
    let side = side_px(modules, module_px);
    Seq::new(
        (side * side * 4) as nat,
        |i: int|
            if i % 4 != 3 && dark_at(modules, dark, module_px, i / 4 % side, i / 4 / side) {
                0
            } else {
                255
            },
    )
}

fn is_dark(modules: usize, dark: &Vec<bool>, module_px: usize, x: usize, y: usize) -> (r: bool)
    requires
        module_px > 0,
        dark@.len() == modules * modules,
    ensures
        r == dark_at(modules as int, dark@, module_px as int, x as int, y as int),
{
    let mx: usize = x / module_px;
    let my: usize = y / module_px;
    if mx < QUIET_ZONE || my < QUIET_ZONE {
        return false;
    }
    let (mx, my): (usize, usize) = (mx - QUIET_ZONE, my - QUIET_ZONE);
    if mx >= modules || my >= modules {
        return false;
    }
    assert(my * modules + mx < modules * modules) by (nonlinear_arith)
        requires
            0 <= mx < modules,
            0 <= my < modules,
    ;
    assert(0 <= my * modules) by (nonlinear_arith)
        requires
            0 <= my,
            0 <= modules,
    ;
    assert(dark.len() == modules * modules);
    dark[my * modules + mx]
}

/// Draws a symbol, each module as a square of `module_px` pixels, dark modules on
/// a white background, with the quiet zone around them.
pub fn rasterise(modules: usize, dark: &Vec<bool>, module_px: u32) -> (r: Picture)
    requires
        dark@.len() == modules * modules,
        side_px(modules as int, module_px as int) <= u32::MAX,
        side_px(modules as int, module_px as int) * side_px(modules as int, module_px as int) * 4
            <= usize::MAX,
    ensures
        r.0@ == bitmap(modules as int, dark@, module_px as int),
        r.1 == side_px(modules as int, module_px as int),
        r.2 == r.1,
{
    let ghost m = modules as int;
    let ghost p = module_px as int;
    let ghost s = side_px(m, p);
    if module_px == 0 {
        assert(s == 0) by (nonlinear_arith)
            requires
                s == (m + 2 * QUIET_ZONE) * p,
                p == 0,
        ;
        assert(s * s * 4 == 0) by (nonlinear_arith)
            requires
                s == 0,
        ;
        let rgba: Vec<u8> = Vec::new();
        assert(rgba@ =~= bitmap(m, dark@, p));
        return (rgba, 0, 0);
    }
    assert(m + 2 * QUIET_ZONE <= s && s > 0) by (nonlinear_arith)
        requires
            s == (m + 2 * QUIET_ZONE) * p,
            p >= 1,
            m >= 0,
    ;
    let side: usize = (modules + 2 * QUIET_ZONE) * module_px as usize;
    assert(side == s);
    assert(s * s <= usize::MAX && 0 <= s * s) by (nonlinear_arith)
        requires
            s * s * 4 <= usize::MAX,
    ;
    let total: usize = side * side;
    let mut rgba: Vec<u8> = Vec::new();
    let mut k: usize = 0;
    let ghost whole = bitmap(m, dark@, p);
    while k < total
        invariant
            k <= total,
            total == s * s,
            total * 4 <= usize::MAX,
            side == s,
            s == side_px(m, p),
            s > 0,
            m == modules,
            p == module_px,
            p > 0,
            dark@.len() == modules * modules,
            whole == bitmap(m, dark@, p),
            whole.len() == s * s * 4,
            rgba@ == whole.take(4 * k),
        decreases total - k,
    {
        let v: u8 = if is_dark(modules, dark, module_px as usize, k % side, k / side) {
            0
        } else {
            255
        };
        let ghost done = rgba@;
        rgba.push(v);
        rgba.push(v);
        rgba.push(v);
        rgba.push(255);
        assert(rgba@ =~= whole.take(4 * (k + 1))) by {
            assert((4 * k) / 4 == k && (4 * k + 1) / 4 == k && (4 * k + 2) / 4 == k && (4 * k + 3) / 4
                == k);
            assert forall|i: int| 0 <= i < 4 * (k + 1) implies rgba@[i] == whole[i] by {
                if i < 4 * k {
                    assert(done[i] == whole.take(4 * k)[i]);
                }
            }
        }
        k += 1;
    }
    assert(rgba@ =~= whole);
    (rgba, side as u32, side as u32)
}

/// Encodes `data` as a QR code and rasterises it, each module as a
/// `module_px`-pixel square. `None` if `data` doesn't fit any QR version.
pub fn generate_qr_rgba(data: &str, module_px: u32) -> (r: Option<Picture>)
    requires
        side_px(MAX_MODULES as int, module_px as int) <= u32::MAX,
        side_px(MAX_MODULES as int, module_px as int) * side_px(
            MAX_MODULES as int,
            module_px as int,
        ) * 4 <= usize::MAX,
    ensures
        match (r, qr_symbol(data@)) {
            (Some(p), Some(s)) => {
                &&& p.0@ == bitmap(s.0 as int, s.1, module_px as int)
                &&& p.1 == side_px(s.0 as int, module_px as int)
                &&& p.2 == p.1
            },
            (None, None) => true,
            _ => false,
        },
{
    let (modules, dark): (usize, Vec<bool>) = match encode(data) {
        Some(s) => s,
        None => {
            return None;
        },
    };
    proof {
        let a = side_px(modules as int, module_px as int);
        let b = side_px(MAX_MODULES as int, module_px as int);
        assert(0 <= a <= b) by (nonlinear_arith)
            requires
                a == (modules + 2 * QUIET_ZONE) * module_px,
                b == (MAX_MODULES + 2 * QUIET_ZONE) * module_px,
                0 <= modules <= MAX_MODULES,
                0 <= module_px,
        ;
        assert(a * a * 4 <= b * b * 4) by (nonlinear_arith)
            requires
                0 <= a <= b,
        ;
    }
    Some(rasterise(modules, &dark, module_px))
}

/// A bitmap is opaque, has four bytes for each pixel of its square, and its
/// quiet zone is white.
pub proof fn law_quiet_zone(modules: int, dark: Seq<bool>, module_px: int, x: int, y: int)
    requires
        modules >= 0,
        module_px > 0,
        dark.len() == modules * modules,
        0 <= x < side_px(modules, module_px),
        0 <= y < side_px(modules, module_px),
        x < QUIET_ZONE * module_px || y < QUIET_ZONE * module_px || x >= (modules + QUIET_ZONE)
            * module_px || y >= (modules + QUIET_ZONE) * module_px,
    ensures
        !dark_at(modules, dark, module_px, x, y),
{
    assert(x < QUIET_ZONE * module_px ==> x / module_px < QUIET_ZONE) by (nonlinear_arith)
        requires
            module_px > 0,
            x >= 0,
    ;
    assert(y < QUIET_ZONE * module_px ==> y / module_px < QUIET_ZONE) by (nonlinear_arith)
        requires
            module_px > 0,
            y >= 0,
    ;
    assert(x >= (modules + QUIET_ZONE) * module_px ==> x / module_px >= modules + QUIET_ZONE)
        by (nonlinear_arith)
        requires
            module_px > 0,
            x >= 0,
    ;
    assert(y >= (modules + QUIET_ZONE) * module_px ==> y / module_px >= modules + QUIET_ZONE)
        by (nonlinear_arith)
        requires
            module_px > 0,
            y >= 0,
    ;
}

/// A pixel within a module is dark where the module is, behind a quiet zone of four
/// modules; columns go to the right and rows downward.
pub proof fn law_modules(modules: int, dark: Seq<bool>, module_px: int, mx: int, my: int, dx: int, dy: int)
    requires
        module_px > 0,
        0 <= mx < modules,
        0 <= my < modules,
        0 <= dx < module_px,
        0 <= dy < module_px,
    ensures
        dark_at(modules, dark, module_px, (mx + 4) * module_px + dx, (my + 4) * module_px + dy)
            == dark[my * modules + mx],
        side_px(modules, module_px) == (modules + 8) * module_px,
{
    let x = (mx + 4) * module_px + dx;
    let y = (my + 4) * module_px + dy;
    assert(x / module_px == mx + 4) by (nonlinear_arith)
        requires
            x == (mx + 4) * module_px + dx,
            0 <= dx < module_px,
    ;
    assert(y / module_px == my + 4) by (nonlinear_arith)
        requires
            y == (my + 4) * module_px + dy,
            0 <= dy < module_px,
    ;
}

/// Dark is black and light is white, in every channel; no pixel is transparent.
pub proof fn law_colours(modules: int, dark: Seq<bool>, module_px: int, x: int, y: int, c: int)
    requires
        modules > 0,
        module_px > 0,
        0 <= x < side_px(modules, module_px),
        0 <= y < side_px(modules, module_px),
        0 <= c < 4,
    ensures
        ({
            let side = side_px(modules, module_px);
            let i = (y * side + x) * 4 + c;
            &&& 0 <= i < bitmap(modules, dark, module_px).len()
            &&& bitmap(modules, dark, module_px)[i] == (if c < 3 && dark_at(
                modules,
                dark,
                module_px,
                x,
                y,
            ) {
                0u8
            } else {
                255
            })
        }),
{
    let side = side_px(modules, module_px);
    let k = y * side + x;
    let i = k * 4 + c;
    assert(0 <= k < side * side) by (nonlinear_arith)
        requires
            k == y * side + x,
            0 <= x < side,
            0 <= y < side,
    ;
    assert(i / 4 == k && i % 4 == c);
    assert(k / side == y && k % side == x) by (nonlinear_arith)
        requires
            k == y * side + x,
            0 <= x < side,
            0 <= y < side,
    ;
    assert(side * side * 4 == (side * side) * 4);
}

} // verus!
