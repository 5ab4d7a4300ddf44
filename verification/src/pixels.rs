//! Pixel buffers: decoding, resizing, and alpha.
//!
//! Buffers are tightly packed RGBA, one byte per channel.

use vstd::prelude::*;

verus! {

/// Pixels and the width and height of the picture.
pub type Picture = (Vec<u8>, u32, u32);

pub open spec fn picture_view(o: Option<Picture>) -> Option<(Seq<u8>, u32, u32)> {
    match o {
        Some(p) => Some((p.0@, p.1, p.2)),
        None => None,
    }
}

/// What the PNG decoder of `image` makes of a file's bytes.
pub uninterp spec fn png_picture(bytes: Seq<u8>) -> Option<(Seq<u8>, u32, u32)>;

/// `image::load_from_memory_with_format` with the PNG format, then
/// `DynamicImage::to_rgba8`: the result depends on the bytes alone, and a decoded
/// picture has four bytes for each of its pixels.
#[verifier::external_body]
pub(crate) fn decode_png(bytes: &[u8]) -> (r: Option<Picture>)
    ensures
        picture_view(r) == png_picture(bytes@),
        r matches Some(p) ==> p.0@.len() == 4 * p.1 * p.2,
{
    let img = image::load_from_memory_with_format(bytes, image::ImageFormat::Png).ok()?;
    let rgba = img.to_rgba8();
    let (w, h) = rgba.dimensions();
    Some((rgba.into_raw(), w, h))
}

/// What the triangle filter of `image` makes of a picture in a square of `px`.
pub uninterp spec fn square_picture(rgba: Seq<u8>, w: u32, h: u32, px: u32) -> Seq<u8>;

/// `image::imageops::resize` with the triangle filter: the result depends on the
/// pixels and on the two sizes alone, and has four bytes for each pixel of the
/// square. The picture must have four bytes for each of its pixels too.
#[verifier::external_body]
pub(crate) fn resize_square(rgba: Vec<u8>, w: u32, h: u32, px: u32) -> (r: Vec<u8>)
    requires
        rgba@.len() == 4 * w * h,
        0 < px <= 256,
    ensures
        r@ == square_picture(rgba@, w, h, px),
        r@.len() == 4 * px * px,
{
    let img = image::RgbaImage::from_raw(w, h, rgba).expect("four bytes for each pixel");
    image::imageops::resize(&img, px, px, image::imageops::FilterType::Triangle).into_raw()
}

// ---------------------------------------------------------------------------
// Alpha
// ---------------------------------------------------------------------------

/// A channel of straight alpha from one that was multiplied by alpha, rounded,
/// at most 255. A fully transparent pixel has no colour.
pub open spec fn straight(p: u8, a: u8) -> u8 {
    if a == 0 {
        0
    } else if a == 255 {
        p
    } else {
        let v = (p as int * 255 + a as int / 2) / a as int;
        if v > 255 {
            255
        } else {
            v as u8
        }
    }
}

fn to_straight(p: u8, a: u8) -> (r: u8)
    ensures
        r == straight(p, a),
{
    if a == 0 {
        0
    } else if a == 255 {
        p
    } else {
        let v: u32 = (p as u32 * 255 + a as u32 / 2) / a as u32;
        assert(v == (p as int * 255 + a as int / 2) / a as int);
        if v > 255 {
            255
        } else {
            v as u8
        }
    }
}

/// The alpha of the pixel that byte `i` belongs to.
pub open spec fn alpha_at(buf: Seq<u8>, i: int) -> u8 {
    buf[i / 4 * 4 + 3]
}

/// The buffer with straight alpha: alpha itself stays, and so does an incomplete
/// pixel at the end.
pub open spec fn straightened(buf: Seq<u8>) -> Seq<u8> {
    Seq::new(
        buf.len(),
        |i: int|
            if i % 4 == 3 || i / 4 * 4 + 3 >= buf.len() {
                buf[i]
            } else {
                straight(buf[i], alpha_at(buf, i))
            },
    )
}

/// Turn premultiplied RGBA into straight-alpha RGBA.
pub fn unpremultiply(buf: &mut Vec<u8>)
    ensures
        final(buf)@ == straightened(old(buf)@),
{
    let ghost before = buf@;
    let mut k: usize = 0;
    while buf.len() - k >= 4
        invariant
            k % 4 == 0,
            k <= buf.len(),
            buf@.len() == before.len(),
            forall|i: int| 0 <= i < k ==> buf@[i] == straightened(before)[i],
            forall|i: int| k <= i < before.len() ==> buf@[i] == before[i],
        decreases buf.len() - k,
    {
        let a: u8 = buf[k + 3];
        let r: u8 = to_straight(buf[k], a);
        let g: u8 = to_straight(buf[k + 1], a);
        let b: u8 = to_straight(buf[k + 2], a);
        buf.set(k, r);
        buf.set(k + 1, g);
        buf.set(k + 2, b);
        assert forall|i: int| 0 <= i < k + 4 implies buf@[i] == straightened(before)[i] by {
            if i >= k {
                assert(i / 4 * 4 == k);
            }
        }
        k += 4;
    }
    assert forall|i: int| 0 <= i < before.len() implies buf@[i] == straightened(before)[i] by {
        if i >= k {
            assert(i / 4 * 4 + 3 >= before.len());
        }
    }
    assert(buf@ =~= straightened(before));
}

/// Alpha survives, an opaque pixel does not change, and a transparent one is
/// black.
pub proof fn law_straighten(buf: Seq<u8>, k: int)
    requires
        0 <= k,
        4 * k + 3 < buf.len(),
    ensures
        ({
            let s = straightened(buf);
            &&& s.len() == buf.len()
            &&& s[4 * k + 3] == buf[4 * k + 3]
            &&& buf[4 * k + 3] == 255 ==> s[4 * k] == buf[4 * k] && s[4 * k + 1] == buf[4 * k + 1]
                && s[4 * k + 2] == buf[4 * k + 2]
            &&& buf[4 * k + 3] == 0 ==> s[4 * k] == 0 && s[4 * k + 1] == 0 && s[4 * k + 2] == 0
        }),
{
    assert((4 * k) / 4 == k && (4 * k + 1) / 4 == k && (4 * k + 2) / 4 == k);
}

/// Multiplying a colour by its alpha and taking that back gives the colour again, to the
/// nearest step that alpha leaves: what comes out, multiplied again, is within half of
/// one of what was there.
pub proof fn law_straight_inverts(p: u8, a: u8)
    requires
        0 < a,
        p <= a,
    ensures
        -(a as int) <= 2 * (straight(p, a) * a - p * 255) <= a,
        straight(0, a) == 0,
        straight(a, a) == 255,
        straight(p, 0) == 0,
        straight(p, 255) == p,
{
    let v = (p as int * 255 + a as int / 2) / a as int;
    let n = p as int * 255 + a as int / 2;
    let d = a as int;
    assert(v * d <= n < v * d + d) by (nonlinear_arith)
        requires
            v == n / d,
            d > 0,
    ;
    assert(v <= 255) by (nonlinear_arith)
        requires
            v * d <= n,
            n == p as int * 255 + d / 2,
            0 <= p as int <= d,
            d > 0,
    ;
    assert((d / 2) / d == 0) by (nonlinear_arith)
        requires
            d > 0,
    ;
    assert((d * 255 + d / 2) / d == 255) by (nonlinear_arith)
        requires
            d > 0,
    ;
    assert(v >= 0) by (nonlinear_arith)
        requires
            n < v * d + d,
            n >= 0,
            d > 0,
    ;
}

/// More of a colour stays more.
pub proof fn law_straight_is_monotone(p: u8, q: u8, a: u8)
    requires
        p <= q,
    ensures
        straight(p, a) <= straight(q, a),
{
    if 0 < a < 255 {
        let d = a as int;
        let x = p as int * 255 + d / 2;
        let y = q as int * 255 + d / 2;
        assert(x / d <= y / d) by (nonlinear_arith)
            requires
                x <= y,
                d > 0,
        ;
        assert(0 <= x / d) by (nonlinear_arith)
            requires
                x >= 0,
                d > 0,
        ;
    }
}

} // verus!
