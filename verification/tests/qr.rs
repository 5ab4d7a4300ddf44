//! Pairing codes.

use bacak_compositor::qr::{generate_qr_rgba, rasterise};

#[test]
fn encodes_a_pairing_uri_to_a_square_rgba_buffer() {
    let uri = "uzakel://pair?host=192.168.1.23&port=45922&pin=123456&name=BacakOS";
    let (rgba, w, h) = generate_qr_rgba(uri, 6).expect("short URI must encode");
    assert_eq!(w, h, "a QR code is always square");
    assert_eq!(rgba.len(), (w * h * 4) as usize);
    // At least one opaque black pixel (a dark module) and one white
    // background pixel must exist, or this isn't a real QR bitmap.
    let mut saw_dark = false;
    let mut saw_light = false;
    for px in rgba.chunks_exact(4) {
        if px == [0, 0, 0, 255] {
            saw_dark = true;
        } else if px == [255, 255, 255, 255] {
            saw_light = true;
        }
    }
    assert!(saw_dark && saw_light);
}

#[test]
fn a_quiet_zone_surrounds_the_symbol() {
    // One dark module, two pixels wide, four light modules on each side.
    let (rgba, w, h) = rasterise(1, &vec![true], 2);
    assert_eq!((w, h), (18, 18));
    assert_eq!(rgba.len(), 18 * 18 * 4);
    for y in 0..18usize {
        for x in 0..18usize {
            let i = (y * 18 + x) * 4;
            let dark = (8..10).contains(&x) && (8..10).contains(&y);
            let expected = if dark { [0, 0, 0, 255] } else { [255, 255, 255, 255] };
            assert_eq!(&rgba[i..i + 4], expected);
        }
    }
}

#[test]
fn a_symbol_has_its_finder_patterns() {
    let (rgba, w, _) = generate_qr_rgba("hello", 1).unwrap();
    // Version 1 has 21 modules; with the quiet zone that is 29 pixels.
    assert_eq!(w, 29);
    let dark = |x: usize, y: usize| rgba[(y * 29 + x) * 4] == 0;
    // Each finder is a dark ring of seven with a light one inside it.
    for (fx, fy) in [(4, 4), (4 + 14, 4), (4, 4 + 14)] {
        for i in 0..7 {
            assert!(dark(fx + i, fy) && dark(fx, fy + i));
        }
        assert!(!dark(fx + 1, fy + 1));
        assert!(dark(fx + 3, fy + 3));
    }
}

#[test]
fn what_does_not_fit_gives_no_code() {
    let long = "x".repeat(8000);
    assert!(generate_qr_rgba(&long, 1).is_none());
}
