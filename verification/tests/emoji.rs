//! Colour emoji.

use std::io::Cursor;

use bacak_compositor::emoji::{
    cluster_glyph, font_candidates, leading_emoji, ligature_glyph, match_ligature,
    nested_extension, EmojiFont,
};

#[test]
fn leading_emoji_routes_only_emoji() {
    assert!(leading_emoji("😀").is_some());
    assert!(leading_emoji("⭐").is_some());
    assert!(leading_emoji("☀").is_some());
    // Control / text glyphs must stay on the fontdue path.
    assert!(leading_emoji("⌫").is_none());
    assert!(leading_emoji("↵").is_none());
    assert!(leading_emoji("←").is_none());
    assert!(leading_emoji("q").is_none());
    assert!(leading_emoji("ş").is_none());
    assert!(leading_emoji("").is_none());
}

// --- a font made for the tests ------------------------------------------------

fn w16(v: &mut Vec<u8>, x: u16) {
    v.extend(x.to_be_bytes());
}

fn w32(v: &mut Vec<u8>, x: u32) {
    v.extend(x.to_be_bytes());
}

/// A PNG of one colour, two by two pixels.
fn png(rgba: [u8; 4]) -> Vec<u8> {
    let mut out = Cursor::new(Vec::new());
    image::RgbaImage::from_pixel(2, 2, image::Rgba(rgba))
        .write_to(&mut out, image::ImageFormat::Png)
        .unwrap();
    out.into_inner()
}

/// The characters of the font, in ascending order; their glyphs count from one.
const CHARS: [char; 12] = [
    '\u{200D}', '\u{1F1F7}', '\u{1F1F8}', '\u{1F1F9}', '\u{1F1FA}', '\u{1F3FF}', '\u{1F44D}',
    '\u{1F467}', '\u{1F468}', '\u{1F469}', '\u{1F4BB}', '\u{1F600}',
];

/// The sequences that the font has a glyph of their own for, behind those.
const CLUSTERS: [&str; 5] = ["👍🏿", "🇹🇷", "🇺🇸", "👨‍👩‍👧", "👩‍💻"];

const GLYPHS: u16 = 1 + CHARS.len() as u16 + CLUSTERS.len() as u16;

fn glyph_of(c: char) -> u16 {
    1 + CHARS.iter().position(|x| *x == c).unwrap() as u16
}

fn cluster(s: &str) -> u16 {
    1 + CHARS.len() as u16 + CLUSTERS.iter().position(|x| *x == s).unwrap() as u16
}

/// The pictures of the font: a text and the colour of its picture.
const PICTURES: [(&str, [u8; 4]); 7] = [
    ("👍", [255, 0, 0, 255]),
    ("😀", [255, 220, 0, 255]),
    ("👍🏿", [0, 0, 255, 255]),
    ("🇹🇷", [0, 255, 0, 255]),
    ("🇺🇸", [0, 255, 255, 255]),
    ("👨‍👩‍👧", [40, 40, 40, 255]),
    ("👩‍💻", [80, 80, 80, 255]),
];

/// Character to glyph.
fn cmap() -> Vec<u8> {
    let mut t = Vec::new();
    w16(&mut t, 0);
    w16(&mut t, 1);
    w16(&mut t, 3);
    w16(&mut t, 10);
    w32(&mut t, 12);
    w16(&mut t, 12);
    w16(&mut t, 0);
    w32(&mut t, 16 + 12 * CHARS.len() as u32);
    w32(&mut t, 0);
    w32(&mut t, CHARS.len() as u32);
    for c in CHARS {
        w32(&mut t, c as u32);
        w32(&mut t, c as u32);
        w32(&mut t, glyph_of(c) as u32);
    }
    t
}

/// One ligature: the glyphs of a sequence and the one that stands for them.
fn ligature_lookup(sequence: &str) -> Vec<u8> {
    let glyphs: Vec<u16> = sequence.chars().map(glyph_of).collect();
    let mut t = Vec::new();
    w16(&mut t, 4); // ligature substitution
    w16(&mut t, 0);
    w16(&mut t, 1);
    w16(&mut t, 8);
    // The subtable: the coverage is behind the set.
    let set = 8 + 2 * glyphs.len() as u16 - 2;
    w16(&mut t, 1);
    w16(&mut t, 8 + set);
    w16(&mut t, 1);
    w16(&mut t, 8);
    // The set.
    w16(&mut t, 1);
    w16(&mut t, 4);
    w16(&mut t, cluster(sequence));
    w16(&mut t, glyphs.len() as u16);
    for g in &glyphs[1..] {
        w16(&mut t, *g);
    }
    // The coverage.
    w16(&mut t, 1);
    w16(&mut t, 1);
    w16(&mut t, glyphs[0]);
    t
}

/// A lookup whose subtable is an extension that names the type `kind` at an
/// offset from itself.
fn extension_lookup(kind: u16, offset: u32) -> Vec<u8> {
    let mut t = Vec::new();
    w16(&mut t, 7);
    w16(&mut t, 0);
    w16(&mut t, 1);
    w16(&mut t, 8);
    w16(&mut t, 1);
    w16(&mut t, kind);
    w32(&mut t, offset);
    t
}

fn gsub(first: Vec<Vec<u8>>) -> Vec<u8> {
    let mut lookups: Vec<Vec<u8>> = first;
    lookups.extend(CLUSTERS.iter().map(|s| ligature_lookup(s)));
    let mut t = Vec::new();
    w32(&mut t, 0x0001_0000);
    w16(&mut t, 10); // scripts: none
    w16(&mut t, 12); // features: none
    w16(&mut t, 14); // lookups
    w16(&mut t, 0);
    w16(&mut t, 0);
    w16(&mut t, lookups.len() as u16);
    let mut at = 2 + 2 * lookups.len() as u16;
    for l in &lookups {
        w16(&mut t, at);
        at += l.len() as u16;
    }
    for l in lookups {
        t.extend(l);
    }
    t
}

fn sbix() -> Vec<u8> {
    let mut data: Vec<Vec<u8>> = vec![Vec::new(); GLYPHS as usize];
    for (text, colour) in PICTURES {
        let mut chars = text.chars();
        let g = match (chars.next(), chars.next()) {
            (Some(c), None) => glyph_of(c),
            _ => cluster(text),
        };
        let mut d = vec![0, 0, 0, 0];
        d.extend(b"png ");
        d.extend(png(colour));
        data[g as usize] = d;
    }
    let mut t = Vec::new();
    w16(&mut t, 1);
    w16(&mut t, 1);
    w32(&mut t, 1);
    w32(&mut t, 12);
    w16(&mut t, 64);
    w16(&mut t, 72);
    let mut at = 4 + 4 * (GLYPHS as u32 + 1);
    for d in &data {
        w32(&mut t, at);
        at += d.len() as u32;
    }
    w32(&mut t, at);
    for d in data {
        t.extend(d);
    }
    t
}

fn font_bytes() -> Vec<u8> {
    font_with(gsub(vec![]))
}

fn font_with(substitutions: Vec<u8>) -> Vec<u8> {
    let mut head = vec![0u8; 54];
    head[18..20].copy_from_slice(&1000u16.to_be_bytes());
    let mut maxp = Vec::new();
    w32(&mut maxp, 0x0000_5000);
    w16(&mut maxp, GLYPHS);
    let tables: [(&[u8; 4], Vec<u8>); 6] = [
        (b"GSUB", substitutions),
        (b"cmap", cmap()),
        (b"head", head),
        (b"hhea", vec![0u8; 36]),
        (b"maxp", maxp),
        (b"sbix", sbix()),
    ];
    let mut f = Vec::new();
    w32(&mut f, 0x0001_0000);
    w16(&mut f, tables.len() as u16);
    for _ in 0..3 {
        w16(&mut f, 0);
    }
    let mut at = 12 + 16 * tables.len() as u32;
    for (tag, t) in &tables {
        f.extend(*tag);
        w32(&mut f, 0);
        w32(&mut f, at);
        w32(&mut f, t.len() as u32);
        at += t.len() as u32;
    }
    for (_, t) in tables {
        f.extend(t);
    }
    f
}

fn font() -> EmojiFont {
    EmojiFont::load(vec![None, Some(b"no font".to_vec()), Some(font_bytes())]).unwrap()
}

#[test]
fn no_font_among_the_candidates_gives_none() {
    assert!(EmojiFont::load(vec![None, Some(vec![1, 2, 3])]).is_none());
    assert!(EmojiFont::load(vec![]).is_none());
    assert!(font_candidates().iter().any(|p| p.ends_with("NotoColorEmoji.ttf")));
}

#[test]
fn decodes_colour_emoji_when_font_present() {
    let bmp = font().glyph("😀", 48).expect("😀 should decode");
    assert_eq!((bmp.w, bmp.h), (48, 48));
    assert_eq!(bmp.rgba.len(), 48 * 48 * 4);
    assert!(bmp.rgba.chunks_exact(4).any(|p| p[3] > 0), "decoded emoji has no opaque pixels");
    // A face emoji is mostly yellow → expect some strongly-red+green pixels.
    assert!(
        bmp.rgba.chunks_exact(4).any(|p| p[3] > 0 && p[0] > 150 && p[1] > 120),
        "decoded face emoji isn't coloured as expected"
    );
    assert!(bmp.rgba.chunks_exact(4).all(|p| p == [255, 220, 0, 255]));
}

#[test]
fn sizes_are_kept_within_bounds() {
    assert_eq!(font().glyph("👍", 1).unwrap().w, 8);
    assert_eq!(font().glyph("👍", 9999).unwrap().h, 256);
}

#[test]
fn skin_tone_modifier_changes_the_glyph() {
    let font = font();
    // Base 👍 vs. dark-skin-tone 👍🏿 must resolve to *different* glyphs
    // (proves the GSUB ligature for the modifier was applied).
    let (Some(base), Some(toned)) = (font.glyph("👍", 48), font.glyph("👍🏿", 48)) else {
        panic!("the font has these glyphs");
    };
    assert_eq!(toned.rgba.len(), 48 * 48 * 4);
    assert_ne!(base.rgba, toned.rgba, "skin-tone ligature was not applied");
}

#[test]
fn zwj_sequence_resolves_to_one_glyph() {
    let font = font();
    // A ZWJ family + a profession sequence should both produce a glyph.
    assert!(font.glyph("👨‍👩‍👧", 48).is_some(), "family ZWJ didn't resolve");
    assert!(font.glyph("👩‍💻", 48).is_some(), "technologist ZWJ didn't resolve");
    assert_eq!(font.resolve_glyph("👨‍👩‍👧"), Some(cluster("👨‍👩‍👧")));
}

#[test]
fn flags_resolve_to_distinct_coloured_glyphs() {
    let font = font();
    // Flags are regional-indicator pairs ligated into one glyph.
    let (Some(tr), Some(us)) = (font.glyph("🇹🇷", 48), font.glyph("🇺🇸", 48)) else {
        panic!("the font has these glyphs");
    };
    assert_eq!(tr.rgba.len(), 48 * 48 * 4);
    assert!(tr.rgba.chunks_exact(4).any(|p| p[3] > 0), "flag has no opaque pixels");
    assert_ne!(tr.rgba, us.rgba, "TR and US flags resolved to the same glyph");
}

#[test]
fn sequences_without_a_ligature_fall_back_to_the_base() {
    let font = font();
    let thumb = Some(glyph_of('👍'));
    assert_eq!(font.resolve_glyph("👍"), thumb);
    assert_eq!(font.resolve_glyph("👍👍"), thumb);
    // The presentation selector has no say.
    assert_eq!(font.resolve_glyph("👍\u{FE0F}"), thumb);
    assert_eq!(font.resolve_glyph("👍\u{FE0F}\u{1F3FF}"), Some(cluster("👍🏿")));
    assert_eq!(font.resolve_glyph("q"), None);
    assert!(font.glyph("q", 48).is_none());
    // The tone alone has a glyph but no picture.
    assert!(font.glyph("\u{1F3FF}", 48).is_none());
}

#[test]
fn ligatures_match_all_of_their_glyphs() {
    let bytes = font_bytes();
    let (thumb, tone) = (glyph_of('👍'), glyph_of('\u{1F3FF}'));
    assert_eq!(ligature_glyph(&bytes, &[thumb, tone]), Some(cluster("👍🏿")));
    assert_eq!(ligature_glyph(&bytes, &[thumb, tone, tone]), None);
    assert_eq!(ligature_glyph(&bytes, &[thumb]), None);
    let set = vec![None, Some((vec![7, 8], 9)), Some((vec![7, 8], 10))];
    assert_eq!(match_ligature(&set, &[7, 8]), Some(9));
    assert_eq!(match_ligature(&set, &[7]), None);
    assert_eq!(cluster_glyph(&vec![4, 5], None), Some(4));
    assert_eq!(cluster_glyph(&vec![4, 5], Some(6)), Some(6));
    assert_eq!(cluster_glyph(&vec![], None), None);
}

#[test]
fn an_extension_of_an_extension_has_no_ligatures() {
    // The first lookup's extension extends itself.
    let endless = gsub(vec![extension_lookup(7, 0)]);
    assert!(nested_extension(&endless, 0, 0));
    assert!(!nested_extension(&endless, 1, 0));
    assert!(!nested_extension(&endless, 0, 1000));
    assert!(!nested_extension(&endless, 1000, 0));
    assert!(!nested_extension(&[], 0, 0));
    let font = EmojiFont::load(vec![Some(font_with(endless))]).unwrap();
    for c in CLUSTERS {
        assert_eq!(font.resolve_glyph(c), Some(cluster(c)));
    }
    // An extension of a subtable with ligatures is followed: here the first of the
    // font's own lookups, whose subtable is 8 bytes behind its beginning, 16 behind
    // that of the extension.
    let once = gsub(vec![extension_lookup(4, 16)]);
    assert!(!nested_extension(&once, 0, 0));
    let mut only = once.clone();
    only[15] = 1; // leave that lookup alone
    let font = EmojiFont::load(vec![Some(font_with(only))]).unwrap();
    assert_eq!(font.resolve_glyph(CLUSTERS[0]), Some(cluster(CLUSTERS[0])));
    assert_eq!(font.resolve_glyph(CLUSTERS[1]), Some(glyph_of('\u{1F1F9}')));
}

#[test]
fn a_raster_that_is_no_png_has_no_picture() {
    let mut bytes = font_bytes();
    let png = b"\x89PNG\r\n\x1a\n";
    let at: Vec<usize> =
        (0..bytes.len() - png.len()).filter(|i| bytes[*i..].starts_with(png)).collect();
    for i in at {
        bytes[i] = b'?';
    }
    let font = EmojiFont::load(vec![Some(bytes)]).unwrap();
    assert!(font.resolve_glyph("😀").is_some());
    assert_eq!(font.glyph("😀", 48), None);
}
