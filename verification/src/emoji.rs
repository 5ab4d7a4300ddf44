//! Colour-emoji rendering from bitmap strikes.
//!
//! Colour-emoji fonts store each glyph as an embedded PNG. A text is mapped to a
//! single glyph — directly for one character, by a ligature for a sequence such
//! as a family, a skin tone or a flag — and the glyph's PNG is decoded into a
//! plain RGBA bitmap.

use vstd::prelude::*;

use crate::pixels::{decode_png, png_picture, resize_square, square_picture, Picture};
use crate::text::{chars_of, own_all, strings, strs};

verus! {

/// Where colour-emoji fonts are looked for, in order.
pub open spec fn font_paths() -> Seq<Seq<char>> {
    seq![
        "/usr/share/fonts/truetype/noto/NotoColorEmoji.ttf"@,
        "/usr/share/fonts/noto/NotoColorEmoji.ttf"@,
        "/usr/share/fonts/NotoColorEmoji.ttf"@,
        "/usr/share/fonts/google-noto-emoji/NotoColorEmoji.ttf"@,
    ]
}

/// Where colour-emoji fonts are looked for, in order.
pub fn font_candidates() -> (r: Vec<String>)
    ensures
        strings(r@) == font_paths(),
{
    let paths: Vec<&str> = vec![
        "/usr/share/fonts/truetype/noto/NotoColorEmoji.ttf",
        "/usr/share/fonts/noto/NotoColorEmoji.ttf",
        "/usr/share/fonts/NotoColorEmoji.ttf",
        "/usr/share/fonts/google-noto-emoji/NotoColorEmoji.ttf",
    ];
    assert(strs(paths@) =~= font_paths());
    own_all(&paths)
}

// ---------------------------------------------------------------------------
// What the font says
// ---------------------------------------------------------------------------

/// Whether `ttf-parser` takes the bytes for a font.
pub uninterp spec fn is_font(bytes: Seq<u8>) -> bool;

/// The tables that a font's directory lists: the tag of each, where it begins and
/// how long it is.
pub uninterp spec fn directory(bytes: Seq<u8>) -> Option<Seq<(u32, u32, u32)>>;

/// The glyph of a character.
pub uninterp spec fn char_glyph(bytes: Seq<u8>, c: char) -> Option<u16>;

/// How many substitution lookups the font has.
pub uninterp spec fn lookup_count(bytes: Seq<u8>) -> u16;

/// How many subtables a substitution lookup has.
pub uninterp spec fn subtable_count(bytes: Seq<u8>, lookup: u16) -> u16;

/// The ligatures of a subtable that begin with a glyph: the glyphs that follow
/// it, and the one that stands for them all. One that cannot be read is missing.
pub uninterp spec fn ligature_set(
    bytes: Seq<u8>,
    lookup: u16,
    subtable: u16,
    first: u16,
) -> Seq<Option<(Seq<u16>, u16)>>;

/// The picture of a glyph for a size: whether it is a PNG, and its bytes.
pub uninterp spec fn glyph_picture(bytes: Seq<u8>, glyph: u16, px: u16) -> Option<(bool, Seq<u8>)>;

/// `ttf_parser::Face::parse` of the first face succeeds or not by the bytes
/// alone.
#[verifier::external_body]
fn parses(bytes: &[u8]) -> (r: bool)
    ensures
        r == is_font(bytes@),
{
    ttf_parser::Face::parse(bytes, 0).is_ok()
}

pub open spec fn directory_view(o: Option<Vec<(u32, u32, u32)>>) -> Option<
    Seq<(u32, u32, u32)>,
> {
    match o {
        Some(d) => Some(d@),
        None => None,
    }
}

/// `table_records` of `ttf_parser::RawFace::parse` for the first face: the
/// directory depends on the bytes alone.
#[verifier::external_body]
fn tables(bytes: &[u8]) -> (r: Option<Vec<(u32, u32, u32)>>)
    ensures
        directory_view(r) == directory(bytes@),
{
    let all = ttf_parser::RawFace::parse(bytes, 0).ok()?.table_records;
    (0..all.len()).map(|k| all.get(k).map(|t| (t.tag.0, t.offset, t.length))).collect()
}

/// `ttf_parser::Face::glyph_index` depends on the font and the character alone.
/// Bytes that are no font have no glyph.
#[verifier::external_body]
fn glyph_of(bytes: &[u8], c: char) -> (r: Option<u16>)
    ensures
        r == char_glyph(bytes@, c),
{
    ttf_parser::Face::parse(bytes, 0).ok()?.glyph_index(c).map(|g| g.0)
}

/// The length of `lookups` in the table that `ttf_parser::Face::tables` gives for
/// substitution; zero where there is no such table.
#[verifier::external_body]
fn count_lookups(bytes: &[u8]) -> (r: u16)
    ensures
        r == lookup_count(bytes@),
{
    let face = ttf_parser::Face::parse(bytes, 0).ok();
    face.and_then(|f| f.tables().gsub).map(|g| g.lookups.len()).unwrap_or(0)
}

/// The length of `subtables` of a substitution lookup; zero where the lookup
/// cannot be read.
#[verifier::external_body]
fn count_subtables(bytes: &[u8], lookup: u16) -> (r: u16)
    ensures
        r == subtable_count(bytes@, lookup),
{
    let face = ttf_parser::Face::parse(bytes, 0).ok();
    let gsub = face.and_then(|f| f.tables().gsub);
    gsub.and_then(|g| g.lookups.get(lookup)).map(|l| l.subtables.len()).unwrap_or(0)
}

/// Ligatures and the glyphs that they stand for.
pub type LigatureSet = Vec<Option<(Vec<u16>, u16)>>;

pub open spec fn ligature_view(o: Option<(Vec<u16>, u16)>) -> Option<(Seq<u16>, u16)> {
    match o {
        Some(l) => Some((l.0@, l.1)),
        None => None,
    }
}

pub open spec fn set_view(v: Seq<Option<(Vec<u16>, u16)>>) -> Seq<Option<(Seq<u16>, u16)>> {
    v.map_values(|o: Option<(Vec<u16>, u16)>| ligature_view(o))
}

/// The ligature set that a substitution subtable of `ttf-parser` has for a glyph,
/// by its `coverage` and its `ligature_sets`; empty where the subtable is of
/// another type or does not cover the glyph. `LookupSubtables::get` follows an
/// extension into what it extends, and from there into the next, without end
/// where one extends itself, so an extension of an extension is left out.
#[verifier::external_body]
fn ligatures(bytes: &[u8], lookup: u16, subtable: u16, first: u16) -> (r: LigatureSet)
    requires
        !nested_in_font(bytes@, lookup, subtable),
    ensures
        set_view(r@) == ligature_set(bytes@, lookup, subtable, first),
{
    let set = ttf_parser::Face::parse(bytes, 0).ok().and_then(|f| {
        match f.tables().gsub?.lookups.get(lookup)?.subtables.get(subtable)? {
            ttf_parser::gsub::SubstitutionSubtable::Ligature(l) => {
                l.ligature_sets.get(l.coverage.get(ttf_parser::GlyphId(first))?)
            }
            _ => None,
        }
    });
    let one = |l: ttf_parser::gsub::Ligature| {
        (l.components.into_iter().map(|g| g.0).collect(), l.glyph.0)
    };
    set.map_or(Vec::new(), |s| (0..s.len()).map(|k| s.get(k).map(one)).collect())
}

pub open spec fn bytes_view(o: Option<(bool, Vec<u8>)>) -> Option<(bool, Seq<u8>)> {
    match o {
        Some(p) => Some((p.0, p.1@)),
        None => None,
    }
}

/// `ttf_parser::Face::glyph_raster_image`: the encoded picture and whether its
/// format is PNG depend on the font, the glyph and the size alone.
#[verifier::external_body]
fn picture_of(bytes: &[u8], glyph: u16, px: u16) -> (r: Option<(bool, Vec<u8>)>)
    ensures
        bytes_view(r) == glyph_picture(bytes@, glyph, px),
{
    let face = ttf_parser::Face::parse(bytes, 0).ok()?;
    let img = face.glyph_raster_image(ttf_parser::GlyphId(glyph), px)?;
    Some((img.format == ttf_parser::RasterImageFormat::PNG, img.data.to_vec()))
}

// ---------------------------------------------------------------------------
// Extensions of extensions
// ---------------------------------------------------------------------------

/// The tag of the table of substitutions, `GSUB`.
pub const SUBSTITUTIONS: u32 = 0x4753_5542;

/// The type of a substitution lookup whose subtables stand elsewhere.
pub const EXTENSION: usize = 7;

/// The two bytes at a position, the higher one first.
pub open spec fn word(s: Seq<u8>, at: int) -> Option<int> {
    if 0 <= at && at + 2 <= s.len() {
        Some(s[at] * 256 + s[at + 1])
    } else {
        None
    }
}

fn word_at(s: &[u8], at: usize) -> (r: Option<usize>)
    ensures
        match r {
            Some(w) => word(s@, at as int) == Some(w as int) && w <= 0xffff,
            None => word(s@, at as int) is None,
        },
{
    if at < s.len() && s.len() - at >= 2 {
        Some(s[at] as usize * 256 + s[at + 1] as usize)
    } else {
        None
    }
}

/// Where a lookup stands in a table of substitutions.
pub open spec fn lookup_at(gsub: Seq<u8>, lookup: u16) -> Option<int> {
    match word(gsub, 8) {
        Some(list) => match word(gsub, list + 2 + 2 * lookup) {
            Some(offset) => Some(list + offset),
            None => None,
        },
        None => None,
    }
}

/// Whether a subtable is an extension that extends another extension, which no
/// font may have.
pub open spec fn is_nested(gsub: Seq<u8>, lookup: u16, subtable: u16) -> bool {
    match lookup_at(gsub, lookup) {
        Some(l) => match word(gsub, l + 6 + 2 * subtable) {
            Some(offset) => {
                &&& word(gsub, l) == Some(EXTENSION as int)
                &&& word(gsub, l + offset) == Some(1int)
                &&& word(gsub, l + offset + 2) == Some(EXTENSION as int)
            },
            None => false,
        },
        None => false,
    }
}

/// Whether a subtable of a table of substitutions is an extension that extends
/// another extension.
pub fn nested_extension(gsub: &[u8], lookup: u16, subtable: u16) -> (r: bool)
    ensures
        r == is_nested(gsub@, lookup, subtable),
{
    let list: usize = match word_at(gsub, 8) {
        Some(v) => v,
        None => {
            return false;
        },
    };
    let l: usize = match word_at(gsub, list + 2 + 2 * lookup as usize) {
        Some(v) => list + v,
        None => {
            return false;
        },
    };
    let at: usize = match word_at(gsub, l + 6 + 2 * subtable as usize) {
        Some(v) => l + v,
        None => {
            return false;
        },
    };
    let kind: Option<usize> = word_at(gsub, l);
    let format: Option<usize> = word_at(gsub, at);
    let target: Option<usize> = word_at(gsub, at + 2);
    kind == Some(EXTENSION) && format == Some(1usize) && target == Some(EXTENSION)
}

/// Whether a table of the directory is one of substitutions, within the file, that
/// has an extension of an extension there.
pub open spec fn nested_in_table(
    bytes: Seq<u8>,
    table: (u32, u32, u32),
    lookup: u16,
    subtable: u16,
) -> bool {
    &&& table.0 == SUBSTITUTIONS
    &&& table.1 + table.2 <= bytes.len()
    &&& is_nested(bytes.subrange(table.1 as int, table.1 + table.2), lookup, subtable)
}

pub open spec fn nested_among(
    bytes: Seq<u8>,
    tables: Seq<(u32, u32, u32)>,
    lookup: u16,
    subtable: u16,
) -> bool {
    exists|k: int|
        0 <= k < tables.len() && #[trigger] nested_in_table(bytes, tables[k], lookup, subtable)
}

/// Whether a font has an extension of an extension there.
pub open spec fn nested_in_font(bytes: Seq<u8>, lookup: u16, subtable: u16) -> bool {
    directory(bytes) matches Some(d) && nested_among(bytes, d, lookup, subtable)
}

fn any_nested(
    bytes: &[u8],
    tables: &Option<Vec<(u32, u32, u32)>>,
    lookup: u16,
    subtable: u16,
) -> (r: bool)
    requires
        directory_view(*tables) == directory(bytes@),
    ensures
        r == nested_in_font(bytes@, lookup, subtable),
{
    let list: &Vec<(u32, u32, u32)> = match tables {
        Some(d) => d,
        None => {
            return false;
        },
    };
    let mut k: usize = 0;
    while k < list.len()
        invariant
            k <= list.len(),
            directory(bytes@) == Some(list@),
            forall|j: int|
                0 <= j < k ==> !#[trigger] nested_in_table(bytes@, list@[j], lookup, subtable),
        decreases list.len() - k,
    {
        let (tag, start, length): (u32, u32, u32) = list[k];
        if tag == SUBSTITUTIONS && start as u64 + length as u64 <= bytes.len() as u64 {
            let table: &[u8] = vstd::slice::slice_subrange(
                bytes,
                start as usize,
                start as usize + length as usize,
            );
            if nested_extension(table, lookup, subtable) {
                assert(nested_in_table(bytes@, list@[k as int], lookup, subtable));
                return true;
            }
        }
        k += 1;
    }
    false
}

// ---------------------------------------------------------------------------
// From a text to a glyph
// ---------------------------------------------------------------------------

/// The presentation selector, which has no glyph.
pub const SELECTOR: char = '\u{FE0F}';

/// The glyphs of the first `n` characters. The selector, and characters that the
/// font does not have, are left out.
pub open spec fn glyphs_upto(bytes: Seq<u8>, text: Seq<char>, n: int) -> Seq<u16>
    decreases n,
{
    if n <= 0 {
        seq![]
    } else {
        let before = glyphs_upto(bytes, text, n - 1);
        let c = text[n - 1];
        if c == SELECTOR {
            before
        } else {
            match char_glyph(bytes, c) {
                Some(g) => before.push(g),
                None => before,
            }
        }
    }
}

/// The first ligature of a set, from `k` on, whose glyphs are exactly `rest`.
pub open spec fn match_from(set: Seq<Option<(Seq<u16>, u16)>>, rest: Seq<u16>, k: int) -> Option<
    u16,
>
    decreases set.len() - k,
{
    if k < 0 || k >= set.len() {
        None
    } else if set[k] matches Some(l) && l.0 == rest {
        Some((set[k]->0).1)
    } else {
        match_from(set, rest, k + 1)
    }
}

fn same_glyphs(a: &Vec<u16>, b: &[u16]) -> (r: bool)
    ensures
        r == (a@ == b@),
{
    if a.len() != b.len() {
        return false;
    }
    let mut i: usize = 0;
    while i < a.len()
        invariant
            i <= a.len(),
            a.len() == b.len(),
            forall|k: int| 0 <= k < i ==> a@[k] == b@[k],
        decreases a.len() - i,
    {
        if a[i] != b[i] {
            return false;
        }
        i += 1;
    }
    assert(a@ =~= b@);
    true
}

/// The ligated glyph of a set for exactly these following glyphs, if it has one.
pub fn match_ligature(set: &LigatureSet, rest: &[u16]) -> (r: Option<u16>)
    ensures
        r == match_from(set_view(set@), rest@, 0),
{
    let ghost all = set_view(set@);
    assert(all.len() == set@.len());
    let mut k: usize = 0;
    while k < set.len()
        invariant
            k <= set.len(),
            all == set_view(set@),
            all.len() == set@.len(),
            match_from(all, rest@, 0) == match_from(all, rest@, k as int),
        decreases set.len() - k,
    {
        assert(all[k as int] == ligature_view(set@[k as int]));
        if let Some(l) = &set[k] {
            if same_glyphs(&l.0, rest) {
                return Some(l.1);
            }
        }
        k += 1;
    }
    None
}

/// The ligatures of a subtable that begin with a glyph; an extension of an
/// extension has none.
pub open spec fn usable_set(bytes: Seq<u8>, lookup: u16, subtable: u16, first: u16) -> Seq<
    Option<(Seq<u16>, u16)>,
> {
    if nested_in_font(bytes, lookup, subtable) {
        seq![]
    } else {
        ligature_set(bytes, lookup, subtable, first)
    }
}

/// A ligature for the glyphs in the subtables of a lookup, from `s` on.
pub open spec fn in_subtables(bytes: Seq<u8>, lookup: u16, glyphs: Seq<u16>, s: int) -> Option<u16>
    decreases subtable_count(bytes, lookup) - s,
{
    if s < 0 || s >= subtable_count(bytes, lookup) {
        None
    } else {
        match match_from(usable_set(bytes, lookup, s as u16, glyphs[0]), glyphs.skip(1), 0) {
            Some(g) => Some(g),
            None => in_subtables(bytes, lookup, glyphs, s + 1),
        }
    }
}

/// A ligature for the glyphs in the lookups from `l` on.
pub open spec fn in_lookups(bytes: Seq<u8>, glyphs: Seq<u16>, l: int) -> Option<u16>
    decreases lookup_count(bytes) - l,
{
    if l < 0 || l >= lookup_count(bytes) {
        None
    } else {
        match in_subtables(bytes, l as u16, glyphs, 0) {
            Some(g) => Some(g),
            None => in_lookups(bytes, glyphs, l + 1),
        }
    }
}

fn ligature_in(
    bytes: &[u8],
    tables: &Option<Vec<(u32, u32, u32)>>,
    lookup: u16,
    glyphs: &[u16],
) -> (r: Option<u16>)
    requires
        glyphs.len() >= 2,
        directory_view(*tables) == directory(bytes@),
    ensures
        r == in_subtables(bytes@, lookup, glyphs@, 0),
{
    let rest: &[u16] = vstd::slice::slice_subrange(glyphs, 1, glyphs.len());
    assert(rest@ =~= glyphs@.skip(1));
    let n: u16 = count_subtables(bytes, lookup);
    let mut s: u16 = 0;
    while s < n
        invariant
            s <= n,
            n == subtable_count(bytes@, lookup),
            glyphs.len() >= 2,
            directory_view(*tables) == directory(bytes@),
            rest@ == glyphs@.skip(1),
            in_subtables(bytes@, lookup, glyphs@, 0) == in_subtables(
                bytes@,
                lookup,
                glyphs@,
                s as int,
            ),
        decreases n - s,
    {
        if !any_nested(bytes, tables, lookup, s) {
            let set: LigatureSet = ligatures(bytes, lookup, s, glyphs[0]);
            if let Some(g) = match_ligature(&set, rest) {
                return Some(g);
            }
        }
        s += 1;
    }
    None
}

/// Walk the font's ligature subtables for one whose first glyph and components
/// are exactly `glyphs`, and return its ligated glyph. `None` if nothing matches,
/// and for fewer than two glyphs.
pub fn ligature_glyph(bytes: &[u8], glyphs: &[u16]) -> (r: Option<u16>)
    ensures
        r == (if glyphs@.len() < 2 {
            None
        } else {
            in_lookups(bytes@, glyphs@, 0)
        }),
{
    if glyphs.len() < 2 {
        return None;
    }
    let list: Option<Vec<(u32, u32, u32)>> = tables(bytes);
    let n: u16 = count_lookups(bytes);
    let mut l: u16 = 0;
    while l < n
        invariant
            l <= n,
            n == lookup_count(bytes@),
            glyphs.len() >= 2,
            directory_view(list) == directory(bytes@),
            in_lookups(bytes@, glyphs@, 0) == in_lookups(bytes@, glyphs@, l as int),
        decreases n - l,
    {
        if let Some(g) = ligature_in(bytes, &list, l, glyphs) {
            return Some(g);
        }
        l += 1;
    }
    None
}

/// The glyph of a cluster: the ligature where there is one, else the first
/// character's.
pub open spec fn cluster_of(glyphs: Seq<u16>, ligature: Option<u16>) -> Option<u16> {
    if glyphs.len() == 0 {
        None
    } else if glyphs.len() >= 2 && ligature is Some {
        ligature
    } else {
        Some(glyphs[0])
    }
}

/// The glyph of a cluster, given its characters' glyphs and the ligature that
/// stands for them, if any.
pub fn cluster_glyph(glyphs: &Vec<u16>, ligature: Option<u16>) -> (r: Option<u16>)
    ensures
        r == cluster_of(glyphs@, ligature),
{
    if glyphs.len() == 0 {
        return None;
    }
    if glyphs.len() >= 2 && ligature.is_some() {
        return ligature;
    }
    Some(glyphs[0])
}

/// The glyph of a text.
pub open spec fn text_glyph(bytes: Seq<u8>, text: Seq<char>) -> Option<u16> {
    let glyphs = glyphs_upto(bytes, text, text.len() as int);
    cluster_of(
        glyphs,
        if glyphs.len() < 2 {
            None
        } else {
            in_lookups(bytes, glyphs, 0)
        },
    )
}

/// A decoded emoji glyph: RGBA, `w` by `h` pixels.
#[derive(Debug, Clone, PartialEq, Eq)]
pub struct EmojiBitmap {
    pub rgba: Vec<u8>,
    pub w: u32,
    pub h: u32,
}

/// A loaded colour-emoji font: its raw bytes.
#[derive(Debug, Clone, PartialEq, Eq)]
pub struct EmojiFont {
    bytes: Vec<u8>,
}

pub open spec fn clamp_px(px: u32) -> u32 {
    if px < 8 {
        8
    } else if px > 256 {
        256
    } else {
        px
    }
}

/// The pixels of a text's emoji at a size that is within bounds.
pub open spec fn emoji_pixels(bytes: Seq<u8>, text: Seq<char>, px: u32) -> Option<Seq<u8>> {
    if !is_font(bytes) {
        None
    } else {
        match text_glyph(bytes, text) {
            None => None,
            Some(g) => match glyph_picture(bytes, g, px as u16) {
                Some((true, data)) => match png_picture(data) {
                    Some((rgba, w, h)) => Some(square_picture(rgba, w, h, px)),
                    None => None,
                },
                _ => None,
            },
        }
    }
}

impl View for EmojiFont {
    type V = Seq<u8>;

    closed spec fn view(&self) -> Seq<u8> {
        self.bytes@
    }
}

/// The first file at or after `i` that is a font; the length where none is.
pub open spec fn first_font(files: Seq<Option<Vec<u8>>>, i: int) -> int
    decreases files.len() - i,
{
    if i < 0 || i >= files.len() {
        files.len() as int
    } else if files[i] matches Some(b) && is_font(b@) {
        i
    } else {
        first_font(files, i + 1)
    }
}

impl EmojiFont {
    /// Load the first available colour-emoji font, given the contents of the
    /// candidates that could be read; `None` if none is a font.
    pub fn load(files: Vec<Option<Vec<u8>>>) -> (r: Option<EmojiFont>)
        ensures
            match r {
                Some(f) => first_font(files@, 0) < files@.len() && f@ == (files@[first_font(
                    files@,
                    0,
                )]->0)@ && is_font(f@),
                None => first_font(files@, 0) == files@.len(),
            },
    {
        let mut i: usize = 0;
        let mut found: bool = false;
        while i < files.len() && !found
            invariant
                i <= files.len(),
                found ==> i < files.len() && first_font(files@, 0) == i && files@[i as int] is Some
                    && is_font((files@[i as int]->0)@),
                !found ==> first_font(files@, 0) == first_font(files@, i as int),
            decreases files.len() - i, if found { 0int } else { 1int },
        {
            found = match &files[i] {
                Some(b) => parses(b.as_slice()),
                None => false,
            };
            if !found {
                i += 1;
            }
        }
        if !found {
            return None;
        }
        let mut files = files;
        match files.remove(i) {
            Some(bytes) => Some(EmojiFont { bytes }),
            None => None,
        }
    }

    fn glyphs(&self, text: &str) -> (r: Vec<u16>)
        ensures
            r@ == glyphs_upto(self@, text@, text@.len() as int),
    {
        let chars: Vec<char> = chars_of(text);
        let mut out: Vec<u16> = Vec::new();
        let mut i: usize = 0;
        assert(out@ =~= seq![]);
        while i < chars.len()
            invariant
                i <= chars.len(),
                chars@ == text@,
                self@ == self.bytes@,
                out@ == glyphs_upto(self@, text@, i as int),
            decreases chars.len() - i,
        {
            if chars[i] != SELECTOR {
                if let Some(g) = glyph_of(self.bytes.as_slice(), chars[i]) {
                    out.push(g);
                }
            }
            i += 1;
        }
        out
    }

    /// Map an emoji text to a single glyph: directly for one character, or by a
    /// ligature for sequences and modifiers. Falls back to the first character's
    /// glyph (the base emoji) when no ligature matches.
    pub fn resolve_glyph(&self, text: &str) -> (r: Option<u16>)
        ensures
            r == text_glyph(self@, text@),
    {
        let glyphs: Vec<u16> = self.glyphs(text);
        let ligature: Option<u16> = ligature_glyph(self.bytes.as_slice(), glyphs.as_slice());
        cluster_glyph(&glyphs, ligature)
    }

    /// Decode the emoji `text`, scaled to a square of `px`, which is kept between
    /// 8 and 256. `None` when the font has no matching glyph or it isn't a PNG.
    pub fn glyph(&self, text: &str, px: u32) -> (r: Option<EmojiBitmap>)
        ensures
            match (r, emoji_pixels(self@, text@, clamp_px(px))) {
                (Some(b), Some(p)) => {
                    &&& b.rgba@ == p
                    &&& b.w == clamp_px(px) && b.h == clamp_px(px)
                    &&& b.rgba@.len() == 4 * b.w * b.h
                },
                (None, None) => true,
                _ => false,
            },
    {
        let px: u32 = if px < 8 {
            8
        } else if px > 256 {
            256
        } else {
            px
        };
        if !parses(self.bytes.as_slice()) {
            return None;
        }
        let g: u16 = match self.resolve_glyph(text) {
            Some(g) => g,
            None => {
                return None;
            },
        };
        let data: Vec<u8> = match picture_of(self.bytes.as_slice(), g, px as u16) {
            Some((true, data)) => data,
            _ => {
                return None;
            },
        };
        let picture: Picture = match decode_png(data.as_slice()) {
            Some(p) => p,
            None => {
                return None;
            },
        };
        let rgba: Vec<u8> = resize_square(picture.0, picture.1, picture.2, px);
        Some(EmojiBitmap { rgba, w: px, h: px })
    }
}

// ---------------------------------------------------------------------------
// Which texts are emoji
// ---------------------------------------------------------------------------

/// The emoji blocks, and the blocks of miscellaneous symbols, dingbats and the
/// supplement of arrows and stars. The arrow and keyboard glyphs that control
/// keys use are not among them.
pub open spec fn emoji_char(c: char) -> bool {
    ||| 0x1F000 <= c as u32 <= 0x1FAFF
    ||| 0x2600 <= c as u32 <= 0x26FF
    ||| 0x2700 <= c as u32 <= 0x27BF
    ||| 0x2B00 <= c as u32 <= 0x2BFF
}

/// If `s` begins with a character to render through the colour-emoji path,
/// return that character.
pub fn leading_emoji(s: &str) -> (r: Option<char>)
    ensures
        r == (if s@.len() > 0 && emoji_char(s@[0]) {
            Some(s@[0])
        } else {
            None
        }),
{
    let chars: Vec<char> = chars_of(s);
    if chars.len() == 0 {
        return None;
    }
    let c: char = chars[0];
    let cp: u32 = c as u32;
    if (0x1F000 <= cp && cp <= 0x1FAFF) || (0x2600 <= cp && cp <= 0x26FF) || (0x2700 <= cp && cp
        <= 0x27BF) || (0x2B00 <= cp && cp <= 0x2BFF) {
        Some(c)
    } else {
        None
    }
}

// ---------------------------------------------------------------------------
// Laws
// ---------------------------------------------------------------------------

/// A presentation selector behind a text changes nothing.
pub proof fn law_selector_ignored(bytes: Seq<u8>, text: Seq<char>)
    ensures
        text_glyph(bytes, text.push(SELECTOR)) == text_glyph(bytes, text),
{
    let n = text.len() as int;
    lemma_glyphs_prefix(bytes, text, SELECTOR, n);
}

proof fn lemma_glyphs_prefix(bytes: Seq<u8>, text: Seq<char>, c: char, n: int)
    requires
        0 <= n <= text.len(),
    ensures
        glyphs_upto(bytes, text.push(c), n) == glyphs_upto(bytes, text, n),
    decreases n,
{
    if n > 0 {
        lemma_glyphs_prefix(bytes, text, c, n - 1);
    }
}

/// A single character that the font has is its own glyph, whatever ligatures
/// there are.
pub proof fn law_single_character(bytes: Seq<u8>, c: char)
    requires
        c != SELECTOR,
    ensures
        text_glyph(bytes, seq![c]) == char_glyph(bytes, c),
{
    reveal_with_fuel(glyphs_upto, 2);
}

/// A ligature is taken only where its glyphs are exactly those that follow, and the
/// first of such is taken.
pub proof fn law_ligature_is_exact(set: Seq<Option<(Seq<u16>, u16)>>, rest: Seq<u16>, i: int, k: int)
    requires
        0 <= i <= k < set.len(),
        set[k] matches Some(l) && l.0 == rest,
        forall|j: int| i <= j < k ==> !(#[trigger] set[j] matches Some(l) && l.0 == rest),
    ensures
        match_from(set, rest, i) == Some((set[k]->0).1),
    decreases k - i,
{
    if i < k {
        assert(!(set[i] matches Some(l) && l.0 == rest));
        law_ligature_is_exact(set, rest, i + 1, k);
    }
}

/// A cluster shows its ligature where two or more glyphs have one, its first glyph
/// otherwise, and nothing without a glyph.
pub proof fn law_cluster(glyphs: Seq<u16>, g: u16)
    ensures
        glyphs.len() >= 2 ==> cluster_of(glyphs, Some(g)) == Some(g),
        glyphs.len() == 1 ==> cluster_of(glyphs, Some(g)) == Some(glyphs[0]),
        glyphs.len() > 0 ==> cluster_of(glyphs, None) == Some(glyphs[0]),
        glyphs.len() == 0 ==> cluster_of(glyphs, Some(g)) is None,
{
}

/// A picture is drawn between 8 and 256 pixels large.
pub proof fn law_sizes(px: u32)
    ensures
        8 <= clamp_px(px) <= 256,
        8 <= px <= 256 ==> clamp_px(px) == px,
        px < 8 ==> clamp_px(px) == 8,
        px > 256 ==> clamp_px(px) == 256,
{
}

/// The presentation selector has no glyph of its own, and a character that the font has
/// adds just its own.
pub proof fn law_glyphs(bytes: Seq<u8>, text: Seq<char>, n: int)
    requires
        0 < n <= text.len(),
    ensures
        text[n - 1] == '\u{FE0F}' ==> glyphs_upto(bytes, text, n) == glyphs_upto(bytes, text, n - 1),
        text[n - 1] != '\u{FE0F}' ==> (char_glyph(bytes, text[n - 1]) matches Some(g)
            ==> glyphs_upto(bytes, text, n) == glyphs_upto(bytes, text, n - 1).push(g)),
        char_glyph(bytes, text[n - 1]) is None ==> glyphs_upto(bytes, text, n) == glyphs_upto(
            bytes,
            text,
            n - 1,
        ),
{
}

/// Numbers of two bytes are read with the higher one first, within the table alone.
pub proof fn law_words(s: Seq<u8>, at: int)
    ensures
        0 <= at && at + 2 <= s.len() ==> word(s, at) == Some(256 * s[at] + s[at + 1]),
        at + 2 > s.len() ==> word(s, at) is None,
        at < 0 ==> word(s, at) is None,
{
}

/// An emoji is drawn as a picture; letters, digits, arrows and the signs of the control
/// keys are not.
pub proof fn law_emoji_characters(c: char)
    ensures
        0x1F300 <= (c as u32) <= 0x1F64F ==> emoji_char(c),
        0x1F680 <= (c as u32) <= 0x1F6FF ==> emoji_char(c),
        0x1F900 <= (c as u32) <= 0x1F9FF ==> emoji_char(c),
        0x2600 <= (c as u32) <= 0x27BF ==> emoji_char(c),
        0x2B00 <= (c as u32) <= 0x2BFF ==> emoji_char(c),
        (c as u32) < 0x2600 ==> !emoji_char(c),
        0x27C0 <= (c as u32) < 0x2B00 ==> !emoji_char(c),
        0x2C00 <= (c as u32) < 0x1F000 ==> !emoji_char(c),
        0x1FB00 <= (c as u32) ==> !emoji_char(c),
{
}

/// The first file that is a font is taken; what comes before it is none.
pub proof fn law_first_font(files: Seq<Option<Vec<u8>>>, i: int, k: int)
    requires
        0 <= i <= k < files.len(),
        files[k] matches Some(b) && is_font(b@),
        forall|j: int| i <= j < k ==> #[trigger] files[j] is None,
    ensures
        first_font(files, i) == k,
    decreases k - i,
{
    if i < k {
        assert(files[i] is None);
        law_first_font(files, i + 1, k);
    }
}

} // verus!
