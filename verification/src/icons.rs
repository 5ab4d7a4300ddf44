//! App-icon resolution: `app_id` → `.desktop` entry → icon file.
//!
//! A deliberately small slice of the freedesktop Desktop Entry and Icon Theme
//! specs — enough to put a recognisable glyph on a task-switcher tile and to
//! launch an app. This module reads the texts and decides the order in which
//! files are looked at; touching the disk is left to the caller.

use vstd::prelude::*;

use crate::pixels::{decode_png, png_picture, straightened, unpremultiply, Picture};
use crate::text::{
    extension, extension_of,
    after, ascii_lower_all, before, chars_of, concat2, concat3, find_last, has_string, is_str,
    is_str_ignoring_case, is_whitespace, join_path, lemma_trim, lemma_trim_len, lines, lines_of,
    lower_all, lowercase, opt_str, own, own_all, path_join, rfind_before, same_ignoring_case, split,
    split_at_char, starts_with, str_eq, string_of, strings, strip_prefix, strip_run, strip_run_back,
    strip_suffix, strs, texts, trim, trim_start, trimmed, trimmed_start, whitespace, without_prefix,
    without_run, without_run_back, without_suffix, ends_with, law_path_join, law_prefix,
    law_trim_keeps_prefix, law_trim_undoes_padding, law_white_space, lemma_no_prefix,
    lemma_rfind_is, lemma_split_concat, lemma_split_free, lemma_split_whole,
};

verus! {

// ---------------------------------------------------------------------------
// Data directories
// ---------------------------------------------------------------------------

/// The texts of `v` that are not empty, among the first `n`.
pub open spec fn nonempty_upto(v: Seq<Seq<char>>, n: int) -> Seq<Seq<char>>
    decreases n,
{
    if n <= 0 {
        seq![]
    } else if v[n - 1].len() == 0 {
        nonempty_upto(v, n - 1)
    } else {
        nonempty_upto(v, n - 1).push(v[n - 1])
    }
}

/// The shared data directories named by `$XDG_DATA_DIRS`, or the default ones.
pub open spec fn shared_dirs(xdg_data_dirs: Option<Seq<char>>) -> Seq<Seq<char>> {
    let list = match xdg_data_dirs {
        Some(d) if d.len() > 0 => d,
        _ => "/usr/local/share:/usr/share"@,
    };
    nonempty_upto(split(list, ':'), split(list, ':').len() as int)
}

pub open spec fn opt_ref(o: Option<&str>) -> Option<Seq<char>> {
    match o {
        Some(s) => Some(s@),
        None => None,
    }
}

/// The user's own data directory. A variable that is set but empty counts as
/// unset.
pub open spec fn user_dirs(xdg_data_home: Option<Seq<char>>, home: Option<Seq<char>>) -> Seq<
    Seq<char>,
> {
    if xdg_data_home is Some && xdg_data_home->0.len() > 0 {
        seq![xdg_data_home->0]
    } else if home is Some {
        seq![path_join(home->0, ".local/share"@)]
    } else {
        seq![]
    }
}

/// Standard data roots, in priority order: `$XDG_DATA_HOME` (or
/// `~/.local/share`), then `$XDG_DATA_DIRS` (or the
/// `/usr/local/share:/usr/share` default).
pub fn data_dirs(
    xdg_data_home: Option<&str>,
    home: Option<&str>,
    xdg_data_dirs: Option<&str>,
) -> (r: Vec<String>)
    ensures
        strings(r@) == user_dirs(opt_ref(xdg_data_home), opt_ref(home)) + shared_dirs(
            opt_ref(xdg_data_dirs),
        ),
{
    let mut out: Vec<String> = Vec::new();
    if let Some(d) = xdg_data_home {
        if !d.is_empty() {
            out.push(own(d));
        }
    }
    if out.len() == 0 {
        if let Some(h) = home {
            out.push(join_path(h, ".local/share"));
        }
    }
    let ghost head = strings(out@);
    assert(head =~= user_dirs(opt_ref(xdg_data_home), opt_ref(home)));
    let mut list: &str = "/usr/local/share:/usr/share";
    if let Some(d) = xdg_data_dirs {
        if !d.is_empty() {
            list = d;
        }
    }
    let chars: Vec<char> = chars_of(list);
    let parts: Vec<&[char]> = split_at_char(chars.as_slice(), ':');
    let ghost all = split(list@, ':');
    assert(all.len() == parts.len());
    let mut i: usize = 0;
    assert(head =~= head + seq![]);
    while i < parts.len()
        invariant
            i <= parts.len(),
            texts(parts@) == all,
            strings(out@) == head + nonempty_upto(all, i as int),
        decreases parts.len() - i,
    {
        let ghost before = strings(out@);
        assert(all[i as int] == parts@[i as int]@);
        if parts[i].len() != 0 {
            out.push(string_of(parts[i]));
            assert(strings(out@) =~= before.push(all[i as int]));
            assert(strings(out@) =~= head + nonempty_upto(all, i as int).push(all[i as int]));
        }
        i += 1;
    }
    out
}

// ---------------------------------------------------------------------------
// Desktop entries
// ---------------------------------------------------------------------------

/// Whether a line, once trimmed, opens a group.
pub open spec fn group_header(line: Seq<char>) -> bool {
    line.len() > 0 && line[0] == '[' && line.last() == ']'
}

/// The value of `key` in the lines from `i` on, `inside` saying whether the
/// `[Desktop Entry]` group is open there; the next group ends it. Empty values
/// are passed over.
pub open spec fn value_from(
    ls: Seq<Seq<char>>,
    prefix: Seq<char>,
    inside: bool,
    i: int,
) -> Option<Seq<char>>
    decreases ls.len() - i,
{
    if i < 0 || i >= ls.len() {
        None
    } else {
        let line = trim(ls[i]);
        if group_header(line) {
            if inside {
                None
            } else {
                value_from(ls, prefix, line == "[Desktop Entry]"@, i + 1)
            }
        } else if inside && starts_with(line, prefix) && trim(line.skip(prefix.len() as int)).len()
            > 0 {
            Some(trim(line.skip(prefix.len() as int)))
        } else {
            value_from(ls, prefix, inside, i + 1)
        }
    }
}

/// The value of `key` in a desktop entry.
pub open spec fn entry_value(text: Seq<char>, key: Seq<char>) -> Option<Seq<char>> {
    value_from(lines(text), key + "="@, false, 0)
}

/// Value of `key=` in the first `[Desktop Entry]` group. Stops at the next group
/// header, so that an action group's value cannot shadow the main one.
pub fn desktop_entry_value(text: &str, key: &str) -> (r: Option<String>)
    ensures
        opt_str(r) == entry_value(text@, key@),
{
    let prefix: String = concat2(key, "=");
    let chars: Vec<char> = chars_of(text);
    let ls: Vec<&[char]> = lines_of(chars.as_slice());
    let ghost all = lines(text@);
    assert(all.len() == ls.len());
    let mut inside: bool = false;
    let mut i: usize = 0;
    while i < ls.len()
        invariant
            i <= ls.len(),
            texts(ls@) == all,
            all.len() == ls.len(),
            all == lines(text@),
            prefix@ == key@ + "="@,
            entry_value(text@, key@) == value_from(all, prefix@, inside, i as int),
        decreases ls.len() - i,
    {
        assert(all[i as int] == ls@[i as int]@);
        let line: &[char] = trimmed(ls[i]);
        if line.len() > 0 && line[0] == '[' && line[line.len() - 1] == ']' {
            if inside {
                return None;
            }
            inside = is_str(line, "[Desktop Entry]");
        } else if inside {
            if let Some(rest) = without_prefix(line, prefix.as_str()) {
                let val: &[char] = trimmed(rest);
                if val.len() > 0 {
                    return Some(string_of(val));
                }
            }
        }
        i += 1;
    }
    None
}

proof fn lemma_first_group(
    a: Seq<Seq<char>>,
    b: Seq<Seq<char>>,
    prefix: Seq<char>,
    inside: bool,
    i: int,
    h: int,
    g: int,
)
    requires
        0 <= h < g < a.len(),
        0 <= i <= g,
        inside || i <= h,
        trim(a[h]) == "[Desktop Entry]"@,
        group_header(trim(a[g])),
    ensures
        value_from(a + b, prefix, inside, i) == value_from(a, prefix, inside, i),
    decreases g - i,
{
    reveal_strlit("[Desktop Entry]");
    assert((a + b)[i] == a[i]);
    assert(group_header(trim(a[h])));
    if group_header(trim(a[i])) {
        if !inside {
            lemma_first_group(a, b, prefix, trim(a[i]) == "[Desktop Entry]"@, i + 1, h, g);
        }
    } else {
        lemma_first_group(a, b, prefix, inside, i + 1, h, g);
    }
}

/// Only the first `[Desktop Entry]` group counts: once another group has opened
/// behind it, nothing that follows makes a difference.
pub proof fn law_first_group_only(
    a: Seq<Seq<char>>,
    b: Seq<Seq<char>>,
    prefix: Seq<char>,
    h: int,
    g: int,
)
    requires
        0 <= h < g < a.len(),
        trim(a[h]) == "[Desktop Entry]"@,
        group_header(trim(a[g])),
    ensures
        value_from(a + b, prefix, false, 0) == value_from(a, prefix, false, 0),
{
    lemma_first_group(a, b, prefix, false, 0, h, g);
}

/// The icon a desktop entry names.
pub fn parse_icon_key(text: &str) -> (r: Option<String>)
    ensures
        opt_str(r) == entry_value(text@, "Icon"@),
{
    desktop_entry_value(text, "Icon")
}

/// The human display name of an app, from its desktop entry: the Turkish one
/// when present. `None` when there is no entry — callers fall back to the raw
/// app id.
pub fn resolve_app_name(entry: Option<&str>) -> (r: Option<String>)
    ensures
        opt_str(r) == (match entry {
            None => None,
            Some(t) => match entry_value(t@, "Name[tr]"@) {
                Some(n) => Some(n),
                None => entry_value(t@, "Name"@),
            },
        }),
{
    match entry {
        None => None,
        Some(t) => match desktop_entry_value(t, "Name[tr]") {
            Some(n) => Some(n),
            None => desktop_entry_value(t, "Name"),
        },
    }
}

// ---------------------------------------------------------------------------
// Categories
// ---------------------------------------------------------------------------

/// Category bitmask bits: freedesktop main categories folded into tabs. An app
/// can belong to several; an app matching none still appears under the all-tab,
/// which ignores the mask.
pub const CAT_SYSTEM: u8 = 1;

pub const CAT_DEVELOPMENT: u8 = 2;

pub const CAT_MEDIA: u8 = 4;

pub const CAT_INTERNET: u8 = 8;

pub const CAT_OFFICE: u8 = 16;

pub const CAT_UTILITY: u8 = 32;

pub const CAT_EDUCATION: u8 = 64;

pub const CAT_GAME: u8 = 128;

/// The tab of one category; 0 where it has none. The bare main categories
/// `Office` and `Utility` are too broad to say anything and have none.
pub open spec fn tab_of(c: Seq<char>) -> u8 {
    if c == "System"@ || c == "Settings"@ || c == "HardwareSettings"@ || c == "TerminalEmulator"@ {
        CAT_SYSTEM
    } else if c == "Development"@ || c == "IDE"@ || c == "Debugger"@ || c == "RevisionControl"@ {
        CAT_DEVELOPMENT
    } else if c == "AudioVideo"@ || c == "Audio"@ || c == "Video"@ || c == "Graphics"@ || c
        == "2DGraphics"@ || c == "3DGraphics"@ || c == "Photography"@ {
        CAT_MEDIA
    } else if c == "Network"@ || c == "WebBrowser"@ || c == "Email"@ || c == "InstantMessaging"@ || c
        == "Chat"@ {
        CAT_INTERNET
    } else if c == "WordProcessor"@ || c == "Spreadsheet"@ || c == "Presentation"@ || c
        == "Database"@ || c == "FlowChart"@ || c == "Math"@ {
        CAT_OFFICE
    } else if c == "TextEditor"@ || c == "Archiving"@ || c == "Compression"@ || c == "FileManager"@
        || c == "Calculator"@ || c == "Clock"@ || c == "Accessibility"@ {
        CAT_UTILITY
    } else if c == "Education"@ || c == "Science"@ || c == "Languages"@ || c == "Literature"@ {
        CAT_EDUCATION
    } else if c == "Game"@ || c == "ActionGame"@ || c == "ArcadeGame"@ || c == "BoardGame"@ || c
        == "BlocksGame"@ || c == "CardGame"@ || c == "LogicGame"@ || c == "RolePlaying"@ || c
        == "Simulation"@ || c == "SportsGame"@ || c == "StrategyGame"@ {
        CAT_GAME
    } else {
        0
    }
}

/// The tabs of the first `n` categories together.
pub open spec fn mask_upto(parts: Seq<Seq<char>>, n: int) -> u8
    decreases n,
{
    if n <= 0 {
        0
    } else {
        mask_upto(parts, n - 1) | tab_of(trim(parts[n - 1]))
    }
}

pub open spec fn mask_of(categories: Seq<char>) -> u8 {
    mask_upto(split(categories, ';'), split(categories, ';').len() as int)
}

fn tab(c: &[char]) -> (r: u8)
    ensures
        r == tab_of(c@),
{
    if is_str(c, "System") || is_str(c, "Settings") || is_str(c, "HardwareSettings") || is_str(
        c,
        "TerminalEmulator",
    ) {
        CAT_SYSTEM
    } else if is_str(c, "Development") || is_str(c, "IDE") || is_str(c, "Debugger") || is_str(
        c,
        "RevisionControl",
    ) {
        CAT_DEVELOPMENT
    } else if is_str(c, "AudioVideo") || is_str(c, "Audio") || is_str(c, "Video") || is_str(
        c,
        "Graphics",
    ) || is_str(c, "2DGraphics") || is_str(c, "3DGraphics") || is_str(c, "Photography") {
        CAT_MEDIA
    } else if is_str(c, "Network") || is_str(c, "WebBrowser") || is_str(c, "Email") || is_str(
        c,
        "InstantMessaging",
    ) || is_str(c, "Chat") {
        CAT_INTERNET
    } else if is_str(c, "WordProcessor") || is_str(c, "Spreadsheet") || is_str(c, "Presentation")
        || is_str(c, "Database") || is_str(c, "FlowChart") || is_str(c, "Math") {
        CAT_OFFICE
    } else if is_str(c, "TextEditor") || is_str(c, "Archiving") || is_str(c, "Compression")
        || is_str(c, "FileManager") || is_str(c, "Calculator") || is_str(c, "Clock") || is_str(
        c,
        "Accessibility",
    ) {
        CAT_UTILITY
    } else if is_str(c, "Education") || is_str(c, "Science") || is_str(c, "Languages") || is_str(
        c,
        "Literature",
    ) {
        CAT_EDUCATION
    } else if is_str(c, "Game") || is_str(c, "ActionGame") || is_str(c, "ArcadeGame") || is_str(
        c,
        "BoardGame",
    ) || is_str(c, "BlocksGame") || is_str(c, "CardGame") || is_str(c, "LogicGame") || is_str(
        c,
        "RolePlaying",
    ) || is_str(c, "Simulation") || is_str(c, "SportsGame") || is_str(c, "StrategyGame") {
        CAT_GAME
    } else {
        0
    }
}

/// Fold a `Categories=` value (`;`-separated freedesktop categories) into the
/// category bitmask.
pub fn categorize(categories: &str) -> (r: u8)
    ensures
        r == mask_of(categories@),
{
    let chars: Vec<char> = chars_of(categories);
    let parts: Vec<&[char]> = split_at_char(chars.as_slice(), ';');
    let ghost all = split(categories@, ';');
    assert(all.len() == parts.len());
    let mut mask: u8 = 0;
    let mut i: usize = 0;
    while i < parts.len()
        invariant
            i <= parts.len(),
            texts(parts@) == all,
            mask == mask_upto(all, i as int),
        decreases parts.len() - i,
    {
        assert(all[i as int] == parts@[i as int]@);
        mask = mask | tab(trimmed(parts[i]));
        i += 1;
    }
    mask
}

// ---------------------------------------------------------------------------
// Command lines
// ---------------------------------------------------------------------------

/// Whether a backslash inside quotes escapes `c`.
pub open spec fn escapable(c: char) -> bool {
    c == '"' || c == '\\' || c == '`' || c == '$'
}

/// Reads on inside a double-quoted part: what was gathered once it is closed, or
/// at the end of the text, and where reading goes on.
pub open spec fn quoted_from(s: Seq<char>, i: int, cur: Seq<char>) -> (Seq<char>, int)
    decreases s.len() - i,
{
    if i < 0 || i >= s.len() {
        (cur, i)
    } else if s[i] == '"' {
        (cur, i + 1)
    } else if s[i] == '\\' && i + 1 < s.len() && escapable(s[i + 1]) {
        quoted_from(s, i + 2, cur.push(s[i + 1]))
    } else {
        quoted_from(s, i + 1, cur.push(s[i]))
    }
}

proof fn lemma_quoted_from(s: Seq<char>, i: int, cur: Seq<char>)
    requires
        0 <= i <= s.len(),
    ensures
        i <= quoted_from(s, i, cur).1 <= s.len(),
    decreases s.len() - i,
{
    if i < s.len() && s[i] != '"' {
        if s[i] == '\\' && i + 1 < s.len() && escapable(s[i + 1]) {
            lemma_quoted_from(s, i + 2, cur.push(s[i + 1]));
        } else {
            lemma_quoted_from(s, i + 1, cur.push(s[i]));
        }
    }
}

/// The tokens from position `i` on, where `cur` was gathered of an open one.
pub open spec fn tokens_from(s: Seq<char>, i: int, cur: Seq<char>, open: bool) -> Seq<Seq<char>>
    decreases s.len() - i,
{
    if i < 0 || i >= s.len() {
        if open {
            seq![cur]
        } else {
            seq![]
        }
    } else if s[i] == '"' {
        let q = quoted_from(s, i + 1, cur);
        if q.1 <= i || q.1 > s.len() {
            seq![]
        } else {
            tokens_from(s, q.1, q.0, true)
        }
    } else if is_whitespace(s[i]) {
        if open {
            seq![cur] + tokens_from(s, i + 1, seq![], false)
        } else {
            tokens_from(s, i + 1, cur, false)
        }
    } else {
        tokens_from(s, i + 1, cur.push(s[i]), true)
    }
}

/// A token with its field codes expanded, from position `i` on: `%%` is a
/// percent sign, any other code and a lone one at the end are nothing.
pub open spec fn expanded_from(s: Seq<char>, i: int) -> Seq<char>
    decreases s.len() + 2 - i,
{
    if i < 0 || i >= s.len() {
        seq![]
    } else if s[i] != '%' {
        seq![s[i]] + expanded_from(s, i + 1)
    } else if i + 1 < s.len() && s[i + 1] == '%' {
        seq!['%'] + expanded_from(s, i + 2)
    } else {
        expanded_from(s, i + 2)
    }
}

pub open spec fn expanded(s: Seq<char>) -> Seq<char> {
    expanded_from(s, 0)
}

/// The first `n` tokens, expanded, without those that come to nothing.
pub open spec fn arguments_upto(tokens: Seq<Seq<char>>, n: int) -> Seq<Seq<char>>
    decreases n,
{
    if n <= 0 {
        seq![]
    } else if expanded(tokens[n - 1]).len() == 0 {
        arguments_upto(tokens, n - 1)
    } else {
        arguments_upto(tokens, n - 1).push(expanded(tokens[n - 1]))
    }
}

/// The arguments of an `Exec=` value.
pub open spec fn arguments(s: Seq<char>) -> Seq<Seq<char>> {
    let tokens = tokens_from(s, 0, seq![], false);
    arguments_upto(tokens, tokens.len() as int)
}

/// Expand or strip field codes within one token: `%%` is a literal `%`; every
/// other `%<letter>` is removed, since apps are launched with no document
/// argument. A trailing lone `%` is dropped.
pub fn expand_field_codes(tok: &[char]) -> (r: Vec<char>)
    ensures
        r@ == expanded(tok@),
{
    let mut out: Vec<char> = Vec::new();
    let mut i: usize = 0;
    assert(out@ + expanded_from(tok@, 0) =~= expanded(tok@));
    while i < tok.len()
        invariant
            i <= tok.len(),
            out@ + expanded_from(tok@, i as int) == expanded(tok@),
        decreases tok.len() - i,
    {
        let ghost done = out@;
        let ghost at = i as int;
        if tok[i] != '%' {
            out.push(tok[i]);
            i += 1;
            assert(out@ + expanded_from(tok@, i as int) =~= done + (seq![tok@[at]] + expanded_from(
                tok@,
                at + 1,
            )));
        } else if i + 1 < tok.len() {
            if tok[i + 1] == '%' {
                out.push('%');
                assert(out@ + expanded_from(tok@, at + 2) =~= done + (seq!['%'] + expanded_from(
                    tok@,
                    at + 2,
                )));
            }
            i += 2;
        } else {
            i += 1;
            assert(expanded_from(tok@, at + 2) =~= expanded_from(tok@, at + 1));
        }
    }
    assert(out@ =~= out@ + expanded_from(tok@, i as int));
    out
}

fn quoted(s: &[char], start: usize, cur: &mut Vec<char>) -> (r: usize)
    requires
        start <= s.len(),
    ensures
        (final(cur)@, r as int) == quoted_from(s@, start as int, old(cur)@),
        start <= r <= s.len(),
{
    let ghost goal = quoted_from(s@, start as int, cur@);
    let mut i: usize = start;
    while i < s.len()
        invariant
            start <= i <= s.len(),
            goal == quoted_from(s@, start as int, old(cur)@),
            goal == quoted_from(s@, i as int, cur@),
        decreases s.len() - i,
    {
        if s[i] == '"' {
            return i + 1;
        }
        if s[i] == '\\' && i + 1 < s.len() && (s[i + 1] == '"' || s[i + 1] == '\\' || s[i + 1] == '`'
            || s[i + 1] == '$') {
            cur.push(s[i + 1]);
            i += 2;
        } else {
            cur.push(s[i]);
            i += 1;
        }
    }
    i
}

fn tokens(s: &[char]) -> (r: Vec<Vec<char>>)
    ensures
        r@.map_values(|v: Vec<char>| v@) == tokens_from(s@, 0, seq![], false),
{
    let ghost goal = tokens_from(s@, 0, seq![], false);
    let mut out: Vec<Vec<char>> = Vec::new();
    let mut cur: Vec<char> = Vec::new();
    let mut open: bool = false;
    let mut i: usize = 0;
    assert(cur@ =~= seq![]);
    assert(out@.map_values(|v: Vec<char>| v@) + goal =~= goal);
    while i < s.len()
        invariant
            i <= s.len(),
            !open ==> cur@ == Seq::<char>::empty(),
            out@.map_values(|v: Vec<char>| v@) + tokens_from(s@, i as int, cur@, open) == goal,
        decreases s.len() - i,
    {
        let ghost done = out@.map_values(|v: Vec<char>| v@);
        let ghost at = i as int;
        if s[i] == '"' {
            open = true;
            i = quoted(s, i + 1, &mut cur);
        } else if whitespace(s[i]) {
            if open {
                let ghost token = cur@;
                out.push(cur);
                cur = Vec::new();
                open = false;
                let ghost now = out@.map_values(|v: Vec<char>| v@);
                assert(now =~= done.push(token));
                assert(cur@ =~= seq![]);
                assert(now + tokens_from(s@, at + 1, cur@, false) =~= done + (seq![token]
                    + tokens_from(s@, at + 1, seq![], false)));
            }
            i += 1;
        } else {
            open = true;
            cur.push(s[i]);
            i += 1;
        }
    }
    let ghost done = out@.map_values(|v: Vec<char>| v@);
    if open {
        let ghost token = cur@;
        out.push(cur);
        assert(out@.map_values(|v: Vec<char>| v@) =~= done + seq![token]);
    } else {
        assert(done =~= done + Seq::<Seq<char>>::empty());
    }
    out
}

/// Tokenise an `Exec=` string per the Desktop Entry spec: arguments may be
/// double-quoted, with quote, backslash, backtick and dollar escapable inside;
/// outside quotes, white space separates tokens. Each token then has its field
/// codes expanded; tokens that come to nothing are dropped, so `firefox %u` is
/// `["firefox"]`.
pub fn parse_exec(s: &str) -> (r: Vec<String>)
    ensures
        strings(r@) == arguments(s@),
{
    let chars: Vec<char> = chars_of(s);
    let ts: Vec<Vec<char>> = tokens(chars.as_slice());
    let ghost all = tokens_from(s@, 0, seq![], false);
    assert(all.len() == ts.len());
    let mut out: Vec<String> = Vec::new();
    let mut i: usize = 0;
    assert(strings(out@) =~= seq![]);
    while i < ts.len()
        invariant
            i <= ts.len(),
            ts@.map_values(|v: Vec<char>| v@) == all,
            strings(out@) == arguments_upto(all, i as int),
        decreases ts.len() - i,
    {
        let ghost done = strings(out@);
        assert(all[i as int] == ts@[i as int]@);
        let e: Vec<char> = expand_field_codes(ts[i].as_slice());
        if e.len() != 0 {
            out.push(string_of(e.as_slice()));
            assert(strings(out@) =~= done.push(e@));
        }
        i += 1;
    }
    out
}

pub open spec fn opt_list(o: Option<Vec<String>>) -> Option<Seq<Seq<char>>> {
    match o {
        Some(v) => Some(strings(v@)),
        None => None,
    }
}

/// The command line of a desktop entry, if there is one that says anything.
pub open spec fn command_of(entry: Option<Seq<char>>) -> Option<Seq<Seq<char>>> {
    match entry {
        None => None,
        Some(t) => match entry_value(t, "Exec"@) {
            None => None,
            Some(raw) => if arguments(raw).len() == 0 {
                None
            } else {
                Some(arguments(raw))
            },
        },
    }
}

fn command(entry: Option<&str>) -> (r: Option<Vec<String>>)
    ensures
        opt_list(r) == command_of(opt_ref(entry)),
{
    match entry {
        None => None,
        Some(t) => match desktop_entry_value(t, "Exec") {
            None => None,
            Some(raw) => {
                let argv: Vec<String> = parse_exec(raw.as_str());
                assert(strings(argv@).len() == argv@.len());
                if argv.len() == 0 {
                    None
                } else {
                    Some(argv)
                }
            },
        },
    }
}

/// Resolve an app id to its launch command, given its desktop entry: the
/// tokenised `Exec=` with field codes stripped. A blank id has none.
pub fn resolve_exec(app_id: &str, entry: Option<&str>) -> (r: Option<Vec<String>>)
    ensures
        opt_list(r) == (if trim(app_id@).len() == 0 {
            None
        } else {
            command_of(opt_ref(entry))
        }),
{
    let id: Vec<char> = chars_of(app_id);
    if trimmed(id.as_slice()).len() == 0 {
        return None;
    }
    command(entry)
}

/// The command that is launched: a console program's is run in the terminal, if
/// there is one.
pub open spec fn launch_of(entry: Option<Seq<char>>, terminal: Option<Seq<char>>) -> Option<
    Seq<Seq<char>>,
> {
    match (command_of(entry), terminal) {
        (None, _) => None,
        (Some(argv), Some(term)) if entry_value(entry->0, "Terminal"@) == Some("true"@) => Some(
            seq![term, "-e"@] + argv,
        ),
        (Some(argv), _) => Some(argv),
    }
}

/// Like [`resolve_exec`] but also honours `Terminal=true`: console programs are
/// wrapped in a terminal emulator so they get a real TTY. If none is installed
/// the bare command is returned rather than failing outright. The entry is the
/// text of the app's desktop file, where that file can be read; an app without a
/// desktop file is not launched.
pub fn resolve_launch(
    dirs: &Vec<AppsDir>,
    app_id: &str,
    entry: Option<&str>,
    terminal: Option<&str>,
) -> (r: Option<Vec<String>>)
    ensures
        opt_list(r) == (match in_dirs_from(dirs@, app_id@, lowercase(app_id@), 0) {
            Some(_) => launch_of(opt_ref(entry), opt_ref(terminal)),
            None => None,
        }),
{
    if find_desktop_file(dirs, app_id).is_none() {
        return None;
    }
    let argv: Vec<String> = match command(entry) {
        Some(argv) => argv,
        None => {
            return None;
        },
    };
    let text: &str = match entry {
        Some(t) => t,
        None => {
            return None;
        },
    };
    let console: bool = match desktop_entry_value(text, "Terminal") {
        Some(v) => str_eq(v.as_str(), "true"),
        None => false,
    };
    if !console {
        return Some(argv);
    }
    match terminal {
        Some(term) => {
            let mut wrapped: Vec<String> = Vec::new();
            wrapped.push(own(term));
            wrapped.push(own("-e"));
            let ghost head = strings(wrapped@);
            assert(head =~= seq![term@, "-e"@]);
            let mut argv = argv;
            let ghost tail = strings(argv@);
            wrapped.append(&mut argv);
            assert(strings(wrapped@) =~= head + tail);
            Some(wrapped)
        },
        None => Some(argv),
    }
}

/// The terminal emulators looked for on `$PATH`, Wayland-native ones first.
pub open spec fn terminals() -> Seq<Seq<char>> {
    seq![
        "foot"@,
        "alacritty"@,
        "kitty"@,
        "wezterm"@,
        "konsole"@,
        "gnome-terminal"@,
        "x-terminal-emulator"@,
        "xterm"@,
    ]
}

/// The terminal emulators looked for, in order.
pub fn terminal_candidates() -> (r: Vec<String>)
    ensures
        strings(r@) == terminals(),
{
    let names: Vec<&str> = vec![
        "foot",
        "alacritty",
        "kitty",
        "wezterm",
        "konsole",
        "gnome-terminal",
        "x-terminal-emulator",
        "xterm",
    ];
    assert(strs(names@) =~= terminals());
    own_all(&names)
}

/// The first position at or after `i` that is set; the length where none is.
pub open spec fn first_set(flags: Seq<bool>, i: int) -> int
    decreases flags.len() - i,
{
    if i < 0 || i >= flags.len() {
        flags.len() as int
    } else if flags[i] {
        i
    } else {
        first_set(flags, i + 1)
    }
}

fn first_true(flags: &Vec<bool>) -> (r: usize)
    ensures
        r == first_set(flags@, 0),
        r <= flags.len(),
{
    let mut i: usize = 0;
    while i < flags.len() && !flags[i]
        invariant
            i <= flags.len(),
            first_set(flags@, 0) == first_set(flags@, i as int),
        decreases flags.len() - i,
    {
        i += 1;
    }
    i
}

/// First terminal emulator that is installed, `present` saying of each candidate
/// whether it is.
pub fn terminal_emulator(present: &Vec<bool>) -> (r: Option<String>)
    ensures
        opt_str(r) == (if first_set(present@, 0) < present.len() && first_set(present@, 0)
            < terminals().len() {
            Some(terminals()[first_set(present@, 0)])
        } else {
            None
        }),
{
    let names: Vec<String> = terminal_candidates();
    assert(strings(names@).len() == names@.len());
    let i: usize = first_true(present);
    if i < present.len() && i < names.len() {
        assert(strings(names@)[i as int] == names@[i as int]@);
        Some(own(names[i].as_str()))
    } else {
        None
    }
}


// ---------------------------------------------------------------------------
// Finding the desktop entry of an app
// ---------------------------------------------------------------------------

/// A file of an `applications` directory; the text is missing where it cannot be
/// read.
#[derive(Debug, Clone, PartialEq, Eq)]
pub struct DesktopFile {
    pub path: String,
    pub text: Option<String>,
}

/// The last component of a path.
pub open spec fn file_name(path: Seq<char>) -> Seq<char> {
    path.skip(rfind_before(path, '/', path.len() as int) + 1)
}

/// A file's name without its extension.
pub open spec fn stem(path: Seq<char>) -> Seq<char> {
    let name = file_name(path);
    let dot = rfind_before(name, '.', name.len() as int);
    if dot <= 0 || name == ".."@ {
        name
    } else {
        name.take(dot)
    }
}

fn name_of(path: &[char]) -> (r: &[char])
    ensures
        r@ == file_name(path@),
{
    match find_last(path, '/') {
        Some(i) => after(path, i + 1),
        None => after(path, 0),
    }
}

fn has_extension(path: &str, wanted: &str) -> (r: bool)
    ensures
        r == (extension(path@) == Some(wanted@)),
{
    let chars: Vec<char> = chars_of(path);
    match extension_of(chars.as_slice()) {
        Some(e) => is_str(e.as_slice(), wanted),
        None => false,
    }
}

fn stem_of(path: &str) -> (r: String)
    ensures
        r@ == stem(path@),
{
    let chars: Vec<char> = chars_of(path);
    let name: &[char] = name_of(chars.as_slice());
    match find_last(name, '.') {
        Some(i) => {
            if i == 0 || is_str(name, "..") {
                string_of(name)
            } else {
                string_of(before(name, i))
            }
        },
        None => string_of(name),
    }
}

/// The value of `key` in a file.
pub open spec fn file_value(f: DesktopFile, key: Seq<char>) -> Option<Seq<char>> {
    match f.text {
        Some(t) => entry_value(t@, key),
        None => None,
    }
}

fn value_in(f: &DesktopFile, key: &str) -> (r: Option<String>)
    ensures
        opt_str(r) == file_value(*f, key@),
{
    match &f.text {
        Some(t) => desktop_entry_value(t.as_str(), key),
        None => None,
    }
}

/// The `StartupWMClass` of a desktop file; none for other files.
pub open spec fn class_of(f: DesktopFile) -> Option<Seq<char>> {
    if extension(f.path@) == Some("desktop"@) {
        file_value(f, "StartupWMClass"@)
    } else {
        None
    }
}

/// The first file at or after `i` whose class is `app_id`; the length where none
/// has it.
pub open spec fn exact_class(fs: Seq<DesktopFile>, app_id: Seq<char>, i: int) -> int
    decreases fs.len() - i,
{
    if i < 0 || i >= fs.len() {
        fs.len() as int
    } else if class_of(fs[i]) == Some(app_id) {
        i
    } else {
        exact_class(fs, app_id, i + 1)
    }
}

/// The first file at or after `i` whose class is `app_id` but for the case of
/// its letters; the length where none has it.
pub open spec fn loose_class(fs: Seq<DesktopFile>, app_id: Seq<char>, i: int) -> int
    decreases fs.len() - i,
{
    if i < 0 || i >= fs.len() {
        fs.len() as int
    } else if class_of(fs[i]) matches Some(c) && same_ignoring_case(c, app_id) {
        i
    } else {
        loose_class(fs, app_id, i + 1)
    }
}

/// The file of a class: an exact match anywhere, else the first that differs in
/// case only.
pub open spec fn by_class(fs: Seq<DesktopFile>, app_id: Seq<char>) -> Option<Seq<char>> {
    let e = exact_class(fs, app_id, 0);
    let l = loose_class(fs, app_id, 0);
    if e < fs.len() {
        Some(fs[e].path@)
    } else if l < fs.len() {
        Some(fs[l].path@)
    } else {
        None
    }
}

/// Walk a directory's files for a `.desktop` whose `StartupWMClass` equals
/// `app_id`: an exact one wins, else one that differs in case only — real-world
/// clients are sloppy.
pub fn scan_for_wmclass(files: &Vec<DesktopFile>, app_id: &str) -> (r: Option<String>)
    ensures
        opt_str(r) == by_class(files@, app_id@),
{
    let mut loose: Option<usize> = None;
    let mut i: usize = 0;
    while i < files.len()
        invariant
            i <= files.len(),
            exact_class(files@, app_id@, 0) == exact_class(files@, app_id@, i as int),
            match loose {
                Some(k) => k < i && loose_class(files@, app_id@, 0) == k,
                None => loose_class(files@, app_id@, 0) == loose_class(files@, app_id@, i as int),
            },
        decreases files.len() - i,
    {
        let f: &DesktopFile = &files[i];
        if has_extension(f.path.as_str(), "desktop") {
            if let Some(class) = value_in(f, "StartupWMClass") {
                if str_eq(class.as_str(), app_id) {
                    return Some(own(f.path.as_str()));
                }
                if loose.is_none() {
                    let chars: Vec<char> = chars_of(class.as_str());
                    if is_str_ignoring_case(chars.as_slice(), app_id) {
                        loose = Some(i);
                    }
                }
            }
        }
        i += 1;
    }
    match loose {
        Some(k) => Some(own(files[k].path.as_str())),
        None => None,
    }
}

/// What one `applications` directory has for an app: whether the file named
/// after the id is there, whether the one named after the lower-case id is, and
/// all its files.
#[derive(Debug, Clone, PartialEq, Eq)]
pub struct AppsDir {
    pub path: String,
    pub exact: bool,
    pub lower: bool,
    pub files: Vec<DesktopFile>,
}

/// A name below a directory; an absolute one stands for itself.
pub open spec fn below(dir: Seq<char>, name: Seq<char>) -> Seq<char> {
    if name.len() > 0 && name[0] == '/' {
        name
    } else {
        path_join(dir, name)
    }
}

fn join_below(dir: &str, name: &str) -> (r: String)
    ensures
        r@ == below(dir@, name@),
{
    let chars: Vec<char> = chars_of(name);
    if chars.len() > 0 && chars[0] == '/' {
        own(name)
    } else {
        join_path(dir, name)
    }
}

/// The desktop file in one directory.
pub open spec fn in_dir(d: AppsDir, app_id: Seq<char>, lower_id: Seq<char>) -> Option<Seq<char>> {
    if d.exact {
        Some(below(d.path@, app_id + ".desktop"@))
    } else if d.lower {
        Some(below(d.path@, lower_id + ".desktop"@))
    } else {
        by_class(d.files@, app_id)
    }
}

/// The desktop file in the directories from `i` on.
pub open spec fn in_dirs_from(
    dirs: Seq<AppsDir>,
    app_id: Seq<char>,
    lower_id: Seq<char>,
    i: int,
) -> Option<Seq<char>>
    decreases dirs.len() - i,
{
    if i < 0 || i >= dirs.len() {
        None
    } else {
        match in_dir(dirs[i], app_id, lower_id) {
            Some(p) => Some(p),
            None => in_dirs_from(dirs, app_id, lower_id, i + 1),
        }
    }
}

/// The desktop file of an app whose id, in lower case, is `lower_id`: in the
/// first directory that has one, by its name, else by its lower-case name, else
/// by its window class.
pub fn desktop_file_in(dirs: &Vec<AppsDir>, app_id: &str, lower_id: &str) -> (r: Option<String>)
    ensures
        opt_str(r) == in_dirs_from(dirs@, app_id@, lower_id@, 0),
{
    let mut i: usize = 0;
    while i < dirs.len()
        invariant
            i <= dirs.len(),
            in_dirs_from(dirs@, app_id@, lower_id@, 0) == in_dirs_from(
                dirs@,
                app_id@,
                lower_id@,
                i as int,
            ),
        decreases dirs.len() - i,
    {
        let d: &AppsDir = &dirs[i];
        if d.exact {
            let name: String = concat2(app_id, ".desktop");
            return Some(join_below(d.path.as_str(), name.as_str()));
        }
        if d.lower {
            let name: String = concat2(lower_id, ".desktop");
            return Some(join_below(d.path.as_str(), name.as_str()));
        }
        if let Some(p) = scan_for_wmclass(&d.files, app_id) {
            return Some(p);
        }
        i += 1;
    }
    None
}

/// The desktop file of an app. Clients are inconsistent about casing
/// (`Firefox` and `firefox`), so the id is tried as given and in lower case.
pub fn find_desktop_file(dirs: &Vec<AppsDir>, app_id: &str) -> (r: Option<String>)
    ensures
        opt_str(r) == in_dirs_from(dirs@, app_id@, lowercase(app_id@), 0),
{
    let lower: String = app_id.to_lowercase();
    desktop_file_in(dirs, app_id, lower.as_str())
}

// ---------------------------------------------------------------------------
// The applications menu
// ---------------------------------------------------------------------------

/// An app of the menu.
#[derive(Debug, Clone, PartialEq, Eq)]
pub struct AppEntry {
    pub id: String,
    pub name: String,
    pub mask: u8,
}

#[verifier::ext_equal]
pub struct AppView {
    pub id: Seq<char>,
    pub name: Seq<char>,
    pub mask: u8,
}

impl View for AppEntry {
    type V = AppView;

    open spec fn view(&self) -> AppView {
        AppView { id: self.id@, name: self.name@, mask: self.mask }
    }
}

pub open spec fn apps_view(v: Seq<AppEntry>) -> Seq<AppView> {
    v.map_values(|a: AppEntry| a@)
}

/// Ids met so far, and apps to show.
pub struct Menu {
    pub seen: Seq<Seq<char>>,
    pub apps: Seq<AppView>,
}

/// Whether a desktop entry is kept out of menus: it says so, or has nothing to
/// run.
pub open spec fn unlisted(f: DesktopFile) -> bool {
    file_value(f, "NoDisplay"@) == Some("true"@) || file_value(f, "Hidden"@) == Some("true"@)
        || file_value(f, "Exec"@) is None
}

pub open spec fn app_of(f: DesktopFile) -> AppView {
    AppView {
        id: stem(f.path@),
        name: match file_value(f, "Name"@) {
            Some(n) => n,
            None => stem(f.path@),
        },
        mask: match file_value(f, "Categories"@) {
            Some(c) => mask_of(c),
            None => 0,
        },
    }
}

/// The menu once a file was looked at. The first directory to define an app id
/// wins, even if it keeps the app out; only applications define one.
pub open spec fn with_file(m: Menu, f: DesktopFile) -> Menu {
    let id = stem(f.path@);
    if extension(f.path@) != Some("desktop"@) || m.seen.contains(id) || file_value(f, "Type"@)
        != Some("Application"@) {
        m
    } else if unlisted(f) {
        Menu { seen: m.seen.push(id), apps: m.apps }
    } else {
        Menu { seen: m.seen.push(id), apps: m.apps.push(app_of(f)) }
    }
}

pub open spec fn menu_upto(fs: Seq<DesktopFile>, n: int) -> Menu
    decreases n,
{
    if n <= 0 {
        Menu { seen: seq![], apps: seq![] }
    } else {
        with_file(menu_upto(fs, n - 1), fs[n - 1])
    }
}

fn says(f: &DesktopFile, key: &str, value: &str) -> (r: bool)
    ensures
        r == (file_value(*f, key@) == Some(value@)),
{
    match value_in(f, key) {
        Some(v) => str_eq(v.as_str(), value),
        None => false,
    }
}

/// The launchable apps among the files of the data directories, highest priority
/// first, in the order in which they were met.
pub fn collect_apps(files: &Vec<DesktopFile>) -> (r: Vec<AppEntry>)
    ensures
        apps_view(r@) == menu_upto(files@, files.len() as int).apps,
{
    let mut seen: Vec<String> = Vec::new();
    let mut apps: Vec<AppEntry> = Vec::new();
    let mut i: usize = 0;
    assert(strings(seen@) =~= seq![]);
    assert(apps_view(apps@) =~= seq![]);
    while i < files.len()
        invariant
            i <= files.len(),
            strings(seen@) == menu_upto(files@, i as int).seen,
            apps_view(apps@) == menu_upto(files@, i as int).apps,
        decreases files.len() - i,
    {
        let f: &DesktopFile = &files[i];
        let ghost known = strings(seen@);
        let ghost shown = apps_view(apps@);
        if has_extension(f.path.as_str(), "desktop") {
            let id: String = stem_of(f.path.as_str());
            if !has_string(&seen, id.as_str()) && says(f, "Type", "Application") {
                seen.push(own(id.as_str()));
                assert(strings(seen@) =~= known.push(id@));
                if !says(f, "NoDisplay", "true") && !says(f, "Hidden", "true") && value_in(
                    f,
                    "Exec",
                ).is_some() {
                    let name: String = match value_in(f, "Name") {
                        Some(n) => n,
                        None => own(id.as_str()),
                    };
                    let mask: u8 = match value_in(f, "Categories") {
                        Some(c) => categorize(c.as_str()),
                        None => 0,
                    };
                    let app = AppEntry { id, name, mask };
                    assert(app@ =~= app_of(*f));
                    apps.push(app);
                    assert(apps_view(apps@) =~= shown.push(app_of(*f)));
                }
            }
        }
        i += 1;
    }
    apps
}

/// Whether `a` comes before `b` by the first character in which they differ; a
/// text comes after its own beginning.
pub open spec fn text_before(a: Seq<char>, b: Seq<char>) -> bool
    decreases a.len(),
{
    if b.len() == 0 {
        false
    } else if a.len() == 0 {
        true
    } else if a[0] == b[0] {
        text_before(a.skip(1), b.skip(1))
    } else {
        a[0] < b[0]
    }
}

fn comes_before(a: &str, b: &str) -> (r: bool)
    ensures
        r == text_before(a@, b@),
{
    let x: Vec<char> = chars_of(a);
    let y: Vec<char> = chars_of(b);
    let mut i: usize = 0;
    assert(x@.skip(0) =~= x@);
    assert(y@.skip(0) =~= y@);
    while i < x.len() && i < y.len() && x[i] == y[i]
        invariant
            i <= x.len(),
            i <= y.len(),
            text_before(x@, y@) == text_before(x@.skip(i as int), y@.skip(i as int)),
        decreases x.len() - i,
    {
        assert(x@.skip(i as int).skip(1) =~= x@.skip(i + 1));
        assert(y@.skip(i as int).skip(1) =~= y@.skip(i + 1));
        i += 1;
    }
    if i >= y.len() {
        false
    } else if i >= x.len() {
        true
    } else {
        x[i] < y[i]
    }
}

/// Where an entry with this key goes among sorted ones: before the first that it
/// comes before, so behind its equals.
pub open spec fn slot(keys: Seq<Seq<char>>, key: Seq<char>, i: int) -> int
    decreases keys.len() - i,
{
    if i < 0 || i >= keys.len() || text_before(key, keys[i]) {
        i
    } else {
        slot(keys, key, i + 1)
    }
}

/// Keys and apps, sorted by key.
pub struct Sorted {
    pub keys: Seq<Seq<char>>,
    pub apps: Seq<AppView>,
}

/// The first `n` apps, each put where its key belongs.
pub open spec fn sorted_upto(apps: Seq<AppView>, keys: Seq<Seq<char>>, n: int) -> Sorted
    decreases n,
{
    if n <= 0 {
        Sorted { keys: seq![], apps: seq![] }
    } else {
        let before = sorted_upto(apps, keys, n - 1);
        let at = slot(before.keys, keys[n - 1], 0);
        Sorted {
            keys: before.keys.insert(at, keys[n - 1]),
            apps: before.apps.insert(at, apps[n - 1]),
        }
    }
}

proof fn lemma_slot(keys: Seq<Seq<char>>, key: Seq<char>, i: int)
    requires
        0 <= i <= keys.len(),
    ensures
        i <= slot(keys, key, i) <= keys.len(),
        slot(keys, key, i) < keys.len() ==> text_before(key, keys[slot(keys, key, i)]),
        forall|k: int| i <= k < slot(keys, key, i) ==> !text_before(key, #[trigger] keys[k]),
    decreases keys.len() - i,
{
    if i < keys.len() && !text_before(key, keys[i]) {
        lemma_slot(keys, key, i + 1);
    }
}

/// The apps in the order of their keys; apps with one key stay in the order in
/// which they came.
pub fn sort_apps(apps: Vec<AppEntry>, keys: Vec<String>) -> (r: Vec<AppEntry>)
    requires
        apps.len() == keys.len(),
    ensures
        apps_view(r@) == sorted_upto(apps_view(apps@), strings(keys@), apps@.len() as int).apps,
{
    let ghost all = apps_view(apps@);
    let ghost by = strings(keys@);
    let n: usize = apps.len();
    let mut apps = apps;
    let mut out: Vec<AppEntry> = Vec::new();
    let mut order: Vec<String> = Vec::new();
    let mut i: usize = 0;
    assert(apps_view(out@) =~= seq![]);
    assert(strings(order@) =~= seq![]);
    assert(apps_view(apps@) =~= all.skip(0));
    while i < n
        invariant
            i <= n,
            n == all.len(),
            n == by.len(),
            n == keys.len(),
            by == strings(keys@),
            apps_view(apps@) == all.skip(i as int),
            apps_view(out@) == sorted_upto(all, by, i as int).apps,
            strings(order@) == sorted_upto(all, by, i as int).keys,
            out.len() == i,
            order.len() == i,
        decreases n - i,
    {
        assert(apps_view(apps@).len() == apps@.len());
        assert(all.skip(i as int)[0] == all[i as int]);
        assert(apps_view(apps@)[0] == apps@[0]@);
        let ghost rest = apps@;
        let app: AppEntry = apps.remove(0);
        assert(apps_view(apps@) =~= all.skip(i + 1)) by {
            assert forall|k: int| 0 <= k < apps@.len() implies apps_view(apps@)[k] == all.skip(
                i + 1,
            )[k] by {
                assert(apps@[k] == rest[k + 1]);
                assert(apps_view(rest)[k + 1] == all.skip(i as int)[k + 1]);
            }
        }
        assert(app@ == all[i as int]);
        let key: String = own(keys[i].as_str());
        assert(by[i as int] == keys@[i as int]@);
        let ghost ks = strings(order@);
        assert(ks.len() == order@.len());
        let mut at: usize = 0;
        while at < order.len() && !comes_before(key.as_str(), order[at].as_str())
            invariant
                at <= order.len(),
                ks == strings(order@),
                slot(ks, key@, 0) == slot(ks, key@, at as int),
            decreases order.len() - at,
        {
            assert(ks[at as int] == order@[at as int]@);
            at += 1;
        }
        assert(at < order.len() ==> ks[at as int] == order@[at as int]@);
        let ghost shown = apps_view(out@);
        out.insert(at, app);
        order.insert(at, key);
        assert(apps_view(out@) =~= shown.insert(at as int, all[i as int]));
        assert(strings(order@) =~= ks.insert(at as int, by[i as int]));
        i += 1;
    }
    out
}

/// The names in lower case, among the first `n`.
pub open spec fn lower_names(apps: Seq<AppView>, n: int) -> Seq<Seq<char>>
    decreases n,
{
    if n <= 0 {
        seq![]
    } else {
        lower_names(apps, n - 1).push(lowercase(apps[n - 1].name))
    }
}

/// Enumerate launchable desktop applications across the data directories' files,
/// highest priority first, each app id once, sorted case-insensitively by name.
/// Skips entries that aren't applications, are hidden, or have no `Exec`.
pub fn list_desktop_apps(files: &Vec<DesktopFile>) -> (r: Vec<AppEntry>)
    ensures
        ({
            let apps = menu_upto(files@, files.len() as int).apps;
            apps_view(r@) == sorted_upto(
                apps,
                lower_names(apps, apps.len() as int),
                apps.len() as int,
            ).apps
        }),
{
    let apps: Vec<AppEntry> = collect_apps(files);
    let ghost all = apps_view(apps@);
    assert(all.len() == apps@.len());
    let mut keys: Vec<String> = Vec::new();
    let mut i: usize = 0;
    assert(strings(keys@) =~= seq![]);
    while i < apps.len()
        invariant
            i <= apps.len(),
            all == apps_view(apps@),
            strings(keys@) == lower_names(all, i as int),
            keys.len() == i,
        decreases apps.len() - i,
    {
        let ghost done = strings(keys@);
        assert(all[i as int] == apps@[i as int]@);
        let key: String = apps[i].name.as_str().to_lowercase();
        keys.push(key);
        assert(strings(keys@) =~= done.push(key@));
        i += 1;
    }
    sort_apps(apps, keys)
}


// ---------------------------------------------------------------------------
// Which icons are tried
// ---------------------------------------------------------------------------

/// The base of a window's app id: without `-client` or `client` at its end, if
/// anything is left.
pub open spec fn alias_of(app_id: Seq<char>) -> Option<Seq<char>> {
    let lower = ascii_lower_all(app_id);
    match (strip_suffix(lower, "-client"@), strip_suffix(lower, "client"@)) {
        (Some(b), _) if b.len() > 0 => Some(b),
        (_, Some(b)) if b.len() > 0 => Some(b),
        _ => None,
    }
}

/// Map a window's app id to a base app id for known launcher/window mismatches:
/// server/client app pairs name their windows after the *client* (`foot
/// --server` has windows of `footclient`). `None` when there's nothing to alias.
pub fn app_id_alias(app_id: &str) -> (r: Option<String>)
    ensures
        opt_str(r) == alias_of(app_id@),
{
    let chars: Vec<char> = chars_of(app_id);
    let lower: Vec<char> = lower_all(chars.as_slice());
    if let Some(base) = without_suffix(lower.as_slice(), "-client") {
        if base.len() > 0 {
            return Some(string_of(base));
        }
    }
    if let Some(base) = without_suffix(lower.as_slice(), "client") {
        if base.len() > 0 {
            return Some(string_of(base));
        }
    }
    None
}

proof fn lemma_alias_shorter(app_id: Seq<char>)
    ensures
        alias_of(app_id) matches Some(b) ==> b.len() < app_id.len(),
{
    reveal_strlit("-client");
    reveal_strlit("client");
    assert(ascii_lower_all(app_id).len() == app_id.len());
}

/// One way to come by an icon.
#[derive(Debug, Clone, PartialEq, Eq)]
pub enum IconAttempt {
    /// By the icon that the app's desktop entry names. Most accurate.
    Declared { app_id: String },
    /// By the id itself as an icon's name, or else by the id in lower case: many
    /// apps name their windows after their icon.
    Named { app_id: String },
}

pub enum AttemptView {
    Declared(Seq<char>),
    Named(Seq<char>),
}

impl View for IconAttempt {
    type V = AttemptView;

    open spec fn view(&self) -> AttemptView {
        match *self {
            IconAttempt::Declared { app_id } => AttemptView::Declared(app_id@),
            IconAttempt::Named { app_id } => AttemptView::Named(app_id@),
        }
    }
}

pub open spec fn attempts_view(v: Seq<IconAttempt>) -> Seq<AttemptView> {
    v.map_values(|a: IconAttempt| a@)
}

/// The attempts for an id, then those for its base.
pub open spec fn attempts_of(app_id: Seq<char>, fuel: nat) -> Seq<AttemptView>
    decreases fuel,
{
    let id = trim(app_id);
    if id.len() == 0 || fuel == 0 {
        seq![]
    } else {
        seq![AttemptView::Declared(id), AttemptView::Named(id)] + (match alias_of(id) {
            Some(base) => attempts_of(base, (fuel - 1) as nat),
            None => seq![],
        })
    }
}

/// The ways to come by an app's icon, in the order in which they are tried. An
/// app's own ones come before those of its base; a blank id has none.
pub open spec fn icon_plan(app_id: Seq<char>) -> Seq<AttemptView> {
    attempts_of(app_id, app_id.len() + 1)
}

proof fn lemma_enough_fuel(app_id: Seq<char>, fuel: nat)
    requires
        fuel >= app_id.len() + 1,
    ensures
        attempts_of(app_id, fuel) == attempts_of(app_id, (app_id.len() + 1) as nat),
    decreases app_id.len(),
{
    let id = trim(app_id);
    lemma_trim(app_id);
    assert(id.len() <= app_id.len()) by {
        lemma_trim_len(app_id);
    }
    if id.len() > 0 {
        lemma_alias_shorter(id);
        if let Some(base) = alias_of(id) {
            lemma_enough_fuel(base, (fuel - 1) as nat);
            lemma_enough_fuel(base, app_id.len());
        }
    }
}

/// The ways to come by an app's icon, in the order in which they are tried.
pub fn icon_attempts(app_id: &str) -> (r: Vec<IconAttempt>)
    ensures
        attempts_view(r@) == icon_plan(app_id@),
{
    let mut out: Vec<IconAttempt> = Vec::new();
    let mut id: String = own(app_id);
    assert(attempts_view(out@) + icon_plan(id@) =~= icon_plan(app_id@));
    loop
        invariant_except_break
            attempts_view(out@) + icon_plan(id@) == icon_plan(app_id@),
        ensures
            attempts_view(out@) == icon_plan(app_id@),
        decreases id@.len(),
    {
        let ghost done = attempts_view(out@);
        let ghost before = id@;
        let chars: Vec<char> = chars_of(id.as_str());
        let plain: &[char] = trimmed(chars.as_slice());
        proof {
            lemma_trim_len(before);
            lemma_alias_shorter(trim(before));
        }
        if plain.len() == 0 {
            assert(done =~= done + Seq::<AttemptView>::empty());
            break ;
        }
        let own_id: String = string_of(plain);
        out.push(IconAttempt::Declared { app_id: own(own_id.as_str()) });
        out.push(IconAttempt::Named { app_id: own(own_id.as_str()) });
        let ghost now = attempts_view(out@);
        assert(now =~= done + seq![
            AttemptView::Declared(own_id@),
            AttemptView::Named(own_id@),
        ]);
        match app_id_alias(own_id.as_str()) {
            Some(base) => {
                proof {
                    lemma_enough_fuel(base@, before.len());
                    assert(now + icon_plan(base@) =~= done + icon_plan(before));
                }
                id = base;
            },
            None => {
                assert(now =~= done + icon_plan(before));
                break ;
            },
        }
    }
    out
}

/// A decoded icon: tightly packed RGBA, straight alpha.
#[derive(Debug, Clone, PartialEq, Eq)]
pub struct Icon {
    pub rgba: Vec<u8>,
    pub width: u32,
    pub height: u32,
}

impl Icon {
    /// Whether there are pixels, and four bytes for each of them.
    pub open spec fn packed(self) -> bool {
        &&& self.width > 0
        &&& self.height > 0
        &&& self.rgba@.len() == 4 * self.width * self.height
    }
}

/// Whether every icon among the outcomes is packed.
pub open spec fn all_packed(outcomes: Seq<Option<Icon>>) -> bool {
    forall|i: int| 0 <= i < outcomes.len() ==> (#[trigger] outcomes[i] matches Some(icon)
        ==> icon.packed())
}

/// The names under which an app's id itself is looked for, in order: many apps
/// set it to the name of their icon, in whatever case.
pub fn icon_names(app_id: &str) -> (r: Vec<String>)
    ensures
        strings(r@) == seq![app_id@, lowercase(app_id@)],
{
    let mut r: Vec<String> = Vec::new();
    r.push(own(app_id));
    r.push(app_id.to_lowercase());
    assert(strings(r@) =~= seq![app_id@, lowercase(app_id@)]);
    r
}

/// The first outcome at or after `i` that gave an icon; the length where none
/// did.
pub open spec fn first_icon(outcomes: Seq<Option<Icon>>, i: int) -> int
    decreases outcomes.len() - i,
{
    if i < 0 || i >= outcomes.len() {
        outcomes.len() as int
    } else if outcomes[i] is Some {
        i
    } else {
        first_icon(outcomes, i + 1)
    }
}

proof fn lemma_first_icon(outcomes: Seq<Option<Icon>>, i: int)
    requires
        0 <= i <= outcomes.len(),
    ensures
        i <= first_icon(outcomes, i) <= outcomes.len(),
    decreases outcomes.len() - i,
{
    if i < outcomes.len() && outcomes[i] is None {
        lemma_first_icon(outcomes, i + 1);
    }
}

/// White space around an app id makes no difference to where its icon is looked
/// for.
pub proof fn law_padded_id(app_id: Seq<char>)
    ensures
        icon_plan(trim(app_id)) == icon_plan(app_id),
{
    lemma_trim(app_id);
    lemma_trim_len(app_id);
    let fuel = (app_id.len() + 1) as nat;
    lemma_enough_fuel(trim(app_id), fuel);
    assert(attempts_of(trim(app_id), fuel) == attempts_of(app_id, fuel));
}

/// Resolve an app id to its icon, given what the attempts of [`icon_attempts`]
/// gave, in their order: the first that succeeded. Outcomes beyond the attempts
/// do not count, so a blank id has no icon.
pub fn resolve_icon_rgba(app_id: &str, outcomes: Vec<Option<Icon>>) -> (r: Option<Icon>)
    requires
        all_packed(outcomes@),
    ensures
        r matches Some(icon) ==> icon.packed(),
        trim(app_id@).len() == 0 ==> r is None,
        ({
            let k = first_icon(outcomes@, 0);
            r == (if k < outcomes@.len() && k < icon_plan(app_id@).len() {
                outcomes@[k]
            } else {
                None
            })
        }),
{
    let plan: Vec<IconAttempt> = icon_attempts(app_id);
    assert(attempts_view(plan@).len() == plan@.len());
    proof {
        lemma_first_icon(outcomes@, 0);
    }
    first_of(outcomes, plan.len())
}

/// The first icon among the first `limit` outcomes.
fn first_of(outcomes: Vec<Option<Icon>>, limit: usize) -> (r: Option<Icon>)
    requires
        all_packed(outcomes@),
    ensures
        r matches Some(icon) ==> icon.packed(),
        ({
            let k = first_icon(outcomes@, 0);
            r == (if k < outcomes@.len() && k < limit {
                outcomes@[k]
            } else {
                None
            })
        }),
{
    let mut outcomes = outcomes;
    let ghost all = outcomes@;
    let mut i: usize = 0;
    while i < outcomes.len() && outcomes[i].is_none()
        invariant
            i <= outcomes.len(),
            outcomes@ == all,
            first_icon(all, 0) == first_icon(all, i as int),
        decreases outcomes.len() - i,
    {
        i += 1;
    }
    if i < outcomes.len() && i < limit {
        assert(all[i as int] == outcomes@[i as int]);
        outcomes.remove(i)
    } else {
        None
    }
}

/// The names tried for an app whose own icon cannot be resolved, in order.
pub open spec fn generic_names() -> Seq<Seq<char>> {
    seq!["application-x-executable"@, "applications-other"@, "application-default-icon"@]
}

/// The names of generic application icons, in order, so that a tile is never
/// blank.
pub fn generic_icon_names() -> (r: Vec<String>)
    ensures
        strings(r@) == generic_names(),
{
    let names: Vec<&str> = vec![
        "application-x-executable",
        "applications-other",
        "application-default-icon",
    ];
    assert(strs(names@) =~= generic_names());
    own_all(&names)
}

/// A generic application icon for an app whose own cannot be resolved, given what
/// the names of [`generic_icon_names`] gave, in their order: the first.
pub fn generic_fallback_icon(outcomes: Vec<Option<Icon>>) -> (r: Option<Icon>)
    requires
        all_packed(outcomes@),
    ensures
        r matches Some(icon) ==> icon.packed(),
        ({
            let k = first_icon(outcomes@, 0);
            r == (if k < outcomes@.len() && k < generic_names().len() {
                outcomes@[k]
            } else {
                None
            })
        }),
{
    first_of(outcomes, 3)
}

// ---------------------------------------------------------------------------
// Where an icon's file is
// ---------------------------------------------------------------------------

/// Icon-theme sizes that are probed, largest useful one first.
pub open spec fn icon_sizes() -> Seq<Seq<char>> {
    seq!["64x64"@, "48x48"@, "128x128"@, "32x32"@, "256x256"@]
}

/// The size handed to the theme resolver.
pub const ICON_LOOKUP_SIZE: u16 = 64;

/// The places probed below one data directory: every raster size, then the
/// scalable one.
pub open spec fn hicolor_paths(root: Seq<char>, icon: Seq<char>) -> Seq<Seq<char>> {
    let base = path_join(root, "icons/hicolor"@);
    seq![
        path_join(path_join(path_join(base, icon_sizes()[0]), "apps"@), icon + ".png"@),
        path_join(path_join(path_join(base, icon_sizes()[1]), "apps"@), icon + ".png"@),
        path_join(path_join(path_join(base, icon_sizes()[2]), "apps"@), icon + ".png"@),
        path_join(path_join(path_join(base, icon_sizes()[3]), "apps"@), icon + ".png"@),
        path_join(path_join(path_join(base, icon_sizes()[4]), "apps"@), icon + ".png"@),
        path_join(path_join(base, "scalable/apps"@), icon + ".svg"@),
    ]
}

pub open spec fn probes_upto(roots: Seq<Seq<char>>, icon: Seq<char>, n: int) -> Seq<Seq<char>>
    decreases n,
{
    if n <= 0 {
        seq![]
    } else {
        probes_upto(roots, icon, n - 1) + hicolor_paths(roots[n - 1], icon)
    }
}

/// Every place probed for a named icon: below each data directory, then the
/// legacy flat directory.
pub open spec fn probes(roots: Seq<Seq<char>>, icon: Seq<char>) -> Seq<Seq<char>> {
    probes_upto(roots, icon, roots.len() as int) + seq![
        "/usr/share/pixmaps/"@ + icon + ".png"@,
        "/usr/share/pixmaps/"@ + icon + ".svg"@,
    ]
}

fn sized_path(base: &str, size: &str, file: &str) -> (r: String)
    ensures
        r@ == path_join(path_join(path_join(base@, size@), "apps"@), file@),
{
    let dir: String = join_path(base, size);
    let apps: String = join_path(dir.as_str(), "apps");
    join_path(apps.as_str(), file)
}

fn paths_below(root: &str, icon: &str) -> (r: Vec<String>)
    ensures
        strings(r@) == hicolor_paths(root@, icon@),
{
    let png: String = concat2(icon, ".png");
    let svg: String = concat2(icon, ".svg");
    let base: String = join_path(root, "icons/hicolor");
    let scalable: String = join_path(base.as_str(), "scalable/apps");
    let mut out: Vec<String> = Vec::new();
    out.push(sized_path(base.as_str(), "64x64", png.as_str()));
    out.push(sized_path(base.as_str(), "48x48", png.as_str()));
    out.push(sized_path(base.as_str(), "128x128", png.as_str()));
    out.push(sized_path(base.as_str(), "32x32", png.as_str()));
    out.push(sized_path(base.as_str(), "256x256", png.as_str()));
    out.push(join_path(scalable.as_str(), svg.as_str()));
    assert(strings(out@) =~= hicolor_paths(root@, icon@));
    out
}

/// The places probed for a named icon where no theme has it, in order.
pub fn icon_probes(roots: &Vec<String>, icon: &str) -> (r: Vec<String>)
    ensures
        strings(r@) == probes(strings(roots@), icon@),
{
    let mut out: Vec<String> = Vec::new();
    let mut i: usize = 0;
    let ghost all = strings(roots@);
    assert(all.len() == roots@.len());
    assert(strings(out@) =~= seq![]);
    while i < roots.len()
        invariant
            i <= roots.len(),
            all == strings(roots@),
            strings(out@) == probes_upto(all, icon@, i as int),
        decreases roots.len() - i,
    {
        let ghost done = strings(out@);
        assert(all[i as int] == roots@[i as int]@);
        let mut below: Vec<String> = paths_below(roots[i].as_str(), icon);
        let ghost more = strings(below@);
        out.append(&mut below);
        assert(strings(out@) =~= done + more);
        i += 1;
    }
    let ghost done = strings(out@);
    out.push(concat3("/usr/share/pixmaps/", icon, ".png"));
    out.push(concat3("/usr/share/pixmaps/", icon, ".svg"));
    assert(strings(out@) =~= done + seq![
        "/usr/share/pixmaps/"@ + icon@ + ".png"@,
        "/usr/share/pixmaps/"@ + icon@ + ".svg"@,
    ]);
    out
}

pub open spec fn absolute(path: Seq<char>) -> bool {
    path.len() > 0 && path[0] == '/'
}

/// Whether an icon's file can be decoded: PNG and SVG can.
pub open spec fn icon_file(path: Seq<char>) -> bool {
    extension(path) == Some("png"@) || extension(path) == Some("svg"@)
}

/// What the disk says of an icon's name: whether it is a file itself, what the
/// first theme that has it gives, and which of the places probed are files.
#[derive(Debug, Clone, PartialEq, Eq)]
pub struct IconFacts {
    pub is_file: bool,
    pub themed: Option<String>,
    pub probed: Vec<bool>,
}

pub open spec fn icon_path(icon: Seq<char>, roots: Seq<Seq<char>>, facts: IconFacts) -> Option<
    Seq<char>,
> {
    let k = first_set(facts.probed@, 0);
    if absolute(icon) {
        if icon_file(icon) && facts.is_file {
            Some(icon)
        } else {
            None
        }
    } else if let Some(p) = facts.themed {
        Some(p@)
    } else if k < facts.probed@.len() && k < probes(roots, icon).len() {
        Some(probes(roots, icon)[k])
    } else {
        None
    }
}

/// Map an icon's name to a file: an absolute path is used as it is if it is a
/// PNG or an SVG; a bare name goes by the icon themes, then by the places that
/// are probed below the data directories.
pub fn resolve_icon_path(icon: &str, roots: &Vec<String>, facts: &IconFacts) -> (r: Option<String>)
    ensures
        opt_str(r) == icon_path(icon@, strings(roots@), *facts),
{
    let chars: Vec<char> = chars_of(icon);
    if chars.len() > 0 && chars[0] == '/' {
        if (has_extension(icon, "png") || has_extension(icon, "svg")) && facts.is_file {
            return Some(own(icon));
        }
        return None;
    }
    if let Some(p) = &facts.themed {
        return Some(own(p.as_str()));
    }
    let paths: Vec<String> = icon_probes(roots, icon);
    assert(strings(paths@).len() == paths@.len());
    let k: usize = first_true(&facts.probed);
    if k < facts.probed.len() && k < paths.len() {
        assert(strings(paths@)[k as int] == paths@[k as int]@);
        Some(own(paths[k].as_str()))
    } else {
        None
    }
}

/// How an icon's file is decoded.
#[derive(Debug, Clone, Copy, PartialEq, Eq, Structural)]
pub enum IconFormat {
    Svg,
    Png,
    Unknown,
}

/// How an icon's file is decoded, by its extension.
pub fn icon_format(path: &str) -> (r: IconFormat)
    ensures
        r == (if extension(path@) == Some("svg"@) {
            IconFormat::Svg
        } else if extension(path@) == Some("png"@) {
            IconFormat::Png
        } else {
            IconFormat::Unknown
        }),
{
    if has_extension(path, "svg") {
        IconFormat::Svg
    } else if has_extension(path, "png") {
        IconFormat::Png
    } else {
        IconFormat::Unknown
    }
}

// ---------------------------------------------------------------------------
// Icon themes
// ---------------------------------------------------------------------------

/// The theme that one line of a `settings.ini` names, if it does.
pub open spec fn theme_line(line: Seq<char>) -> Option<Seq<char>> {
    match strip_prefix(trim(line), "gtk-icon-theme-name"@) {
        None => None,
        Some(rest) => match strip_prefix(trim_start(rest), "="@) {
            None => None,
            Some(val) => {
                let name = trim(strip_run_back(strip_run(trim(val), '"'), '"'));
                if name.len() == 0 {
                    None
                } else {
                    Some(name)
                }
            },
        },
    }
}

/// The theme that the lines from `i` on name first.
pub open spec fn theme_from(ls: Seq<Seq<char>>, i: int) -> Option<Seq<char>>
    decreases ls.len() - i,
{
    if i < 0 || i >= ls.len() {
        None
    } else {
        match theme_line(ls[i]) {
            Some(t) => Some(t),
            None => theme_from(ls, i + 1),
        }
    }
}

pub open spec fn theme_in(text: Option<Seq<char>>) -> Option<Seq<char>> {
    match text {
        Some(t) => theme_from(lines(t), 0),
        None => None,
    }
}

fn read_theme_line(line: &[char]) -> (r: Option<String>)
    ensures
        opt_str(r) == theme_line(line@),
{
    match without_prefix(trimmed(line), "gtk-icon-theme-name") {
        None => None,
        Some(rest) => match without_prefix(trimmed_start(rest), "=") {
            None => None,
            Some(val) => {
                let bare: &[char] = without_run_back(without_run(trimmed(val), '"'), '"');
                let name: &[char] = trimmed(bare);
                if name.len() == 0 {
                    None
                } else {
                    Some(string_of(name))
                }
            },
        },
    }
}

fn read_theme(text: Option<&str>) -> (r: Option<String>)
    ensures
        opt_str(r) == theme_in(opt_ref(text)),
{
    let t: &str = match text {
        Some(t) => t,
        None => {
            return None;
        },
    };
    let chars: Vec<char> = chars_of(t);
    let ls: Vec<&[char]> = lines_of(chars.as_slice());
    let ghost all = lines(t@);
    assert(all.len() == ls.len());
    let mut i: usize = 0;
    while i < ls.len()
        invariant
            i <= ls.len(),
            text == Some(t),
            all == lines(t@),
            texts(ls@) == all,
            all.len() == ls.len(),
            theme_from(all, 0) == theme_from(all, i as int),
        decreases ls.len() - i,
    {
        assert(all[i as int] == ls@[i as int]@);
        if let Some(name) = read_theme_line(ls[i]) {
            return Some(name);
        }
        i += 1;
    }
    None
}

/// The user's configured GTK icon theme, from the `settings.ini` of GTK 4, else
/// of GTK 3, or `None` when unset.
pub fn configured_icon_theme(gtk4: Option<&str>, gtk3: Option<&str>) -> (r: Option<String>)
    ensures
        opt_str(r) == (match theme_in(opt_ref(gtk4)) {
            Some(t) => Some(t),
            None => theme_in(opt_ref(gtk3)),
        }),
{
    match read_theme(gtk4) {
        Some(t) => Some(t),
        None => read_theme(gtk3),
    }
}

/// The first `n` names, each once.
pub open spec fn distinct_upto(names: Seq<Seq<char>>, n: int) -> Seq<Seq<char>>
    decreases n,
{
    if n <= 0 {
        seq![]
    } else if distinct_upto(names, n - 1).contains(names[n - 1]) {
        distinct_upto(names, n - 1)
    } else {
        distinct_upto(names, n - 1).push(names[n - 1])
    }
}

/// The icon themes found below the data directories, each once, in the order in
/// which they were met.
pub fn installed_icon_themes(found: &Vec<String>) -> (r: Vec<String>)
    ensures
        strings(r@) == distinct_upto(strings(found@), found.len() as int),
{
    let mut out: Vec<String> = Vec::new();
    let mut i: usize = 0;
    let ghost all = strings(found@);
    assert(strings(out@) =~= seq![]);
    while i < found.len()
        invariant
            i <= found.len(),
            all == strings(found@),
            strings(out@) == distinct_upto(all, i as int),
        decreases found.len() - i,
    {
        let ghost done = strings(out@);
        assert(all[i as int] == found@[i as int]@);
        if !has_string(&out, found[i].as_str()) {
            out.push(own(found[i].as_str()));
            assert(strings(out@) =~= done.push(all[i as int]));
        }
        i += 1;
    }
    out
}

/// Themes complete enough to have the standard names, in order.
pub open spec fn full_themes() -> Seq<Seq<char>> {
    seq![
        "breeze"@,
        "Adwaita"@,
        "Papirus"@,
        "Papirus-Dark"@,
        "Yaru"@,
        "elementary"@,
        "Tela"@,
    ]
}

/// The first name at or after `i` that is `t` but for the case of its letters;
/// the length where none is.
pub open spec fn find_loosely(names: Seq<Seq<char>>, t: Seq<char>, i: int) -> int
    decreases names.len() - i,
{
    if i < 0 || i >= names.len() {
        names.len() as int
    } else if same_ignoring_case(names[i], t) {
        i
    } else {
        find_loosely(names, t, i + 1)
    }
}

pub open spec fn has_loosely(names: Seq<Seq<char>>, t: Seq<char>) -> bool {
    find_loosely(names, t, 0) < names.len()
}

/// The list with the installed theme of a preferred name added, unless there is
/// none or it is listed.
pub open spec fn with_preferred(
    out: Seq<Seq<char>>,
    installed: Seq<Seq<char>>,
    pref: Seq<char>,
) -> Seq<Seq<char>> {
    let k = find_loosely(installed, pref, 0);
    if k < installed.len() && !has_loosely(out, installed[k]) {
        out.push(installed[k])
    } else {
        out
    }
}

pub open spec fn preferred_upto(
    out: Seq<Seq<char>>,
    installed: Seq<Seq<char>>,
    n: int,
) -> Seq<Seq<char>>
    decreases n,
{
    if n <= 0 {
        out
    } else {
        with_preferred(preferred_upto(out, installed, n - 1), installed, full_themes()[n - 1])
    }
}

/// The list with the first `n` installed themes added, but for the fallback and
/// those that are listed.
pub open spec fn others_upto(
    out: Seq<Seq<char>>,
    installed: Seq<Seq<char>>,
    n: int,
) -> Seq<Seq<char>>
    decreases n,
{
    if n <= 0 {
        out
    } else {
        let before = others_upto(out, installed, n - 1);
        let t = installed[n - 1];
        if !same_ignoring_case(t, "hicolor"@) && !before.contains(t) {
            before.push(t)
        } else {
            before
        }
    }
}

pub open spec fn with_fallback(out: Seq<Seq<char>>) -> Seq<Seq<char>> {
    if has_loosely(out, "hicolor"@) {
        out
    } else {
        out.push("hicolor"@)
    }
}

pub open spec fn candidates_of(configured: Option<Seq<char>>, installed: Seq<Seq<char>>) -> Seq<
    Seq<char>,
> {
    let first = match configured {
        Some(c) => seq![c],
        None => seq![],
    };
    let preferred = preferred_upto(first, installed, full_themes().len() as int);
    with_fallback(others_upto(preferred, installed, installed.len() as int))
}

fn loosely(names: &Vec<String>, t: &str) -> (r: usize)
    ensures
        r == find_loosely(strings(names@), t@, 0),
        r <= names.len(),
{
    let mut i: usize = 0;
    let ghost all = strings(names@);
    assert(all.len() == names@.len());
    while i < names.len()
        invariant
            i <= names.len(),
            all == strings(names@),
            all.len() == names@.len(),
            find_loosely(all, t@, 0) == find_loosely(all, t@, i as int),
        decreases names.len() - i,
    {
        assert(all[i as int] == names@[i as int]@);
        let chars: Vec<char> = chars_of(names[i].as_str());
        if is_str_ignoring_case(chars.as_slice(), t) {
            return i;
        }
        i += 1;
    }
    i
}

fn push_preferred(out: &mut Vec<String>, installed: &Vec<String>, pref: &str)
    ensures
        strings(final(out)@) == with_preferred(strings(old(out)@), strings(installed@), pref@),
{
    let ghost before = strings(out@);
    let ghost all = strings(installed@);
    assert(all.len() == installed@.len());
    let k: usize = loosely(installed, pref);
    if k < installed.len() {
        assert(all[k as int] == installed@[k as int]@);
        assert(before.len() == out@.len());
        if loosely(out, installed[k].as_str()) >= out.len() {
            out.push(own(installed[k].as_str()));
            assert(strings(out@) =~= before.push(all[k as int]));
        }
    }
}

/// Icon themes to try, best first: the configured one, then the most complete
/// installed themes (so standard names resolve even with no configuration), then
/// any other installed theme, and `hicolor` as the fallback.
pub fn icon_theme_candidates(configured: Option<&str>, installed: &Vec<String>) -> (r: Vec<String>)
    ensures
        strings(r@) == candidates_of(opt_ref(configured), strings(installed@)),
{
    let mut out: Vec<String> = Vec::new();
    if let Some(c) = configured {
        out.push(own(c));
    }
    let ghost all = strings(installed@);
    assert(all.len() == installed@.len());
    let ghost first = strings(out@);
    assert(first =~= match opt_ref(configured) {
        Some(c) => seq![c],
        None => seq![],
    });
    push_preferred(&mut out, installed, "breeze");
    push_preferred(&mut out, installed, "Adwaita");
    push_preferred(&mut out, installed, "Papirus");
    push_preferred(&mut out, installed, "Papirus-Dark");
    push_preferred(&mut out, installed, "Yaru");
    push_preferred(&mut out, installed, "elementary");
    push_preferred(&mut out, installed, "Tela");
    let ghost preferred = strings(out@);
    assert(preferred == preferred_upto(first, all, 7)) by {
        reveal_with_fuel(preferred_upto, 8);
    }
    let mut i: usize = 0;
    while i < installed.len()
        invariant
            i <= installed.len(),
            all == strings(installed@),
            strings(out@) == others_upto(preferred, all, i as int),
        decreases installed.len() - i,
    {
        let ghost before = strings(out@);
        assert(all[i as int] == installed@[i as int]@);
        let t: &str = installed[i].as_str();
        let chars: Vec<char> = chars_of(t);
        if !is_str_ignoring_case(chars.as_slice(), "hicolor") && !has_string(&out, t) {
            out.push(own(t));
            assert(strings(out@) =~= before.push(all[i as int]));
        }
        i += 1;
    }
    let ghost before = strings(out@);
    assert(before.len() == out@.len());
    if loosely(&out, "hicolor") >= out.len() {
        out.push(own("hicolor"));
        assert(strings(out@) =~= before.push("hicolor"@));
    }
    out
}


// ---------------------------------------------------------------------------
// Decoding
// ---------------------------------------------------------------------------

/// An icon from a decoded picture; one without pixels is none.
pub fn icon_from(picture: Option<Picture>) -> (r: Option<Icon>)
    requires
        picture matches Some(p) ==> p.0@.len() == 4 * p.1 * p.2,
    ensures
        r matches Some(icon) ==> icon.packed(),
        match (r, picture) {
            (Some(i), Some(p)) => p.1 > 0 && p.2 > 0 && i.rgba@ == p.0@ && i.width == p.1 && i.height
                == p.2,
            (None, Some(p)) => p.1 == 0 || p.2 == 0,
            (None, None) => true,
            _ => false,
        },
{
    match picture {
        Some((rgba, width, height)) => {
            if width == 0 || height == 0 {
                None
            } else {
                Some(Icon { rgba, width, height })
            }
        },
        None => None,
    }
}

/// Decode the bytes of a PNG file into an icon. `None` where they are no PNG, or
/// one without pixels.
pub fn decode_png_rgba(bytes: &[u8]) -> (r: Option<Icon>)
    ensures
        match (r, png_picture(bytes@)) {
            (Some(i), Some(p)) => {
                &&& p.1 > 0 && p.2 > 0
                &&& i.rgba@ == p.0 && i.width == p.1 && i.height == p.2
                &&& i.packed()
            },
            (None, Some(p)) => p.1 == 0 || p.2 == 0,
            (None, None) => true,
            _ => false,
        },
{
    let picture: Option<Picture> = decode_png(bytes);
    icon_from(picture)
}

/// Side of the square that SVGs are rasterised in.
pub const SVG_RASTER_PX: u32 = 128;

/// An icon from the premultiplied pixels of a rasterised SVG.
pub fn icon_from_svg(pixels: Vec<u8>) -> (r: Icon)
    requires
        pixels@.len() == 4 * SVG_RASTER_PX * SVG_RASTER_PX,
    ensures
        r.packed(),
        r.rgba@ == straightened(pixels@),
        r.width == SVG_RASTER_PX,
        r.height == SVG_RASTER_PX,
{
    let mut rgba = pixels;
    unpremultiply(&mut rgba);
    Icon { rgba, width: SVG_RASTER_PX, height: SVG_RASTER_PX }
}

// ---------------------------------------------------------------------------
// Laws
// ---------------------------------------------------------------------------

proof fn lemma_arguments_nonempty(tokens: Seq<Seq<char>>, n: int)
    ensures
        forall|k: int|
            0 <= k < arguments_upto(tokens, n).len() ==> (#[trigger] arguments_upto(tokens, n)[k]).len()
                > 0,
    decreases n,
{
    if n > 0 {
        lemma_arguments_nonempty(tokens, n - 1);
        let before = arguments_upto(tokens, n - 1);
        let r = arguments_upto(tokens, n);
        assert forall|k: int| 0 <= k < r.len() implies (#[trigger] r[k]).len() > 0 by {
            if k < before.len() {
                assert(r[k] == before[k]);
            }
        }
    }
}

/// No argument of a command line is empty.
pub proof fn law_arguments_nonempty(s: Seq<char>)
    ensures
        forall|k: int| 0 <= k < arguments(s).len() ==> (#[trigger] arguments(s)[k]).len() > 0,
{
    let tokens = tokens_from(s, 0, seq![], false);
    lemma_arguments_nonempty(tokens, tokens.len() as int);
}

proof fn lemma_expanded_plain(s: Seq<char>, i: int)
    requires
        0 <= i <= s.len(),
        !s.contains('%'),
    ensures
        expanded_from(s, i) == s.skip(i),
    decreases s.len() - i,
{
    if i < s.len() {
        assert(s.contains(s[i]));
        lemma_expanded_plain(s, i + 1);
        assert(s.skip(i) =~= seq![s[i]] + s.skip(i + 1));
    } else {
        assert(s.skip(i) =~= seq![]);
    }
}

/// A token without a percent sign is kept as it is.
pub proof fn law_no_codes_no_change(s: Seq<char>)
    requires
        !s.contains('%'),
    ensures
        expanded(s) == s,
{
    lemma_expanded_plain(s, 0);
    assert(s.skip(0) =~= s);
}

proof fn lemma_tokens_word(s: Seq<char>, i: int, cur: Seq<char>, open: bool)
    requires
        0 <= i <= s.len(),
        open || i < s.len(),
        forall|k: int| i <= k < s.len() ==> !is_whitespace(s[k]) && s[k] != '"',
    ensures
        tokens_from(s, i, cur, open) == seq![cur + s.skip(i)],
    decreases s.len() - i,
{
    if i < s.len() {
        lemma_tokens_word(s, i + 1, cur.push(s[i]), true);
        assert(cur.push(s[i]) + s.skip(i + 1) =~= cur + s.skip(i));
    } else {
        assert(cur + s.skip(i) =~= cur);
    }
}

/// A command of one plain word is that word.
pub proof fn law_plain_word(s: Seq<char>)
    requires
        s.len() > 0,
        forall|k: int| 0 <= k < s.len() ==> !is_whitespace(s[k]) && s[k] != '"' && s[k] != '%',
    ensures
        arguments(s) == seq![s],
{
    lemma_tokens_word(s, 0, seq![], false);
    assert(Seq::<char>::empty() + s.skip(0) =~= s);
    assert(!s.contains('%'));
    law_no_codes_no_change(s);
    reveal_with_fuel(arguments_upto, 2);
    assert(arguments(s) =~= seq![s]);
}

/// How a text is written inside double quotes: with a backslash before what is
/// escapable.
pub open spec fn exec_escaped(s: Seq<char>) -> Seq<char>
    decreases s.len(),
{
    if s.len() == 0 {
        seq![]
    } else if escapable(s[0]) {
        seq!['\\', s[0]] + exec_escaped(s.skip(1))
    } else {
        seq![s[0]] + exec_escaped(s.skip(1))
    }
}

proof fn lemma_quoted(w: Seq<char>, i: int, cur: Seq<char>, s: Seq<char>)
    requires
        0 <= i <= w.len(),
        w.skip(i) == exec_escaped(s) + seq!['"'],
    ensures
        quoted_from(w, i, cur) == (cur + s, w.len() as int),
    decreases s.len(),
{
    let rest = w.skip(i);
    assert(rest.len() == exec_escaped(s).len() + 1);
    assert(w[i] == rest[0]);
    if s.len() == 0 {
        assert(cur + s =~= cur);
    } else {
        let tail = exec_escaped(s.skip(1)) + seq!['"'];
        if escapable(s[0]) {
            assert(rest =~= seq!['\\', s[0]] + tail);
            assert(w[i + 1] == rest[1]);
            assert(w.skip(i + 2) =~= rest.skip(2));
            assert(rest.skip(2) =~= tail);
            lemma_quoted(w, i + 2, cur.push(s[0]), s.skip(1));
        } else {
            assert(rest =~= seq![s[0]] + tail);
            assert(w.skip(i + 1) =~= rest.skip(1));
            assert(rest.skip(1) =~= tail);
            lemma_quoted(w, i + 1, cur.push(s[0]), s.skip(1));
        }
        assert(cur.push(s[0]) + s.skip(1) =~= cur + s);
    }
}

/// A quoted argument comes back as it was, whatever it holds, white space and
/// quotes too; only a percent sign means something inside quotes.
pub proof fn law_quoted_argument(s: Seq<char>)
    requires
        s.len() > 0,
        !s.contains('%'),
    ensures
        arguments(seq!['"'] + exec_escaped(s) + seq!['"']) == seq![s],
{
    let w = seq!['"'] + exec_escaped(s) + seq!['"'];
    assert(w.skip(1) =~= exec_escaped(s) + seq!['"']);
    lemma_quoted(w, 1, seq![], s);
    assert(Seq::<char>::empty() + s =~= s);
    assert(tokens_from(w, w.len() as int, s, true) == seq![s]);
    assert(tokens_from(w, 0, seq![], false) == seq![s]);
    law_no_codes_no_change(s);
    reveal_with_fuel(arguments_upto, 2);
    assert(arguments(w) =~= seq![s]);
}

proof fn lemma_before_irreflexive(a: Seq<char>)
    ensures
        !text_before(a, a),
    decreases a.len(),
{
    if a.len() > 0 {
        lemma_before_irreflexive(a.skip(1));
    }
}

proof fn lemma_before_transitive(a: Seq<char>, b: Seq<char>, c: Seq<char>)
    requires
        text_before(a, b),
        text_before(b, c),
    ensures
        text_before(a, c),
    decreases a.len(),
{
    if a.len() > 0 && a[0] == b[0] && b[0] == c[0] {
        lemma_before_transitive(a.skip(1), b.skip(1), c.skip(1));
    }
}

proof fn lemma_before_total(a: Seq<char>, b: Seq<char>)
    ensures
        a == b || text_before(a, b) || text_before(b, a),
    decreases a.len(),
{
    if a.len() > 0 && b.len() > 0 && a[0] == b[0] {
        lemma_before_total(a.skip(1), b.skip(1));
        if a.skip(1) == b.skip(1) {
            assert(a =~= seq![a[0]] + a.skip(1));
            assert(b =~= seq![b[0]] + b.skip(1));
        }
    } else if a.len() == 0 && b.len() == 0 {
        assert(a =~= b);
    }
}

/// Whether no key comes before one that is listed ahead of it.
pub open spec fn in_order(keys: Seq<Seq<char>>) -> bool {
    forall|i: int, j: int|
        0 <= i < j < keys.len() ==> !text_before(#[trigger] keys[j], #[trigger] keys[i])
}

proof fn lemma_sorted_upto(apps: Seq<AppView>, keys: Seq<Seq<char>>, n: int)
    requires
        0 <= n <= apps.len(),
        apps.len() == keys.len(),
    ensures
        ({
            let s = sorted_upto(apps, keys, n);
            &&& s.apps.len() == n && s.keys.len() == n
            &&& in_order(s.keys)
            &&& s.apps.to_multiset() == apps.take(n).to_multiset()
        }),
    decreases n,
{
    broadcast use vstd::seq_lib::group_to_multiset_ensures;

    if n > 0 {
        lemma_sorted_upto(apps, keys, n - 1);
        let before = sorted_upto(apps, keys, n - 1);
        let key = keys[n - 1];
        lemma_slot(before.keys, key, 0);
        let at = slot(before.keys, key, 0);
        let r = before.keys.insert(at, key);
        assert forall|i: int, j: int| 0 <= i < j < r.len() implies !text_before(
            #[trigger] r[j],
            #[trigger] r[i],
        ) by {
            let ks = before.keys;
            if j < at {
                assert(r[i] == ks[i] && r[j] == ks[j]);
            } else if j == at {
                // Everything ahead of the slot is not after the key.
                assert(r[i] == ks[i]);
            } else if i < at {
                assert(r[i] == ks[i] && r[j] == ks[j - 1]);
            } else if i == at {
                assert(r[j] == ks[j - 1]);
                lemma_before_irreflexive(key);
                if text_before(ks[j - 1], key) {
                    lemma_before_transitive(ks[j - 1], key, ks[at]);
                    assert(at < j - 1 ==> !text_before(ks[j - 1], ks[at]));
                    lemma_before_irreflexive(ks[at]);
                }
            } else {
                assert(r[i] == ks[i - 1] && r[j] == ks[j - 1]);
            }
        }
        assert(apps.take(n) =~= apps.take(n - 1).push(apps[n - 1]));
    } else {
        assert(apps.take(0) =~= Seq::<AppView>::empty());
    }
}

/// Sorting loses and adds nothing, and lists the apps in the order of their
/// keys.
pub proof fn law_apps_sorted(apps: Seq<AppView>, keys: Seq<Seq<char>>)
    requires
        apps.len() == keys.len(),
    ensures
        ({
            let s = sorted_upto(apps, keys, apps.len() as int);
            &&& in_order(s.keys)
            &&& s.apps.len() == apps.len()
            &&& s.apps.to_multiset() == apps.to_multiset()
        }),
{
    lemma_sorted_upto(apps, keys, apps.len() as int);
    assert(apps.take(apps.len() as int) =~= apps);
}

proof fn lemma_menu(fs: Seq<DesktopFile>, n: int)
    requires
        0 <= n <= fs.len(),
    ensures
        ({
            let m = menu_upto(fs, n);
            &&& forall|k: int| 0 <= k < m.apps.len() ==> m.seen.contains((#[trigger] m.apps[k]).id)
            &&& forall|i: int, j: int|
                0 <= i < j < m.apps.len() ==> (#[trigger] m.apps[i]).id != (
                #[trigger] m.apps[j]).id
        }),
    decreases n,
{
    if n > 0 {
        lemma_menu(fs, n - 1);
        let before = menu_upto(fs, n - 1);
        let m = menu_upto(fs, n);
        let id = stem(fs[n - 1].path@);
        if m.seen != before.seen {
            assert(m.seen == before.seen.push(id));
            assert(m.seen[before.seen.len() as int] == id);
            assert forall|k: int| 0 <= k < m.apps.len() implies m.seen.contains(
                (#[trigger] m.apps[k]).id,
            ) by {
                if k < before.apps.len() {
                    assert(m.apps[k] == before.apps[k]);
                    let q = choose|q: int|
                        0 <= q < before.seen.len() && before.seen[q] == before.apps[k].id;
                    assert(m.seen[q] == before.apps[k].id);
                }
            }
            assert forall|i: int, j: int| 0 <= i < j < m.apps.len() implies (
            #[trigger] m.apps[i]).id != (#[trigger] m.apps[j]).id by {
                assert(m.apps[i] == before.apps[i]);
                if j < before.apps.len() {
                    assert(m.apps[j] == before.apps[j]);
                }
            }
        }
    }
}

proof fn lemma_lower_names(apps: Seq<AppView>, n: int)
    requires
        0 <= n <= apps.len(),
    ensures
        lower_names(apps, n).len() == n,
        forall|k: int| 0 <= k < n ==> #[trigger] lower_names(apps, n)[k] == lowercase(apps[k].name),
    decreases n,
{
    if n > 0 {
        lemma_lower_names(apps, n - 1);
    }
}

proof fn lemma_keys_follow(apps: Seq<AppView>, keys: Seq<Seq<char>>, n: int)
    requires
        0 <= n <= apps.len(),
        apps.len() == keys.len(),
        forall|k: int| 0 <= k < keys.len() ==> #[trigger] keys[k] == lowercase(apps[k].name),
    ensures
        ({
            let s = sorted_upto(apps, keys, n);
            &&& s.apps.len() == n && s.keys.len() == n
            &&& forall|k: int| 0 <= k < n ==> #[trigger] s.keys[k] == lowercase(s.apps[k].name)
        }),
    decreases n,
{
    if n > 0 {
        lemma_keys_follow(apps, keys, n - 1);
        let before = sorted_upto(apps, keys, n - 1);
        lemma_slot(before.keys, keys[n - 1], 0);
        let at = slot(before.keys, keys[n - 1], 0);
        let s = sorted_upto(apps, keys, n);
        assert forall|k: int| 0 <= k < n implies #[trigger] s.keys[k] == lowercase(
            s.apps[k].name,
        ) by {
            if k < at {
                assert(s.keys[k] == before.keys[k]);
            } else if k > at {
                assert(s.keys[k] == before.keys[k - 1]);
            }
        }
    }
}

/// The menu is sorted by the names of the apps, whatever the case of their
/// letters.
pub proof fn law_menu_sorted(fs: Seq<DesktopFile>)
    ensures
        ({
            let apps = menu_upto(fs, fs.len() as int).apps;
            let menu = sorted_upto(
                apps,
                lower_names(apps, apps.len() as int),
                apps.len() as int,
            ).apps;
            &&& menu.to_multiset() == apps.to_multiset()
            &&& forall|i: int, j: int|
                0 <= i < j < menu.len() ==> !text_before(
                    lowercase((#[trigger] menu[j]).name),
                    lowercase((#[trigger] menu[i]).name),
                )
        }),
{
    let apps = menu_upto(fs, fs.len() as int).apps;
    let keys = lower_names(apps, apps.len() as int);
    lemma_lower_names(apps, apps.len() as int);
    law_apps_sorted(apps, keys);
    lemma_keys_follow(apps, keys, apps.len() as int);
    let s = sorted_upto(apps, keys, apps.len() as int);
    assert forall|i: int, j: int| 0 <= i < j < s.apps.len() implies !text_before(
        lowercase((#[trigger] s.apps[j]).name),
        lowercase((#[trigger] s.apps[i]).name),
    ) by {
        assert(s.keys[i] == lowercase(s.apps[i].name));
        assert(s.keys[j] == lowercase(s.apps[j].name));
    }
}

/// Whether a file defines an app, be it listed or not.
pub open spec fn defines_app(f: DesktopFile) -> bool {
    extension(f.path@) == Some("desktop"@) && file_value(f, "Type"@) == Some("Application"@)
}

/// Whether the file at `k` is the first to define its app.
pub open spec fn first_definition(fs: Seq<DesktopFile>, k: int) -> bool {
    &&& 0 <= k < fs.len()
    &&& defines_app(fs[k])
    &&& forall|j: int|
        0 <= j < k && defines_app(#[trigger] fs[j]) ==> stem(fs[j].path@) != stem(fs[k].path@)
}

proof fn lemma_seen(fs: Seq<DesktopFile>, n: int)
    requires
        0 <= n <= fs.len(),
    ensures
        forall|j: int|
            0 <= j < n && defines_app(#[trigger] fs[j]) ==> menu_upto(fs, n).seen.contains(
                stem(fs[j].path@),
            ),
        forall|id: Seq<char>| #[trigger]
            menu_upto(fs, n).seen.contains(id) ==> exists|j: int|
                0 <= j < n && defines_app(#[trigger] fs[j]) && stem(fs[j].path@) == id,
    decreases n,
{
    if n > 0 {
        lemma_seen(fs, n - 1);
        let before = menu_upto(fs, n - 1);
        let m = menu_upto(fs, n);
        let f = fs[n - 1];
        let id = stem(f.path@);
        let added = defines_app(f) && !before.seen.contains(id);
        assert(m.seen == if added {
            before.seen.push(id)
        } else {
            before.seen
        });
        assert forall|j: int| 0 <= j < n && defines_app(#[trigger] fs[j]) implies m.seen.contains(
            stem(fs[j].path@),
        ) by {
            if j < n - 1 {
                let q = choose|q: int|
                    0 <= q < before.seen.len() && before.seen[q] == stem(fs[j].path@);
                assert(m.seen[q] == before.seen[q]);
            } else if added {
                assert(m.seen[before.seen.len() as int] == id);
            }
        }
        assert forall|x: Seq<char>| #[trigger] m.seen.contains(x) implies exists|j: int|
            0 <= j < n && defines_app(#[trigger] fs[j]) && stem(fs[j].path@) == x by {
            if before.seen.contains(x) {
                let j = choose|j: int|
                    0 <= j < n - 1 && defines_app(#[trigger] fs[j]) && stem(fs[j].path@) == x;
                assert(defines_app(fs[j]));
            } else {
                let q = choose|q: int| 0 <= q < m.seen.len() && m.seen[q] == x;
                assert(added && q == before.seen.len()) by {
                    if q < before.seen.len() {
                        assert(before.seen[q] == x);
                    }
                }
                assert(defines_app(fs[n - 1]));
            }
        }
    }
}

/// Whether the file at `k` is the first to define its app, and lists it as `app`.
pub open spec fn listed_by(fs: Seq<DesktopFile>, app: AppView, k: int) -> bool {
    first_definition(fs, k) && !unlisted(fs[k]) && app == app_of(fs[k])
}

proof fn lemma_definitions(fs: Seq<DesktopFile>, n: int)
    requires
        0 <= n <= fs.len(),
    ensures
        forall|app: AppView| #[trigger]
            menu_upto(fs, n).apps.contains(app) <==> exists|k: int|
                0 <= k < n && #[trigger] listed_by(fs, app, k),
    decreases n,
{
    if n > 0 {
        lemma_definitions(fs, n - 1);
        lemma_seen(fs, n - 1);
        let before = menu_upto(fs, n - 1);
        let m = menu_upto(fs, n);
        let f = fs[n - 1];
        let id = stem(f.path@);
        assert(first_definition(fs, n - 1) == (defines_app(f) && !before.seen.contains(id))) by {
            if before.seen.contains(id) {
                let j = choose|j: int|
                    0 <= j < n - 1 && defines_app(#[trigger] fs[j]) && stem(fs[j].path@) == id;
                assert(defines_app(fs[j]));
            }
        }
        let added = first_definition(fs, n - 1) && !unlisted(f);
        assert(m.apps == if added {
            before.apps.push(app_of(f))
        } else {
            before.apps
        });
        assert forall|app: AppView| #[trigger] m.apps.contains(app) == (exists|k: int|
            0 <= k < n && #[trigger] listed_by(fs, app, k)) by {
            if before.apps.contains(app) {
                let q = choose|q: int| 0 <= q < before.apps.len() && before.apps[q] == app;
                assert(m.apps[q] == app);
                let k = choose|k: int| 0 <= k < n - 1 && #[trigger] listed_by(fs, app, k);
                assert(0 <= k < n && listed_by(fs, app, k));
            } else if m.apps.contains(app) {
                let q = choose|q: int| 0 <= q < m.apps.len() && m.apps[q] == app;
                if q < before.apps.len() {
                    assert(before.apps[q] == app);
                }
                assert(listed_by(fs, app, n - 1));
            } else {
                if listed_by(fs, app, n - 1) {
                    assert(m.apps[before.apps.len() as int] == app);
                }
            }
        }
    } else {
        assert forall|app: AppView| !(#[trigger] menu_upto(fs, n).apps.contains(app)) by {
        }
    }
}

/// The first file to define an app decides: an app is listed exactly where the
/// first file to define it lists it, and as that file has it.
pub proof fn law_first_definition_decides(fs: Seq<DesktopFile>)
    ensures
        forall|app: AppView| #[trigger]
            menu_upto(fs, fs.len() as int).apps.contains(app) <==> exists|k: int| #[trigger]
                listed_by(fs, app, k),
{
    lemma_definitions(fs, fs.len() as int);
    let apps = menu_upto(fs, fs.len() as int).apps;
    assert forall|app: AppView| #[trigger] apps.contains(app) <==> exists|k: int| #[trigger]
        listed_by(fs, app, k) by {
        if exists|k: int| #[trigger] listed_by(fs, app, k) {
            let k = choose|k: int| #[trigger] listed_by(fs, app, k);
            assert(0 <= k < fs.len() && listed_by(fs, app, k));
        }
    }
}

/// No app id is listed twice.
pub proof fn law_app_ids_distinct(fs: Seq<DesktopFile>)
    ensures
        ({
            let apps = menu_upto(fs, fs.len() as int).apps;
            forall|i: int, j: int|
                0 <= i < j < apps.len() ==> (#[trigger] apps[i]).id != (#[trigger] apps[j]).id
        }),
{
    lemma_menu(fs, fs.len() as int);
}

proof fn lemma_find_loosely(names: Seq<Seq<char>>, t: Seq<char>, i: int, k: int)
    requires
        0 <= i <= k < names.len(),
        same_ignoring_case(names[k], t),
    ensures
        find_loosely(names, t, i) <= k,
    decreases names.len() - i,
{
    if i < k && !same_ignoring_case(names[i], t) {
        lemma_find_loosely(names, t, i + 1, k);
    }
}

proof fn lemma_others_keep(out: Seq<Seq<char>>, installed: Seq<Seq<char>>, n: int)
    requires
        0 <= n <= installed.len(),
    ensures
        ({
            let r = others_upto(out, installed, n);
            &&& r.len() >= out.len()
            &&& forall|k: int| 0 <= k < out.len() ==> r[k] == out[k]
            &&& forall|k: int|
                0 <= k < n && !same_ignoring_case(installed[k], "hicolor"@) ==> r.contains(
                    #[trigger] installed[k],
                )
        }),
    decreases n,
{
    if n > 0 {
        lemma_others_keep(out, installed, n - 1);
        let before = others_upto(out, installed, n - 1);
        let r = others_upto(out, installed, n);
        let t = installed[n - 1];
        assert forall|k: int|
            0 <= k < n && !same_ignoring_case(installed[k], "hicolor"@) implies r.contains(
            #[trigger] installed[k],
        ) by {
            if k < n - 1 {
                let q = choose|q: int| 0 <= q < before.len() && before[q] == installed[k];
                assert(r[q] == installed[k]);
            } else if !before.contains(t) {
                assert(r[before.len() as int] == t);
            }
        }
    }
}

proof fn lemma_preferred_keep(out: Seq<Seq<char>>, installed: Seq<Seq<char>>, n: int)
    requires
        0 <= n <= full_themes().len(),
    ensures
        preferred_upto(out, installed, n).len() >= out.len(),
        forall|k: int| 0 <= k < out.len() ==> preferred_upto(out, installed, n)[k] == out[k],
    decreases n,
{
    if n > 0 {
        lemma_preferred_keep(out, installed, n - 1);
    }
}

proof fn lemma_no_full_theme_is_fallback(t: Seq<char>, n: int)
    requires
        0 <= n < full_themes().len(),
        same_ignoring_case(t, full_themes()[n]),
    ensures
        !same_ignoring_case(t, "hicolor"@),
{
    reveal_strlit("hicolor");
    reveal_strlit("breeze");
    reveal_strlit("Adwaita");
    reveal_strlit("Papirus");
    reveal_strlit("Papirus-Dark");
    reveal_strlit("Yaru");
    reveal_strlit("elementary");
    reveal_strlit("Tela");
    let f = ascii_lower_all(full_themes()[n]);
    let h = ascii_lower_all("hicolor"@);
    if f == h {
        assert(f.len() == full_themes()[n].len() && h.len() == "hicolor"@.len());
        assert(n == 1 || n == 2);
        assert(f[0] == h[0]);
    }
}

proof fn lemma_fallback_stays_out(first: Seq<Seq<char>>, installed: Seq<Seq<char>>, n: int, m: int)
    requires
        0 <= n <= full_themes().len(),
        0 <= m <= installed.len(),
        forall|k: int|
            0 <= k < first.len() ==> !same_ignoring_case(#[trigger] first[k], "hicolor"@),
    ensures
        ({
            let p = preferred_upto(first, installed, n);
            let r = others_upto(p, installed, m);
            &&& forall|k: int|
                0 <= k < p.len() ==> !same_ignoring_case(#[trigger] p[k], "hicolor"@)
            &&& forall|k: int|
                0 <= k < r.len() ==> !same_ignoring_case(#[trigger] r[k], "hicolor"@)
        }),
    decreases n + m,
{
    if m > 0 {
        lemma_fallback_stays_out(first, installed, n, m - 1);
        let p = preferred_upto(first, installed, n);
        let before = others_upto(p, installed, m - 1);
        let r = others_upto(p, installed, m);
        assert forall|k: int| 0 <= k < r.len() implies !same_ignoring_case(
            #[trigger] r[k],
            "hicolor"@,
        ) by {
            if k < before.len() {
                assert(r[k] == before[k]);
            }
        }
    } else if n > 0 {
        lemma_fallback_stays_out(first, installed, n - 1, 0);
        let before = preferred_upto(first, installed, n - 1);
        let k = find_loosely(installed, full_themes()[n - 1], 0);
        lemma_loosely_found(installed, full_themes()[n - 1], 0);
        if k < installed.len() {
            lemma_no_full_theme_is_fallback(installed[k], n - 1);
        }
        let p = preferred_upto(first, installed, n);
        assert forall|k: int| 0 <= k < p.len() implies !same_ignoring_case(
            #[trigger] p[k],
            "hicolor"@,
        ) by {
            if k < before.len() {
                assert(p[k] == before[k]);
            }
        }
        assert(others_upto(p, installed, 0) == p);
    }
}

proof fn lemma_loosely_found(names: Seq<Seq<char>>, t: Seq<char>, i: int)
    requires
        0 <= i <= names.len(),
    ensures
        i <= find_loosely(names, t, i) <= names.len(),
        find_loosely(names, t, i) < names.len() ==> same_ignoring_case(
            names[find_loosely(names, t, i)],
            t,
        ),
    decreases names.len() - i,
{
    if i < names.len() && !same_ignoring_case(names[i], t) {
        lemma_loosely_found(names, t, i + 1);
    }
}

/// The configured theme is tried first, every installed theme is tried, and so
/// is the fallback, which comes last unless it is the configured one.
pub proof fn law_theme_candidates(configured: Option<Seq<char>>, installed: Seq<Seq<char>>)
    ensures
        ({
            let r = candidates_of(configured, installed);
            &&& configured matches Some(c) ==> r.len() > 0 && r[0] == c
            &&& forall|k: int|
                0 <= k < installed.len() && !same_ignoring_case(installed[k], "hicolor"@)
                    ==> r.contains(#[trigger] installed[k])
            &&& has_loosely(r, "hicolor"@)
            &&& (configured matches Some(c) ==> !same_ignoring_case(c, "hicolor"@)) ==> r.last()
                == "hicolor"@
        }),
{
    let first = match configured {
        Some(c) => seq![c],
        None => seq![],
    };
    lemma_preferred_keep(first, installed, full_themes().len() as int);
    let preferred = preferred_upto(first, installed, full_themes().len() as int);
    lemma_others_keep(preferred, installed, installed.len() as int);
    let listed = others_upto(preferred, installed, installed.len() as int);
    let r = candidates_of(configured, installed);
    assert forall|k: int|
        0 <= k < installed.len() && !same_ignoring_case(
            installed[k],
            "hicolor"@,
        ) implies r.contains(#[trigger] installed[k]) by {
        let q = choose|q: int| 0 <= q < listed.len() && listed[q] == installed[k];
        assert(r[q] == installed[k]);
    }
    if configured is Some {
        assert(preferred[0] == first[0]);
        assert(listed[0] == preferred[0]);
        assert(r[0] == listed[0]);
    }
    if !has_loosely(listed, "hicolor"@) {
        assert(r[listed.len() as int] == "hicolor"@);
        lemma_find_loosely(r, "hicolor"@, 0, listed.len() as int);
    }
    if configured matches Some(c) ==> !same_ignoring_case(c, "hicolor"@) {
        lemma_fallback_stays_out(
            first,
            installed,
            full_themes().len() as int,
            installed.len() as int,
        );
        lemma_loosely_found(listed, "hicolor"@, 0);
    }
}

/// A blank app id has no icon, whatever the disk holds.
pub proof fn law_blank_id_has_no_icon(app_id: Seq<char>)
    requires
        trim(app_id).len() == 0,
    ensures
        icon_plan(app_id).len() == 0,
{
}

// ---------------------------------------------------------------------------
// Laws of entries, categories and lookups
// ---------------------------------------------------------------------------

/// An entry's value is what stands behind its key and the equals sign, within the
/// `[Desktop Entry]` group; the first that is not empty counts.
pub proof fn law_entry_value(key: Seq<char>, value: Seq<char>, other: Seq<char>, i: int, ls: Seq<Seq<char>>)
    requires
        0 <= i < ls.len(),
        key.len() > 0,
        !is_whitespace(key[0]),
        key[0] != '[',
        value.len() > 0,
        !is_whitespace(value[0]),
        !is_whitespace(value.last()),
    ensures
        ls[i] == key + "="@ + value ==> value_from(ls, key + "="@, true, i) == Some(value),
        ls[i] == key + "="@ + value ==> value_from(ls, key + "="@, false, i) == value_from(
            ls,
            key + "="@,
            false,
            i + 1,
        ),
        ls[i] == "[Desktop Entry]"@ ==> value_from(ls, key + "="@, false, i) == value_from(
            ls,
            key + "="@,
            true,
            i + 1,
        ),
        ls[i] == "[Desktop Action new]"@ ==> value_from(ls, key + "="@, true, i) is None,
        ls[i] == "[Desktop Action new]"@ ==> value_from(ls, key + "="@, false, i) == value_from(
            ls,
            key + "="@,
            false,
            i + 1,
        ),
        value_from(ls, key + "="@, true, ls.len() as int) is None,
{
    reveal_strlit("=");
    reveal_strlit("[Desktop Entry]");
    reveal_strlit("[Desktop Action new]");
    law_white_space('[');
    law_white_space(']');
    let line = key + "="@ + value;
    assert(line[0] == key[0] && line.last() == value.last());
    lemma_trim_plain(line);
    lemma_trim_plain("[Desktop Entry]"@);
    lemma_trim_plain("[Desktop Action new]"@);
    lemma_trim_plain(value);
    law_prefix(key + "="@, value);
    assert(line.skip((key + "="@).len() as int) =~= value);
    assert("[Desktop Entry]"@.len() == 15 && "[Desktop Action new]"@.len() == 20);
}

proof fn lemma_trim_plain(s: Seq<char>)
    requires
        s.len() > 0,
        !is_whitespace(s[0]),
        !is_whitespace(s.last()),
    ensures
        trim(s) == s,
{
    law_trim_undoes_padding(seq![], s, seq![]);
    assert(Seq::<char>::empty() + s + Seq::<char>::empty() =~= s);
}

/// The categories by length and by letters in which those of one length differ.
#[verifier::rlimit(30)]
proof fn lemma_category_names()
    ensures
        "System"@.len() == 6 && "System"@[0] == 'S' && "System"@[2] == 's',
        "Settings"@.len() == 8 && "Settings"@[0] == 'S' && "Settings"@[2] == 't',
        "HardwareSettings"@.len() == 16 && "HardwareSettings"@[0] == 'H' && "HardwareSettings"@[2] == 'r',
        "TerminalEmulator"@.len() == 16 && "TerminalEmulator"@[0] == 'T' && "TerminalEmulator"@[2] == 'r',
        "Development"@.len() == 11 && "Development"@[0] == 'D' && "Development"@[2] == 'v',
        "IDE"@.len() == 3 && "IDE"@[0] == 'I' && "IDE"@[2] == 'E',
        "Debugger"@.len() == 8 && "Debugger"@[0] == 'D' && "Debugger"@[2] == 'b',
        "RevisionControl"@.len() == 15 && "RevisionControl"@[0] == 'R' && "RevisionControl"@[2] == 'v',
        "AudioVideo"@.len() == 10 && "AudioVideo"@[0] == 'A' && "AudioVideo"@[2] == 'd',
        "Audio"@.len() == 5 && "Audio"@[0] == 'A' && "Audio"@[2] == 'd',
        "Video"@.len() == 5 && "Video"@[0] == 'V' && "Video"@[2] == 'd',
        "Graphics"@.len() == 8 && "Graphics"@[0] == 'G' && "Graphics"@[2] == 'a',
        "2DGraphics"@.len() == 10 && "2DGraphics"@[0] == '2' && "2DGraphics"@[2] == 'G',
        "3DGraphics"@.len() == 10 && "3DGraphics"@[0] == '3' && "3DGraphics"@[2] == 'G',
        "Photography"@.len() == 11 && "Photography"@[0] == 'P' && "Photography"@[2] == 'o',
        "Network"@.len() == 7 && "Network"@[0] == 'N' && "Network"@[2] == 't',
        "WebBrowser"@.len() == 10 && "WebBrowser"@[0] == 'W' && "WebBrowser"@[2] == 'b',
        "Email"@.len() == 5 && "Email"@[0] == 'E' && "Email"@[2] == 'a',
        "InstantMessaging"@.len() == 16 && "InstantMessaging"@[0] == 'I' && "InstantMessaging"@[2] == 's',
        "Chat"@.len() == 4 && "Chat"@[0] == 'C' && "Chat"@[2] == 'a',
        "WordProcessor"@.len() == 13 && "WordProcessor"@[0] == 'W' && "WordProcessor"@[2] == 'r',
        "Spreadsheet"@.len() == 11 && "Spreadsheet"@[0] == 'S' && "Spreadsheet"@[2] == 'r',
        "Presentation"@.len() == 12 && "Presentation"@[0] == 'P' && "Presentation"@[2] == 'e',
        "Database"@.len() == 8 && "Database"@[0] == 'D' && "Database"@[2] == 't',
        "FlowChart"@.len() == 9 && "FlowChart"@[0] == 'F' && "FlowChart"@[2] == 'o',
        "Math"@.len() == 4 && "Math"@[0] == 'M' && "Math"@[2] == 't',
        "TextEditor"@.len() == 10 && "TextEditor"@[0] == 'T' && "TextEditor"@[2] == 'x',
        "Archiving"@.len() == 9 && "Archiving"@[0] == 'A' && "Archiving"@[2] == 'c',
        "Compression"@.len() == 11 && "Compression"@[0] == 'C' && "Compression"@[2] == 'm',
        "FileManager"@.len() == 11 && "FileManager"@[0] == 'F' && "FileManager"@[2] == 'l',
        "Calculator"@.len() == 10 && "Calculator"@[0] == 'C' && "Calculator"@[2] == 'l',
        "Clock"@.len() == 5 && "Clock"@[0] == 'C' && "Clock"@[2] == 'o',
        "Accessibility"@.len() == 13 && "Accessibility"@[0] == 'A' && "Accessibility"@[2] == 'c',
        "Education"@.len() == 9 && "Education"@[0] == 'E' && "Education"@[2] == 'u',
        "Science"@.len() == 7 && "Science"@[0] == 'S' && "Science"@[2] == 'i',
        "Languages"@.len() == 9 && "Languages"@[0] == 'L' && "Languages"@[2] == 'n',
        "Literature"@.len() == 10 && "Literature"@[0] == 'L' && "Literature"@[2] == 't',
        "Game"@.len() == 4 && "Game"@[0] == 'G' && "Game"@[2] == 'm',
        "ActionGame"@.len() == 10 && "ActionGame"@[0] == 'A' && "ActionGame"@[2] == 't',
        "ArcadeGame"@.len() == 10 && "ArcadeGame"@[0] == 'A' && "ArcadeGame"@[2] == 'c',
        "BoardGame"@.len() == 9 && "BoardGame"@[0] == 'B' && "BoardGame"@[2] == 'a',
        "BlocksGame"@.len() == 10 && "BlocksGame"@[0] == 'B' && "BlocksGame"@[2] == 'o',
        "CardGame"@.len() == 8 && "CardGame"@[0] == 'C' && "CardGame"@[2] == 'r',
        "LogicGame"@.len() == 9 && "LogicGame"@[0] == 'L' && "LogicGame"@[2] == 'g',
        "RolePlaying"@.len() == 11 && "RolePlaying"@[0] == 'R' && "RolePlaying"@[2] == 'l',
        "Simulation"@.len() == 10 && "Simulation"@[0] == 'S' && "Simulation"@[2] == 'm',
        "SportsGame"@.len() == 10 && "SportsGame"@[0] == 'S' && "SportsGame"@[2] == 'o',
        "StrategyGame"@.len() == 12 && "StrategyGame"@[0] == 'S' && "StrategyGame"@[2] == 'r',
        "Office"@.len() == 6 && "Office"@[0] == 'O' && "Office"@[2] == 'f',
        "Utility"@.len() == 7 && "Utility"@[0] == 'U' && "Utility"@[2] == 'i',
{
    reveal_strlit("System");
    reveal_strlit("Settings");
    reveal_strlit("HardwareSettings");
    reveal_strlit("TerminalEmulator");
    reveal_strlit("Development");
    reveal_strlit("IDE");
    reveal_strlit("Debugger");
    reveal_strlit("RevisionControl");
    reveal_strlit("AudioVideo");
    reveal_strlit("Audio");
    reveal_strlit("Video");
    reveal_strlit("Graphics");
    reveal_strlit("2DGraphics");
    reveal_strlit("3DGraphics");
    reveal_strlit("Photography");
    reveal_strlit("Network");
    reveal_strlit("WebBrowser");
    reveal_strlit("Email");
    reveal_strlit("InstantMessaging");
    reveal_strlit("Chat");
    reveal_strlit("WordProcessor");
    reveal_strlit("Spreadsheet");
    reveal_strlit("Presentation");
    reveal_strlit("Database");
    reveal_strlit("FlowChart");
    reveal_strlit("Math");
    reveal_strlit("TextEditor");
    reveal_strlit("Archiving");
    reveal_strlit("Compression");
    reveal_strlit("FileManager");
    reveal_strlit("Calculator");
    reveal_strlit("Clock");
    reveal_strlit("Accessibility");
    reveal_strlit("Education");
    reveal_strlit("Science");
    reveal_strlit("Languages");
    reveal_strlit("Literature");
    reveal_strlit("Game");
    reveal_strlit("ActionGame");
    reveal_strlit("ArcadeGame");
    reveal_strlit("BoardGame");
    reveal_strlit("BlocksGame");
    reveal_strlit("CardGame");
    reveal_strlit("LogicGame");
    reveal_strlit("RolePlaying");
    reveal_strlit("Simulation");
    reveal_strlit("SportsGame");
    reveal_strlit("StrategyGame");
    reveal_strlit("Office");
    reveal_strlit("Utility");
}

/// The tab of a program follows from its categories: system, development, media,
/// internet, office, tools, education and games have a bit each; the bare main
/// categories of office and tools have none.
pub proof fn law_tabs()
    ensures
        tab_of("System"@) == 1,
        tab_of("Settings"@) == 1,
        tab_of("HardwareSettings"@) == 1,
        tab_of("TerminalEmulator"@) == 1,
        tab_of("Development"@) == 2,
        tab_of("IDE"@) == 2,
        tab_of("Debugger"@) == 2,
        tab_of("RevisionControl"@) == 2,
        tab_of("AudioVideo"@) == 4,
        tab_of("Audio"@) == 4,
        tab_of("Video"@) == 4,
        tab_of("Graphics"@) == 4,
        tab_of("2DGraphics"@) == 4,
        tab_of("3DGraphics"@) == 4,
        tab_of("Photography"@) == 4,
        tab_of("Network"@) == 8,
        tab_of("WebBrowser"@) == 8,
        tab_of("Email"@) == 8,
        tab_of("InstantMessaging"@) == 8,
        tab_of("Chat"@) == 8,
        tab_of("WordProcessor"@) == 16,
        tab_of("Spreadsheet"@) == 16,
        tab_of("Presentation"@) == 16,
        tab_of("Database"@) == 16,
        tab_of("FlowChart"@) == 16,
        tab_of("Math"@) == 16,
        tab_of("TextEditor"@) == 32,
        tab_of("Archiving"@) == 32,
        tab_of("Compression"@) == 32,
        tab_of("FileManager"@) == 32,
        tab_of("Calculator"@) == 32,
        tab_of("Clock"@) == 32,
        tab_of("Accessibility"@) == 32,
        tab_of("Education"@) == 64,
        tab_of("Science"@) == 64,
        tab_of("Languages"@) == 64,
        tab_of("Literature"@) == 64,
        tab_of("Game"@) == 128,
        tab_of("ActionGame"@) == 128,
        tab_of("ArcadeGame"@) == 128,
        tab_of("BoardGame"@) == 128,
        tab_of("BlocksGame"@) == 128,
        tab_of("CardGame"@) == 128,
        tab_of("LogicGame"@) == 128,
        tab_of("RolePlaying"@) == 128,
        tab_of("Simulation"@) == 128,
        tab_of("SportsGame"@) == 128,
        tab_of("StrategyGame"@) == 128,
        tab_of("Office"@) == 0,
        tab_of("Utility"@) == 0,
{
    lemma_category_names();
}

/// A list of categories gives the tabs of each of them, whatever white space stands
/// round them; an empty list gives none.
pub proof fn law_categories_add_up(categories: Seq<char>, last: Seq<char>)
    requires
        !last.contains(';'),
    ensures
        mask_of(categories + seq![';'] + last) == mask_of(categories) | tab_of(trim(last)),
        mask_of(last) == 0u8 | tab_of(trim(last)),
{
    lemma_split_whole(last, ';');
    lemma_split_concat(categories, ';', last, 0);
    let v = split(categories + seq![';'] + last, ';');
    let w = split(categories, ';');
    lemma_split_free(categories, ';', 0);
    assert(v =~= w.push(last));
    lemma_mask_prefix(v, w, w.len() as int);
    assert(v[w.len() as int] == last);
    let one = split(last, ';');
    assert(one.len() == 1 && one[0] == last);
    reveal_with_fuel(mask_upto, 2);
}

proof fn lemma_mask_prefix(v: Seq<Seq<char>>, w: Seq<Seq<char>>, n: int)
    requires
        0 <= n <= w.len(),
        n <= v.len(),
        forall|k: int| 0 <= k < n ==> v[k] == w[k],
    ensures
        mask_upto(v, n) == mask_upto(w, n),
    decreases n,
{
    if n > 0 {
        lemma_mask_prefix(v, w, n - 1);
    }
}

/// A percent sign and the letter behind it go, two percent signs are one, and everything
/// else stays.
pub proof fn law_field_codes(a: Seq<char>, code: char, b: Seq<char>)
    requires
        !a.contains('%'),
        !b.contains('%'),
    ensures
        code != '%' ==> expanded(a + seq!['%', code] + b) == a + b,
        expanded(a + seq!['%', '%'] + b) == a + seq!['%'] + b,
        expanded(a + seq!['%']) == a,
        expanded(a) == a,
{
    let s = a + seq!['%', code] + b;
    let t = a + seq!['%', '%'] + b;
    let u = a + seq!['%'];
    let n = a.len() as int;
    lemma_plain_run(s, 0, n);
    lemma_plain_run(t, 0, n);
    lemma_plain_run(u, 0, n);
    lemma_plain_run(a, 0, n);
    lemma_plain_run(s, n + 2, s.len() as int);
    lemma_plain_run(t, n + 2, t.len() as int);
    assert(s.subrange(0, n) =~= a && t.subrange(0, n) =~= a && u.subrange(0, n) =~= a && a.subrange(
        0,
        n,
    ) =~= a);
    assert(s.subrange(n + 2, s.len() as int) =~= b && t.subrange(n + 2, t.len() as int) =~= b);
    assert(expanded_from(s, s.len() as int) =~= seq![]);
    assert(b + seq![] =~= b);
    assert(a + seq![] =~= a);
    reveal_with_fuel(expanded_from, 2);
    if code != '%' {
        assert(s[n] == '%' && s[n + 1] == code);
        assert(expanded_from(s, n) == expanded_from(s, n + 2));
    }
    assert(t[n] == '%' && t[n + 1] == '%');
    assert(expanded_from(t, n) == seq!['%'] + expanded_from(t, n + 2));
    assert(a + (seq!['%'] + b) =~= a + seq!['%'] + b);
    assert(u[n] == '%');
    assert(expanded_from(u, n) =~= seq![]);
}

proof fn lemma_plain_run(s: Seq<char>, i: int, j: int)
    requires
        0 <= i <= j <= s.len(),
        forall|k: int| i <= k < j ==> s[k] != '%',
    ensures
        expanded_from(s, i) == s.subrange(i, j) + expanded_from(s, j),
    decreases j - i,
{
    if i < j {
        lemma_plain_run(s, i + 1, j);
        assert(seq![s[i]] + (s.subrange(i + 1, j) + expanded_from(s, j)) =~= s.subrange(i, j)
            + expanded_from(s, j));
    } else {
        assert(s.subrange(i, j) + expanded_from(s, j) =~= expanded_from(s, j));
    }
}

/// The user's own directory comes before the shared ones; it is the variable's where
/// that is set to anything, else the one below the home directory.
#[verifier::rlimit(30)]
pub proof fn law_data_dirs(data: Seq<char>, home: Seq<char>, a: Seq<char>, b: Seq<char>)
    requires
        data.len() > 0,
        home.len() > 0,
        home.last() != '/',
        a.len() > 0 && b.len() > 0,
        !a.contains(':') && !b.contains(':'),
    ensures
        user_dirs(Some(data), Some(home)) == seq![data],
        user_dirs(None, Some(home)) == seq![home + "/.local/share"@],
        user_dirs(Some(seq![]), Some(home)) == seq![home + "/.local/share"@],
        user_dirs(None, None).len() == 0,
        shared_dirs(Some(a + seq![':'] + b)) == seq![a, b],
        shared_dirs(None) == seq!["/usr/local/share"@, "/usr/share"@],
        shared_dirs(Some(seq![])) == seq!["/usr/local/share"@, "/usr/share"@],
{
    reveal_strlit("/.local/share");
    reveal_strlit(".local/share");
    law_path_join(home, ".local/share"@);
    assert(home + seq!['/'] + ".local/share"@ =~= home + "/.local/share"@);
    lemma_two_dirs(a, b);
    reveal_strlit("/usr/local/share");
    reveal_strlit("/usr/share");
    reveal_strlit("/usr/local/share:/usr/share");
    lemma_two_dirs("/usr/local/share"@, "/usr/share"@);
    assert("/usr/local/share"@ + seq![':'] + "/usr/share"@ =~= "/usr/local/share:/usr/share"@);
}

proof fn lemma_two_dirs(a: Seq<char>, b: Seq<char>)
    requires
        a.len() > 0 && b.len() > 0,
        !a.contains(':') && !b.contains(':'),
    ensures
        split(a + seq![':'] + b, ':') == seq![a, b],
        nonempty_upto(seq![a, b], 2) == seq![a, b],
{
    lemma_split_whole(a, ':');
    lemma_split_whole(b, ':');
    lemma_split_concat(a, ':', b, 0);
    assert(split(a + seq![':'] + b, ':') =~= seq![a, b]);
    reveal_with_fuel(nonempty_upto, 3);
    assert(nonempty_upto(seq![a, b], 2) =~= seq![a, b]);
}

/// A file is named by what stands behind its last slash, and an app by that name without
/// the extension.
pub proof fn law_stem(dir: Seq<char>, name: Seq<char>, ext: Seq<char>)
    requires
        name.len() > 0,
        !name.contains('/'),
        !ext.contains('/'),
        !ext.contains('.'),
        name != seq!['.'],
    ensures
        file_name(dir + seq!['/'] + (name + seq!['.'] + ext)) == name + seq!['.'] + ext,
        stem(dir + seq!['/'] + (name + seq!['.'] + ext)) == name,
{
    reveal_strlit("..");
    let whole = name + seq!['.'] + ext;
    let s = dir + seq!['/'] + whole;
    let at = dir.len() as int;
    assert(s[at] == '/');
    assert forall|k: int| at < k < s.len() implies s[k] != '/' by {
        let j = k - at - 1;
        assert(s[k] == whole[j]);
        if j < name.len() {
            assert(name.contains(whole[j]));
        } else if j > name.len() {
            assert(whole[j] == ext[j - name.len() - 1]);
            assert(ext.contains(whole[j]));
        }
    }
    lemma_rfind_is(s, '/', s.len() as int, at);
    assert(s.skip(at + 1) =~= whole);
    let dot = name.len() as int;
    assert(whole[dot] == '.');
    assert forall|k: int| dot < k < whole.len() implies whole[k] != '.' by {
        assert(whole[k] == ext[k - dot - 1]);
        assert(ext.contains(whole[k]));
    }
    lemma_rfind_is(whole, '.', whole.len() as int, dot);
    assert(whole.take(dot) =~= name);
    if whole == ".."@ {
        assert(dot == 1);
        assert(name =~= seq!['.']);
    }
}

/// A directory has the file of an app by its own name, else by its name in small letters,
/// else by its window class; the first directory that has one decides.
pub proof fn law_desktop_file(dirs: Seq<AppsDir>, id: Seq<char>, lower: Seq<char>, i: int)
    requires
        0 <= i < dirs.len(),
        id.len() > 0 && id[0] != '/',
        lower.len() > 0 && lower[0] != '/',
        dirs[i].path@.len() > 0 && dirs[i].path@.last() != '/',
    ensures
        dirs[i].exact ==> in_dirs_from(dirs, id, lower, i) == Some(
            dirs[i].path@ + seq!['/'] + (id + ".desktop"@),
        ),
        !dirs[i].exact && dirs[i].lower ==> in_dirs_from(dirs, id, lower, i) == Some(
            dirs[i].path@ + seq!['/'] + (lower + ".desktop"@),
        ),
        !dirs[i].exact && !dirs[i].lower && dirs[i].files@.len() == 0 ==> in_dirs_from(
            dirs,
            id,
            lower,
            i,
        ) == in_dirs_from(dirs, id, lower, i + 1),
        in_dirs_from(dirs, id, lower, dirs.len() as int) is None,
{
    law_path_join(dirs[i].path@, id + ".desktop"@);
    law_path_join(dirs[i].path@, lower + ".desktop"@);
    assert((id + ".desktop"@)[0] == id[0]);
    assert((lower + ".desktop"@)[0] == lower[0]);
}

/// A file whose window class is the app's id is found; one that differs in the case of
/// its letters is found only where no file has it exactly.
pub proof fn law_window_class(fs: Seq<DesktopFile>, id: Seq<char>, k: int)
    requires
        0 <= k < fs.len(),
        class_of(fs[k]) == Some(id),
    ensures
        by_class(fs, id) is Some,
        by_class(fs, id) matches Some(p) ==> exists|j: int|
            0 <= j <= k && (#[trigger] fs[j]).path@ == p && class_of(fs[j]) == Some(id),
{
    lemma_exact_class(fs, id, 0, k);
    let e = exact_class(fs, id, 0);
    assert(fs[e].path@ == fs[e].path@);
}

proof fn lemma_exact_class(fs: Seq<DesktopFile>, id: Seq<char>, i: int, k: int)
    requires
        0 <= i <= k < fs.len(),
        class_of(fs[k]) == Some(id),
    ensures
        i <= exact_class(fs, id, i) <= k,
        class_of(fs[exact_class(fs, id, i)]) == Some(id),
    decreases k - i,
{
    if class_of(fs[i]) != Some(id) {
        lemma_exact_class(fs, id, i + 1, k);
    }
}

/// An app is kept out of the menu where it says so or runs nothing, and listed
/// otherwise, by its name or, without one, by its id.
pub proof fn law_listing(f: DesktopFile)
    ensures
        file_value(f, "NoDisplay"@) == Some("true"@) ==> unlisted(f),
        file_value(f, "Hidden"@) == Some("true"@) ==> unlisted(f),
        file_value(f, "Exec"@) is None ==> unlisted(f),
        file_value(f, "NoDisplay"@) is None && file_value(f, "Hidden"@) is None && file_value(
            f,
            "Exec"@,
        ) is Some ==> !unlisted(f),
        file_value(f, "NoDisplay"@) == Some("false"@) && file_value(f, "Hidden"@) is None
            && file_value(f, "Exec"@) is Some ==> !unlisted(f),
        file_value(f, "Name"@) matches Some(n) ==> app_of(f).name == n,
        file_value(f, "Name"@) is None ==> app_of(f).name == stem(f.path@),
        app_of(f).id == stem(f.path@),
        file_value(f, "Categories"@) is None ==> app_of(f).mask == 0,
        f.text is None ==> unlisted(f),
{
    reveal_strlit("true");
    reveal_strlit("false");
    assert("true"@.len() == 4 && "false"@.len() == 5);
}

/// A program that wants a terminal is run in it, as its command; without one, or where
/// it wants none, it is run as it is.
pub proof fn law_terminal(entry: Seq<char>, term: Seq<char>, argv: Seq<Seq<char>>)
    requires
        command_of(Some(entry)) == Some(argv),
    ensures
        entry_value(entry, "Terminal"@) == Some("true"@) ==> launch_of(Some(entry), Some(term))
            == Some(seq![term, "-e"@] + argv),
        entry_value(entry, "Terminal"@) == Some("false"@) ==> launch_of(Some(entry), Some(term))
            == Some(argv),
        entry_value(entry, "Terminal"@) is None ==> launch_of(Some(entry), Some(term)) == Some(
            argv,
        ),
        launch_of(Some(entry), None) == Some(argv),
        launch_of(None, Some(term)) is None,
{
    reveal_strlit("true");
    reveal_strlit("false");
    assert("true"@.len() == 4 && "false"@.len() == 5);
}

/// Terminals are tried from the Wayland ones on; the first that is there is taken.
pub proof fn law_terminals(flags: Seq<bool>, k: int)
    requires
        0 <= k < flags.len(),
        flags[k],
        forall|j: int| 0 <= j < k ==> !flags[j],
    ensures
        first_set(flags, 0) == k,
        terminals().len() == 8,
        terminals()[0] == "foot"@,
        terminals()[1] == "alacritty"@,
        terminals()[2] == "kitty"@,
        terminals()[3] == "wezterm"@,
        terminals()[4] == "konsole"@,
        terminals()[5] == "gnome-terminal"@,
        terminals()[6] == "x-terminal-emulator"@,
        terminals()[7] == "xterm"@,
{
    lemma_first_set(flags, 0, k);
}

proof fn lemma_first_set(flags: Seq<bool>, i: int, k: int)
    requires
        0 <= i <= k < flags.len(),
        flags[k],
        forall|j: int| i <= j < k ==> !flags[j],
    ensures
        first_set(flags, i) == k,
    decreases k - i,
{
    if i < k {
        lemma_first_set(flags, i + 1, k);
    }
}

/// The windows of a client are drawn with the icon of the app they belong to; an id that
/// is nothing but the word, or does not end in it, has no other.
pub proof fn law_client_alias(base: Seq<char>)
    requires
        base.len() > 0,
        ascii_lower_all(base) == base,
    ensures
        base.last() != '-' ==> alias_of(base + "client"@) == Some(base),
        alias_of(base + "-client"@) == Some(base),
        alias_of("client"@) is None,
        base.last() != 't' ==> alias_of(base) is None,
{
    reveal_strlit("client");
    reveal_strlit("-client");
    let a = base + "client"@;
    let b = base + "-client"@;
    assert(ascii_lower_all(a) =~= a) by {
        assert(forall|i: int| 0 <= i < base.len() ==> ascii_lower_all(base)[i] == base[i]);
    }
    assert(ascii_lower_all(b) =~= b) by {
        assert(forall|i: int| 0 <= i < base.len() ==> ascii_lower_all(base)[i] == base[i]);
    }
    law_prefix("client"@, base);
    law_prefix("-client"@, base);
    if base.last() != '-' {
        assert(!ends_with(a, "-client"@)) by {
            if ends_with(a, "-client"@) {
                let n = a.len() as int;
                assert(a.subrange(n - 7, n)[0] == a[n - 7]);
            }
        }
    }
    assert(ascii_lower_all("client"@) =~= "client"@);
    assert(!ends_with("client"@, "-client"@));
    law_prefix("client"@, seq![]);
    assert(Seq::<char>::empty() + "client"@ =~= "client"@);
    if base.last() != 't' {
        let n = base.len() as int;
        if ends_with(base, "client"@) {
            assert(base.subrange(n - 6, n)[5] == base[n - 1]);
        }
        if ends_with(base, "-client"@) {
            assert(base.subrange(n - 7, n)[6] == base[n - 1]);
        }
    }
}

/// Letters decide the order, from the first on; a text comes behind its own beginning,
/// and none before itself.
pub proof fn law_text_order(p: Seq<char>, a: char, b: char, s: Seq<char>, t: Seq<char>)
    requires
        a < b,
    ensures
        text_before(p + seq![a] + s, p + seq![b] + t),
        !text_before(p + seq![b] + t, p + seq![a] + s),
        text_before(p, p + seq![a] + s),
        !text_before(p, p),
    decreases p.len(),
{
    let x = p + seq![a] + s;
    let y = p + seq![b] + t;
    if p.len() == 0 {
        assert(x[0] == a && y[0] == b);
    } else {
        let q = p.skip(1);
        law_text_order(q, a, b, s, t);
        assert(x.skip(1) =~= q + seq![a] + s);
        assert(y.skip(1) =~= q + seq![b] + t);
        assert(x[0] == p[0] && y[0] == p[0]);
    }
}

/// Where the icon of one size is, below a directory.
pub open spec fn sized_icon(root: Seq<char>, size: Seq<char>, icon: Seq<char>) -> Seq<char> {
    root + seq!['/'] + "icons/hicolor"@ + seq!['/'] + size + seq!['/'] + "apps"@ + seq!['/'] + (icon
        + ".png"@)
}

proof fn lemma_icon_place(root: Seq<char>, size: Seq<char>, icon: Seq<char>)
    requires
        root.len() > 0,
        root.last() != '/',
        size.len() > 0,
        size.last() != '/',
    ensures
        path_join(
            path_join(path_join(path_join(root, "icons/hicolor"@), size), "apps"@),
            icon + ".png"@,
        ) == sized_icon(root, size, icon),
{
    reveal_strlit("icons/hicolor");
    reveal_strlit("apps");
    let a = root + seq!['/'] + "icons/hicolor"@;
    law_path_join(root, "icons/hicolor"@);
    assert(a.last() == 'r');
    let b = a + seq!['/'] + size;
    law_path_join(a, size);
    assert(b.last() == size.last());
    let c = b + seq!['/'] + "apps"@;
    law_path_join(b, "apps"@);
    assert(c.last() == 's');
    law_path_join(c, icon + ".png"@);
}

/// An icon is looked for below each directory in sizes of 64, 48, 128, 32 and 256
/// pixels, then as a drawing, and at last among the old pictures.
#[verifier::rlimit(30)]
pub proof fn law_icon_places(root: Seq<char>, icon: Seq<char>)
    requires
        root.len() > 0,
        root.last() != '/',
    ensures
        hicolor_paths(root, icon).len() == 6,
        hicolor_paths(root, icon)[0] == sized_icon(root, "64x64"@, icon),
        hicolor_paths(root, icon)[1] == sized_icon(root, "48x48"@, icon),
        hicolor_paths(root, icon)[2] == sized_icon(root, "128x128"@, icon),
        hicolor_paths(root, icon)[3] == sized_icon(root, "32x32"@, icon),
        hicolor_paths(root, icon)[4] == sized_icon(root, "256x256"@, icon),
        hicolor_paths(root, icon)[5] == root + seq!['/'] + "icons/hicolor"@ + seq!['/']
            + "scalable/apps"@ + seq!['/'] + (icon + ".svg"@),
        probes(seq![root], icon) == hicolor_paths(root, icon) + seq![
            "/usr/share/pixmaps/"@ + icon + ".png"@,
            "/usr/share/pixmaps/"@ + icon + ".svg"@,
        ],
{
    reveal_strlit("64x64");
    reveal_strlit("48x48");
    reveal_strlit("128x128");
    reveal_strlit("32x32");
    reveal_strlit("256x256");
    lemma_icon_place(root, "64x64"@, icon);
    lemma_icon_place(root, "48x48"@, icon);
    lemma_icon_place(root, "128x128"@, icon);
    lemma_icon_place(root, "32x32"@, icon);
    lemma_icon_place(root, "256x256"@, icon);
    reveal_strlit("icons/hicolor");
    reveal_strlit("scalable/apps");
    let a = root + seq!['/'] + "icons/hicolor"@;
    law_path_join(root, "icons/hicolor"@);
    assert(a.last() == 'r');
    let b = a + seq!['/'] + "scalable/apps"@;
    law_path_join(a, "scalable/apps"@);
    assert(b.last() == 's');
    law_path_join(b, icon + ".svg"@);
    reveal_with_fuel(probes_upto, 2);
    assert(probes_upto(seq![root], icon, 1) =~= hicolor_paths(root, icon));
}

/// A file named by its path is used where it is a picture that can be read; a name goes
/// by the theme before the places that are probed.
pub proof fn law_icon_path(icon: Seq<char>, roots: Seq<Seq<char>>, facts: IconFacts)
    ensures
        icon.len() > 0 && icon[0] == '/' && facts.is_file && extension(icon) == Some("png"@)
            ==> icon_path(icon, roots, facts) == Some(icon),
        icon.len() > 0 && icon[0] == '/' && facts.is_file && extension(icon) == Some("svg"@)
            ==> icon_path(icon, roots, facts) == Some(icon),
        icon.len() > 0 && icon[0] == '/' && !facts.is_file ==> icon_path(icon, roots, facts)
            is None,
        icon.len() > 0 && icon[0] == '/' && extension(icon) is None ==> icon_path(
            icon,
            roots,
            facts,
        ) is None,
        icon.len() > 0 && icon[0] != '/' ==> (facts.themed matches Some(p) ==> icon_path(
            icon,
            roots,
            facts,
        ) == Some(p@)),
        icon.len() > 0 && icon[0] != '/' && facts.themed is None && facts.probed@.len() > 0
            && facts.probed@[0] ==> icon_path(icon, roots, facts) == Some(probes(roots, icon)[0]),
        icon.len() > 0 && icon[0] != '/' && facts.themed is None && facts.probed@.len() == 0
            ==> icon_path(icon, roots, facts) is None,
{
}

/// The theme is what stands behind its key, with or without spaces round the equals
/// sign and quotes round the name.
#[verifier::rlimit(30)]
pub proof fn law_theme_line(name: Seq<char>, rest: Seq<char>)
    requires
        name.len() > 0,
        !is_whitespace(name[0]),
        !is_whitespace(name.last()),
        name[0] != '"',
        name.last() != '"',
    ensures
        theme_line("gtk-icon-theme-name"@ + ("="@ + name)) == Some(name),
        theme_line("gtk-icon-theme-name"@ + (seq![' '] + "="@ + (seq![' '] + name))) == Some(name),
        theme_line("gtk-icon-theme-name"@ + ("="@ + (seq!['"'] + name + seq!['"']))) == Some(name),
        theme_line("gtk-theme-name"@ + rest) is None,
{
    reveal_strlit("gtk-icon-theme-name");
    reveal_strlit("gtk-theme-name");
    reveal_strlit("=");
    law_white_space(' ');
    law_white_space('g');
    law_white_space('=');
    law_white_space('"');
    lemma_trim_plain(name);
    let key = "gtk-icon-theme-name"@;
    assert(theme_line(key + ("="@ + name)) == Some(name)) by {
        let r = "="@ + name;
        lemma_theme_value(r, name);
        assert(r.last() == name.last());
        law_trim_undoes_padding(seq![], r, seq![]);
        assert(Seq::<char>::empty() + r + Seq::<char>::empty() =~= r);
        assert(r + Seq::<char>::empty() =~= r);
        law_prefix("="@, name);
        lemma_no_quotes(name);
    }
    assert(theme_line(key + (seq![' '] + "="@ + (seq![' '] + name))) == Some(name)) by {
        let v = "="@ + (seq![' '] + name);
        let r = seq![' '] + "="@ + (seq![' '] + name);
        assert(r =~= seq![' '] + v + Seq::<char>::empty());
        assert(r.last() == name.last() && v.last() == name.last());
        lemma_theme_value(r, name);
        law_trim_undoes_padding(seq![' '], v, seq![]);
        assert(v + Seq::<char>::empty() =~= v);
        law_prefix("="@, seq![' '] + name);
        law_trim_undoes_padding(seq![' '], name, seq![]);
        assert(seq![' '] + name + Seq::<char>::empty() =~= seq![' '] + name);
        lemma_no_quotes(name);
    }
    assert(theme_line(key + ("="@ + (seq!['"'] + name + seq!['"']))) == Some(name)) by {
        let q = seq!['"'] + name + seq!['"'];
        let r = "="@ + q;
        lemma_theme_value(r, name);
        law_trim_undoes_padding(seq![], r, seq![]);
        assert(Seq::<char>::empty() + r + Seq::<char>::empty() =~= r);
        assert(r + Seq::<char>::empty() =~= r);
        law_prefix("="@, q);
        lemma_trim_plain(q);
        reveal_with_fuel(strip_run, 2);
        reveal_with_fuel(strip_run_back, 2);
        assert(q.skip(1) =~= name + seq!['"']);
        assert((name + seq!['"'])[0] == name[0]);
        assert((name + seq!['"']).drop_last() =~= name);
    }
    let s = "gtk-theme-name"@ + rest;
    law_trim_keeps_prefix("gtk-theme-name"@, rest);
    lemma_no_prefix(trim(s), key, 4);
}

proof fn lemma_no_quotes(name: Seq<char>)
    requires
        name.len() > 0,
        name[0] != '"',
        name.last() != '"',
    ensures
        strip_run_back(strip_run(name, '"'), '"') == name,
{
}

proof fn lemma_theme_value(r: Seq<char>, name: Seq<char>)
    requires
        r.len() > 0,
        !is_whitespace(r.last()),
    ensures
        strip_prefix(trim("gtk-icon-theme-name"@ + r), "gtk-icon-theme-name"@) == Some(r),
{
    reveal_strlit("gtk-icon-theme-name");
    law_white_space('g');
    let s = "gtk-icon-theme-name"@ + r;
    assert(s[0] == 'g' && s.last() == r.last());
    lemma_trim_plain(s);
    law_prefix("gtk-icon-theme-name"@, r);
}

/// The first outcome that gave an icon is taken.
pub proof fn law_first_icon(outcomes: Seq<Option<Icon>>, i: int, k: int)
    requires
        0 <= i <= k < outcomes.len(),
        outcomes[k] is Some,
        forall|j: int| i <= j < k ==> #[trigger] outcomes[j] is None,
    ensures
        first_icon(outcomes, i) == k,
        generic_names() == seq![
            "application-x-executable"@,
            "applications-other"@,
            "application-default-icon"@,
        ],
    decreases k - i,
{
    if i < k {
        assert(outcomes[i] is None);
        law_first_icon(outcomes, i + 1, k);
    }
}

/// The first line that names a theme decides.
pub proof fn law_first_theme(ls: Seq<Seq<char>>, i: int, k: int)
    requires
        0 <= i <= k < ls.len(),
        theme_line(ls[k]) is Some,
        forall|j: int| i <= j < k ==> theme_line(#[trigger] ls[j]) is None,
    ensures
        theme_from(ls, i) == theme_line(ls[k]),
        theme_in(None) is None,
    decreases k - i,
{
    if i < k {
        assert(theme_line(ls[i]) is None);
        law_first_theme(ls, i + 1, k);
    }
}

/// Themes that were found twice are listed once, and every theme that was found is.
pub proof fn law_themes_once(names: Seq<Seq<char>>, n: int, k: int)
    requires
        0 <= k < n <= names.len(),
    ensures
        distinct_upto(names, n).contains(names[k]),
        distinct_upto(names, n).no_duplicates(),
        distinct_upto(names, 1) == seq![names[0]],
    decreases n,
{
    reveal_with_fuel(distinct_upto, 2);
    let before = distinct_upto(names, n - 1);
    if n > 1 {
        law_themes_once(
            names,
            n - 1,
            if k < n - 1 {
                k
            } else {
                0
            },
        );
    }
    let all = distinct_upto(names, n);
    if !before.contains(names[n - 1]) {
        assert(all[before.len() as int] == names[n - 1]);
        if k < n - 1 {
            let i = choose|i: int| 0 <= i < before.len() && before[i] == names[k];
            assert(all[i] == names[k]);
        }
        assert forall|i: int, j: int| 0 <= i < all.len() && 0 <= j < all.len() && i != j implies all[i]
            != all[j] by {
            if i == before.len() {
                assert(before.contains(before[j]));
            } else if j == before.len() {
                assert(before.contains(before[i]));
            }
        }
    }
    assert(distinct_upto(names, 1) =~= seq![names[0]]);
}

} // verus!
