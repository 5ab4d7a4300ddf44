//! Text as sequences of characters: searching, splitting, trimming and numbers.
//!
//! The shell reads the output of command-line tools and builds short messages.
//! The functions here work on `&[char]`, whose view is a `Seq<char>`, and each is
//! specified by a spec function on that sequence.

use vstd::prelude::*;
use vstd::slice::slice_subrange;

verus! {

/// `String::push` appends one character to the end of the string.
pub assume_specification[ String::push ](s: &mut String, c: char)
    ensures
        final(s)@ == old(s)@.push(c),
;

/// The characters of a string, in order.
pub fn chars_of(s: &str) -> (v: Vec<char>)
    ensures
        v@ == s@,
{
    let mut v: Vec<char> = Vec::new();
    for c in it: s.chars()
        invariant
            v@ == it.seq().take(it.index()),
            it.seq() == s@,
    {
        v.push(c);
    }
    v
}

/// The string made of the given characters.
pub fn string_of(v: &[char]) -> (s: String)
    ensures
        s@ == v@,
{
    let mut s = String::new();
    let mut i: usize = 0;
    while i < v.len()
        invariant
            i <= v.len(),
            s@ == v@.take(i as int),
        decreases v.len() - i,
    {
        s.push(v[i]);
        i += 1;
        assert(v@.take(i as int) =~= v@.take(i - 1).push(v@[i - 1]));
    }
    assert(v@.take(v.len() as int) =~= v@);
    s
}

/// Appends every character of `t` to `v`.
pub fn push_all(v: &mut Vec<char>, t: &[char])
    ensures
        final(v)@ == old(v)@ + t@,
{
    let mut i: usize = 0;
    while i < t.len()
        invariant
            i <= t.len(),
            v@ == old(v)@ + t@.take(i as int),
        decreases t.len() - i,
    {
        v.push(t[i]);
        i += 1;
        assert(t@.take(i as int) =~= t@.take(i - 1).push(t@[i - 1]));
        assert(v@ =~= old(v)@ + t@.take(i as int));
    }
    assert(t@.take(t.len() as int) =~= t@);
}

/// Appends every character of `t` to `v`.
pub fn push_str(v: &mut Vec<char>, t: &str)
    ensures
        final(v)@ == old(v)@ + t@,
{
    let t: Vec<char> = chars_of(t);
    push_all(v, t.as_slice());
}

/// A copy of the given characters.
pub fn copy(v: &[char]) -> (r: Vec<char>)
    ensures
        r@ == v@,
{
    let mut r: Vec<char> = Vec::new();
    push_all(&mut r, v);
    assert(r@ =~= v@);
    r
}

/// Whether two character sequences are the same.
pub fn same(a: &[char], b: &[char]) -> (r: bool)
    ensures
        r == (a@ == b@),
{
    if a.len() != b.len() {
        return false;
    }
    let mut i: usize = 0;
    while i < a.len()
        invariant
            i <= a.len(),
            a.len() == b.len(),
            forall|k: int| 0 <= k < i ==> a@[k] == b@[k],
        decreases a.len() - i,
    {
        if a[i] != b[i] {
            return false;
        }
        i += 1;
    }
    assert(a@ =~= b@);
    true
}

/// Whether the characters spell the string `t`.
pub fn is_str(a: &[char], t: &str) -> (r: bool)
    ensures
        r == (a@ == t@),
{
    let t: Vec<char> = chars_of(t);
    same(a, t.as_slice())
}

/// Whether two strings are the same.
pub fn str_eq(a: &str, b: &str) -> (r: bool)
    ensures
        r == (a@ == b@),
{
    let a: Vec<char> = chars_of(a);
    is_str(a.as_slice(), b)
}

/// A string with the contents of `s`.
pub fn own(s: &str) -> (r: String)
    ensures
        r@ == s@,
{
    let v: Vec<char> = chars_of(s);
    string_of(v.as_slice())
}

/// The contents of each slice.
pub open spec fn texts(v: Seq<&[char]>) -> Seq<Seq<char>> {
    v.map_values(|t: &[char]| t@)
}

/// The contents of each string.
pub open spec fn strings(v: Seq<String>) -> Seq<Seq<char>> {
    v.map_values(|t: String| t@)
}

/// The contents of an optional string.
pub open spec fn opt_str(o: Option<String>) -> Option<Seq<char>> {
    match o {
        Some(s) => Some(s@),
        None => None,
    }
}

/// Whether the list holds the string `t`.
pub fn has_string(list: &Vec<String>, t: &str) -> (r: bool)
    ensures
        r == strings(list@).contains(t@),
{
    let mut i: usize = 0;
    while i < list.len()
        invariant
            i <= list.len(),
            forall|k: int| 0 <= k < i ==> list@[k]@ != t@,
        decreases list.len() - i,
    {
        if str_eq(list[i].as_str(), t) {
            assert(strings(list@)[i as int] == t@);
            return true;
        }
        i += 1;
    }
    assert forall|k: int| 0 <= k < strings(list@).len() implies strings(list@)[k] != t@ by {
        assert(strings(list@)[k] == list@[k]@);
    }
    false
}

// ---------------------------------------------------------------------------
// Characters
// ---------------------------------------------------------------------------

/// Unicode's White_Space property.
pub open spec fn is_whitespace(c: char) -> bool {
    let u = c as u32;
    ||| 0x09 <= u <= 0x0d
    ||| u == 0x20
    ||| u == 0x85
    ||| u == 0xa0
    ||| u == 0x1680
    ||| 0x2000 <= u <= 0x200a
    ||| u == 0x2028
    ||| u == 0x2029
    ||| u == 0x202f
    ||| u == 0x205f
    ||| u == 0x3000
}

/// Whether `c` is white space.
pub fn whitespace(c: char) -> (r: bool)
    ensures
        r == is_whitespace(c),
{
    let u: u32 = c as u32;
    (0x09 <= u && u <= 0x0d) || u == 0x20 || u == 0x85 || u == 0xa0 || u == 0x1680 || (0x2000 <= u
        && u <= 0x200a) || u == 0x2028 || u == 0x2029 || u == 0x202f || u == 0x205f || u == 0x3000
}

pub open spec fn is_digit(c: char) -> bool {
    '0' <= c <= '9'
}

pub open spec fn digit_value(c: char) -> int {
    c as int - '0' as int
}

pub open spec fn is_hex_digit(c: char) -> bool {
    is_digit(c) || 'a' <= c <= 'f' || 'A' <= c <= 'F'
}

/// The ASCII letter in lower case; every other character as it is.
pub open spec fn ascii_lower(c: char) -> char {
    if 'A' <= c <= 'Z' {
        ((c as u32 + 32) as u32) as char
    } else {
        c
    }
}

pub open spec fn ascii_lower_all(s: Seq<char>) -> Seq<char> {
    s.map_values(|c: char| ascii_lower(c))
}

// ---------------------------------------------------------------------------
// Searching
// ---------------------------------------------------------------------------

/// The first position at or after `i` that holds `c`; the length where none does.
pub open spec fn find_from(s: Seq<char>, c: char, i: int) -> int
    decreases s.len() - i,
{
    if i < 0 || i >= s.len() {
        s.len() as int
    } else if s[i] == c {
        i
    } else {
        find_from(s, c, i + 1)
    }
}

pub proof fn lemma_find_from(s: Seq<char>, c: char, i: int)
    requires
        0 <= i <= s.len(),
    ensures
        i <= find_from(s, c, i) <= s.len(),
        find_from(s, c, i) < s.len() ==> s[find_from(s, c, i)] == c,
        forall|k: int| i <= k < find_from(s, c, i) ==> s[k] != c,
    decreases s.len() - i,
{
    if i < s.len() && s[i] != c {
        lemma_find_from(s, c, i + 1);
    }
}

/// The position of the first `c` at or after `i`, or the length.
pub fn find(s: &[char], c: char, i: usize) -> (r: usize)
    requires
        i <= s.len(),
    ensures
        r == find_from(s@, c, i as int),
        i <= r <= s.len(),
        r < s.len() ==> s@[r as int] == c,
        forall|k: int| i <= k < r ==> s@[k] != c,
{
    let mut j: usize = i;
    while j < s.len() && s[j] != c
        invariant
            i <= j <= s.len(),
            find_from(s@, c, i as int) == find_from(s@, c, j as int),
            forall|k: int| i <= k < j ==> s@[k] != c,
        decreases s.len() - j,
    {
        j += 1;
    }
    j
}

/// Whether `c` occurs.
pub fn has(s: &[char], c: char) -> (r: bool)
    ensures
        r == s@.contains(c),
{
    let j: usize = find(s, c, 0);
    proof {
        if j < s.len() {
            assert(s@[j as int] == c);
        }
    }
    j < s.len()
}

/// Whether `p` stands in `s` at position `i`.
pub open spec fn stands_at(s: Seq<char>, p: Seq<char>, i: int) -> bool {
    0 <= i && i + p.len() <= s.len() && s.subrange(i, i + p.len()) == p
}

pub open spec fn starts_with(s: Seq<char>, p: Seq<char>) -> bool {
    stands_at(s, p, 0)
}

pub open spec fn ends_with(s: Seq<char>, p: Seq<char>) -> bool {
    stands_at(s, p, s.len() - p.len())
}

pub fn at(s: &[char], p: &[char], i: usize) -> (r: bool)
    ensures
        r == stands_at(s@, p@, i as int),
{
    if p.len() > s.len() || i > s.len() - p.len() {
        return false;
    }
    let sub: &[char] = slice_subrange(s, i, i + p.len());
    same(sub, p)
}

/// Whether `s` begins with the string `p`.
pub fn begins(s: &[char], p: &str) -> (r: bool)
    ensures
        r == starts_with(s@, p@),
{
    let p: Vec<char> = chars_of(p);
    at(s, p.as_slice(), 0)
}

/// Whether `s` ends with the string `p`.
pub fn finishes(s: &[char], p: &str) -> (r: bool)
    ensures
        r == ends_with(s@, p@),
{
    let p: Vec<char> = chars_of(p);
    if p.len() > s.len() {
        return false;
    }
    at(s, p.as_slice(), s.len() - p.len())
}

/// The part of `s` before position `i`.
pub fn before(s: &[char], i: usize) -> (r: &[char])
    requires
        i <= s.len(),
    ensures
        r@ == s@.take(i as int),
{
    slice_subrange(s, 0, i)
}

/// The part of `s` from position `i` on.
pub fn after(s: &[char], i: usize) -> (r: &[char])
    requires
        i <= s.len(),
    ensures
        r@ == s@.skip(i as int),
{
    slice_subrange(s, i, s.len())
}

/// What follows the prefix `p`, where `s` begins with it.
pub open spec fn strip_prefix(s: Seq<char>, p: Seq<char>) -> Option<Seq<char>> {
    if starts_with(s, p) {
        Some(s.skip(p.len() as int))
    } else {
        None
    }
}

pub open spec fn opt_text(o: Option<&[char]>) -> Option<Seq<char>> {
    match o {
        Some(t) => Some(t@),
        None => None,
    }
}

pub fn without_prefix<'a>(s: &'a [char], p: &str) -> (r: Option<&'a [char]>)
    ensures
        opt_text(r) == strip_prefix(s@, p@),
{
    let p: Vec<char> = chars_of(p);
    if at(s, p.as_slice(), 0) {
        Some(after(s, p.len()))
    } else {
        None
    }
}

/// The first position at or after `i` where `p` stands; -1 where it stands nowhere.
pub open spec fn find_text_from(s: Seq<char>, p: Seq<char>, i: int) -> int
    decreases s.len() + 1 - i,
{
    if i < 0 || i + p.len() > s.len() {
        -1
    } else if stands_at(s, p, i) {
        i
    } else {
        find_text_from(s, p, i + 1)
    }
}

pub fn find_text(s: &[char], p: &[char], i: usize) -> (r: Option<usize>)
    requires
        i <= s.len(),
    ensures
        match r {
            Some(j) => j == find_text_from(s@, p@, i as int) && i <= j && j + p.len() <= s.len(),
            None => find_text_from(s@, p@, i as int) == -1,
        },
{
    if p.len() > s.len() {
        return None;
    }
    let mut j: usize = i;
    while j <= s.len() - p.len()
        invariant
            i <= j,
            p.len() <= s.len(),
            find_text_from(s@, p@, i as int) == find_text_from(s@, p@, j as int),
        decreases s.len() + 1 - j,
    {
        if at(s, p, j) {
            return Some(j);
        }
        assert(p.len() == 0 ==> s@.subrange(j as int, j as int) =~= p@);
        j += 1;
    }
    None
}

/// Whether the string `p` occurs in `s`.
pub fn mentions(s: &[char], p: &str) -> (r: bool)
    ensures
        r == (find_text_from(s@, p@, 0) >= 0),
{
    let p: Vec<char> = chars_of(p);
    let found = find_text(s, p.as_slice(), 0);
    found.is_some()
}

// ---------------------------------------------------------------------------
// Trimming
// ---------------------------------------------------------------------------

/// The first position at or after `i` that is not white space.
pub open spec fn skip_space(s: Seq<char>, i: int) -> int
    decreases s.len() - i,
{
    if i < 0 || i >= s.len() || !is_whitespace(s[i]) {
        i
    } else {
        skip_space(s, i + 1)
    }
}

/// The end of the text before `j` once white space at its end is dropped,
/// looking back no further than `lo`.
pub open spec fn skip_space_back(s: Seq<char>, lo: int, j: int) -> int
    decreases j - lo,
{
    if j <= lo || j > s.len() || !is_whitespace(s[j - 1]) {
        j
    } else {
        skip_space_back(s, lo, j - 1)
    }
}

pub open spec fn trim_start(s: Seq<char>) -> Seq<char> {
    s.skip(skip_space(s, 0))
}

/// The text without white space at either end.
pub open spec fn trim(s: Seq<char>) -> Seq<char> {
    let lo = skip_space(s, 0);
    s.subrange(lo, skip_space_back(s, lo, s.len() as int))
}

/// The first position at or after `i` that is not white space.
pub fn past_space(s: &[char], i: usize) -> (r: usize)
    requires
        i <= s.len(),
    ensures
        r == skip_space(s@, i as int),
        i <= r <= s.len(),
        r < s.len() ==> !is_whitespace(s@[r as int]),
        forall|k: int| i <= k < r ==> is_whitespace(s@[k]),
{
    let mut j: usize = i;
    while j < s.len() && whitespace(s[j])
        invariant
            i <= j <= s.len(),
            skip_space(s@, i as int) == skip_space(s@, j as int),
            forall|k: int| i <= k < j ==> is_whitespace(s@[k]),
        decreases s.len() - j,
    {
        j += 1;
    }
    j
}

fn before_space(s: &[char], lo: usize) -> (r: usize)
    requires
        lo <= s.len(),
    ensures
        r == skip_space_back(s@, lo as int, s.len() as int),
        lo <= r <= s.len(),
        r > lo ==> !is_whitespace(s@[r - 1]),
{
    let mut j: usize = s.len();
    while j > lo && whitespace(s[j - 1])
        invariant
            lo <= j <= s.len(),
            skip_space_back(s@, lo as int, s.len() as int) == skip_space_back(
                s@,
                lo as int,
                j as int,
            ),
        decreases j,
    {
        j -= 1;
    }
    j
}

/// `s` without white space at either end.
pub fn trimmed(s: &[char]) -> (r: &[char])
    ensures
        r@ == trim(s@),
{
    let lo: usize = past_space(s, 0);
    let hi: usize = before_space(s, lo);
    slice_subrange(s, lo, hi)
}

/// `s` without white space at its start.
pub fn trimmed_start(s: &[char]) -> (r: &[char])
    ensures
        r@ == trim_start(s@),
{
    let lo: usize = past_space(s, 0);
    after(s, lo)
}

// ---------------------------------------------------------------------------
// Splitting
// ---------------------------------------------------------------------------

/// The pieces of `s` from position `i` on, parted at every `c`. There is always
/// one more piece than there are separators.
pub open spec fn split_from(s: Seq<char>, c: char, i: int) -> Seq<Seq<char>>
    decreases s.len() - i,
{
    let j = find_from(s, c, i);
    if i < 0 || j >= s.len() || j < i {
        seq![s.skip(i)]
    } else {
        seq![s.subrange(i, j)] + split_from(s, c, j + 1)
    }
}

pub open spec fn split(s: Seq<char>, c: char) -> Seq<Seq<char>> {
    split_from(s, c, 0)
}

pub fn split_at_char<'a>(s: &'a [char], c: char) -> (r: Vec<&'a [char]>)
    ensures
        texts(r@) == split(s@, c),
        r.len() >= 1,
{
    let mut r: Vec<&'a [char]> = Vec::new();
    let mut i: usize = 0;
    let mut j: usize = find(s, c, 0);
    while j < s.len()
        invariant
            i <= j <= s.len(),
            j == find_from(s@, c, i as int),
            split(s@, c) == texts(r@) + split_from(s@, c, i as int),
        decreases s.len() - j,
    {
        let ghost done = r@;
        r.push(slice_subrange(s, i, j));
        assert(texts(r@) =~= texts(done).push(s@.subrange(i as int, j as int)));
        assert(texts(done) + (seq![s@.subrange(i as int, j as int)] + split_from(
            s@,
            c,
            j + 1,
        )) =~= texts(r@) + split_from(s@, c, j + 1));
        i = j + 1;
        j = find(s, c, i);
    }
    let ghost done = r@;
    r.push(after(s, i));
    assert(texts(r@) =~= texts(done) + seq![s@.skip(i as int)]);
    r
}

/// The text before and after the first `c`, where there is one.
pub open spec fn split_once(s: Seq<char>, c: char) -> Option<(Seq<char>, Seq<char>)> {
    let j = find_from(s, c, 0);
    if j < s.len() {
        Some((s.take(j), s.skip(j + 1)))
    } else {
        None
    }
}

pub open spec fn opt_pair(o: Option<(&[char], &[char])>) -> Option<(Seq<char>, Seq<char>)> {
    match o {
        Some((a, b)) => Some((a@, b@)),
        None => None,
    }
}

pub fn parted<'a>(s: &'a [char], c: char) -> (r: Option<(&'a [char], &'a [char])>)
    ensures
        opt_pair(r) == split_once(s@, c),
{
    let j: usize = find(s, c, 0);
    if j < s.len() {
        Some((before(s, j), after(s, j + 1)))
    } else {
        None
    }
}

/// The text before and after the first place where `p` stands.
pub open spec fn split_once_text(s: Seq<char>, p: Seq<char>) -> Option<(Seq<char>, Seq<char>)> {
    let j = find_text_from(s, p, 0);
    if j >= 0 {
        Some((s.take(j), s.skip(j + p.len())))
    } else {
        None
    }
}

pub fn parted_at<'a>(s: &'a [char], p: &str) -> (r: Option<(&'a [char], &'a [char])>)
    ensures
        opt_pair(r) == split_once_text(s@, p@),
{
    let p: Vec<char> = chars_of(p);
    match find_text(s, p.as_slice(), 0) {
        Some(j) => Some((before(s, j), after(s, j + p.len()))),
        None => None,
    }
}

/// A line without the carriage return that stands before its line feed.
pub open spec fn strip_cr(s: Seq<char>) -> Seq<char> {
    if s.len() > 0 && s.last() == '\r' {
        s.drop_last()
    } else {
        s
    }
}

/// The lines of `s` from position `i` on. A line ends in a line feed, with or
/// without a carriage return before it; the last line need not end in one.
pub open spec fn lines_from(s: Seq<char>, i: int) -> Seq<Seq<char>>
    decreases s.len() - i,
{
    let j = find_from(s, '\n', i);
    if i < 0 || i >= s.len() {
        seq![]
    } else if j >= s.len() || j < i {
        seq![s.skip(i)]
    } else {
        seq![strip_cr(s.subrange(i, j))] + lines_from(s, j + 1)
    }
}

pub open spec fn lines(s: Seq<char>) -> Seq<Seq<char>> {
    lines_from(s, 0)
}

pub fn lines_of<'a>(s: &'a [char]) -> (r: Vec<&'a [char]>)
    ensures
        texts(r@) == lines(s@),
{
    let mut r: Vec<&'a [char]> = Vec::new();
    let mut i: usize = 0;
    let mut j: usize = find(s, '\n', 0);
    assert(texts(r@) =~= seq![]);
    assert(lines(s@) =~= texts(r@) + lines_from(s@, 0));
    while j < s.len()
        invariant
            i <= j <= s.len(),
            j == find_from(s@, '\n', i as int),
            lines(s@) == texts(r@) + lines_from(s@, i as int),
        decreases s.len() - j,
    {
        let ghost done = r@;
        let mut hi: usize = j;
        if hi > i && s[hi - 1] == '\r' {
            hi -= 1;
        }
        let ghost whole = s@.subrange(i as int, j as int);
        assert(s@.subrange(i as int, hi as int) =~= strip_cr(whole)) by {
            if hi < j {
                assert(whole.last() == '\r');
            } else if j > i {
                assert(whole.last() == s@[j - 1]);
            }
        }
        r.push(slice_subrange(s, i, hi));
        assert(texts(r@) =~= texts(done).push(strip_cr(whole)));
        assert(texts(done) + (seq![strip_cr(whole)] + lines_from(s@, j + 1)) =~= texts(r@)
            + lines_from(s@, j + 1));
        i = j + 1;
        j = find(s, '\n', i);
    }
    if i < s.len() {
        let ghost done = r@;
        r.push(after(s, i));
        assert(texts(r@) =~= texts(done) + seq![s@.skip(i as int)]);
    } else {
        assert(texts(r@) + seq![] =~= texts(r@));
    }
    r
}

/// The end of the run of characters from `i` on that are not white space.
pub open spec fn word_end(s: Seq<char>, i: int) -> int
    decreases s.len() - i,
{
    if i < 0 || i >= s.len() || is_whitespace(s[i]) {
        i
    } else {
        word_end(s, i + 1)
    }
}

/// The words of `s` from position `i` on: the longest runs without white space.
pub open spec fn words_from(s: Seq<char>, i: int) -> Seq<Seq<char>>
    decreases s.len() - i,
{
    let lo = skip_space(s, i);
    let hi = word_end(s, lo);
    if i < 0 || lo >= s.len() || lo < i || hi <= lo || hi > s.len() {
        seq![]
    } else {
        seq![s.subrange(lo, hi)] + words_from(s, hi)
    }
}

pub open spec fn words(s: Seq<char>) -> Seq<Seq<char>> {
    words_from(s, 0)
}

fn end_of_word(s: &[char], i: usize) -> (r: usize)
    requires
        i <= s.len(),
    ensures
        r == word_end(s@, i as int),
        i <= r <= s.len(),
        i < s.len() && !is_whitespace(s@[i as int]) ==> i < r,
{
    let mut j: usize = i;
    while j < s.len() && !whitespace(s[j])
        invariant
            i <= j <= s.len(),
            word_end(s@, i as int) == word_end(s@, j as int),
        decreases s.len() - j,
    {
        j += 1;
    }
    j
}

pub fn words_of<'a>(s: &'a [char]) -> (r: Vec<&'a [char]>)
    ensures
        texts(r@) == words(s@),
{
    let mut r: Vec<&'a [char]> = Vec::new();
    let mut lo: usize = past_space(s, 0);
    let ghost mut i: int = 0;
    assert(words(s@) =~= texts(r@) + words_from(s@, 0));
    while lo < s.len()
        invariant
            lo <= s.len(),
            0 <= i <= lo,
            lo == skip_space(s@, i),
            lo < s.len() ==> !is_whitespace(s@[lo as int]),
            words(s@) == texts(r@) + words_from(s@, i),
        decreases s.len() - lo,
    {
        let hi: usize = end_of_word(s, lo);
        let ghost done = r@;
        r.push(slice_subrange(s, lo, hi));
        assert(texts(r@) =~= texts(done).push(s@.subrange(lo as int, hi as int)));
        assert(texts(done) + (seq![s@.subrange(lo as int, hi as int)] + words_from(s@, hi as int))
            =~= texts(r@) + words_from(s@, hi as int));
        lo = past_space(s, hi);
        proof {
            i = hi as int;
        }
    }
    assert(texts(r@) + seq![] =~= texts(r@));
    r
}

// ---------------------------------------------------------------------------
// Numbers
// ---------------------------------------------------------------------------

pub open spec fn all_digits(s: Seq<char>) -> bool {
    forall|i: int| 0 <= i < s.len() ==> is_digit(#[trigger] s[i])
}

/// The number that decimal digits stand for.
pub open spec fn decimal_value(s: Seq<char>) -> int
    decreases s.len(),
{
    if s.len() == 0 {
        0
    } else {
        10 * decimal_value(s.drop_last()) + digit_value(s.last())
    }
}

/// An unsigned number in decimal, with an optional plus sign, of at most `max`.
pub open spec fn parse_unsigned(s: Seq<char>, max: int) -> Option<int> {
    let d = if s.len() > 0 && s[0] == '+' { s.skip(1) } else { s };
    if d.len() > 0 && all_digits(d) && decimal_value(d) <= max {
        Some(decimal_value(d))
    } else {
        None
    }
}

/// A signed number in decimal, with an optional sign, between `min` and `max`.
pub open spec fn parse_signed(s: Seq<char>, min: int, max: int) -> Option<int> {
    if s.len() > 0 && s[0] == '-' {
        let d = s.skip(1);
        if d.len() > 0 && all_digits(d) && -decimal_value(d) >= min {
            Some(-decimal_value(d))
        } else {
            None
        }
    } else {
        parse_unsigned(s, max)
    }
}

proof fn lemma_decimal_nonneg(s: Seq<char>)
    requires
        all_digits(s),
    ensures
        decimal_value(s) >= 0,
    decreases s.len(),
{
    if s.len() > 0 {
        assert(is_digit(s.last()));
        assert(all_digits(s.drop_last()));
        lemma_decimal_nonneg(s.drop_last());
    }
}

proof fn lemma_decimal_grows(s: Seq<char>, i: int)
    requires
        all_digits(s),
        0 <= i <= s.len(),
    ensures
        decimal_value(s.take(i)) <= decimal_value(s),
    decreases s.len(),
{
    if i < s.len() {
        let t = s.drop_last();
        assert(all_digits(t));
        assert(is_digit(s.last()));
        lemma_decimal_nonneg(t);
        assert(t.take(i) =~= s.take(i));
        lemma_decimal_grows(t, i);
    } else {
        assert(s.take(i) =~= s);
    }
}

/// The value of decimal digits, where it is at most `max`.
fn digits_value(s: &[char], max: u64) -> (r: Option<u64>)
    ensures
        match r {
            Some(n) => s.len() > 0 && all_digits(s@) && n == decimal_value(s@) && n <= max,
            None => s.len() == 0 || !all_digits(s@) || decimal_value(s@) > max,
        },
{
    if s.len() == 0 {
        return None;
    }
    let mut n: u64 = 0;
    let mut i: usize = 0;
    while i < s.len()
        invariant
            i <= s.len(),
            forall|k: int| 0 <= k < i ==> is_digit(s@[k]),
            n == decimal_value(s@.take(i as int)),
            n <= max,
        decreases s.len() - i,
    {
        let c: char = s[i];
        if !('0' <= c && c <= '9') {
            return None;
        }
        let d: u64 = (c as u32 - '0' as u32) as u64;
        let ghost part = s@.take(i + 1);
        proof {
            assert(part.drop_last() =~= s@.take(i as int));
            assert(part.last() == c);
            if all_digits(s@) {
                lemma_decimal_grows(s@, i + 1);
            }
        }
        if n > (u64::MAX - d) / 10 {
            assert(decimal_value(part) > max);
            return None;
        }
        let next: u64 = n * 10 + d;
        if next > max {
            return None;
        }
        n = next;
        i += 1;
    }
    assert(s@.take(s.len() as int) =~= s@);
    Some(n)
}

/// Reads an unsigned number of at most `max`.
pub fn unsigned(s: &[char], max: u64) -> (r: Option<u64>)
    ensures
        match r {
            Some(n) => parse_unsigned(s@, max as int) == Some(n as int),
            None => parse_unsigned(s@, max as int) is None,
        },
        r is Some ==> r->0 <= max,
{
    if s.len() > 0 && s[0] == '+' {
        digits_value(after(s, 1), max)
    } else {
        digits_value(s, max)
    }
}

/// Reads a signed number of 32 bits.
pub fn signed(s: &[char]) -> (r: Option<i32>)
    ensures
        match r {
            Some(n) => parse_signed(s@, i32::MIN as int, i32::MAX as int) == Some(n as int),
            None => parse_signed(s@, i32::MIN as int, i32::MAX as int) is None,
        },
{
    if s.len() > 0 && s[0] == '-' {
        match digits_value(after(s, 1), 2147483648) {
            Some(n) => Some((-(n as i64)) as i32),
            None => None,
        }
    } else {
        match unsigned(s, 2147483647) {
            Some(n) => Some(n as i32),
            None => None,
        }
    }
}

/// The decimal digits of a number, without leading zeros.
pub open spec fn decimal(n: nat) -> Seq<char>
    decreases n,
{
    if n < 10 {
        seq![digit_char(n)]
    } else {
        decimal(n / 10).push(digit_char(n % 10))
    }
}

pub open spec fn digit_char(d: nat) -> char {
    (('0' as u32 + d) as u32) as char
}

fn char_of_digit(d: u64) -> (c: char)
    requires
        d < 10,
    ensures
        c == digit_char(d as nat),
{
    (48 + d as u8) as char
}

/// Writes a number in decimal.
pub fn decimal_of(n: u64) -> (r: Vec<char>)
    ensures
        r@ == decimal(n as nat),
    decreases n,
{
    if n < 10 {
        let mut r: Vec<char> = Vec::new();
        r.push(char_of_digit(n));
        assert(r@ =~= decimal(n as nat));
        r
    } else {
        let mut r: Vec<char> = decimal_of(n / 10);
        r.push(char_of_digit(n % 10));
        r
    }
}

// ---------------------------------------------------------------------------
// Paths and flags
// ---------------------------------------------------------------------------

/// A directory and a relative name below it, with one slash between them.
pub open spec fn path_join(dir: Seq<char>, name: Seq<char>) -> Seq<char> {
    if dir.len() == 0 || dir.last() == '/' {
        dir + name
    } else {
        dir.push('/') + name
    }
}

pub fn join_path(dir: &str, name: &str) -> (r: String)
    ensures
        r@ == path_join(dir@, name@),
{
    let mut v: Vec<char> = chars_of(dir);
    if v.len() > 0 && v[v.len() - 1] != '/' {
        v.push('/');
    }
    push_str(&mut v, name);
    string_of(v.as_slice())
}

/// The last of the first `n` parts that names something; a part that is empty or
/// a lone dot does not.
pub open spec fn last_named(parts: Seq<Seq<char>>, n: int) -> Option<Seq<char>>
    decreases n,
{
    if n <= 0 {
        None
    } else if parts[n - 1] == ""@ || parts[n - 1] == "."@ {
        last_named(parts, n - 1)
    } else {
        Some(parts[n - 1])
    }
}

/// The extension of a path: what stands behind the last dot of its file name. A
/// name has none without a dot, with only a leading one, and where it is the way
/// up.
pub open spec fn extension(path: Seq<char>) -> Option<Seq<char>> {
    let parts = split(path, '/');
    match last_named(parts, parts.len() as int) {
        None => None,
        Some(name) => {
            let dot = rfind_before(name, '.', name.len() as int);
            if name == ".."@ || dot <= 0 {
                None
            } else {
                Some(name.skip(dot + 1))
            }
        },
    }
}

pub fn extension_of(path: &[char]) -> (r: Option<Vec<char>>)
    ensures
        match r {
            Some(e) => extension(path@) == Some(e@),
            None => extension(path@) is None,
        },
{
    let parts: Vec<&[char]> = split_at_char(path, '/');
    let ghost all = texts(parts@);
    let mut n: usize = parts.len();
    while n > 0
        invariant
            n <= parts.len(),
            all == texts(parts@),
            all == split(path@, '/'),
            last_named(all, all.len() as int) == last_named(all, n as int),
        decreases n,
    {
        let part: &[char] = parts[n - 1];
        assert(all[n - 1] == part@);
        if is_str(part, "") || is_str(part, ".") {
            n -= 1;
        } else {
            if is_str(part, "..") {
                return None;
            }
            return match find_last(part, '.') {
                Some(dot) => if dot == 0 {
                    None
                } else {
                    let e: Vec<char> = copy(after(part, dot + 1));
                    Some(e)
                },
                None => None,
            };
        }
    }
    None
}

/// How a flag is written.
pub open spec fn bool_text(b: bool) -> Seq<char> {
    if b {
        "true"@
    } else {
        "false"@
    }
}

/// Appends a flag.
pub fn push_bool(v: &mut Vec<char>, b: bool)
    ensures
        final(v)@ == old(v)@ + bool_text(b),
{
    push_str(v, if b { "true" } else { "false" });
}


// ---------------------------------------------------------------------------
// Case
// ---------------------------------------------------------------------------

/// What `str::to_uppercase` makes of a text.
pub uninterp spec fn uppercase(s: Seq<char>) -> Seq<char>;

/// What `str::to_lowercase` makes of a text.
pub uninterp spec fn lowercase(s: Seq<char>) -> Seq<char>;

/// `str::to_uppercase` depends on the text alone: Unicode's upper-case mapping.
pub assume_specification[ str::to_uppercase ](s: &str) -> (r: String)
    ensures
        r@ == uppercase(s@),
;

/// `str::to_lowercase` depends on the text alone: Unicode's lower-case mapping.
pub assume_specification[ str::to_lowercase ](s: &str) -> (r: String)
    ensures
        r@ == lowercase(s@),
;

fn lower(c: char) -> (r: char)
    ensures
        r == ascii_lower(c),
{
    if 'A' <= c && c <= 'Z' {
        (c as u8 + 32) as char
    } else {
        c
    }
}

/// Whether two texts differ at most in the case of ASCII letters.
pub open spec fn same_ignoring_case(a: Seq<char>, b: Seq<char>) -> bool {
    ascii_lower_all(a) == ascii_lower_all(b)
}

/// Whether the characters spell `t`, whatever the case of ASCII letters.
pub fn is_str_ignoring_case(a: &[char], t: &str) -> (r: bool)
    ensures
        r == same_ignoring_case(a@, t@),
{
    let u: Vec<char> = chars_of(t);
    if a.len() != u.len() {
        assert(ascii_lower_all(a@).len() != ascii_lower_all(t@).len());
        return false;
    }
    let mut i: usize = 0;
    while i < a.len()
        invariant
            i <= a.len(),
            a.len() == u.len(),
            u@ == t@,
            forall|k: int| 0 <= k < i ==> ascii_lower(a@[k]) == ascii_lower(u@[k]),
        decreases a.len() - i,
    {
        if lower(a[i]) != lower(u[i]) {
            assert(ascii_lower_all(a@)[i as int] != ascii_lower_all(t@)[i as int]);
            return false;
        }
        i += 1;
    }
    assert(ascii_lower_all(a@) =~= ascii_lower_all(t@));
    true
}

// ---------------------------------------------------------------------------
// Lists of strings
// ---------------------------------------------------------------------------

/// The contents of each string slice.
pub open spec fn strs(v: Seq<&str>) -> Seq<Seq<char>> {
    v.map_values(|t: &str| t@)
}

/// Owned copies of the strings.
pub fn own_all(v: &Vec<&str>) -> (r: Vec<String>)
    ensures
        strings(r@) == strs(v@),
{
    let mut r: Vec<String> = Vec::new();
    let mut i: usize = 0;
    while i < v.len()
        invariant
            i <= v.len(),
            r.len() == i,
            forall|k: int| 0 <= k < i ==> (#[trigger] r@[k])@ == v@[k]@,
        decreases v.len() - i,
    {
        r.push(own(v[i]));
        i += 1;
    }
    assert(strings(r@) =~= strs(v@));
    r
}

/// The first `n` texts of `v` from index `lo` on, parted by `sep`.
pub open spec fn join_upto(v: Seq<Seq<char>>, lo: int, hi: int, sep: Seq<char>) -> Seq<char>
    decreases hi - lo,
{
    if hi <= lo {
        seq![]
    } else if hi == lo + 1 {
        v[lo]
    } else {
        join_upto(v, lo, hi - 1, sep) + sep + v[hi - 1]
    }
}

/// The strings of `v` from index `lo` on, parted by `sep`.
pub fn join_from(v: &Vec<String>, lo: usize, sep: &str) -> (r: Vec<char>)
    requires
        lo <= v.len(),
    ensures
        r@ == join_upto(strings(v@), lo as int, v.len() as int, sep@),
{
    let mut r: Vec<char> = Vec::new();
    let mut i: usize = lo;
    assert(r@ =~= seq![]);
    while i < v.len()
        invariant
            lo <= i <= v.len(),
            r@ == join_upto(strings(v@), lo as int, i as int, sep@),
        decreases v.len() - i,
    {
        if i > lo {
            push_str(&mut r, sep);
            push_str(&mut r, v[i].as_str());
        } else {
            r = chars_of(v[i].as_str());
        }
        i += 1;
    }
    r
}


// ---------------------------------------------------------------------------
// More splitting
// ---------------------------------------------------------------------------

/// The pieces of `s` parted at the first `n - 1` separators; the last piece is
/// whatever is left.
pub open spec fn splitn(s: Seq<char>, c: char, n: nat) -> Seq<Seq<char>>
    decreases n,
{
    let j = find_from(s, c, 0);
    if n == 0 {
        seq![]
    } else if n == 1 || j >= s.len() {
        seq![s]
    } else {
        seq![s.take(j)] + splitn(s.skip(j + 1), c, (n - 1) as nat)
    }
}

pub fn split_n<'a>(s: &'a [char], c: char, n: usize) -> (r: Vec<&'a [char]>)
    ensures
        texts(r@) == splitn(s@, c, n as nat),
{
    let mut r: Vec<&'a [char]> = Vec::new();
    let mut rest: &'a [char] = s;
    let mut left: usize = n;
    assert(texts(r@) + splitn(s@, c, n as nat) =~= splitn(s@, c, n as nat));
    while left > 1
        invariant
            splitn(s@, c, n as nat) == texts(r@) + splitn(rest@, c, left as nat),
        decreases left,
    {
        let ghost done = texts(r@);
        let j: usize = find(rest, c, 0);
        if j >= rest.len() {
            r.push(rest);
            assert(texts(r@) =~= done + seq![rest@]);
            return r;
        }
        let head: &'a [char] = before(rest, j);
        let tail: &'a [char] = after(rest, j + 1);
        r.push(head);
        assert(done + (seq![head@] + splitn(tail@, c, (left - 1) as nat)) =~= texts(r@) + splitn(
            tail@,
            c,
            (left - 1) as nat,
        ));
        rest = tail;
        left -= 1;
    }
    if left == 1 {
        let ghost done = texts(r@);
        r.push(rest);
        assert(texts(r@) =~= done + seq![rest@]);
    } else {
        assert(texts(r@) + seq![] =~= texts(r@));
    }
    r
}

/// The last position before `j` that holds `c`; -1 where none does.
pub open spec fn rfind_before(s: Seq<char>, c: char, j: int) -> int
    decreases j,
{
    if j <= 0 || j > s.len() {
        -1
    } else if s[j - 1] == c {
        j - 1
    } else {
        rfind_before(s, c, j - 1)
    }
}

/// The position of the last `c`.
pub fn find_last(s: &[char], c: char) -> (r: Option<usize>)
    ensures
        match r {
            Some(i) => i == rfind_before(s@, c, s@.len() as int) && i < s.len() && s@[i as int] == c,
            None => rfind_before(s@, c, s@.len() as int) == -1,
        },
{
    let mut j: usize = s.len();
    while j > 0
        invariant
            j <= s.len(),
            rfind_before(s@, c, s@.len() as int) == rfind_before(s@, c, j as int),
        decreases j,
    {
        if s[j - 1] == c {
            return Some(j - 1);
        }
        j -= 1;
    }
    None
}

/// The text without the run of `c` at its start.
pub open spec fn strip_run(s: Seq<char>, c: char) -> Seq<char>
    decreases s.len(),
{
    if s.len() > 0 && s[0] == c {
        strip_run(s.skip(1), c)
    } else {
        s
    }
}

pub fn without_run(s: &[char], c: char) -> (r: &[char])
    ensures
        r@ == strip_run(s@, c),
{
    let mut r: &[char] = s;
    while r.len() > 0 && r[0] == c
        invariant
            strip_run(s@, c) == strip_run(r@, c),
        decreases r.len(),
    {
        r = after(r, 1);
    }
    r
}


/// The text without the run of `c` at its end.
pub open spec fn strip_run_back(s: Seq<char>, c: char) -> Seq<char>
    decreases s.len(),
{
    if s.len() > 0 && s.last() == c {
        strip_run_back(s.drop_last(), c)
    } else {
        s
    }
}

pub fn without_run_back(s: &[char], c: char) -> (r: &[char])
    ensures
        r@ == strip_run_back(s@, c),
{
    let mut r: &[char] = s;
    while r.len() > 0 && r[r.len() - 1] == c
        invariant
            strip_run_back(s@, c) == strip_run_back(r@, c),
        decreases r.len(),
    {
        assert(r@.drop_last() =~= r@.take(r@.len() - 1));
        r = before(r, r.len() - 1);
    }
    r
}

/// The characters with ASCII letters in lower case.
pub fn lower_all(s: &[char]) -> (r: Vec<char>)
    ensures
        r@ == ascii_lower_all(s@),
{
    let mut r: Vec<char> = Vec::new();
    let mut i: usize = 0;
    while i < s.len()
        invariant
            i <= s.len(),
            r.len() == i,
            forall|k: int| 0 <= k < i ==> r@[k] == ascii_lower(s@[k]),
        decreases s.len() - i,
    {
        r.push(lower(s[i]));
        i += 1;
    }
    assert(r@ =~= ascii_lower_all(s@));
    r
}

/// The text before a suffix, where it ends in it.
pub open spec fn strip_suffix(s: Seq<char>, p: Seq<char>) -> Option<Seq<char>> {
    if ends_with(s, p) {
        Some(s.take(s.len() - p.len()))
    } else {
        None
    }
}

pub fn without_suffix<'a>(s: &'a [char], p: &str) -> (r: Option<&'a [char]>)
    ensures
        opt_text(r) == strip_suffix(s@, p@),
{
    if finishes(s, p) {
        let n: usize = chars_of(p).len();
        Some(before(s, s.len() - n))
    } else {
        None
    }
}

/// Two strings in a row.
pub fn concat2(a: &str, b: &str) -> (r: String)
    ensures
        r@ == a@ + b@,
{
    let mut v: Vec<char> = chars_of(a);
    push_str(&mut v, b);
    string_of(v.as_slice())
}

/// Three strings in a row.
pub fn concat3(a: &str, b: &str, c: &str) -> (r: String)
    ensures
        r@ == a@ + b@ + c@,
{
    let mut v: Vec<char> = chars_of(a);
    push_str(&mut v, b);
    push_str(&mut v, c);
    string_of(v.as_slice())
}


// ---------------------------------------------------------------------------
// Columns
// ---------------------------------------------------------------------------

pub open spec fn spaces(n: int) -> Seq<char> {
    Seq::new(
        if n > 0 {
            n as nat
        } else {
            0
        },
        |i: int| ' ',
    )
}

/// The text with spaces behind it, up to `width` characters.
pub open spec fn padded(s: Seq<char>, width: int) -> Seq<char> {
    s + spaces(width - s.len())
}

/// The text with spaces before it, up to `width` characters.
pub open spec fn padded_left(s: Seq<char>, width: int) -> Seq<char> {
    spaces(width - s.len()) + s
}

fn push_spaces(v: &mut Vec<char>, n: usize)
    ensures
        final(v)@ == old(v)@ + spaces(n as int),
{
    let ghost before = v@;
    let mut i: usize = 0;
    assert(v@ =~= before + spaces(0));
    while i < n
        invariant
            i <= n,
            v@ == before + spaces(i as int),
        decreases n - i,
    {
        v.push(' ');
        assert(v@ =~= before + spaces(i + 1));
        i += 1;
    }
}

/// Appends `s`, then spaces up to `width` characters.
pub fn push_padded(v: &mut Vec<char>, s: &str, width: usize)
    ensures
        final(v)@ == old(v)@ + padded(s@, width as int),
{
    let ghost before = v@;
    let s: Vec<char> = chars_of(s);
    push_all(v, s.as_slice());
    if s.len() < width {
        push_spaces(v, width - s.len());
    }
    assert(v@ =~= before + padded(s@, width as int));
}

/// Appends spaces so that they and `s` fill `width` characters, then `s`.
pub fn push_padded_left(v: &mut Vec<char>, s: &str, width: usize)
    ensures
        final(v)@ == old(v)@ + padded_left(s@, width as int),
{
    let ghost before = v@;
    let s: Vec<char> = chars_of(s);
    if s.len() < width {
        push_spaces(v, width - s.len());
    }
    push_all(v, s.as_slice());
    assert(v@ =~= before + padded_left(s@, width as int));
}

/// The number in decimal, with its sign.
pub open spec fn signed_decimal(n: int) -> Seq<char> {
    if n < 0 {
        "-"@ + decimal((-n) as nat)
    } else {
        decimal(n as nat)
    }
}

pub fn signed_decimal_of(n: i32) -> (r: Vec<char>)
    ensures
        r@ == signed_decimal(n as int),
{
    if n < 0 {
        let mut v: Vec<char> = chars_of("-");
        let d: Vec<char> = decimal_of((-(n as i64)) as u64);
        push_all(&mut v, d.as_slice());
        v
    } else {
        decimal_of(n as u64)
    }
}

/// The whole number nearest to `n / d`; the even one where two are as near.
pub open spec fn nearest_even(n: nat, d: nat) -> nat {
    let q = n / d;
    let r = n % d;
    if 2 * r < d || (2 * r == d && q % 2 == 0) {
        q
    } else {
        q + 1
    }
}

// ---------------------------------------------------------------------------
// Facts about splitting, joining and trimming
// ---------------------------------------------------------------------------

/// The position of the first `c` is the one that holds it with none before it.
pub proof fn lemma_find_is(s: Seq<char>, c: char, i: int, j: int)
    requires
        0 <= i <= j <= s.len(),
        forall|k: int| i <= k < j ==> s[k] != c,
        j == s.len() || s[j] == c,
    ensures
        find_from(s, c, i) == j,
    decreases s.len() - i,
{
    if i < j {
        lemma_find_is(s, c, i + 1, j);
    }
}

/// The position of the first `p` is the one where it stands and none before it.
pub proof fn lemma_text_is(s: Seq<char>, p: Seq<char>, i: int, j: int)
    requires
        0 <= i <= j,
        j + p.len() <= s.len(),
        stands_at(s, p, j),
        forall|k: int| i <= k < j ==> !#[trigger] stands_at(s, p, k),
    ensures
        find_text_from(s, p, i) == j,
    decreases j - i,
{
    if i < j {
        lemma_text_is(s, p, i + 1, j);
    }
}

/// A text that stands nowhere has no position.
pub proof fn lemma_text_nowhere(s: Seq<char>, p: Seq<char>, i: int)
    requires
        0 <= i,
        forall|k: int| i <= k && k + p.len() <= s.len() ==> !#[trigger] stands_at(s, p, k),
    ensures
        find_text_from(s, p, i) == -1,
    decreases s.len() + 1 - i,
{
    if i + p.len() <= s.len() {
        lemma_text_nowhere(s, p, i + 1);
    }
}

/// No piece holds the separator.
pub proof fn lemma_split_free(s: Seq<char>, c: char, i: int)
    requires
        0 <= i <= s.len(),
    ensures
        split_from(s, c, i).len() >= 1,
        forall|k: int|
            0 <= k < split_from(s, c, i).len() ==> !(#[trigger] split_from(s, c, i)[k]).contains(c),
    decreases s.len() - i,
{
    lemma_find_from(s, c, i);
    let j = find_from(s, c, i);
    if j < s.len() {
        lemma_split_free(s, c, j + 1);
        let rest = split_from(s, c, j + 1);
        assert forall|k: int| 0 <= k < split_from(s, c, i).len() implies !(
        #[trigger] split_from(s, c, i)[k]).contains(c) by {
            if k > 0 {
                assert(split_from(s, c, i)[k] == rest[k - 1]);
            }
        }
    }
}

/// The pieces of two texts joined by the separator are those of the first, then
/// those of the second.
pub proof fn lemma_split_concat(a: Seq<char>, c: char, t: Seq<char>, i: int)
    requires
        0 <= i <= a.len(),
    ensures
        split_from(a + seq![c] + t, c, i) == split_from(a, c, i) + split(t, c),
    decreases a.len() - i,
{
    let s = a + seq![c] + t;
    let n = a.len() as int;
    lemma_find_from(a, c, i);
    let j = find_from(a, c, i);
    if j < n {
        assert forall|k: int| i <= k < j implies s[k] != c by {
            assert(s[k] == a[k]);
        }
        lemma_find_is(s, c, i, j);
        lemma_split_concat(a, c, t, j + 1);
        assert(s.subrange(i, j) =~= a.subrange(i, j));
        assert(split_from(s, c, i) =~= split_from(a, c, i) + split(t, c));
    } else {
        assert forall|k: int| i <= k < n implies s[k] != c by {
            assert(s[k] == a[k]);
        }
        lemma_find_is(s, c, i, n);
        assert(s.skip(n + 1) =~= t);
        lemma_split_shift(s, c, t, n + 1, 0);
        assert(s.subrange(i, n) =~= a.skip(i));
        assert(split_from(s, c, i) =~= split_from(a, c, i) + split(t, c));
    }
}

/// The pieces of a text's end do not depend on what stands before it.
proof fn lemma_split_shift(s: Seq<char>, c: char, t: Seq<char>, n: int, i: int)
    requires
        0 <= n <= s.len(),
        s.skip(n) == t,
        0 <= i <= t.len(),
    ensures
        split_from(s, c, n + i) == split_from(t, c, i),
    decreases t.len() - i,
{
    lemma_find_from(t, c, i);
    let j = find_from(t, c, i);
    assert forall|k: int| n + i <= k < n + j implies s[k] != c by {
        assert(s[k] == t[k - n]);
    }
    assert(j < t.len() ==> s[n + j] == t[j]);
    lemma_find_is(s, c, n + i, n + j);
    if j < t.len() {
        lemma_split_shift(s, c, t, n, j + 1);
        assert(s.subrange(n + i, n + j) =~= t.subrange(i, j));
    } else {
        assert(s.skip(n + i) =~= t.skip(i));
    }
}

/// A text without the separator is one piece.
pub proof fn lemma_split_whole(t: Seq<char>, c: char)
    requires
        !t.contains(c),
    ensures
        split(t, c) == seq![t],
{
    assert forall|k: int| 0 <= k < t.len() implies t[k] != c by {
        assert(t.contains(t[k]));
    }
    lemma_find_is(t, c, 0, t.len() as int);
    assert(t.skip(0) =~= t);
}

/// Splitting undoes joining, for texts without the separator.
pub proof fn lemma_split_join(v: Seq<Seq<char>>, c: char, n: int)
    requires
        1 <= n <= v.len(),
        forall|k: int| 0 <= k < n ==> !(#[trigger] v[k]).contains(c),
    ensures
        split(join_upto(v, 0, n, seq![c]), c) == v.take(n),
    decreases n,
{
    lemma_split_whole(v[n - 1], c);
    if n == 1 {
        assert(v.take(1) =~= seq![v[0]]);
    } else {
        lemma_split_join(v, c, n - 1);
        lemma_split_concat(join_upto(v, 0, n - 1, seq![c]), c, v[n - 1], 0);
        assert(v.take(n) =~= v.take(n - 1) + seq![v[n - 1]]);
    }
}

proof fn lemma_skip_space(s: Seq<char>, i: int)
    requires
        0 <= i <= s.len(),
    ensures
        i <= skip_space(s, i) <= s.len(),
        skip_space(s, i) < s.len() ==> !is_whitespace(s[skip_space(s, i)]),
    decreases s.len() - i,
{
    if i < s.len() && is_whitespace(s[i]) {
        lemma_skip_space(s, i + 1);
    }
}

proof fn lemma_skip_space_back(s: Seq<char>, lo: int, j: int)
    requires
        0 <= lo <= j <= s.len(),
    ensures
        lo <= skip_space_back(s, lo, j) <= j,
        skip_space_back(s, lo, j) > lo ==> !is_whitespace(s[skip_space_back(s, lo, j) - 1]),
        lo < j && !is_whitespace(s[lo]) ==> skip_space_back(s, lo, j) > lo,
    decreases j - lo,
{
    if lo < j && is_whitespace(s[j - 1]) {
        lemma_skip_space_back(s, lo, j - 1);
    }
}

/// A text with no white space at either end is its own trimmed text.
pub proof fn lemma_trim_tight(s: Seq<char>)
    requires
        s.len() > 0 ==> !is_whitespace(s[0]) && !is_whitespace(s.last()),
    ensures
        trim(s) == s,
{
    assert(trim(s) =~= s);
}

/// What trimming leaves has no white space at either end, and no character that
/// was not there.
pub proof fn lemma_trim(s: Seq<char>)
    ensures
        trim(s).len() > 0 ==> !is_whitespace(trim(s)[0]) && !is_whitespace(trim(s).last()),
        forall|c: char| #[trigger] trim(s).contains(c) ==> s.contains(c),
        trim(trim(s)) == trim(s),
{
    let lo = skip_space(s, 0);
    lemma_skip_space(s, 0);
    let hi = skip_space_back(s, lo, s.len() as int);
    lemma_skip_space_back(s, lo, s.len() as int);
    let t = trim(s);
    assert forall|c: char| #[trigger] t.contains(c) implies s.contains(c) by {
        let k = choose|k: int| 0 <= k < t.len() && t[k] == c;
        assert(s[lo + k] == c);
    }
    lemma_trim_tight(t);
}

/// What trimming leaves is a part of the text; where it begins.
pub proof fn lemma_trim_part(s: Seq<char>) -> (lo: int)
    ensures
        0 <= lo,
        lo + trim(s).len() <= s.len(),
        trim(s) == s.subrange(lo, lo + trim(s).len()),
{
    let lo = skip_space(s, 0);
    lemma_skip_space(s, 0);
    lemma_skip_space_back(s, lo, s.len() as int);
    lo
}

/// Trimming does not lengthen a text.
pub proof fn lemma_trim_len(s: Seq<char>)
    ensures
        trim(s).len() <= s.len(),
{
    let lo = skip_space(s, 0);
    lemma_skip_space(s, 0);
    lemma_skip_space_back(s, lo, s.len() as int);
}

// ---------------------------------------------------------------------------
// Laws
// ---------------------------------------------------------------------------

/// Tabs, line breaks and spaces are white space; no other ASCII character that
/// prints, nor any accented letter up to the end of Latin, is.
pub proof fn law_white_space(c: char)
    ensures
        c == ' ' || c == '\t' || c == '\n' || c == '\r' ==> is_whitespace(c),
        0x20 < (c as u32) < 0x7f ==> !is_whitespace(c),
        0xa0 < (c as u32) < 0x1680 ==> !is_whitespace(c),
{
}

/// Digits stand for their place among the ten.
pub proof fn law_digits(d: nat)
    requires
        d < 10,
    ensures
        is_digit(digit_char(d)),
        digit_value(digit_char(d)) == d,
        digit_char(d) == "0123456789"@[d as int],
{
    reveal_strlit("0123456789");
}

proof fn lemma_decimal(n: nat)
    ensures
        decimal(n).len() > 0,
        all_digits(decimal(n)),
        decimal_value(decimal(n)) == n,
        n > 0 ==> decimal(n)[0] != '0',
    decreases n,
{
    reveal_with_fuel(decimal_value, 2);
    if n < 10 {
        law_digits(n);
        assert(decimal(n).drop_last() =~= seq![]);
    } else {
        lemma_decimal(n / 10);
        law_digits(n % 10);
        let d = decimal(n);
        assert(d.drop_last() =~= decimal(n / 10));
        assert forall|i: int| 0 <= i < d.len() implies is_digit(#[trigger] d[i]) by {
            if i < d.len() - 1 {
                assert(d[i] == decimal(n / 10)[i]);
            }
        }
    }
}

/// A number that is written in decimal is read back as it was, unless it is above
/// the bound, and then it is refused. It has no leading zero.
pub proof fn law_decimal_reads_back(n: nat, max: int)
    ensures
        parse_unsigned(decimal(n), max) == (if n <= max {
            Some(n as int)
        } else {
            None
        }),
        n > 0 ==> decimal(n)[0] != '0',
        forall|i: int| 0 <= i < decimal(n).len() ==> '0' <= #[trigger] decimal(n)[i] <= '9',
{
    lemma_decimal(n);
    assert(is_digit(decimal(n)[0]));
}

/// A number with its sign is read back as it was, where it is within the bounds.
pub proof fn law_signed_reads_back(n: int, min: int, max: int)
    ensures
        parse_signed(signed_decimal(n), min, max) == (if (n < 0 && min <= n) || (0 <= n <= max) {
            Some(n)
        } else {
            None
        }),
        signed_decimal(n).len() > 0,
        forall|i: int|
            0 <= i < signed_decimal(n).len() ==> #[trigger] signed_decimal(n)[i] == '-' || '0'
                <= signed_decimal(n)[i] <= '9',
{
    reveal_strlit("-");
    if n < 0 {
        lemma_decimal((-n) as nat);
        let t = signed_decimal(n);
        assert(t.skip(1) =~= decimal((-n) as nat));
        assert forall|i: int| 0 <= i < t.len() implies #[trigger] t[i] == '-' || '0' <= t[i]
            <= '9' by {
            if i > 0 {
                assert(is_digit(decimal((-n) as nat)[i - 1]));
            }
        }
    } else {
        law_decimal_reads_back(n as nat, max);
        lemma_decimal(n as nat);
        assert(is_digit(decimal(n as nat)[0]));
    }
}

/// Only digits are read as a number: a text that holds anything else, but for one
/// sign in front, is refused, and so is an empty one.
pub proof fn law_numbers_are_digits(s: Seq<char>, max: int, i: int)
    requires
        0 < i < s.len(),
        !('0' <= s[i] <= '9'),
    ensures
        parse_unsigned(s, max) is None,
        parse_signed(s, -max, max) is None,
        parse_unsigned(seq![], max) is None,
        parse_unsigned(seq!['-'], max) is None,
{
    let d = s.skip(1);
    assert(d[i - 1] == s[i]);
    assert(!is_digit(s[i]));
    if all_digits(s) {
        assert(is_digit(s[i]));
    }
    if all_digits(d) {
        assert(is_digit(d[i - 1]));
    }
    assert(!is_digit(seq!['-'][0]));
}

proof fn lemma_skip_is(s: Seq<char>, i: int, j: int)
    requires
        0 <= i <= j <= s.len(),
        forall|k: int| i <= k < j ==> is_whitespace(#[trigger] s[k]),
        j == s.len() || !is_whitespace(s[j]),
    ensures
        skip_space(s, i) == j,
    decreases j - i,
{
    if i < j {
        assert(is_whitespace(s[i]));
        lemma_skip_is(s, i + 1, j);
    }
}

proof fn lemma_skip_back_is(s: Seq<char>, lo: int, i: int, j: int)
    requires
        0 <= lo <= i <= j <= s.len(),
        forall|k: int| i <= k < j ==> is_whitespace(#[trigger] s[k]),
        i == lo || !is_whitespace(s[i - 1]),
    ensures
        skip_space_back(s, lo, j) == i,
    decreases j - i,
{
    if i < j {
        assert(is_whitespace(s[j - 1]));
        lemma_skip_back_is(s, lo, i, j - 1);
    }
}

/// Trimming takes white space off both ends and nothing else: whatever white space
/// stands round a text that neither begins nor ends with any, the text comes back.
pub proof fn law_trim_undoes_padding(before: Seq<char>, s: Seq<char>, after: Seq<char>)
    requires
        forall|i: int| 0 <= i < before.len() ==> is_whitespace(#[trigger] before[i]),
        forall|i: int| 0 <= i < after.len() ==> is_whitespace(#[trigger] after[i]),
        s.len() > 0,
        !is_whitespace(s[0]),
        !is_whitespace(s.last()),
    ensures
        trim(before + s + after) == s,
        trim_start(before + s + after) == s + after,
{
    let t = before + s + after;
    let lo = before.len() as int;
    let hi = lo + s.len();
    assert(t[lo] == s[0]);
    assert(t[hi - 1] == s.last());
    assert forall|k: int| 0 <= k < lo implies is_whitespace(#[trigger] t[k]) by {
        assert(t[k] == before[k]);
    }
    assert forall|k: int| hi <= k < t.len() implies is_whitespace(#[trigger] t[k]) by {
        assert(t[k] == after[k - hi]);
    }
    lemma_skip_is(t, 0, lo);
    lemma_skip_back_is(t, lo, hi, t.len() as int);
    assert(t.subrange(lo, hi) =~= s);
    assert(t.skip(lo) =~= s + after);
}

/// The first pieces that are parted off are those that were joined, and what is
/// left is the last piece with whatever separators it holds.
pub proof fn law_splitn_undoes_join(v: Seq<Seq<char>>, c: char, rest: Seq<char>)
    requires
        forall|k: int| 0 <= k < v.len() ==> !(#[trigger] v[k]).contains(c),
    ensures
        splitn(joined(v, c, rest), c, (v.len() + 1) as nat) == v.push(rest),
    decreases v.len(),
{
    if v.len() == 0 {
        assert(v.push(rest) =~= seq![rest]);
    } else {
        let a = v[0];
        let w = v.skip(1);
        let s = joined(v, c, rest);
        let n = a.len() as int;
        assert forall|k: int| 0 <= k < w.len() implies !(#[trigger] w[k]).contains(c) by {
            assert(w[k] == v[k + 1]);
        }
        law_splitn_undoes_join(w, c, rest);
        assert forall|k: int| 0 <= k < n implies s[k] != c by {
            assert(s[k] == a[k]);
            assert(a.contains(a[k]));
        }
        assert(s[n] == c);
        lemma_find_is(s, c, 0, n);
        assert(s.take(n) =~= a);
        assert(s.skip(n + 1) =~= joined(w, c, rest));
        assert(v.push(rest) =~= seq![a] + w.push(rest));
    }
}

/// Texts in a row, each with a separator behind it, and what follows them.
pub open spec fn joined(v: Seq<Seq<char>>, c: char, rest: Seq<char>) -> Seq<char>
    decreases v.len(),
{
    if v.len() == 0 {
        rest
    } else {
        v[0] + seq![c] + joined(v.skip(1), c, rest)
    }
}

/// A text is parted at its first separator: what is before it holds none.
pub proof fn law_split_once(a: Seq<char>, c: char, b: Seq<char>)
    requires
        !a.contains(c),
    ensures
        split_once(a + seq![c] + b, c) == Some((a, b)),
        split_once(a, c) is None,
{
    let s = a + seq![c] + b;
    let n = a.len() as int;
    assert forall|k: int| 0 <= k < n implies s[k] != c && a[k] != c by {
        assert(s[k] == a[k]);
        assert(a.contains(a[k]));
    }
    assert(s[n] == c);
    lemma_find_is(s, c, 0, n);
    lemma_find_is(a, c, 0, n);
    assert(s.take(n) =~= a);
    assert(s.skip(n + 1) =~= b);
}

/// A prefix is taken off just where it stands.
pub proof fn law_prefix(p: Seq<char>, s: Seq<char>)
    ensures
        strip_prefix(p + s, p) == Some(s),
        strip_suffix(s + p, p) == Some(s),
        starts_with(p + s, p),
        ends_with(s + p, p),
{
    assert((p + s).subrange(0, p.len() as int) =~= p);
    assert((p + s).skip(p.len() as int) =~= s);
    assert((s + p).subrange(s.len() as int, (s + p).len() as int) =~= p);
    assert((s + p).take(s.len() as int) =~= s);
}

/// What is left when a prefix was taken off makes up the text again behind it.
pub proof fn law_prefix_stands(t: Seq<char>, p: Seq<char>)
    ensures
        strip_prefix(t, p) matches Some(r) ==> t == p + r,
{
    if starts_with(t, p) {
        assert(t =~= t.subrange(0, p.len() as int) + t.skip(p.len() as int));
    }
}

/// A text is found exactly where it stands somewhere, and first where it stands
/// first.
pub proof fn law_find_text(a: Seq<char>, p: Seq<char>, b: Seq<char>)
    ensures
        0 <= find_text_from(a + p + b, p, 0) <= a.len(),
        stands_at(a + p + b, p, find_text_from(a + p + b, p, 0)),
{
    let s = a + p + b;
    assert(s.subrange(a.len() as int, (a.len() + p.len()) as int) =~= p);
    lemma_find_text(s, p, 0, a.len() as int);
}

proof fn lemma_find_text(s: Seq<char>, p: Seq<char>, i: int, j: int)
    requires
        0 <= i <= j,
        stands_at(s, p, j),
    ensures
        i <= find_text_from(s, p, i) <= j,
        stands_at(s, p, find_text_from(s, p, i)),
    decreases j - i,
{
    if !stands_at(s, p, i) {
        lemma_find_text(s, p, i + 1, j);
    }
}

/// The lines of a text are those that were put together, each with a line feed
/// behind it, with or without a carriage return before that.
pub proof fn law_lines(a: Seq<char>, b: Seq<char>)
    requires
        !a.contains('\n'),
        a.len() > 0 ==> a.last() != '\r',
    ensures
        lines(a + seq!['\n'] + b) == seq![a] + lines(b),
        lines(a + seq!['\r', '\n'] + b) == seq![a] + lines(b),
        lines(a) == (if a.len() == 0 {
            seq![]
        } else {
            seq![a]
        }),
{
    let n = a.len() as int;
    let s = a + seq!['\n'] + b;
    let t = a + seq!['\r', '\n'] + b;
    assert forall|k: int| 0 <= k < n implies a[k] != '\n' && s[k] == a[k] && t[k] == a[k] by {
        assert(a.contains(a[k]));
    }
    assert(s[n] == '\n' && t[n] == '\r' && t[n + 1] == '\n');
    lemma_find_is(s, '\n', 0, n);
    lemma_find_is(t, '\n', 0, n + 1);
    lemma_find_is(a, '\n', 0, n);
    assert(s.subrange(0, n) =~= a);
    assert(t.subrange(0, n + 1) =~= a.push('\r'));
    assert(a.push('\r').drop_last() =~= a);
    assert(s.skip(n + 1) =~= b);
    assert(t.skip(n + 2) =~= b);
    lemma_lines_shift(s, b, n + 1, 0);
    lemma_lines_shift(t, b, n + 2, 0);
    assert(a.skip(0) =~= a);
}

proof fn lemma_lines_shift(s: Seq<char>, t: Seq<char>, n: int, i: int)
    requires
        0 <= n <= s.len(),
        s.skip(n) == t,
        0 <= i <= t.len(),
    ensures
        lines_from(s, n + i) == lines_from(t, i),
    decreases t.len() - i,
{
    lemma_find_from(t, '\n', i);
    let j = find_from(t, '\n', i);
    assert forall|k: int| n + i <= k < n + j implies s[k] != '\n' by {
        assert(s[k] == t[k - n]);
    }
    assert(j < t.len() ==> s[n + j] == t[j]);
    lemma_find_is(s, '\n', n + i, n + j);
    if i < t.len() {
        if j < t.len() {
            lemma_lines_shift(s, t, n, j + 1);
            assert(s.subrange(n + i, n + j) =~= t.subrange(i, j));
        } else {
            assert(s.skip(n + i) =~= t.skip(i));
        }
    }
}

/// The words of a text are those that were put together with white space between
/// them.
pub proof fn law_words(space: Seq<char>, a: Seq<char>, b: Seq<char>)
    requires
        forall|i: int| 0 <= i < space.len() ==> is_whitespace(#[trigger] space[i]),
        a.len() > 0,
        forall|i: int| 0 <= i < a.len() ==> !is_whitespace(#[trigger] a[i]),
        b.len() > 0 ==> is_whitespace(b[0]),
    ensures
        words(space + a + b) == seq![a] + words(b),
        words(space) == Seq::<Seq<char>>::empty(),
{
    let s = space + a + b;
    let lo = space.len() as int;
    let hi = lo + a.len();
    assert forall|k: int| 0 <= k < lo implies is_whitespace(#[trigger] s[k]) by {
        assert(s[k] == space[k]);
    }
    assert(s[lo] == a[0]);
    lemma_skip_is(s, 0, lo);
    lemma_skip_is(space, 0, lo);
    assert forall|k: int| lo <= k < hi implies !is_whitespace(#[trigger] s[k]) by {
        assert(s[k] == a[k - lo]);
    }
    if b.len() > 0 {
        assert(s[hi] == b[0]);
    }
    lemma_word_end_is(s, lo, hi);
    assert(s.subrange(lo, hi) =~= a);
    assert(s.skip(hi) =~= b);
    lemma_words_shift(s, b, hi, 0);
}

proof fn lemma_word_end_is(s: Seq<char>, i: int, j: int)
    requires
        0 <= i <= j <= s.len(),
        forall|k: int| i <= k < j ==> !is_whitespace(#[trigger] s[k]),
        j == s.len() || is_whitespace(s[j]),
    ensures
        word_end(s, i) == j,
    decreases j - i,
{
    if i < j {
        assert(!is_whitespace(s[i]));
        lemma_word_end_is(s, i + 1, j);
    }
}

proof fn lemma_word_end(s: Seq<char>, i: int)
    requires
        0 <= i <= s.len(),
    ensures
        i <= word_end(s, i) <= s.len(),
        word_end(s, i) < s.len() ==> is_whitespace(s[word_end(s, i)]),
        forall|k: int| i <= k < word_end(s, i) ==> !is_whitespace(#[trigger] s[k]),
    decreases s.len() - i,
{
    if i < s.len() && !is_whitespace(s[i]) {
        lemma_word_end(s, i + 1);
    }
}

proof fn lemma_skipped(s: Seq<char>, i: int)
    requires
        0 <= i <= s.len(),
    ensures
        forall|k: int| i <= k < skip_space(s, i) ==> is_whitespace(#[trigger] s[k]),
    decreases s.len() - i,
{
    if i < s.len() && is_whitespace(s[i]) {
        lemma_skipped(s, i + 1);
    }
}

proof fn lemma_words_shift(s: Seq<char>, t: Seq<char>, n: int, i: int)
    requires
        0 <= n <= s.len(),
        s.skip(n) == t,
        0 <= i <= t.len(),
    ensures
        words_from(s, n + i) == words_from(t, i),
    decreases t.len() - i,
{
    lemma_skip_space(t, i);
    lemma_skipped(t, i);
    let lo = skip_space(t, i);
    assert forall|k: int| n + i <= k < n + lo implies is_whitespace(#[trigger] s[k]) by {
        assert(s[k] == t[k - n]);
    }
    assert(lo < t.len() ==> s[n + lo] == t[lo]);
    lemma_skip_is(s, n + i, n + lo);
    lemma_word_end(t, lo);
    let hi = word_end(t, lo);
    assert forall|k: int| n + lo <= k < n + hi implies !is_whitespace(#[trigger] s[k]) by {
        assert(s[k] == t[k - n]);
    }
    assert(hi < t.len() ==> s[n + hi] == t[hi]);
    lemma_word_end_is(s, n + lo, n + hi);
    if lo < t.len() && hi > lo {
        assert(s.subrange(n + lo, n + hi) =~= t.subrange(lo, hi));
        lemma_words_shift(s, t, n, hi);
    }
}

/// A text is filled up to its column with spaces, behind it or before it, and is
/// left as it is where it is longer.
pub proof fn law_padded(s: Seq<char>, width: int)
    ensures
        padded(s, width).len() == (if s.len() >= width {
            s.len() as int
        } else {
            width
        }),
        padded_left(s, width).len() == padded(s, width).len(),
        padded(s, width).take(s.len() as int) == s,
        padded_left(s, width).skip(padded_left(s, width).len() - s.len()) == s,
        forall|i: int| s.len() <= i < padded(s, width).len() ==> #[trigger] padded(s, width)[i] == ' ',
        forall|i: int|
            0 <= i < padded_left(s, width).len() - s.len() ==> #[trigger] padded_left(s, width)[i]
                == ' ',
{
    assert(padded(s, width).take(s.len() as int) =~= s);
    assert(padded_left(s, width).skip(padded_left(s, width).len() - s.len()) =~= s);
}

/// The nearest whole number is never further than a half away, and of two that are
/// as near the even one is taken.
pub proof fn law_nearest(n: nat, d: nat)
    requires
        d > 0,
    ensures
        -(d as int) <= 2 * (n - nearest_even(n, d) * d) <= d,
        2 * (n - nearest_even(n, d) * d) == d || 2 * (n - nearest_even(n, d) * d) == -d
            ==> nearest_even(n, d) % 2 == 0,
{
    let q = n / d;
    let r = n % d;
    assert(n == q * d + r && 0 <= r < d) by (nonlinear_arith)
        requires
            d > 0,
            q == n / d,
            r == n % d,
    ;
    assert((q + 1) * d == q * d + d) by (nonlinear_arith);
}

/// A capital ASCII letter has the small one 32 places behind it, and nothing else
/// changes; a text is the same as itself in capitals.
pub proof fn law_small_letters(c: char)
    ensures
        'A' <= c <= 'Z' ==> ascii_lower(c) as int == c as int + 32,
        !('A' <= c <= 'Z') ==> ascii_lower(c) == c,
        same_ignoring_case(seq![c], seq![ascii_lower(c)]),
{
    assert(ascii_lower(ascii_lower(c)) == ascii_lower(c));
    assert(ascii_lower_all(seq![c]) =~= ascii_lower_all(seq![ascii_lower(c)]));
}

/// Below a directory there is one slash before the name, whether or not the
/// directory ends in one.
pub proof fn law_path_join(dir: Seq<char>, name: Seq<char>)
    requires
        dir.len() > 0,
        dir.last() != '/',
    ensures
        path_join(dir, name) == dir + seq!['/'] + name,
        path_join(dir.push('/'), name) == dir + seq!['/'] + name,
        path_join(seq![], name) == name,
{
    assert(dir.push('/') + name =~= dir + seq!['/'] + name);
    assert(Seq::<char>::empty() + name =~= name);
}

/// The extension is what stands behind the last dot of the last part of a path.
pub proof fn law_extension(dir: Seq<char>, stem: Seq<char>, ext: Seq<char>)
    requires
        stem.len() > 0,
        stem != seq!['.'],
        !stem.contains('/'),
        !ext.contains('/'),
        !ext.contains('.'),
    ensures
        extension(dir + seq!['/'] + (stem + seq!['.'] + ext)) == Some(ext),
        extension(stem + seq!['.'] + ext) == Some(ext),
{
    reveal_strlit("");
    reveal_strlit(".");
    reveal_strlit("..");
    let name = stem + seq!['.'] + ext;
    let dot = stem.len() as int;
    assert(name[dot] == '.');
    assert forall|k: int| dot < k < name.len() implies name[k] != '.' by {
        assert(name[k] == ext[k - dot - 1]);
        assert(ext.contains(ext[k - dot - 1]));
    }
    lemma_rfind_is(name, '.', name.len() as int, dot);
    assert(name.skip(dot + 1) =~= ext);
    assert(name != ".."@) by {
        if name == ".."@ {
            assert(name.len() == 2);
            assert(dot == 1);
            assert(stem =~= seq!['.']);
        }
    }
    assert(name.len() >= 2);
    assert(!name.contains('/')) by {
        if name.contains('/') {
            let k = choose|k: int| 0 <= k < name.len() && name[k] == '/';
            if k < dot {
                assert(stem[k] == '/');
            } else if k > dot {
                assert(ext[k - dot - 1] == '/');
            }
        }
    }
    lemma_split_whole(name, '/');
    lemma_split_concat(dir, '/', name, 0);
    lemma_split_free(dir, '/', 0);
    let parts = split(dir + seq!['/'] + name, '/');
    assert(parts.last() == name);
    assert(split(name, '/').last() == name);
}

pub proof fn lemma_rfind_is(s: Seq<char>, c: char, j: int, at: int)
    requires
        0 <= at < j <= s.len(),
        s[at] == c,
        forall|k: int| at < k < j ==> s[k] != c,
    ensures
        rfind_before(s, c, j) == at,
    decreases j - at,
{
    if at < j - 1 {
        lemma_rfind_is(s, c, j - 1, at);
    }
}

/// Nothing is left of a text that holds white space alone.
pub proof fn law_trim_blank(s: Seq<char>)
    requires
        forall|i: int| 0 <= i < s.len() ==> is_whitespace(#[trigger] s[i]),
    ensures
        trim(s) == Seq::<char>::empty(),
        trim_start(s) == Seq::<char>::empty(),
{
    lemma_skip_is(s, 0, s.len() as int);
    assert(trim(s) =~= seq![]);
    assert(trim_start(s) =~= seq![]);
}

/// Joining undoes splitting.
pub proof fn law_join_undoes_split(s: Seq<char>, c: char)
    ensures
        join_upto(split(s, c), 0, split(s, c).len() as int, seq![c]) == s,
    decreases s.len(),
{
    let j = lemma_last(s, c, s.len() as int);
    if j < 0 {
        lemma_split_whole(s, c);
    } else {
        let a = s.take(j);
        let t = s.skip(j + 1);
        assert(!t.contains(c)) by {
            if t.contains(c) {
                let k = choose|k: int| 0 <= k < t.len() && t[k] == c;
                assert(s[j + 1 + k] == c);
            }
        }
        assert(a + seq![c] + t =~= s);
        lemma_split_concat(a, c, t, 0);
        lemma_split_whole(t, c);
        law_join_undoes_split(a, c);
        lemma_split_free(a, c, 0);
        let v = split(s, c);
        let n = split(a, c).len() as int;
        assert(v =~= split(a, c).push(t));
        lemma_join_same(v, split(a, c), n, seq![c]);
    }
}

proof fn lemma_last(s: Seq<char>, c: char, n: int) -> (j: int)
    requires
        0 <= n <= s.len(),
    ensures
        -1 <= j < n,
        j >= 0 ==> s[j] == c,
        forall|k: int| j < k < n ==> s[k] != c,
        j < 0 && n == s.len() ==> !s.contains(c),
    decreases n,
{
    if n == 0 {
        -1
    } else if s[n - 1] == c {
        n - 1
    } else {
        let j = lemma_last(s, c, n - 1);
        j
    }
}

proof fn lemma_join_same(v: Seq<Seq<char>>, w: Seq<Seq<char>>, n: int, sep: Seq<char>)
    requires
        0 <= n <= v.len(),
        n <= w.len(),
        forall|k: int| 0 <= k < n ==> v[k] == w[k],
    ensures
        join_upto(v, 0, n, sep) == join_upto(w, 0, n, sep),
    decreases n,
{
    if n > 0 {
        lemma_join_same(v, w, n - 1, sep);
    }
}

/// A prefix does not stand where one character differs.
pub proof fn lemma_no_prefix(s: Seq<char>, p: Seq<char>, i: int)
    requires
        0 <= i < p.len(),
        i >= s.len() || s[i] != p[i],
    ensures
        !starts_with(s, p),
        strip_prefix(s, p) is None,
{
    if starts_with(s, p) {
        assert(s.subrange(0, p.len() as int)[i] == s[i]);
    }
}

/// White space round a text makes no difference to what is left of it.
pub proof fn law_trim_ignores_space(before: Seq<char>, s: Seq<char>, after: Seq<char>)
    requires
        forall|i: int| 0 <= i < before.len() ==> is_whitespace(#[trigger] before[i]),
        forall|i: int| 0 <= i < after.len() ==> is_whitespace(#[trigger] after[i]),
    ensures
        trim(before + s + after) == trim(s),
{
    let lo = skip_space(s, 0);
    let hi = skip_space_back(s, lo, s.len() as int);
    lemma_skip_space(s, 0);
    lemma_skipped(s, 0);
    let t = before + s + after;
    if lo == s.len() {
        assert forall|i: int| 0 <= i < t.len() implies is_whitespace(#[trigger] t[i]) by {
            if i < before.len() {
                assert(t[i] == before[i]);
            } else if i < before.len() + s.len() {
                assert(t[i] == s[i - before.len()]);
            } else {
                assert(t[i] == after[i - before.len() - s.len()]);
            }
        }
        law_trim_blank(t);
        law_trim_blank(s);
    } else {
        lemma_skipped_back(s, lo, s.len() as int);
        let b = before + s.take(lo);
        let core = s.subrange(lo, hi);
        let a = s.skip(hi) + after;
        assert(t =~= b + core + a);
        assert(s =~= s.take(lo) + core + s.skip(hi));
        assert forall|i: int| 0 <= i < b.len() implies is_whitespace(#[trigger] b[i]) by {
            if i < before.len() {
                assert(b[i] == before[i]);
            } else {
                assert(b[i] == s[i - before.len()]);
            }
        }
        assert forall|i: int| 0 <= i < a.len() implies is_whitespace(#[trigger] a[i]) by {
            if i < s.len() - hi {
                assert(a[i] == s[i + hi]);
            } else {
                assert(a[i] == after[i - (s.len() - hi)]);
            }
        }
        law_trim_undoes_padding(b, core, a);
        law_trim_undoes_padding(s.take(lo), core, s.skip(hi));
    }
}

proof fn lemma_skipped_back(s: Seq<char>, lo: int, hi: int)
    requires
        0 <= lo < hi <= s.len(),
        !is_whitespace(s[lo]),
    ensures
        lo < skip_space_back(s, lo, hi) <= hi,
        !is_whitespace(s[skip_space_back(s, lo, hi) - 1]),
        forall|k: int| skip_space_back(s, lo, hi) <= k < hi ==> is_whitespace(#[trigger] s[k]),
    decreases hi - lo,
{
    if is_whitespace(s[hi - 1]) {
        lemma_skipped_back(s, lo, hi - 1);
    }
}

/// A text that does not begin with white space keeps its beginning.
pub proof fn law_trim_keeps_head(s: Seq<char>)
    requires
        s.len() > 0,
        !is_whitespace(s[0]),
    ensures
        trim(s).len() > 0,
        trim(s)[0] == s[0],
{
    lemma_skip_is(s, 0, 0);
    lemma_skipped_back(s, 0, s.len() as int);
}

/// Trimming leaves a beginning that neither begins nor ends with white space.
pub proof fn law_trim_keeps_prefix(p: Seq<char>, s: Seq<char>)
    requires
        p.len() > 0,
        !is_whitespace(p[0]),
        !is_whitespace(p.last()),
    ensures
        trim(p + s).len() >= p.len(),
        trim(p + s).take(p.len() as int) == p,
        forall|i: int| 0 <= i < p.len() ==> #[trigger] trim(p + s)[i] == p[i],
{
    let t = p + s;
    lemma_skip_is(t, 0, 0);
    assert(t[0] == p[0]);
    lemma_skipped_back(t, 0, t.len() as int);
    let hi = skip_space_back(t, 0, t.len() as int);
    if hi < p.len() {
        assert(is_whitespace(t[p.len() - 1]));
    }
    assert(trim(t).take(p.len() as int) =~= p);
}

/// Every other white space that texts may hold: the next-line and no-break signs, and
/// the wide and narrow spaces; signs that only look like spaces are none.
pub proof fn law_rare_white_space(c: char)
    ensures
        0x2000 <= (c as u32) <= 0x200a ==> is_whitespace(c),
        (c as u32) == 0x85 || (c as u32) == 0xa0 || (c as u32) == 0x1680 || (c as u32) == 0x2028 || (
        c as u32) == 0x2029 || (c as u32) == 0x202f || (c as u32) == 0x205f || (c as u32) == 0x3000
            ==> is_whitespace(c),
        (c as u32) == 0x0b || (c as u32) == 0x0c ==> is_whitespace(c),
        (c as u32) == 0x200b || (c as u32) == 0x180e || (c as u32) == 0xfeff ==> !is_whitespace(c),
        (c as u32) > 0x3000 ==> !is_whitespace(c),
        (c as u32) < 0x09 ==> !is_whitespace(c),
{
}

/// A plus sign in front changes nothing; a lone sign is no number, and an unsigned one
/// takes no minus.
pub proof fn law_signs(n: nat, max: int)
    requires
        n <= max,
    ensures
        parse_unsigned(seq!['+'] + decimal(n), max) == Some(n as int),
        parse_signed(seq!['+'] + decimal(n), -max, max) == Some(n as int),
        parse_unsigned(seq!['-'] + decimal(n), max) is None,
        parse_unsigned(seq!['+'], max) is None,
        parse_signed(seq!['-'], -max, max) is None,
        parse_signed(seq!['+'], -max, max) is None,
{
    lemma_decimal(n);
    let s = seq!['+'] + decimal(n);
    assert(s.skip(1) =~= decimal(n));
    let m = seq!['-'] + decimal(n);
    assert(!is_digit(m[0]));
    assert(seq!['+'].skip(1).len() == 0);
    assert(seq!['-'].skip(1).len() == 0);
}

} // verus!
