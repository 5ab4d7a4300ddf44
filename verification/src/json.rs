//! JSON as far as the line protocols write it.

use vstd::prelude::*;

use crate::text::{bool_text, chars_of};

verus! {

// ---------------------------------------------------------------------------
// Strings
// ---------------------------------------------------------------------------

/// A hexadecimal digit.
pub open spec fn hex_digit(n: int) -> char {
    if n < 10 {
        ('0' as int + n) as char
    } else {
        ('a' as int + n - 10) as char
    }
}

/// What a hexadecimal digit stands for.
pub open spec fn hex_value(c: char) -> Option<int> {
    if '0' <= c <= '9' {
        Some(c as int - '0' as int)
    } else if 'a' <= c <= 'f' {
        Some(c as int - 'a' as int + 10)
    } else if 'A' <= c <= 'F' {
        Some(c as int - 'A' as int + 10)
    } else {
        None
    }
}

/// Whether a character is a control character, which no JSON text holds as it is.
pub open spec fn is_control(c: char) -> bool {
    (c as u32) < 32
}

/// How a character is written inside quotes: quotes and backslashes behind a
/// backslash, control characters by number, the others as they are.
pub open spec fn spelled(c: char) -> Seq<char> {
    if c == '"' || c == '\\' {
        seq!['\\', c]
    } else if is_control(c) {
        seq!['\\', 'u', '0', '0', hex_digit((c as u32) as int / 16), hex_digit((c as u32) as int % 16)]
    } else {
        seq![c]
    }
}

/// The first `n` characters as they are written inside quotes.
pub open spec fn escaped_upto(s: Seq<char>, n: int) -> Seq<char>
    decreases n,
{
    if n <= 0 {
        seq![]
    } else {
        escaped_upto(s, n - 1) + spelled(s[n - 1])
    }
}

pub open spec fn escaped(s: Seq<char>) -> Seq<char> {
    escaped_upto(s, s.len() as int)
}

fn digit(n: u32) -> (r: char)
    requires
        n < 16,
    ensures
        r == hex_digit(n as int),
{
    match n {
        0 => '0',
        1 => '1',
        2 => '2',
        3 => '3',
        4 => '4',
        5 => '5',
        6 => '6',
        7 => '7',
        8 => '8',
        9 => '9',
        10 => 'a',
        11 => 'b',
        12 => 'c',
        13 => 'd',
        14 => 'e',
        _ => 'f',
    }
}

/// A text as it is written inside quotes.
pub fn escape(s: &str) -> (r: Vec<char>)
    ensures
        r@ == escaped(s@),
{
    let s: Vec<char> = chars_of(s);
    let mut r: Vec<char> = Vec::new();
    let mut i: usize = 0;
    assert(r@ =~= seq![]);
    while i < s.len()
        invariant
            i <= s.len(),
            r@ == escaped_upto(s@, i as int),
        decreases s.len() - i,
    {
        let c: char = s[i];
        let ghost before = r@;
        if c == '"' || c == '\\' {
            r.push('\\');
            r.push(c);
        } else if (c as u32) < 32 {
            let code: u32 = c as u32;
            r.push('\\');
            r.push('u');
            r.push('0');
            r.push('0');
            r.push(digit(code / 16));
            r.push(digit(code % 16));
            assert(spelled(c) == seq![
                '\\',
                'u',
                '0',
                '0',
                hex_digit(code as int / 16),
                hex_digit(code as int % 16),
            ]);
        } else {
            r.push(c);
        }
        assert(r@ =~= before + spelled(c));
        i += 1;
    }
    r
}

/// The text that is written so inside quotes; none where it is not a legal
/// string, or has an escape other than those for quotes, backslashes and numbered
/// characters.
pub open spec fn decoded(body: Seq<char>) -> Option<Seq<char>>
    decreases body.len(),
{
    if body.len() == 0 {
        Some(seq![])
    } else {
        match first_char(body) {
            Some((c, n)) => if 0 < n <= body.len() {
                match decoded(body.skip(n)) {
                    Some(rest) => Some(seq![c] + rest),
                    None => None,
                }
            } else {
                None
            },
            None => None,
        }
    }
}

/// The first character that is written, and how many characters write it.
pub open spec fn first_char(body: Seq<char>) -> Option<(char, int)> {
    if body[0] == '"' || is_control(body[0]) {
        None
    } else if body[0] != '\\' {
        Some((body[0], 1))
    } else if body.len() >= 2 && (body[1] == '"' || body[1] == '\\') {
        Some((body[1], 2))
    } else if body.len() >= 6 && body[1] == 'u' {
        match (hex_value(body[2]), hex_value(body[3]), hex_value(body[4]), hex_value(body[5])) {
            (Some(a), Some(b), Some(c), Some(d)) => {
                let code = ((a * 16 + b) * 16 + c) * 16 + d;
                if code < 0xd800 {
                    Some((code as char, 6))
                } else {
                    None
                }
            },
            _ => None,
        }
    } else {
        None
    }
}

proof fn lemma_hex(n: int)
    requires
        0 <= n < 16,
    ensures
        hex_value(hex_digit(n)) == Some(n),
        hex_digit(n) >= '0',
{
}

proof fn lemma_spelled(c: char)
    ensures
        decoded(spelled(c)) == Some(seq![c]),
        spelled(c).len() > 0,
        forall|i: int| 0 <= i < spelled(c).len() ==> !is_control(#[trigger] spelled(c)[i]),
{
    let s = spelled(c);
    if is_control(c) {
        let u = (c as u32) as int;
        lemma_hex(u / 16);
        lemma_hex(u % 16);
        assert(hex_value('0') == Some(0int));
        assert(s[0] == '\\' && s[1] == 'u' && s[2] == '0' && s[3] == '0');
        assert(u / 16 * 16 + u % 16 == u);
        assert(u as char == c);
        assert(first_char(s) == Some((c, 6int)));
        assert(s.skip(6) =~= seq![]);
    } else if c == '"' || c == '\\' {
        assert(first_char(s) == Some((c, 2int)));
        assert(s.skip(2) =~= seq![]);
    } else {
        assert(first_char(s) == Some((c, 1int)));
        assert(s.skip(1) =~= seq![]);
    }
    assert(decoded(seq![]) == Some(Seq::<char>::empty()));
    assert(seq![c] + Seq::<char>::empty() =~= seq![c]);
}

proof fn lemma_decoded_joined(a: Seq<char>, b: Seq<char>)
    requires
        decoded(a) is Some,
        decoded(b) is Some,
    ensures
        decoded(a + b) == Some(decoded(a)->0 + decoded(b)->0),
    decreases a.len(),
{
    if a.len() == 0 {
        assert(a + b =~= b);
        assert(Seq::<char>::empty() + decoded(b)->0 =~= decoded(b)->0);
    } else {
        let (c, n) = first_char(a)->0;
        assert(first_char(a + b) == first_char(a));
        assert((a + b).skip(n) =~= a.skip(n) + b);
        lemma_decoded_joined(a.skip(n), b);
        let rest = decoded(a.skip(n))->0;
        assert(seq![c] + (rest + decoded(b)->0) =~= (seq![c] + rest) + decoded(b)->0);
    }
}

proof fn lemma_escaped(s: Seq<char>, n: int)
    requires
        0 <= n <= s.len(),
    ensures
        decoded(escaped_upto(s, n)) == Some(s.take(n)),
        printable(escaped_upto(s, n)),
    decreases n,
{
    if n > 0 {
        lemma_escaped(s, n - 1);
        lemma_spelled(s[n - 1]);
        lemma_decoded_joined(escaped_upto(s, n - 1), spelled(s[n - 1]));
        assert(s.take(n - 1) + seq![s[n - 1]] =~= s.take(n));
    } else {
        assert(s.take(0) =~= seq![]);
    }
}

/// Whether a text holds no control character, and so no line break.
pub open spec fn printable(s: Seq<char>) -> bool {
    forall|i: int| 0 <= i < s.len() ==> !is_control(#[trigger] s[i])
}

/// Every text can be written inside quotes, whatever it holds: what is written is
/// a legal string without control characters, and is read back as the text.
pub proof fn law_escaped_reads_back(s: Seq<char>)
    ensures
        decoded(escaped(s)) == Some(s),
        printable(escaped(s)),
{
    lemma_escaped(s, s.len() as int);
    assert(s.take(s.len() as int) =~= s);
}

/// A text without quotes, backslashes and control characters is written as it is.
pub proof fn lemma_plain(s: Seq<char>, n: int)
    requires
        0 <= n <= s.len(),
        forall|i: int| 0 <= i < s.len() ==> !is_control(#[trigger] s[i]) && s[i] != '"' && s[i] != '\\',
    ensures
        escaped_upto(s, n) == s.take(n),
    decreases n,
{
    if n > 0 {
        lemma_plain(s, n - 1);
        assert(s.take(n - 1) + seq![s[n - 1]] =~= s.take(n));
    } else {
        assert(s.take(0) =~= seq![]);
    }
}

// ---------------------------------------------------------------------------
// Values
// ---------------------------------------------------------------------------

/// A JSON value of the kinds that the protocols need.
pub enum Json {
    Bool(bool),
    Text(Seq<char>),
    List(Seq<Json>),
    /// The fields of an object, in order.
    Object(Seq<(Seq<char>, Json)>),
}

/// A text in quotes.
pub open spec fn quoted(s: Seq<char>) -> Seq<char> {
    seq!['"'] + escaped(s) + seq!['"']
}

/// A value as it is written, without spaces.
pub open spec fn written(v: Json) -> Seq<char>
    decreases v, 0int,
{
    match v {
        Json::Bool(b) => bool_text(b),
        Json::Text(s) => quoted(s),
        Json::List(items) => seq!['['] + written_items(items, items.len() as int) + seq![']'],
        Json::Object(fields) => seq!['{'] + written_fields(fields, fields.len() as int) + seq!['}'],
    }
}

/// The first `n` values of a list, parted by commas.
pub open spec fn written_items(items: Seq<Json>, n: int) -> Seq<char>
    decreases items, n,
    when n <= items.len()
{
    if n <= 0 {
        seq![]
    } else if n == 1 {
        written(items[0])
    } else {
        written_items(items, n - 1) + seq![','] + written(items[n - 1])
    }
}

/// The first `n` fields of an object, parted by commas.
pub open spec fn written_fields(fields: Seq<(Seq<char>, Json)>, n: int) -> Seq<char>
    decreases fields, n,
    when n <= fields.len()
{
    if n <= 0 {
        seq![]
    } else {
        let one = quoted(fields[n - 1].0) + seq![':'] + written(fields[n - 1].1);
        if n == 1 {
            one
        } else {
            written_fields(fields, n - 1) + seq![','] + one
        }
    }
}

} // verus!
