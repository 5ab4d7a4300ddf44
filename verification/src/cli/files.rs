//! Listings of directories and archives.

use vstd::prelude::*;

use crate::text::{
    chars_of, decimal, decimal_of, nearest_even, own, padded, padded_left, push_all,
    push_padded, push_padded_left, push_str, string_of, strings, law_nearest,
};

verus! {

/// What is listed.
#[derive(Debug, Clone, PartialEq, Eq)]
pub enum LsTarget {
    /// A directory of the file system.
    Native { path: String },
    /// A directory inside an archive.
    Archive { archive: String, inside: String },
}

/// What `bacak ls` lists: the path inside the archive where one is named, else
/// the directory, the current one where the path is empty.
pub fn ls_target(path: &str, archive: Option<&str>) -> (r: LsTarget)
    ensures
        match (r, archive) {
            (LsTarget::Archive { archive: a, inside }, Some(file)) => a@ == file@ && inside@
                == path@,
            (LsTarget::Native { path: p }, None) => p@ == (if path@.len() == 0 {
                "."@
            } else {
                path@
            }),
            _ => false,
        },
{
    match archive {
        Some(a) => LsTarget::Archive { archive: own(a), inside: own(path) },
        None => LsTarget::Native {
            path: if path.is_empty() {
                own(".")
            } else {
                own(path)
            },
        },
    }
}

// ---------------------------------------------------------------------------
// Sizes
// ---------------------------------------------------------------------------

/// One above the largest whole number with a 53-bit significand.
pub const EXACT_LIMIT: u64 = 0x20_0000_0000_0000;

/// The distance between neighbouring double-precision numbers around `n`: twice
/// as wide each time `n` needs one more bit than the significand has.
pub open spec fn grain(n: nat, g: nat) -> nat
    decreases
            if n >= EXACT_LIMIT * g {
                n - EXACT_LIMIT * g + 1
            } else {
                0
            },
{
    if g == 0 || n < EXACT_LIMIT * g {
        g
    } else {
        grain(n, 2 * g)
    }
}

/// The double-precision number nearest to `n`.
pub open spec fn as_double(n: nat) -> nat {
    nearest_even(n, grain(n, 1)) * grain(n, 1)
}

/// Which unit a size is given in: bytes below 1024, and so on up to tebibytes.
pub open spec fn unit_of(v: nat) -> nat {
    if v < 0x400 {
        0
    } else if v < 0x10_0000 {
        1
    } else if v < 0x4000_0000 {
        2
    } else if v < 0x100_0000_0000 {
        3
    } else {
        4
    }
}

pub open spec fn unit_size(u: nat) -> nat {
    if u == 0 {
        1
    } else if u == 1 {
        0x400
    } else if u == 2 {
        0x10_0000
    } else if u == 3 {
        0x4000_0000
    } else {
        0x100_0000_0000
    }
}

pub open spec fn unit_letter(u: nat) -> Seq<char> {
    if u == 0 {
        "B"@
    } else if u == 1 {
        "K"@
    } else if u == 2 {
        "M"@
    } else if u == 3 {
        "G"@
    } else {
        "T"@
    }
}

/// A size for people: whole bytes, or one decimal of the unit that fits, in a
/// column of five.
pub open spec fn size_text(bytes: nat) -> Seq<char> {
    let v = as_double(bytes);
    let u = unit_of(v);
    if u == 0 {
        decimal(bytes) + " "@ + unit_letter(0)
    } else {
        let tenths = nearest_even(v * 10, unit_size(u));
        padded_left(decimal(tenths / 10) + "."@ + decimal(tenths % 10), 5) + " "@ + unit_letter(u)
    }
}

fn rounded_u128(n: u128, d: u128) -> (r: u128)
    requires
        d > 0,
        n <= 0x1_0000_0000_0000_0000_0000,
    ensures
        r == nearest_even(n as nat, d as nat),
{
    let q: u128 = n / d;
    let rest: u128 = n % d;
    assert(q <= n) by (nonlinear_arith)
        requires
            d > 0,
            q == n / d,
    ;
    // The halves are compared without doubling, which could overflow.
    if rest < d - rest || (rest == d - rest && q % 2 == 0) {
        q
    } else {
        q + 1
    }
}

/// A number below 2^64 stays below it when it is rounded to a multiple of a power of two.
proof fn lemma_double_bound(n: int, g: int, q: int)
    requires
        0 <= n < 0x1_0000_0000_0000_0000,
        g == 1 || g == 2 || g == 4 || g == 8 || g == 16 || g == 32 || g == 64 || g == 128 || g
            == 256 || g == 512 || g == 1024 || g == 2048,
        0 <= q,
        -g <= 2 * (n - q * g) <= g,
    ensures
        0 <= q * g <= 0x1_0000_0000_0000_0000,
        g == 1 ==> q * g == n,
{
    let m = 0x1_0000_0000_0000_0000int / g;
    assert(m * g == 0x1_0000_0000_0000_0000);
    assert(q <= m) by (nonlinear_arith)
        requires
            2 * (q * g) <= 2 * n + g,
            n < m * g,
            g >= 1,
    ;
    assert(q * g <= m * g) by (nonlinear_arith)
        requires
            q <= m,
            g >= 1,
    ;
    assert(0 <= q * g) by (nonlinear_arith)
        requires
            0 <= q,
            g >= 1,
    ;
    if g == 1 {
        assert(q * g == q) by (nonlinear_arith)
            requires
                g == 1,
        ;
    }
}

fn double_of(bytes: u64) -> (r: u128)
    ensures
        r == as_double(bytes as nat),
        r <= 0x1_0000_0000_0000_0000,
        bytes < EXACT_LIMIT ==> r == bytes,
{
    let n: u128 = bytes as u128;
    let mut g: u128 = 1;
    while n >= 0x20_0000_0000_0000 * g
        invariant
            n == bytes,
            1 <= g <= 0x800,
            grain(bytes as nat, 1) == grain(bytes as nat, g as nat),
            g == 1 || n >= 0x10_0000_0000_0000 * g,
            g == 1 || g == 2 || g == 4 || g == 8 || g == 16 || g == 32 || g == 64 || g == 128 || g
                == 256 || g == 512 || g == 1024 || g == 2048,
        decreases 0x800 - g,
    {
        g = g * 2;
    }
    let q: u128 = rounded_u128(n, g);
    proof {
        law_nearest(n as nat, g as nat);
        lemma_double_bound(n as int, g as int, q as int);
    }
    q * g
}

/// A size for people.
pub fn format_size(bytes: u64) -> (r: String)
    ensures
        r@ == size_text(bytes as nat),
{
    let v: u128 = double_of(bytes);
    if v < 0x400 {
        let mut out: Vec<char> = decimal_of(bytes);
        push_str(&mut out, " ");
        push_str(&mut out, "B");
        return string_of(out.as_slice());
    }
    let (size, letter): (u128, &str) = if v < 0x10_0000 {
        (0x400, "K")
    } else if v < 0x4000_0000 {
        (0x10_0000, "M")
    } else if v < 0x100_0000_0000 {
        (0x4000_0000, "G")
    } else {
        (0x100_0000_0000, "T")
    };
    let tenths: u128 = rounded_u128(v * 10, size);
    assert(tenths <= 0x1_0000_0000_0000_0000) by (nonlinear_arith)
        requires
            v <= 0x1_0000_0000_0000_0000,
            size >= 0x400,
            tenths == nearest_even((v * 10) as nat, size as nat),
    {
        assert((v * 10) / (size as int) <= (v * 10) / 0x400);
    }
    let mut number: Vec<char> = decimal_of((tenths / 10) as u64);
    push_str(&mut number, ".");
    let d: Vec<char> = decimal_of((tenths % 10) as u64);
    push_all(&mut number, d.as_slice());
    let number: String = string_of(number.as_slice());
    let mut out: Vec<char> = Vec::new();
    let ghost before = out@;
    push_padded_left(&mut out, number.as_str(), 5);
    assert(out@ =~= padded_left(number@, 5));
    push_str(&mut out, " ");
    push_str(&mut out, letter);
    string_of(out.as_slice())
}

// ---------------------------------------------------------------------------
// Listings
// ---------------------------------------------------------------------------

/// An entry of a listing.
#[derive(Debug, Clone, PartialEq, Eq)]
pub struct Entry {
    pub name: String,
    pub is_dir: bool,
    pub size: u64,
    pub mime: Option<String>,
}

pub open spec fn kind_text(is_dir: bool) -> Seq<char> {
    if is_dir {
        "DIR "@
    } else {
        "    "@
    }
}

/// One line of `bacak ls`: what it is, its size, its name and its type.
pub open spec fn entry_line(e: Entry) -> Seq<char> {
    kind_text(e.is_dir) + " "@ + padded_left(
        if e.is_dir {
            "    -"@
        } else {
            size_text(e.size as nat)
        },
        10,
    ) + "  "@ + padded(e.name@, 28) + "  "@ + (match e.mime {
        Some(m) => m@,
        None => ""@,
    })
}

pub open spec fn entry_lines(es: Seq<Entry>, n: int) -> Seq<Seq<char>>
    decreases n,
{
    if n <= 0 {
        seq![]
    } else {
        entry_lines(es, n - 1).push(entry_line(es[n - 1]))
    }
}

fn show_entry(e: &Entry) -> (r: String)
    ensures
        r@ == entry_line(*e),
{
    let mut v: Vec<char> = chars_of(
        if e.is_dir {
            "DIR "
        } else {
            "    "
        },
    );
    push_str(&mut v, " ");
    let size: String = if e.is_dir {
        own("    -")
    } else {
        format_size(e.size)
    };
    push_padded_left(&mut v, size.as_str(), 10);
    push_str(&mut v, "  ");
    push_padded(&mut v, e.name.as_str(), 28);
    push_str(&mut v, "  ");
    match &e.mime {
        Some(m) => push_str(&mut v, m.as_str()),
        None => push_str(&mut v, ""),
    }
    string_of(v.as_slice())
}

/// What `bacak ls` prints.
pub fn ls_lines(entries: &Vec<Entry>) -> (r: Vec<String>)
    ensures
        strings(r@) == entry_lines(entries@, entries.len() as int),
{
    let mut out: Vec<String> = Vec::new();
    let mut i: usize = 0;
    assert(strings(out@) =~= seq![]);
    while i < entries.len()
        invariant
            i <= entries.len(),
            strings(out@) == entry_lines(entries@, i as int),
        decreases entries.len() - i,
    {
        let ghost before = strings(out@);
        let line: String = show_entry(&entries[i]);
        out.push(line);
        assert(strings(out@) =~= before.push(line@));
        i += 1;
    }
    out
}

/// One line of `bacak archive list`: what it is, its size and its name.
pub open spec fn member_line(e: Entry) -> Seq<char> {
    kind_text(e.is_dir) + " "@ + padded_left(size_text(e.size as nat), 10) + "  "@ + e.name@
}

pub open spec fn member_lines(es: Seq<Entry>, n: int) -> Seq<Seq<char>>
    decreases n,
{
    if n <= 0 {
        seq![]
    } else {
        member_lines(es, n - 1).push(member_line(es[n - 1]))
    }
}

fn show_member(e: &Entry) -> (r: String)
    ensures
        r@ == member_line(*e),
{
    let mut v: Vec<char> = chars_of(
        if e.is_dir {
            "DIR "
        } else {
            "    "
        },
    );
    push_str(&mut v, " ");
    let size: String = format_size(e.size);
    push_padded_left(&mut v, size.as_str(), 10);
    push_str(&mut v, "  ");
    push_str(&mut v, e.name.as_str());
    string_of(v.as_slice())
}

/// What `bacak archive list` prints.
pub fn archive_lines(entries: &Vec<Entry>) -> (r: Vec<String>)
    ensures
        strings(r@) == member_lines(entries@, entries.len() as int),
{
    let mut out: Vec<String> = Vec::new();
    let mut i: usize = 0;
    assert(strings(out@) =~= seq![]);
    while i < entries.len()
        invariant
            i <= entries.len(),
            strings(out@) == member_lines(entries@, i as int),
        decreases entries.len() - i,
    {
        let ghost before = strings(out@);
        let line: String = show_member(&entries[i]);
        out.push(line);
        assert(strings(out@) =~= before.push(line@));
        i += 1;
    }
    out
}

/// What `bacak archive extract` prints.
pub fn extracted(bytes: u64, to: &str) -> (r: String)
    ensures
        r@ == "wrote "@ + decimal(bytes as nat) + " bytes to "@ + to@,
{
    let mut v: Vec<char> = chars_of("wrote ");
    let d: Vec<char> = decimal_of(bytes);
    push_all(&mut v, d.as_slice());
    push_str(&mut v, " bytes to ");
    push_str(&mut v, to);
    string_of(v.as_slice())
}

/// Sizes below 1024 are told in bytes, and each further unit holds 1024 of the one
/// before it: what is told in a unit has at least one of it, and fewer than 1024 but in
/// the last.
pub proof fn law_units(v: nat)
    ensures
        unit_size(0) == 1,
        unit_size(1) == 1024 * unit_size(0),
        unit_size(2) == 1024 * unit_size(1),
        unit_size(3) == 1024 * unit_size(2),
        unit_size(4) == 1024 * unit_size(3),
        unit_of(v) <= 4,
        v > 0 ==> unit_size(unit_of(v)) <= v,
        unit_of(v) < 4 ==> v < 1024 * unit_size(unit_of(v)),
        unit_letter(0) == "B"@ && unit_letter(1) == "K"@ && unit_letter(2) == "M"@ && unit_letter(3)
            == "G"@ && unit_letter(4) == "T"@,
{
}

/// A size below 2^53 is told exactly in bytes below 1024, and otherwise to the nearest
/// tenth of its unit.
pub proof fn law_size_text(bytes: nat)
    requires
        bytes < 0x20_0000_0000_0000,
    ensures
        bytes < 1024 ==> size_text(bytes) == decimal(bytes) + " "@ + "B"@,
        bytes >= 1024 ==> exists|tenths: nat|
            {
                &&& #[trigger] (tenths * unit_size(unit_of(bytes))) * 2 + unit_size(unit_of(bytes))
                    >= bytes * 20
                &&& (tenths * unit_size(unit_of(bytes))) * 2 <= bytes * 20 + unit_size(
                    unit_of(bytes),
                )
                &&& size_text(bytes) == padded_left(
                    decimal(tenths / 10) + "."@ + decimal(tenths % 10),
                    5,
                ) + " "@ + unit_letter(unit_of(bytes))
            },
{
    assert(grain(bytes, 1) == 1);
    assert(as_double(bytes) == bytes) by {
        law_nearest(bytes, 1);
        assert(nearest_even(bytes, 1) * 1 == nearest_even(bytes, 1)) by (nonlinear_arith);
    }
    let u = unit_of(bytes);
    if bytes >= 1024 {
        let t = nearest_even(bytes * 10, unit_size(u));
        law_nearest(bytes * 10, unit_size(u));
        assert((t * unit_size(u)) * 2 + unit_size(u) >= bytes * 20);
    }
}

/// A line tells whether it is a directory, whose size is not told, then the size in a
/// column of ten, and the name in one of 28 before the type.
pub proof fn law_entry_line(e: Entry)
    ensures
        e.is_dir ==> entry_line(e) == "DIR "@ + " "@ + padded_left("    -"@, 10) + "  "@ + padded(
            e.name@,
            28,
        ) + "  "@ + (match e.mime {
            Some(m) => m@,
            None => ""@,
        }),
        !e.is_dir ==> entry_line(e) == "    "@ + " "@ + padded_left(size_text(e.size as nat), 10)
            + "  "@ + padded(e.name@, 28) + "  "@ + (match e.mime {
            Some(m) => m@,
            None => ""@,
        }),
        e.is_dir ==> member_line(e) == "DIR "@ + " "@ + padded_left(size_text(e.size as nat), 10)
            + "  "@ + e.name@,
{
}

/// Every entry has a line, in order.
pub proof fn law_every_entry(es: Seq<Entry>, n: int, i: int)
    requires
        0 <= i < n <= es.len(),
    ensures
        entry_lines(es, n).len() == n,
        entry_lines(es, n)[i] == entry_line(es[i]),
        member_lines(es, n).len() == n,
        member_lines(es, n)[i] == member_line(es[i]),
    decreases n,
{
    if n > 1 {
        law_every_entry(
            es,
            n - 1,
            if i < n - 1 {
                i
            } else {
                0
            },
        );
    } else {
        assert(entry_lines(es, 0).len() == 0 && member_lines(es, 0).len() == 0);
    }
}

} // verus!
