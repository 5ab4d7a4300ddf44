//! What `bacak osk-demo` prints.

use vstd::prelude::*;

use crate::cli::{place_line, place_text, push_px, px_text};
use crate::input::{OskGeometry, OskState};
use crate::text::{
    chars_of, concat2, decimal, decimal_of, nearest_even, push_all, push_str, string_of, strings,
    law_nearest,
};
use crate::wm::{coord, PX};

verus! {

pub open spec fn state_name(s: OskState) -> Seq<char> {
    match s {
        OskState::Closed => "Closed"@,
        OskState::Opening => "Opening"@,
        OskState::Open => "Open"@,
        OskState::Closing => "Closing"@,
    }
}

fn name_of(s: OskState) -> (r: &'static str)
    ensures
        r@ == state_name(s),
{
    match s {
        OskState::Closed => "Closed",
        OskState::Opening => "Opening",
        OskState::Open => "Open",
        OskState::Closing => "Closing",
    }
}

/// A length in tenths of a pixel, the even one where two are as near.
pub open spec fn tenths(v: nat) -> nat {
    nearest_even(10 * v, PX as nat)
}

/// A length in pixels, to a tenth.
pub open spec fn tenth_text(v: int) -> Seq<char> {
    let size = (if v < 0 {
        -v
    } else {
        v
    }) as nat;
    (if v < 0 {
        "-"@
    } else {
        ""@
    }) + decimal(tenths(size) / 10) + "."@ + decimal(tenths(size) % 10)
}

fn push_tenths(out: &mut Vec<char>, v: i64)
    requires
        coord(v),
    ensures
        final(out)@ == old(out)@ + tenth_text(v as int),
{
    let ghost before = out@;
    let size: u64 = if v < 0 {
        (-v) as u64
    } else {
        v as u64
    };
    push_str(
        out,
        if v < 0 {
            "-"
        } else {
            ""
        },
    );
    let n: u64 = 10 * size;
    let q: u64 = n / 256;
    let rest: u64 = n % 256;
    let t: u64 = if rest < 128 || (rest == 128 && q % 2 == 0) {
        q
    } else {
        q + 1
    };
    assert(t == tenths(size as nat));
    let whole: Vec<char> = decimal_of(t / 10);
    push_all(out, whole.as_slice());
    push_str(out, ".");
    let part: Vec<char> = decimal_of(t % 10);
    push_all(out, part.as_slice());
    assert(out@ =~= before + tenth_text(v as int));
}

/// The lines that describe an opened on-screen keyboard.
pub fn osk_lines(state: OskState, enter_label: &str, geometry: &OskGeometry, scroll: i64) -> (r: Vec<
    String,
>)
    requires
        coord(scroll),
    ensures
        strings(r@) == seq![
            "OSK state:        "@ + state_name(state),
            "Enter key label:  "@ + enter_label@,
            "OSK panel:        "@ + place_text(
                geometry.panel.x as int,
                geometry.panel.y as int,
                geometry.panel.w as int,
                geometry.panel.h as int,
            ),
            "Reserved top y:   "@ + px_text(geometry.reserved_top_y as int),
            "Field overlaps → viewport scroll: "@ + tenth_text(scroll as int) + "px"@,
        ],
{
    let mut r: Vec<String> = Vec::new();
    r.push(concat2("OSK state:        ", name_of(state)));
    r.push(concat2("Enter key label:  ", enter_label));
    let mut v: Vec<char> = chars_of("OSK panel:        ");
    let place: Vec<char> = place_line(
        geometry.panel.x,
        geometry.panel.y,
        geometry.panel.w,
        geometry.panel.h,
    );
    push_all(&mut v, place.as_slice());
    r.push(string_of(v.as_slice()));
    let mut v: Vec<char> = chars_of("Reserved top y:   ");
    push_px(&mut v, geometry.reserved_top_y);
    r.push(string_of(v.as_slice()));
    let mut v: Vec<char> = chars_of("Field overlaps → viewport scroll: ");
    push_tenths(&mut v, scroll);
    push_str(&mut v, "px");
    r.push(string_of(v.as_slice()));
    assert(strings(r@) =~= seq![
        "OSK state:        "@ + state_name(state),
        "Enter key label:  "@ + enter_label@,
        "OSK panel:        "@ + place_text(
            geometry.panel.x as int,
            geometry.panel.y as int,
            geometry.panel.w as int,
            geometry.panel.h as int,
        ),
        "Reserved top y:   "@ + px_text(geometry.reserved_top_y as int),
        "Field overlaps → viewport scroll: "@ + tenth_text(scroll as int) + "px"@,
    ]);
    r
}

/// A length of whole tenths of a pixel is told exactly, with its sign.
pub proof fn law_tenths(px: nat, tenth: nat)
    requires
        tenth == 0 || tenth == 5,
    ensures
        tenth_text((256 * px + tenth * 128 / 5) as int) == ""@ + decimal(px) + "."@ + decimal(tenth),
        px > 0 ==> tenth_text(-(256 * px + tenth * 128 / 5)) == "-"@ + decimal(px) + "."@ + decimal(
            tenth,
        ),
{
    let v = 256 * px + tenth * 128 / 5;
    law_nearest(10 * v, 256);
    assert(10 * v == 256 * (10 * px + tenth));
    let t = tenths(v);
    assert(-256 <= 2 * (10 * v - t * 256) <= 256);
    assert(t == 10 * px + tenth);
}

/// The four states are told by their names.
pub proof fn law_state_names()
    ensures
        state_name(OskState::Closed) == "Closed"@,
        state_name(OskState::Opening) == "Opening"@,
        state_name(OskState::Open) == "Open"@,
        state_name(OskState::Closing) == "Closing"@,
{
}

} // verus!
