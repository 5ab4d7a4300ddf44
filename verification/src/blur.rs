//! The kernel of the backdrop blur.
//!
//! A two-dimensional Gaussian is separable: blurring along one axis and then
//! along the other costs twice the taps of one axis instead of their square. Both
//! passes use the same nine taps.

use vstd::prelude::*;

use crate::wm::PX;

verus! {

/// How far the kernel reaches on either side, in taps.
pub const REACH: i64 = 4;

/// The weight of each tap, in millionths: the middle, then outwards, each on
/// both sides.
pub open spec fn kernel() -> Seq<u32> {
    seq![227027, 194595, 194595, 121622, 121622, 54054, 54054, 16216, 16216]
}

/// The weight of each tap, in millionths.
pub fn kernel_weights() -> (r: Vec<u32>)
    ensures
        r@ == kernel(),
{
    let r: Vec<u32> = vec![
        227027,
        194595,
        194595,
        121622,
        121622,
        54054,
        54054,
        16216,
        16216,
    ];
    assert(r@ =~= kernel());
    r
}

/// How far apart the taps are for a blur of this radius, in 1024ths of a pixel:
/// they are spread over the radius, but no closer than half a pixel.
pub open spec fn step_for(radius: int) -> int {
    if radius > 2 * PX {
        radius
    } else {
        2 * PX
    }
}

/// How far apart the taps are for a blur of this radius, in 1024ths of a pixel.
pub fn tap_step(radius: i64) -> (r: i64)
    ensures
        r == step_for(radius as int),
{
    if radius > 2 * PX {
        radius
    } else {
        2 * PX
    }
}

pub open spec fn total(v: Seq<u32>) -> int
    decreases v.len(),
{
    if v.len() == 0 {
        0
    } else {
        total(v.drop_last()) + v.last()
    }
}

/// The kernel is normalised, to a thousandth: a blur neither darkens nor
/// brightens.
pub proof fn law_kernel_normalised()
    ensures
        999_000 < total(kernel()) < 1_001_000,
{
    reveal_with_fuel(total, 10);
}

/// The kernel is symmetric: what is blurred does not move.
pub proof fn law_kernel_symmetric(i: int)
    requires
        0 <= i < 4,
    ensures
        kernel()[2 * i + 1] == kernel()[2 * i + 2],
{
}

/// The outermost tap is as far out as the radius, from two pixels on; taps are
/// never closer than half a pixel.
pub proof fn law_taps_span_radius(radius: int)
    ensures
        radius >= 2 * PX ==> REACH * step_for(radius) * PX == radius * 1024,
        2 * step_for(radius) >= 1024,
{
}

} // verus!
