//! Small shared helpers.

use vstd::prelude::*;

use crate::geometry::in_wide_range;
use crate::globals::TOLERANCE;

verus! {

/// Whether two fixed-point scalars differ by at most `TOLERANCE`.
pub open spec fn almost_eq_spec(a: int, b: int) -> bool {
    -TOLERANCE <= a - b <= TOLERANCE
}

pub fn almost_eq(a: i64, b: i64) -> (r: bool)
    requires
        in_wide_range(a as int),
        in_wide_range(b as int),
    ensures
        r == almost_eq_spec(a as int, b as int),
{
    let d = a - b;
    -TOLERANCE <= d && d <= TOLERANCE
}

/// The Roman numeral of a gate label, as far as the board can need them.
pub open spec fn spec_to_roman(a: u32) -> Seq<char> {
    match a {
        1u32 => "I"@,
        2u32 => "II"@,
        3u32 => "III"@,
        4u32 => "IV"@,
        5u32 => "V"@,
        6u32 => "VI"@,
        7u32 => "VII"@,
        8u32 => "VIII"@,
        9u32 => "IX"@,
        10u32 => "X"@,
        _ => ""@,
    }
}

pub fn to_roman(a: u32) -> (r: &'static str)
    ensures
        r@ == spec_to_roman(a),
{
    match a {
        1 => "I",
        2 => "II",
        3 => "III",
        4 => "IV",
        5 => "V",
        6 => "VI",
        7 => "VII",
        8 => "VIII",
        9 => "IX",
        10 => "X",
        _ => "",
    }
}

} // verus!
