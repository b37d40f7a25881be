//! Where each drawable stands and how opaque it is.
//!
//! Lengths are counted in quarters of a world unit and opacity in quarters
//! of full opacity, so that every value of the layout is an exact integer.
//! Time is counted in nanoseconds and angles in billionths of a degree.

use vstd::prelude::*;

verus! {

/// Quarters per world unit, and per full opacity.
pub const QUARTERS_PER_UNIT: u32 = 4;

/// Degrees that every drawable turns about the Z axis in one second.
pub const ROTATION_DEGREES_PER_SECOND: u32 = 90;

/// Displacement of a drawable from the origin, in quarters of a world unit.
#[derive(Clone, Copy, Debug, PartialEq, Eq, Structural)]
pub struct Placement {
    pub x: i128,
    pub y: i128,
    pub z: i128,
}

/// Drawables alternate between two columns, 2.5 units apart and centred on
/// the origin, and step back by 2 units with every second drawable,
/// starting 1 unit in front of the origin.
pub open spec fn placement_of(index: usize) -> Placement {
    Placement { x: 0, y: ((index % 2) * 10 - 5) as i128, z: (4 - 8 * (index / 2)) as i128 }
}

/// Drawable `index` has `(index + 1) / 4` of full opacity.
pub open spec fn opacity_of(index: usize) -> u128 {
    (index + 1) as u128
}

/// Nanoseconds in a second, and billionths in a degree.
pub const BILLION: u64 = 1_000_000_000;

/// The angle reached after `elapsed_nanos` nanoseconds, in billionths of a
/// degree: 90 degrees for every second.
pub open spec fn rotation_of(elapsed_nanos: u64) -> u128 {
    (90 * elapsed_nanos) as u128
}

/// For every drawable: it stands at x = 0, in the column that the parity
/// of its index gives and in the row that half its index gives, whatever
/// the time; its opacity is its index plus one, in quarters, so never
/// none and higher for every later drawable.
pub proof fn lemma_placement_and_opacity(index: usize)
    ensures
        placement_of(index).x == 0,
        placement_of(index).y == (index % 2) * 10 - 5,
        placement_of(index).z == 4 - 8 * (index / 2),
        index % 2 == 0 ==> placement_of(index).y == -5,
        index % 2 == 1 ==> placement_of(index).y == 5,
        opacity_of(index) == index + 1,
        opacity_of(index) >= 1,
        index < usize::MAX ==> opacity_of((index + 1) as usize) == opacity_of(index) + 1,
{
}

/// For every time in nanoseconds: the angle is 90 degrees for each second,
/// so it is none at the start and never falls.
pub proof fn lemma_rotation(elapsed_nanos: u64, later_nanos: u64)
    ensures
        rotation_of(0) == 0,
        rotation_of(elapsed_nanos) == 90 * elapsed_nanos,
        elapsed_nanos <= later_nanos ==> rotation_of(elapsed_nanos) <= rotation_of(later_nanos),
        elapsed_nanos % 1_000_000_000 == 0 ==> rotation_of(elapsed_nanos) == 90_000_000_000 * (elapsed_nanos
            / 1_000_000_000),
{
}

/// The displacement of drawable `index`.
pub fn placement(index: usize) -> (p: Placement)
    ensures
        p == placement_of(index),
        p.x == 0,
        p.y == (index % 2) * 10 - 5,
        p.z == 4 - 8 * (index / 2),
{
    let column: i128 = (index % 2) as i128;
    let row: i128 = (index / 2) as i128;
    Placement { x: 0, y: column * 10 - 5, z: 4 - 8 * row }
}

/// The opacity of drawable `index`, in quarters of full opacity.
pub fn opacity(index: usize) -> (quarters: u128)
    ensures
        quarters == opacity_of(index),
        quarters == index + 1,
{
    index as u128 + 1
}

/// The rotation about the Z axis after `elapsed_nanos` nanoseconds, in
/// billionths of a degree.
pub fn rotation(elapsed_nanos: u64) -> (angle: u128)
    ensures
        angle == rotation_of(elapsed_nanos),
        angle == 90 * elapsed_nanos,
{
    let rate: u128 = ROTATION_DEGREES_PER_SECOND as u128;
    assert(rate * elapsed_nanos == 90 * elapsed_nanos <= 90 * 0xffff_ffff_ffff_ffff) by (nonlinear_arith)
        requires
            rate == 90,
            elapsed_nanos <= 0xffff_ffff_ffff_ffff,
    ;
    rate * (elapsed_nanos as u128)
}

} // verus!
