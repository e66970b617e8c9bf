//! Dimension identification and the height range of a dimension.

use vstd::prelude::*;

verus! {

/// Identifies a dimension type on the server. The default ID refers to the
/// first dimension the server was configured with.
#[derive(Clone, Copy, Default, PartialEq, Eq, PartialOrd, Ord, Hash, Debug, Structural)]
pub struct DimensionId(pub u16);

/// The skybox and fog effects of a dimension.
#[derive(Clone, Copy, PartialEq, Eq, PartialOrd, Ord, Hash, Debug, Structural)]
pub enum DimensionEffects {
    Overworld,
    TheNether,
    TheEnd,
}

impl Default for DimensionEffects {
    fn default() -> (e: Self)
        ensures
            e == DimensionEffects::Overworld,
    {
        DimensionEffects::Overworld
    }
}

/// Whether a dimension may span `min_y..min_y + height`: `min_y` a multiple
/// of 16 in `-2032..=2016`, `height` a multiple of 16 in `0..=4064`, and the
/// top no higher than 2032.
pub open spec fn spec_height_range_valid(min_y: i32, height: i32) -> bool {
    &&& min_y % 16 == 0
    &&& -2032 <= min_y <= 2016
    &&& height % 16 == 0
    &&& 0 <= height <= 4064
    &&& min_y + height <= 2032
}

/// Checks the height rules a dimension must meet.
pub fn height_range_valid(min_y: i32, height: i32) -> (b: bool)
    ensures
        b == spec_height_range_valid(min_y, height),
{
    min_y % 16 == 0 && -2032 <= min_y && min_y <= 2016 && height % 16 == 0 && 0 <= height
        && height <= 4064 && min_y as i64 + height as i64 <= 2032
}

} // verus!
