use crate::colors::spec_las_colors;
use crate::point::{LasColor, Point};
use vstd::prelude::*;

verus! {

/// A source record paired with its color already mapped to the 16-bit
/// range, so later stages need not map it again.
#[derive(Clone, Copy, Debug, PartialEq, Eq, Structural)]
pub struct ExtendedPoint {
    /// The record as the source container handed it out.
    pub original_point: Point,
    /// The record's mapped color; black where the record carries none or an
    /// invalid one.
    pub rgb_color: LasColor,
}

/// The extension of a record: the record itself beside its mapped color.
pub open spec fn spec_extended_point(point: Point) -> ExtendedPoint {
    ExtendedPoint {
        original_point: point,
        rgb_color: spec_las_colors(point.color, point.color_invalid),
    }
}

impl From<Point> for ExtendedPoint {
    fn from(point: Point) -> (r: Self) {
        let rgb_color = crate::colors::get_las_colors(&point.color, point.color_invalid);
        ExtendedPoint { original_point: point, rgb_color }
    }
}

impl vstd::std_specs::convert::FromSpecImpl<Point> for ExtendedPoint {
    open spec fn obeys_from_spec() -> bool {
        true
    }

    open spec fn from_spec(point: Point) -> Self {
        spec_extended_point(point)
    }
}

} // verus!
