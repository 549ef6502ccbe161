use crate::colors::{get_las_colors, get_las_intensity, spec_las_colors, spec_las_intensity};
use crate::las::PointFormat;
use vstd::prelude::*;

verus! {

/// A Cartesian coordinate in 1e-8 meter length units, or the sentinel for a
/// record whose coordinate is invalid.
#[derive(Clone, Copy, Debug, PartialEq, Eq, Structural)]
pub enum CartesianCoordinate {
    Valid { x: i64, y: i64, z: i64 },
    Invalid,
}

/// A source record's color, each channel a unit-interval fraction in
/// millionths.
#[derive(Clone, Copy, Debug, PartialEq, Eq, Structural)]
pub struct Color {
    pub red: u32,
    pub green: u32,
    pub blue: u32,
}

/// A 16-bit output color.
#[derive(Clone, Copy, Debug, PartialEq, Eq, Structural)]
pub struct LasColor {
    pub red: u16,
    pub green: u16,
    pub blue: u16,
}

/// A source point record, as the scanning container hands it out: an
/// optionally valid coordinate, optional unit-interval color and intensity,
/// each guarded by a validity sentinel (0 marks valid, 1 invalid).
#[derive(Clone, Copy, Debug, PartialEq, Eq, Structural)]
pub struct Point {
    pub cartesian: CartesianCoordinate,
    pub color: Option<Color>,
    pub color_invalid: u8,
    pub intensity: Option<u32>,
    pub intensity_invalid: u8,
}

/// An output point record: coordinates still in length units, ready for
/// fixed-point encoding against the header's scale and offset.
#[derive(Clone, Copy, Debug, PartialEq, Eq, Structural)]
pub struct LasPoint {
    pub x: i64,
    pub y: i64,
    pub z: i64,
    pub intensity: u16,
    pub color: Option<LasColor>,
    pub gps_time: Option<i64>,
}

/// What `convert_point` returns: `None` exactly for an invalid coordinate;
/// otherwise color and intensity are mapped whenever present, regardless of
/// the record's validity sentinels.
pub open spec fn spec_convert_point(point: Point) -> Option<LasPoint> {
    match point.cartesian {
        CartesianCoordinate::Valid { x, y, z } => Some(
            LasPoint {
                x,
                y,
                z,
                intensity: spec_las_intensity(point.intensity, 0) as u16,
                color: match point.color {
                    Some(c) => Some(spec_las_colors(Some(c), 0)),
                    None => None,
                },
                gps_time: None,
            },
        ),
        CartesianCoordinate::Invalid => None,
    }
}

/// Convert a source record to an output record, dropping it (returning
/// `None`) exactly when its coordinate is invalid. Color and intensity are
/// mapped to the 16-bit range whenever present.
pub fn convert_point(point: Point) -> (r: Option<LasPoint>)
    ensures
        r == spec_convert_point(point),
        r is None <==> point.cartesian is Invalid,
{
    match point.cartesian {
        CartesianCoordinate::Valid { x, y, z } => {
            let color = match point.color {
                Some(c) => Some(get_las_colors(&Some(c), 0)),
                None => None,
            };
            let intensity = get_las_intensity(point.intensity, 0);
            Some(LasPoint { x, y, z, intensity, color, gps_time: None })
        },
        CartesianCoordinate::Invalid => None,
    }
}

/// What `to_las_point` returns for a record with a valid coordinate: color
/// only where the record layout carries one (an absent or invalid color
/// becomes black), intensity by its validity sentinel, and a timestamp only
/// where the layout carries one (an absent reference becomes time zero).
pub open spec fn spec_to_las_point(point: Point, format: PointFormat, gps_time: Option<i64>) -> Option<
    LasPoint,
> {
    match point.cartesian {
        CartesianCoordinate::Valid { x, y, z } => Some(
            LasPoint {
                x,
                y,
                z,
                intensity: spec_las_intensity(point.intensity, point.intensity_invalid) as u16,
                color: if format.has_color {
                    Some(spec_las_colors(point.color, point.color_invalid))
                } else {
                    None
                },
                gps_time: if format.has_gps_time {
                    match gps_time {
                        Some(t) => Some(t),
                        None => Some(0),
                    }
                } else {
                    None
                },
            },
        ),
        CartesianCoordinate::Invalid => None,
    }
}

impl Point {
    /// Convert this record to an output record of the given layout, with
    /// `gps_time` the partition's acquisition-start reference. Returns
    /// `None` exactly when the coordinate is invalid: such records are
    /// dropped, never erred on.
    pub fn to_las_point(self, format: PointFormat, gps_time: Option<i64>) -> (r: Option<LasPoint>)
        ensures
            r == spec_to_las_point(self, format, gps_time),
            r is None <==> self.cartesian is Invalid,
    {
        match self.cartesian {
            CartesianCoordinate::Valid { x, y, z } => {
                let color = if format.has_color {
                    Some(get_las_colors(&self.color, self.color_invalid))
                } else {
                    None
                };
                let intensity = get_las_intensity(self.intensity, self.intensity_invalid);
                let time = if format.has_gps_time {
                    match gps_time {
                        Some(t) => Some(t),
                        None => Some(0),
                    }
                } else {
                    None
                };
                Some(LasPoint { x, y, z, intensity, color, gps_time: time })
            },
            CartesianCoordinate::Invalid => None,
        }
    }
}

} // verus!
