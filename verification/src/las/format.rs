use vstd::prelude::*;

verus! {

/// The attribute flags and target version from which an output record
/// layout is chosen.
#[derive(Clone, Copy, Debug)]
pub struct LasFormatAttributes {
    pub has_color: bool,
    pub has_time: bool,
    pub las_version: (u8, u8),
}

/// An output point-record layout: its format number and the attributes it
/// carries.
#[derive(Clone, Copy, Debug, PartialEq, Eq, Structural)]
pub struct PointFormat {
    pub id: u8,
    pub has_color: bool,
    pub has_gps_time: bool,
}

/// Whether a `(major, minor)` version is at least 1.4, the first version
/// that can express the extended record layout.
pub open spec fn spec_version_at_least_1_4(v: (u8, u8)) -> bool {
    v.0 > 1 || (v.0 == 1 && v.1 >= 4)
}

/// The format table: the minimal record layout that can hold the attributes
/// present. Versions below 1.4 cannot express layout 6 and fall back to the
/// legacy-compatible layout 3.
pub open spec fn spec_format_id(has_color: bool, has_time: bool, at_least_1_4: bool) -> u8 {
    match (has_color, has_time) {
        (false, false) => 0u8,
        (false, true) => 1u8,
        (true, false) => 2u8,
        (true, true) => if at_least_1_4 {
            6u8
        } else {
            3u8
        },
    }
}

/// A constructor of record layouts from attribute flags.
pub trait LasFormatExt where Self: core::marker::Sized {
    /// Select the minimal record layout for the given attributes.
    fn from_attributes(attributes: LasFormatAttributes) -> Self;
}

impl LasFormatExt for PointFormat {
    /// Select the minimal record layout for the given attributes, following
    /// the format table exactly.
    fn from_attributes(attributes: LasFormatAttributes) -> (r: Self)
        ensures
            r.id == spec_format_id(
                attributes.has_color,
                attributes.has_time,
                spec_version_at_least_1_4(attributes.las_version),
            ),
            r.has_color == attributes.has_color,
            r.has_gps_time == attributes.has_time,
    {
        let (major, minor) = attributes.las_version;
        let at_least_1_4 = major > 1 || (major == 1 && minor >= 4);
        let id: u8 = match (attributes.has_color, attributes.has_time) {
            (false, false) => 0,
            (false, true) => 1,
            (true, false) => 2,
            (true, true) => if at_least_1_4 {
                6
            } else {
                3
            },
        };
        PointFormat { id, has_color: attributes.has_color, has_gps_time: attributes.has_time }
    }
}

} // verus!
