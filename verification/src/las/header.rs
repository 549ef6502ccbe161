use crate::converter::ConversionOptions;
use crate::error::Error;
use crate::las::format::{
    spec_format_id, spec_version_at_least_1_4, LasFormatAttributes, LasFormatExt, PointFormat,
};
use crate::las::scale::spec_safe_value;
use crate::pointcloud::{
    lemma_global_bounds_in_range, max_i64, spec_global_bounds, spec_max2, spec_min2, PointCloud,
};
use crate::transform::{rounded_div_i128, spec_rounded_div, Vector3, COORDINATE_LIMIT};
use vstd::prelude::*;

verus! {

/// The fixed-point encoding of one axis: a coordinate is stored as its
/// distance from `offset`, divided by `scale` and rounded.
#[derive(Clone, Copy, Debug, PartialEq, Eq, Structural)]
pub struct AxisTransform {
    /// The scale, in 1e-8 meter length units.
    pub scale: u64,
    /// The offset, in 1e-8 meter length units.
    pub offset: i64,
}

/// The header of one output stream: format version, record layout, and the
/// per-axis fixed-point encodings.
#[derive(Clone, Copy, Debug)]
pub struct LasHeader {
    /// The output format version, as `(major, minor)`.
    pub version: (u8, u8),
    /// The record layout of every record in the stream.
    pub point_format: PointFormat,
    /// The x axis encoding.
    pub x: AxisTransform,
    /// The y axis encoding.
    pub y: AxisTransform,
    /// The z axis encoding.
    pub z: AxisTransform,
}

/// The format versions this library can write: 1.0 through 1.4.
pub open spec fn spec_version_supported(v: (u8, u8)) -> bool {
    v.0 == 1 && v.1 <= 4
}

/// The per-axis offset of the header: the midpoint of the global bounds,
/// rounded to the nearest length unit.
pub open spec fn spec_midpoint(mn: int, mx: int) -> int {
    spec_rounded_div(mn + mx, 2)
}

/// The half-extent of one axis as resolution sees it: how far the farther
/// of the two bounds lies from the midpoint, and never negative.
pub open spec fn spec_half_extent(mn: int, mx: int) -> int {
    let mid = spec_midpoint(mn, mx);
    spec_max2(spec_max2(mx - mid, mid - mn), 0)
}

/// The largest half-extent over the three axes: the magnitude against which
/// the scale is resolved, so quantization error stays symmetric around the
/// dataset's center rather than around the origin.
pub open spec fn spec_max_half_extent(mn: Vector3, mx: Vector3) -> int {
    spec_max2(
        spec_half_extent(mn.x as int, mx.x as int),
        spec_max2(
            spec_half_extent(mn.y as int, mx.y as int),
            spec_half_extent(mn.z as int, mx.z as int),
        ),
    )
}

/// Both corners of a bounds pair within the transformed coordinate range.
pub open spec fn spec_bounds_in_range(bounds: Option<(Vector3, Vector3)>) -> bool {
    match bounds {
        None => true,
        Some((mn, mx)) => {
            &&& -13 * (COORDINATE_LIMIT as int) <= mn.x <= 13 * (COORDINATE_LIMIT as int)
            &&& -13 * (COORDINATE_LIMIT as int) <= mn.y <= 13 * (COORDINATE_LIMIT as int)
            &&& -13 * (COORDINATE_LIMIT as int) <= mn.z <= 13 * (COORDINATE_LIMIT as int)
            &&& -13 * (COORDINATE_LIMIT as int) <= mx.x <= 13 * (COORDINATE_LIMIT as int)
            &&& -13 * (COORDINATE_LIMIT as int) <= mx.y <= 13 * (COORDINATE_LIMIT as int)
            &&& -13 * (COORDINATE_LIMIT as int) <= mx.z <= 13 * (COORDINATE_LIMIT as int)
        },
    }
}

/// The header built from a record layout, optional global bounds, and the
/// run's options: without bounds a zero offset and the preset scale, with
/// bounds the midpoint offsets and the scale resolved against the largest
/// half-extent.
pub open spec fn spec_build_header(
    point_format: PointFormat,
    bounds: Option<(Vector3, Vector3)>,
    opts: ConversionOptions,
) -> LasHeader {
    match bounds {
        None => LasHeader {
            version: opts.las_version,
            point_format,
            x: AxisTransform { scale: opts.scale.spec_value(), offset: 0 },
            y: AxisTransform { scale: opts.scale.spec_value(), offset: 0 },
            z: AxisTransform { scale: opts.scale.spec_value(), offset: 0 },
        },
        Some((mn, mx)) => {
            let scale = spec_safe_value(
                opts.scale.spec_value() as int,
                spec_max_half_extent(mn, mx),
            ) as u64;
            LasHeader {
                version: opts.las_version,
                point_format,
                x: AxisTransform { scale, offset: spec_midpoint(mn.x as int, mx.x as int) as i64 },
                y: AxisTransform { scale, offset: spec_midpoint(mn.y as int, mx.y as int) as i64 },
                z: AxisTransform { scale, offset: spec_midpoint(mn.z as int, mx.z as int) as i64 },
            }
        },
    }
}

/// The rounded midpoint of two in-range coordinates.
fn midpoint_i64(mn: i64, mx: i64) -> (r: i64)
    requires
        -13 * (COORDINATE_LIMIT as int) <= mn <= 13 * (COORDINATE_LIMIT as int),
        -13 * (COORDINATE_LIMIT as int) <= mx <= 13 * (COORDINATE_LIMIT as int),
    ensures
        r as int == spec_midpoint(mn as int, mx as int),
        -13 * (COORDINATE_LIMIT as int) <= r <= 13 * (COORDINATE_LIMIT as int),
{
    let m = rounded_div_i128(mn as i128 + mx as i128, 2);
    proof {
        crate::transform::lemma_rounded_div_bound(
            mn as int + mx as int,
            2,
            13 * (COORDINATE_LIMIT as int),
        );
    }
    m as i64
}

/// The half-extent of one axis: the distance from the midpoint to the
/// farther bound, never negative.
fn half_extent_i64(mn: i64, mx: i64) -> (r: i64)
    requires
        -13 * (COORDINATE_LIMIT as int) <= mn <= 13 * (COORDINATE_LIMIT as int),
        -13 * (COORDINATE_LIMIT as int) <= mx <= 13 * (COORDINATE_LIMIT as int),
    ensures
        r as int == spec_half_extent(mn as int, mx as int),
        r >= 0,
{
    let mid = midpoint_i64(mn, mx);
    max_i64(max_i64(mx - mid, mid - mn), 0)
}

/// Build one output header: reject unsupported format versions before any
/// work, otherwise combine the record layout, the global bounds and the
/// options into the header's offsets and resolved scale.
pub fn build_header(
    point_format: PointFormat,
    bounds: Option<(Vector3, Vector3)>,
    opts: &ConversionOptions,
) -> (r: Result<LasHeader, Error>)
    requires
        opts.is_valid(),
        spec_bounds_in_range(bounds),
    ensures
        r is Ok <==> spec_version_supported(opts.las_version),
        r is Ok ==> r->Ok_0 == spec_build_header(point_format, bounds, *opts),
        r is Err ==> r->Err_0 is InvalidLasVersion,
{
    let (major, minor) = opts.las_version;
    if !(major == 1 && minor <= 4) {
        return Err(Error::InvalidLasVersion("must be between 1.0 and 1.4".to_owned()));
    }
    match bounds {
        None => {
            let scale = opts.scale.value();
            Ok(
                LasHeader {
                    version: opts.las_version,
                    point_format,
                    x: AxisTransform { scale, offset: 0 },
                    y: AxisTransform { scale, offset: 0 },
                    z: AxisTransform { scale, offset: 0 },
                },
            )
        },
        Some((mn, mx)) => {
            let ox = midpoint_i64(mn.x, mx.x);
            let oy = midpoint_i64(mn.y, mx.y);
            let oz = midpoint_i64(mn.z, mx.z);
            let extent = max_i64(
                half_extent_i64(mn.x, mx.x),
                max_i64(half_extent_i64(mn.y, mx.y), half_extent_i64(mn.z, mx.z)),
            );
            let scale = opts.scale.safe_value(extent as u64);
            Ok(
                LasHeader {
                    version: opts.las_version,
                    point_format,
                    x: AxisTransform { scale, offset: ox },
                    y: AxisTransform { scale, offset: oy },
                    z: AxisTransform { scale, offset: oz },
                },
            )
        },
    }
}

/// The attribute flags of a dataset: whether any partition in the prefix
/// carries color, and whether any carries timestamps.
pub open spec fn spec_any_color(s: Seq<PointCloud>) -> bool {
    exists|i: int| 0 <= i < s.len() && #[trigger] s[i].has_color
}

/// Whether any partition of the sequence carries timestamps.
pub open spec fn spec_any_timestamp(s: Seq<PointCloud>) -> bool {
    exists|i: int| 0 <= i < s.len() && #[trigger] s[i].has_timestamp
}

/// The combined bounds of a dataset: the elementwise minima and maxima of
/// the global bounds of every partition that has complete bounds, `None`
/// where no partition contributed.
pub open spec fn spec_combined_bounds(s: Seq<PointCloud>) -> Option<(Vector3, Vector3)>
    decreases s.len(),
{
    if s.len() == 0 {
        None
    } else {
        let rest = spec_combined_bounds(s.drop_last());
        match (rest, spec_global_bounds(s.last())) {
            (None, last) => last,
            (Some(acc), None) => Some(acc),
            (Some((amn, amx)), Some((lmn, lmx))) => Some(
                (
                    Vector3 {
                        x: spec_min2(amn.x as int, lmn.x as int) as i64,
                        y: spec_min2(amn.y as int, lmn.y as int) as i64,
                        z: spec_min2(amn.z as int, lmn.z as int) as i64,
                    },
                    Vector3 {
                        x: spec_max2(amx.x as int, lmx.x as int) as i64,
                        y: spec_max2(amx.y as int, lmx.y as int) as i64,
                        z: spec_max2(amx.z as int, lmx.z as int) as i64,
                    },
                ),
            ),
        }
    }
}

/// Combined bounds of valid partitions stay within the transformed
/// coordinate range.
pub proof fn lemma_combined_bounds_in_range(s: Seq<PointCloud>)
    requires
        forall|i: int| 0 <= i < s.len() ==> #[trigger] s[i].is_valid(),
    ensures
        spec_bounds_in_range(spec_combined_bounds(s)),
    decreases s.len(),
{
    if s.len() > 0 {
        lemma_combined_bounds_in_range(s.drop_last());
        if spec_global_bounds(s.last()) is Some {
            lemma_global_bounds_in_range(s.last());
        }
    }
}

/// A builder of output headers from partition metadata.
pub trait LasHeaderExt where Self: core::marker::Sized {
    /// Build the single header of a merged conversion from every
    /// partition's metadata.
    fn from_pointclouds(pointclouds: &Vec<PointCloud>, opts: &ConversionOptions) -> (r: Result<
        Self,
        Error,
    >)
        requires
            opts.is_valid(),
            forall|i: int| 0 <= i < pointclouds@.len() ==> #[trigger] pointclouds@[i].is_valid(),
    ;

    /// Build the header of one partition's own output stream.
    fn from_pointcloud(pointcloud: &PointCloud, opts: &ConversionOptions) -> (r: Result<
        Self,
        Error,
    >)
        requires
            opts.is_valid(),
            pointcloud.is_valid(),
    ;
}

impl LasHeaderExt for LasHeader {
    /// Aggregate every partition's attribute flags and global bounds, pick
    /// the record layout for the combined attributes, and build the header.
    fn from_pointclouds(pointclouds: &Vec<PointCloud>, opts: &ConversionOptions) -> (r: Result<
        Self,
        Error,
    >)
        ensures
            r is Ok <==> spec_version_supported(opts.las_version),
            r is Ok ==> r->Ok_0 == spec_build_header(
                PointFormat {
                    id: spec_format_id(
                        spec_any_color(pointclouds@),
                        spec_any_timestamp(pointclouds@),
                        spec_version_at_least_1_4(opts.las_version),
                    ),
                    has_color: spec_any_color(pointclouds@),
                    has_gps_time: spec_any_timestamp(pointclouds@),
                },
                spec_combined_bounds(pointclouds@),
                *opts,
            ),
            r is Err ==> r->Err_0 is InvalidLasVersion,
    {
        let mut has_color = false;
        let mut has_time = false;
        let mut combined: Option<(Vector3, Vector3)> = None;
        let mut i: usize = 0;
        proof {
            assert(pointclouds@.take(0int) =~= Seq::<PointCloud>::empty());
        }
        while i < pointclouds.len()
            invariant
                0 <= i <= pointclouds@.len(),
                forall|j: int| 0 <= j < pointclouds@.len() ==> #[trigger] pointclouds@[j].is_valid(),
                has_color == spec_any_color(pointclouds@.take(i as int)),
                has_time == spec_any_timestamp(pointclouds@.take(i as int)),
                combined == spec_combined_bounds(pointclouds@.take(i as int)),
            decreases pointclouds@.len() - i,
        {
            let pc = &pointclouds[i];
            let ghost prefix = pointclouds@.take(i as int);
            let ghost next = pointclouds@.take(i + 1int);
            proof {
                assert(next.drop_last() =~= prefix);
                assert(next.last() == pointclouds@[i as int]);
            }
            has_color = has_color || pc.has_color;
            has_time = has_time || pc.has_timestamp;
            match pc.global_bounds() {
                None => {},
                Some((lmn, lmx)) => {
                    combined = match combined {
                        None => Some((lmn, lmx)),
                        Some((amn, amx)) => Some(
                            (
                                Vector3 {
                                    x: crate::pointcloud::min_i64(amn.x, lmn.x),
                                    y: crate::pointcloud::min_i64(amn.y, lmn.y),
                                    z: crate::pointcloud::min_i64(amn.z, lmn.z),
                                },
                                Vector3 {
                                    x: max_i64(amx.x, lmx.x),
                                    y: max_i64(amx.y, lmx.y),
                                    z: max_i64(amx.z, lmx.z),
                                },
                            ),
                        ),
                    };
                },
            }
            proof {
                assert(spec_any_color(next) == (spec_any_color(prefix)
                    || pointclouds@[i as int].has_color)) by {
                    if spec_any_color(prefix) || pointclouds@[i as int].has_color {
                        if spec_any_color(prefix) {
                            let w = choose|k: int| 0 <= k < prefix.len() && #[trigger] prefix[k].has_color;
                            assert(next[w].has_color);
                        } else {
                            assert(next[i as int].has_color);
                        }
                    } else {
                        assert forall|k: int| 0 <= k < next.len() implies !(
                        #[trigger] next[k].has_color) by {
                            if k < i as int {
                                assert(prefix[k] == next[k]);
                            }
                        }
                    }
                }
                assert(spec_any_timestamp(next) == (spec_any_timestamp(prefix)
                    || pointclouds@[i as int].has_timestamp)) by {
                    if spec_any_timestamp(prefix) || pointclouds@[i as int].has_timestamp {
                        if spec_any_timestamp(prefix) {
                            let w = choose|k: int|
                                0 <= k < prefix.len() && #[trigger] prefix[k].has_timestamp;
                            assert(next[w].has_timestamp);
                        } else {
                            assert(next[i as int].has_timestamp);
                        }
                    } else {
                        assert forall|k: int| 0 <= k < next.len() implies !(
                        #[trigger] next[k].has_timestamp) by {
                            if k < i as int {
                                assert(prefix[k] == next[k]);
                            }
                        }
                    }
                }
            }
            i = i + 1;
        }
        proof {
            assert(pointclouds@.take(pointclouds@.len() as int) =~= pointclouds@);
            lemma_combined_bounds_in_range(pointclouds@);
        }
        let point_format = PointFormat::from_attributes(
            LasFormatAttributes { has_color, has_time, las_version: opts.las_version },
        );
        build_header(point_format, combined, opts)
    }

    /// Build the header of one partition's own output stream from its own
    /// attribute flags and global bounds.
    fn from_pointcloud(pointcloud: &PointCloud, opts: &ConversionOptions) -> (r: Result<
        Self,
        Error,
    >)
        ensures
            r is Ok <==> spec_version_supported(opts.las_version),
            r is Ok ==> r->Ok_0 == spec_build_header(
                PointFormat {
                    id: spec_format_id(
                        pointcloud.has_color,
                        pointcloud.has_timestamp,
                        spec_version_at_least_1_4(opts.las_version),
                    ),
                    has_color: pointcloud.has_color,
                    has_gps_time: pointcloud.has_timestamp,
                },
                spec_global_bounds(*pointcloud),
                *opts,
            ),
            r is Err ==> r->Err_0 is InvalidLasVersion,
    {
        let bounds = pointcloud.global_bounds();
        proof {
            if spec_global_bounds(*pointcloud) is Some {
                lemma_global_bounds_in_range(*pointcloud);
            }
        }
        let point_format = PointFormat::from_attributes(
            LasFormatAttributes {
                has_color: pointcloud.has_color,
                has_time: pointcloud.has_timestamp,
                las_version: opts.las_version,
            },
        );
        build_header(point_format, bounds, opts)
    }
}

} // verus!
