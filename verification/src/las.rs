//! The output-format side of the conversion: scales, record formats,
//! versions and headers.

mod format;
mod header;
mod points;
mod scale;
mod version;

pub use format::spec_format_id;
pub use format::spec_version_at_least_1_4;
pub use format::LasFormatAttributes;
pub use format::LasFormatExt;
pub use format::PointFormat;
pub use header::build_header;
pub use header::lemma_combined_bounds_in_range;
pub use header::spec_any_color;
pub use header::spec_any_timestamp;
pub use header::spec_bounds_in_range;
pub use header::spec_build_header;
pub use header::spec_combined_bounds;
pub use header::spec_half_extent;
pub use header::spec_max_half_extent;
pub use header::spec_midpoint;
pub use header::spec_version_supported;
pub use header::AxisTransform;
pub use header::LasHeader;
pub use header::LasHeaderExt;
pub use points::spec_abs_i64;
pub use points::spec_max_abs_cartesian;
pub use points::spec_points_have_color;
pub use points::LasPointsExt;
pub use scale::ceil_div;
pub use scale::find_smallest_scale;
pub use scale::lemma_safe_value_matches_search;
pub use scale::lemma_safe_value_monotonic;
pub use scale::quantize_up;
pub use scale::spec_safe_value;
pub use scale::Scale;
pub use scale::MAX_COORDINATE_RANGE;
pub use scale::SCALE_QUANTUM;
pub use scale::UNITS_PER_METER;
pub use version::format_version;
pub use version::spec_las_version_allowed;
pub use version::LasVersion;
pub use version::LasVersionExt;
