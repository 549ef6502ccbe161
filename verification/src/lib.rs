//! Verified core of a point-cloud conversion pipeline.
//!
//! The library converts point records of a scanning-data container into a
//! point-cloud exchange format: it chooses a fixed-point quantization scale,
//! aggregates per-partition bounds into one header, selects the minimal
//! record layout for the attributes present, converts records one by one,
//! and models the batching and fan-out decisions of the streaming pipeline.
//!
//! All quantities are held as fixed-point integers: lengths count units of
//! 1e-8 meters, unit-interval attribute values count millionths. The I/O
//! shell around the library converts between these and its own
//! floating-point values at the edge.

pub mod colors;
pub mod converter;
pub mod error;
pub mod extended_point;
pub mod las;
pub mod las_version;
pub mod point;
pub mod pointcloud;
pub mod spatial_point;
pub mod stations;
pub mod transform;
