use vstd::prelude::*;

verus! {

/// A station position in 1e-8 meter length units: where a partition's
/// scanner stood in the common frame. The shell serializes its own copy of
/// this type; the library only computes the values.
#[derive(Clone, Copy, Debug, PartialEq, Eq, Structural)]
pub struct SpatialPoint {
    pub x: i64,
    pub y: i64,
    pub z: i64,
}

} // verus!
