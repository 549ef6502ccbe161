use crate::pointcloud::PointCloud;
use crate::spatial_point::SpatialPoint;
use vstd::prelude::*;

verus! {

/// The station position of one partition: its transform's translation, or
/// the origin for a partition without a transform.
pub open spec fn spec_station_point(pc: PointCloud) -> SpatialPoint {
    match pc.transform {
        Some(t) => SpatialPoint { x: t.translation.x, y: t.translation.y, z: t.translation.z },
        None => SpatialPoint { x: 0, y: 0, z: 0 },
    }
}

/// The station positions of a dataset, one per partition in partition
/// order. The shell writes them out keyed by partition index.
pub fn station_points(pointclouds: &Vec<PointCloud>) -> (r: Vec<SpatialPoint>)
    ensures
        r@.len() == pointclouds@.len(),
        forall|i: int|
            0 <= i < pointclouds@.len() ==> #[trigger] r@[i] == spec_station_point(
                pointclouds@[i],
            ),
{
    let mut stations: Vec<SpatialPoint> = Vec::new();
    let mut i: usize = 0;
    while i < pointclouds.len()
        invariant
            0 <= i <= pointclouds@.len(),
            stations@.len() == i,
            forall|j: int|
                0 <= j < i ==> #[trigger] stations@[j] == spec_station_point(pointclouds@[j]),
        decreases pointclouds@.len() - i,
    {
        let station = match pointclouds[i].transform {
            Some(t) => SpatialPoint { x: t.translation.x, y: t.translation.y, z: t.translation.z },
            None => SpatialPoint { x: 0, y: 0, z: 0 },
        };
        stations.push(station);
        i = i + 1;
    }
    stations
}

} // verus!
