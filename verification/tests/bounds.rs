use e57_to_las::converter::ConversionOptions;
use e57_to_las::las::{LasHeader, LasHeaderExt, Scale};
use e57_to_las::pointcloud::{CartesianBounds, PointCloud};
use e57_to_las::transform::{Quaternion, Transform, Translation, Vector3, ROTATION_ONE};

// One meter, in 1e-8 meter length units.
const METER: i64 = 100_000_000;

fn box_bounds(extent_meters: i64) -> CartesianBounds {
    let e = extent_meters * METER;
    CartesianBounds {
        x_min: Some(-e),
        x_max: Some(e),
        y_min: Some(-e),
        y_max: Some(e),
        z_min: Some(-e),
        z_max: Some(e),
    }
}

fn partition(bounds: Option<CartesianBounds>, transform: Option<Transform>) -> PointCloud {
    PointCloud {
        records: 0,
        transform,
        cartesian_bounds: bounds,
        has_color: false,
        has_timestamp: false,
        acquisition_start: None,
    }
}

#[test]
fn test_transform_validation() {
    let identity = Transform::identity();
    assert_eq!(
        Transform::new(identity.rotation, identity.translation),
        Some(identity)
    );

    // The zero quaternion is no rotation at all.
    let zero = Quaternion { w: 0, x: 0, y: 0, z: 0 };
    assert!(Transform::new(zero, Translation { x: 0, y: 0, z: 0 }).is_none());

    // A component beyond fixed-point one is rejected.
    let oversized = Quaternion { w: ROTATION_ONE + 1, x: 0, y: 0, z: 0 };
    assert!(Transform::new(oversized, Translation { x: 0, y: 0, z: 0 }).is_none());

    // A translation beyond the coordinate limit is rejected.
    let too_far = Translation { x: i64::MAX, y: 0, z: 0 };
    assert!(Transform::new(identity.rotation, too_far).is_none());
}

#[test]
fn test_identity_transform_moves_nothing() {
    let identity = Transform::identity();
    let p = Vector3 { x: 123 * METER, y: -45 * METER, z: 6789 };
    assert_eq!(identity.apply(p), p);
}

#[test]
fn test_global_bounds_identity_matches_local() {
    // A partition with the identity transform keeps its local box.
    let pc = partition(Some(box_bounds(10)), Some(Transform::identity()));
    let (gmin, gmax) = pc.global_bounds().unwrap();
    assert_eq!(gmin, Vector3 { x: -10 * METER, y: -10 * METER, z: -10 * METER });
    assert_eq!(gmax, Vector3 { x: 10 * METER, y: 10 * METER, z: 10 * METER });

    // So does a partition without any transform.
    let pc = partition(Some(box_bounds(10)), None);
    let (gmin, gmax) = pc.global_bounds().unwrap();
    assert_eq!(gmin, Vector3 { x: -10 * METER, y: -10 * METER, z: -10 * METER });
    assert_eq!(gmax, Vector3 { x: 10 * METER, y: 10 * METER, z: 10 * METER });
}

#[test]
fn test_global_bounds_incomplete_is_none() {
    let mut b = box_bounds(10);
    b.y_max = None;
    assert!(partition(Some(b), None).global_bounds().is_none());
    assert!(partition(None, None).global_bounds().is_none());
}

#[test]
fn test_two_partition_scenario() {
    // Partition 0: bounds [(-10,-10,-10),(10,10,10)] meters, untransformed.
    let p0 = partition(Some(box_bounds(10)), None);

    // Partition 1: the same local box, rotated half a turn about the z
    // axis and translated by (100, 0, 0) meters.
    let half_turn_z = Quaternion { w: 0, x: 0, y: 0, z: ROTATION_ONE };
    let translation = Translation { x: 100 * METER, y: 0, z: 0 };
    let t = Transform::new(half_turn_z, translation).unwrap();
    let p1 = partition(Some(box_bounds(10)), Some(t));

    // The rotation negates x and y exactly, so partition 1 spans
    // [90, 110] meters in x after the translation.
    let (gmin1, gmax1) = p1.global_bounds().unwrap();
    assert_eq!(gmin1, Vector3 { x: 90 * METER, y: -10 * METER, z: -10 * METER });
    assert_eq!(gmax1, Vector3 { x: 110 * METER, y: 10 * METER, z: 10 * METER });

    // The combined header: global x spans [-10, 110] meters, so the offset
    // sits at 50 meters with a half-extent of 60 meters, well within the
    // millimeter preset's reach.
    let opts = ConversionOptions { scale: Scale::MilliMeter, las_version: (1, 4) };
    let header = LasHeader::from_pointclouds(&vec![p0, p1], &opts).unwrap();
    assert_eq!(header.x.offset, 50 * METER);
    assert_eq!(header.y.offset, 0);
    assert_eq!(header.z.offset, 0);
    assert_eq!(header.x.scale, Scale::MilliMeter.value());
    assert_eq!(header.point_format.id, 0);
}

#[test]
fn test_header_without_bounds_uses_defaults() {
    let opts = ConversionOptions::default();
    let header = LasHeader::from_pointclouds(&vec![partition(None, None)], &opts).unwrap();
    assert_eq!(header.x.offset, 0);
    assert_eq!(header.x.scale, Scale::MilliMeter.value());
    assert_eq!(header.version, (1, 4));
}

#[test]
fn test_header_rejects_unsupported_version() {
    let opts = ConversionOptions { scale: Scale::MilliMeter, las_version: (2, 0) };
    assert!(LasHeader::from_pointclouds(&Vec::new(), &opts).is_err());
    assert!(LasHeader::from_pointcloud(&partition(None, None), &opts).is_err());
}

#[test]
fn test_header_scale_grows_with_extent() {
    // A dataset a thousand times the millimeter preset's reach forces a
    // larger scale, resolved against the half-extent from the center.
    let e = 4_000_000 * METER;
    let wide = CartesianBounds {
        x_min: Some(-e),
        x_max: Some(e),
        y_min: Some(0),
        y_max: Some(0),
        z_min: Some(0),
        z_max: Some(0),
    };
    let opts = ConversionOptions::default();
    let header = LasHeader::from_pointcloud(&partition(Some(wide), None), &opts).unwrap();
    assert!(header.x.scale > Scale::MilliMeter.value());
    // The half-extent still fits the 32-bit range at the resolved scale.
    let scaled = (e as u64 + header.x.scale / 2) / header.x.scale;
    assert!(scaled <= 2_147_483_647);
}
