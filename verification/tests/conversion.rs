use e57_to_las::colors::{f01_to_u16, get_las_colors, get_las_intensity, UNIT_ONE};
use e57_to_las::extended_point::ExtendedPoint;
use e57_to_las::las::{LasFormatAttributes, LasFormatExt, LasPointsExt, PointFormat};
use e57_to_las::point::{convert_point, CartesianCoordinate, Color, LasColor, LasPoint, Point};

fn plain_point(x: i64, y: i64, z: i64) -> Point {
    Point {
        cartesian: CartesianCoordinate::Valid { x, y, z },
        color: None,
        color_invalid: 0,
        intensity: None,
        intensity_invalid: 0,
    }
}

#[test]
fn test_color_mapping_endpoints() {
    assert_eq!(f01_to_u16(0), 0);
    assert_eq!(f01_to_u16(UNIT_ONE), 65_535);
    // Half of the unit interval maps to the rounded middle.
    assert_eq!(f01_to_u16(UNIT_ONE / 2), 32_768);
    // Values beyond the unit interval clamp, never overflow.
    assert_eq!(f01_to_u16(u32::MAX), 65_535);
}

#[test]
fn test_color_mapping_monotonic_samples() {
    let mut previous = 0u16;
    for v in [0u32, 1, 2, 100, 250_000, 500_000, 999_999, 1_000_000] {
        let mapped = f01_to_u16(v);
        assert!(mapped >= previous);
        previous = mapped;
    }
}

#[test]
fn test_las_colors_absent_or_invalid_is_black() {
    let black = LasColor { red: 0, green: 0, blue: 0 };
    assert_eq!(get_las_colors(&None, 0), black);
    let c = Color { red: UNIT_ONE, green: 0, blue: UNIT_ONE / 2 };
    assert_eq!(get_las_colors(&Some(c), 1), black);
    assert_eq!(
        get_las_colors(&Some(c), 0),
        LasColor { red: 65_535, green: 0, blue: 32_768 }
    );
}

#[test]
fn test_las_intensity_sentinel() {
    // A sentinel of 1 marks the intensity invalid, which maps to 0.
    assert_eq!(get_las_intensity(Some(UNIT_ONE), 1), 0);
    assert_eq!(get_las_intensity(None, 0), 0);
    assert_eq!(get_las_intensity(Some(UNIT_ONE), 0), 65_535);
    assert_eq!(get_las_intensity(Some(0), 0), 0);
}

#[test]
fn test_format_selector_table() {
    // All eight combinations of the selection table.
    let cases: [(bool, bool, (u8, u8), u8); 8] = [
        (false, false, (1, 2), 0),
        (false, false, (1, 4), 0),
        (false, true, (1, 2), 1),
        (false, true, (1, 4), 1),
        (true, false, (1, 2), 2),
        (true, false, (1, 4), 2),
        (true, true, (1, 2), 3),
        (true, true, (1, 4), 6),
    ];
    for (has_color, has_time, las_version, expected) in cases {
        let format = PointFormat::from_attributes(LasFormatAttributes {
            has_color,
            has_time,
            las_version,
        });
        assert_eq!(format.id, expected);
        assert_eq!(format.has_color, has_color);
        assert_eq!(format.has_gps_time, has_time);
    }
}

#[test]
fn test_convert_point_drops_invalid() {
    let invalid = Point {
        cartesian: CartesianCoordinate::Invalid,
        color: Some(Color { red: UNIT_ONE, green: UNIT_ONE, blue: UNIT_ONE }),
        color_invalid: 0,
        intensity: Some(UNIT_ONE),
        intensity_invalid: 0,
    };
    assert!(convert_point(invalid).is_none());

    let valid = plain_point(100, -200, 300);
    let converted = convert_point(valid).unwrap();
    assert_eq!((converted.x, converted.y, converted.z), (100, -200, 300));
    assert_eq!(converted.intensity, 0);
    assert!(converted.color.is_none());
    assert!(converted.gps_time.is_none());
}

#[test]
fn test_to_las_point_follows_format() {
    let record = Point {
        cartesian: CartesianCoordinate::Valid { x: 1, y: 2, z: 3 },
        color: Some(Color { red: UNIT_ONE, green: 0, blue: 0 }),
        color_invalid: 0,
        intensity: Some(UNIT_ONE / 2),
        intensity_invalid: 0,
    };

    // A layout without color discards the record's color.
    let plain = PointFormat { id: 1, has_color: false, has_gps_time: true };
    let converted = record.to_las_point(plain, None).unwrap();
    assert!(converted.color.is_none());
    // A layout with time but no acquisition reference emits time zero.
    assert_eq!(converted.gps_time, Some(0));
    assert_eq!(converted.intensity, 32_768);

    // A layout with color keeps it; the reference carries through.
    let colored = PointFormat { id: 3, has_color: true, has_gps_time: true };
    let converted = record.to_las_point(colored, Some(77)).unwrap();
    assert_eq!(
        converted.color,
        Some(LasColor { red: 65_535, green: 0, blue: 0 })
    );
    assert_eq!(converted.gps_time, Some(77));

    // A record without color still gets one when the layout asks: black.
    let bare = plain_point(0, 0, 0);
    let converted = bare.to_las_point(colored, None).unwrap();
    assert_eq!(converted.color, Some(LasColor { red: 0, green: 0, blue: 0 }));

    // An invalid coordinate is dropped whatever the layout.
    let invalid = Point { cartesian: CartesianCoordinate::Invalid, ..record };
    assert!(invalid.to_las_point(colored, Some(77)).is_none());
}

#[test]
fn test_extended_point_maps_color() {
    let record = Point {
        cartesian: CartesianCoordinate::Valid { x: 5, y: 6, z: 7 },
        color: Some(Color { red: 0, green: UNIT_ONE, blue: UNIT_ONE / 2 }),
        color_invalid: 0,
        intensity: None,
        intensity_invalid: 0,
    };
    let extended = ExtendedPoint::from(record);
    assert_eq!(extended.original_point, record);
    assert_eq!(
        extended.rgb_color,
        LasColor { red: 0, green: 65_535, blue: 32_768 }
    );

    let flagged = Point { color_invalid: 1, ..record };
    let extended = ExtendedPoint::from(flagged);
    assert_eq!(extended.rgb_color, LasColor { red: 0, green: 0, blue: 0 });
}

#[test]
fn test_las_points_utilities() {
    let mut points: Vec<LasPoint> = Vec::new();
    assert!(!points.x_has_color());
    assert_eq!(points.x_max_cartesian(), 0);

    points.push(LasPoint {
        x: -50,
        y: 20,
        z: 10,
        intensity: 0,
        color: None,
        gps_time: None,
    });
    points.push(LasPoint {
        x: 7,
        y: -3,
        z: 40,
        intensity: 0,
        color: Some(LasColor { red: 1, green: 2, blue: 3 }),
        gps_time: None,
    });
    assert!(points.x_has_color());
    assert_eq!(points.x_max_cartesian(), 50);
}
