use e57_to_las::error::Error;
use e57_to_las::las::{format_version, LasVersion, LasVersionExt};
use e57_to_las::las_version;
use e57_to_las::las_version::Version;

#[test]
fn test_unsupported_las_version() {
    let las_version = las_version::Version::new(2, 3);

    assert!(las_version.is_err())
}

#[test]
fn test_invalid_las_version_major() {
    let las_version = las_version::Version::try_from("b.4");

    assert!(las_version.is_err())
}

#[test]
fn test_invalid_las_version_minor() {
    let las_version = las_version::Version::try_from("2.c");

    assert!(las_version.is_err())
}

#[test]
fn test_version_parses_supported() {
    let v = Version::try_from("1.4").unwrap();
    assert_eq!(v.major, 1);
    assert_eq!(v.minor, 4);

    let v = Version::try_from("1.0").unwrap();
    assert_eq!(v.major, 1);
    assert_eq!(v.minor, 0);
}

#[test]
fn test_version_rejects_malformed() {
    assert!(Version::try_from("1").is_err());
    assert!(Version::try_from("1.4.5").is_err());
    assert!(Version::try_from("").is_err());
    assert!(Version::try_from(".4").is_err());
    assert!(Version::try_from("1.").is_err());
    assert!(Version::try_from("1.5").is_err());
    assert!(Version::try_from("256.0").is_err());
}

#[test]
fn test_version_error_variant() {
    match Version::new(9, 9) {
        Err(Error::InvalidLasVersion(msg)) => {
            assert_eq!(msg, "must be between 1.0 and 1.4");
        }
        _ => panic!("expected an invalid-version error"),
    }
}

#[test]
fn test_version_ext_constructors() {
    assert!(Version::x_new_valid(1, 4).is_ok());
    assert!(Version::x_new_valid(3, 0).is_err());
    assert!(Version::x_try_from_str("1.4").is_ok());
    assert!(Version::x_try_from_str("3.0").is_err());
    assert!(Version::x_try_from_str("1").is_err());
}

#[test]
fn test_las_version_range() {
    assert!(LasVersion::new(1, 0).is_ok());
    assert!(LasVersion::new(1, 3).is_ok());
    assert!(LasVersion::new(1, 4).is_ok());
    assert!(LasVersion::new(1, 5).is_err());
    assert!(LasVersion::new(2, 0).is_err());
    let v = LasVersion::new(1, 4).unwrap();
    assert_eq!(v.0, (1, 4));
    assert_eq!(LasVersion::default().0, (1, 2));
}

#[test]
fn test_format_version_text() {
    assert_eq!(format_version((1, 4)), "1.4");
    assert_eq!(format_version((1, 0)), "1.0");
    assert_eq!(format_version((10, 255)), "10.255");
    assert_eq!(format_version((0, 99)), "0.99");
}
