use e57_to_las::las::{find_smallest_scale, Scale, MAX_COORDINATE_RANGE, SCALE_QUANTUM};

// The millimeter preset, in 1e-8 meter length units.
const MIN_SCALE: u64 = 100_000;

// One meter, in length units.
const METER: u64 = 100_000_000;

fn rounded_quotient(value: u64, scale: u64) -> u64 {
    (value + scale / 2) / scale
}

#[test]
fn test_find_smallest_scale_small_values() {
    // Values that fit the minimum scale return it unchanged.
    assert_eq!(find_smallest_scale(0), MIN_SCALE);
    assert_eq!(find_smallest_scale(METER), MIN_SCALE);
    assert_eq!(find_smallest_scale(1000 * METER), MIN_SCALE);
    // A negative coordinate enters by its magnitude.
    assert_eq!(find_smallest_scale(1000 * METER), MIN_SCALE);

    // The largest value that still works with the minimum scale.
    let max_with_min_scale = MAX_COORDINATE_RANGE * MIN_SCALE;
    assert_eq!(find_smallest_scale(max_with_min_scale), MIN_SCALE);
}

#[test]
fn test_find_smallest_scale_large_values() {
    // 1e10 meters needs a larger scale.
    let large_value = 10_000_000_000 * METER;
    let scale = find_smallest_scale(large_value);

    // The value fits the 32-bit range when divided by the scale.
    let scaled = rounded_quotient(large_value, scale);
    assert!(scaled <= MAX_COORDINATE_RANGE);

    // The scale lies on the quantum grid.
    assert_eq!(scale % SCALE_QUANTUM, 0);
}

#[test]
fn test_find_smallest_scale_boundary() {
    // A value just above the threshold needs more than the minimum scale.
    let just_above = MAX_COORDINATE_RANGE * MIN_SCALE + METER;
    let scale = find_smallest_scale(just_above);
    assert!(scale > MIN_SCALE);

    let scaled = rounded_quotient(just_above, scale);
    assert!(scaled <= MAX_COORDINATE_RANGE);

    // Half a minimum-scale step above the threshold.
    let half_step = MAX_COORDINATE_RANGE * MIN_SCALE + MIN_SCALE / 2;
    let s2 = find_smallest_scale(half_step);
    let scaled2 = rounded_quotient(half_step, s2);
    assert!(scaled2 <= MAX_COORDINATE_RANGE);
}

#[test]
fn test_find_smallest_scale_negative() {
    // A coordinate of -1e10 meters enters by its magnitude.
    let negative_large_magnitude = 10_000_000_000 * METER;
    let scale = find_smallest_scale(negative_large_magnitude);

    let scaled = rounded_quotient(negative_large_magnitude, scale);
    assert!(scaled <= MAX_COORDINATE_RANGE);
}

#[test]
fn test_scale_precision() {
    // Magnitudes of 2.15e9, 3.7e9, 5.5e9, 1e11 meters, as for the
    // negative coordinates of the same magnitudes.
    let test_values: [u64; 4] = [
        215_000_000_000_000_000,
        370_000_000_000_000_000,
        550_000_000_000_000_000,
        10_000_000_000_000_000_000,
    ];

    for value in test_values {
        let scale = find_smallest_scale(value);
        // The scale lies on the quantum grid.
        assert_eq!(scale % SCALE_QUANTUM, 0);

        // And meets the theoretical lower bound.
        let theoretical_min = value.div_ceil(MAX_COORDINATE_RANGE);
        assert!(
            scale >= theoretical_min,
            "Scale {} should be >= theoretical min {} for value {}",
            scale,
            theoretical_min,
            value
        );
    }
}

/// The slow reference: start at the millimeter preset and raise the scale
/// by one quantum until the magnitude fits the 32-bit range.
fn reference_scale_search(max_abs: u64) -> u64 {
    let mut scale = MIN_SCALE;
    while max_abs > MAX_COORDINATE_RANGE * scale {
        scale += SCALE_QUANTUM;
    }
    scale
}

#[test]
fn test_matches_reference_search() {
    for magnitude in [
        0u64,
        1,
        METER,
        MAX_COORDINATE_RANGE * MIN_SCALE,
        MAX_COORDINATE_RANGE * MIN_SCALE + 1,
        MAX_COORDINATE_RANGE * MIN_SCALE + MIN_SCALE / 2,
        10_000_000_000 * METER,
        215_000_000_000_000_000,
        10_000_000_000_000_000_000,
    ] {
        assert_eq!(find_smallest_scale(magnitude), reference_scale_search(magnitude));
    }
}

#[test]
fn test_resolve_millimeter_exceeds_preset() {
    // 2.15e9 meters is beyond what the millimeter preset can hold:
    // i32::MAX millimeters is only about 2.147e6 meters.
    let value = 215_000_000_000_000_000u64;
    let scale = Scale::MilliMeter.safe_value(value);
    assert!(scale > Scale::MilliMeter.value());

    // The resolved scale brings the value back into the 32-bit range.
    let scaled = rounded_quotient(value, scale);
    assert!(scaled <= MAX_COORDINATE_RANGE);
    assert_eq!(scale % SCALE_QUANTUM, 0);
}

#[test]
fn test_scale_values() {
    assert_eq!(Scale::MicroMeter.value(), 100);
    assert_eq!(Scale::MilliMeter.value(), 100_000);
    assert_eq!(Scale::CentiMeter.value(), 1_000_000);
    assert_eq!(Scale::DeciMeter.value(), 10_000_000);
    assert_eq!(Scale::Meter.value(), 100_000_000);
    assert_eq!(Scale::Degree1e7.value(), 10);
    assert_eq!(Scale::Degree1e8.value(), 1);
    assert_eq!(Scale::Custom(42).value(), 42);
    assert_eq!(Scale::default(), Scale::MilliMeter);
}

#[test]
fn test_safe_value_monotonic_samples() {
    // Resolution never shrinks as the magnitude grows.
    let mut previous = 0u64;
    for magnitude in [
        0u64,
        METER,
        MAX_COORDINATE_RANGE * MIN_SCALE,
        MAX_COORDINATE_RANGE * MIN_SCALE + 1,
        1_000_000_000_000_000_000,
        10_000_000_000_000_000_000,
    ] {
        let scale = Scale::MilliMeter.safe_value(magnitude);
        assert!(scale >= previous);
        previous = scale;
    }
}
