use crate::point::{Color, LasColor};
use vstd::arithmetic::div_mod::lemma_div_is_ordered;
use vstd::prelude::*;

verus! {

/// Fixed-point steps per unit interval: attribute values in `[0, 1]` are
/// held as counts of millionths.
pub const UNIT_ONE: u32 = 1_000_000;

/// Largest 16-bit attribute value.
pub const COLOR_MAX: u16 = 65_535;

/// `v` clamped to the unit interval.
pub open spec fn spec_clamp_unit(v: int) -> int {
    if v < 0 {
        0
    } else if v > UNIT_ONE {
        UNIT_ONE as int
    } else {
        v
    }
}

/// The 16-bit value of a unit-interval fraction: clamped, scaled to the
/// 16-bit range, and rounded to nearest.
pub open spec fn spec_f01_to_u16(v: int) -> int {
    (spec_clamp_unit(v) * (COLOR_MAX as int) + (UNIT_ONE as int) / 2) / (UNIT_ONE as int)
}

/// Map a unit-interval fraction (in millionths) to the 16-bit range,
/// clamping and rounding to nearest.
pub fn f01_to_u16(v: u32) -> (r: u16)
    ensures
        r == spec_f01_to_u16(v as int),
{
    let c: u64 = if v > UNIT_ONE {
        UNIT_ONE as u64
    } else {
        v as u64
    };
    assert(c <= 1_000_000);
    let scaled: u64 = (c * (COLOR_MAX as u64) + (UNIT_ONE as u64) / 2) / (UNIT_ONE as u64);
    assert(scaled <= 65_535);
    scaled as u16
}

/// The mapping to the 16-bit range is monotonic.
pub proof fn lemma_f01_to_u16_monotonic(v1: int, v2: int)
    requires
        v1 <= v2,
    ensures
        spec_f01_to_u16(v1) <= spec_f01_to_u16(v2),
{
    let c1 = spec_clamp_unit(v1);
    let c2 = spec_clamp_unit(v2);
    lemma_div_is_ordered(
        c1 * (COLOR_MAX as int) + (UNIT_ONE as int) / 2,
        c2 * (COLOR_MAX as int) + (UNIT_ONE as int) / 2,
        UNIT_ONE as int,
    );
}

/// The mapping sends the endpoints of the unit interval to the endpoints of
/// the 16-bit range, and never leaves that range.
pub proof fn lemma_f01_to_u16_endpoints()
    ensures
        spec_f01_to_u16(0) == 0,
        spec_f01_to_u16(UNIT_ONE as int) == COLOR_MAX as int,
        forall|v: int| 0 <= #[trigger] spec_f01_to_u16(v) <= COLOR_MAX as int,
{
    assert forall|v: int| 0 <= #[trigger] spec_f01_to_u16(v) <= COLOR_MAX as int by {
        if 0 <= v <= UNIT_ONE {
            lemma_f01_to_u16_monotonic(0, v);
            lemma_f01_to_u16_monotonic(v, UNIT_ONE as int);
        }
    }
}

/// The mapped color of a source record: channels mapped to the 16-bit range
/// when a color is present and its validity sentinel says valid, black
/// otherwise.
pub open spec fn spec_las_colors(color: Option<Color>, color_invalid: u8) -> LasColor {
    match color {
        Some(c) => {
            if color_invalid == 0 {
                LasColor {
                    red: spec_f01_to_u16(c.red as int) as u16,
                    green: spec_f01_to_u16(c.green as int) as u16,
                    blue: spec_f01_to_u16(c.blue as int) as u16,
                }
            } else {
                LasColor { red: 0, green: 0, blue: 0 }
            }
        },
        None => LasColor { red: 0, green: 0, blue: 0 },
    }
}

/// Convert a record's unit-interval color channels to 16-bit output
/// channels; an absent or invalid color becomes black rather than an error.
pub fn get_las_colors(color: &Option<Color>, color_invalid: u8) -> (r: LasColor)
    ensures
        r == spec_las_colors(*color, color_invalid),
{
    proof {
        lemma_f01_to_u16_endpoints();
    }
    match color {
        Some(c) => {
            if color_invalid == 0 {
                LasColor { red: f01_to_u16(c.red), green: f01_to_u16(c.green), blue: f01_to_u16(c.blue) }
            } else {
                LasColor { red: 0, green: 0, blue: 0 }
            }
        },
        None => LasColor { red: 0, green: 0, blue: 0 },
    }
}

/// The mapped intensity of a source record: the unit-interval mapping when
/// an intensity is present and its sentinel is zero (valid), zero otherwise.
pub open spec fn spec_las_intensity(intensity: Option<u32>, intensity_invalid: u8) -> int {
    match intensity {
        Some(i) => {
            if intensity_invalid == 0 {
                spec_f01_to_u16(i as int)
            } else {
                0
            }
        },
        None => 0,
    }
}

/// Convert a record's unit-interval intensity to the 16-bit range. A
/// sentinel of 1 marks the intensity invalid, which maps to 0.
pub fn get_las_intensity(intensity: Option<u32>, intensity_invalid: u8) -> (r: u16)
    ensures
        r == spec_las_intensity(intensity, intensity_invalid),
{
    proof {
        lemma_f01_to_u16_endpoints();
    }
    match intensity {
        Some(i) => {
            if intensity_invalid == 0 {
                f01_to_u16(i)
            } else {
                0
            }
        },
        None => 0,
    }
}

} // verus!
