use crate::transform::{lemma_rounded_div_bound, spec_rounded_div};
use vstd::arithmetic::div_mod::{lemma_div_is_ordered, lemma_fundamental_div_mod};
use vstd::prelude::*;

verus! {

/// Fixed-point length units per meter: every length in this library counts
/// units of 1e-8 meters.
pub const UNITS_PER_METER: u64 = 100_000_000;

/// Largest magnitude a quantized coordinate may take: i32::MAX.
pub const MAX_COORDINATE_RANGE: u64 = 2_147_483_647;

/// The quantization step for resolved scales: 1e-4 meters in length units.
pub const SCALE_QUANTUM: u64 = 10_000;

/// A quantization scale for coordinates. Each named preset stands for a
/// fixed count of 1e-8 meter units; `Custom` carries such a count directly.
#[derive(Clone, Copy, Debug, PartialEq, Eq, Structural)]
pub enum Scale {
    MicroMeter,
    MilliMeter,
    CentiMeter,
    DeciMeter,
    Meter,
    Degree1e7,
    Degree1e8,
    Custom(u64),
}

/// Least integer at or above `a / b`, for positive `b` and nonnegative `a`.
pub open spec fn ceil_div(a: int, b: int) -> int
    recommends
        a >= 0,
        b > 0,
{
    (a + b - 1) / b
}

/// Least multiple of the scale quantum at or above `s`.
pub open spec fn quantize_up(s: int) -> int
    recommends
        s >= 0,
{
    ceil_div(s, SCALE_QUANTUM as int) * (SCALE_QUANTUM as int)
}

/// The resolved scale for a preset of `preset` units and a maximum absolute
/// coordinate of `max_abs` units: the preset itself when every coordinate
/// already fits the 32-bit range at it; otherwise the least scale needed,
/// rounded up to the scale quantum, and never below the preset.
pub open spec fn spec_safe_value(preset: int, max_abs: int) -> int
    recommends
        preset > 0,
        max_abs >= 0,
{
    if max_abs <= MAX_COORDINATE_RANGE * preset {
        preset
    } else {
        let quantized = quantize_up(ceil_div(max_abs, MAX_COORDINATE_RANGE as int));
        if quantized >= preset {
            quantized
        } else {
            preset
        }
    }
}

impl Scale {
    /// The scale's count of 1e-8 meter units.
    pub open spec fn spec_value(self) -> u64 {
        match self {
            Scale::MicroMeter => 100,
            Scale::MilliMeter => 100_000,
            Scale::CentiMeter => 1_000_000,
            Scale::DeciMeter => 10_000_000,
            Scale::Meter => 100_000_000,
            Scale::Degree1e7 => 10,
            Scale::Degree1e8 => 1,
            Scale::Custom(v) => v,
        }
    }

    /// A scale is usable when it is positive; only `Custom` can break this.
    pub open spec fn is_valid(self) -> bool {
        self.spec_value() > 0
    }

    pub fn value(&self) -> (v: u64)
        ensures
            v == self.spec_value(),
    {
        match self {
            Scale::MicroMeter => 100,
            Scale::MilliMeter => 100_000,
            Scale::CentiMeter => 1_000_000,
            Scale::DeciMeter => 10_000_000,
            Scale::Meter => 100_000_000,
            Scale::Degree1e7 => 10,
            Scale::Degree1e8 => 1,
            Scale::Custom(v) => *v,
        }
    }

    /// Resolve this scale against the maximum absolute coordinate of the
    /// dataset (in 1e-8 meter units): the returned scale is never below the
    /// preset, and dividing `max_abs` by it stays within the 32-bit range.
    pub fn safe_value(&self, max_abs: u64) -> (s: u64)
        requires
            self.is_valid(),
        ensures
            s == spec_safe_value(self.spec_value() as int, max_abs as int),
            s >= self.spec_value(),
            s > 0,
            max_abs <= MAX_COORDINATE_RANGE * s,
            spec_rounded_div(max_abs as int, s as int) <= MAX_COORDINATE_RANGE,
    {
        let preset = self.value();
        if (max_abs as u128) <= (MAX_COORDINATE_RANGE as u128) * (preset as u128) {
            proof {
                lemma_rounded_div_bound(max_abs as int, preset as int, MAX_COORDINATE_RANGE as int);
            }
            preset
        } else {
            let smin: u64 = (max_abs - 1) / MAX_COORDINATE_RANGE + 1;
            proof {
                lemma_ceil_div_shift(max_abs as int, MAX_COORDINATE_RANGE as int);
                lemma_ceil_div_fits(max_abs as int, MAX_COORDINATE_RANGE as int);
            }
            let quantized: u64 = ((smin - 1) / SCALE_QUANTUM + 1) * SCALE_QUANTUM;
            proof {
                lemma_ceil_div_shift(smin as int, SCALE_QUANTUM as int);
                lemma_ceil_div_fits(smin as int, SCALE_QUANTUM as int);
            }
            if quantized >= preset {
                proof {
                    lemma_rounded_div_bound(
                        max_abs as int,
                        quantized as int,
                        MAX_COORDINATE_RANGE as int,
                    );
                }
                quantized
            } else {
                proof {
                    lemma_rounded_div_bound(
                        max_abs as int,
                        preset as int,
                        MAX_COORDINATE_RANGE as int,
                    );
                }
                preset
            }
        }
    }
}

impl Default for Scale {
    fn default() -> (s: Self)
        ensures
            s == Scale::MilliMeter,
    {
        Scale::MilliMeter
    }
}

/// The smallest scale at which a magnitude of `max_abs` length units
/// survives 32-bit quantization, never below the millimeter preset.
pub fn find_smallest_scale(max_abs: u64) -> (s: u64)
    ensures
        s == spec_safe_value(Scale::MilliMeter.spec_value() as int, max_abs as int),
{
    Scale::MilliMeter.safe_value(max_abs)
}

/// For positive `a` and `b`, the ceiling of `a / b` can be computed without
/// widening as `(a - 1) / b + 1`.
proof fn lemma_ceil_div_shift(a: int, b: int)
    requires
        a >= 1,
        b >= 1,
    ensures
        ceil_div(a, b) == (a - 1) / b + 1,
{
    lemma_fundamental_div_mod(a - 1, b);
    lemma_fundamental_div_mod(a + b - 1, b);
    assert((a + b - 1) / b == (a - 1) / b + 1) by {
        let q = (a - 1) / b;
        let r = (a - 1) % b;
        assert(a + b - 1 == b * (q + 1) + r) by (nonlinear_arith)
            requires
                a - 1 == b * q + r,
        ;
        lemma_fundamental_div_mod(a + b - 1, b);
        vstd::arithmetic::div_mod::lemma_div_multiples_vanish_fancy(q + 1, r, b);
    }
}

/// `b * ceil_div(a, b)` is at least `a`, and below `a + b`.
proof fn lemma_ceil_div_fits(a: int, b: int)
    requires
        a >= 0,
        b >= 1,
    ensures
        a <= b * ceil_div(a, b),
        b * ceil_div(a, b) < a + b,
        ceil_div(a, b) >= 0,
{
    lemma_fundamental_div_mod(a + b - 1, b);
    vstd::arithmetic::div_mod::lemma_div_pos_is_pos(a + b - 1, b);
}

/// The resolved scale is exactly what an increment search from the preset by
/// the scale quantum would find: it lies on the preset's quantum grid, the
/// quantized maximum coordinate fits the 32-bit range at it, and no smaller
/// scale on that grid fits.
pub proof fn lemma_safe_value_matches_search(preset: int, max_abs: int, candidate: int)
    requires
        preset > 0,
        preset % (SCALE_QUANTUM as int) == 0,
        max_abs >= 0,
        candidate >= preset,
        candidate % (SCALE_QUANTUM as int) == 0,
        max_abs <= MAX_COORDINATE_RANGE * candidate,
    ensures
        spec_safe_value(preset, max_abs) <= candidate,
        spec_safe_value(preset, max_abs) % (SCALE_QUANTUM as int) == 0,
        max_abs <= MAX_COORDINATE_RANGE * spec_safe_value(preset, max_abs),
{
    let range = MAX_COORDINATE_RANGE as int;
    let quantum = SCALE_QUANTUM as int;
    if max_abs <= range * preset {
    } else {
        let c = ceil_div(max_abs, range);
        let q = quantize_up(c);
        lemma_ceil_div_fits(max_abs, range);
        lemma_ceil_div_fits(c, quantum);
        // The result fits: range * q >= range * c >= max_abs.
        assert(range * q >= range * c) by (nonlinear_arith)
            requires
                q >= c,
                range > 0,
        ;
        // The result lies on the quantum grid.
        assert(q % quantum == 0) by {
            vstd::arithmetic::div_mod::lemma_mod_multiples_basic(ceil_div(c, quantum), quantum);
        }
        // Minimality: the candidate is at least the quantized least scale.
        lemma_fundamental_div_mod(max_abs - 1, range);
        assert(candidate >= c) by {
            if candidate < c {
                lemma_ceil_div_shift(max_abs, range);
                assert(candidate <= (max_abs - 1) / range);
                assert(range * candidate <= range * ((max_abs - 1) / range)) by (nonlinear_arith)
                    requires
                        candidate <= (max_abs - 1) / range,
                        range > 0,
                ;
            }
        }
        assert(candidate >= q) by {
            let m = candidate / quantum;
            lemma_fundamental_div_mod(candidate, quantum);
            assert(candidate == quantum * m);
            lemma_ceil_div_shift(c, quantum);
            lemma_fundamental_div_mod(c - 1, quantum);
            if m < ceil_div(c, quantum) {
                assert(m <= (c - 1) / quantum);
                assert(quantum * m <= quantum * ((c - 1) / quantum)) by (nonlinear_arith)
                    requires
                        m <= (c - 1) / quantum,
                        quantum > 0,
                ;
                assert(candidate <= c - 1 - ((c - 1) % quantum));
            }
            assert(m >= ceil_div(c, quantum));
            assert(quantum * m >= quantum * ceil_div(c, quantum)) by (nonlinear_arith)
                requires
                    m >= ceil_div(c, quantum),
                    quantum > 0,
            ;
            assert(q == ceil_div(c, quantum) * quantum);
        }
    }
}

/// Resolving is monotonic: a larger maximum coordinate never yields a
/// smaller scale.
pub proof fn lemma_safe_value_monotonic(preset: int, max_abs1: int, max_abs2: int)
    requires
        preset > 0,
        0 <= max_abs1 <= max_abs2,
    ensures
        spec_safe_value(preset, max_abs1) <= spec_safe_value(preset, max_abs2),
{
    let range = MAX_COORDINATE_RANGE as int;
    let quantum = SCALE_QUANTUM as int;
    if max_abs1 <= range * preset {
        if max_abs2 <= range * preset {
        } else {
        }
    } else {
        let c1 = ceil_div(max_abs1, range);
        let c2 = ceil_div(max_abs2, range);
        lemma_div_is_ordered(max_abs1 + range - 1, max_abs2 + range - 1, range);
        assert(c1 <= c2);
        lemma_div_is_ordered(c1 + quantum - 1, c2 + quantum - 1, quantum);
        assert(ceil_div(c1, quantum) <= ceil_div(c2, quantum));
        assert(quantize_up(c1) <= quantize_up(c2)) by (nonlinear_arith)
            requires
                ceil_div(c1, quantum) <= ceil_div(c2, quantum),
                quantum > 0,
                quantize_up(c1) == ceil_div(c1, quantum) * quantum,
                quantize_up(c2) == ceil_div(c2, quantum) * quantum,
        ;
    }
}

} // verus!
