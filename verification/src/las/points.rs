use crate::point::LasPoint;
use crate::pointcloud::spec_max2;
use vstd::prelude::*;

verus! {

/// Whether any record of the prefix carries a color.
pub open spec fn spec_points_have_color(s: Seq<LasPoint>) -> bool {
    exists|i: int| 0 <= i < s.len() && #[trigger] s[i].color is Some
}

/// The largest coordinate magnitude over the records, in length units:
/// zero for no records.
pub open spec fn spec_max_abs_cartesian(s: Seq<LasPoint>) -> int
    decreases s.len(),
{
    if s.len() == 0 {
        0int
    } else {
        spec_max2(
            spec_max_abs_cartesian(s.drop_last()),
            spec_max2(
                spec_abs_i64(s.last().x),
                spec_max2(spec_abs_i64(s.last().y), spec_abs_i64(s.last().z)),
            ),
        )
    }
}

/// The magnitude of a coordinate.
pub open spec fn spec_abs_i64(v: i64) -> int {
    if v >= 0 {
        v as int
    } else {
        -(v as int)
    }
}

/// Utilities over a batch of converted records, used when a header must be
/// derived from the records themselves rather than from partition metadata.
pub trait LasPointsExt {
    /// Whether any record of the batch carries a color.
    fn x_has_color(&self) -> bool;

    /// The largest coordinate magnitude over the batch, in length units;
    /// zero for an empty batch. Resolving a scale against it keeps every
    /// quantized coordinate of the batch in the 32-bit range.
    fn x_max_cartesian(&self) -> u64;
}

impl LasPointsExt for Vec<LasPoint> {
    /// Whether any record of the batch carries a color.
    fn x_has_color(&self) -> (r: bool)
        ensures
            r == spec_points_have_color(self@),
    {
        let mut i: usize = 0;
        while i < self.len()
            invariant
                0 <= i <= self@.len(),
                !spec_points_have_color(self@.take(i as int)),
            decreases self@.len() - i,
        {
            proof {
                assert(self@.take(i + 1int).drop_last() =~= self@.take(i as int));
            }
            if self[i].color.is_some() {
                proof {
                    assert(self@[i as int].color is Some);
                }
                return true;
            }
            proof {
                assert forall|j: int| 0 <= j < i + 1 implies !(#[trigger] self@.take(i + 1int)[j].color
                    is Some) by {
                    if j < i {
                        assert(self@.take(i as int)[j] == self@.take(i + 1int)[j]);
                    }
                }
            }
            i = i + 1;
        }
        proof {
            assert(self@.take(self@.len() as int) =~= self@);
        }
        false
    }

    /// The largest coordinate magnitude over the batch, in length units.
    fn x_max_cartesian(&self) -> (r: u64)
        ensures
            r as int == spec_max_abs_cartesian(self@),
    {
        let mut m: u64 = 0;
        let mut i: usize = 0;
        proof {
            assert(self@.take(0int) =~= Seq::<LasPoint>::empty());
        }
        while i < self.len()
            invariant
                0 <= i <= self@.len(),
                m as int == spec_max_abs_cartesian(self@.take(i as int)),
            decreases self@.len() - i,
        {
            proof {
                assert(self@.take(i + 1int).drop_last() =~= self@.take(i as int));
                assert(self@.take(i + 1int).last() == self@[i as int]);
            }
            let p = &self[i];
            let ax = abs_i64(p.x);
            let ay = abs_i64(p.y);
            let az = abs_i64(p.z);
            m = max_u64(m, max_u64(ax, max_u64(ay, az)));
            i = i + 1;
        }
        proof {
            assert(self@.take(self@.len() as int) =~= self@);
        }
        m
    }
}

/// The magnitude of a coordinate, widened so the smallest value needs no
/// special case.
fn abs_i64(v: i64) -> (r: u64)
    ensures
        r as int == spec_abs_i64(v),
{
    if v >= 0 {
        v as u64
    } else if v == i64::MIN {
        9_223_372_036_854_775_808u64
    } else {
        (-v) as u64
    }
}

/// The larger of two magnitudes.
fn max_u64(a: u64, b: u64) -> (r: u64)
    ensures
        r as int == spec_max2(a as int, b as int),
{
    if a >= b {
        a
    } else {
        b
    }
}

} // verus!
