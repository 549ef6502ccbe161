use crate::transform::{
    lemma_identity_apply, spec_apply_coord, Transform, Vector3, COORDINATE_LIMIT,
};
use vstd::prelude::*;

verus! {

/// The local axis-aligned bounds of one partition; any of the six scalars
/// may be absent.
#[derive(Clone, Copy, Debug, PartialEq, Eq, Structural)]
pub struct CartesianBounds {
    pub x_min: Option<i64>,
    pub x_max: Option<i64>,
    pub y_min: Option<i64>,
    pub y_max: Option<i64>,
    pub z_min: Option<i64>,
    pub z_max: Option<i64>,
}

impl CartesianBounds {
    /// All six bounds present.
    pub open spec fn is_complete(self) -> bool {
        &&& self.x_min is Some
        &&& self.x_max is Some
        &&& self.y_min is Some
        &&& self.y_max is Some
        &&& self.z_min is Some
        &&& self.z_max is Some
    }

    /// The lower corner of a complete box.
    pub open spec fn spec_local_min(self) -> Vector3
        recommends
            self.is_complete(),
    {
        Vector3 { x: self.x_min->Some_0, y: self.y_min->Some_0, z: self.z_min->Some_0 }
    }

    /// The upper corner of a complete box.
    pub open spec fn spec_local_max(self) -> Vector3
        recommends
            self.is_complete(),
    {
        Vector3 { x: self.x_max->Some_0, y: self.y_max->Some_0, z: self.z_max->Some_0 }
    }

    /// Every present bound within the transformable coordinate range.
    pub open spec fn in_range(self) -> bool {
        &&& (match self.x_min {
            Some(v) => -COORDINATE_LIMIT <= v <= COORDINATE_LIMIT,
            None => true,
        })
        &&& (match self.x_max {
            Some(v) => -COORDINATE_LIMIT <= v <= COORDINATE_LIMIT,
            None => true,
        })
        &&& (match self.y_min {
            Some(v) => -COORDINATE_LIMIT <= v <= COORDINATE_LIMIT,
            None => true,
        })
        &&& (match self.y_max {
            Some(v) => -COORDINATE_LIMIT <= v <= COORDINATE_LIMIT,
            None => true,
        })
        &&& (match self.z_min {
            Some(v) => -COORDINATE_LIMIT <= v <= COORDINATE_LIMIT,
            None => true,
        })
        &&& (match self.z_max {
            Some(v) => -COORDINATE_LIMIT <= v <= COORDINATE_LIMIT,
            None => true,
        })
    }
}

/// One partition of the source dataset: its identity, record count,
/// attribute flags, local bounds and optional rigid transform, as the
/// source container describes them.
#[derive(Clone, Copy, Debug, PartialEq, Eq, Structural)]
pub struct PointCloud {
    /// The number of records the partition holds.
    pub records: u64,
    /// The partition's rigid transform into the common frame; absent means
    /// identity.
    pub transform: Option<Transform>,
    /// The partition's local axis-aligned bounds, where known.
    pub cartesian_bounds: Option<CartesianBounds>,
    /// Whether the partition's records carry color.
    pub has_color: bool,
    /// Whether the partition's records carry timestamps.
    pub has_timestamp: bool,
    /// The partition's acquisition-start time reference, in the shell's
    /// time units.
    pub acquisition_start: Option<i64>,
}

impl PointCloud {
    /// A usable partition: its transform (if any) is valid and its known
    /// bounds are in the transformable range.
    pub open spec fn is_valid(self) -> bool {
        &&& (match self.transform {
            Some(t) => t.is_valid(),
            None => true,
        })
        &&& (match self.cartesian_bounds {
            Some(b) => b.in_range(),
            None => true,
        })
    }

    /// Whether this partition can contribute bounds: all six local bounds
    /// are present.
    pub open spec fn has_complete_bounds(self) -> bool {
        match self.cartesian_bounds {
            Some(b) => b.is_complete(),
            None => false,
        }
    }
}

/// The smaller of two values.
pub open spec fn spec_min2(a: int, b: int) -> int {
    if a <= b {
        a
    } else {
        b
    }
}

/// The larger of two values.
pub open spec fn spec_max2(a: int, b: int) -> int {
    if a >= b {
        a
    } else {
        b
    }
}

/// One coordinate of a vector, selected by axis number.
pub open spec fn spec_axis(v: Vector3, a: int) -> int
    recommends
        0 <= a < 3,
{
    if a == 0 {
        v.x as int
    } else if a == 1 {
        v.y as int
    } else {
        v.z as int
    }
}

/// Corner `i` (0 to 7) of the box spanned by `mn` and `mx`: bit 2 of `i`
/// selects the upper x, bit 1 the upper y, bit 0 the upper z.
pub open spec fn spec_corner(mn: Vector3, mx: Vector3, i: int) -> Vector3
    recommends
        0 <= i < 8,
{
    Vector3 {
        x: if i / 4 % 2 == 1 {
            mx.x
        } else {
            mn.x
        },
        y: if i / 2 % 2 == 1 {
            mx.y
        } else {
            mn.y
        },
        z: if i % 2 == 1 {
            mx.z
        } else {
            mn.z
        },
    }
}

/// Coordinate `a` of corner `i` of the box, carried through the transform.
pub open spec fn spec_transformed_corner(t: Transform, mn: Vector3, mx: Vector3, i: int, a: int) -> int
    recommends
        0 <= i < 8,
        0 <= a < 3,
{
    spec_apply_coord(t, spec_corner(mn, mx, i), a)
}

/// The least coordinate `a` over all eight transformed corners of the box.
pub open spec fn spec_gmin_axis(t: Transform, mn: Vector3, mx: Vector3, a: int) -> int
    recommends
        0 <= a < 3,
{
    spec_min2(
        spec_transformed_corner(t, mn, mx, 0, a),
        spec_min2(
            spec_transformed_corner(t, mn, mx, 1, a),
            spec_min2(
                spec_transformed_corner(t, mn, mx, 2, a),
                spec_min2(
                    spec_transformed_corner(t, mn, mx, 3, a),
                    spec_min2(
                        spec_transformed_corner(t, mn, mx, 4, a),
                        spec_min2(
                            spec_transformed_corner(t, mn, mx, 5, a),
                            spec_min2(
                                spec_transformed_corner(t, mn, mx, 6, a),
                                spec_transformed_corner(t, mn, mx, 7, a),
                            ),
                        ),
                    ),
                ),
            ),
        ),
    )
}

/// The greatest coordinate `a` over all eight transformed corners of the
/// box.
pub open spec fn spec_gmax_axis(t: Transform, mn: Vector3, mx: Vector3, a: int) -> int
    recommends
        0 <= a < 3,
{
    spec_max2(
        spec_transformed_corner(t, mn, mx, 0, a),
        spec_max2(
            spec_transformed_corner(t, mn, mx, 1, a),
            spec_max2(
                spec_transformed_corner(t, mn, mx, 2, a),
                spec_max2(
                    spec_transformed_corner(t, mn, mx, 3, a),
                    spec_max2(
                        spec_transformed_corner(t, mn, mx, 4, a),
                        spec_max2(
                            spec_transformed_corner(t, mn, mx, 5, a),
                            spec_max2(
                                spec_transformed_corner(t, mn, mx, 6, a),
                                spec_transformed_corner(t, mn, mx, 7, a),
                            ),
                        ),
                    ),
                ),
            ),
        ),
    )
}

/// A partition's bounds in the common coordinate frame: the local box where
/// the partition carries no transform, otherwise the tight box around its
/// eight transformed corners; `None` where any local bound is absent.
pub open spec fn spec_global_bounds(pc: PointCloud) -> Option<(Vector3, Vector3)> {
    if !pc.has_complete_bounds() {
        None
    } else {
        let mn = pc.cartesian_bounds->Some_0.spec_local_min();
        let mx = pc.cartesian_bounds->Some_0.spec_local_max();
        match pc.transform {
            None => Some((mn, mx)),
            Some(t) => Some(
                (
                    Vector3 {
                        x: spec_gmin_axis(t, mn, mx, 0) as i64,
                        y: spec_gmin_axis(t, mn, mx, 1) as i64,
                        z: spec_gmin_axis(t, mn, mx, 2) as i64,
                    },
                    Vector3 {
                        x: spec_gmax_axis(t, mn, mx, 0) as i64,
                        y: spec_gmax_axis(t, mn, mx, 1) as i64,
                        z: spec_gmax_axis(t, mn, mx, 2) as i64,
                    },
                ),
            ),
        }
    }
}

/// The bounds of a valid partition stay within the transformed coordinate
/// range, axis by axis.
#[verifier::spinoff_prover]
#[verifier::rlimit(100)]
pub proof fn lemma_global_bounds_in_range(pc: PointCloud)
    requires
        pc.is_valid(),
        spec_global_bounds(pc) is Some,
    ensures
        ({
            let (gmn, gmx) = spec_global_bounds(pc)->Some_0;
            &&& -13 * (COORDINATE_LIMIT as int) <= gmn.x <= 13 * (COORDINATE_LIMIT as int)
            &&& -13 * (COORDINATE_LIMIT as int) <= gmn.y <= 13 * (COORDINATE_LIMIT as int)
            &&& -13 * (COORDINATE_LIMIT as int) <= gmn.z <= 13 * (COORDINATE_LIMIT as int)
            &&& -13 * (COORDINATE_LIMIT as int) <= gmx.x <= 13 * (COORDINATE_LIMIT as int)
            &&& -13 * (COORDINATE_LIMIT as int) <= gmx.y <= 13 * (COORDINATE_LIMIT as int)
            &&& -13 * (COORDINATE_LIMIT as int) <= gmx.z <= 13 * (COORDINATE_LIMIT as int)
        }),
{
    let mn = pc.cartesian_bounds->Some_0.spec_local_min();
    let mx = pc.cartesian_bounds->Some_0.spec_local_max();
    match pc.transform {
        None => {},
        Some(t) => {
            assert forall|i: int, a: int| 0 <= i < 8 && 0 <= a < 3 implies -13 * (
            COORDINATE_LIMIT as int) <= #[trigger] spec_transformed_corner(t, mn, mx, i, a) <= 13
                * (COORDINATE_LIMIT as int) by {
                crate::transform::lemma_apply_coord_in_range(t, spec_corner(mn, mx, i), a);
            }
        },
    }
}

/// The smaller of two coordinates.
pub fn min_i64(a: i64, b: i64) -> (r: i64)
    ensures
        r as int == spec_min2(a as int, b as int),
{
    if a <= b {
        a
    } else {
        b
    }
}

/// The larger of two coordinates.
pub fn max_i64(a: i64, b: i64) -> (r: i64)
    ensures
        r as int == spec_max2(a as int, b as int),
{
    if a >= b {
        a
    } else {
        b
    }
}

impl PointCloud {
    /// The partition's bounds in the common coordinate frame: the local box
    /// when the partition carries no transform, otherwise the tight box
    /// around the eight transformed corners of the local box. `None`
    /// exactly when any local bound is absent.
    #[verifier::spinoff_prover]
    #[verifier::rlimit(100)]
    pub fn global_bounds(&self) -> (r: Option<(Vector3, Vector3)>)
        requires
            self.is_valid(),
        ensures
            r == spec_global_bounds(*self),
            r is Some <==> self.has_complete_bounds(),
            (self.has_complete_bounds() && self.transform is None) ==> r == Some(
                (
                    self.cartesian_bounds->Some_0.spec_local_min(),
                    self.cartesian_bounds->Some_0.spec_local_max(),
                ),
            ),
            (self.has_complete_bounds() && self.transform is Some) ==> {
                let t = self.transform->Some_0;
                let mn = self.cartesian_bounds->Some_0.spec_local_min();
                let mx = self.cartesian_bounds->Some_0.spec_local_max();
                forall|a: int|
                    0 <= a < 3 ==> #[trigger] spec_axis(r->Some_0.0, a) == spec_gmin_axis(
                        t,
                        mn,
                        mx,
                        a,
                    ) && spec_axis(r->Some_0.1, a) == spec_gmax_axis(t, mn, mx, a)
            },
    {
        let b = match self.cartesian_bounds {
            Some(b) => b,
            None => {
                return None;
            },
        };
        let xmin = match b.x_min {
            Some(v) => v,
            None => {
                return None;
            },
        };
        let xmax = match b.x_max {
            Some(v) => v,
            None => {
                return None;
            },
        };
        let ymin = match b.y_min {
            Some(v) => v,
            None => {
                return None;
            },
        };
        let ymax = match b.y_max {
            Some(v) => v,
            None => {
                return None;
            },
        };
        let zmin = match b.z_min {
            Some(v) => v,
            None => {
                return None;
            },
        };
        let zmax = match b.z_max {
            Some(v) => v,
            None => {
                return None;
            },
        };
        let local_min = Vector3 { x: xmin, y: ymin, z: zmin };
        let local_max = Vector3 { x: xmax, y: ymax, z: zmax };
        let t = match self.transform {
            Some(t) => t,
            None => {
                return Some((local_min, local_max));
            },
        };
        let c0 = t.apply(Vector3 { x: xmin, y: ymin, z: zmin });
        let c1 = t.apply(Vector3 { x: xmin, y: ymin, z: zmax });
        let c2 = t.apply(Vector3 { x: xmin, y: ymax, z: zmin });
        let c3 = t.apply(Vector3 { x: xmin, y: ymax, z: zmax });
        let c4 = t.apply(Vector3 { x: xmax, y: ymin, z: zmin });
        let c5 = t.apply(Vector3 { x: xmax, y: ymin, z: zmax });
        let c6 = t.apply(Vector3 { x: xmax, y: ymax, z: zmin });
        let c7 = t.apply(Vector3 { x: xmax, y: ymax, z: zmax });
        let gmin = Vector3 {
            x: min_i64(
                c0.x,
                min_i64(
                    c1.x,
                    min_i64(c2.x, min_i64(c3.x, min_i64(c4.x, min_i64(c5.x, min_i64(c6.x, c7.x))))),
                ),
            ),
            y: min_i64(
                c0.y,
                min_i64(
                    c1.y,
                    min_i64(c2.y, min_i64(c3.y, min_i64(c4.y, min_i64(c5.y, min_i64(c6.y, c7.y))))),
                ),
            ),
            z: min_i64(
                c0.z,
                min_i64(
                    c1.z,
                    min_i64(c2.z, min_i64(c3.z, min_i64(c4.z, min_i64(c5.z, min_i64(c6.z, c7.z))))),
                ),
            ),
        };
        let gmax = Vector3 {
            x: max_i64(
                c0.x,
                max_i64(
                    c1.x,
                    max_i64(c2.x, max_i64(c3.x, max_i64(c4.x, max_i64(c5.x, max_i64(c6.x, c7.x))))),
                ),
            ),
            y: max_i64(
                c0.y,
                max_i64(
                    c1.y,
                    max_i64(c2.y, max_i64(c3.y, max_i64(c4.y, max_i64(c5.y, max_i64(c6.y, c7.y))))),
                ),
            ),
            z: max_i64(
                c0.z,
                max_i64(
                    c1.z,
                    max_i64(c2.z, max_i64(c3.z, max_i64(c4.z, max_i64(c5.z, max_i64(c6.z, c7.z))))),
                ),
            ),
        };
        Some((gmin, gmax))
    }
}

/// Transforming a partition's local box by the identity transform yields
/// the local box again: over the corners of an ordered box, the least and
/// greatest coordinates are the box's own bounds.
pub proof fn lemma_identity_bounds(mn: Vector3, mx: Vector3)
    requires
        mn.x <= mx.x,
        mn.y <= mx.y,
        mn.z <= mx.z,
    ensures
        forall|a: int|
            0 <= a < 3 ==> #[trigger] spec_gmin_axis(Transform::spec_identity(), mn, mx, a)
                == spec_axis(mn, a) && spec_gmax_axis(Transform::spec_identity(), mn, mx, a)
                == spec_axis(mx, a),
{
    lemma_identity_apply(spec_corner(mn, mx, 0));
    lemma_identity_apply(spec_corner(mn, mx, 1));
    lemma_identity_apply(spec_corner(mn, mx, 2));
    lemma_identity_apply(spec_corner(mn, mx, 3));
    lemma_identity_apply(spec_corner(mn, mx, 4));
    lemma_identity_apply(spec_corner(mn, mx, 5));
    lemma_identity_apply(spec_corner(mn, mx, 6));
    lemma_identity_apply(spec_corner(mn, mx, 7));
}

} // verus!
