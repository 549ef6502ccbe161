use vstd::arithmetic::div_mod::{
    lemma_div_is_ordered, lemma_div_multiples_vanish_fancy, lemma_fundamental_div_mod,
};
use vstd::prelude::*;

verus! {

/// Fixed-point one for rotation components: a quaternion component counts
/// millionths.
pub const ROTATION_ONE: i64 = 1_000_000;

/// Allowed deviation of a quaternion's squared norm from one (in squared
/// fixed-point units): slightly denormalized rotations are accepted, the
/// shell re-normalizes before building them.
pub const NORM_TOLERANCE: i64 = 1_000_000_000;

/// Largest coordinate magnitude (in 1e-8 meter units) that may enter a
/// rigid transform: 1e9 meters, far beyond any scan.
pub const COORDINATE_LIMIT: i64 = 100_000_000_000_000_000;

/// A point or translation in 1e-8 meter length units.
#[derive(Clone, Copy, Debug, PartialEq, Eq, Structural)]
pub struct Vector3 {
    pub x: i64,
    pub y: i64,
    pub z: i64,
}

/// A translation in 1e-8 meter length units.
#[derive(Clone, Copy, Debug, PartialEq, Eq, Structural)]
pub struct Translation {
    pub x: i64,
    pub y: i64,
    pub z: i64,
}

/// A rotation quaternion `(w, x, y, z)` in millionths.
#[derive(Clone, Copy, Debug, PartialEq, Eq, Structural)]
pub struct Quaternion {
    pub w: i64,
    pub x: i64,
    pub y: i64,
    pub z: i64,
}

/// A rigid transform: rotate by the quaternion, then translate.
#[derive(Clone, Copy, Debug, PartialEq, Eq, Structural)]
pub struct Transform {
    pub rotation: Quaternion,
    pub translation: Translation,
}

impl Vector3 {
    /// Every coordinate within the transformable range.
    pub open spec fn in_range(self) -> bool {
        &&& -COORDINATE_LIMIT <= self.x <= COORDINATE_LIMIT
        &&& -COORDINATE_LIMIT <= self.y <= COORDINATE_LIMIT
        &&& -COORDINATE_LIMIT <= self.z <= COORDINATE_LIMIT
    }
}

impl Translation {
    /// Every coordinate within the transformable range.
    pub open spec fn in_range(self) -> bool {
        &&& -COORDINATE_LIMIT <= self.x <= COORDINATE_LIMIT
        &&& -COORDINATE_LIMIT <= self.y <= COORDINATE_LIMIT
        &&& -COORDINATE_LIMIT <= self.z <= COORDINATE_LIMIT
    }
}

impl Quaternion {
    /// The squared norm of the quaternion, in squared fixed-point units.
    pub open spec fn norm_squared(self) -> int {
        self.w * self.w + self.x * self.x + self.y * self.y + self.z * self.z
    }

    /// A usable rotation: every component within fixed-point one and the
    /// squared norm within tolerance of one.
    pub open spec fn is_normalized(self) -> bool {
        &&& -ROTATION_ONE <= self.w <= ROTATION_ONE
        &&& -ROTATION_ONE <= self.x <= ROTATION_ONE
        &&& -ROTATION_ONE <= self.y <= ROTATION_ONE
        &&& -ROTATION_ONE <= self.z <= ROTATION_ONE
        &&& ROTATION_ONE * ROTATION_ONE - NORM_TOLERANCE <= self.norm_squared() <= ROTATION_ONE
            * ROTATION_ONE + NORM_TOLERANCE
    }

    /// The identity rotation.
    pub open spec fn spec_identity() -> Quaternion {
        Quaternion { w: ROTATION_ONE, x: 0, y: 0, z: 0 }
    }
}

/// Quotient of `a / d` rounded to the nearest integer, halves away from
/// zero.
pub open spec fn spec_rounded_div(a: int, d: int) -> int
    recommends
        d > 0,
{
    if a >= 0 {
        (a + d / 2) / d
    } else {
        -((-a + d / 2) / d)
    }
}

/// The rotation matrix of a quaternion, scaled by `ROTATION_ONE^2`: entry
/// `(r, c)` of the standard quaternion-to-matrix formula.
pub open spec fn spec_rot_entry(q: Quaternion, r: int, c: int) -> int
    recommends
        0 <= r < 3,
        0 <= c < 3,
{
    let one = ROTATION_ONE * ROTATION_ONE;
    if r == 0 && c == 0 {
        one - 2 * (q.y * q.y + q.z * q.z)
    } else if r == 0 && c == 1 {
        2 * (q.x * q.y - q.z * q.w)
    } else if r == 0 && c == 2 {
        2 * (q.x * q.z + q.y * q.w)
    } else if r == 1 && c == 0 {
        2 * (q.x * q.y + q.z * q.w)
    } else if r == 1 && c == 1 {
        one - 2 * (q.x * q.x + q.z * q.z)
    } else if r == 1 && c == 2 {
        2 * (q.y * q.z - q.x * q.w)
    } else if r == 2 && c == 0 {
        2 * (q.x * q.z - q.y * q.w)
    } else if r == 2 && c == 1 {
        2 * (q.y * q.z + q.x * q.w)
    } else {
        one - 2 * (q.x * q.x + q.y * q.y)
    }
}

/// One coordinate of the rotated point: the matrix row applied to the
/// point, rounded back to length units.
pub open spec fn spec_rotate_coord(q: Quaternion, v: Vector3, r: int) -> int
    recommends
        0 <= r < 3,
{
    spec_rounded_div(
        spec_rot_entry(q, r, 0) * v.x + spec_rot_entry(q, r, 1) * v.y + spec_rot_entry(q, r, 2)
            * v.z,
        ROTATION_ONE * ROTATION_ONE,
    )
}

/// The transformed point: rotated, then translated, coordinate by
/// coordinate.
pub open spec fn spec_apply_coord(t: Transform, v: Vector3, r: int) -> int
    recommends
        0 <= r < 3,
{
    spec_rotate_coord(t.rotation, v, r) + (if r == 0 {
        t.translation.x as int
    } else if r == 1 {
        t.translation.y as int
    } else {
        t.translation.z as int
    })
}

/// The product of two values is bounded by the product of their bounds.
proof fn lemma_mul_bound(a: int, b: int, ca: int, cb: int)
    by (nonlinear_arith)
    requires
        -ca <= a <= ca,
        -cb <= b <= cb,
        ca >= 0,
        cb >= 0,
    ensures
        -(ca * cb) <= a * b <= ca * cb,
{
}

/// Every entry of the scaled rotation matrix of a normalized quaternion is
/// bounded by four times the squared fixed-point one.
proof fn lemma_rot_entry_bound(q: Quaternion, r: int, c: int)
    requires
        q.is_normalized(),
        0 <= r < 3,
        0 <= c < 3,
    ensures
        -4 * (ROTATION_ONE * ROTATION_ONE) <= spec_rot_entry(q, r, c) <= 4 * (ROTATION_ONE
            * ROTATION_ONE),
{
    let one = ROTATION_ONE as int;
    lemma_mul_bound(q.w as int, q.w as int, one, one);
    lemma_mul_bound(q.x as int, q.x as int, one, one);
    lemma_mul_bound(q.y as int, q.y as int, one, one);
    lemma_mul_bound(q.z as int, q.z as int, one, one);
    lemma_mul_bound(q.x as int, q.y as int, one, one);
    lemma_mul_bound(q.x as int, q.z as int, one, one);
    lemma_mul_bound(q.x as int, q.w as int, one, one);
    lemma_mul_bound(q.y as int, q.z as int, one, one);
    lemma_mul_bound(q.y as int, q.w as int, one, one);
    lemma_mul_bound(q.z as int, q.w as int, one, one);
}

/// A rounded quotient of a value bounded by `k` multiples of the divisor is
/// bounded by `k`.
pub(crate) proof fn lemma_rounded_div_bound(a: int, d: int, k: int)
    requires
        d > 0,
        k >= 0,
        -(k * d) <= a <= k * d,
    ensures
        -k <= spec_rounded_div(a, d) <= k,
{
    if a >= 0 {
        lemma_div_is_ordered(a + d / 2, k * d + d / 2, d);
        lemma_div_multiples_vanish_fancy(k, d / 2, d);
        assert(d * k == k * d) by (nonlinear_arith);
        vstd::arithmetic::div_mod::lemma_div_pos_is_pos(a + d / 2, d);
    } else {
        lemma_div_is_ordered(-a + d / 2, k * d + d / 2, d);
        lemma_div_multiples_vanish_fancy(k, d / 2, d);
        assert(d * k == k * d) by (nonlinear_arith);
        vstd::arithmetic::div_mod::lemma_div_pos_is_pos(-a + d / 2, d);
    }
}

/// Dividing an exact multiple of the divisor rounds to the exact quotient.
proof fn lemma_rounded_div_exact(k: int, d: int)
    requires
        d > 0,
    ensures
        spec_rounded_div(k * d, d) == k,
{
    if k >= 0 {
        lemma_div_multiples_vanish_fancy(k, d / 2, d);
        assert(d * k == k * d) by (nonlinear_arith);
        assert(k * d >= 0) by (nonlinear_arith)
            requires
                k >= 0,
                d > 0,
        ;
    } else {
        lemma_div_multiples_vanish_fancy(-k, d / 2, d);
        assert(d * (-k) == -(k * d)) by (nonlinear_arith);
        assert(k * d < 0) by (nonlinear_arith)
            requires
                k < 0,
                d > 0,
        ;
    }
}

/// Quotient of `a / d` rounded to nearest, halves away from zero.
pub(crate) fn rounded_div_i128(a: i128, d: i128) -> (r: i128)
    requires
        d > 0,
        a < i128::MAX - d,
        -(i128::MAX - d) < a,
    ensures
        r as int == spec_rounded_div(a as int, d as int),
{
    if a >= 0 {
        (a + d / 2) / d
    } else {
        -((-a + d / 2) / d)
    }
}

impl Transform {
    /// A usable transform: a normalized rotation and a translation in
    /// range.
    pub open spec fn is_valid(self) -> bool {
        self.rotation.is_normalized() && self.translation.in_range()
    }

    /// The identity transform: no rotation, no translation. It is the
    /// default for partitions that carry no transform of their own.
    pub open spec fn spec_identity() -> Transform {
        Transform {
            rotation: Quaternion::spec_identity(),
            translation: Translation { x: 0, y: 0, z: 0 },
        }
    }

    /// The identity transform.
    pub fn identity() -> (t: Transform)
        ensures
            t == Transform::spec_identity(),
            t.is_valid(),
    {
        Transform {
            rotation: Quaternion { w: ROTATION_ONE, x: 0, y: 0, z: 0 },
            translation: Translation { x: 0, y: 0, z: 0 },
        }
    }

    /// Validate a rotation and translation into a transform. Returns `None`
    /// exactly when the quaternion is not normalized within tolerance or
    /// the translation is out of range.
    pub fn new(rotation: Quaternion, translation: Translation) -> (r: Option<Transform>)
        ensures
            r is Some <==> rotation.is_normalized() && translation.in_range(),
            r is Some ==> r->Some_0 == (Transform { rotation, translation }),
    {
        if rotation.w < -ROTATION_ONE || rotation.w > ROTATION_ONE || rotation.x < -ROTATION_ONE
            || rotation.x > ROTATION_ONE || rotation.y < -ROTATION_ONE || rotation.y > ROTATION_ONE
            || rotation.z < -ROTATION_ONE || rotation.z > ROTATION_ONE {
            return None;
        }
        let w = rotation.w as i128;
        let x = rotation.x as i128;
        let y = rotation.y as i128;
        let z = rotation.z as i128;
        proof {
            lemma_mul_bound(w as int, w as int, ROTATION_ONE as int, ROTATION_ONE as int);
            lemma_mul_bound(x as int, x as int, ROTATION_ONE as int, ROTATION_ONE as int);
            lemma_mul_bound(y as int, y as int, ROTATION_ONE as int, ROTATION_ONE as int);
            lemma_mul_bound(z as int, z as int, ROTATION_ONE as int, ROTATION_ONE as int);
        }
        let norm_squared = w * w + x * x + y * y + z * z;
        let one = ROTATION_ONE as i128 * ROTATION_ONE as i128;
        if norm_squared < one - NORM_TOLERANCE as i128 || norm_squared > one
            + NORM_TOLERANCE as i128 {
            return None;
        }
        if translation.x < -COORDINATE_LIMIT || translation.x > COORDINATE_LIMIT || translation.y
            < -COORDINATE_LIMIT || translation.y > COORDINATE_LIMIT || translation.z
            < -COORDINATE_LIMIT || translation.z > COORDINATE_LIMIT {
            return None;
        }
        Some(Transform { rotation, translation })
    }

    /// Rotate and translate one point, in fixed-point arithmetic. The
    /// result follows the quaternion rotation formula exactly, with each
    /// coordinate rounded to the nearest length unit.
    pub fn apply(&self, v: Vector3) -> (r: Vector3)
        requires
            self.is_valid(),
            v.in_range(),
        ensures
            r.x as int == spec_apply_coord(*self, v, 0),
            r.y as int == spec_apply_coord(*self, v, 1),
            r.z as int == spec_apply_coord(*self, v, 2),
            -13 * COORDINATE_LIMIT <= r.x <= 13 * COORDINATE_LIMIT,
            -13 * COORDINATE_LIMIT <= r.y <= 13 * COORDINATE_LIMIT,
            -13 * COORDINATE_LIMIT <= r.z <= 13 * COORDINATE_LIMIT,
    {
        let q = self.rotation;
        let w = q.w as i128;
        let x = q.x as i128;
        let y = q.y as i128;
        let z = q.z as i128;
        proof {
            lemma_mul_bound(w as int, w as int, ROTATION_ONE as int, ROTATION_ONE as int);
            lemma_mul_bound(x as int, x as int, ROTATION_ONE as int, ROTATION_ONE as int);
            lemma_mul_bound(y as int, y as int, ROTATION_ONE as int, ROTATION_ONE as int);
            lemma_mul_bound(z as int, z as int, ROTATION_ONE as int, ROTATION_ONE as int);
            lemma_mul_bound(x as int, y as int, ROTATION_ONE as int, ROTATION_ONE as int);
            lemma_mul_bound(x as int, z as int, ROTATION_ONE as int, ROTATION_ONE as int);
            lemma_mul_bound(x as int, w as int, ROTATION_ONE as int, ROTATION_ONE as int);
            lemma_mul_bound(y as int, z as int, ROTATION_ONE as int, ROTATION_ONE as int);
            lemma_mul_bound(y as int, w as int, ROTATION_ONE as int, ROTATION_ONE as int);
            lemma_mul_bound(z as int, w as int, ROTATION_ONE as int, ROTATION_ONE as int);
        }
        let one = ROTATION_ONE as i128 * ROTATION_ONE as i128;
        let m00 = one - 2 * (y * y + z * z);
        let m01 = 2 * (x * y - z * w);
        let m02 = 2 * (x * z + y * w);
        let m10 = 2 * (x * y + z * w);
        let m11 = one - 2 * (x * x + z * z);
        let m12 = 2 * (y * z - x * w);
        let m20 = 2 * (x * z - y * w);
        let m21 = 2 * (y * z + x * w);
        let m22 = one - 2 * (x * x + y * y);
        let rx = self.rotate_row(m00, m01, m02, v, Ghost(0));
        let ry = self.rotate_row(m10, m11, m12, v, Ghost(1));
        let rz = self.rotate_row(m20, m21, m22, v, Ghost(2));
        Vector3 {
            x: rx + self.translation.x,
            y: ry + self.translation.y,
            z: rz + self.translation.z,
        }
    }

    /// One coordinate of the rotated point: a scaled matrix row applied to
    /// the point, rounded back to length units.
    #[verifier::spinoff_prover]
    fn rotate_row(&self, m0: i128, m1: i128, m2: i128, v: Vector3, row: Ghost<int>) -> (r: i64)
        requires
            self.is_valid(),
            v.in_range(),
            0 <= row@ < 3,
            m0 as int == spec_rot_entry(self.rotation, row@, 0),
            m1 as int == spec_rot_entry(self.rotation, row@, 1),
            m2 as int == spec_rot_entry(self.rotation, row@, 2),
        ensures
            r as int == spec_rotate_coord(self.rotation, v, row@),
            -12 * COORDINATE_LIMIT <= r <= 12 * COORDINATE_LIMIT,
    {
        proof {
            lemma_rot_entry_bound(self.rotation, row@, 0);
            lemma_rot_entry_bound(self.rotation, row@, 1);
            lemma_rot_entry_bound(self.rotation, row@, 2);
            let four = 4 * (ROTATION_ONE as int * ROTATION_ONE as int);
            lemma_mul_bound(m0 as int, v.x as int, four, COORDINATE_LIMIT as int);
            lemma_mul_bound(m1 as int, v.y as int, four, COORDINATE_LIMIT as int);
            lemma_mul_bound(m2 as int, v.z as int, four, COORDINATE_LIMIT as int);
        }
        let sum = m0 * (v.x as i128) + m1 * (v.y as i128) + m2 * (v.z as i128);
        let one = ROTATION_ONE as i128 * ROTATION_ONE as i128;
        let rotated = rounded_div_i128(sum, one);
        proof {
            lemma_rounded_div_bound(sum as int, one as int, 12 * (COORDINATE_LIMIT as int));
        }
        rotated as i64
    }
}

/// A transformed coordinate of an in-range point stays within thirteen
/// times the coordinate limit: twelve from the rotation's rounding bound,
/// one more from the translation.
pub proof fn lemma_apply_coord_in_range(t: Transform, v: Vector3, a: int)
    requires
        t.is_valid(),
        v.in_range(),
        0 <= a < 3,
    ensures
        -13 * (COORDINATE_LIMIT as int) <= spec_apply_coord(t, v, a) <= 13 * (
        COORDINATE_LIMIT as int),
{
    let q = t.rotation;
    lemma_rot_entry_bound(q, a, 0);
    lemma_rot_entry_bound(q, a, 1);
    lemma_rot_entry_bound(q, a, 2);
    let four = 4 * (ROTATION_ONE as int * ROTATION_ONE as int);
    lemma_mul_bound(spec_rot_entry(q, a, 0), v.x as int, four, COORDINATE_LIMIT as int);
    lemma_mul_bound(spec_rot_entry(q, a, 1), v.y as int, four, COORDINATE_LIMIT as int);
    lemma_mul_bound(spec_rot_entry(q, a, 2), v.z as int, four, COORDINATE_LIMIT as int);
    let sum = spec_rot_entry(q, a, 0) * v.x + spec_rot_entry(q, a, 1) * v.y + spec_rot_entry(
        q,
        a,
        2,
    ) * v.z;
    lemma_rounded_div_bound(
        sum,
        ROTATION_ONE as int * ROTATION_ONE as int,
        12 * (COORDINATE_LIMIT as int),
    );
}

/// The identity transform moves no point: rotating by the identity
/// quaternion and translating by zero returns every coordinate unchanged.
pub proof fn lemma_identity_apply(v: Vector3)
    ensures
        spec_apply_coord(Transform::spec_identity(), v, 0) == v.x as int,
        spec_apply_coord(Transform::spec_identity(), v, 1) == v.y as int,
        spec_apply_coord(Transform::spec_identity(), v, 2) == v.z as int,
{
    let one = ROTATION_ONE as int * ROTATION_ONE as int;
    let q = Quaternion::spec_identity();
    assert(spec_rot_entry(q, 0, 0) == one);
    assert(spec_rot_entry(q, 0, 1) == 0);
    assert(spec_rot_entry(q, 0, 2) == 0);
    assert(spec_rot_entry(q, 1, 0) == 0);
    assert(spec_rot_entry(q, 1, 1) == one);
    assert(spec_rot_entry(q, 1, 2) == 0);
    assert(spec_rot_entry(q, 2, 0) == 0);
    assert(spec_rot_entry(q, 2, 1) == 0);
    assert(spec_rot_entry(q, 2, 2) == one);
    assert(one * v.x == v.x * one) by (nonlinear_arith);
    assert(one * v.y == v.y * one) by (nonlinear_arith);
    assert(one * v.z == v.z * one) by (nonlinear_arith);
    lemma_rounded_div_exact(v.x as int, one);
    lemma_rounded_div_exact(v.y as int, one);
    lemma_rounded_div_exact(v.z as int, one);
}

} // verus!
