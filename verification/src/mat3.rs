use vstd::prelude::*;

use crate::fixed::{
    lemma_abs_mul_bound, lemma_tdiv_in, lincomb3, lincomb3_exec, scale, smul, tdiv, tdiv_i128,
    Scalar, COMP_LIMIT, SCALE,
};
use crate::trig::{cos_num, sin_num, sincos};
use crate::vec3::{in_range, Vec3};

verus! {

/// Largest raw entry magnitude the fixed-point determinant accepts:
/// a triple product of such entries still fits the accumulators.
pub const DET_LIMIT: i64 = 10_000_000_000;

/// Half of the signed 64-bit range, the entry bound under which
/// componentwise sums cannot overflow.
pub const HALF_RANGE: i64 = 4_611_686_018_427_387_903;

/// A linear map stored as three fixed-point basis columns.
#[derive(Clone, Copy, Debug, PartialEq, Eq, Structural)]
pub struct Mat3 {
    pub x: Vec3,
    pub y: Vec3,
    pub z: Vec3,
}

/// All entries lie within `[-m, m]`.
pub open spec fn mat3_in_range(m: Mat3, b: int) -> bool {
    &&& in_range(m.x, b)
    &&& in_range(m.y, b)
    &&& in_range(m.z, b)
}

/// The unscaled determinant numerator: a polynomial in the raw entries
/// carrying two scale factors.
pub open spec fn det_num(m: Mat3) -> int {
    m.x.x@ * (m.y.y@ * m.z.z@ - m.y.z@ * m.z.y@) - m.y.x@ * (m.x.y@ * m.z.z@ - m.x.z@ * m.z.y@)
        + m.z.x@ * (m.x.y@ * m.y.z@ - m.x.z@ * m.y.y@)
}

impl Mat3 {
    /// The matrix with the given basis columns.
    pub fn new(x: Vec3, y: Vec3, z: Vec3) -> (r: Mat3)
        ensures
            r == (Mat3 { x, y, z }),
    {
        Mat3 { x, y, z }
    }

    /// The diagonal matrix with the given diagonal entries.
    pub fn diag(x: Scalar, y: Scalar, z: Scalar) -> (r: Mat3)
        ensures
            r == (Mat3 { x: Vec3 { x, y: Scalar { raw: 0 }, z: Scalar { raw: 0 } },
                y: Vec3 { x: Scalar { raw: 0 }, y, z: Scalar { raw: 0 } },
                z: Vec3 { x: Scalar { raw: 0 }, y: Scalar { raw: 0 }, z } }),
    {
        Mat3 { x: Vec3::x(x), y: Vec3::y(y), z: Vec3::z(z) }
    }

    /// The uniform scaling matrix.
    pub fn scale(scalar: Scalar) -> (r: Mat3)
        ensures
            r == Mat3::diag_spec(scalar@, scalar@, scalar@),
    {
        Mat3::diag(scalar, scalar, scalar)
    }

    /// The diagonal matrix, as a spec value.
    pub open spec fn diag_spec(x: int, y: int, z: int) -> Mat3 {
        Mat3 {
            x: Vec3 { x: Scalar { raw: x as i64 }, y: Scalar { raw: 0 }, z: Scalar { raw: 0 } },
            y: Vec3 { x: Scalar { raw: 0 }, y: Scalar { raw: y as i64 }, z: Scalar { raw: 0 } },
            z: Vec3 { x: Scalar { raw: 0 }, y: Scalar { raw: 0 }, z: Scalar { raw: z as i64 } },
        }
    }

    /// The identity.
    pub fn one() -> (r: Mat3)
        ensures
            r == Mat3::diag_spec(scale(), scale(), scale()),
    {
        Mat3::diag(Scalar { raw: SCALE }, Scalar { raw: SCALE }, Scalar { raw: SCALE })
    }

    /// Right-handed rotation about the x axis by an angle in radians.
    pub fn rot_x(radians: Scalar) -> (r: Mat3)
        requires
            radians@ > i64::MIN,
        ensures
            r.x.x@ == scale() && r.x.y@ == 0 && r.x.z@ == 0,
            r.y.x@ == 0 && r.y.y@ == cos_num(radians@) && r.y.z@ == sin_num(radians@),
            r.z.x@ == 0 && r.z.y@ == -sin_num(radians@) && r.z.z@ == cos_num(radians@),
            mat3_in_range(r, scale()),
    {
        let (s, c) = sincos(radians);
        Mat3 {
            x: Vec3 { x: Scalar { raw: SCALE }, y: Scalar { raw: 0 }, z: Scalar { raw: 0 } },
            y: Vec3 { x: Scalar { raw: 0 }, y: c, z: s },
            z: Vec3 { x: Scalar { raw: 0 }, y: Scalar { raw: -s.raw }, z: c },
        }
    }

    /// Right-handed rotation about the y axis by an angle in radians.
    pub fn rot_y(radians: Scalar) -> (r: Mat3)
        requires
            radians@ > i64::MIN,
        ensures
            r.x.x@ == cos_num(radians@) && r.x.y@ == 0 && r.x.z@ == -sin_num(radians@),
            r.y.x@ == 0 && r.y.y@ == scale() && r.y.z@ == 0,
            r.z.x@ == sin_num(radians@) && r.z.y@ == 0 && r.z.z@ == cos_num(radians@),
            mat3_in_range(r, scale()),
    {
        let (s, c) = sincos(radians);
        Mat3 {
            x: Vec3 { x: c, y: Scalar { raw: 0 }, z: Scalar { raw: -s.raw } },
            y: Vec3 { x: Scalar { raw: 0 }, y: Scalar { raw: SCALE }, z: Scalar { raw: 0 } },
            z: Vec3 { x: s, y: Scalar { raw: 0 }, z: c },
        }
    }

    /// Right-handed rotation about the z axis by an angle in radians.
    pub fn rot_z(radians: Scalar) -> (r: Mat3)
        requires
            radians@ > i64::MIN,
        ensures
            r.x.x@ == cos_num(radians@) && r.x.y@ == sin_num(radians@) && r.x.z@ == 0,
            r.y.x@ == -sin_num(radians@) && r.y.y@ == cos_num(radians@) && r.y.z@ == 0,
            r.z.x@ == 0 && r.z.y@ == 0 && r.z.z@ == scale(),
            mat3_in_range(r, scale()),
    {
        let (s, c) = sincos(radians);
        Mat3 {
            x: Vec3 { x: c, y: s, z: Scalar { raw: 0 } },
            y: Vec3 { x: Scalar { raw: -s.raw }, y: c, z: Scalar { raw: 0 } },
            z: Vec3 { x: Scalar { raw: 0 }, y: Scalar { raw: 0 }, z: Scalar { raw: SCALE } },
        }
    }

    /// The determinant, computed from the unscaled cofactor expansion
    /// and scaled back down in one step.
    pub fn det(self) -> (r: Scalar)
        requires
            mat3_in_range(self, DET_LIMIT as int),
        ensures
            r@ == tdiv(det_num(self), scale() * scale()),
    {
        proof {
            let b = 10_000_000_000int;
            assert(b * b == 100_000_000_000_000_000_000int) by (nonlinear_arith)
                requires
                    b == 10_000_000_000int,
            ;
            assert(b * (2 * (b * b)) == 2_000_000_000_000_000_000_000_000_000_000int)
                by (nonlinear_arith)
                requires
                    b == 10_000_000_000int,
            ;
            lemma_abs_mul_bound(self.y.y@, self.z.z@, b, b);
            lemma_abs_mul_bound(self.y.z@, self.z.y@, b, b);
            lemma_abs_mul_bound(self.x.y@, self.z.z@, b, b);
            lemma_abs_mul_bound(self.x.z@, self.z.y@, b, b);
            lemma_abs_mul_bound(self.x.y@, self.y.z@, b, b);
            lemma_abs_mul_bound(self.x.z@, self.y.y@, b, b);
            lemma_abs_mul_bound(self.x.x@, self.y.y@ * self.z.z@ - self.y.z@ * self.z.y@, b,
                2 * (b * b));
            lemma_abs_mul_bound(self.y.x@, self.x.y@ * self.z.z@ - self.x.z@ * self.z.y@, b,
                2 * (b * b));
            lemma_abs_mul_bound(self.z.x@, self.x.y@ * self.y.z@ - self.x.z@ * self.y.y@, b,
                2 * (b * b));
            assert(scale() * scale() == 1_000_000_000_000int) by (nonlinear_arith)
                requires
                    scale() == 1_000_000,
            ;
            lemma_tdiv_in(det_num(self), 1_000_000_000_000int,
                6_000_000_000_000_000_000_000_000_000_000int);
            assert(6_000_000_000_000_000_000_000_000_000_000int / 1_000_000_000_000int
                == 6_000_000_000_000_000_000int);
        }
        let c1: i128 = (self.y.y.raw as i128) * (self.z.z.raw as i128)
            - (self.y.z.raw as i128) * (self.z.y.raw as i128);
        let c2: i128 = (self.x.y.raw as i128) * (self.z.z.raw as i128)
            - (self.x.z.raw as i128) * (self.z.y.raw as i128);
        let c3: i128 = (self.x.y.raw as i128) * (self.y.z.raw as i128)
            - (self.x.z.raw as i128) * (self.y.y.raw as i128);
        let d: i128 = (self.x.x.raw as i128) * c1 - (self.y.x.raw as i128) * c2
            + (self.z.x.raw as i128) * c3;
        let q: i128 = tdiv_i128(d, 1_000_000_000_000i128);
        Scalar { raw: q as i64 }
    }

    /// Componentwise sum.
    pub fn add(self, rhs: Mat3) -> (r: Mat3)
        requires
            mat3_in_range(self, HALF_RANGE as int),
            mat3_in_range(rhs, HALF_RANGE as int),
        ensures
            r.x.x@ == self.x.x@ + rhs.x.x@ && r.x.y@ == self.x.y@ + rhs.x.y@ && r.x.z@
                == self.x.z@ + rhs.x.z@,
            r.y.x@ == self.y.x@ + rhs.y.x@ && r.y.y@ == self.y.y@ + rhs.y.y@ && r.y.z@
                == self.y.z@ + rhs.y.z@,
            r.z.x@ == self.z.x@ + rhs.z.x@ && r.z.y@ == self.z.y@ + rhs.z.y@ && r.z.z@
                == self.z.z@ + rhs.z.z@,
    {
        Mat3 { x: self.x.add(rhs.x), y: self.y.add(rhs.y), z: self.z.add(rhs.z) }
    }

    /// Componentwise difference.
    pub fn sub(self, rhs: Mat3) -> (r: Mat3)
        requires
            mat3_in_range(self, HALF_RANGE as int),
            mat3_in_range(rhs, HALF_RANGE as int),
        ensures
            r.x.x@ == self.x.x@ - rhs.x.x@ && r.x.y@ == self.x.y@ - rhs.x.y@ && r.x.z@
                == self.x.z@ - rhs.x.z@,
            r.y.x@ == self.y.x@ - rhs.y.x@ && r.y.y@ == self.y.y@ - rhs.y.y@ && r.y.z@
                == self.y.z@ - rhs.y.z@,
            r.z.x@ == self.z.x@ - rhs.z.x@ && r.z.y@ == self.z.y@ - rhs.z.y@ && r.z.z@
                == self.z.z@ - rhs.z.z@,
    {
        Mat3 { x: self.x.sub(rhs.x), y: self.y.sub(rhs.y), z: self.z.sub(rhs.z) }
    }

    /// Every entry multiplied by a fixed-point scalar.
    pub fn mul_scalar(self, s: Scalar) -> (r: Mat3)
        requires
            i64::MIN <= smul(self.x.x@, s@) <= i64::MAX,
            i64::MIN <= smul(self.x.y@, s@) <= i64::MAX,
            i64::MIN <= smul(self.x.z@, s@) <= i64::MAX,
            i64::MIN <= smul(self.y.x@, s@) <= i64::MAX,
            i64::MIN <= smul(self.y.y@, s@) <= i64::MAX,
            i64::MIN <= smul(self.y.z@, s@) <= i64::MAX,
            i64::MIN <= smul(self.z.x@, s@) <= i64::MAX,
            i64::MIN <= smul(self.z.y@, s@) <= i64::MAX,
            i64::MIN <= smul(self.z.z@, s@) <= i64::MAX,
        ensures
            r.x.x@ == smul(self.x.x@, s@) && r.x.y@ == smul(self.x.y@, s@) && r.x.z@ == smul(
                self.x.z@, s@),
            r.y.x@ == smul(self.y.x@, s@) && r.y.y@ == smul(self.y.y@, s@) && r.y.z@ == smul(
                self.y.z@, s@),
            r.z.x@ == smul(self.z.x@, s@) && r.z.y@ == smul(self.z.y@, s@) && r.z.z@ == smul(
                self.z.z@, s@),
    {
        Mat3 { x: self.x.scale(s), y: self.y.scale(s), z: self.z.scale(s) }
    }

    /// Apply the map to a vector: each result component combines one
    /// row with the vector in a single rounding step.
    pub fn mul_vec(self, v: Vec3) -> (r: Vec3)
        requires
            mat3_in_range(self, COMP_LIMIT as int),
            in_range(v, COMP_LIMIT as int),
            i64::MIN <= lincomb3(self.x.x@, v.x@, self.y.x@, v.y@, self.z.x@, v.z@) <= i64::MAX,
            i64::MIN <= lincomb3(self.x.y@, v.x@, self.y.y@, v.y@, self.z.y@, v.z@) <= i64::MAX,
            i64::MIN <= lincomb3(self.x.z@, v.x@, self.y.z@, v.y@, self.z.z@, v.z@) <= i64::MAX,
        ensures
            r.x@ == lincomb3(self.x.x@, v.x@, self.y.x@, v.y@, self.z.x@, v.z@),
            r.y@ == lincomb3(self.x.y@, v.x@, self.y.y@, v.y@, self.z.y@, v.z@),
            r.z@ == lincomb3(self.x.z@, v.x@, self.y.z@, v.y@, self.z.z@, v.z@),
    {
        Vec3 {
            x: Scalar {
                raw: lincomb3_exec(self.x.x.raw, v.x.raw, self.y.x.raw, v.y.raw, self.z.x.raw,
                    v.z.raw),
            },
            y: Scalar {
                raw: lincomb3_exec(self.x.y.raw, v.x.raw, self.y.y.raw, v.y.raw, self.z.y.raw,
                    v.z.raw),
            },
            z: Scalar {
                raw: lincomb3_exec(self.x.z.raw, v.x.raw, self.y.z.raw, v.y.raw, self.z.z.raw,
                    v.z.raw),
            },
        }
    }

    /// Compose two maps: each column of the result is this map applied
    /// to the corresponding column of `rhs`.
    pub fn mul_mat(self, rhs: Mat3) -> (r: Mat3)
        requires
            mat3_in_range(self, COMP_LIMIT as int),
            mat3_in_range(rhs, COMP_LIMIT as int),
            i64::MIN <= lincomb3(self.x.x@, rhs.x.x@, self.y.x@, rhs.x.y@, self.z.x@, rhs.x.z@)
                <= i64::MAX,
            i64::MIN <= lincomb3(self.x.y@, rhs.x.x@, self.y.y@, rhs.x.y@, self.z.y@, rhs.x.z@)
                <= i64::MAX,
            i64::MIN <= lincomb3(self.x.z@, rhs.x.x@, self.y.z@, rhs.x.y@, self.z.z@, rhs.x.z@)
                <= i64::MAX,
            i64::MIN <= lincomb3(self.x.x@, rhs.y.x@, self.y.x@, rhs.y.y@, self.z.x@, rhs.y.z@)
                <= i64::MAX,
            i64::MIN <= lincomb3(self.x.y@, rhs.y.x@, self.y.y@, rhs.y.y@, self.z.y@, rhs.y.z@)
                <= i64::MAX,
            i64::MIN <= lincomb3(self.x.z@, rhs.y.x@, self.y.z@, rhs.y.y@, self.z.z@, rhs.y.z@)
                <= i64::MAX,
            i64::MIN <= lincomb3(self.x.x@, rhs.z.x@, self.y.x@, rhs.z.y@, self.z.x@, rhs.z.z@)
                <= i64::MAX,
            i64::MIN <= lincomb3(self.x.y@, rhs.z.x@, self.y.y@, rhs.z.y@, self.z.y@, rhs.z.z@)
                <= i64::MAX,
            i64::MIN <= lincomb3(self.x.z@, rhs.z.x@, self.y.z@, rhs.z.y@, self.z.z@, rhs.z.z@)
                <= i64::MAX,
        ensures
            (r.x.x@, r.x.y@, r.x.z@) == self.mul_vec_spec(rhs.x),
            (r.y.x@, r.y.y@, r.y.z@) == self.mul_vec_spec(rhs.y),
            (r.z.x@, r.z.y@, r.z.z@) == self.mul_vec_spec(rhs.z),
    {
        Mat3 { x: self.mul_vec(rhs.x), y: self.mul_vec(rhs.y), z: self.mul_vec(rhs.z) }
    }

    /// The raw components of this map applied to a column, as a triple.
    pub open spec fn mul_vec_spec(self, v: Vec3) -> (int, int, int) {
        (
            lincomb3(self.x.x@, v.x@, self.y.x@, v.y@, self.z.x@, v.z@),
            lincomb3(self.x.y@, v.x@, self.y.y@, v.y@, self.z.y@, v.z@),
            lincomb3(self.x.z@, v.x@, self.y.z@, v.y@, self.z.z@, v.z@),
        )
    }
}

/// Composition is application: before fixed-point rounding, each
/// component of the composed map applied to a vector equals the outer
/// map applied to the inner map's result, exactly. The executable
/// path rounds once per combination, so it matches this identity to
/// within a few ticks.
pub proof fn lemma_compose_apply(a: Mat3, b: Mat3, v: Vec3)
    ensures
        (a.x.x@ * b.x.x@ + a.y.x@ * b.x.y@ + a.z.x@ * b.x.z@) * v.x@ + (a.x.x@ * b.y.x@ + a.y.x@
            * b.y.y@ + a.z.x@ * b.y.z@) * v.y@ + (a.x.x@ * b.z.x@ + a.y.x@ * b.z.y@ + a.z.x@
            * b.z.z@) * v.z@ == a.x.x@ * (b.x.x@ * v.x@ + b.y.x@ * v.y@ + b.z.x@ * v.z@) + a.y.x@
            * (b.x.y@ * v.x@ + b.y.y@ * v.y@ + b.z.y@ * v.z@) + a.z.x@ * (b.x.z@ * v.x@ + b.y.z@
            * v.y@ + b.z.z@ * v.z@),
        (a.x.y@ * b.x.x@ + a.y.y@ * b.x.y@ + a.z.y@ * b.x.z@) * v.x@ + (a.x.y@ * b.y.x@ + a.y.y@
            * b.y.y@ + a.z.y@ * b.y.z@) * v.y@ + (a.x.y@ * b.z.x@ + a.y.y@ * b.z.y@ + a.z.y@
            * b.z.z@) * v.z@ == a.x.y@ * (b.x.x@ * v.x@ + b.y.x@ * v.y@ + b.z.x@ * v.z@) + a.y.y@
            * (b.x.y@ * v.x@ + b.y.y@ * v.y@ + b.z.y@ * v.z@) + a.z.y@ * (b.x.z@ * v.x@ + b.y.z@
            * v.y@ + b.z.z@ * v.z@),
        (a.x.z@ * b.x.x@ + a.y.z@ * b.x.y@ + a.z.z@ * b.x.z@) * v.x@ + (a.x.z@ * b.y.x@ + a.y.z@
            * b.y.y@ + a.z.z@ * b.y.z@) * v.y@ + (a.x.z@ * b.z.x@ + a.y.z@ * b.z.y@ + a.z.z@
            * b.z.z@) * v.z@ == a.x.z@ * (b.x.x@ * v.x@ + b.y.x@ * v.y@ + b.z.x@ * v.z@) + a.y.z@
            * (b.x.y@ * v.x@ + b.y.y@ * v.y@ + b.z.y@ * v.z@) + a.z.z@ * (b.x.z@ * v.x@ + b.y.z@
            * v.y@ + b.z.z@ * v.z@),
{
    lemma_compose_apply_row(a.x.x@, a.y.x@, a.z.x@, b, v.x@, v.y@, v.z@);
    lemma_compose_apply_row(a.x.y@, a.y.y@, a.z.y@, b, v.x@, v.y@, v.z@);
    lemma_compose_apply_row(a.x.z@, a.y.z@, a.z.z@, b, v.x@, v.y@, v.z@);
}

/// One row of the composition-is-application identity.
proof fn lemma_compose_apply_row(a1: int, a2: int, a3: int, b: Mat3, vx: int, vy: int, vz: int)
    ensures
        (a1 * b.x.x@ + a2 * b.x.y@ + a3 * b.x.z@) * vx + (a1 * b.y.x@ + a2 * b.y.y@ + a3
            * b.y.z@) * vy + (a1 * b.z.x@ + a2 * b.z.y@ + a3 * b.z.z@) * vz == a1 * (b.x.x@ * vx
            + b.y.x@ * vy + b.z.x@ * vz) + a2 * (b.x.y@ * vx + b.y.y@ * vy + b.z.y@ * vz) + a3 * (
        b.x.z@ * vx + b.y.z@ * vy + b.z.z@ * vz),
{
    lemma_distribute_dot(a1, a2, a3, b.x.x@, b.x.y@, b.x.z@, vx);
    lemma_distribute_dot(a1, a2, a3, b.y.x@, b.y.y@, b.y.z@, vy);
    lemma_distribute_dot(a1, a2, a3, b.z.x@, b.z.y@, b.z.z@, vz);
    lemma_factor_three(a1, b.x.x@ * vx, b.y.x@ * vy, b.z.x@ * vz);
    lemma_factor_three(a2, b.x.y@ * vx, b.y.y@ * vy, b.z.y@ * vz);
    lemma_factor_three(a3, b.x.z@ * vx, b.y.z@ * vy, b.z.z@ * vz);
}

/// A weighted sum times a factor distributes over the weights.
proof fn lemma_distribute_dot(a1: int, a2: int, a3: int, p: int, q: int, r: int, w: int)
    ensures
        (a1 * p + a2 * q + a3 * r) * w == a1 * (p * w) + a2 * (q * w) + a3 * (r * w),
{
    let s1 = a1 * p;
    let s2 = a2 * q;
    let s3 = a3 * r;
    assert((s1 + s2 + s3) * w == s1 * w + s2 * w + s3 * w) by (nonlinear_arith);
    assert(s1 * w == a1 * (p * w)) by (nonlinear_arith)
        requires
            s1 == a1 * p,
    ;
    assert(s2 * w == a2 * (q * w)) by (nonlinear_arith)
        requires
            s2 == a2 * q,
    ;
    assert(s3 * w == a3 * (r * w)) by (nonlinear_arith)
        requires
            s3 == a3 * r,
    ;
}

/// A common factor distributes over a three-term sum.
proof fn lemma_factor_three(a: int, p1: int, p2: int, p3: int)
    ensures
        a * p1 + a * p2 + a * p3 == a * (p1 + p2 + p3),
{
    assert(a * p1 + a * p2 + a * p3 == a * (p1 + p2 + p3)) by (nonlinear_arith);
}

/// Rotating about the y axis and back, with the fixed-point rounding
/// the executable rotation applies, returns each component up to
/// three ticks of rounding plus the pair's distance from the unit
/// circle scaled by the component bound; the error bound carries two
/// scale factors.
pub proof fn lemma_rot_y_round_trip_rounded(vx: int, vz: int, s: int, c: int, vv: int)
    requires
        0 <= scale() * scale() - (s * s + c * c) <= 2 * scale(),
        -scale() <= s <= scale(),
        -scale() <= c <= scale(),
        -vv <= vx <= vv,
        -vv <= vz <= vv,
        0 <= vv,
    ensures
        ({
            let wx = lincomb3(c, vx, s, vz, 0, 0);
            let wz = lincomb3(-s, vx, c, vz, 0, 0);
            let ux = lincomb3(c, wx, -s, wz, 0, 0);
            let uz = lincomb3(s, wx, c, wz, 0, 0);
            &&& -(3 * (scale() * scale()) + 2 * (scale() * vv)) <= (scale() * scale()) * (ux
                - vx) <= 3 * (scale() * scale()) + 2 * (scale() * vv)
            &&& -(3 * (scale() * scale()) + 2 * (scale() * vv)) <= (scale() * scale()) * (uz
                - vz) <= 3 * (scale() * scale()) + 2 * (scale() * vv)
        }),
{
    let sc = scale();
    let delta = sc * sc - (s * s + c * c);
    let nx = c * vx + s * vz + 0 * 0;
    let nz = -s * vx + c * vz + 0 * 0;
    let wx = lincomb3(c, vx, s, vz, 0, 0);
    let wz = lincomb3(-s, vx, c, vz, 0, 0);
    crate::fixed::lemma_tdiv_rem(nx, sc);
    crate::fixed::lemma_tdiv_rem(nz, sc);
    let e1 = crate::fixed::tmod(nx, sc);
    let e3 = crate::fixed::tmod(nz, sc);
    assert(sc * wx == nx - e1);
    assert(sc * wz == nz - e3);
    let mx = c * wx + (-s) * wz + 0 * 0;
    let mz = s * wx + c * wz + 0 * 0;
    let ux = lincomb3(c, wx, -s, wz, 0, 0);
    let uz = lincomb3(s, wx, c, wz, 0, 0);
    crate::fixed::lemma_tdiv_rem(mx, sc);
    crate::fixed::lemma_tdiv_rem(mz, sc);
    let e2 = crate::fixed::tmod(mx, sc);
    let e4 = crate::fixed::tmod(mz, sc);
    assert(sc * ux == mx - e2);
    assert(sc * uz == mz - e4);
    // scale the second rotation up by one factor
    assert(sc * mx == c * (sc * wx) - s * (sc * wz)) by (nonlinear_arith)
        requires
            mx == c * wx + (-s) * wz + 0 * 0,
    ;
    assert(sc * mz == s * (sc * wx) + c * (sc * wz)) by (nonlinear_arith)
        requires
            mz == s * wx + c * wz + 0 * 0,
    ;
    // expand the first rotation inside it
    assert(c * (sc * wx) == c * nx - c * e1) by (nonlinear_arith)
        requires
            sc * wx == nx - e1,
    ;
    assert(s * (sc * wz) == s * nz - s * e3) by (nonlinear_arith)
        requires
            sc * wz == nz - e3,
    ;
    assert(s * (sc * wx) == s * nx - s * e1) by (nonlinear_arith)
        requires
            sc * wx == nx - e1,
    ;
    assert(c * (sc * wz) == c * nz - c * e3) by (nonlinear_arith)
        requires
            sc * wz == nz - e3,
    ;
    // the unrounded composition scales the vector by the pair's norm
    let p1 = c * vx;
    let p2 = s * vz;
    let p4 = c * vz;
    assert(0int * 0int == 0int) by (nonlinear_arith);
    assert((-s) * vx == -(s * vx)) by (nonlinear_arith);
    assert(nx == p1 + p2);
    assert(nz == -(s * vx) + p4);
    assert(c * nx == c * p1 + c * p2) by (nonlinear_arith)
        requires
            nx == p1 + p2,
    ;
    assert(s * nz == -(s * (s * vx)) + s * p4) by (nonlinear_arith)
        requires
            nz == -(s * vx) + p4,
    ;
    assert(c * p1 == (c * c) * vx) by (nonlinear_arith)
        requires
            p1 == c * vx,
    ;
    assert(c * p2 == (c * s) * vz) by (nonlinear_arith)
        requires
            p2 == s * vz,
    ;
    assert(s * (s * vx) == (s * s) * vx) by (nonlinear_arith);
    assert(s * p4 == (s * c) * vz) by (nonlinear_arith)
        requires
            p4 == c * vz,
    ;
    assert((c * s) * vz == (s * c) * vz) by (nonlinear_arith);
    assert(c * nx - s * nz == (c * c) * vx + (s * s) * vx);
    assert((c * c) * vx + (s * s) * vx == (s * s + c * c) * vx) by (nonlinear_arith);
    assert((s * s + c * c) * vx == (sc * sc) * vx - delta * vx) by (nonlinear_arith)
        requires
            s * s + c * c == sc * sc - delta,
    ;
    assert(s * nx == s * p1 + s * p2) by (nonlinear_arith)
        requires
            nx == p1 + p2,
    ;
    assert(c * nz == -(c * (s * vx)) + c * p4) by (nonlinear_arith)
        requires
            nz == -(s * vx) + p4,
    ;
    assert(s * p1 == (s * c) * vx) by (nonlinear_arith)
        requires
            p1 == c * vx,
    ;
    assert(c * (s * vx) == (c * s) * vx) by (nonlinear_arith);
    assert((s * c) * vx == (c * s) * vx) by (nonlinear_arith);
    assert(s * p2 == (s * s) * vz) by (nonlinear_arith)
        requires
            p2 == s * vz,
    ;
    assert(c * p4 == (c * c) * vz) by (nonlinear_arith)
        requires
            p4 == c * vz,
    ;
    assert(s * nx + c * nz == (s * s) * vz + (c * c) * vz);
    assert((s * s) * vz + (c * c) * vz == (s * s + c * c) * vz) by (nonlinear_arith);
    assert((s * s + c * c) * vz == (sc * sc) * vz - delta * vz) by (nonlinear_arith)
        requires
            s * s + c * c == sc * sc - delta,
    ;
    // scale the rounded result up by the second factor
    assert(sc * (sc * ux) == (sc * sc) * ux) by (nonlinear_arith);
    assert(sc * (sc * uz) == (sc * sc) * uz) by (nonlinear_arith);
    assert(sc * (sc * ux) == sc * mx - sc * e2) by (nonlinear_arith)
        requires
            sc * ux == mx - e2,
    ;
    assert(sc * (sc * uz) == sc * mz - sc * e4) by (nonlinear_arith)
        requires
            sc * uz == mz - e4,
    ;
    // bound each rounding term and the unit-circle shortfall
    crate::fixed::lemma_abs_mul_bound(c, e1, sc, sc - 1);
    crate::fixed::lemma_abs_mul_bound(s, e3, sc, sc - 1);
    crate::fixed::lemma_abs_mul_bound(s, e1, sc, sc - 1);
    crate::fixed::lemma_abs_mul_bound(c, e3, sc, sc - 1);
    crate::fixed::lemma_abs_mul_bound(delta, vx, 2 * sc, vv);
    crate::fixed::lemma_abs_mul_bound(delta, vz, 2 * sc, vv);
    assert(sc * (sc - 1) == 999_999_000_000int) by (nonlinear_arith)
        requires
            sc == 1_000_000,
    ;
    assert(sc * sc == 1_000_000_000_000int) by (nonlinear_arith)
        requires
            sc == 1_000_000,
    ;
    assert((2 * sc) * vv == 2 * (sc * vv)) by (nonlinear_arith);
    assert(-(sc * sc) <= sc * e2 <= sc * sc && -(sc * sc) <= sc * e4 <= sc * sc)
        by (nonlinear_arith)
        requires
            sc > 0,
            -sc < e2 < sc,
            -sc < e4 < sc,
    ;
    // everything left is linear in the remaining unknowns
    assert((sc * sc) * ux - (sc * sc) * vx == -(c * e1) + s * e3 - sc * e2 - delta * vx);
    assert((sc * sc) * uz - (sc * sc) * vz == -(s * e1) - c * e3 - sc * e4 - delta * vz);
    assert((sc * sc) * (ux - vx) == (sc * sc) * ux - (sc * sc) * vx) by (nonlinear_arith);
    assert((sc * sc) * (uz - vz) == (sc * sc) * uz - (sc * sc) * vz) by (nonlinear_arith);
}

/// The y-axis rotation is orthonormal up to the trig rounding: its x
/// and z basis columns have squared norms within two units' worth of
/// ticks below one squared unit, and are exactly orthogonal to each
/// other; its y column is exactly the unit axis.
pub proof fn lemma_rot_y_orthonormal(a: int)
    requires
        a > i64::MIN,
    ensures
        ({
            let s = sin_num(a);
            let c = cos_num(a);
            &&& 0 <= scale() * scale() - (c * c + s * s) <= 2 * scale()
            &&& c * s + (-s) * c == 0
        }),
{
    crate::trig::lemma_sin_cos_pythagorean(a);
    let s = sin_num(a);
    let c = cos_num(a);
    assert(c * s + (-s) * c == 0) by (nonlinear_arith);
}

/// The y-axis rotation's determinant is one, up to the trig
/// rounding: for the matrix the constructor builds at any raw angle,
/// the fixed-point determinant lies within two ticks below one unit.
pub proof fn lemma_rot_y_determinant(m: Mat3, a: int)
    requires
        a > i64::MIN,
        m.x.x@ == cos_num(a) && m.x.y@ == 0 && m.x.z@ == -sin_num(a),
        m.y.x@ == 0 && m.y.y@ == scale() && m.y.z@ == 0,
        m.z.x@ == sin_num(a) && m.z.y@ == 0 && m.z.z@ == cos_num(a),
    ensures
        scale() - 2 <= tdiv(det_num(m), scale() * scale()) <= scale(),
{
    crate::trig::lemma_sin_cos_pythagorean(a);
    let s = sin_num(a);
    let c = cos_num(a);
    let sc = scale();
    assert(det_num(m) == sc * (c * c + s * s)) by (nonlinear_arith)
        requires
            det_num(m) == c * (sc * c - 0 * 0) - 0 * (0 * c - (-s) * 0) + s * (0 * 0 - (-s)
                * sc),
    ;
    assert(sc * (sc * sc - 2 * sc) <= sc * (c * c + s * s) <= sc * (sc * sc))
        by (nonlinear_arith)
        requires
            sc > 0,
            sc * sc - 2 * sc <= c * c + s * s <= sc * sc,
    ;
    assert(sc * (sc * sc - 2 * sc) == 999_998_000_000_000_000int && sc * (sc * sc)
        == 1_000_000_000_000_000_000int && sc * sc == 1_000_000_000_000int)
        by (nonlinear_arith)
        requires
            sc == 1_000_000,
    ;
    let d = det_num(m);
    assert(d / 1_000_000_000_000int >= 999_998int && d / 1_000_000_000_000int <= 1_000_000int)
        by (nonlinear_arith)
        requires
            999_998_000_000_000_000int <= d <= 1_000_000_000_000_000_000int,
    ;
    assert(tdiv(d, sc * sc) == d / 1_000_000_000_000int);
}

/// The rotation inverse round trip for the library's own angles:
/// rotating about the y axis by any raw angle and then by its
/// negation, with the sine and cosine the rotation constructors use
/// and the executable rounding, returns each component to within
/// three ticks plus two millionths of the component bound; the error
/// bound carries two scale factors.
pub proof fn lemma_rot_y_round_trip_angles(a: int, vx: int, vz: int, vv: int)
    requires
        a > i64::MIN,
        -vv <= vx <= vv,
        -vv <= vz <= vv,
        0 <= vv,
    ensures
        ({
            let s = sin_num(a);
            let c = cos_num(a);
            let wx = lincomb3(c, vx, s, vz, 0, 0);
            let wz = lincomb3(-s, vx, c, vz, 0, 0);
            let ux = lincomb3(cos_num(-a), wx, sin_num(-a), wz, 0, 0);
            let uz = lincomb3(-sin_num(-a), wx, cos_num(-a), wz, 0, 0);
            &&& -(3 * (scale() * scale()) + 2 * (scale() * vv)) <= (scale() * scale()) * (ux
                - vx) <= 3 * (scale() * scale()) + 2 * (scale() * vv)
            &&& -(3 * (scale() * scale()) + 2 * (scale() * vv)) <= (scale() * scale()) * (uz
                - vz) <= 3 * (scale() * scale()) + 2 * (scale() * vv)
        }),
{
    crate::trig::lemma_sin_cos_symmetry(a);
    crate::trig::lemma_sin_cos_pythagorean(a);
    lemma_rot_y_round_trip_rounded(vx, vz, sin_num(a), cos_num(a), vv);
    assert(sin_num(-a) == -sin_num(a));
    assert(cos_num(-a) == cos_num(a));
}

/// Rotating about the y axis by an angle and then by its negation
/// returns the vector, exactly, for any sine and cosine pair on the
/// unit circle and before fixed-point rounding: both compositions give
/// the original component carrying two scale factors.
pub proof fn lemma_rot_y_round_trip(vx: int, vz: int, s: int, c: int)
    requires
        s * s + c * c == scale() * scale(),
    ensures
        c * (c * vx + s * vz) - s * (-s * vx + c * vz) == scale() * scale() * vx,
        s * (c * vx + s * vz) + c * (-s * vx + c * vz) == scale() * scale() * vz,
{
    assert(c * (c * vx + s * vz) - s * (-s * vx + c * vz) == (s * s + c * c) * vx)
        by (nonlinear_arith);
    assert(s * (c * vx + s * vz) + c * (-s * vx + c * vz) == (s * s + c * c) * vz)
        by (nonlinear_arith);
    assert((s * s + c * c) * vx == scale() * scale() * vx) by (nonlinear_arith)
        requires
            s * s + c * c == scale() * scale(),
    ;
    assert((s * s + c * c) * vz == scale() * scale() * vz) by (nonlinear_arith)
        requires
            s * s + c * c == scale() * scale(),
    ;
}

} // verus!
