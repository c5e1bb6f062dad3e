use vstd::prelude::*;

use crate::fixed::{
    is_isqrt, isqrt_num, isqrt_u128, lemma_abs_mul_bound, lemma_i64_product_fits,
    lemma_isqrt_num, lemma_isqrt_unique, lemma_tdiv_in, lemma_tdiv_rem, lincomb3, lincomb3_exec,
    scale, sdivq, smul, tdiv, tdiv_i128, tmod, abs_i, COMP_LIMIT, Scalar, SCALE,
};
use crate::trig::{cos_num, sin_num};

verus! {

/// A column vector with three fixed-point components.
#[derive(Clone, Copy, Debug, PartialEq, Eq, Structural)]
pub struct Vec3 {
    pub x: Scalar,
    pub y: Scalar,
    pub z: Scalar,
}

/// Unscaled dot product of the raw components.
pub open spec fn dot_num(a: Vec3, b: Vec3) -> int {
    a.x@ * b.x@ + a.y@ * b.y@ + a.z@ * b.z@
}

/// Unscaled x component of the cross product of the raw components.
pub open spec fn cross_num_x(a: Vec3, b: Vec3) -> int {
    a.y@ * b.z@ - a.z@ * b.y@
}

/// Unscaled y component of the cross product of the raw components.
pub open spec fn cross_num_y(a: Vec3, b: Vec3) -> int {
    a.z@ * b.x@ - a.x@ * b.z@
}

/// Unscaled z component of the cross product of the raw components.
pub open spec fn cross_num_z(a: Vec3, b: Vec3) -> int {
    a.x@ * b.y@ - a.y@ * b.x@
}

/// The raw magnitude of `v`: the integer square root of the unscaled
/// self dot product.
pub open spec fn mag_num(v: Vec3) -> int {
    isqrt_num(dot_num(v, v))
}

/// All components lie within `[-m, m]`.
pub open spec fn in_range(v: Vec3, m: int) -> bool {
    &&& -m <= v.x@ <= m
    &&& -m <= v.y@ <= m
    &&& -m <= v.z@ <= m
}

impl Vec3 {
    /// The vector with the given components.
    pub fn new(x: Scalar, y: Scalar, z: Scalar) -> (r: Vec3)
        ensures
            r == (Vec3 { x, y, z }),
    {
        Vec3 { x, y, z }
    }

    /// The vector `(x, 0, 0)`.
    pub fn x(x: Scalar) -> (r: Vec3)
        ensures
            r.x == x,
            r.y@ == 0,
            r.z@ == 0,
    {
        Vec3 { x, y: Scalar { raw: 0 }, z: Scalar { raw: 0 } }
    }

    /// The vector `(0, y, 0)`.
    pub fn y(y: Scalar) -> (r: Vec3)
        ensures
            r.x@ == 0,
            r.y == y,
            r.z@ == 0,
    {
        Vec3 { x: Scalar { raw: 0 }, y, z: Scalar { raw: 0 } }
    }

    /// The vector `(0, 0, z)`.
    pub fn z(z: Scalar) -> (r: Vec3)
        ensures
            r.x@ == 0,
            r.y@ == 0,
            r.z == z,
    {
        Vec3 { x: Scalar { raw: 0 }, y: Scalar { raw: 0 }, z }
    }

    /// The zero vector.
    pub fn zero() -> (r: Vec3)
        ensures
            r.x@ == 0,
            r.y@ == 0,
            r.z@ == 0,
    {
        Vec3 { x: Scalar { raw: 0 }, y: Scalar { raw: 0 }, z: Scalar { raw: 0 } }
    }

    /// Componentwise sum.
    pub fn add(self, rhs: Vec3) -> (r: Vec3)
        requires
            i64::MIN <= self.x@ + rhs.x@ <= i64::MAX,
            i64::MIN <= self.y@ + rhs.y@ <= i64::MAX,
            i64::MIN <= self.z@ + rhs.z@ <= i64::MAX,
        ensures
            r.x@ == self.x@ + rhs.x@,
            r.y@ == self.y@ + rhs.y@,
            r.z@ == self.z@ + rhs.z@,
    {
        Vec3 {
            x: self.x.add(rhs.x),
            y: self.y.add(rhs.y),
            z: self.z.add(rhs.z),
        }
    }

    /// Componentwise difference.
    pub fn sub(self, rhs: Vec3) -> (r: Vec3)
        requires
            i64::MIN <= self.x@ - rhs.x@ <= i64::MAX,
            i64::MIN <= self.y@ - rhs.y@ <= i64::MAX,
            i64::MIN <= self.z@ - rhs.z@ <= i64::MAX,
        ensures
            r.x@ == self.x@ - rhs.x@,
            r.y@ == self.y@ - rhs.y@,
            r.z@ == self.z@ - rhs.z@,
    {
        Vec3 {
            x: self.x.sub(rhs.x),
            y: self.y.sub(rhs.y),
            z: self.z.sub(rhs.z),
        }
    }

    /// Componentwise negation.
    pub fn neg(self) -> (r: Vec3)
        requires
            self.x@ > i64::MIN,
            self.y@ > i64::MIN,
            self.z@ > i64::MIN,
        ensures
            r.x@ == -self.x@,
            r.y@ == -self.y@,
            r.z@ == -self.z@,
    {
        Vec3 { x: self.x.neg(), y: self.y.neg(), z: self.z.neg() }
    }

    /// Componentwise fixed-point multiplication by a scalar.
    pub fn scale(self, s: Scalar) -> (r: Vec3)
        requires
            i64::MIN <= smul(self.x@, s@) <= i64::MAX,
            i64::MIN <= smul(self.y@, s@) <= i64::MAX,
            i64::MIN <= smul(self.z@, s@) <= i64::MAX,
        ensures
            r.x@ == smul(self.x@, s@),
            r.y@ == smul(self.y@, s@),
            r.z@ == smul(self.z@, s@),
    {
        Vec3 { x: self.x.mul(s), y: self.y.mul(s), z: self.z.mul(s) }
    }

    /// Componentwise fixed-point division by a scalar.
    pub fn div(self, s: Scalar) -> (r: Vec3)
        requires
            s@ != 0,
            i64::MIN <= sdivq(self.x@, s@) <= i64::MAX,
            i64::MIN <= sdivq(self.y@, s@) <= i64::MAX,
            i64::MIN <= sdivq(self.z@, s@) <= i64::MAX,
        ensures
            r.x@ == sdivq(self.x@, s@),
            r.y@ == sdivq(self.y@, s@),
            r.z@ == sdivq(self.z@, s@),
    {
        Vec3 { x: self.x.div(s), y: self.y.div(s), z: self.z.div(s) }
    }

    /// Fixed-point dot product: the unscaled sum of products, scaled
    /// back down once.
    pub fn dot(self, rhs: Vec3) -> (r: Scalar)
        requires
            in_range(self, COMP_LIMIT as int),
            in_range(rhs, COMP_LIMIT as int),
            i64::MIN <= tdiv(dot_num(self, rhs), scale()) <= i64::MAX,
        ensures
            r@ == tdiv(dot_num(self, rhs), scale()),
    {
        proof {
            lemma_abs_mul_bound(self.x@, rhs.x@, COMP_LIMIT as int, COMP_LIMIT as int);
            lemma_abs_mul_bound(self.y@, rhs.y@, COMP_LIMIT as int, COMP_LIMIT as int);
            lemma_abs_mul_bound(self.z@, rhs.z@, COMP_LIMIT as int, COMP_LIMIT as int);
        }
        let px: i128 = (self.x.raw as i128) * (rhs.x.raw as i128);
        let py: i128 = (self.y.raw as i128) * (rhs.y.raw as i128);
        let pz: i128 = (self.z.raw as i128) * (rhs.z.raw as i128);
        let s: i128 = px + py + pz;
        let q: i128 = tdiv_i128(s, SCALE as i128);
        Scalar { raw: q as i64 }
    }

    /// Fixed-point cross product: each component is the unscaled
    /// determinant, scaled back down once.
    pub fn cross(self, rhs: Vec3) -> (r: Vec3)
        requires
            in_range(self, COMP_LIMIT as int),
            in_range(rhs, COMP_LIMIT as int),
            i64::MIN <= tdiv(cross_num_x(self, rhs), scale()) <= i64::MAX,
            i64::MIN <= tdiv(cross_num_y(self, rhs), scale()) <= i64::MAX,
            i64::MIN <= tdiv(cross_num_z(self, rhs), scale()) <= i64::MAX,
        ensures
            r.x@ == tdiv(cross_num_x(self, rhs), scale()),
            r.y@ == tdiv(cross_num_y(self, rhs), scale()),
            r.z@ == tdiv(cross_num_z(self, rhs), scale()),
    {
        proof {
            lemma_abs_mul_bound(self.y@, rhs.z@, COMP_LIMIT as int, COMP_LIMIT as int);
            lemma_abs_mul_bound(self.z@, rhs.y@, COMP_LIMIT as int, COMP_LIMIT as int);
            lemma_abs_mul_bound(self.z@, rhs.x@, COMP_LIMIT as int, COMP_LIMIT as int);
            lemma_abs_mul_bound(self.x@, rhs.z@, COMP_LIMIT as int, COMP_LIMIT as int);
            lemma_abs_mul_bound(self.x@, rhs.y@, COMP_LIMIT as int, COMP_LIMIT as int);
            lemma_abs_mul_bound(self.y@, rhs.x@, COMP_LIMIT as int, COMP_LIMIT as int);
        }
        let nx: i128 = (self.y.raw as i128) * (rhs.z.raw as i128)
            - (self.z.raw as i128) * (rhs.y.raw as i128);
        let ny: i128 = (self.z.raw as i128) * (rhs.x.raw as i128)
            - (self.x.raw as i128) * (rhs.z.raw as i128);
        let nz: i128 = (self.x.raw as i128) * (rhs.y.raw as i128)
            - (self.y.raw as i128) * (rhs.x.raw as i128);
        let qx: i128 = tdiv_i128(nx, SCALE as i128);
        let qy: i128 = tdiv_i128(ny, SCALE as i128);
        let qz: i128 = tdiv_i128(nz, SCALE as i128);
        Vec3 {
            x: Scalar { raw: qx as i64 },
            y: Scalar { raw: qy as i64 },
            z: Scalar { raw: qz as i64 },
        }
    }

    /// Rotate about the x axis by an angle in radians, following the
    /// right-hand rule: each component combines the rotation row with
    /// the vector in one rounding step.
    pub fn rotate_x(self, radians: Scalar) -> (r: Vec3)
        requires
            radians@ > i64::MIN,
            in_range(self, 1_000_000_000_000),
        ensures
            r.x@ == self.x@,
            r.y@ == lincomb3(
                cos_num(radians@),
                self.y@,
                -sin_num(radians@),
                self.z@,
                0,
                0,
            ),
            r.z@ == lincomb3(
                sin_num(radians@),
                self.y@,
                cos_num(radians@),
                self.z@,
                0,
                0,
            ),
            in_range(r, 3_000_000_000_000),
    {
        let (s, c) = crate::trig::sincos(radians);
        proof {
            lemma_rotation_comb(c@, self.y@, -s@, self.z@);
            lemma_rotation_comb(s@, self.y@, c@, self.z@);
        }
        Vec3 {
            x: self.x,
            y: Scalar { raw: lincomb3_exec(c.raw, self.y.raw, -s.raw, self.z.raw, 0, 0) },
            z: Scalar { raw: lincomb3_exec(s.raw, self.y.raw, c.raw, self.z.raw, 0, 0) },
        }
    }

    /// Rotate about the y axis by an angle in radians, following the
    /// right-hand rule.
    pub fn rotate_y(self, radians: Scalar) -> (r: Vec3)
        requires
            radians@ > i64::MIN,
            in_range(self, 1_000_000_000_000),
        ensures
            r.x@ == lincomb3(
                cos_num(radians@),
                self.x@,
                sin_num(radians@),
                self.z@,
                0,
                0,
            ),
            r.y@ == self.y@,
            r.z@ == lincomb3(
                -sin_num(radians@),
                self.x@,
                cos_num(radians@),
                self.z@,
                0,
                0,
            ),
            in_range(r, 3_000_000_000_000),
    {
        let (s, c) = crate::trig::sincos(radians);
        proof {
            lemma_rotation_comb(c@, self.x@, s@, self.z@);
            lemma_rotation_comb(-s@, self.x@, c@, self.z@);
        }
        Vec3 {
            x: Scalar { raw: lincomb3_exec(c.raw, self.x.raw, s.raw, self.z.raw, 0, 0) },
            y: self.y,
            z: Scalar { raw: lincomb3_exec(-s.raw, self.x.raw, c.raw, self.z.raw, 0, 0) },
        }
    }

    /// The magnitude: the integer square root of the unscaled self dot
    /// product, which is the fixed-point length of the vector.
    pub fn mag(self) -> (r: Scalar)
        requires
            in_range(self, COMP_LIMIT as int),
        ensures
            r@ == mag_num(self),
            is_isqrt(r@, dot_num(self, self)),
            0 <= r@ < 4_000_000_000_000_000_000,
    {
        proof {
            lemma_abs_mul_bound(self.x@, self.x@, COMP_LIMIT as int, COMP_LIMIT as int);
            lemma_abs_mul_bound(self.y@, self.y@, COMP_LIMIT as int, COMP_LIMIT as int);
            lemma_abs_mul_bound(self.z@, self.z@, COMP_LIMIT as int, COMP_LIMIT as int);
            lemma_squares_nonneg(self);
        }
        let px: i128 = (self.x.raw as i128) * (self.x.raw as i128);
        let py: i128 = (self.y.raw as i128) * (self.y.raw as i128);
        let pz: i128 = (self.z.raw as i128) * (self.z.raw as i128);
        let s: u128 = (px + py + pz) as u128;
        let m: u64 = isqrt_u128(s);
        proof {
            lemma_isqrt_num(s as int);
            lemma_isqrt_unique(m as int, isqrt_num(s as int), s as int);
            assert(m < 4_000_000_000_000_000_000u64) by (nonlinear_arith)
                requires
                    (m as int) * (m as int) <= s as int,
                    s as int <= 3 * (2_000_000_000_000_000_000int * 2_000_000_000_000_000_000int),
            ;
        }
        Scalar { raw: m as i64 }
    }

    /// Normalize: each component is scaled up and divided by the
    /// magnitude, with truncation toward zero. The caller must rule out
    /// the zero vector.
    pub fn unit(self) -> (r: Vec3)
        requires
            in_range(self, COMP_LIMIT as int),
            dot_num(self, self) > 0,
        ensures
            r.x@ == tdiv(self.x@ * scale(), mag_num(self)),
            r.y@ == tdiv(self.y@ * scale(), mag_num(self)),
            r.z@ == tdiv(self.z@ * scale(), mag_num(self)),
            in_range(r, scale()),
    {
        let m = self.mag();
        proof {
            assert(m@ > 0) by (nonlinear_arith)
                requires
                    is_isqrt(m@, dot_num(self, self)),
                    dot_num(self, self) > 0,
            ;
            lemma_unit_components(self, m@);
            lemma_i64_product_fits(self.x@, SCALE as int);
            lemma_i64_product_fits(self.y@, SCALE as int);
            lemma_i64_product_fits(self.z@, SCALE as int);
        }
        let ux: i128 = tdiv_i128((self.x.raw as i128) * (SCALE as i128), m.raw as i128);
        let uy: i128 = tdiv_i128((self.y.raw as i128) * (SCALE as i128), m.raw as i128);
        let uz: i128 = tdiv_i128((self.z.raw as i128) * (SCALE as i128), m.raw as i128);
        Vec3 {
            x: Scalar { raw: ux as i64 },
            y: Scalar { raw: uy as i64 },
            z: Scalar { raw: uz as i64 },
        }
    }
}

/// A two-term rotation row applied to bounded components stays within
/// three times the component bound.
proof fn lemma_rotation_comb(a1: int, b1: int, a2: int, b2: int)
    requires
        -1_000_000 <= a1 <= 1_000_000,
        -1_000_000 <= a2 <= 1_000_000,
        -1_000_000_000_000 <= b1 <= 1_000_000_000_000,
        -1_000_000_000_000 <= b2 <= 1_000_000_000_000,
    ensures
        -3_000_000_000_000 <= lincomb3(a1, b1, a2, b2, 0, 0) <= 3_000_000_000_000,
{
    crate::fixed::lemma_lincomb3_in(a1, b1, a2, b2, 0, 0, 1_000_000int, 1_000_000_000_000int);
    assert((3 * (1_000_000int * 1_000_000_000_000int)) / (SCALE as int)
        == 3_000_000_000_000int) by (nonlinear_arith);
}

/// The cross product is orthogonal to both of its factors: before any
/// rounding, its dot product with either factor vanishes exactly.
pub proof fn lemma_cross_orthogonal(a: Vec3, b: Vec3)
    ensures
        cross_num_x(a, b) * a.x@ + cross_num_y(a, b) * a.y@ + cross_num_z(a, b) * a.z@ == 0,
        cross_num_x(a, b) * b.x@ + cross_num_y(a, b) * b.y@ + cross_num_z(a, b) * b.z@ == 0,
{
    let (ax, ay, az) = (a.x@, a.y@, a.z@);
    let (bx, by, bz) = (b.x@, b.y@, b.z@);
    assert((ay * bz - az * by) * ax + (az * bx - ax * bz) * ay + (ax * by - ay * bx) * az
        == 0) by (nonlinear_arith);
    assert((ay * bz - az * by) * bx + (az * bx - ax * bz) * by + (ax * by - ay * bx) * bz
        == 0) by (nonlinear_arith);
}

/// Orthogonality survives the fixed-point rounding up to one rounding
/// error per component: the unscaled dot product of the rounded cross
/// product with a factor `v` is at most `|v.x| + |v.y| + |v.z|`, a few
/// millionths of a unit per unit of `v`.
pub proof fn lemma_cross_dot_tolerance(a: Vec3, b: Vec3, c: Vec3, v: Vec3)
    requires
        c.x@ == tdiv(cross_num_x(a, b), scale()),
        c.y@ == tdiv(cross_num_y(a, b), scale()),
        c.z@ == tdiv(cross_num_z(a, b), scale()),
        cross_num_x(a, b) * v.x@ + cross_num_y(a, b) * v.y@ + cross_num_z(a, b) * v.z@ == 0,
    ensures
        -(abs_i(v.x@) + abs_i(v.y@) + abs_i(v.z@)) <= dot_num(c, v)
            <= abs_i(v.x@) + abs_i(v.y@) + abs_i(v.z@),
{
    let s = scale();
    let nx = cross_num_x(a, b);
    let ny = cross_num_y(a, b);
    let nz = cross_num_z(a, b);
    lemma_tdiv_rem(nx, s);
    lemma_tdiv_rem(ny, s);
    lemma_tdiv_rem(nz, s);
    let ex = tmod(nx, s);
    let ey = tmod(ny, s);
    let ez = tmod(nz, s);
    assert(s * (c.x@ * v.x@) == nx * v.x@ - ex * v.x@) by (nonlinear_arith)
        requires
            nx == s * c.x@ + ex,
    ;
    assert(s * (c.y@ * v.y@) == ny * v.y@ - ey * v.y@) by (nonlinear_arith)
        requires
            ny == s * c.y@ + ey,
    ;
    assert(s * (c.z@ * v.z@) == nz * v.z@ - ez * v.z@) by (nonlinear_arith)
        requires
            nz == s * c.z@ + ez,
    ;
    assert(s * dot_num(c, v) == s * (c.x@ * v.x@) + s * (c.y@ * v.y@) + s * (c.z@ * v.z@))
        by (nonlinear_arith)
        requires
            dot_num(c, v) == c.x@ * v.x@ + c.y@ * v.y@ + c.z@ * v.z@,
    ;
    assert(s * dot_num(c, v) == -(ex * v.x@ + ey * v.y@ + ez * v.z@));
    lemma_abs_mul_bound(ex, v.x@, s, abs_i(v.x@));
    lemma_abs_mul_bound(ey, v.y@, s, abs_i(v.y@));
    lemma_abs_mul_bound(ez, v.z@, s, abs_i(v.z@));
    let bound = abs_i(v.x@) + abs_i(v.y@) + abs_i(v.z@);
    assert(s * bound == s * abs_i(v.x@) + s * abs_i(v.y@) + s * abs_i(v.z@))
        by (nonlinear_arith)
        requires
            bound == abs_i(v.x@) + abs_i(v.y@) + abs_i(v.z@),
    ;
    assert(-(s * bound) <= s * dot_num(c, v) <= s * bound);
    assert(-bound <= dot_num(c, v) <= bound) by (nonlinear_arith)
        requires
            s > 0,
            -(s * bound) <= s * dot_num(c, v) <= s * bound,
    ;
}

/// One normalized component, scaled back by the magnitude: its square
/// differs from the exact square by at most one magnitude-square of
/// rounding slack on each side.
proof fn lemma_unit_comp(vi: int, m: int, ui: int)
    requires
        m > 0,
        -m <= vi <= m,
        ui == tdiv(vi * scale(), m),
    ensures
        vi * vi * (scale() * scale()) - 2 * scale() * (m * m) <= (m * ui) * (m * ui),
        (m * ui) * (m * ui) <= vi * vi * (scale() * scale()) + m * m,
        (m * ui) * (m * ui) == (m * m) * (ui * ui),
{
    let s = scale();
    lemma_tdiv_rem(vi * s, m);
    let e = tmod(vi * s, m);
    assert(m * ui == vi * s - e);
    assert((vi >= 0 ==> vi * s >= 0) && (vi <= 0 ==> vi * s <= 0)) by (nonlinear_arith)
        requires
            s > 0,
    ;
    assert(vi * s * e >= 0) by (nonlinear_arith)
        requires
            (vi * s >= 0 ==> e >= 0) && (vi * s <= 0 ==> e <= 0),
    ;
    assert(e * e >= 0) by (nonlinear_arith);
    assert(e * e <= m * m) by (nonlinear_arith)
        requires
            -m < e < m,
    ;
    assert(vi * s * e <= (m * s) * m) by (nonlinear_arith)
        requires
            -m <= vi <= m,
            -m < e < m,
            s > 0,
            m > 0,
    ;
    assert((vi * s - e) * (vi * s - e) == vi * vi * (s * s) - 2 * (vi * s * e) + e * e)
        by (nonlinear_arith);
    assert((m * ui) * (m * ui) == (vi * s - e) * (vi * s - e)) by (nonlinear_arith)
        requires
            m * ui == vi * s - e,
    ;
    assert(2 * (vi * s * e) <= 2 * s * (m * m)) by (nonlinear_arith)
        requires
            vi * s * e <= (m * s) * m,
    ;
    assert((m * ui) * (m * ui) == (m * m) * (ui * ui)) by (nonlinear_arith);
}

/// Normalizing keeps the magnitude within a few millionths of one:
/// for any vector at least one unit long, the magnitude of its
/// normalized form differs from one unit by at most four ticks. (For
/// vectors much shorter than a unit the fixed-point grid is too
/// coarse for this to hold.)
pub proof fn lemma_unit_magnitude(v: Vec3, u: Vec3)
    requires
        in_range(v, COMP_LIMIT as int),
        dot_num(v, v) >= scale() * scale(),
        u.x@ == tdiv(v.x@ * scale(), mag_num(v)),
        u.y@ == tdiv(v.y@ * scale(), mag_num(v)),
        u.z@ == tdiv(v.z@ * scale(), mag_num(v)),
    ensures
        scale() - 4 <= mag_num(u) <= scale() + 1,
{
    let s = scale();
    let d = dot_num(v, v);
    let m = mag_num(v);
    lemma_squares_nonneg(v);
    lemma_isqrt_num(d);
    assert(m >= s) by (nonlinear_arith)
        requires
            is_isqrt(m, d),
            d >= s * s,
            s > 0,
    ;
    assert(-m <= v.x@ <= m && -m <= v.y@ <= m && -m <= v.z@ <= m) by (nonlinear_arith)
        requires
            0 <= m,
            v.x@ * v.x@ <= d < (m + 1) * (m + 1),
            v.y@ * v.y@ <= d < (m + 1) * (m + 1),
            v.z@ * v.z@ <= d < (m + 1) * (m + 1),
            v.x@ * v.x@ >= 0,
            v.y@ * v.y@ >= 0,
            v.z@ * v.z@ >= 0,
            d == v.x@ * v.x@ + v.y@ * v.y@ + v.z@ * v.z@,
    ;
    lemma_unit_comp(v.x@, m, u.x@);
    lemma_unit_comp(v.y@, m, u.y@);
    lemma_unit_comp(v.z@, m, u.z@);
    let n = dot_num(u, u);
    assert((m * m) * n == (m * u.x@) * (m * u.x@) + (m * u.y@) * (m * u.y@) + (m * u.z@) * (m
        * u.z@)) by (nonlinear_arith)
        requires
            n == u.x@ * u.x@ + u.y@ * u.y@ + u.z@ * u.z@,
            (m * u.x@) * (m * u.x@) == (m * m) * (u.x@ * u.x@),
            (m * u.y@) * (m * u.y@) == (m * m) * (u.y@ * u.y@),
            (m * u.z@) * (m * u.z@) == (m * m) * (u.z@ * u.z@),
    ;
    assert(d * (s * s) - 6 * s * (m * m) <= (m * m) * n <= d * (s * s) + 3 * (m * m))
        by (nonlinear_arith)
        requires
            (m * m) * n == (m * u.x@) * (m * u.x@) + (m * u.y@) * (m * u.y@) + (m * u.z@) * (m
                * u.z@),
            v.x@ * v.x@ * (s * s) - 2 * s * (m * m) <= (m * u.x@) * (m * u.x@) <= v.x@ * v.x@ * (
            s * s) + m * m,
            v.y@ * v.y@ * (s * s) - 2 * s * (m * m) <= (m * u.y@) * (m * u.y@) <= v.y@ * v.y@ * (
            s * s) + m * m,
            v.z@ * v.z@ * (s * s) - 2 * s * (m * m) <= (m * u.z@) * (m * u.z@) <= v.z@ * v.z@ * (
            s * s) + m * m,
            d == v.x@ * v.x@ + v.y@ * v.y@ + v.z@ * v.z@,
    ;
    assert(n >= s * s - 6 * s) by (nonlinear_arith)
        requires
            (m * m) * n >= d * (s * s) - 6 * s * (m * m),
            d >= m * m,
            m > 0,
            s > 0,
    ;
    assert(n <= s * s + 3 * s + 3) by (nonlinear_arith)
        requires
            (m * m) * n <= d * (s * s) + 3 * (m * m),
            d < (m + 1) * (m + 1),
            m >= s,
            s > 1,
    ;
    lemma_squares_nonneg(u);
    lemma_isqrt_num(n);
    let r = isqrt_num(n);
    assert(r >= s - 4) by (nonlinear_arith)
        requires
            is_isqrt(r, n),
            n >= s * s - 6 * s,
            s == 1_000_000,
    ;
    assert(r <= s + 1) by (nonlinear_arith)
        requires
            is_isqrt(r, n),
            n <= s * s + 3 * s + 3,
            s == 1_000_000,
    ;
}

/// A sum of squares is nonnegative.
proof fn lemma_squares_nonneg(v: Vec3)
    ensures
        dot_num(v, v) >= 0,
        v.x@ * v.x@ >= 0,
        v.y@ * v.y@ >= 0,
        v.z@ * v.z@ >= 0,
{
    assert(v.x@ * v.x@ >= 0) by (nonlinear_arith);
    assert(v.y@ * v.y@ >= 0) by (nonlinear_arith);
    assert(v.z@ * v.z@ >= 0) by (nonlinear_arith);
}

/// Each scaled-up component divided by the magnitude lies within one
/// fixed-point unit.
proof fn lemma_unit_components(v: Vec3, m: int)
    requires
        is_isqrt(m, dot_num(v, v)),
        m > 0,
    ensures
        -scale() <= tdiv(v.x@ * scale(), m) <= scale(),
        -scale() <= tdiv(v.y@ * scale(), m) <= scale(),
        -scale() <= tdiv(v.z@ * scale(), m) <= scale(),
{
    lemma_squares_nonneg(v);
    assert(-m <= v.x@ <= m && -m <= v.y@ <= m && -m <= v.z@ <= m) by (nonlinear_arith)
        requires
            0 <= m,
            v.x@ * v.x@ <= dot_num(v, v) < (m + 1) * (m + 1),
            v.y@ * v.y@ <= dot_num(v, v) < (m + 1) * (m + 1),
            v.z@ * v.z@ <= dot_num(v, v) < (m + 1) * (m + 1),
            v.x@ * v.x@ >= 0,
            v.y@ * v.y@ >= 0,
            v.z@ * v.z@ >= 0,
            dot_num(v, v) == v.x@ * v.x@ + v.y@ * v.y@ + v.z@ * v.z@,
    ;
    lemma_abs_mul_bound(v.x@, scale(), m, scale());
    lemma_abs_mul_bound(v.y@, scale(), m, scale());
    lemma_abs_mul_bound(v.z@, scale(), m, scale());
    lemma_tdiv_in(v.x@ * scale(), m, m * scale());
    lemma_tdiv_in(v.y@ * scale(), m, m * scale());
    lemma_tdiv_in(v.z@ * scale(), m, m * scale());
    assert((m * scale()) / m == scale()) by (nonlinear_arith)
        requires
            m > 0,
    ;
}

} // verus!
