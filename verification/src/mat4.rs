use vstd::prelude::*;

use crate::fixed::{
    lemma_lincomb4_in, lincomb4, lincomb4_exec, scale, sdivq, smul, tdiv, tdiv_any, tdiv_i64,
    tdiv_i128, lemma_i64_product_fits, Scalar, COMP_LIMIT, SCALE,
};
use crate::trig::{cos_num, sin_num, sincos};
use crate::vec3::Vec3;

verus! {

/// A column vector with four fixed-point components.
#[derive(Clone, Copy, Debug, PartialEq, Eq, Structural)]
pub struct Vec4 {
    pub x: Scalar,
    pub y: Scalar,
    pub z: Scalar,
    pub w: Scalar,
}

/// All components lie within `[-m, m]`.
pub open spec fn vec4_in_range(v: Vec4, m: int) -> bool {
    &&& -m <= v.x@ <= m
    &&& -m <= v.y@ <= m
    &&& -m <= v.z@ <= m
    &&& -m <= v.w@ <= m
}

/// A homogeneous transform stored as four fixed-point basis columns.
#[derive(Clone, Copy, Debug, PartialEq, Eq, Structural)]
pub struct Mat4 {
    pub x: Vec4,
    pub y: Vec4,
    pub z: Vec4,
    pub w: Vec4,
}

/// All entries lie within `[-m, m]`.
pub open spec fn mat4_in_range(m: Mat4, b: int) -> bool {
    &&& vec4_in_range(m.x, b)
    &&& vec4_in_range(m.y, b)
    &&& vec4_in_range(m.z, b)
    &&& vec4_in_range(m.w, b)
}

/// Largest raw magnitude a projection entry may take: the projection
/// clamps its focal and depth factors here, so that composing it with
/// rotations and a translation never overflows.
pub const PROJ_LIMIT: i64 = 32_000_000_000;

/// The cotangent of half the field of view: the projection's focal
/// factor. Degenerate half-angle sines fall back to a focal factor of
/// one rather than dividing by zero.
pub open spec fn cot_half_num(fov: int) -> int {
    let h = tdiv(fov, 2);
    if sin_num(h) >= 1 {
        sdivq(cos_num(h), sin_num(h))
    } else {
        scale()
    }
}

/// Clamp a raw value into the projection entry range.
pub open spec fn clamp_proj(p: int) -> int {
    crate::fixed::iclamp(p, -(PROJ_LIMIT as int), PROJ_LIMIT as int)
}

/// A homogeneous column from a quadruple of raw values.
pub open spec fn vec4_of(t: (int, int, int, int)) -> Vec4 {
    Vec4 {
        x: Scalar { raw: t.0 as i64 },
        y: Scalar { raw: t.1 as i64 },
        z: Scalar { raw: t.2 as i64 },
        w: Scalar { raw: t.3 as i64 },
    }
}

/// The translation transform, as a spec value.
pub open spec fn translation_spec(vx: int, vy: int, vz: int) -> Mat4 {
    Mat4 {
        x: vec4_of((scale(), 0, 0, 0)),
        y: vec4_of((0, scale(), 0, 0)),
        z: vec4_of((0, 0, scale(), 0)),
        w: vec4_of((vx, vy, vz, scale())),
    }
}

/// The rotation about the x axis, as a spec value.
pub open spec fn rotation_x_spec(a: int) -> Mat4 {
    Mat4 {
        x: vec4_of((scale(), 0, 0, 0)),
        y: vec4_of((0, cos_num(a), sin_num(a), 0)),
        z: vec4_of((0, -sin_num(a), cos_num(a), 0)),
        w: vec4_of((0, 0, 0, scale())),
    }
}

/// The rotation about the y axis, as a spec value.
pub open spec fn rotation_y_spec(a: int) -> Mat4 {
    Mat4 {
        x: vec4_of((cos_num(a), 0, -sin_num(a), 0)),
        y: vec4_of((0, scale(), 0, 0)),
        z: vec4_of((sin_num(a), 0, cos_num(a), 0)),
        w: vec4_of((0, 0, 0, scale())),
    }
}

/// The perspective projection, as a spec value.
pub open spec fn perspective_spec(aspect: int, fov: int, near: int, far: int) -> Mat4 {
    let focal = clamp_proj(cot_half_num(fov));
    Mat4 {
        x: vec4_of((clamp_proj(sdivq(focal, aspect)), 0, 0, 0)),
        y: vec4_of((0, focal, 0, 0)),
        z: vec4_of((0, 0, -clamp_proj(sdivq(far + near, far - near)), -scale())),
        w: vec4_of((0, 0, -clamp_proj(tdiv_any(2 * (far * near), far - near)), 0)),
    }
}

/// Composition, as a spec value.
pub open spec fn mul_spec(a: Mat4, b: Mat4) -> Mat4 {
    Mat4 {
        x: vec4_of(a.mul_col_spec(b.x)),
        y: vec4_of(a.mul_col_spec(b.y)),
        z: vec4_of(a.mul_col_spec(b.z)),
        w: vec4_of(a.mul_col_spec(b.w)),
    }
}

/// Clamp a wide value into the projection entry range.
fn clamp_proj_exec(q: i128) -> (r: i64)
    ensures
        r as int == clamp_proj(q as int),
        -PROJ_LIMIT <= r <= PROJ_LIMIT,
{
    if q > PROJ_LIMIT as i128 {
        PROJ_LIMIT
    } else if q < -PROJ_LIMIT as i128 {
        -PROJ_LIMIT
    } else {
        q as i64
    }
}

impl Mat4 {
    /// The translation by `v`: the identity with `v` as the fourth
    /// column.
    pub fn translation(v: Vec3) -> (r: Mat4)
        ensures
            r.x.x@ == scale() && r.x.y@ == 0 && r.x.z@ == 0 && r.x.w@ == 0,
            r.y.x@ == 0 && r.y.y@ == scale() && r.y.z@ == 0 && r.y.w@ == 0,
            r.z.x@ == 0 && r.z.y@ == 0 && r.z.z@ == scale() && r.z.w@ == 0,
            r.w.x@ == v.x@ && r.w.y@ == v.y@ && r.w.z@ == v.z@ && r.w.w@ == scale(),
            r == translation_spec(v.x@, v.y@, v.z@),
    {
        let o = Scalar { raw: 0 };
        let i = Scalar { raw: SCALE };
        Mat4 {
            x: Vec4 { x: i, y: o, z: o, w: o },
            y: Vec4 { x: o, y: i, z: o, w: o },
            z: Vec4 { x: o, y: o, z: i, w: o },
            w: Vec4 { x: v.x, y: v.y, z: v.z, w: i },
        }
    }

    /// Right-handed rotation about the x axis by an angle in radians.
    pub fn rotation_x(radians: Scalar) -> (r: Mat4)
        requires
            radians@ > i64::MIN,
        ensures
            r.x.x@ == scale() && r.x.y@ == 0 && r.x.z@ == 0 && r.x.w@ == 0,
            r.y.x@ == 0 && r.y.y@ == cos_num(radians@) && r.y.z@ == sin_num(radians@) && r.y.w@
                == 0,
            r.z.x@ == 0 && r.z.y@ == -sin_num(radians@) && r.z.z@ == cos_num(radians@) && r.z.w@
                == 0,
            r.w.x@ == 0 && r.w.y@ == 0 && r.w.z@ == 0 && r.w.w@ == scale(),
            mat4_in_range(r, scale()),
            r == rotation_x_spec(radians@),
    {
        let (s, c) = sincos(radians);
        let o = Scalar { raw: 0 };
        let i = Scalar { raw: SCALE };
        Mat4 {
            x: Vec4 { x: i, y: o, z: o, w: o },
            y: Vec4 { x: o, y: c, z: s, w: o },
            z: Vec4 { x: o, y: Scalar { raw: -s.raw }, z: c, w: o },
            w: Vec4 { x: o, y: o, z: o, w: i },
        }
    }

    /// Right-handed rotation about the y axis by an angle in radians.
    pub fn rotation_y(radians: Scalar) -> (r: Mat4)
        requires
            radians@ > i64::MIN,
        ensures
            r.x.x@ == cos_num(radians@) && r.x.y@ == 0 && r.x.z@ == -sin_num(radians@) && r.x.w@
                == 0,
            r.y.x@ == 0 && r.y.y@ == scale() && r.y.z@ == 0 && r.y.w@ == 0,
            r.z.x@ == sin_num(radians@) && r.z.y@ == 0 && r.z.z@ == cos_num(radians@) && r.z.w@
                == 0,
            r.w.x@ == 0 && r.w.y@ == 0 && r.w.z@ == 0 && r.w.w@ == scale(),
            mat4_in_range(r, scale()),
            r == rotation_y_spec(radians@),
    {
        let (s, c) = sincos(radians);
        let o = Scalar { raw: 0 };
        let i = Scalar { raw: SCALE };
        Mat4 {
            x: Vec4 { x: c, y: o, z: Scalar { raw: -s.raw }, w: o },
            y: Vec4 { x: o, y: i, z: o, w: o },
            z: Vec4 { x: s, y: o, z: c, w: o },
            w: Vec4 { x: o, y: o, z: o, w: i },
        }
    }

    /// The symmetric perspective projection: view space to clip space,
    /// with the fourth row arranging the perspective divide by `-z`.
    /// Every computed entry is clamped into the projection entry range,
    /// so extreme parameters saturate instead of overflowing.
    pub fn perspective(aspect: Scalar, fov: Scalar, near: Scalar, far: Scalar) -> (r: Mat4)
        requires
            aspect@ > 0,
            0 < near@ < far@ <= COMP_LIMIT,
            fov@ > i64::MIN,
            far@ + near@ <= i64::MAX,
        ensures
            r == perspective_spec(aspect@, fov@, near@, far@),
            mat4_in_range(r, PROJ_LIMIT as int),
    {
        let h: i64 = tdiv_i64(fov.raw, 2);
        let (sh, ch) = sincos(Scalar { raw: h });
        let f: i64 = if sh.raw >= 1 {
            proof {
                lemma_i64_product_fits(ch@, SCALE as int);
                crate::fixed::lemma_tdiv_in(ch@ * scale(), sh@, 1_000_000_000_000int);
            }
            let q: i128 = tdiv_i128((ch.raw as i128) * (SCALE as i128), sh.raw as i128);
            clamp_proj_exec(q)
        } else {
            SCALE
        };
        proof {
            lemma_i64_product_fits(f as int, SCALE as int);
        }
        let fa: i64 = clamp_proj_exec(tdiv_i128((f as i128) * (SCALE as i128), aspect.raw as i128));
        proof {
            lemma_i64_product_fits(far@ + near@, SCALE as int);
        }
        let zz: i64 = clamp_proj_exec(tdiv_i128(
            ((far.raw + near.raw) as i128) * (SCALE as i128),
            (far.raw - near.raw) as i128,
        ));
        proof {
            crate::fixed::lemma_abs_mul_bound(far@, near@, COMP_LIMIT as int, COMP_LIMIT as int);
        }
        let p2: i128 = 2 * ((far.raw as i128) * (near.raw as i128));
        let wz: i64 = clamp_proj_exec(tdiv_i128(p2, (far.raw - near.raw) as i128));
        let o = Scalar { raw: 0 };
        Mat4 {
            x: Vec4 { x: Scalar { raw: fa }, y: o, z: o, w: o },
            y: Vec4 { x: o, y: Scalar { raw: f }, z: o, w: o },
            z: Vec4 { x: o, y: o, z: Scalar { raw: -zz }, w: Scalar { raw: -SCALE } },
            w: Vec4 { x: o, y: o, z: Scalar { raw: -wz }, w: o },
        }
    }

    /// The raw components of this transform applied to a column.
    pub open spec fn mul_col_spec(self, c: Vec4) -> (int, int, int, int) {
        (
            lincomb4(self.x.x@, c.x@, self.y.x@, c.y@, self.z.x@, c.z@, self.w.x@, c.w@),
            lincomb4(self.x.y@, c.x@, self.y.y@, c.y@, self.z.y@, c.z@, self.w.y@, c.w@),
            lincomb4(self.x.z@, c.x@, self.y.z@, c.y@, self.z.z@, c.z@, self.w.z@, c.w@),
            lincomb4(self.x.w@, c.x@, self.y.w@, c.y@, self.z.w@, c.z@, self.w.w@, c.w@),
        )
    }

    /// All four combinations for a column stay in the 64-bit range.
    pub open spec fn mul_col_fits(self, c: Vec4) -> bool {
        let (a, b, d, e) = self.mul_col_spec(c);
        &&& i64::MIN <= a <= i64::MAX
        &&& i64::MIN <= b <= i64::MAX
        &&& i64::MIN <= d <= i64::MAX
        &&& i64::MIN <= e <= i64::MAX
    }

    /// Apply the transform to a homogeneous column: each component
    /// combines one row with the column in a single rounding step.
    pub fn mul_vec4(self, c: Vec4) -> (r: Vec4)
        requires
            mat4_in_range(self, COMP_LIMIT as int),
            vec4_in_range(c, COMP_LIMIT as int),
            self.mul_col_fits(c),
        ensures
            (r.x@, r.y@, r.z@, r.w@) == self.mul_col_spec(c),
    {
        Vec4 {
            x: Scalar {
                raw: lincomb4_exec(self.x.x.raw, c.x.raw, self.y.x.raw, c.y.raw, self.z.x.raw,
                    c.z.raw, self.w.x.raw, c.w.raw),
            },
            y: Scalar {
                raw: lincomb4_exec(self.x.y.raw, c.x.raw, self.y.y.raw, c.y.raw, self.z.y.raw,
                    c.z.raw, self.w.y.raw, c.w.raw),
            },
            z: Scalar {
                raw: lincomb4_exec(self.x.z.raw, c.x.raw, self.y.z.raw, c.y.raw, self.z.z.raw,
                    c.z.raw, self.w.z.raw, c.w.raw),
            },
            w: Scalar {
                raw: lincomb4_exec(self.x.w.raw, c.x.raw, self.y.w.raw, c.y.raw, self.z.w.raw,
                    c.z.raw, self.w.w.raw, c.w.raw),
            },
        }
    }

    /// Compose two transforms: each column of the result is this
    /// transform applied to the corresponding column of `rhs`, so the
    /// product applied to a vector is this applied after `rhs`.
    pub fn mul_mat(self, rhs: Mat4) -> (r: Mat4)
        requires
            mat4_in_range(self, COMP_LIMIT as int),
            mat4_in_range(rhs, COMP_LIMIT as int),
            self.mul_col_fits(rhs.x),
            self.mul_col_fits(rhs.y),
            self.mul_col_fits(rhs.z),
            self.mul_col_fits(rhs.w),
        ensures
            (r.x.x@, r.x.y@, r.x.z@, r.x.w@) == self.mul_col_spec(rhs.x),
            (r.y.x@, r.y.y@, r.y.z@, r.y.w@) == self.mul_col_spec(rhs.y),
            (r.z.x@, r.z.y@, r.z.z@, r.z.w@) == self.mul_col_spec(rhs.z),
            (r.w.x@, r.w.y@, r.w.z@, r.w.w@) == self.mul_col_spec(rhs.w),
            r == mul_spec(self, rhs),
    {
        Mat4 {
            x: self.mul_vec4(rhs.x),
            y: self.mul_vec4(rhs.y),
            z: self.mul_vec4(rhs.z),
            w: self.mul_vec4(rhs.w),
        }
    }
}

/// Everything a bounded transform does to a bounded column is bounded:
/// the combinations fit and stay within the scaled product of the
/// bounds.
pub proof fn lemma_mul_col_in(m: Mat4, c: Vec4, aa: int, bb: int)
    requires
        mat4_in_range(m, aa),
        vec4_in_range(c, bb),
        0 <= aa,
        0 <= bb,
    ensures
        ({
            let (x, y, z, w) = m.mul_col_spec(c);
            let q = (4 * (aa * bb)) / scale();
            -q <= x <= q && -q <= y <= q && -q <= z <= q && -q <= w <= q
        }),
{
    lemma_lincomb4_in(m.x.x@, c.x@, m.y.x@, c.y@, m.z.x@, c.z@, m.w.x@, c.w@, aa, bb);
    lemma_lincomb4_in(m.x.y@, c.x@, m.y.y@, c.y@, m.z.y@, c.z@, m.w.y@, c.w@, aa, bb);
    lemma_lincomb4_in(m.x.z@, c.x@, m.y.z@, c.y@, m.z.z@, c.z@, m.w.z@, c.w@, aa, bb);
    lemma_lincomb4_in(m.x.w@, c.x@, m.y.w@, c.y@, m.z.w@, c.z@, m.w.w@, c.w@, aa, bb);
}

/// Bounded transforms compose within bounds.
pub proof fn lemma_mat4_mul_in(a: Mat4, b: Mat4, aa: int, bb: int)
    requires
        mat4_in_range(a, aa),
        mat4_in_range(b, bb),
        0 <= aa,
        0 <= bb,
        (4 * (aa * bb)) / scale() <= i64::MAX,
    ensures
        a.mul_col_fits(b.x) && a.mul_col_fits(b.y) && a.mul_col_fits(b.z) && a.mul_col_fits(b.w),
        ({
            let q = (4 * (aa * bb)) / scale();
            let (xx, xy, xz, xw) = a.mul_col_spec(b.x);
            let (yx, yy, yz, yw) = a.mul_col_spec(b.y);
            let (zx, zy, zz, zw) = a.mul_col_spec(b.z);
            let (wx, wy, wz, ww) = a.mul_col_spec(b.w);
            -q <= xx <= q && -q <= xy <= q && -q <= xz <= q && -q <= xw <= q && -q <= yx <= q
                && -q <= yy <= q && -q <= yz <= q && -q <= yw <= q && -q <= zx <= q && -q <= zy
                <= q && -q <= zz <= q && -q <= zw <= q && -q <= wx <= q && -q <= wy <= q && -q
                <= wz <= q && -q <= ww <= q
        }),
{
    lemma_mul_col_in(a, b.x, aa, bb);
    lemma_mul_col_in(a, b.y, aa, bb);
    lemma_mul_col_in(a, b.z, aa, bb);
    lemma_mul_col_in(a, b.w, aa, bb);
}

} // verus!
