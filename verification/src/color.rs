use vstd::prelude::*;

use crate::fixed::{
    lemma_abs_mul_bound, lemma_div_shrinks, lemma_tdiv_in, lemma_tdiv_rem, scale, sdivq, smul,
    tdiv, tdiv_i64, Scalar, SCALE,
};

verus! {

/// A color with four fixed-point channels in `[0, 1]`.
#[derive(Clone, Copy, Debug, PartialEq, Eq, Structural)]
pub struct Color {
    pub r: Scalar,
    pub g: Scalar,
    pub b: Scalar,
    pub a: Scalar,
}

/// All channels of an HSV triple lie in range: the hue is a fraction
/// of a turn below one, saturation and value are fractions up to one.
pub open spec fn hsv_in_range(h: int, s: int, v: int) -> bool {
    &&& 0 <= h < scale()
    &&& 0 <= s <= scale()
    &&& 0 <= v <= scale()
}

/// The red, green and blue channels computed from an HSV triple: the
/// hue picks one of six sectors and the fractional part blends.
pub open spec fn hsv_to_rgb_spec(h: int, s: int, v: int) -> (int, int, int) {
    let i = tdiv(h * 6, scale());
    let f = h * 6 - i * scale();
    let p = smul(v, scale() - s);
    let q = smul(v, scale() - smul(f, s));
    let t = smul(v, scale() - smul(scale() - f, s));
    if i == 0 {
        (v, t, p)
    } else if i == 1 {
        (q, v, p)
    } else if i == 2 {
        (p, v, t)
    } else if i == 3 {
        (p, q, v)
    } else if i == 4 {
        (t, p, v)
    } else {
        (v, p, q)
    }
}

/// A sector ratio wrapped onto the hue circle: a negative ratio gains
/// one full turn of six sectors, so the hue it yields stays a fraction
/// of a turn in `[0, 1)`.
pub open spec fn wrap_sector(ratio: int) -> int {
    if ratio < 0 {
        ratio + 6 * scale()
    } else {
        ratio
    }
}

/// The HSV triple computed from red, green and blue channels: the hue
/// is a fraction of a full turn in `[0, 1)`, with the red-, green-
/// and blue-led sectors offset by zero, two and four sixths of a turn,
/// and a grey color (zero spread between the channels) has hue zero.
pub open spec fn rgb_to_hsv_spec(r: int, g: int, b: int) -> (int, int, int) {
    let cmax = if r >= g && r >= b {
        r
    } else if g >= b {
        g
    } else {
        b
    };
    let cmin = if r <= g && r <= b {
        r
    } else if g <= b {
        g
    } else {
        b
    };
    let delta = cmax - cmin;
    let h = if delta == 0 {
        0
    } else if r == cmax {
        tdiv(wrap_sector(sdivq(g - b, delta)), 6)
    } else if g == cmax {
        tdiv(sdivq(b - r, delta) + 2 * scale(), 6)
    } else {
        tdiv(sdivq(r - g, delta) + 4 * scale(), 6)
    };
    let s = if cmax == 0 {
        0
    } else {
        sdivq(delta, cmax)
    };
    (h, s, cmax)
}

impl Color {
    /// An opaque color from red, green and blue channels.
    pub fn from_rgb(r: Scalar, g: Scalar, b: Scalar) -> (c: Color)
        ensures
            c == (Color { r, g, b, a: Scalar { raw: SCALE } }),
    {
        Color { r, g, b, a: Scalar { raw: SCALE } }
    }

    /// A color from all four channels.
    pub fn from_rgba(r: Scalar, g: Scalar, b: Scalar, a: Scalar) -> (c: Color)
        ensures
            c == (Color { r, g, b, a }),
    {
        Color { r, g, b, a }
    }

    /// An opaque color from an HSV triple.
    pub fn from_hsv(h: Scalar, s: Scalar, v: Scalar) -> (c: Color)
        requires
            hsv_in_range(h@, s@, v@),
        ensures
            (c.r@, c.g@, c.b@) == hsv_to_rgb_spec(h@, s@, v@),
            c.a@ == scale(),
    {
        let (r, g, b) = Color::hsv_to_rgb(h, s, v);
        Color { r, g, b, a: Scalar { raw: SCALE } }
    }

    /// A color from an HSV triple and an alpha channel.
    pub fn from_hsva(h: Scalar, s: Scalar, v: Scalar, a: Scalar) -> (c: Color)
        requires
            hsv_in_range(h@, s@, v@),
        ensures
            (c.r@, c.g@, c.b@) == hsv_to_rgb_spec(h@, s@, v@),
            c.a == a,
    {
        let (r, g, b) = Color::hsv_to_rgb(h, s, v);
        Color { r, g, b, a }
    }

    /// The HSV triple of this color's red, green and blue channels;
    /// the alpha channel plays no part. The result is again a valid
    /// HSV triple, with the hue in `[0, 1)`.
    pub fn to_hsv(self) -> (hsv: (Scalar, Scalar, Scalar))
        requires
            0 <= self.r@ <= scale(),
            0 <= self.g@ <= scale(),
            0 <= self.b@ <= scale(),
        ensures
            (hsv.0@, hsv.1@, hsv.2@) == rgb_to_hsv_spec(self.r@, self.g@, self.b@),
            hsv_in_range(hsv.0@, hsv.1@, hsv.2@),
    {
        Color::rgb_to_hsv(self.r, self.g, self.b)
    }

    /// Sector-blend an HSV triple into red, green and blue channels.
    fn hsv_to_rgb(h: Scalar, s: Scalar, v: Scalar) -> (rgb: (Scalar, Scalar, Scalar))
        requires
            hsv_in_range(h@, s@, v@),
        ensures
            (rgb.0@, rgb.1@, rgb.2@) == hsv_to_rgb_spec(h@, s@, v@),
    {
        let i: i64 = tdiv_i64(h.raw * 6, SCALE);
        proof {
            lemma_tdiv_rem(h@ * 6, scale());
        }
        let f: i64 = h.raw * 6 - i * SCALE;
        proof {
            lemma_abs_mul_bound(f as int, s@, SCALE as int, SCALE as int);
            lemma_tdiv_in(f as int * s@, scale(), 1_000_000_000_000int);
            lemma_div_shrinks(f as int * s@, scale());
            assert(f as int * s@ >= 0) by (nonlinear_arith)
                requires
                    f >= 0,
                    s@ >= 0,
            ;
            lemma_abs_mul_bound(scale() - f as int, s@, SCALE as int, SCALE as int);
            lemma_tdiv_in((scale() - f as int) * s@, scale(), 1_000_000_000_000int);
            assert((scale() - f as int) * s@ >= 0) by (nonlinear_arith)
                requires
                    f <= SCALE,
                    s@ >= 0,
            ;
            lemma_div_shrinks((scale() - f as int) * s@, scale());
        }
        let fs: i64 = Scalar { raw: f }.mul(s).raw;
        let gs: i64 = Scalar { raw: SCALE - f }.mul(s).raw;
        proof {
            lemma_scaled_blend_bounds(v@, s@);
            lemma_scaled_blend_bounds(v@, fs as int);
            lemma_scaled_blend_bounds(v@, gs as int);
        }
        let p: Scalar = v.mul(Scalar { raw: SCALE - s.raw });
        let q: Scalar = v.mul(Scalar { raw: SCALE - fs });
        let t: Scalar = v.mul(Scalar { raw: SCALE - gs });
        if i == 0 {
            (v, t, p)
        } else if i == 1 {
            (q, v, p)
        } else if i == 2 {
            (p, v, t)
        } else if i == 3 {
            (p, q, v)
        } else if i == 4 {
            (t, p, v)
        } else {
            (v, p, q)
        }
    }

    /// Split red, green and blue channels into an HSV triple.
    fn rgb_to_hsv(r: Scalar, g: Scalar, b: Scalar) -> (hsv: (Scalar, Scalar, Scalar))
        requires
            0 <= r@ <= scale(),
            0 <= g@ <= scale(),
            0 <= b@ <= scale(),
        ensures
            (hsv.0@, hsv.1@, hsv.2@) == rgb_to_hsv_spec(r@, g@, b@),
            hsv_in_range(hsv.0@, hsv.1@, hsv.2@),
    {
        let cmax: i64 = if r.raw >= g.raw && r.raw >= b.raw {
            r.raw
        } else if g.raw >= b.raw {
            g.raw
        } else {
            b.raw
        };
        let cmin: i64 = if r.raw <= g.raw && r.raw <= b.raw {
            r.raw
        } else if g.raw <= b.raw {
            g.raw
        } else {
            b.raw
        };
        let delta: i64 = cmax - cmin;
        let h: i64 = if delta == 0 {
            0
        } else if r.raw == cmax {
            hue_sector(hue_ratio(g.raw - b.raw, delta))
        } else if g.raw == cmax {
            tdiv_i64(hue_ratio(b.raw - r.raw, delta) + 2 * SCALE, 6)
        } else {
            tdiv_i64(hue_ratio(r.raw - g.raw, delta) + 4 * SCALE, 6)
        };
        let s: i64 = if cmax == 0 {
            0
        } else {
            hue_ratio(delta, cmax)
        };
        (Scalar { raw: h }, Scalar { raw: s }, Scalar { raw: cmax })
    }
}

/// A channel spread scaled up and divided by a positive denominator
/// at least as large: the ratio is a fraction within one unit.
fn hue_ratio(num: i64, den: i64) -> (r: i64)
    requires
        den > 0,
        -den <= num <= den,
        den <= 1_000_000,
    ensures
        r == sdivq(num as int, den as int),
        -1_000_000 <= r <= 1_000_000,
        num >= 0 ==> r >= 0,
{
    proof {
        lemma_abs_mul_bound(num as int, SCALE as int, den as int, SCALE as int);
        lemma_tdiv_in(num as int * scale(), den as int, den as int * (SCALE as int));
        assert((den as int * (SCALE as int)) / (den as int) == SCALE as int)
            by (nonlinear_arith)
            requires
                den > 0,
        ;
        if num >= 0 {
            assert(num as int * scale() >= 0) by (nonlinear_arith)
                requires
                    num >= 0,
                    scale() > 0,
            ;
        }
    }
    tdiv_i64(num * SCALE, den)
}

/// Wrap a sector ratio onto the hue circle and scale it down to a
/// fraction of one turn, in `[0, 1)`.
fn hue_sector(ratio: i64) -> (r: i64)
    requires
        -1_000_000 <= ratio <= 1_000_000,
    ensures
        r == tdiv(wrap_sector(ratio as int), 6),
        0 <= r < SCALE,
{
    let w: i64 = if ratio < 0 {
        ratio + 6 * SCALE
    } else {
        ratio
    };
    tdiv_i64(w, 6)
}

/// Both factors of a blend are within one unit, so the blended channel
/// is too.
proof fn lemma_scaled_blend_bounds(v: int, x: int)
    requires
        0 <= v <= scale(),
        0 <= x <= scale(),
    ensures
        0 <= smul(v, scale() - x) <= scale(),
        i64::MIN <= smul(v, scale() - x) <= i64::MAX,
{
    lemma_abs_mul_bound(v, scale() - x, SCALE as int, SCALE as int);
    lemma_tdiv_in(v * (scale() - x), scale(), 1_000_000_000_000int);
    assert(v * (scale() - x) >= 0) by (nonlinear_arith)
        requires
            v >= 0,
            x <= scale(),
    ;
    lemma_div_shrinks(v * (scale() - x), scale());
    lemma_tdiv_in(v * (scale() - x), scale(), 1_000_000_000_000int);
    assert(1_000_000_000_000int / 1_000_000int == 1_000_000int);
}

} // verus!
