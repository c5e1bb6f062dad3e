use vstd::prelude::*;

verus! {

/// Number of raw ticks per unit: scalars carry six decimal places.
pub const SCALE: i64 = 1_000_000;

/// Truncating (round-toward-zero) division of `p` by a positive `d`,
/// the rounding that the executable code applies after every product.
pub open spec fn tdiv(p: int, d: int) -> int {
    if p >= 0 {
        p / d
    } else {
        -((-p) / d)
    }
}

/// Truncating remainder paired with `tdiv`.
pub open spec fn tmod(p: int, d: int) -> int {
    p - d * tdiv(p, d)
}

/// Truncating division for a divisor of either sign.
pub open spec fn tdiv_any(p: int, d: int) -> int {
    if d >= 0 {
        tdiv(p, d)
    } else {
        -tdiv(p, -d)
    }
}

/// The raw value of the fixed-point product of two raw values.
pub open spec fn smul(a: int, b: int) -> int {
    tdiv(a * b, SCALE as int)
}

/// The raw value of the fixed-point quotient of two raw values.
pub open spec fn sdivq(a: int, b: int) -> int {
    tdiv_any(a * (SCALE as int), b)
}

/// Absolute value of a spec integer.
pub open spec fn abs_i(p: int) -> int {
    if p >= 0 {
        p
    } else {
        -p
    }
}

/// Clamp `p` into `[lo, hi]`.
pub open spec fn iclamp(p: int, lo: int, hi: int) -> int {
    if p < lo {
        lo
    } else if p > hi {
        hi
    } else {
        p
    }
}

/// A fixed-point number: `raw` ticks of 1/1000000 of a unit.
#[derive(Clone, Copy, Debug, PartialEq, Eq, Structural)]
pub struct Scalar {
    pub raw: i64,
}

impl View for Scalar {
    type V = int;

    open spec fn view(&self) -> int {
        self.raw as int
    }
}

/// The raw tick count of one fixed-point unit, as a spec value.
pub open spec fn scale() -> int {
    SCALE as int
}

impl Scalar {
    /// The scalar with the given raw tick count.
    pub fn from_raw(raw: i64) -> (r: Scalar)
        ensures
            r@ == raw as int,
    {
        Scalar { raw }
    }

    /// The scalar equal to `units` whole units.
    pub fn from_units(units: i64) -> (r: Scalar)
        requires
            -9_000_000_000_000 <= units <= 9_000_000_000_000,
        ensures
            r@ == units * scale(),
    {
        Scalar { raw: units * SCALE }
    }

    /// Zero.
    pub fn zero() -> (r: Scalar)
        ensures
            r@ == 0,
    {
        Scalar { raw: 0 }
    }

    /// One unit.
    pub fn one() -> (r: Scalar)
        ensures
            r@ == scale(),
    {
        Scalar { raw: SCALE }
    }

    /// Exact sum.
    pub fn add(self, rhs: Scalar) -> (r: Scalar)
        requires
            i64::MIN <= self@ + rhs@ <= i64::MAX,
        ensures
            r@ == self@ + rhs@,
    {
        Scalar { raw: self.raw + rhs.raw }
    }

    /// Exact difference.
    pub fn sub(self, rhs: Scalar) -> (r: Scalar)
        requires
            i64::MIN <= self@ - rhs@ <= i64::MAX,
        ensures
            r@ == self@ - rhs@,
    {
        Scalar { raw: self.raw - rhs.raw }
    }

    /// Exact negation.
    pub fn neg(self) -> (r: Scalar)
        requires
            self@ > i64::MIN,
        ensures
            r@ == -self@,
    {
        Scalar { raw: -self.raw }
    }

    /// Fixed-point product: the exact product of the raw values,
    /// scaled back down with truncation toward zero.
    pub fn mul(self, rhs: Scalar) -> (r: Scalar)
        requires
            i64::MIN <= tdiv(self@ * rhs@, scale()) <= i64::MAX,
        ensures
            r@ == tdiv(self@ * rhs@, scale()),
    {
        proof {
            lemma_i64_product_fits(self.raw as int, rhs.raw as int);
        }
        let p: i128 = (self.raw as i128) * (rhs.raw as i128);
        let q: i128 = tdiv_i128(p, SCALE as i128);
        Scalar { raw: q as i64 }
    }

    /// Fixed-point quotient: `self` scaled up, then divided by `rhs`
    /// with truncation toward zero.
    pub fn div(self, rhs: Scalar) -> (r: Scalar)
        requires
            rhs@ != 0,
            i64::MIN <= tdiv_any(self@ * scale(), rhs@) <= i64::MAX,
        ensures
            r@ == tdiv_any(self@ * scale(), rhs@),
    {
        proof {
            lemma_i64_product_fits(self.raw as int, SCALE as int);
        }
        let p: i128 = (self.raw as i128) * (SCALE as i128);
        let d: i128 = rhs.raw as i128;
        let q: i128 = if d >= 0 {
            tdiv_i128(p, d)
        } else {
            -tdiv_i128(p, -d)
        };
        Scalar { raw: q as i64 }
    }

    /// Comparison on the underlying value.
    pub fn lt(self, rhs: Scalar) -> (r: bool)
        ensures
            r == (self@ < rhs@),
    {
        self.raw < rhs.raw
    }

    /// Comparison on the underlying value.
    pub fn le(self, rhs: Scalar) -> (r: bool)
        ensures
            r == (self@ <= rhs@),
    {
        self.raw <= rhs.raw
    }

    /// Minimum of two scalars.
    pub fn min(self, rhs: Scalar) -> (r: Scalar)
        ensures
            r@ == if self@ <= rhs@ { self@ } else { rhs@ },
    {
        if self.raw <= rhs.raw {
            self
        } else {
            rhs
        }
    }

    /// Maximum of two scalars.
    pub fn max(self, rhs: Scalar) -> (r: Scalar)
        ensures
            r@ == if self@ >= rhs@ { self@ } else { rhs@ },
    {
        if self.raw >= rhs.raw {
            self
        } else {
            rhs
        }
    }

    /// Clamp into `[lo, hi]`.
    pub fn clamp(self, lo: Scalar, hi: Scalar) -> (r: Scalar)
        requires
            lo@ <= hi@,
        ensures
            r@ == iclamp(self@, lo@, hi@),
    {
        if self.raw < lo.raw {
            lo
        } else if self.raw > hi.raw {
            hi
        } else {
            self
        }
    }

    /// Absolute value.
    pub fn abs(self) -> (r: Scalar)
        requires
            self@ > i64::MIN,
        ensures
            r@ == if self@ >= 0 { self@ } else { -self@ },
    {
        if self.raw >= 0 {
            self
        } else {
            Scalar { raw: -self.raw }
        }
    }
}

/// Truncating division on wide integers; `d` must be positive and `p`
/// must be negatable.
pub fn tdiv_i128(p: i128, d: i128) -> (r: i128)
    requires
        d > 0,
        p > i128::MIN,
    ensures
        r == tdiv(p as int, d as int),
        p >= 0 ==> 0 <= r <= p,
        p < 0 ==> p <= r <= 0,
{
    if p >= 0 {
        let q: u128 = (p as u128) / (d as u128);
        proof {
            lemma_div_shrinks(p as int, d as int);
        }
        q as i128
    } else {
        let n: i128 = -p;
        let q: u128 = (n as u128) / (d as u128);
        proof {
            lemma_div_shrinks(n as int, d as int);
        }
        -(q as i128)
    }
}

/// Truncating division on 64-bit integers; `d` must be positive and
/// `p` must be negatable.
pub fn tdiv_i64(p: i64, d: i64) -> (r: i64)
    requires
        d > 0,
        p > i64::MIN,
    ensures
        r == tdiv(p as int, d as int),
        p >= 0 ==> 0 <= r <= p,
        p < 0 ==> p <= r <= 0,
{
    if p >= 0 {
        let q: u64 = (p as u64) / (d as u64);
        proof {
            lemma_div_shrinks(p as int, d as int);
        }
        q as i64
    } else {
        let n: i64 = -p;
        let q: u64 = (n as u64) / (d as u64);
        proof {
            lemma_div_shrinks(n as int, d as int);
        }
        -(q as i64)
    }
}

/// Largest raw magnitude a value may have when it enters a product
/// reduction (dot, cross, magnitude, row-column combination): four such
/// products still fit the 128-bit accumulator.
pub const COMP_LIMIT: i64 = 2_000_000_000_000_000_000;

/// The raw value of a three-term product sum, scaled back down once.
pub open spec fn lincomb3(a1: int, b1: int, a2: int, b2: int, a3: int, b3: int) -> int {
    tdiv(a1 * b1 + a2 * b2 + a3 * b3, SCALE as int)
}

/// The raw value of a four-term product sum, scaled back down once.
pub open spec fn lincomb4(
    a1: int,
    b1: int,
    a2: int,
    b2: int,
    a3: int,
    b3: int,
    a4: int,
    b4: int,
) -> int {
    tdiv(a1 * b1 + a2 * b2 + a3 * b3 + a4 * b4, SCALE as int)
}

/// A three-term row-column combination in one rounding step.
pub fn lincomb3_exec(a1: i64, b1: i64, a2: i64, b2: i64, a3: i64, b3: i64) -> (r: i64)
    requires
        -COMP_LIMIT <= a1 <= COMP_LIMIT,
        -COMP_LIMIT <= b1 <= COMP_LIMIT,
        -COMP_LIMIT <= a2 <= COMP_LIMIT,
        -COMP_LIMIT <= b2 <= COMP_LIMIT,
        -COMP_LIMIT <= a3 <= COMP_LIMIT,
        -COMP_LIMIT <= b3 <= COMP_LIMIT,
        i64::MIN <= lincomb3(a1 as int, b1 as int, a2 as int, b2 as int, a3 as int, b3 as int)
            <= i64::MAX,
    ensures
        r == lincomb3(a1 as int, b1 as int, a2 as int, b2 as int, a3 as int, b3 as int),
{
    proof {
        lemma_abs_mul_bound(a1 as int, b1 as int, COMP_LIMIT as int, COMP_LIMIT as int);
        lemma_abs_mul_bound(a2 as int, b2 as int, COMP_LIMIT as int, COMP_LIMIT as int);
        lemma_abs_mul_bound(a3 as int, b3 as int, COMP_LIMIT as int, COMP_LIMIT as int);
    }
    let p1: i128 = (a1 as i128) * (b1 as i128);
    let p2: i128 = (a2 as i128) * (b2 as i128);
    let p3: i128 = (a3 as i128) * (b3 as i128);
    let q: i128 = tdiv_i128(p1 + p2 + p3, SCALE as i128);
    q as i64
}

/// A four-term row-column combination in one rounding step.
pub fn lincomb4_exec(
    a1: i64,
    b1: i64,
    a2: i64,
    b2: i64,
    a3: i64,
    b3: i64,
    a4: i64,
    b4: i64,
) -> (r: i64)
    requires
        -COMP_LIMIT <= a1 <= COMP_LIMIT,
        -COMP_LIMIT <= b1 <= COMP_LIMIT,
        -COMP_LIMIT <= a2 <= COMP_LIMIT,
        -COMP_LIMIT <= b2 <= COMP_LIMIT,
        -COMP_LIMIT <= a3 <= COMP_LIMIT,
        -COMP_LIMIT <= b3 <= COMP_LIMIT,
        -COMP_LIMIT <= a4 <= COMP_LIMIT,
        -COMP_LIMIT <= b4 <= COMP_LIMIT,
        i64::MIN <= lincomb4(
            a1 as int,
            b1 as int,
            a2 as int,
            b2 as int,
            a3 as int,
            b3 as int,
            a4 as int,
            b4 as int,
        ) <= i64::MAX,
    ensures
        r == lincomb4(
            a1 as int,
            b1 as int,
            a2 as int,
            b2 as int,
            a3 as int,
            b3 as int,
            a4 as int,
            b4 as int,
        ),
{
    proof {
        lemma_abs_mul_bound(a1 as int, b1 as int, COMP_LIMIT as int, COMP_LIMIT as int);
        lemma_abs_mul_bound(a2 as int, b2 as int, COMP_LIMIT as int, COMP_LIMIT as int);
        lemma_abs_mul_bound(a3 as int, b3 as int, COMP_LIMIT as int, COMP_LIMIT as int);
        lemma_abs_mul_bound(a4 as int, b4 as int, COMP_LIMIT as int, COMP_LIMIT as int);
    }
    let p1: i128 = (a1 as i128) * (b1 as i128);
    let p2: i128 = (a2 as i128) * (b2 as i128);
    let p3: i128 = (a3 as i128) * (b3 as i128);
    let p4: i128 = (a4 as i128) * (b4 as i128);
    let q: i128 = tdiv_i128(p1 + p2 + p3 + p4, SCALE as i128);
    q as i64
}

/// Bound on a three-term combination from bounds on its factors.
pub proof fn lemma_lincomb3_in(
    a1: int,
    b1: int,
    a2: int,
    b2: int,
    a3: int,
    b3: int,
    aa: int,
    bb: int,
)
    requires
        -aa <= a1 <= aa,
        -aa <= a2 <= aa,
        -aa <= a3 <= aa,
        -bb <= b1 <= bb,
        -bb <= b2 <= bb,
        -bb <= b3 <= bb,
    ensures
        -((3 * (aa * bb)) / (SCALE as int)) <= lincomb3(a1, b1, a2, b2, a3, b3)
            <= (3 * (aa * bb)) / (SCALE as int),
{
    lemma_abs_mul_bound(a1, b1, aa, bb);
    lemma_abs_mul_bound(a2, b2, aa, bb);
    lemma_abs_mul_bound(a3, b3, aa, bb);
    lemma_tdiv_in(a1 * b1 + a2 * b2 + a3 * b3, SCALE as int, 3 * (aa * bb));
}

/// Bound on a four-term combination from bounds on its factors.
pub proof fn lemma_lincomb4_in(
    a1: int,
    b1: int,
    a2: int,
    b2: int,
    a3: int,
    b3: int,
    a4: int,
    b4: int,
    aa: int,
    bb: int,
)
    requires
        -aa <= a1 <= aa,
        -aa <= a2 <= aa,
        -aa <= a3 <= aa,
        -aa <= a4 <= aa,
        -bb <= b1 <= bb,
        -bb <= b2 <= bb,
        -bb <= b3 <= bb,
        -bb <= b4 <= bb,
    ensures
        -((4 * (aa * bb)) / (SCALE as int)) <= lincomb4(a1, b1, a2, b2, a3, b3, a4, b4)
            <= (4 * (aa * bb)) / (SCALE as int),
{
    lemma_abs_mul_bound(a1, b1, aa, bb);
    lemma_abs_mul_bound(a2, b2, aa, bb);
    lemma_abs_mul_bound(a3, b3, aa, bb);
    lemma_abs_mul_bound(a4, b4, aa, bb);
    lemma_tdiv_in(a1 * b1 + a2 * b2 + a3 * b3 + a4 * b4, SCALE as int, 4 * (aa * bb));
}

/// A quotient of values in order is at least one.
pub proof fn lemma_tdiv_pos(p: int, d: int)
    requires
        0 < d <= p,
    ensures
        tdiv(p, d) >= 1,
{
    assert(p / d >= 1) by (nonlinear_arith)
        requires
            0 < d <= p,
    ;
}

/// Truncating remainder on 64-bit integers; `d` must be positive and
/// `p` must be negatable.
pub fn tmod_i64(p: i64, d: i64) -> (r: i64)
    requires
        d > 0,
        p > i64::MIN,
    ensures
        r == tmod(p as int, d as int),
        -d < r < d,
{
    let q: i64 = tdiv_i64(p, d);
    proof {
        lemma_tdiv_rem(p as int, d as int);
        lemma_i64_product_fits(q as int, d as int);
        assert((q as int) * (d as int) == (d as int) * (q as int)) by (nonlinear_arith);
    }
    let prod: i128 = (q as i128) * (d as i128);
    ((p as i128) - prod) as i64
}

/// `r` is the integer square root of `n`.
pub open spec fn is_isqrt(r: int, n: int) -> bool {
    0 <= r && r * r <= n < (r + 1) * (r + 1)
}

/// The integer square root as a function, for stating results exactly.
pub open spec fn isqrt_num(n: int) -> int
    decreases n when n >= 0
{
    if n <= 0 {
        0
    } else {
        let r = isqrt_num(n - 1);
        if (r + 1) * (r + 1) <= n {
            r + 1
        } else {
            r
        }
    }
}

/// `isqrt_num` really is the integer square root.
pub proof fn lemma_isqrt_num(n: int)
    requires
        n >= 0,
    ensures
        is_isqrt(isqrt_num(n), n),
    decreases n,
{
    if n == 0 {
        assert(isqrt_num(0) == 0);
    } else {
        lemma_isqrt_num(n - 1);
        let r = isqrt_num(n - 1);
        if (r + 1) * (r + 1) <= n {
            assert(n - 1 < (r + 1) * (r + 1));
            assert(n < (r + 2) * (r + 2)) by (nonlinear_arith)
                requires
                    r >= 0,
                    n <= (r + 1) * (r + 1),
            ;
        }
    }
}

/// Two integer square roots of the same value are equal.
pub proof fn lemma_isqrt_unique(r1: int, r2: int, n: int)
    requires
        is_isqrt(r1, n),
        is_isqrt(r2, n),
    ensures
        r1 == r2,
{
    assert(r1 == r2) by (nonlinear_arith)
        requires
            0 <= r1 && r1 * r1 <= n < (r1 + 1) * (r1 + 1),
            0 <= r2 && r2 * r2 <= n < (r2 + 1) * (r2 + 1),
    ;
}

/// The remainder that `tdiv` leaves is smaller than the divisor.
pub proof fn lemma_tdiv_rem(p: int, d: int)
    requires
        d > 0,
    ensures
        p == d * tdiv(p, d) + tmod(p, d),
        -d < tmod(p, d) < d,
        p >= 0 ==> tmod(p, d) >= 0,
        p <= 0 ==> tmod(p, d) <= 0,
{
    if p >= 0 {
        assert(p == d * (p / d) + p % d) by (nonlinear_arith)
            requires
                d > 0,
        ;
        assert(0 <= p % d < d) by (nonlinear_arith)
            requires
                d > 0,
        ;
    } else {
        let q = -p;
        assert(q == d * (q / d) + q % d) by (nonlinear_arith)
            requires
                d > 0,
        ;
        assert(0 <= q % d < d) by (nonlinear_arith)
            requires
                d > 0,
        ;
        assert(d * (-(q / d)) == -(d * (q / d))) by (nonlinear_arith);
        assert(tdiv(p, d) == -(q / d));
        assert(tmod(p, d) == -(q % d));
    }
}

/// Integer square root by bisection.
pub fn isqrt_u128(n: u128) -> (r: u64)
    ensures
        is_isqrt(r as int, n as int),
{
    let mut lo: u128 = 0;
    let mut hi: u128 = 0x1_0000_0000_0000_0000u128;
    while hi - lo > 1
        invariant
            lo < hi <= 0x1_0000_0000_0000_0000u128,
            lo * lo <= n < hi * hi,
        decreases hi - lo,
    {
        let mid: u128 = lo + (hi - lo) / 2;
        proof {
            assert(mid * mid <= u128::MAX) by (nonlinear_arith)
                requires
                    0 <= mid <= 0xffff_ffff_ffff_ffffu128,
            ;
        }
        if mid * mid <= n {
            lo = mid;
        } else {
            hi = mid;
        }
    }
    lo as u64
}

/// Bound on a product from bounds on its factors.
pub proof fn lemma_abs_mul_bound(a: int, b: int, aa: int, bb: int)
    requires
        -aa <= a <= aa,
        -bb <= b <= bb,
    ensures
        -(aa * bb) <= a * b <= aa * bb,
{
    assert(-(aa * bb) <= a * b <= aa * bb) by (nonlinear_arith)
        requires
            -aa <= a <= aa,
            -bb <= b <= bb,
    ;
}

/// Truncating division keeps a bounded dividend bounded.
pub proof fn lemma_tdiv_in(p: int, d: int, m: int)
    requires
        d > 0,
        -m <= p <= m,
    ensures
        -(m / d) <= tdiv(p, d) <= m / d,
        -m <= tdiv(p, d) <= m,
{
    if p >= 0 {
        lemma_div_shrinks(p, d);
        assert(p / d <= m / d) by (nonlinear_arith)
            requires
                d > 0,
                0 <= p <= m,
        ;
    } else {
        lemma_div_shrinks(-p, d);
        assert((-p) / d <= m / d) by (nonlinear_arith)
            requires
                d > 0,
                0 <= -p <= m,
        ;
        assert(m / d >= 0) by (nonlinear_arith)
            requires
                d > 0,
                m >= 0,
        ;
    }
}

/// The product of two 64-bit values stays well inside 128 bits.
pub proof fn lemma_i64_product_fits(a: int, b: int)
    requires
        i64::MIN <= a <= i64::MAX,
        i64::MIN <= b <= i64::MAX,
    ensures
        -0x4000_0000_0000_0000_0000_0000_0000_0000 <= a * b
            <= 0x4000_0000_0000_0000_0000_0000_0000_0000,
{
    assert(-0x4000_0000_0000_0000_0000_0000_0000_0000 <= a * b
        <= 0x4000_0000_0000_0000_0000_0000_0000_0000) by (nonlinear_arith)
        requires
            -0x8000_0000_0000_0000 <= a <= 0x7fff_ffff_ffff_ffff,
            -0x8000_0000_0000_0000 <= b <= 0x7fff_ffff_ffff_ffff,
    ;
}

/// Division of a nonnegative value by a positive one never grows it.
pub proof fn lemma_div_shrinks(p: int, d: int)
    requires
        p >= 0,
        d > 0,
    ensures
        0 <= p / d <= p,
{
    if d == 1 {
        assert(p / 1 == p);
    } else {
        assert(0 <= p / d <= p) by (nonlinear_arith)
            requires
                p >= 0,
                d > 1,
        ;
    }
}

} // verus!
