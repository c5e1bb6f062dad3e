use vstd::prelude::*;

use crate::fixed::{
    iclamp, is_isqrt, isqrt_num, isqrt_u128, lemma_abs_mul_bound, lemma_isqrt_num,
    lemma_isqrt_unique, lemma_tdiv_in, scale, smul, tdiv, tdiv_i64, Scalar, SCALE,
};

verus! {

/// A quarter turn (pi / 2) in raw ticks.
pub const QUARTER_TURN: i64 = 1_570_796;

/// A full turn (2 pi) in raw ticks; exactly four quarter turns, so that
/// quadrant folding is exact.
pub const TURN: i64 = 4 * QUARTER_TURN;

/// Clamp a raw value into the unit interval `[-1, 1]`.
pub open spec fn clamp_unit(p: int) -> int {
    iclamp(p, -scale(), scale())
}

/// The sine polynomial on a folded angle `t` in `[0, quarter turn]`:
/// the degree-seven Taylor approximation, evaluated in fixed point with
/// truncation after every product.
pub open spec fn sin_poly(t: int) -> int {
    let t2 = smul(t, t);
    let t3 = smul(t2, t);
    let t5 = smul(t3, t2);
    let t7 = smul(t5, t2);
    t - tdiv(t3, 6) + tdiv(t5, 120) - tdiv(t7, 5040)
}

/// The cosine magnitude on a folded angle `t` in `[0, quarter turn]`:
/// the integer square root of one squared unit minus the sine's
/// square, so that every sine and cosine pair lies on the unit circle
/// up to the square root's rounding. Near a quarter turn the cosine
/// inherits the sine's approximation error under a square root.
pub open spec fn cos_from_sin(t: int) -> int {
    let s = clamp_unit(sin_poly(t));
    isqrt_num(scale() * scale() - s * s)
}

/// Sine of a nonnegative raw angle: wrap into one turn, fold into a
/// quadrant, evaluate the polynomial, clamp into the unit interval.
pub open spec fn sin_core(a: int) -> int {
    let r = a % (TURN as int);
    let q = r / (QUARTER_TURN as int);
    let t = r % (QUARTER_TURN as int);
    if q == 0 {
        clamp_unit(sin_poly(t))
    } else if q == 1 {
        cos_from_sin(t)
    } else if q == 2 {
        -clamp_unit(sin_poly(t))
    } else {
        -cos_from_sin(t)
    }
}

/// Cosine of a nonnegative raw angle, folded the same way.
pub open spec fn cos_core(a: int) -> int {
    let r = a % (TURN as int);
    let q = r / (QUARTER_TURN as int);
    let t = r % (QUARTER_TURN as int);
    if q == 0 {
        cos_from_sin(t)
    } else if q == 1 {
        -clamp_unit(sin_poly(t))
    } else if q == 2 {
        -cos_from_sin(t)
    } else {
        clamp_unit(sin_poly(t))
    }
}

/// Sine of any raw angle; odd by construction.
pub open spec fn sin_num(a: int) -> int {
    if a >= 0 {
        sin_core(a)
    } else {
        -sin_core(-a)
    }
}

/// Cosine of any raw angle; even by construction.
pub open spec fn cos_num(a: int) -> int {
    if a >= 0 {
        cos_core(a)
    } else {
        cos_core(-a)
    }
}

/// The sine is odd and the cosine even, exactly, for every raw angle.
pub proof fn lemma_sin_cos_symmetry(a: int)
    requires
        a > i64::MIN,
    ensures
        sin_num(-a) == -sin_num(a),
        cos_num(-a) == cos_num(a),
{
    if a == 0 {
        assert(0int % (TURN as int) == 0);
        assert(0int / (QUARTER_TURN as int) == 0);
        assert(0int * 0int == 0int) by (nonlinear_arith);
        assert(tdiv(0, SCALE as int) == 0);
        assert(smul(0, 0) == 0);
        assert(tdiv(0, 6) == 0 && tdiv(0, 120) == 0 && tdiv(0, 5040) == 0);
        assert(sin_poly(0) == 0);
        assert(sin_core(0) == 0);
    }
}

/// Every sine and cosine pair lies just inside the unit circle: for
/// every raw angle, the sum of their squares falls short of one
/// squared unit by at most two units' worth of ticks, and both values
/// stay within one unit.
pub proof fn lemma_sin_cos_pythagorean(a: int)
    requires
        a > i64::MIN,
    ensures
        0 <= scale() * scale() - (sin_num(a) * sin_num(a) + cos_num(a) * cos_num(a)),
        scale() * scale() - (sin_num(a) * sin_num(a) + cos_num(a) * cos_num(a)) <= 2 * scale(),
        -scale() <= sin_num(a) <= scale(),
        -scale() <= cos_num(a) <= scale(),
{
    if a >= 0 {
        lemma_sin_cos_pythagorean_core(a);
    } else {
        lemma_sin_cos_pythagorean_core(-a);
        assert((-sin_core(-a)) * (-sin_core(-a)) == sin_core(-a) * sin_core(-a))
            by (nonlinear_arith);
    }
}

/// The unit-circle bound on the folded quadrant values.
proof fn lemma_sin_cos_pythagorean_core(a: int)
    requires
        a >= 0,
    ensures
        0 <= scale() * scale() - (sin_core(a) * sin_core(a) + cos_core(a) * cos_core(a)),
        scale() * scale() - (sin_core(a) * sin_core(a) + cos_core(a) * cos_core(a)) <= 2
            * scale(),
        -scale() <= sin_core(a) <= scale(),
        -scale() <= cos_core(a) <= scale(),
{
    let r = a % (TURN as int);
    let q = r / (QUARTER_TURN as int);
    let t = r % (QUARTER_TURN as int);
    let s = clamp_unit(sin_poly(t));
    let c = cos_from_sin(t);
    assert(-scale() <= s <= scale());
    assert(s * s >= 0) by (nonlinear_arith);
    assert(0 <= scale() * scale() - s * s) by (nonlinear_arith)
        requires
            -1_000_000 <= s <= 1_000_000,
            scale() == 1_000_000,
    ;
    lemma_isqrt_num(scale() * scale() - s * s);
    assert(is_isqrt(c, scale() * scale() - s * s));
    assert(c <= scale()) by (nonlinear_arith)
        requires
            0 <= c,
            c * c <= scale() * scale() - s * s,
            s * s >= 0,
            scale() > 0,
    ;
    assert((c + 1) * (c + 1) == c * c + 2 * c + 1) by (nonlinear_arith);
    assert(0 <= scale() * scale() - s * s - c * c <= 2 * c);
    assert((-s) * (-s) == s * s) by (nonlinear_arith);
    assert((-c) * (-c) == c * c) by (nonlinear_arith);
}

/// Evaluate the sine polynomial, clamped into the unit interval.
fn sin_poly_exec(t: i64) -> (r: i64)
    requires
        0 <= t <= QUARTER_TURN,
    ensures
        r == clamp_unit(sin_poly(t as int)),
        -SCALE <= r <= SCALE,
{
    proof {
        lemma_abs_mul_bound(t as int, t as int, 1_600_000int, 1_600_000int);
    }
    let t2: i64 = tdiv_i64(t * t, SCALE);
    proof {
        lemma_tdiv_in(t as int * t as int, SCALE as int, 1_600_000int * 1_600_000int);
        lemma_abs_mul_bound(t2 as int, t as int, 2_560_000int, 1_600_000int);
    }
    let t3: i64 = tdiv_i64(t2 * t, SCALE);
    proof {
        lemma_tdiv_in(t2 as int * t as int, SCALE as int, 2_560_000int * 1_600_000int);
        lemma_abs_mul_bound(t3 as int, t2 as int, 4_096_000int, 2_560_000int);
    }
    let t5: i64 = tdiv_i64(t3 * t2, SCALE);
    proof {
        lemma_tdiv_in(t3 as int * t2 as int, SCALE as int, 4_096_000int * 2_560_000int);
        lemma_abs_mul_bound(t5 as int, t2 as int, 10_485_760int, 2_560_000int);
    }
    let t7: i64 = tdiv_i64(t5 * t2, SCALE);
    proof {
        lemma_tdiv_in(t5 as int * t2 as int, SCALE as int, 10_485_760int * 2_560_000int);
    }
    let p: i64 = t - tdiv_i64(t3, 6) + tdiv_i64(t5, 120) - tdiv_i64(t7, 5040);
    if p > SCALE {
        SCALE
    } else if p < -SCALE {
        -SCALE
    } else {
        p
    }
}

/// The cosine magnitude from the folded sine value: the integer
/// square root of one squared unit minus its square.
fn cos_from_sin_exec(sp: i64) -> (r: i64)
    requires
        -SCALE <= sp <= SCALE,
    ensures
        r as int == isqrt_num(scale() * scale() - sp * sp),
        0 <= r <= SCALE,
{
    proof {
        assert(0 <= sp * sp <= 1_000_000_000_000) by (nonlinear_arith)
            requires
                -1_000_000 <= sp <= 1_000_000,
        ;
        assert((SCALE as i128) * (SCALE as i128) == 1_000_000_000_000i128) by (nonlinear_arith)
            requires
                SCALE == 1_000_000i64,
        ;
    }
    let sq: i128 = (sp as i128) * (sp as i128);
    let n: u128 = (1_000_000_000_000i128 - sq) as u128;
    let m: u64 = isqrt_u128(n);
    proof {
        lemma_isqrt_num(n as int);
        lemma_isqrt_unique(m as int, isqrt_num(n as int), n as int);
        assert(m <= 1_000_000) by (nonlinear_arith)
            requires
                (m as int) * (m as int) <= n as int,
                n <= 1_000_000_000_000u128,
        ;
    }
    m as i64
}

/// Sine and cosine of a raw fixed-point angle in radians.
pub fn sincos(a: Scalar) -> (sc: (Scalar, Scalar))
    requires
        a@ > i64::MIN,
    ensures
        sc.0@ == sin_num(a@),
        sc.1@ == cos_num(a@),
        -scale() <= sc.0@ <= scale(),
        -scale() <= sc.1@ <= scale(),
{
    let neg: bool = a.raw < 0;
    let n: i64 = if neg {
        -a.raw
    } else {
        a.raw
    };
    let r: i64 = ((n as u64) % (TURN as u64)) as i64;
    let q: i64 = ((r as u64) / (QUARTER_TURN as u64)) as i64;
    let t: i64 = ((r as u64) % (QUARTER_TURN as u64)) as i64;
    let sp: i64 = sin_poly_exec(t);
    let cp: i64 = cos_from_sin_exec(sp);
    let s0: i64 = if q == 0 {
        sp
    } else if q == 1 {
        cp
    } else if q == 2 {
        -sp
    } else {
        -cp
    };
    let c0: i64 = if q == 0 {
        cp
    } else if q == 1 {
        -sp
    } else if q == 2 {
        -cp
    } else {
        sp
    };
    let s: i64 = if neg {
        -s0
    } else {
        s0
    };
    (Scalar { raw: s }, Scalar { raw: c0 })
}

} // verus!
