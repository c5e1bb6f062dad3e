use scene3d::fixed::{isqrt_u128, tdiv_i64, Scalar, SCALE};
use scene3d::mat3::Mat3;
use scene3d::mat4::Mat4;
use scene3d::trig::{sincos, QUARTER_TURN};
use scene3d::vec3::Vec3;

fn s(raw: i64) -> Scalar {
    Scalar { raw }
}

fn v(x: i64, y: i64, z: i64) -> Vec3 {
    Vec3 { x: s(x), y: s(y), z: s(z) }
}

#[test]
fn scalar_arithmetic_is_exact() {
    assert_eq!(s(1_500_000).add(s(2_500_000)).raw, 4_000_000);
    assert_eq!(s(1_500_000).sub(s(2_500_000)).raw, -1_000_000);
    assert_eq!(s(1_500_000).mul(s(2_000_000)).raw, 3_000_000);
    assert_eq!(s(1_000_000).div(s(3_000_000)).raw, 333_333);
    assert_eq!(s(-1_000_000).div(s(3_000_000)).raw, -333_333);
    assert_eq!(s(-7).neg().raw, 7);
    assert_eq!(s(5).clamp(s(10), s(20)).raw, 10);
    assert_eq!(s(25).clamp(s(10), s(20)).raw, 20);
    assert_eq!(s(15).clamp(s(10), s(20)).raw, 15);
}

#[test]
fn truncating_division_rounds_toward_zero() {
    assert_eq!(tdiv_i64(7, 2), 3);
    assert_eq!(tdiv_i64(-7, 2), -3);
    assert_eq!(isqrt_u128(0), 0);
    assert_eq!(isqrt_u128(17), 4);
    assert_eq!(isqrt_u128(25), 5);
}

#[test]
fn vector_componentwise_ops() {
    let a = v(1_000_000, 2_000_000, 3_000_000);
    let b = v(4_000_000, 5_000_000, 6_000_000);
    let sum = a.add(b);
    assert_eq!((sum.x.raw, sum.y.raw, sum.z.raw), (5_000_000, 7_000_000, 9_000_000));
    let diff = b.sub(a);
    assert_eq!((diff.x.raw, diff.y.raw, diff.z.raw), (3_000_000, 3_000_000, 3_000_000));
    let sc = a.scale(s(500_000));
    assert_eq!((sc.x.raw, sc.y.raw, sc.z.raw), (500_000, 1_000_000, 1_500_000));
    let dv = a.div(s(2_000_000));
    assert_eq!((dv.x.raw, dv.y.raw, dv.z.raw), (500_000, 1_000_000, 1_500_000));
    let n = a.neg();
    assert_eq!((n.x.raw, n.y.raw, n.z.raw), (-1_000_000, -2_000_000, -3_000_000));
}

#[test]
fn dot_product_value() {
    let a = v(1_000_000, 2_000_000, 3_000_000);
    let b = v(4_000_000, 5_000_000, 6_000_000);
    assert_eq!(a.dot(b).raw, 32_000_000);
}

#[test]
fn cross_product_of_axes() {
    let c = v(1_000_000, 0, 0).cross(v(0, 1_000_000, 0));
    assert_eq!((c.x.raw, c.y.raw, c.z.raw), (0, 0, 1_000_000));
}

#[test]
fn cross_product_stays_orthogonal() {
    let a = v(1_500_000, -2_250_000, 500_000);
    let b = v(300_000, 700_000, -1_100_000);
    let c = a.cross(b);
    assert!(c.dot(a).raw.abs() <= 5);
    assert!(c.dot(b).raw.abs() <= 5);
}

#[test]
fn magnitude_of_three_four_five() {
    let m = v(3_000_000, 4_000_000, 0).mag();
    assert_eq!(m.raw, 5_000_000);
    let u = v(3_000_000, 4_000_000, 0).unit();
    assert_eq!((u.x.raw, u.y.raw, u.z.raw), (600_000, 800_000, 0));
}

#[test]
fn normalized_magnitude_is_almost_one() {
    let u = v(1_234_000, -567_000, 2_345_000).unit();
    let m = u.mag().raw;
    assert!(SCALE - 4 <= m && m <= SCALE + 1, "magnitude {m}");
    let u2 = v(10_000_000, 20_000_000, -30_000_000).unit();
    let m2 = u2.mag().raw;
    assert!(SCALE - 4 <= m2 && m2 <= SCALE + 1, "magnitude {m2}");
}

#[test]
fn sine_and_cosine_values() {
    assert_eq!(sincos(s(0)).0.raw, 0);
    assert_eq!(sincos(s(0)).1.raw, SCALE);
    let (sin30, cos30) = sincos(s(523_599));
    assert!((sin30.raw - 500_000).abs() <= 300, "sin {}", sin30.raw);
    assert!((cos30.raw - 866_025).abs() <= 300, "cos {}", cos30.raw);
    let (sin90, cos90) = sincos(s(QUARTER_TURN));
    assert_eq!((sin90.raw, cos90.raw), (SCALE, 0));
    // just below a quadrant boundary the square-root cosine inherits
    // the sine's error under a square root: small, but visible
    let (_, cos_near) = sincos(s(QUARTER_TURN - 1));
    assert!(cos_near.raw.abs() <= 20_000, "cos {}", cos_near.raw);
}

#[test]
fn sine_cosine_pair_stays_on_the_unit_circle() {
    for a in [
        0, 100_000, 523_599, 785_398, 1_570_795, 1_570_796, 3_000_000, 5_000_000, -2_000_000,
        40_000_000,
    ] {
        let (sv, cv) = sincos(s(a));
        let norm = sv.raw * sv.raw + cv.raw * cv.raw;
        assert!(
            SCALE * SCALE - 2 * SCALE <= norm && norm <= SCALE * SCALE,
            "angle {a}: norm {norm}"
        );
    }
}

#[test]
fn sine_is_odd_and_cosine_even() {
    for a in [1, 100_000, 785_398, 2_000_000, 5_000_000, 40_000_000] {
        let plus = sincos(s(a));
        let minus = sincos(s(-a));
        assert_eq!(minus.0.raw, -plus.0.raw);
        assert_eq!(minus.1.raw, plus.1.raw);
    }
}

#[test]
fn vector_rotations_move_the_axes() {
    // a quarter turn about y carries +x onto -z
    let r = v(1_000_000, 0, 0).rotate_y(s(QUARTER_TURN));
    assert!(r.x.raw.abs() <= 300, "x {}", r.x.raw);
    assert_eq!(r.y.raw, 0);
    assert!((r.z.raw + 1_000_000).abs() <= 300, "z {}", r.z.raw);
    // a quarter turn about x carries +y onto +z
    let q = v(0, 1_000_000, 0).rotate_x(s(QUARTER_TURN));
    assert_eq!(q.x.raw, 0);
    assert!(q.y.raw.abs() <= 300, "y {}", q.y.raw);
    assert!((q.z.raw - 1_000_000).abs() <= 300, "z {}", q.z.raw);
}

#[test]
fn rotation_round_trip_returns_vector() {
    // with sine-cosine pairs on the unit circle the round trip is
    // exact to a few ticks, for any angle
    for a in [500_000, 1_234_567, 1_570_795, 3_000_000, 5_500_000] {
        let p = v(1_000_000, 250_000, -750_000);
        let once = Mat3::rot_y(s(a)).mul_vec(p);
        let back = Mat3::rot_y(s(-a)).mul_vec(once);
        assert!((back.x.raw - p.x.raw).abs() <= 6, "angle {a}: x {}", back.x.raw);
        assert_eq!(back.y.raw, p.y.raw);
        assert!((back.z.raw - p.z.raw).abs() <= 6, "angle {a}: z {}", back.z.raw);
    }
}

#[test]
fn matrix_identity_and_determinant() {
    let one = Mat3::one();
    assert_eq!(one.det().raw, SCALE);
    let d = Mat3::diag(s(2_000_000), s(3_000_000), s(4_000_000));
    assert_eq!(d.det().raw, 24_000_000);
    let p = v(7_000_000, -2_000_000, 9_000_000);
    let applied = one.mul_vec(p);
    assert_eq!((applied.x.raw, applied.y.raw, applied.z.raw), (p.x.raw, p.y.raw, p.z.raw));
    let composed = one.mul_mat(d);
    assert_eq!(composed.y.y.raw, 3_000_000);
}

#[test]
fn rotation_determinant_is_one() {
    for a in [0, 500_000, 785_398, 1_570_795, 3_000_000, -2_000_000] {
        let d = Mat3::rot_y(s(a)).det().raw;
        assert!(SCALE - 2 <= d && d <= SCALE, "angle {a}: det {d}");
        let dx = Mat3::rot_x(s(a)).det().raw;
        assert!(SCALE - 2 <= dx && dx <= SCALE, "angle {a}: det {dx}");
    }
}

#[test]
fn rotation_matrix_shape() {
    let r = Mat3::rot_z(s(0));
    assert_eq!((r.x.x.raw, r.x.y.raw), (SCALE, 0));
    assert_eq!((r.y.x.raw, r.y.y.raw), (0, SCALE));
    assert_eq!(r.z.z.raw, SCALE);
    let rx = Mat3::rot_x(s(0));
    assert_eq!((rx.x.x.raw, rx.y.y.raw, rx.z.z.raw), (SCALE, SCALE, SCALE));
}

#[test]
fn homogeneous_translation_column() {
    let t = Mat4::translation(v(5_000_000, 6_000_000, 7_000_000));
    assert_eq!((t.w.x.raw, t.w.y.raw, t.w.z.raw, t.w.w.raw), (5_000_000, 6_000_000, 7_000_000, SCALE));
    assert_eq!((t.x.x.raw, t.y.y.raw, t.z.z.raw), (SCALE, SCALE, SCALE));
}

#[test]
fn perspective_projection_shape() {
    let p = Mat4::perspective(s(1_333_333), s(QUARTER_TURN), s(200_000), s(100_000_000));
    // focal factor cot(pi/4) is about one
    assert!((p.y.y.raw - SCALE).abs() <= 2_000, "focal {}", p.y.y.raw);
    // x entry divides the focal factor by the aspect ratio
    assert!((p.x.x.raw - 750_000).abs() <= 2_000, "x {}", p.x.x.raw);
    // the w row arranges the divide by -z
    assert_eq!(p.z.w.raw, -SCALE);
    assert_eq!(p.w.w.raw, 0);
    assert!(p.z.z.raw < 0 && p.w.z.raw < 0);
}
