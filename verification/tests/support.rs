use scene3d::color::Color;
use scene3d::expr::Expr;
use scene3d::fixed::{Scalar, SCALE};
use scene3d::objects::{vertex_layout, VertexArrayElement};

fn s(raw: i64) -> Scalar {
    Scalar { raw }
}

#[test]
fn color_constructors_store_channels() {
    let c = Color::from_rgb(s(100_000), s(200_000), s(300_000));
    assert_eq!((c.r.raw, c.g.raw, c.b.raw, c.a.raw), (100_000, 200_000, 300_000, SCALE));
    let c2 = Color::from_rgba(s(1), s(2), s(3), s(4));
    assert_eq!((c2.r.raw, c2.g.raw, c2.b.raw, c2.a.raw), (1, 2, 3, 4));
}

#[test]
fn hsv_red_and_green() {
    let red = Color::from_hsv(s(0), s(SCALE), s(SCALE));
    assert_eq!((red.r.raw, red.g.raw, red.b.raw), (SCALE, 0, 0));
    let green = Color::from_hsv(s(333_333), s(SCALE), s(SCALE));
    assert_eq!((green.r.raw, green.g.raw, green.b.raw), (2, SCALE, 0));
    let faded = Color::from_hsva(s(0), s(0), s(SCALE), s(250_000));
    assert_eq!((faded.r.raw, faded.g.raw, faded.b.raw, faded.a.raw), (SCALE, SCALE, SCALE, 250_000));
}

#[test]
fn rgb_to_hsv_of_red_and_grey() {
    let (h, sat, val) = Color::from_rgb(s(SCALE), s(0), s(0)).to_hsv();
    assert_eq!((h.raw, sat.raw, val.raw), (0, SCALE, SCALE));
    let (h2, sat2, val2) = Color::from_rgb(s(500_000), s(500_000), s(500_000)).to_hsv();
    assert_eq!((h2.raw, sat2.raw, val2.raw), (0, 0, 500_000));
    let (h3, _, _) = Color::from_rgb(s(0), s(SCALE), s(250_000)).to_hsv();
    // green is the largest channel: its sector starts a third of a
    // turn in, and (blue - red) over the spread moves within it
    assert_eq!(h3.raw, 375_000);
}

#[test]
fn upper_sector_hue_stays_in_range() {
    // magenta-ish: green is smallest, red largest, so the sector ratio
    // is negative and must wrap to the upper end of the hue circle
    let (h, sat, val) = Color::from_rgb(s(SCALE), s(0), s(600_000)).to_hsv();
    assert_eq!((h.raw, sat.raw, val.raw), (900_000, SCALE, SCALE));
}

#[test]
fn hsv_round_trip_keeps_the_hue() {
    // all six sectors of the hue circle round-trip, and every
    // recovered hue stays a fraction of a turn in [0, 1)
    for hue in [
        0, 100_000, 166_000, 250_000, 333_333, 400_000, 500_000, 600_000, 700_000, 833_000,
        870_000, 900_000, 999_999,
    ] {
        let c = Color::from_hsv(s(hue), s(SCALE), s(SCALE));
        let (h, sat, val) = c.to_hsv();
        assert!((h.raw - hue).abs() <= 2, "hue {hue} came back {}", h.raw);
        assert_eq!(sat.raw, SCALE);
        assert_eq!(val.raw, SCALE);
        assert!(0 <= h.raw && h.raw < SCALE);
    }
}

#[test]
fn expression_clone_evaluates_alike() {
    let e = Expr::mul(Expr::Constant(s(2_500_000)), Expr::Constant(s(4_000_000)));
    let copy = e.clone();
    assert_eq!(e.eval().unwrap().raw, 10_000_000);
    assert_eq!(copy.eval().unwrap().raw, 10_000_000);
}

#[test]
fn expression_evaluation() {
    let e = Expr::div(
        Expr::add(
            Expr::Constant(s(2_000_000)),
            Expr::mul(Expr::Constant(s(3_000_000)), Expr::Constant(s(4_000_000))),
        ),
        Expr::Constant(s(2_000_000)),
    );
    assert_eq!(e.eval().unwrap().raw, 7_000_000);
}

#[test]
fn expression_division_by_zero_fails() {
    let e = Expr::div(Expr::Constant(s(SCALE)), Expr::Constant(s(0)));
    assert!(e.eval().is_none());
    let nested = Expr::add(
        Expr::Constant(s(1)),
        Expr::div(Expr::Constant(s(1)), Expr::Constant(s(0))),
    );
    assert!(nested.eval().is_none());
}

#[test]
fn expression_overflow_fails() {
    let e = Expr::add(Expr::Constant(s(i64::MAX)), Expr::Constant(s(1)));
    assert!(e.eval().is_none());
    let m = Expr::mul(Expr::Constant(s(i64::MAX)), Expr::Constant(s(i64::MAX)));
    assert!(m.eval().is_none());
    let fine = Expr::sub(Expr::Constant(s(i64::MAX)), Expr::Constant(s(1)));
    assert_eq!(fine.eval().unwrap().raw, i64::MAX - 1);
}

#[test]
fn vertex_element_queries() {
    let ints = VertexArrayElement::Integers { count: 2 };
    let floats = VertexArrayElement::Floats { count: 3, normalized: true };
    assert_eq!(ints.count(), 2);
    assert_eq!(floats.count(), 3);
    assert_eq!(ints.element_size(), 4);
    assert_eq!(floats.element_size(), 4);
    assert_eq!(ints.size(), 8);
    assert_eq!(floats.size(), 12);
    assert!(!ints.normalized());
    assert!(floats.normalized());
    assert!(!VertexArrayElement::Floats { count: 3, normalized: false }.normalized());
}

#[test]
fn interleaved_layout_offsets() {
    let format = vec![
        VertexArrayElement::Floats { count: 3, normalized: false },
        VertexArrayElement::Floats { count: 3, normalized: false },
        VertexArrayElement::Floats { count: 3, normalized: false },
    ];
    let (offsets, stride) = vertex_layout(&format);
    assert_eq!(stride, 36);
    assert_eq!(offsets, vec![0, 12, 24]);
    let mixed = vec![
        VertexArrayElement::Integers { count: 1 },
        VertexArrayElement::Floats { count: 2, normalized: true },
    ];
    let (offs2, stride2) = vertex_layout(&mixed);
    assert_eq!(stride2, 12);
    assert_eq!(offs2, vec![0, 4]);
}
