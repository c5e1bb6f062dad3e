use scene3d::color::Color;
use scene3d::fixed::{Scalar, SCALE};
use scene3d::graphics::Graphics;
use scene3d::vec3::Vec3;

fn s(raw: i64) -> Scalar {
    Scalar { raw }
}

fn v(x: i64, y: i64, z: i64) -> Vec3 {
    Vec3 { x: s(x), y: s(y), z: s(z) }
}

fn grey() -> Color {
    Color::from_rgb(s(500_000), s(500_000), s(500_000))
}

#[test]
fn vertex_appends_one_record() {
    let mut g = Graphics::new();
    let id = g.vertex(v(1, 2, 3), grey(), v(0, SCALE, 0));
    assert_eq!(id, 0);
    assert_eq!(g.vertices, 1);
    assert_eq!(g.vertex_buffer.len(), 9);
    assert_eq!(g.index_buffer.len(), 0);
    let id2 = g.vertex(v(4, 5, 6), grey(), v(0, SCALE, 0));
    assert_eq!(id2, 1);
    assert_eq!(g.vertex_buffer.len(), 18);
}

#[test]
fn clear_resets_everything() {
    let mut g = Graphics::new();
    g.triangle(v(0, 0, 0), v(SCALE, 0, 0), v(0, 0, SCALE), grey());
    assert!(g.vertices > 0);
    g.clear();
    assert_eq!(g.vertices, 0);
    assert_eq!(g.vertex_buffer.len(), 0);
    assert_eq!(g.index_buffer.len(), 0);
    let id = g.vertex(v(0, 0, 0), grey(), v(0, SCALE, 0));
    assert_eq!(id, 0);
}

#[test]
fn triangle_appends_three_vertices_and_flat_normal() {
    let mut g = Graphics::new();
    g.triangle(v(0, 0, 0), v(SCALE, 0, 0), v(0, 0, SCALE), grey());
    assert_eq!(g.vertices, 3);
    assert_eq!(g.vertex_buffer.len(), 27);
    assert_eq!(g.index_buffer, vec![0, 1, 2]);
    // edges (1,0,0) and (0,0,1) give the flat normal (0,-1,0)
    for k in 0..3 {
        assert_eq!(g.vertex_buffer[9 * k + 6].raw, 0);
        assert_eq!(g.vertex_buffer[9 * k + 7].raw, -SCALE);
        assert_eq!(g.vertex_buffer[9 * k + 8].raw, 0);
    }
    // color channels sit between position and normal
    assert_eq!(g.vertex_buffer[3].raw, 500_000);
}

#[test]
fn degenerate_triangle_gets_the_up_normal() {
    let mut g = Graphics::new();
    g.triangle(v(0, 0, 0), v(SCALE, 0, 0), v(2 * SCALE, 0, 0), grey());
    assert_eq!(g.vertex_buffer[6].raw, 0);
    assert_eq!(g.vertex_buffer[7].raw, SCALE);
    assert_eq!(g.vertex_buffer[8].raw, 0);
}

#[test]
fn quad_appends_four_vertices_and_six_indices() {
    let mut g = Graphics::new();
    g.quad(v(0, 0, 0), v(SCALE, 0, 0), v(SCALE, 0, SCALE), v(0, 0, SCALE), grey());
    assert_eq!(g.vertices, 4);
    assert_eq!(g.vertex_buffer.len(), 36);
    assert_eq!(g.index_buffer, vec![0, 1, 2, 2, 3, 0]);
    // all four vertices share one identical normal
    let n = (
        g.vertex_buffer[6].raw,
        g.vertex_buffer[7].raw,
        g.vertex_buffer[8].raw,
    );
    for k in 1..4 {
        assert_eq!(g.vertex_buffer[9 * k + 6].raw, n.0);
        assert_eq!(g.vertex_buffer[9 * k + 7].raw, n.1);
        assert_eq!(g.vertex_buffer[9 * k + 8].raw, n.2);
    }
    assert_eq!(n, (0, -SCALE, 0));
}

#[test]
fn quad_after_triangle_offsets_indices() {
    let mut g = Graphics::new();
    g.triangle(v(0, 0, 0), v(SCALE, 0, 0), v(0, 0, SCALE), grey());
    g.quad(v(0, 0, 0), v(SCALE, 0, 0), v(SCALE, 0, SCALE), v(0, 0, SCALE), grey());
    assert_eq!(g.vertices, 7);
    assert_eq!(g.index_buffer, vec![0, 1, 2, 3, 4, 5, 5, 6, 3]);
}

#[test]
fn flat_surface_tessellation_counts_and_heights() {
    let mut g = Graphics::new();
    g.surface(s(0), s(2 * SCALE), s(SCALE), s(0), s(2 * SCALE), s(SCALE), |_x: Scalar,
        _z: Scalar| Scalar { raw: 0 });
    // two columns of two cells, two triangles per cell
    assert_eq!(g.vertices, 24);
    assert_eq!(g.vertex_buffer.len(), 216);
    assert_eq!(g.index_buffer.len(), 24);
    for k in 0..24 {
        assert_eq!(g.vertex_buffer[9 * k + 1].raw, 0, "height of vertex {k}");
        let x = g.vertex_buffer[9 * k].raw;
        let z = g.vertex_buffer[9 * k + 2].raw;
        assert!(x == 0 || x == SCALE || x == 2 * SCALE);
        assert!(z == 0 || z == SCALE || z == 2 * SCALE);
    }
    // every triangle of a flat surface faces straight up
    for k in 0..24 {
        assert_eq!(g.vertex_buffer[9 * k + 7].raw, SCALE, "normal of vertex {k}");
    }
    // every vertex carries the fixed fill color
    for k in 0..24 {
        assert_eq!(g.vertex_buffer[9 * k + 3].raw, 500_000);
        assert_eq!(g.vertex_buffer[9 * k + 4].raw, 500_000);
        assert_eq!(g.vertex_buffer[9 * k + 5].raw, 500_000);
    }
}

#[test]
fn surface_of_an_empty_grid_adds_nothing() {
    let mut g = Graphics::new();
    g.surface(s(SCALE), s(0), s(SCALE), s(0), s(SCALE), s(SCALE), |_x: Scalar, _z: Scalar| {
        Scalar { raw: 0 }
    });
    assert_eq!(g.vertices, 0);
    assert_eq!(g.index_buffer.len(), 0);
}

#[test]
fn surface_samples_the_height_function() {
    let mut g = Graphics::new();
    g.surface(s(0), s(SCALE), s(SCALE), s(0), s(SCALE), s(SCALE), |x: Scalar, z: Scalar| {
        Scalar { raw: x.raw + z.raw }
    });
    assert_eq!(g.vertices, 6);
    // record order: (p00, p01, p11) then (p11, p10, p00)
    let corners: Vec<(i64, i64)> = (0..6).map(|k| {
        (g.vertex_buffer[9 * k].raw, g.vertex_buffer[9 * k + 2].raw)
    }).collect();
    assert_eq!(
        corners,
        vec![(0, 0), (0, SCALE), (SCALE, SCALE), (SCALE, SCALE), (SCALE, 0), (0, 0)]
    );
    // heights are sampled at each record's own corner
    for k in 0..6 {
        assert_eq!(
            g.vertex_buffer[9 * k + 1].raw,
            corners[k].0 + corners[k].1,
            "height of record {k}"
        );
    }
    // the indices of the cell are consecutive
    assert_eq!(g.index_buffer, vec![0, 1, 2, 3, 4, 5]);
}
