use vstd::prelude::*;

use crate::color::Color;
use crate::fixed::{lemma_abs_mul_bound, lemma_tdiv_in, scale, tdiv, Scalar, SCALE};
use crate::vec3::{
    cross_num_x, cross_num_y, cross_num_z, dot_num, in_range, mag_num, Vec3,
};

verus! {

/// Largest raw coordinate magnitude a mesh point may have: edge
/// differences and their cross products then stay representable.
pub const POS_LIMIT: i64 = 500_000_000_000;

/// A vector from a triple of raw values.
pub open spec fn vec3_of(x: int, y: int, z: int) -> Vec3 {
    Vec3 { x: Scalar { raw: x as i64 }, y: Scalar { raw: y as i64 }, z: Scalar { raw: z as i64 } }
}

/// The edge vector from `p` to `q`.
pub open spec fn edge(p: Vec3, q: Vec3) -> Vec3 {
    vec3_of(q.x@ - p.x@, q.y@ - p.y@, q.z@ - p.z@)
}

/// The rounded cross product of a triangle's two edges out of `p0`.
pub open spec fn tri_cross(p0: Vec3, p1: Vec3, p2: Vec3) -> Vec3 {
    let d1 = edge(p0, p1);
    let d2 = edge(p0, p2);
    vec3_of(
        tdiv(cross_num_x(d1, d2), scale()),
        tdiv(cross_num_y(d1, d2), scale()),
        tdiv(cross_num_z(d1, d2), scale()),
    )
}

/// The flat normal of a triangle: the normalized cross product of its
/// edges, or the y axis unit when the edges are collinear and the
/// cross product vanishes.
pub open spec fn flat_normal(p0: Vec3, p1: Vec3, p2: Vec3) -> Vec3 {
    let c = tri_cross(p0, p1, p2);
    if dot_num(c, c) > 0 {
        vec3_of(
            tdiv(c.x@ * scale(), mag_num(c)),
            tdiv(c.y@ * scale(), mag_num(c)),
            tdiv(c.z@ * scale(), mag_num(c)),
        )
    } else {
        vec3_of(0, scale(), 0)
    }
}

/// The nine scalars one vertex contributes to the interleaved buffer:
/// position, color, normal.
pub open spec fn vertex_record(p: Vec3, c: Color, n: Vec3) -> Seq<Scalar> {
    seq![p.x, p.y, p.z, c.r, c.g, c.b, n.x, n.y, n.z]
}

/// The mesh accumulation buffer: interleaved vertex data, triangle
/// indices, and the vertex count.
pub struct Graphics {
    pub vertex_buffer: Vec<Scalar>,
    pub index_buffer: Vec<u32>,
    pub vertices: u32,
}

impl Graphics {
    /// The buffer invariant: nine scalars per vertex, every index
    /// refers to a vertex already appended, and the indices group into
    /// whole triangles of three.
    pub open spec fn wf(self) -> bool {
        &&& self.vertex_buffer@.len() == 9 * (self.vertices as int)
        &&& forall|i: int|
            0 <= i < self.index_buffer@.len() ==> (#[trigger] self.index_buffer@[i])
                < self.vertices
        &&& self.index_buffer@.len() % 3 == 0
    }

    /// An empty mesh buffer.
    pub fn new() -> (g: Graphics)
        ensures
            g.wf(),
            g.vertices == 0,
            g.vertex_buffer@.len() == 0,
            g.index_buffer@.len() == 0,
    {
        Graphics { vertex_buffer: Vec::new(), index_buffer: Vec::new(), vertices: 0 }
    }

    /// Reset to the empty mesh.
    pub fn clear(&mut self)
        ensures
            final(self).wf(),
            final(self).vertices == 0,
            final(self).vertex_buffer@.len() == 0,
            final(self).index_buffer@.len() == 0,
    {
        self.vertex_buffer = Vec::new();
        self.index_buffer = Vec::new();
        self.vertices = 0;
    }

    /// Append one vertex record and return its index.
    pub fn vertex(&mut self, position: Vec3, color: Color, normal: Vec3) -> (id: u32)
        requires
            old(self).wf(),
            old(self).vertices < u32::MAX,
        ensures
            final(self).wf(),
            id == old(self).vertices,
            final(self).vertices == old(self).vertices + 1,
            final(self).index_buffer == old(self).index_buffer,
            final(self).vertex_buffer@ == old(self).vertex_buffer@ + vertex_record(
                position,
                color,
                normal,
            ),
    {
        let id: u32 = self.vertices;
        self.vertices = self.vertices + 1;
        self.vertex_buffer.push(position.x);
        self.vertex_buffer.push(position.y);
        self.vertex_buffer.push(position.z);
        self.vertex_buffer.push(color.r);
        self.vertex_buffer.push(color.g);
        self.vertex_buffer.push(color.b);
        self.vertex_buffer.push(normal.x);
        self.vertex_buffer.push(normal.y);
        self.vertex_buffer.push(normal.z);
        proof {
            assert(final(self).vertex_buffer@ =~= old(self).vertex_buffer@ + vertex_record(
                position,
                color,
                normal,
            ));
        }
        id
    }

    /// Append one flat-shaded triangle: three vertex records sharing
    /// the triangle's flat normal, and their three indices in order.
    pub fn triangle(&mut self, p0: Vec3, p1: Vec3, p2: Vec3, color: Color)
        requires
            old(self).wf(),
            old(self).vertices + 3 <= u32::MAX,
            in_range(p0, POS_LIMIT as int),
            in_range(p1, POS_LIMIT as int),
            in_range(p2, POS_LIMIT as int),
        ensures
            final(self).wf(),
            final(self).vertices == old(self).vertices + 3,
            final(self).vertex_buffer@ == old(self).vertex_buffer@ + vertex_record(
                p0,
                color,
                flat_normal(p0, p1, p2),
            ) + vertex_record(p1, color, flat_normal(p0, p1, p2)) + vertex_record(
                p2,
                color,
                flat_normal(p0, p1, p2),
            ),
            final(self).index_buffer@ == old(self).index_buffer@ + seq![
                old(self).vertices,
                (old(self).vertices + 1) as u32,
                (old(self).vertices + 2) as u32,
            ],
    {
        let n = flat_normal_exec(p0, p1, p2);
        let i0 = self.vertex(p0, color, n);
        let i1 = self.vertex(p1, color, n);
        let i2 = self.vertex(p2, color, n);
        self.index_buffer.push(i0);
        self.index_buffer.push(i1);
        self.index_buffer.push(i2);
        proof {
            assert(final(self).index_buffer@ =~= old(self).index_buffer@ + seq![
                old(self).vertices,
                (old(self).vertices + 1) as u32,
                (old(self).vertices + 2) as u32,
            ]);
        }
    }

    /// Append one flat-shaded quad: four vertex records sharing one
    /// flat normal computed from the first three corners, and six
    /// indices forming two triangles that reuse the shared diagonal.
    pub fn quad(&mut self, p0: Vec3, p1: Vec3, p2: Vec3, p3: Vec3, color: Color)
        requires
            old(self).wf(),
            old(self).vertices + 4 <= u32::MAX,
            in_range(p0, POS_LIMIT as int),
            in_range(p1, POS_LIMIT as int),
            in_range(p2, POS_LIMIT as int),
        ensures
            final(self).wf(),
            final(self).vertices == old(self).vertices + 4,
            final(self).vertex_buffer@ == old(self).vertex_buffer@ + vertex_record(
                p0,
                color,
                flat_normal(p0, p1, p2),
            ) + vertex_record(p1, color, flat_normal(p0, p1, p2)) + vertex_record(
                p2,
                color,
                flat_normal(p0, p1, p2),
            ) + vertex_record(p3, color, flat_normal(p0, p1, p2)),
            final(self).index_buffer@ == old(self).index_buffer@ + seq![
                old(self).vertices,
                (old(self).vertices + 1) as u32,
                (old(self).vertices + 2) as u32,
                (old(self).vertices + 2) as u32,
                (old(self).vertices + 3) as u32,
                old(self).vertices,
            ],
    {
        let n = flat_normal_exec(p0, p1, p2);
        let i0 = self.vertex(p0, color, n);
        let i1 = self.vertex(p1, color, n);
        let i2 = self.vertex(p2, color, n);
        let i3 = self.vertex(p3, color, n);
        self.index_buffer.push(i0);
        self.index_buffer.push(i1);
        self.index_buffer.push(i2);
        self.index_buffer.push(i2);
        self.index_buffer.push(i3);
        self.index_buffer.push(i0);
        proof {
            assert(final(self).index_buffer@ =~= old(self).index_buffer@ + seq![
                old(self).vertices,
                (old(self).vertices + 1) as u32,
                (old(self).vertices + 2) as u32,
                (old(self).vertices + 2) as u32,
                (old(self).vertices + 3) as u32,
                old(self).vertices,
            ]);
        }
    }
}

/// Number of grid steps from `lo` (inclusive) to `hi` (exclusive).
pub open spec fn grid_count(lo: int, hi: int, step: int) -> nat
    decreases (if hi - lo >= 0 { hi - lo } else { 0 }) when step > 0
{
    if lo >= hi {
        0
    } else {
        (1 + grid_count(lo + step, hi, step)) as nat
    }
}

/// `y` is a possible result of the height function on some sample.
pub open spec fn is_height<F: Fn(Scalar, Scalar) -> Scalar>(f: F, y: Scalar) -> bool {
    exists|xa: Scalar, za: Scalar| call_ensures(f, (xa, za), y)
}

/// The fixed color the tessellation paints every cell with.
pub open spec fn surface_color() -> Color {
    Color {
        r: Scalar { raw: 500_000 },
        g: Scalar { raw: 500_000 },
        b: Scalar { raw: 500_000 },
        a: Scalar { raw: SCALE },
    }
}

/// Everything appended past `base` consists of nine-scalar vertex
/// records whose x and z positions lie on the given ranges, whose y
/// coordinate is a height-function result, and whose color channels
/// are the given fill color.
pub open spec fn surface_records<F: Fn(Scalar, Scalar) -> Scalar>(
    f: F,
    s: Seq<Scalar>,
    base: int,
    col: Color,
    xlo: int,
    xhi: int,
    zlo: int,
    zhi: int,
) -> bool {
    forall|j: int| #![trigger s[j]]
        base <= j < s.len() ==> {
            let off = (j - base) % 9;
            &&& (off == 0 ==> xlo <= s[j]@ <= xhi)
            &&& (off == 1 ==> is_height(f, s[j]))
            &&& (off == 2 ==> zlo <= s[j]@ <= zhi)
            &&& (off == 3 ==> s[j] == col.r)
            &&& (off == 4 ==> s[j] == col.g)
            &&& (off == 5 ==> s[j] == col.b)
        }
}

/// The near-corner x coordinate of cell `t` of an x-major walk over a
/// grid with `nz` cells per column.
pub open spec fn cell_corner_x(t: int, x_min: int, x_step: int, nz: int) -> int {
    x_min + (t / nz) * x_step
}

/// The near-corner z coordinate of cell `t`: row `t % nz` of its
/// column.
pub open spec fn cell_corner_z(t: int, z_min: int, z_step: int, nz: int) -> int {
    z_min + (t % nz) * z_step
}

/// The 54 scalars that cell `t` appended: six nine-scalar records.
pub open spec fn cell_slice(s: Seq<Scalar>, base: int, t: int) -> Seq<Scalar> {
    s.subrange(base + 54 * t, base + 54 * t + 54)
}

/// One tessellated cell with near corner `(xi, zj)` and steps
/// `(xs, zs)`: the two triangles `(p00, p01, p11)` and
/// `(p11, p10, p00)` in exactly that record order, every position a
/// cell corner, every height a result of the height function at that
/// record's own corner, the repeated corners reusing one sampled
/// height each, and each triangle's three records carrying that
/// triangle's flat normal.
pub open spec fn cell_ok<F: Fn(Scalar, Scalar) -> Scalar>(
    f: F,
    c: Seq<Scalar>,
    xi: int,
    zj: int,
    xs: int,
    zs: int,
) -> bool {
    let x0 = Scalar { raw: xi as i64 };
    let x1 = Scalar { raw: (xi + xs) as i64 };
    let z0 = Scalar { raw: zj as i64 };
    let z1 = Scalar { raw: (zj + zs) as i64 };
    let q00 = Vec3 { x: c[0], y: c[1], z: c[2] };
    let q01 = Vec3 { x: c[9], y: c[10], z: c[11] };
    let q11 = Vec3 { x: c[18], y: c[19], z: c[20] };
    let q11b = Vec3 { x: c[27], y: c[28], z: c[29] };
    let q10 = Vec3 { x: c[36], y: c[37], z: c[38] };
    let q00b = Vec3 { x: c[45], y: c[46], z: c[47] };
    let m1 = flat_normal(q00, q01, q11);
    let m2 = flat_normal(q11b, q10, q00b);
    &&& c.len() == 54
    &&& c[0] == x0 && c[2] == z0
    &&& c[9] == x0 && c[11] == z1
    &&& c[18] == x1 && c[20] == z1
    &&& c[27] == x1 && c[29] == z1
    &&& c[36] == x1 && c[38] == z0
    &&& c[45] == x0 && c[47] == z0
    &&& call_ensures(f, (x0, z0), c[1])
    &&& call_ensures(f, (x0, z1), c[10])
    &&& call_ensures(f, (x1, z1), c[19])
    &&& call_ensures(f, (x1, z0), c[37])
    &&& c[28] == c[19]
    &&& c[46] == c[1]
    &&& c[6] == m1.x && c[7] == m1.y && c[8] == m1.z
    &&& c[15] == m1.x && c[16] == m1.y && c[17] == m1.z
    &&& c[24] == m1.x && c[25] == m1.y && c[26] == m1.z
    &&& c[33] == m2.x && c[34] == m2.y && c[35] == m2.z
    &&& c[42] == m2.x && c[43] == m2.y && c[44] == m2.z
    &&& c[51] == m2.x && c[52] == m2.y && c[53] == m2.z
}

/// Six appended records of one cell, with corner positions and
/// heights sampled at them, satisfy the cell shape.
proof fn lemma_cell_records<F: Fn(Scalar, Scalar) -> Scalar>(
    f: F,
    c: Seq<Scalar>,
    p00: Vec3,
    p01: Vec3,
    p10: Vec3,
    p11: Vec3,
    col: Color,
    n1: Vec3,
    n2: Vec3,
    xi: int,
    zj: int,
    xs: int,
    zs: int,
)
    requires
        c == vertex_record(p00, col, n1) + vertex_record(p01, col, n1) + vertex_record(
            p11,
            col,
            n1,
        ) + vertex_record(p11, col, n2) + vertex_record(p10, col, n2) + vertex_record(
            p00,
            col,
            n2,
        ),
        p00.x@ == xi && p00.z@ == zj,
        p01.x@ == xi && p01.z@ == zj + zs,
        p10.x@ == xi + xs && p10.z@ == zj,
        p11.x@ == xi + xs && p11.z@ == zj + zs,
        call_ensures(f, (p00.x, p00.z), p00.y),
        call_ensures(f, (p01.x, p01.z), p01.y),
        call_ensures(f, (p10.x, p10.z), p10.y),
        call_ensures(f, (p11.x, p11.z), p11.y),
        n1 == flat_normal(p00, p01, p11),
        n2 == flat_normal(p11, p10, p00),
    ensures
        cell_ok(f, c, xi, zj, xs, zs),
{
    assert(c.len() == 54);
    assert(c[0] == p00.x && c[1] == p00.y && c[2] == p00.z);
    assert(c[9] == p01.x && c[10] == p01.y && c[11] == p01.z);
    assert(c[18] == p11.x && c[19] == p11.y && c[20] == p11.z);
    assert(c[27] == p11.x && c[28] == p11.y && c[29] == p11.z);
    assert(c[36] == p10.x && c[37] == p10.y && c[38] == p10.z);
    assert(c[45] == p00.x && c[46] == p00.y && c[47] == p00.z);
    assert(c[6] == n1.x && c[7] == n1.y && c[8] == n1.z);
    assert(c[15] == n1.x && c[16] == n1.y && c[17] == n1.z);
    assert(c[24] == n1.x && c[25] == n1.y && c[26] == n1.z);
    assert(c[33] == n2.x && c[34] == n2.y && c[35] == n2.z);
    assert(c[42] == n2.x && c[43] == n2.y && c[44] == n2.z);
    assert(c[51] == n2.x && c[52] == n2.y && c[53] == n2.z);
    assert(p00.x == (Scalar { raw: xi as i64 }));
    assert(p00.z == (Scalar { raw: zj as i64 }));
    assert(p10.x == (Scalar { raw: (xi + xs) as i64 }));
    assert(p01.z == (Scalar { raw: (zj + zs) as i64 }));
    assert((Vec3 { x: c[0], y: c[1], z: c[2] }) == p00);
    assert((Vec3 { x: c[9], y: c[10], z: c[11] }) == p01);
    assert((Vec3 { x: c[18], y: c[19], z: c[20] }) == p11);
    assert((Vec3 { x: c[27], y: c[28], z: c[29] }) == p11);
    assert((Vec3 { x: c[36], y: c[37], z: c[38] }) == p10);
    assert((Vec3 { x: c[45], y: c[46], z: c[47] }) == p00);
}

/// Appending one in-bounds vertex record in the fill color keeps the
/// whole appended region made of such records.
proof fn lemma_record_append<F: Fn(Scalar, Scalar) -> Scalar>(
    f: F,
    s1: Seq<Scalar>,
    p: Vec3,
    col: Color,
    n: Vec3,
    base: int,
    xa: Scalar,
    za: Scalar,
    xlo: int,
    xhi: int,
    zlo: int,
    zhi: int,
)
    requires
        0 <= base <= s1.len(),
        (s1.len() - base) % 9 == 0,
        surface_records(f, s1, base, col, xlo, xhi, zlo, zhi),
        call_ensures(f, (xa, za), p.y),
        xlo <= p.x@ <= xhi,
        zlo <= p.z@ <= zhi,
    ensures
        surface_records(f, s1 + vertex_record(p, col, n), base, col, xlo, xhi, zlo, zhi),
        ((s1 + vertex_record(p, col, n)).len() - base) % 9 == 0,
{
    let s2 = s1 + vertex_record(p, col, n);
    assert forall|j: int| #![trigger s2[j]]
        base <= j < s2.len() implies {
        let off = (j - base) % 9;
        &&& (off == 0 ==> xlo <= s2[j]@ <= xhi)
        &&& (off == 1 ==> is_height(f, s2[j]))
        &&& (off == 2 ==> zlo <= s2[j]@ <= zhi)
        &&& (off == 3 ==> s2[j] == col.r)
        &&& (off == 4 ==> s2[j] == col.g)
        &&& (off == 5 ==> s2[j] == col.b)
    } by {
        if j < s1.len() {
            assert(s2[j] == s1[j]);
            assert(base <= j < s1.len());
        } else {
            let off = j - s1.len();
            vstd::arithmetic::div_mod::lemma_mod_adds(s1.len() - base, off, 9);
            vstd::arithmetic::div_mod::lemma_small_mod(off as nat, 9nat);
            assert((j - base) % 9 == off);
            if off == 1 {
                assert(s2[j] == p.y);
                assert(call_ensures(f, (xa, za), s2[j]));
            }
        }
    }
    vstd::arithmetic::div_mod::lemma_mod_adds(s1.len() - base, 9, 9);
}

/// A triangle append keeps the appended region made of in-bounds
/// records, when all three corners are in bounds and their heights
/// came from the height function.
proof fn lemma_record_triangle<F: Fn(Scalar, Scalar) -> Scalar>(
    f: F,
    s1: Seq<Scalar>,
    p0: Vec3,
    p1: Vec3,
    p2: Vec3,
    col: Color,
    n: Vec3,
    base: int,
    a0: (Scalar, Scalar),
    a1: (Scalar, Scalar),
    a2: (Scalar, Scalar),
    xlo: int,
    xhi: int,
    zlo: int,
    zhi: int,
)
    requires
        0 <= base <= s1.len(),
        (s1.len() - base) % 9 == 0,
        surface_records(f, s1, base, col, xlo, xhi, zlo, zhi),
        call_ensures(f, a0, p0.y),
        call_ensures(f, a1, p1.y),
        call_ensures(f, a2, p2.y),
        xlo <= p0.x@ <= xhi && zlo <= p0.z@ <= zhi,
        xlo <= p1.x@ <= xhi && zlo <= p1.z@ <= zhi,
        xlo <= p2.x@ <= xhi && zlo <= p2.z@ <= zhi,
    ensures
        surface_records(
            f,
            s1 + vertex_record(p0, col, n) + vertex_record(p1, col, n) + vertex_record(
                p2,
                col,
                n,
            ),
            base,
            col,
            xlo,
            xhi,
            zlo,
            zhi,
        ),
        ((s1 + vertex_record(p0, col, n) + vertex_record(p1, col, n) + vertex_record(
            p2,
            col,
            n,
        )).len() - base) % 9 == 0,
{
    lemma_record_append(f, s1, p0, col, n, base, a0.0, a0.1, xlo, xhi, zlo, zhi);
    lemma_record_append(
        f,
        s1 + vertex_record(p0, col, n),
        p1,
        col,
        n,
        base,
        a1.0,
        a1.1,
        xlo,
        xhi,
        zlo,
        zhi,
    );
    lemma_record_append(
        f,
        s1 + vertex_record(p0, col, n) + vertex_record(p1, col, n),
        p2,
        col,
        n,
        base,
        a2.0,
        a2.1,
        xlo,
        xhi,
        zlo,
        zhi,
    );
}

impl Graphics {
    /// Tessellate a height field over the half-open grid
    /// `[x_min, x_max) x [z_min, z_max)`: for each cell, sample the
    /// height function at the four corners and append the cell's two
    /// triangles, split along the diagonal, in one fixed color.
    pub fn surface<F: Fn(Scalar, Scalar) -> Scalar>(
        &mut self,
        x_min: Scalar,
        x_max: Scalar,
        x_step: Scalar,
        z_min: Scalar,
        z_max: Scalar,
        z_step: Scalar,
        f: F,
    )
        requires
            old(self).wf(),
            x_step@ > 0,
            z_step@ > 0,
            -(POS_LIMIT as int) <= x_min@,
            x_max@ + x_step@ <= POS_LIMIT as int,
            -(POS_LIMIT as int) <= z_min@,
            z_max@ + z_step@ <= POS_LIMIT as int,
            old(self).vertices + 6 * grid_count(x_min@, x_max@, x_step@) * grid_count(
                z_min@,
                z_max@,
                z_step@,
            ) <= u32::MAX,
            forall|xa: Scalar, za: Scalar|
                -(POS_LIMIT as int) <= xa@ <= POS_LIMIT as int && -(POS_LIMIT as int) <= za@
                    <= POS_LIMIT as int ==> call_requires(f, (xa, za)),
            forall|xa: Scalar, za: Scalar, r: Scalar|
                call_ensures(f, (xa, za), r) ==> -(POS_LIMIT as int) <= r@ <= POS_LIMIT as int,
        ensures
            final(self).wf(),
            final(self).vertices == old(self).vertices + 6 * grid_count(
                x_min@,
                x_max@,
                x_step@,
            ) * grid_count(z_min@, z_max@, z_step@),
            final(self).index_buffer@.len() == old(self).index_buffer@.len() + 6 * grid_count(
                x_min@,
                x_max@,
                x_step@,
            ) * grid_count(z_min@, z_max@, z_step@),
            final(self).vertex_buffer@.subrange(0, old(self).vertex_buffer@.len() as int) == old(
                self,
            ).vertex_buffer@,
            final(self).index_buffer@.subrange(0, old(self).index_buffer@.len() as int) == old(
                self,
            ).index_buffer@,
            surface_records(
                f,
                final(self).vertex_buffer@,
                old(self).vertex_buffer@.len() as int,
                surface_color(),
                x_min@,
                x_max@ + x_step@,
                z_min@,
                z_max@ + z_step@,
            ),
            forall|t: int|
                #![trigger cell_slice(final(self).vertex_buffer@, old(self).vertex_buffer@.len() as int, t)]
                0 <= t < grid_count(x_min@, x_max@, x_step@) * grid_count(z_min@, z_max@, z_step@)
                    ==> cell_ok(
                    f,
                    cell_slice(final(self).vertex_buffer@, old(self).vertex_buffer@.len() as int, t),
                    cell_corner_x(t, x_min@, x_step@, grid_count(z_min@, z_max@, z_step@) as int),
                    cell_corner_z(t, z_min@, z_step@, grid_count(z_min@, z_max@, z_step@) as int),
                    x_step@,
                    z_step@,
                ),
            forall|j: int|
                old(self).index_buffer@.len() <= j < final(self).index_buffer@.len() ==> (
                #[trigger] final(self).index_buffer@[j]) as int == old(self).vertices + (j - old(
                    self,
                ).index_buffer@.len()),
    {
        let color = Color::from_rgb(
            Scalar { raw: 500_000 },
            Scalar { raw: 500_000 },
            Scalar { raw: 500_000 },
        );
        let ghost gcx = grid_count(x_min@, x_max@, x_step@);
        let ghost gcz = grid_count(z_min@, z_max@, z_step@);
        let ghost base_v = old(self).vertices as int;
        let ghost base_vb = old(self).vertex_buffer@;
        let ghost base_ib = old(self).index_buffer@;
        proof {
            assert(base_vb.subrange(0, base_vb.len() as int) =~= base_vb);
            assert(base_ib.subrange(0, base_ib.len() as int) =~= base_ib);
            let diff0 = gcx - grid_count(x_min@, x_max@, x_step@);
            assert(diff0 == 0);
            assert(6 * diff0 * gcz == 0 && diff0 * gcz == 0 && diff0 * x_step@ == 0)
                by (nonlinear_arith)
                requires
                    diff0 == 0,
            ;
        }
        let mut x = x_min;
        while x.raw < x_max.raw
            invariant
                self.wf(),
                x_step@ > 0,
                z_step@ > 0,
                x_min@ <= x@,
                -(POS_LIMIT as int) <= x_min@,
                x_max@ + x_step@ <= POS_LIMIT as int,
                -(POS_LIMIT as int) <= z_min@,
                z_max@ + z_step@ <= POS_LIMIT as int,
                color == surface_color(),
                base_vb.len() == 9 * base_v,
                grid_count(x@, x_max@, x_step@) <= gcx,
                gcx == grid_count(x_min@, x_max@, x_step@),
                gcz == grid_count(z_min@, z_max@, z_step@),
                x@ == x_min@ + (gcx - grid_count(x@, x_max@, x_step@)) * x_step@,
                self.vertices as int == base_v + 6 * (gcx - grid_count(x@, x_max@, x_step@))
                    * gcz,
                base_v + 6 * gcx * gcz <= u32::MAX,
                self.index_buffer@.len() == base_ib.len() + 6 * (gcx - grid_count(
                    x@,
                    x_max@,
                    x_step@,
                )) * gcz,
                base_vb.len() <= self.vertex_buffer@.len(),
                base_ib.len() <= self.index_buffer@.len(),
                self.vertex_buffer@.subrange(0, base_vb.len() as int) == base_vb,
                self.index_buffer@.subrange(0, base_ib.len() as int) == base_ib,
                surface_records(
                    f,
                    self.vertex_buffer@,
                    base_vb.len() as int,
                    surface_color(),
                    x_min@,
                    x_max@ + x_step@,
                    z_min@,
                    z_max@ + z_step@,
                ),
                (self.vertex_buffer@.len() - base_vb.len()) % 9 == 0,
                forall|t: int|
                    #![trigger cell_slice(self.vertex_buffer@, base_vb.len() as int, t)]
                    0 <= t < (gcx - grid_count(x@, x_max@, x_step@)) * gcz ==> cell_ok(
                        f,
                        cell_slice(self.vertex_buffer@, base_vb.len() as int, t),
                        cell_corner_x(t, x_min@, x_step@, gcz as int),
                        cell_corner_z(t, z_min@, z_step@, gcz as int),
                        x_step@,
                        z_step@,
                    ),
                forall|j: int|
                    base_ib.len() <= j < self.index_buffer@.len() ==> (
                    #[trigger] self.index_buffer@[j]) as int == base_v + (j - base_ib.len()),
                forall|xa: Scalar, za: Scalar|
                    -(POS_LIMIT as int) <= xa@ <= POS_LIMIT as int && -(POS_LIMIT as int) <= za@
                        <= POS_LIMIT as int ==> call_requires(f, (xa, za)),
                forall|xa: Scalar, za: Scalar, r: Scalar|
                    call_ensures(f, (xa, za), r) ==> -(POS_LIMIT as int) <= r@
                        <= POS_LIMIT as int,
            decreases (if x_max@ - x@ >= 0 { x_max@ - x@ } else { 0 }),
        {
            let xs = x.add(x_step);
            let ghost col_v = self.vertices as int;
            let ghost col_ib = self.index_buffer@.len() as int;
            let mut z = z_min;
            proof {
                assert(grid_count(x@, x_max@, x_step@) == 1 + grid_count(
                    xs@,
                    x_max@,
                    x_step@,
                ));
                let done = gcx - grid_count(x@, x_max@, x_step@);
                assert(6 * done * gcz + 6 * gcz <= 6 * gcx * gcz) by (nonlinear_arith)
                    requires
                        0 <= done,
                        done + 1 <= gcx,
                        0 <= gcz,
                ;
                let dz0 = gcz - grid_count(z_min@, z_max@, z_step@);
                assert(dz0 == 0);
                assert(dz0 * z_step@ == 0) by (nonlinear_arith)
                    requires
                        dz0 == 0,
                ;
            }
            while z.raw < z_max.raw
                invariant
                    self.wf(),
                    x_step@ > 0,
                    z_step@ > 0,
                    z_min@ <= z@,
                    x_min@ <= x@,
                    x@ < x_max@,
                    xs@ == x@ + x_step@,
                    -(POS_LIMIT as int) <= x_min@,
                    x_max@ + x_step@ <= POS_LIMIT as int,
                    -(POS_LIMIT as int) <= z_min@,
                    z_max@ + z_step@ <= POS_LIMIT as int,
                    color == surface_color(),
                    base_vb.len() == 9 * base_v,
                    grid_count(z@, z_max@, z_step@) <= gcz,
                    gcz == grid_count(z_min@, z_max@, z_step@),
                    gcx == grid_count(x_min@, x_max@, x_step@),
                    grid_count(x@, x_max@, x_step@) <= gcx,
                    col_v == base_v + 6 * (gcx - grid_count(x@, x_max@, x_step@)) * gcz,
                    col_ib == base_ib.len() + 6 * (gcx - grid_count(x@, x_max@, x_step@)) * gcz,
                    x@ == x_min@ + (gcx - grid_count(x@, x_max@, x_step@)) * x_step@,
                    z@ == z_min@ + (gcz - grid_count(z@, z_max@, z_step@)) * z_step@,
                    self.vertices as int == col_v + 6 * (gcz - grid_count(z@, z_max@, z_step@)),
                    col_v + 6 * gcz <= u32::MAX,
                    self.index_buffer@.len() == col_ib + 6 * (gcz - grid_count(
                        z@,
                        z_max@,
                        z_step@,
                    )),
                    base_vb.len() <= self.vertex_buffer@.len(),
                    base_ib.len() <= self.index_buffer@.len(),
                    self.vertex_buffer@.subrange(0, base_vb.len() as int) == base_vb,
                    self.index_buffer@.subrange(0, base_ib.len() as int) == base_ib,
                    surface_records(
                        f,
                        self.vertex_buffer@,
                        base_vb.len() as int,
                        surface_color(),
                        x_min@,
                        x_max@ + x_step@,
                        z_min@,
                        z_max@ + z_step@,
                    ),
                    (self.vertex_buffer@.len() - base_vb.len()) % 9 == 0,
                    forall|t: int|
                        #![trigger cell_slice(self.vertex_buffer@, base_vb.len() as int, t)]
                        0 <= t < (gcx - grid_count(x@, x_max@, x_step@)) * gcz + (gcz
                            - grid_count(z@, z_max@, z_step@)) ==> cell_ok(
                            f,
                            cell_slice(self.vertex_buffer@, base_vb.len() as int, t),
                            cell_corner_x(t, x_min@, x_step@, gcz as int),
                            cell_corner_z(t, z_min@, z_step@, gcz as int),
                            x_step@,
                            z_step@,
                        ),
                    forall|j: int|
                        base_ib.len() <= j < self.index_buffer@.len() ==> (
                        #[trigger] self.index_buffer@[j]) as int == base_v + (j - base_ib.len()),
                    forall|xa: Scalar, za: Scalar|
                        -(POS_LIMIT as int) <= xa@ <= POS_LIMIT as int && -(POS_LIMIT as int)
                            <= za@ <= POS_LIMIT as int ==> call_requires(f, (xa, za)),
                    forall|xa: Scalar, za: Scalar, r: Scalar|
                        call_ensures(f, (xa, za), r) ==> -(POS_LIMIT as int) <= r@
                            <= POS_LIMIT as int,
                decreases (if z_max@ - z@ >= 0 { z_max@ - z@ } else { 0 }),
            {
                let zs = z.add(z_step);
                proof {
                    assert(grid_count(z@, z_max@, z_step@) == 1 + grid_count(
                        zs@,
                        z_max@,
                        z_step@,
                    ));
                }
                let ghost verts1 = self.vertices as int;
                let ghost ib1 = self.index_buffer@;
                let h00 = f(x, z);
                let h01 = f(x, zs);
                let h10 = f(xs, z);
                let h11 = f(xs, zs);
                let p00 = Vec3 { x, y: h00, z };
                let p01 = Vec3 { x, y: h01, z: zs };
                let p10 = Vec3 { x: xs, y: h10, z };
                let p11 = Vec3 { x: xs, y: h11, z: zs };
                let ghost vb1 = self.vertex_buffer@;
                self.triangle(p00, p01, p11, color);
                proof {
                    lemma_record_triangle(
                        f,
                        vb1,
                        p00,
                        p01,
                        p11,
                        color,
                        flat_normal(p00, p01, p11),
                        base_vb.len() as int,
                        (x, z),
                        (x, zs),
                        (xs, zs),
                        x_min@,
                        x_max@ + x_step@,
                        z_min@,
                        z_max@ + z_step@,
                    );
                    assert(self.vertex_buffer@.subrange(0, base_vb.len() as int)
                        =~= base_vb);
                }
                let ghost vb2 = self.vertex_buffer@;
                self.triangle(p11, p10, p00, color);
                proof {
                    lemma_record_triangle(
                        f,
                        vb2,
                        p11,
                        p10,
                        p00,
                        color,
                        flat_normal(p11, p10, p00),
                        base_vb.len() as int,
                        (xs, zs),
                        (xs, z),
                        (x, z),
                        x_min@,
                        x_max@ + x_step@,
                        z_min@,
                        z_max@ + z_step@,
                    );
                    assert(self.vertex_buffer@.subrange(0, base_vb.len() as int)
                        =~= base_vb);
                    assert(self.index_buffer@.subrange(0, base_ib.len() as int) =~= base_ib);
                }
                proof {
                    let base = base_vb.len() as int;
                    let done_x = gcx - grid_count(x@, x_max@, x_step@);
                    let done_z = gcz - grid_count(z@, z_max@, z_step@);
                    let t_cur = done_x * gcz + done_z;
                    let n1 = flat_normal(p00, p01, p11);
                    let n2 = flat_normal(p11, p10, p00);
                    let r6 = vertex_record(p00, color, n1) + vertex_record(p01, color, n1)
                        + vertex_record(p11, color, n1) + vertex_record(p11, color, n2)
                        + vertex_record(p10, color, n2) + vertex_record(p00, color, n2);
                    assert(9 * verts1 - 9 * base_v == 54 * t_cur) by (nonlinear_arith)
                        requires
                            verts1 == col_v + 6 * done_z,
                            col_v == base_v + 6 * done_x * gcz,
                            t_cur == done_x * gcz + done_z,
                    ;
                    assert(vb1.len() == base + 54 * t_cur);
                    assert(self.vertex_buffer@ =~= vb1 + r6);
                    assert(cell_slice(self.vertex_buffer@, base, t_cur) =~= r6);
                    lemma_cell_records(
                        f,
                        cell_slice(self.vertex_buffer@, base, t_cur),
                        p00,
                        p01,
                        p10,
                        p11,
                        color,
                        n1,
                        n2,
                        x@,
                        z@,
                        x_step@,
                        z_step@,
                    );
                    assert(0 < grid_count(z@, z_max@, z_step@));
                    vstd::arithmetic::div_mod::lemma_fundamental_div_mod_converse(
                        t_cur,
                        gcz as int,
                        done_x,
                        done_z,
                    );
                    assert(cell_corner_x(t_cur, x_min@, x_step@, gcz as int) == x@);
                    assert(cell_corner_z(t_cur, z_min@, z_step@, gcz as int) == z@);
                    assert((done_z + 1) * z_step@ == done_z * z_step@ + z_step@)
                        by (nonlinear_arith);
                    assert forall|t: int|
                        0 <= t < done_x * gcz + (gcz - grid_count(zs@, z_max@, z_step@))
                            implies cell_ok(
                        f,
                        #[trigger] cell_slice(self.vertex_buffer@, base, t),
                        cell_corner_x(t, x_min@, x_step@, gcz as int),
                        cell_corner_z(t, z_min@, z_step@, gcz as int),
                        x_step@,
                        z_step@,
                    ) by {
                        if t < t_cur {
                            assert(cell_slice(self.vertex_buffer@, base, t) =~= cell_slice(
                                vb1,
                                base,
                                t,
                            ));
                            assert(cell_ok(
                                f,
                                cell_slice(vb1, base, t),
                                cell_corner_x(t, x_min@, x_step@, gcz as int),
                                cell_corner_z(t, z_min@, z_step@, gcz as int),
                                x_step@,
                                z_step@,
                            ));
                        } else {
                            assert(t == t_cur);
                        }
                    }
                    assert forall|j: int|
                        base_ib.len() <= j < self.index_buffer@.len() implies (
                    #[trigger] self.index_buffer@[j]) as int == base_v + (j - base_ib.len()) by {
                        if j < ib1.len() {
                            assert(self.index_buffer@[j] == ib1[j]);
                        } else {
                            assert(ib1.len() - base_ib.len() == 6 * t_cur) by (nonlinear_arith)
                                requires
                                    ib1.len() == col_ib + 6 * done_z,
                                    col_ib == base_ib.len() + 6 * done_x * gcz,
                                    t_cur == done_x * gcz + done_z,
                            ;
                            assert(verts1 - base_v == 6 * t_cur) by (nonlinear_arith)
                                requires
                                    verts1 == col_v + 6 * done_z,
                                    col_v == base_v + 6 * done_x * gcz,
                                    t_cur == done_x * gcz + done_z,
                            ;
                            assert(self.index_buffer@[j] as int == verts1 + (j - ib1.len()));
                        }
                    }
                }
                z = zs;
            }
            proof {
                let done = gcx - grid_count(x@, x_max@, x_step@);
                assert(6 * done * gcz + 6 * gcz == 6 * (done + 1) * gcz) by (nonlinear_arith);
                assert(done * gcz + gcz == (done + 1) * gcz) by (nonlinear_arith);
                assert((done + 1) * x_step@ == done * x_step@ + x_step@) by (nonlinear_arith);
            }
            x = xs;
        }
    }
}

/// Tessellating a flat height field leaves every vertex at height
/// zero: if the height function can only return zero, every y
/// coordinate the tessellation appended is zero.
pub proof fn lemma_flat_surface_heights<F: Fn(Scalar, Scalar) -> Scalar>(
    f: F,
    s: Seq<Scalar>,
    base: int,
    col: Color,
    xlo: int,
    xhi: int,
    zlo: int,
    zhi: int,
)
    requires
        surface_records(f, s, base, col, xlo, xhi, zlo, zhi),
        forall|a: (Scalar, Scalar), r: Scalar| call_ensures(f, a, r) ==> r@ == 0,
    ensures
        forall|j: int| #![trigger s[j]]
            base <= j < s.len() && (j - base) % 9 == 1 ==> s[j]@ == 0,
{
    assert forall|j: int| #![trigger s[j]]
        base <= j < s.len() && (j - base) % 9 == 1 implies s[j]@ == 0 by {
        assert(is_height(f, s[j]));
        let (xa, za) = choose|xa: Scalar, za: Scalar| call_ensures(f, (xa, za), s[j]);
        assert(call_ensures(f, (xa, za), s[j]));
    }
}

/// A cleared buffer answers every query with nothing, and the next
/// vertex appended to it receives index zero: the reported index is
/// the vertex count found before the append.
pub proof fn lemma_clear_then_vertex_index(g: Graphics, id: u32)
    requires
        g.vertices == 0,
        id == g.vertices,
    ensures
        id == 0,
        g.wf() ==> g.vertex_buffer@.len() == 0,
{
}

/// Compute a triangle's flat normal: normalize the cross product of
/// its edges, substituting the y axis unit for a vanishing cross
/// product.
fn flat_normal_exec(p0: Vec3, p1: Vec3, p2: Vec3) -> (n: Vec3)
    requires
        in_range(p0, POS_LIMIT as int),
        in_range(p1, POS_LIMIT as int),
        in_range(p2, POS_LIMIT as int),
    ensures
        n == flat_normal(p0, p1, p2),
        in_range(n, scale()),
{
    let d1 = p1.sub(p0);
    let d2 = p2.sub(p0);
    proof {
        let b = 1_000_000_000_000int;
        lemma_abs_mul_bound(d1.y@, d2.z@, b, b);
        lemma_abs_mul_bound(d1.z@, d2.y@, b, b);
        lemma_abs_mul_bound(d1.z@, d2.x@, b, b);
        lemma_abs_mul_bound(d1.x@, d2.z@, b, b);
        lemma_abs_mul_bound(d1.x@, d2.y@, b, b);
        lemma_abs_mul_bound(d1.y@, d2.x@, b, b);
        assert(b * b == 1_000_000_000_000_000_000_000_000int) by (nonlinear_arith)
            requires
                b == 1_000_000_000_000int,
        ;
        lemma_tdiv_in(cross_num_x(d1, d2), scale(), 2_000_000_000_000_000_000_000_000int);
        lemma_tdiv_in(cross_num_y(d1, d2), scale(), 2_000_000_000_000_000_000_000_000int);
        lemma_tdiv_in(cross_num_z(d1, d2), scale(), 2_000_000_000_000_000_000_000_000int);
        assert(2_000_000_000_000_000_000_000_000int / 1_000_000int
            == 2_000_000_000_000_000_000int);
    }
    let c = d1.cross(d2);
    proof {
        assert(d1 == edge(p0, p1));
        assert(d2 == edge(p0, p2));
        assert(c == tri_cross(p0, p1, p2));
    }
    if c.x.raw == 0 && c.y.raw == 0 && c.z.raw == 0 {
        proof {
            assert(dot_num(c, c) == 0);
        }
        Vec3 { x: Scalar { raw: 0 }, y: Scalar { raw: SCALE }, z: Scalar { raw: 0 } }
    } else {
        proof {
            lemma_nonzero_dot(c);
        }
        c.unit()
    }
}

/// A nonzero vector has a positive self dot product.
proof fn lemma_nonzero_dot(v: Vec3)
    requires
        v.x@ != 0 || v.y@ != 0 || v.z@ != 0,
    ensures
        dot_num(v, v) > 0,
{
    assert(v.x@ * v.x@ + v.y@ * v.y@ + v.z@ * v.z@ > 0) by (nonlinear_arith)
        requires
            v.x@ != 0 || v.y@ != 0 || v.z@ != 0,
    ;
}

} // verus!
