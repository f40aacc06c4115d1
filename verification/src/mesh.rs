use vstd::prelude::*;

use crate::vertices::SoftBodyVertex2dBuffer;

verus! {

/// What a vertex of a built mesh stands for. Its position and texture coordinate
/// are functions of this and of the mesh's radius alone.
#[derive(Copy, Clone, Debug, PartialEq, Eq, Structural)]
pub enum MeshVertex {
    /// Corner `c` (`0 <= c < 4`) of a unit quad, counter-clockwise from its
    /// bottom-left corner.
    QuadCorner(u8),
    /// The center of a circle.
    Center,
    /// Rim vertex number `step` of a circle cut into `subdivisions` equal sectors,
    /// at angle `step / subdivisions` of a full turn.
    Rim { step: u32, subdivisions: u32 },
}

/// The size of a grid, in quads along each axis.
#[derive(Copy, Clone, Debug, PartialEq, Eq, Structural)]
pub struct GridSize {
    pub x: u32,
    pub y: u32,
}

/// Utility struct for building a mesh: its vertices, and a triangle list of
/// indices into them.
pub struct MeshBuilder {
    pub vertices: Vec<MeshVertex>,
    pub indices: Vec<u32>,
}

/// Which corner of its quad the `k`-th index of the quad's two triangles names
/// (`0 <= k < 6`): the triangles (0, 1, 2) and (0, 2, 3).
pub open spec fn quad_triangle_corner(k: int) -> int {
    if k == 0 {
        0
    } else if k == 1 {
        1
    } else if k == 2 {
        2
    } else if k == 3 {
        0
    } else if k == 4 {
        2
    } else {
        3
    }
}

/// The `j`-th index of a grid: index `k` of quad `j / 6`.
pub open spec fn grid_index(j: int) -> int {
    4 * (j / 6) + quad_triangle_corner(j % 6)
}

/// The number of triangles of a circle fan with `n` subdivisions.
pub open spec fn fan_triangles(n: int) -> int {
    if n == 0 {
        1
    } else {
        n
    }
}

/// The `j`-th index of a circle fan with `n` subdivisions: triangle `t = j / 3`
/// is (0, t + 1, t + 2), except the last, which closes the fan with (0, n, 1).
pub open spec fn fan_index(n: int, j: int) -> int {
    let t: int = j / 3;
    let c: int = j % 3;
    if c == 0 {
        0
    } else if c == 1 {
        if t + 1 < n {
            t + 1
        } else {
            n
        }
    } else {
        if t + 1 < n {
            t + 2
        } else {
            1
        }
    }
}

impl Default for MeshBuilder {
    /// A builder with no vertices and no indices.
    fn default() -> (r: Self)
        ensures
            r.vertices@.len() == 0,
            r.indices@.len() == 0,
    {
        MeshBuilder { vertices: Vec::new(), indices: Vec::new() }
    }
}

proof fn lemma_grid_step(w: int, yy: int, xx: int, h: int)
    by (nonlinear_arith)
    requires
        0 <= yy < h,
        0 <= xx < w,
    ensures
        yy * w + xx < h * w,
        yy * w + xx + 1 <= h * w,
        (yy + 1) * w == yy * w + w,
        0 <= yy * w,
{
}

impl MeshBuilder {
    /// Compute a grid mesh of quads according to size: `size.x * size.y` unit
    /// quads, each with its own four corners and two triangles, row after row.
    pub fn grid(size: GridSize) -> (r: Self)
        requires
            4 * size.x * size.y <= 0x1_0000_0000,
        ensures
            r.vertices@.len() == 4 * size.x * size.y,
            r.indices@.len() == 6 * size.x * size.y,
            forall|v: int|
                0 <= v < r.vertices@.len() ==> #[trigger] r.vertices@[v] == MeshVertex::QuadCorner(
                    (v % 4) as u8,
                ),
            forall|j: int| 0 <= j < r.indices@.len() ==> #[trigger] r.indices@[j] == grid_index(j),
            forall|j: int|
                0 <= j < r.indices@.len() ==> #[trigger] r.indices@[j] == 4 * (j / 6) + seq![
                    0int,
                    1,
                    2,
                    0,
                    2,
                    3,
                ][j % 6],
    {
        let mut builder = MeshBuilder::default();
        let w: u32 = size.x;
        let h: u32 = size.y;
        let mut y: u32 = 0;
        while y < h
            invariant
                4 * w * h <= 0x1_0000_0000,
                y <= h,
                builder.vertices@.len() == 4 * (y * w),
                builder.indices@.len() == 6 * (y * w),
                forall|v: int|
                    0 <= v < builder.vertices@.len() ==> #[trigger] builder.vertices@[v]
                        == MeshVertex::QuadCorner((v % 4) as u8),
                forall|j: int|
                    0 <= j < builder.indices@.len() ==> #[trigger] builder.indices@[j] == grid_index(
                        j,
                    ),
            decreases h - y,
        {
            let mut x: u32 = 0;
            while x < w
                invariant
                    4 * w * h <= 0x1_0000_0000,
                    y < h,
                    x <= w,
                    builder.vertices@.len() == 4 * (y * w + x),
                    builder.indices@.len() == 6 * (y * w + x),
                    forall|v: int|
                        0 <= v < builder.vertices@.len() ==> #[trigger] builder.vertices@[v]
                            == MeshVertex::QuadCorner((v % 4) as u8),
                    forall|j: int|
                        0 <= j < builder.indices@.len() ==> #[trigger] builder.indices@[j]
                            == grid_index(j),
                decreases w - x,
            {
                proof {
                    lemma_grid_step(w as int, y as int, x as int, h as int);
                    assert(4 * (h * w) == 4 * w * h) by (nonlinear_arith);
                }
                let q: u32 = x + y * w;
                let i: u32 = q * 4;
                let ghost base_v = builder.vertices@.len() as int;
                let ghost base_j = builder.indices@.len() as int;
                builder.vertices.push(MeshVertex::QuadCorner(0));
                builder.vertices.push(MeshVertex::QuadCorner(1));
                builder.vertices.push(MeshVertex::QuadCorner(2));
                builder.vertices.push(MeshVertex::QuadCorner(3));
                builder.indices.push(i);
                builder.indices.push(i + 1);
                builder.indices.push(i + 2);
                builder.indices.push(i);
                builder.indices.push(i + 2);
                builder.indices.push(i + 3);
                assert forall|v: int|
                    0 <= v < builder.vertices@.len() implies #[trigger] builder.vertices@[v]
                    == MeshVertex::QuadCorner((v % 4) as u8) by {
                    if v >= base_v {
                        assert(v % 4 == v - base_v);
                    }
                }
                assert forall|j: int|
                    0 <= j < builder.indices@.len() implies #[trigger] builder.indices@[j]
                    == grid_index(j) by {
                    if j >= base_j {
                        assert(j / 6 == q);
                        assert(j % 6 == j - base_j);
                    }
                }
                x = x + 1;
            }
            assert((y + 1) * w == y * w + w) by (nonlinear_arith);
            y = y + 1;
        }
        proof {
            assert(4 * (h * w) == 4 * w * h) by (nonlinear_arith);
            assert(6 * (h * w) == 6 * w * h) by (nonlinear_arith);
            assert forall|j: int| 0 <= j < builder.indices@.len() implies #[trigger] builder.indices@[j]
                == 4 * (j / 6) + seq![0int, 1, 2, 0, 2, 3][j % 6] by {
                lemma_grid_index_pattern(j);
            }
        }
        builder
    }

    /// A circle as a triangle fan: a center vertex (index 0) and `subdivisions`
    /// rim vertices (indices 1 to `subdivisions`), with triangle (0, i, i + 1) for
    /// each `i` from 1 below `subdivisions`, and a last triangle
    /// (0, `subdivisions`, 1) that closes the fan.
    pub fn circle_ngon(subdivisions: u32) -> (r: Self)
        requires
            3 * subdivisions <= u32::MAX,
        ensures
            r.vertices@.len() == subdivisions + 1,
            r.vertices@[0] == MeshVertex::Center,
            forall|i: int|
                1 <= i <= subdivisions ==> #[trigger] r.vertices@[i] == (MeshVertex::Rim {
                    step: (i - 1) as u32,
                    subdivisions,
                }),
            r.indices@.len() == 3 * fan_triangles(subdivisions as int),
            forall|j: int|
                0 <= j < r.indices@.len() ==> #[trigger] r.indices@[j] == fan_index(
                    subdivisions as int,
                    j,
                ),
            subdivisions == 0 ==> r.indices@ == seq![0u32, 0, 1],
            subdivisions >= 1 ==> r.indices@.len() == 3 * subdivisions,
            subdivisions >= 1 ==> forall|j: int|
                0 <= j < r.indices@.len() ==> #[trigger] r.indices@[j] == if j % 3 == 0 {
                    0
                } else if j % 3 == 1 {
                    j / 3 + 1
                } else {
                    (j / 3 + 1) % (subdivisions as int) + 1
                },
    {
        let mut builder = MeshBuilder::default();
        let n: u32 = subdivisions;

        // Center vertex (index 0).
        builder.vertices.push(MeshVertex::Center);

        // Rim vertices (indices 1 to n).
        let mut i: u32 = 0;
        while i < n
            invariant
                i <= n,
                n == subdivisions,
                builder.vertices@.len() == i + 1,
                builder.vertices@[0] == MeshVertex::Center,
                forall|v: int|
                    1 <= v <= i ==> #[trigger] builder.vertices@[v] == (MeshVertex::Rim {
                        step: (v - 1) as u32,
                        subdivisions: n,
                    }),
                builder.indices@.len() == 0,
            decreases n - i,
        {
            builder.vertices.push(MeshVertex::Rim { step: i, subdivisions: n });
            i = i + 1;
        }

        // The fan: the center joined to each pair of neighbouring rim vertices.
        let mut i: u32 = 1;
        while i < n
            invariant
                1 <= i,
                i <= n || n == 0,
                n == 0 ==> i == 1,
                3 * n <= u32::MAX,
                builder.vertices@.len() == n + 1,
                builder.vertices@[0] == MeshVertex::Center,
                forall|v: int|
                    1 <= v <= n ==> #[trigger] builder.vertices@[v] == (MeshVertex::Rim {
                        step: (v - 1) as u32,
                        subdivisions: n,
                    }),
                n == subdivisions,
                builder.indices@.len() == 3 * (i - 1),
                forall|j: int|
                    0 <= j < builder.indices@.len() ==> #[trigger] builder.indices@[j]
                        == fan_index(n as int, j),
            decreases n - i,
        {
            let ghost base = builder.indices@.len() as int;
            builder.indices.push(0);
            builder.indices.push(i);
            builder.indices.push(i + 1);
            assert forall|j: int|
                0 <= j < builder.indices@.len() implies #[trigger] builder.indices@[j]
                == fan_index(n as int, j) by {
                if j >= base {
                    assert(j / 3 == i - 1);
                    assert(j % 3 == j - base);
                }
            }
            i = i + 1;
        }

        // The last triangle closes the fan.
        let ghost base = builder.indices@.len() as int;
        builder.indices.push(0);
        builder.indices.push(n);
        builder.indices.push(1);
        assert forall|j: int|
            0 <= j < builder.indices@.len() implies #[trigger] builder.indices@[j] == fan_index(
            n as int,
            j,
        ) by {
            if j >= base {
                assert(j / 3 == fan_triangles(n as int) - 1);
                assert(j % 3 == j - base);
            }
        }
        proof {
            if n == 0 {
                assert(builder.indices@ =~= seq![0u32, 0, 1]);
            } else {
                lemma_fan_has_n_triangles(n as int);
                assert forall|j: int| 0 <= j < builder.indices@.len() implies #[trigger] builder.indices@[j]
                    == if j % 3 == 0 {
                    0
                } else if j % 3 == 1 {
                    j / 3 + 1
                } else {
                    (j / 3 + 1) % (n as int) + 1
                } by {
                    lemma_fan_index_plain(n as int, j);
                }
            }
        }
        builder
    }
}

/// Every index of a grid names a vertex of the grid, and a corner of the quad
/// whose triangles it belongs to.
pub proof fn lemma_grid_indices_in_bounds(size: GridSize, j: int)
    requires
        0 <= j < 6 * size.x * size.y,
    ensures
        0 <= grid_index(j) < 4 * size.x * size.y,
        grid_index(j) / 4 == j / 6,
{
    let q: int = j / 6;
    assert(6 * size.x * size.y == 6 * (size.x * size.y)) by (nonlinear_arith);
    assert(4 * size.x * size.y == 4 * (size.x * size.y)) by (nonlinear_arith);
    assert(q < size.x * size.y);
}

/// The two triangles of each grid quad have three distinct corners each.
pub proof fn lemma_grid_triangles_nondegenerate(t: int)
    requires
        0 <= t,
    ensures
        grid_index(3 * t) != grid_index(3 * t + 1),
        grid_index(3 * t + 1) != grid_index(3 * t + 2),
        grid_index(3 * t) != grid_index(3 * t + 2),
{
}

/// With at least one subdivision, every index of a circle fan names one of its
/// vertices (the center or a rim vertex), and triangle `t` is
/// (0, t + 1, (t + 1) % n + 1): the center and two neighbouring rim vertices.
pub proof fn lemma_fan_triangle(n: int, t: int)
    requires
        1 <= n,
        0 <= t < n,
    ensures
        fan_index(n, 3 * t) == 0,
        fan_index(n, 3 * t + 1) == t + 1,
        fan_index(n, 3 * t + 2) == (t + 1) % n + 1,
        0 <= fan_index(n, 3 * t + 2) <= n,
{
    if t + 1 == n {
        vstd::arithmetic::div_mod::lemma_mod_self_0(n);
    } else {
        vstd::arithmetic::div_mod::lemma_small_mod((t + 1) as nat, n as nat);
    }
}

/// With at least two subdivisions no fan triangle is degenerate: its three
/// indices are distinct.
pub proof fn lemma_fan_triangles_nondegenerate(n: int, t: int)
    requires
        2 <= n,
        0 <= t < n,
    ensures
        fan_index(n, 3 * t) != fan_index(n, 3 * t + 1),
        fan_index(n, 3 * t + 1) != fan_index(n, 3 * t + 2),
        fan_index(n, 3 * t) != fan_index(n, 3 * t + 2),
{
    lemma_fan_triangle(n, t);
}


/// The mesh of a soft body: a circle fan with one vertex for every vertex slot
/// that the compute pass fills for an instance, the center and
/// `NUM_VERTICES_PER_INSTANCE - 1` rim vertices.
pub fn soft_body_mesh() -> (r: MeshBuilder)
    ensures
        r.vertices@.len() == SoftBodyVertex2dBuffer::NUM_VERTICES_PER_INSTANCE,
        r.vertices@[0] == MeshVertex::Center,
        forall|i: int|
            1 <= i < r.vertices@.len() ==> #[trigger] r.vertices@[i] == (MeshVertex::Rim {
                step: (i - 1) as u32,
                subdivisions: (SoftBodyVertex2dBuffer::NUM_VERTICES_PER_INSTANCE - 1) as u32,
            }),
        r.indices@.len() == 3 * (SoftBodyVertex2dBuffer::NUM_VERTICES_PER_INSTANCE - 1),
        forall|j: int|
            0 <= j < r.indices@.len() ==> #[trigger] r.indices@[j] == fan_index(
                SoftBodyVertex2dBuffer::NUM_VERTICES_PER_INSTANCE - 1,
                j,
            ),
{
    MeshBuilder::circle_ngon(SoftBodyVertex2dBuffer::NUM_VERTICES_PER_INSTANCE - 1)
}

/// Every quad of a grid is drawn by the same two triangles over its own four
/// corners: index `k` of quad `q` is `4q + [0, 1, 2, 0, 2, 3][k]`, for every quad.
pub proof fn lemma_grid_index_pattern(j: int)
    requires
        0 <= j,
    ensures
        grid_index(j) == 4 * (j / 6) + seq![0int, 1, 2, 0, 2, 3][j % 6],
{
}

/// The same, stated per quad and per corner.
pub proof fn lemma_grid_quad(q: int, k: int)
    requires
        0 <= q,
        0 <= k < 6,
    ensures
        grid_index(6 * q + k) == 4 * q + seq![0int, 1, 2, 0, 2, 3][k],
{
    assert((6 * q + k) / 6 == q);
    assert((6 * q + k) % 6 == k);
}

/// A fan with `n >= 1` subdivisions has exactly `n` triangles, one per rim edge;
/// with none it has the single triangle (0, 0, 1).
pub proof fn lemma_fan_has_n_triangles(n: int)
    requires
        0 <= n,
    ensures
        n >= 1 ==> fan_triangles(n) == n,
        n == 0 ==> fan_triangles(n) == 1,
        n == 0 ==> fan_index(n, 0) == 0 && fan_index(n, 1) == 0 && fan_index(n, 2) == 1,
{
}

/// With `n >= 1` subdivisions, fan index `j` is the center for the first corner of
/// each triangle, rim vertex `t + 1` for the second and the next rim vertex round
/// the circle, `(t + 1) % n + 1`, for the third, where `t = j / 3`; the last
/// triangle is (0, n, 1).
pub proof fn lemma_fan_index_plain(n: int, j: int)
    requires
        1 <= n,
        0 <= j < 3 * n,
    ensures
        fan_index(n, j) == if j % 3 == 0 {
            0
        } else if j % 3 == 1 {
            j / 3 + 1
        } else {
            (j / 3 + 1) % n + 1
        },
        j == 3 * n - 2 ==> fan_index(n, j) == n,
        j == 3 * n - 1 ==> fan_index(n, j) == 1,
{
    let t = j / 3;
    assert(0 <= t < n);
    if t + 1 == n {
        vstd::arithmetic::div_mod::lemma_mod_self_0(n);
    } else {
        vstd::arithmetic::div_mod::lemma_small_mod((t + 1) as nat, n as nat);
    }
}

} // verus!
