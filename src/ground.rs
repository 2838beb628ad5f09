//! Terrain strips: a grid of random heights over a rectangle, drawn with
//! flat shading.

use crate::aabb::Vec3;
use crate::random::draw_in;
use rand::rngs::StdRng;
use vstd::arithmetic::div_mod::{
    lemma_fundamental_div_mod,
    lemma_fundamental_div_mod_converse,
    lemma_mod_pos_bound,
    lemma_div_is_ordered,
    lemma_div_multiples_vanish,
    lemma_div_pos_is_pos,
    lemma_multiply_divide_lt,
};
use vstd::prelude::*;

verus! {

/// Length of one terrain chunk along X.
pub const GROUND_LENGTH: i64 = 60_000;

/// Width of one terrain chunk along Z.
pub const GROUND_WIDTH: i64 = 40_000;

/// Grid vertices along X.
pub const GROUND_VERTICES_X: u32 = 30;

/// Grid vertices along Z.
pub const GROUND_VERTICES_Z: u32 = 20;

/// Interior heights are drawn from `[GROUND_HEIGHT_LOW, GROUND_HEIGHT_HIGH)`.
pub const GROUND_HEIGHT_LOW: i64 = -100;

pub const GROUND_HEIGHT_HIGH: i64 = 100;

/// The largest length or width of a strip.
pub const GROUND_SIZE_LIMIT: i64 = 1_000_000_000;

/// The largest magnitude of a coordinate that flat shading accepts: the
/// cross product of two edges between such points fits an `i64`.
pub const SHADING_LIMIT: i64 = 500_000_000;

/// A flat-shaded terrain strip. `grid` holds the shared height field,
/// column by column, and `indices` its triangles; `positions` repeats the
/// corners of those triangles one by one, and `normals` gives each corner
/// the (not normalised) normal of its own triangle.
#[derive(Clone, Debug)]
pub struct TerrainMesh {
    pub grid: Vec<Vec3>,
    pub indices: Vec<u32>,
    pub positions: Vec<Vec3>,
    pub normals: Vec<Vec3>,
}

impl TerrainMesh {
    /// The mesh is a flat-shaded strip of `length` by `width` over an `nx`
    /// by `nz` grid.
    pub open spec fn is_strip(self, length: int, width: int, nx: int, nz: int) -> bool {
        &&& self.grid@.len() == nx * nz
        &&& forall|k: int|
            0 <= k < nx * nz ==> #[trigger] grid_vertex_ok(self.grid@, length, width, nx, nz, k)
        &&& self.indices@ == grid_indices(nx, nz)
        &&& self.positions@.len() == self.indices@.len()
        &&& self.normals@.len() == self.indices@.len()
        &&& forall|n: int|
            0 <= n < self.indices@.len() ==> #[trigger] self.positions@[n]
                == self.grid@[self.indices@[n] as int]
        &&& forall|n: int|
            0 <= n < self.indices@.len() ==> #[trigger] self.normals@[n] == triangle_normal(
                self.positions@,
                n / 3,
            )
    }
}

/// The X coordinate of grid column `x` of `nx` over a strip of `length`
/// centred on the origin.
pub open spec fn grid_x(length: int, nx: int, x: int) -> int {
    x * length / (nx - 1) - length / 2
}

/// The Z coordinate of grid row `z` of `nz` over a strip of `width`.
pub open spec fn grid_z(width: int, nz: int, z: int) -> int {
    z * width / (nz - 1) - width / 2
}

/// Whether `k` is a vertex of one of the grid's two end columns.
pub open spec fn is_end_column(nx: int, nz: int, k: int) -> bool {
    k / nz == 0 || k / nz == nx - 1
}

/// Vertex `k` of the grid lies at its column and row, with height zero on
/// the two end columns and a height of the band elsewhere.
pub open spec fn grid_vertex_ok(
    grid: Seq<Vec3>,
    length: int,
    width: int,
    nx: int,
    nz: int,
    k: int,
) -> bool {
    &&& grid[k].x == grid_x(length, nx, k / nz)
    &&& grid[k].z == grid_z(width, nz, k % nz)
    &&& if is_end_column(nx, nz, k) {
        grid[k].y == 0
    } else {
        GROUND_HEIGHT_LOW <= grid[k].y < GROUND_HEIGHT_HIGH
    }
}

/// Corner `c` of the two triangles of grid cell `cell`.
pub open spec fn cell_corner(nz: int, cell: int, c: int) -> int {
    let i = (cell / (nz - 1)) * nz + cell % (nz - 1);
    if c == 0 {
        i
    } else if c == 1 {
        i + 1
    } else if c == 2 {
        i + nz
    } else if c == 3 {
        i + nz
    } else if c == 4 {
        i + 1
    } else {
        i + nz + 1
    }
}

pub open spec fn grid_indices(nx: int, nz: int) -> Seq<u32> {
    Seq::new((6 * ((nx - 1) * (nz - 1))) as nat, |n: int| cell_corner(nz, n / 6, n % 6) as u32)
}

pub open spec fn shading_bounded(p: Vec3) -> bool {
    &&& -SHADING_LIMIT <= p.x <= SHADING_LIMIT
    &&& -SHADING_LIMIT <= p.y <= SHADING_LIMIT
    &&& -SHADING_LIMIT <= p.z <= SHADING_LIMIT
}

proof fn lemma_coordinate_bound(x: int, n: int, size: int)
    requires
        0 <= x <= n - 1,
        n >= 2,
        0 < size <= GROUND_SIZE_LIMIT,
    ensures
        -SHADING_LIMIT <= x * size / (n - 1) - size / 2 <= SHADING_LIMIT,
{
    assert(0 <= x * size <= (n - 1) * size) by (nonlinear_arith)
        requires
            0 <= x <= n - 1,
            size > 0,
    ;
    lemma_div_is_ordered(x * size, (n - 1) * size, n - 1);
    lemma_div_multiples_vanish(size, n - 1);
    lemma_div_pos_is_pos(x * size, n - 1);
}

/// Sizes a strip can be built with: each at most `GROUND_SIZE_LIMIT`, at
/// least two vertices each way, a vertex count that a `u32` index reaches,
/// and a grid spacing of at least one thousandth along both axes, so that
/// neighbouring grid points stay apart.
pub open spec fn grid_size_ok(length: int, width: int, nx: int, nz: int) -> bool {
    &&& 0 < length <= GROUND_SIZE_LIMIT
    &&& 0 < width <= GROUND_SIZE_LIMIT
    &&& nx >= 2
    &&& nz >= 2
    &&& nx * nz <= u32::MAX
    &&& length >= nx - 1
    &&& width >= nz - 1
}

/// The grid of a strip of `length` by `width` with `nx` by `nz` vertices:
/// vertex `x * nz + z` stands at column `x` and row `z`; the two end
/// columns lie flat, every other vertex gets its own random height.
pub fn ground_grid(length: i64, width: i64, nx: u32, nz: u32, rng: &mut StdRng) -> (grid: Vec<Vec3>)
    requires
        grid_size_ok(length as int, width as int, nx as int, nz as int),
    ensures
        grid@.len() == nx * nz,
        forall|k: int|
            0 <= k < nx * nz ==> #[trigger] grid_vertex_ok(
                grid@,
                length as int,
                width as int,
                nx as int,
                nz as int,
                k,
            ),
        forall|k: int| 0 <= k < nx * nz ==> #[trigger] shading_bounded(grid@[k]),
{
    let total = nx * nz;
    let mut grid: Vec<Vec3> = Vec::new();
    let mut k: u32 = 0;
    while k < total
        invariant
            grid_size_ok(length as int, width as int, nx as int, nz as int),
            total == nx * nz,
            k <= total,
            grid@.len() == k,
            forall|j: int|
                0 <= j < k ==> #[trigger] grid_vertex_ok(
                    grid@,
                    length as int,
                    width as int,
                    nx as int,
                    nz as int,
                    j,
                ),
            forall|j: int| 0 <= j < k ==> #[trigger] shading_bounded(grid@[j]),
        decreases total - k,
    {
        let x = k / nz;
        let z = k % nz;
        proof {
            assert(nx * nz == nz * nx) by (nonlinear_arith);
            lemma_multiply_divide_lt(k as int, nz as int, nx as int);
            assert(x * length <= (nx - 1) * length) by (nonlinear_arith)
                requires
                    0 <= x <= nx - 1,
                    length > 0,
            ;
            assert((nx - 1) * length <= u32::MAX * GROUND_SIZE_LIMIT) by (nonlinear_arith)
                requires
                    nx - 1 <= u32::MAX,
                    0 < length <= GROUND_SIZE_LIMIT,
            ;
            assert(z * width <= (nz - 1) * width) by (nonlinear_arith)
                requires
                    0 <= z <= nz - 1,
                    width > 0,
            ;
            assert((nz - 1) * width <= u32::MAX * GROUND_SIZE_LIMIT) by (nonlinear_arith)
                requires
                    nz - 1 <= u32::MAX,
                    0 < width <= GROUND_SIZE_LIMIT,
            ;
            assert(0 <= x * length && 0 <= z * width) by (nonlinear_arith)
                requires
                    0 <= x,
                    0 <= z,
                    length > 0,
                    width > 0,
            ;
        }
        proof {
            lemma_coordinate_bound(x as int, nx as int, length as int);
            lemma_coordinate_bound(z as int, nz as int, width as int);
        }
        let px = (x as i64) * length / ((nx - 1) as i64) - length / 2;
        let pz = (z as i64) * width / ((nz - 1) as i64) - width / 2;
        let h = if x == 0 || x == nx - 1 {
            0
        } else {
            draw_in(rng, GROUND_HEIGHT_LOW, GROUND_HEIGHT_HIGH)
        };
        let ghost before = grid@;
        grid.push(Vec3 { x: px, y: h, z: pz });
        proof {
            assert forall|j: int| 0 <= j < k + 1 implies #[trigger] grid_vertex_ok(
                grid@,
                length as int,
                width as int,
                nx as int,
                nz as int,
                j,
            ) by {
                if j < k {
                    assert(grid@[j] == before[j]);
                    assert(shading_bounded(before[j]));
                    assert(grid_vertex_ok(before, length as int, width as int, nx as int, nz as int, j));
                }
            }
        }
        k = k + 1;
    }
    grid
}

proof fn lemma_cell_entry(nx: int, nz: int, cell: int, c: int)
    requires
        nx >= 2,
        nz >= 2,
        0 <= cell < (nx - 1) * (nz - 1),
        0 <= c < 6,
    ensures
        (6 * cell + c) / 6 == cell,
        (6 * cell + c) % 6 == c,
        0 <= cell_corner(nz, cell, c) < nx * nz,
{
    lemma_fundamental_div_mod_converse(6 * cell + c, 6, cell, c);
    assert(cell < (nz - 1) * (nx - 1)) by (nonlinear_arith)
        requires
            cell < (nx - 1) * (nz - 1),
    ;
    lemma_multiply_divide_lt(cell, nz - 1, nx - 1);
    lemma_mod_pos_bound(cell, nz - 1);
    lemma_div_pos_is_pos(cell, nz - 1);
    let x = cell / (nz - 1);
    let z = cell % (nz - 1);
    assert(0 <= x * nz + z && x * nz + z + nz + 1 < nx * nz) by (nonlinear_arith)
        requires
            0 <= x < nx - 1,
            0 <= z < nz - 1,
            nz >= 2,
    ;
}

/// The triangles of an `nx` by `nz` grid: two for each cell.
pub fn grid_triangles(nx: u32, nz: u32) -> (indices: Vec<u32>)
    requires
        nx >= 2,
        nz >= 2,
        nx * nz <= u32::MAX,
    ensures
        indices@ == grid_indices(nx as int, nz as int),
        forall|n: int| 0 <= n < indices@.len() ==> #[trigger] indices@[n] < nx * nz,
{
    proof {
        assert((nx - 1) * (nz - 1) <= nx * nz) by (nonlinear_arith)
            requires
                nx >= 2,
                nz >= 2,
        ;
    }
    let cells = (nx - 1) * (nz - 1);
    let mut indices: Vec<u32> = Vec::new();
    let mut cell: u32 = 0;
    while cell < cells
        invariant
            nx >= 2,
            nz >= 2,
            nx * nz <= u32::MAX,
            cells == (nx - 1) * (nz - 1),
            cell <= cells,
            indices@.len() == 6 * cell,
            forall|n: int|
                0 <= n < indices@.len() ==> #[trigger] indices@[n] == cell_corner(
                    nz as int,
                    n / 6,
                    n % 6,
                ) as u32 && indices@[n] < nx * nz,
        decreases cells - cell,
    {
        proof {
            lemma_cell_entry(nx as int, nz as int, cell as int, 0);
            lemma_cell_entry(nx as int, nz as int, cell as int, 1);
            lemma_cell_entry(nx as int, nz as int, cell as int, 2);
            lemma_cell_entry(nx as int, nz as int, cell as int, 3);
            lemma_cell_entry(nx as int, nz as int, cell as int, 4);
            lemma_cell_entry(nx as int, nz as int, cell as int, 5);
        }
        let i = (cell / (nz - 1)) * nz + cell % (nz - 1);
        indices.push(i);
        indices.push(i + 1);
        indices.push(i + nz);
        indices.push(i + nz);
        indices.push(i + 1);
        indices.push(i + nz + 1);
        cell = cell + 1;
    }
    assert(indices@ =~= grid_indices(nx as int, nz as int));
    indices
}

/// The cross product of the edges `b - a` and `c - a`: a normal of the
/// triangle `a b c`, facing the side from which its corners run
/// counter-clockwise.
pub open spec fn face_normal(a: Vec3, b: Vec3, c: Vec3) -> Vec3 {
    let (ux, uy, uz) = (b.x - a.x, b.y - a.y, b.z - a.z);
    let (vx, vy, vz) = (c.x - a.x, c.y - a.y, c.z - a.z);
    Vec3 {
        x: (uy * vz - uz * vy) as i64,
        y: (uz * vx - ux * vz) as i64,
        z: (ux * vy - uy * vx) as i64,
    }
}

/// The normal of triangle `t` of a triangle list.
pub open spec fn triangle_normal(positions: Seq<Vec3>, t: int) -> Vec3 {
    face_normal(positions[3 * t], positions[3 * t + 1], positions[3 * t + 2])
}

fn cross_of_edges(a: Vec3, b: Vec3, c: Vec3) -> (r: Vec3)
    requires
        shading_bounded(a),
        shading_bounded(b),
        shading_bounded(c),
    ensures
        r == face_normal(a, b, c),
{
    let ux = b.x - a.x;
    let uy = b.y - a.y;
    let uz = b.z - a.z;
    let vx = c.x - a.x;
    let vy = c.y - a.y;
    let vz = c.z - a.z;
    proof {
        let l = 2 * SHADING_LIMIT;
        assert(-l * l <= uy * vz <= l * l) by (nonlinear_arith)
            requires
                -l <= uy <= l,
                -l <= vz <= l,
        ;
        assert(-l * l <= uz * vy <= l * l) by (nonlinear_arith)
            requires
                -l <= uz <= l,
                -l <= vy <= l,
        ;
        assert(-l * l <= uz * vx <= l * l) by (nonlinear_arith)
            requires
                -l <= uz <= l,
                -l <= vx <= l,
        ;
        assert(-l * l <= ux * vz <= l * l) by (nonlinear_arith)
            requires
                -l <= ux <= l,
                -l <= vz <= l,
        ;
        assert(-l * l <= ux * vy <= l * l) by (nonlinear_arith)
            requires
                -l <= ux <= l,
                -l <= vy <= l,
        ;
        assert(-l * l <= uy * vx <= l * l) by (nonlinear_arith)
            requires
                -l <= uy <= l,
                -l <= vx <= l,
        ;
    }
    Vec3 { x: uy * vz - uz * vy, y: uz * vx - ux * vz, z: ux * vy - uy * vx }
}

/// Flat shading: every corner of every triangle gets a vertex of its own,
/// and every vertex the normal of the triangle it belongs to, so that each
/// face is lit evenly.
pub fn flat_shade(grid: &Vec<Vec3>, indices: &Vec<u32>) -> (r: (Vec<Vec3>, Vec<Vec3>))
    requires
        indices@.len() % 3 == 0,
        forall|n: int| 0 <= n < indices@.len() ==> #[trigger] indices@[n] < grid@.len(),
        forall|k: int| 0 <= k < grid@.len() ==> #[trigger] shading_bounded(grid@[k]),
    ensures
        r.0@.len() == indices@.len(),
        r.1@.len() == indices@.len(),
        forall|n: int| 0 <= n < indices@.len() ==> #[trigger] r.0@[n] == grid@[indices@[n] as int],
        forall|n: int|
            0 <= n < indices@.len() ==> #[trigger] r.1@[n] == triangle_normal(r.0@, n / 3),
{
    let mut positions: Vec<Vec3> = Vec::new();
    let mut normals: Vec<Vec3> = Vec::new();
    let count = indices.len();
    let triangles = count / 3;
    proof {
        lemma_fundamental_div_mod(indices@.len() as int, 3);
    }
    let mut t: usize = 0;
    while t < triangles
        invariant
            indices@.len() % 3 == 0,
            indices@.len() == 3 * triangles,
            count == indices@.len(),
            forall|n: int| 0 <= n < indices@.len() ==> #[trigger] indices@[n] < grid@.len(),
            forall|k: int| 0 <= k < grid@.len() ==> #[trigger] shading_bounded(grid@[k]),
            t <= triangles,
            positions@.len() == 3 * t,
            normals@.len() == 3 * t,
            forall|n: int| 0 <= n < 3 * t ==> #[trigger] positions@[n] == grid@[indices@[n] as int],
            forall|n: int| 0 <= n < 3 * t ==> #[trigger] normals@[n] == triangle_normal(positions@, n / 3),
        decreases triangles - t,
    {
        let a = grid[indices[3 * t] as usize];
        let b = grid[indices[3 * t + 1] as usize];
        let c = grid[indices[3 * t + 2] as usize];
        let normal = cross_of_edges(a, b, c);
        let ghost before = positions@;
        let ghost normals_before = normals@;
        positions.push(a);
        positions.push(b);
        positions.push(c);
        normals.push(normal);
        normals.push(normal);
        normals.push(normal);
        proof {
            let t3 = 3 * t as int;
            lemma_fundamental_div_mod_converse(t3, 3, t as int, 0);
            lemma_fundamental_div_mod_converse(t3 + 1, 3, t as int, 1);
            lemma_fundamental_div_mod_converse(t3 + 2, 3, t as int, 2);
            assert forall|n: int| 0 <= n < 3 * (t + 1) implies #[trigger] normals@[n]
                == triangle_normal(positions@, n / 3) by {
                if n < t3 {
                    assert(normals@[n] == normals_before[n]);
                    lemma_fundamental_div_mod(n, 3);
                    lemma_mod_pos_bound(n, 3);
                    lemma_div_pos_is_pos(n, 3);
                    assert(3 * (n / 3) + 2 < t3);
                    assert(triangle_normal(positions@, n / 3) == triangle_normal(before, n / 3));
                }
            }
        }
        t = t + 1;
    }
    (positions, normals)
}

/// A terrain strip of `size` (length, width) with `num_vertices` (along X,
/// along Z) grid vertices: a grid of random heights whose two end columns
/// lie flat, triangulated cell by cell, then flat-shaded.
pub fn ground_mesh(size: (i64, i64), num_vertices: (u32, u32), rng: &mut StdRng) -> (m: TerrainMesh)
    requires
        grid_size_ok(size.0 as int, size.1 as int, num_vertices.0 as int, num_vertices.1 as int),
    ensures
        m.is_strip(size.0 as int, size.1 as int, num_vertices.0 as int, num_vertices.1 as int),
        forall|n: int| 0 <= n < m.normals@.len() ==> (#[trigger] m.normals@[n]).y > 0,
{
    let (length, width) = size;
    let (nx, nz) = num_vertices;
    let grid = ground_grid(length, width, nx, nz, rng);
    let indices = grid_triangles(nx, nz);
    proof {
        assert(indices@.len() == 3 * (2 * ((nx - 1) * (nz - 1))));
    }
    let (positions, normals) = flat_shade(&grid, &indices);
    let m = TerrainMesh { grid, indices, positions, normals };
    proof {
        lemma_terrain_faces_up(m, length as int, width as int, nx as int, nz as int);
    }
    m
}

/// Every vertex of a strip that stands on one of the grid's two end
/// columns lies at height zero, in the shared grid and in the flat-shaded
/// copy alike.
pub proof fn lemma_terrain_ends_flat(m: TerrainMesh, length: int, width: int, nx: int, nz: int)
    requires
        grid_size_ok(length, width, nx, nz),
        m.is_strip(length, width, nx, nz),
    ensures
        forall|k: int|
            0 <= k < nx * nz && is_end_column(nx, nz, k) ==> (#[trigger] m.grid@[k]).y == 0,
        forall|n: int|
            0 <= n < m.positions@.len() && is_end_column(nx, nz, m.indices@[n] as int) ==> (
            #[trigger] m.positions@[n]).y == 0,
{
    assert forall|k: int| 0 <= k < nx * nz && is_end_column(nx, nz, k) implies (
    #[trigger] m.grid@[k]).y == 0 by {
        assert(grid_vertex_ok(m.grid@, length, width, nx, nz, k));
    }
    assert forall|n: int|
        0 <= n < m.positions@.len() && is_end_column(nx, nz, m.indices@[n] as int) implies (
    #[trigger] m.positions@[n]).y == 0 by {
        let k = m.indices@[n] as int;
        assert(m.indices@[n] == grid_indices(nx, nz)[n]);
        lemma_cell_index_in_grid(nx, nz, n);
        assert(grid_vertex_ok(m.grid@, length, width, nx, nz, k));
    }
}

proof fn lemma_cell_index_in_grid(nx: int, nz: int, n: int)
    requires
        nx >= 2,
        nz >= 2,
        nx * nz <= u32::MAX,
        0 <= n < 6 * ((nx - 1) * (nz - 1)),
    ensures
        0 <= cell_corner(nz, n / 6, n % 6) < nx * nz,
{
    lemma_fundamental_div_mod(n, 6);
    lemma_mod_pos_bound(n, 6);
    lemma_multiply_divide_lt(n, 6, (nx - 1) * (nz - 1));
    lemma_div_pos_is_pos(n, 6);
    lemma_cell_entry(nx, nz, n / 6, n % 6);
}

/// The height at which terrain chunks are placed.
pub const GROUND_Y: i64 = 100;

/// A placed terrain chunk: its id and its position.
#[derive(Clone, Copy, Debug, PartialEq, Eq, Structural)]
pub struct Ground {
    pub id: u64,
    pub x: i64,
    /// The height it is placed at: always `GROUND_Y`.
    pub y: i64,
}

/// A terrain chunk together with the mesh that draws it.
pub struct GroundBundle {
    pub ground: Ground,
    pub mesh: TerrainMesh,
}

impl GroundBundle {
    /// A new chunk with the given id at `x`, with a fresh strip of the
    /// standard size, its heights drawn from `rng`.
    pub fn new(id: u64, x: i64, rng: &mut StdRng) -> (r: GroundBundle)
        ensures
            r.ground == (Ground { id, x, y: GROUND_Y }),
            r.mesh.is_strip(
                GROUND_LENGTH as int,
                GROUND_WIDTH as int,
                GROUND_VERTICES_X as int,
                GROUND_VERTICES_Z as int,
            ),
    {
        let mesh = ground_mesh((GROUND_LENGTH, GROUND_WIDTH), (GROUND_VERTICES_X, GROUND_VERTICES_Z), rng);
        GroundBundle { ground: Ground { id, x, y: GROUND_Y }, mesh }
    }
}

/// Neighbouring grid columns (rows) stand at least one thousandth apart.
proof fn lemma_grid_step(x: int, n: int, size: int)
    requires
        0 <= x < n - 1,
        n >= 2,
        n - 1 <= size <= GROUND_SIZE_LIMIT,
    ensures
        grid_x(size, n, x + 1) - grid_x(size, n, x) >= 1,
        grid_x(size, n, x + 1) - grid_x(size, n, x) <= 2 * SHADING_LIMIT,
{
    let d = n - 1;
    let q = x * size / d;
    assert(0 <= x * size) by (nonlinear_arith)
        requires
            0 <= x,
            size > 0,
    ;
    lemma_fundamental_div_mod(x * size, d);
    lemma_mod_pos_bound(x * size, d);
    assert((q + 1) * d == d * q + d) by (nonlinear_arith);
    lemma_fundamental_div_mod_converse(x * size + d, d, q + 1, (x * size) % d);
    assert((x + 1) * size == x * size + size) by (nonlinear_arith);
    lemma_div_is_ordered(x * size + d, (x + 1) * size, d);
    lemma_coordinate_bound(x, n, size);
    lemma_coordinate_bound(x + 1, n, size);
}

proof fn lemma_grid_place(nz: int, x: int, z: int)
    requires
        nz >= 2,
        0 <= x,
        0 <= z < nz,
    ensures
        (x * nz + z) / nz == x,
        (x * nz + z) % nz == z,
{
    lemma_fundamental_div_mod_converse(x * nz + z, nz, x, z);
}

/// Triangle `t` of a strip faces up: its normal has a positive height.
proof fn lemma_triangle_faces_up(m: TerrainMesh, length: int, width: int, nx: int, nz: int, t: int)
    requires
        grid_size_ok(length, width, nx, nz),
        m.is_strip(length, width, nx, nz),
        0 <= t,
        3 * t + 2 < m.indices@.len(),
    ensures
        triangle_normal(m.positions@, t).y > 0,
{
    let cells = (nx - 1) * (nz - 1);
    let cell = t / 2;
    let h = t % 2;
    lemma_fundamental_div_mod(t, 2);
    lemma_mod_pos_bound(t, 2);
    lemma_div_pos_is_pos(t, 2);
    let n0 = 3 * t;
    assert(n0 == 6 * cell + 3 * h);
    assert(m.indices@.len() == 6 * cells);
    assert(cell < cells);
    lemma_fundamental_div_mod_converse(n0, 6, cell, 3 * h);
    lemma_fundamental_div_mod_converse(n0 + 1, 6, cell, 3 * h + 1);
    lemma_fundamental_div_mod_converse(n0 + 2, 6, cell, 3 * h + 2);
    assert(cell < (nz - 1) * (nx - 1)) by (nonlinear_arith)
        requires
            cell < (nx - 1) * (nz - 1),
    ;
    lemma_multiply_divide_lt(cell, nz - 1, nx - 1);
    lemma_mod_pos_bound(cell, nz - 1);
    lemma_div_pos_is_pos(cell, nz - 1);
    let x = cell / (nz - 1);
    let z = cell % (nz - 1);
    let i = x * nz + z;
    lemma_cell_entry(nx, nz, cell, 0);
    lemma_cell_entry(nx, nz, cell, 1);
    lemma_cell_entry(nx, nz, cell, 2);
    lemma_cell_entry(nx, nz, cell, 5);
    assert((x + 1) * nz == x * nz + nz) by (nonlinear_arith);
    lemma_grid_place(nz, x, z);
    lemma_grid_place(nz, x, z + 1);
    lemma_grid_place(nz, x + 1, z);
    lemma_grid_place(nz, x + 1, z + 1);
    let k00 = i;
    let k01 = i + 1;
    let k10 = i + nz;
    let k11 = i + nz + 1;
    assert(grid_vertex_ok(m.grid@, length, width, nx, nz, k00));
    assert(grid_vertex_ok(m.grid@, length, width, nx, nz, k01));
    assert(grid_vertex_ok(m.grid@, length, width, nx, nz, k10));
    assert(grid_vertex_ok(m.grid@, length, width, nx, nz, k11));
    lemma_grid_step(x, nx, length);
    lemma_grid_step(z, nz, width);
    let dx = grid_x(length, nx, x + 1) - grid_x(length, nx, x);
    let dz = grid_z(width, nz, z + 1) - grid_z(width, nz, z);
    assert(0 < dx * dz <= 4 * SHADING_LIMIT * SHADING_LIMIT) by (nonlinear_arith)
        requires
            1 <= dx <= 2 * SHADING_LIMIT,
            1 <= dz <= 2 * SHADING_LIMIT,
    ;
    assert(m.indices@[n0] == grid_indices(nx, nz)[n0]);
    assert(m.indices@[n0 + 1] == grid_indices(nx, nz)[n0 + 1]);
    assert(m.indices@[n0 + 2] == grid_indices(nx, nz)[n0 + 2]);
    let a = m.positions@[n0];
    let b = m.positions@[n0 + 1];
    let c = m.positions@[n0 + 2];
    if h == 0 {
        assert(a == m.grid@[k00]);
        assert(b == m.grid@[k01]);
        assert(c == m.grid@[k10]);
        assert((b.z - a.z) * (c.x - a.x) - (b.x - a.x) * (c.z - a.z) == dz * dx);
    } else {
        assert(a == m.grid@[k10]);
        assert(b == m.grid@[k01]);
        assert(c == m.grid@[k11]);
        assert((b.z - a.z) * (c.x - a.x) - (b.x - a.x) * (c.z - a.z) == dz * 0 - (0 - dx) * dz);
        assert(dz * 0 - (0 - dx) * dz == dx * dz) by (nonlinear_arith);
    }
    assert(dz * dx == dx * dz) by (nonlinear_arith);
}

/// Every face of a strip faces up: each vertex's normal has a positive
/// height, whatever heights were drawn.
pub proof fn lemma_terrain_faces_up(m: TerrainMesh, length: int, width: int, nx: int, nz: int)
    requires
        grid_size_ok(length, width, nx, nz),
        m.is_strip(length, width, nx, nz),
    ensures
        forall|n: int| 0 <= n < m.normals@.len() ==> (#[trigger] m.normals@[n]).y > 0,
{
    assert forall|n: int| 0 <= n < m.normals@.len() implies (#[trigger] m.normals@[n]).y > 0 by {
        let t = n / 3;
        lemma_fundamental_div_mod(n, 3);
        lemma_mod_pos_bound(n, 3);
        lemma_div_pos_is_pos(n, 3);
        assert(m.indices@.len() == 6 * ((nx - 1) * (nz - 1)));
        assert(3 * t + 2 < m.indices@.len());
        lemma_triangle_faces_up(m, length, width, nx, nz, t);
    }
}

} // verus!
