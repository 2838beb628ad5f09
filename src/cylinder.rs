//! Cylinders standing on the XZ plane, and the triangle list that draws one.
//!
//! The mesh is given by the grid place of each vertex: which ring it lies
//! on and which step around the axis it sits at. Turning a place into a
//! position, normal and texture coordinate is trigonometry, done where the
//! mesh is drawn: step `s` of `resolution` stands at the angle
//! `s / resolution` of a full turn, ring `k` of `segments` at the height
//! `-height / 2 + k * height / segments`.

use vstd::arithmetic::div_mod::{
    lemma_fundamental_div_mod,
    lemma_fundamental_div_mod_converse,
    lemma_mod_pos_bound,
    lemma_multiply_divide_lt,
};
use vstd::prelude::*;

verus! {

/// The largest radius or height of a cylinder.
pub const CYLINDER_SIZE_LIMIT: i64 = 1_000_000_000;

/// A cylinder centred on the origin, its axis along Y.
#[derive(Clone, Copy, Debug, PartialEq, Eq, Structural)]
pub struct Cylinder {
    /// Radius in the XZ plane.
    pub radius: i64,
    /// Height along the Y axis.
    pub height: i64,
    /// Number of vertices around each horizontal slice.
    pub resolution: u32,
    /// Number of vertical segments.
    pub segments: u32,
}

/// Which surface of the cylinder a vertex belongs to.
#[derive(Clone, Copy, Debug, PartialEq, Eq, Structural)]
pub enum CylinderPart {
    /// The barrel: normal pointing away from the axis.
    Side,
    /// The top cap: normal pointing up.
    TopCap,
    /// The bottom cap: normal pointing down.
    BottomCap,
}

/// The grid place of one vertex.
#[derive(Clone, Copy, Debug, PartialEq, Eq, Structural)]
pub struct CylinderVertex {
    pub part: CylinderPart,
    /// The ring the vertex lies on, from `0` at the bottom to `segments`.
    pub ring: u32,
    /// The step around the axis, from `0` to `resolution`; the barrel's
    /// last step closes the seam at the angle of step `0`.
    pub step: u32,
}

/// A cylinder's triangle list: the vertices and, three by three, the
/// corners of each triangle.
#[derive(Clone, Debug)]
pub struct CylinderMesh {
    pub shape: Cylinder,
    pub vertices: Vec<CylinderVertex>,
    pub indices: Vec<u32>,
}

pub open spec fn side_vertex_count(resolution: int, segments: int) -> int {
    (segments + 1) * (resolution + 1)
}

/// Vertices of the barrel and of the two caps.
pub open spec fn num_vertices(resolution: int, segments: int) -> int {
    2 * resolution + side_vertex_count(resolution, segments)
}

pub open spec fn skin_index_count(resolution: int, segments: int) -> int {
    6 * segments * resolution
}

/// Two triangles for each quad of the barrel, `resolution - 2` for each cap.
pub open spec fn num_indices(resolution: int, segments: int) -> int {
    3 * (2 * segments * resolution + 2 * (resolution - 2))
}

/// Vertex `k` of the mesh: the barrel ring by ring, then the top cap, then
/// the bottom cap.
pub open spec fn vertex_at(resolution: int, segments: int, k: int) -> CylinderVertex {
    let side = side_vertex_count(resolution, segments);
    if k < side {
        CylinderVertex {
            part: CylinderPart::Side,
            ring: (k / (resolution + 1)) as u32,
            step: (k % (resolution + 1)) as u32,
        }
    } else if k < side + resolution {
        CylinderVertex { part: CylinderPart::TopCap, ring: segments as u32, step: (k - side) as u32 }
    } else {
        CylinderVertex { part: CylinderPart::BottomCap, ring: 0, step: (k - side - resolution) as u32 }
    }
}

pub open spec fn cylinder_vertices(resolution: int, segments: int) -> Seq<CylinderVertex> {
    Seq::new(num_vertices(resolution, segments) as nat, |k: int| vertex_at(resolution, segments, k))
}

/// Corner `c` of the two triangles that cover quad `j` of the band between
/// rings `i` and `i + 1`.
pub open spec fn skin_corner(resolution: int, i: int, j: int, c: int) -> int {
    let ring = i * (resolution + 1);
    let next_ring = (i + 1) * (resolution + 1);
    if c == 0 {
        ring + j
    } else if c == 1 {
        next_ring + j
    } else if c == 2 {
        ring + j + 1
    } else if c == 3 {
        next_ring + j
    } else if c == 4 {
        next_ring + j + 1
    } else {
        ring + j + 1
    }
}

/// Corner `c` of fan triangle `t` (from `1`) of a cap whose vertices start
/// at `offset`; the top cap winds the other way from the bottom one so that
/// both face outward.
pub open spec fn cap_corner(offset: int, top: bool, t: int, c: int) -> int {
    if c == 0 {
        offset
    } else if (c == 1) == top {
        offset + t + 1
    } else {
        offset + t
    }
}

/// Entry `n` of the index list: the barrel quad by quad, then the fan of
/// the top cap, then the fan of the bottom cap.
pub open spec fn index_at(resolution: int, segments: int, n: int) -> int {
    let skin = skin_index_count(resolution, segments);
    let cap = 3 * (resolution - 2);
    let side = side_vertex_count(resolution, segments);
    if n < skin {
        let q = n / 6;
        skin_corner(resolution, q / resolution, q % resolution, n % 6)
    } else if n < skin + cap {
        cap_corner(side, true, (n - skin) / 3 + 1, (n - skin) % 3)
    } else {
        cap_corner(side + resolution, false, (n - skin - cap) / 3 + 1, (n - skin - cap) % 3)
    }
}

pub open spec fn cylinder_indices(resolution: int, segments: int) -> Seq<u32> {
    Seq::new(
        num_indices(resolution, segments) as nat,
        |n: int| index_at(resolution, segments, n) as u32,
    )
}

impl Cylinder {
    /// The parameters a mesh can be built from: a positive size, at least
    /// three vertices around, at least one segment, and a vertex count that
    /// a `u32` index can reach.
    pub open spec fn wf(self) -> bool {
        &&& 0 < self.radius <= CYLINDER_SIZE_LIMIT
        &&& 0 < self.height <= CYLINDER_SIZE_LIMIT
        &&& self.resolution > 2
        &&& self.segments > 0
        &&& num_vertices(self.resolution as int, self.segments as int) <= u32::MAX
    }
}

impl Default for Cylinder {
    fn default() -> (r: Cylinder)
        ensures
            r == (Cylinder { radius: 500, height: 1000, resolution: 16, segments: 4 }),
    {
        Cylinder { radius: 500, height: 1000, resolution: 16, segments: 4 }
    }
}

proof fn lemma_side_vertex(resolution: int, segments: int, ring: int, step: int)
    requires
        resolution > 2,
        segments > 0,
        0 <= ring <= segments,
        0 <= step <= resolution,
    ensures
        0 <= ring * (resolution + 1) + step < side_vertex_count(resolution, segments),
        vertex_at(resolution, segments, ring * (resolution + 1) + step) == (CylinderVertex {
            part: CylinderPart::Side,
            ring: ring as u32,
            step: step as u32,
        }),
{
    assert(0 <= ring * (resolution + 1) + step < (segments + 1) * (resolution + 1))
        by (nonlinear_arith)
        requires
            resolution > 2,
            0 <= ring <= segments,
            0 <= step <= resolution,
    ;
    lemma_fundamental_div_mod_converse(ring * (resolution + 1) + step, resolution + 1, ring, step);
}

proof fn lemma_skin_entry(resolution: int, segments: int, i: int, j: int, c: int)
    requires
        resolution > 2,
        0 <= i < segments,
        0 <= j < resolution,
        0 <= c < 6,
    ensures
        0 <= 6 * (i * resolution + j) + c < skin_index_count(resolution, segments),
        index_at(resolution, segments, 6 * (i * resolution + j) + c) == skin_corner(
            resolution,
            i,
            j,
            c,
        ),
        0 <= skin_corner(resolution, i, j, c) < side_vertex_count(resolution, segments),
{
    let q = i * resolution + j;
    assert(0 <= q < segments * resolution) by (nonlinear_arith)
        requires
            q == i * resolution + j,
            0 <= i < segments,
            0 <= j < resolution,
    ;
    assert(6 * q + c < 6 * segments * resolution) by (nonlinear_arith)
        requires
            q < segments * resolution,
            c < 6,
    ;
    lemma_fundamental_div_mod_converse(6 * q + c, 6, q, c);
    lemma_fundamental_div_mod_converse(q, resolution, i, j);
    assert(skin_corner(resolution, i, j, c) < side_vertex_count(resolution, segments))
        by (nonlinear_arith)
        requires
            0 <= i < segments,
            0 <= j < resolution,
            resolution > 2,
    {
        assert((i + 1) * (resolution + 1) + j + 1 <= (segments + 1) * (resolution + 1))
            by (nonlinear_arith)
            requires
                0 <= i < segments,
                0 <= j < resolution,
        ;
        assert(i * (resolution + 1) + j + 1 <= (i + 1) * (resolution + 1)) by (nonlinear_arith)
            requires
                0 <= j < resolution,
        ;
        assert(0 <= i * (resolution + 1)) by (nonlinear_arith)
            requires
                0 <= i,
                resolution > 2,
        ;
    }
}

/// Appends the two triangles of quad `j` of band `i` of the barrel.
fn push_skin_quad(indices: &mut Vec<u32>, resolution: u32, segments: u32, i: u32, j: u32)
    requires
        resolution > 2,
        num_vertices(resolution as int, segments as int) <= u32::MAX,
        i < segments,
        j < resolution,
        old(indices)@.len() == 6 * (i * resolution + j),
        forall|n: int|
            0 <= n < old(indices)@.len() ==> #[trigger] old(indices)@[n] == index_at(
                resolution as int,
                segments as int,
                n,
            ) as u32,
    ensures
        final(indices)@.len() == old(indices)@.len() + 6,
        forall|n: int|
            0 <= n < final(indices)@.len() ==> #[trigger] final(indices)@[n] == index_at(
                resolution as int,
                segments as int,
                n,
            ) as u32,
{
    let ghost res = resolution as int;
    let ghost seg = segments as int;
    proof {
        lemma_skin_entry(res, seg, i as int, j as int, 0);
        lemma_skin_entry(res, seg, i as int, j as int, 1);
        lemma_skin_entry(res, seg, i as int, j as int, 2);
        lemma_skin_entry(res, seg, i as int, j as int, 3);
        lemma_skin_entry(res, seg, i as int, j as int, 4);
        lemma_skin_entry(res, seg, i as int, j as int, 5);
        assert(side_vertex_count(res, seg) <= u32::MAX);
    }
    let ring = i * (resolution + 1);
    let next_ring = (i + 1) * (resolution + 1);
    indices.push(ring + j);
    indices.push(next_ring + j);
    indices.push(ring + j + 1);
    indices.push(next_ring + j);
    indices.push(next_ring + j + 1);
    indices.push(ring + j + 1);
}

proof fn lemma_cap_entry(resolution: int, segments: int, top: bool, t: int, c: int)
    requires
        resolution > 2,
        segments > 0,
        1 <= t < resolution - 1,
        0 <= c < 3,
    ensures
        ({
            let first = skin_index_count(resolution, segments) + if top {
                0
            } else {
                3 * (resolution - 2)
            };
            let offset = side_vertex_count(resolution, segments) + if top {
                0
            } else {
                resolution
            };
            &&& 0 <= first + 3 * (t - 1) + c < num_indices(resolution, segments)
            &&& index_at(resolution, segments, first + 3 * (t - 1) + c) == cap_corner(
                offset,
                top,
                t,
                c,
            )
            &&& 0 <= cap_corner(offset, top, t, c) < num_vertices(resolution, segments)
        }),
{
    lemma_fundamental_div_mod_converse(3 * (t - 1) + c, 3, t - 1, c);
    assert(0 <= segments * resolution) by (nonlinear_arith)
        requires
            segments > 0,
            resolution > 2,
    ;
    assert(skin_index_count(resolution, segments) == 6 * (segments * resolution))
        by (nonlinear_arith);
    assert(num_indices(resolution, segments) == 6 * (segments * resolution) + 6 * (resolution - 2))
        by (nonlinear_arith);
}

/// Appends fan triangle `t` of a cap.
fn push_cap_triangle(indices: &mut Vec<u32>, resolution: u32, segments: u32, top: bool, t: u32)
    requires
        resolution > 2,
        segments > 0,
        num_vertices(resolution as int, segments as int) <= u32::MAX,
        1 <= t < resolution - 1,
        old(indices)@.len() == skin_index_count(resolution as int, segments as int) + (if top {
            0
        } else {
            3 * (resolution - 2)
        }) + 3 * (t - 1),
        forall|n: int|
            0 <= n < old(indices)@.len() ==> #[trigger] old(indices)@[n] == index_at(
                resolution as int,
                segments as int,
                n,
            ) as u32,
    ensures
        final(indices)@.len() == old(indices)@.len() + 3,
        forall|n: int|
            0 <= n < final(indices)@.len() ==> #[trigger] final(indices)@[n] == index_at(
                resolution as int,
                segments as int,
                n,
            ) as u32,
{
    let ghost res = resolution as int;
    let ghost seg = segments as int;
    proof {
        lemma_cap_entry(res, seg, top, t as int, 0);
        lemma_cap_entry(res, seg, top, t as int, 1);
        lemma_cap_entry(res, seg, top, t as int, 2);
        assert(side_vertex_count(res, seg) + res <= u32::MAX);
        assert(seg + 1 <= (seg + 1) * (res + 1)) by (nonlinear_arith)
            requires
                res > 2,
                seg > 0,
        ;
    }
    let side = (segments + 1) * (resolution + 1);
    let offset = if top {
        side
    } else {
        side + resolution
    };
    if top {
        indices.push(offset);
        indices.push(offset + t + 1);
        indices.push(offset + t);
    } else {
        indices.push(offset);
        indices.push(offset + t);
        indices.push(offset + t + 1);
    }
}

impl Cylinder {
    /// The triangle list of this cylinder: `segments + 1` rings of
    /// `resolution + 1` barrel vertices, two triangles for each quad
    /// between adjacent rings, then a fan of `resolution` vertices for each
    /// cap.
    pub fn mesh(&self) -> (m: CylinderMesh)
        requires
            self.wf(),
        ensures
            m.shape == *self,
            m.vertices@ == cylinder_vertices(self.resolution as int, self.segments as int),
            m.indices@ == cylinder_indices(self.resolution as int, self.segments as int),
    {
        let resolution = self.resolution;
        let segments = self.segments;
        let ghost res = resolution as int;
        let ghost seg = segments as int;
        proof {
            assert(seg + 1 <= (seg + 1) * (res + 1)) by (nonlinear_arith)
                requires
                    res > 2,
                    seg > 0,
            ;
        }

        let mut vertices: Vec<CylinderVertex> = Vec::new();
        let mut ring: u32 = 0;
        while ring <= segments
            invariant
                self.wf(),
                resolution == self.resolution,
                segments == self.segments,
                res == resolution as int,
                seg == segments as int,
                seg + 1 <= u32::MAX,
                ring <= segments + 1,
                vertices@.len() == ring * (res + 1),
                forall|k: int|
                    0 <= k < vertices@.len() ==> #[trigger] vertices@[k] == vertex_at(res, seg, k),
            decreases segments + 1 - ring,
        {
            let mut step: u32 = 0;
            while step <= resolution
                invariant
                    self.wf(),
                    resolution == self.resolution,
                    segments == self.segments,
                    res == resolution as int,
                    seg == segments as int,
                    ring <= segments,
                    step <= resolution + 1,
                    vertices@.len() == ring * (res + 1) + step,
                    forall|k: int|
                        0 <= k < vertices@.len() ==> #[trigger] vertices@[k] == vertex_at(
                            res,
                            seg,
                            k,
                        ),
                decreases resolution + 1 - step,
            {
                proof {
                    lemma_side_vertex(res, seg, ring as int, step as int);
                }
                vertices.push(CylinderVertex { part: CylinderPart::Side, ring, step });
                step = step + 1;
            }
            proof {
                assert((ring + 1) * (res + 1) == ring * (res + 1) + res + 1) by (nonlinear_arith);
            }
            ring = ring + 1;
        }

        let ghost side = side_vertex_count(res, seg);
        let mut cap: u32 = 0;
        while cap < 2
            invariant
                self.wf(),
                resolution == self.resolution,
                segments == self.segments,
                res == resolution as int,
                seg == segments as int,
                cap <= 2,
                side == side_vertex_count(res, seg),
                vertices@.len() == side + (if cap == 0 { 0 } else if cap == 1 { res } else { 2 * res }),
                forall|k: int|
                    0 <= k < vertices@.len() ==> #[trigger] vertices@[k] == vertex_at(res, seg, k),
            decreases 2 - cap,
        {
            let top = cap == 0;
            let mut step: u32 = 0;
            while step < resolution
                invariant
                    self.wf(),
                    resolution == self.resolution,
                    segments == self.segments,
                    res == resolution as int,
                    seg == segments as int,
                    cap < 2,
                    top == (cap == 0),
                    step <= resolution,
                    side == side_vertex_count(res, seg),
                vertices@.len() == side + (if cap == 0 { 0 } else { res }) + step,
                    forall|k: int|
                        0 <= k < vertices@.len() ==> #[trigger] vertices@[k] == vertex_at(
                            res,
                            seg,
                            k,
                        ),
                decreases resolution - step,
            {
                if top {
                    vertices.push(CylinderVertex { part: CylinderPart::TopCap, ring: segments, step });
                } else {
                    vertices.push(CylinderVertex { part: CylinderPart::BottomCap, ring: 0, step });
                }
                step = step + 1;
            }
            cap = cap + 1;
        }
        assert(vertices@ =~= cylinder_vertices(res, seg));

        let mut indices: Vec<u32> = Vec::new();
        let mut i: u32 = 0;
        while i < segments
            invariant
                self.wf(),
                resolution == self.resolution,
                segments == self.segments,
                res == resolution as int,
                seg == segments as int,
                i <= segments,
                indices@.len() == 6 * (i * res),
                forall|n: int|
                    0 <= n < indices@.len() ==> #[trigger] indices@[n] == index_at(res, seg, n) as u32,
            decreases segments - i,
        {
            let mut j: u32 = 0;
            while j < resolution
                invariant
                    self.wf(),
                    resolution == self.resolution,
                    segments == self.segments,
                    res == resolution as int,
                    seg == segments as int,
                    i < segments,
                    j <= resolution,
                    indices@.len() == 6 * (i * res + j),
                    forall|n: int|
                        0 <= n < indices@.len() ==> #[trigger] indices@[n] == index_at(
                            res,
                            seg,
                            n,
                        ) as u32,
                decreases resolution - j,
            {
                push_skin_quad(&mut indices, resolution, segments, i, j);
                j = j + 1;
            }
            proof {
                assert((i + 1) * res == i * res + res) by (nonlinear_arith);
            }
            i = i + 1;
        }
        proof {
            assert(6 * (seg * res) == skin_index_count(res, seg)) by (nonlinear_arith);
        }

        let mut cap: u32 = 0;
        while cap < 2
            invariant
                self.wf(),
                resolution == self.resolution,
                segments == self.segments,
                res == resolution as int,
                seg == segments as int,
                cap <= 2,
                indices@.len() == skin_index_count(res, seg) + (if cap == 0 { 0 } else if cap == 1 { 3 * (res - 2) } else { 6 * (res - 2) }),
                forall|n: int|
                    0 <= n < indices@.len() ==> #[trigger] indices@[n] == index_at(res, seg, n) as u32,
            decreases 2 - cap,
        {
            let top = cap == 0;
            let mut t: u32 = 1;
            while t < resolution - 1
                invariant
                    self.wf(),
                    resolution == self.resolution,
                    segments == self.segments,
                    res == resolution as int,
                    seg == segments as int,
                    cap < 2,
                    top == (cap == 0),
                    1 <= t <= resolution - 1,
                    indices@.len() == skin_index_count(res, seg) + (if cap == 0 { 0 } else { 3 * (res - 2) }) + 3 * (t - 1),
                    forall|n: int|
                        0 <= n < indices@.len() ==> #[trigger] indices@[n] == index_at(
                            res,
                            seg,
                            n,
                        ) as u32,
                decreases resolution - 1 - t,
            {
                push_cap_triangle(&mut indices, resolution, segments, top, t);
                t = t + 1;
            }
            cap = cap + 1;
        }
        proof {
            assert(num_indices(res, seg) == skin_index_count(res, seg) + 2 * 3 * (res - 2))
                by (nonlinear_arith);
        }
        assert(indices@ =~= cylinder_indices(res, seg));
        CylinderMesh { shape: *self, vertices, indices }
    }
}

/// A cylinder's index list is a list of whole triangles, each corner of
/// which names a vertex of the mesh.
pub proof fn lemma_cylinder_mesh_valid(resolution: int, segments: int)
    requires
        resolution > 2,
        segments > 0,
    ensures
        cylinder_indices(resolution, segments).len() % 3 == 0,
        forall|n: int|
            0 <= n < num_indices(resolution, segments) ==> 0 <= #[trigger] index_at(
                resolution,
                segments,
                n,
            ) < num_vertices(resolution, segments),
{
    let res = resolution;
    let seg = segments;
    assert(num_indices(res, seg) == 3 * (2 * seg * res + 2 * (res - 2)));
    assert(skin_index_count(res, seg) == 6 * (seg * res)) by (nonlinear_arith);
    assert(num_indices(res, seg) == skin_index_count(res, seg) + 6 * (res - 2))
        by (nonlinear_arith);
    assert(0 <= seg * res) by (nonlinear_arith)
        requires
            seg > 0,
            res > 2,
    ;
    assert forall|n: int| 0 <= n < num_indices(res, seg) implies 0 <= #[trigger] index_at(
        res,
        seg,
        n,
    ) < num_vertices(res, seg) by {
        let skin = skin_index_count(res, seg);
        if n < skin {
            let q = n / 6;
            lemma_multiply_divide_lt(n, 6, seg * res);
            lemma_fundamental_div_mod(n, 6);
            lemma_mod_pos_bound(n, 6);
            assert(0 <= q) by (nonlinear_arith)
                requires
                    q == n / 6,
                    n >= 0,
            ;
            assert(q < res * seg) by (nonlinear_arith)
                requires
                    q < seg * res,
            ;
            lemma_multiply_divide_lt(q, res, seg);
            lemma_fundamental_div_mod(q, res);
            lemma_mod_pos_bound(q, res);
            let i = q / res;
            let j = q % res;
            assert(0 <= i) by (nonlinear_arith)
                requires
                    i == q / res,
                    q >= 0,
                    res > 0,
            ;
            assert(n == 6 * (i * res + j) + n % 6) by (nonlinear_arith)
                requires
                    n == 6 * q + n % 6,
                    q == res * i + j,
            ;
            lemma_skin_entry(res, seg, i, j, n % 6);
        } else {
            let cap = 3 * (res - 2);
            let m = if n < skin + cap {
                n - skin
            } else {
                n - skin - cap
            };
            lemma_fundamental_div_mod(m, 3);
            lemma_mod_pos_bound(m, 3);
            assert(0 <= m / 3 < res - 2) by (nonlinear_arith)
                requires
                    0 <= m < 3 * (res - 2),
            ;
        }
    }
}

/// A pipe of sixteen vertices around and one segment has a vertex count
/// that a `u32` index reaches.
pub proof fn lemma_pipe_vertex_count()
    ensures
        num_vertices(16, 1) == 66,
{
}

} // verus!
