//! Mesh data and the index buffers of grid meshes.
//!
//! A grid of `stride` vertices per line is stored line by line, so the vertex
//! in line `a` at place `b` has index `a * stride + b`. Each square of four
//! neighbouring vertices is a quad; quads are numbered line by line too, and
//! every quad contributes two triangles, six indices, to the index buffer.

use vstd::arithmetic::div_mod::{lemma_fundamental_div_mod, lemma_fundamental_div_mod_converse};
use vstd::prelude::*;

verus! {

/// How the index buffer of a mesh is read.
#[derive(Clone, Copy, Debug, PartialEq, Eq, Structural)]
pub enum Topology {
    /// Three indices form a triangle.
    TriangleList,
    /// Two indices form a line.
    LineList,
}

/// The attributes of one vertex, with components of any one type.
#[derive(Clone, Copy, Debug, PartialEq)]
pub struct VertexData<S> {
    /// Position in space.
    pub position: [S; 3],
    /// Surface normal.
    pub normal: [S; 3],
    /// Texture coordinates.
    pub uv: [S; 2],
    /// Red, green, blue and alpha.
    pub color: [S; 4],
}

/// A generated mesh: the attributes of its vertices in four parallel lists,
/// in the order in which the generator visited the vertices, and the indices
/// that connect them.
#[derive(Debug)]
pub struct MeshData<S> {
    /// Position of each vertex.
    pub positions: Vec<[S; 3]>,
    /// Indices into the vertex lists.
    pub indices: Vec<u32>,
    /// Normal of each vertex.
    pub normals: Vec<[S; 3]>,
    /// Texture coordinates of each vertex.
    pub uvs: Vec<[S; 2]>,
    /// Colour of each vertex.
    pub colors: Vec<[S; 4]>,
    /// How `indices` is grouped into primitives.
    pub topology: Topology,
}

/// Number of indices that make up one primitive.
pub open spec fn primitive_size(topology: Topology) -> int {
    match topology {
        Topology::TriangleList => 3,
        Topology::LineList => 2,
    }
}

/// Whether every entry of `indices` addresses one of `vertex_count` vertices.
pub open spec fn indices_in_bounds(indices: Seq<u32>, vertex_count: int) -> bool {
    forall|k: int| 0 <= k < indices.len() ==> (#[trigger] indices[k]) < vertex_count
}

/// Tells whether every entry of `indices` addresses one of `vertex_count`
/// vertices.
pub fn check_indices(indices: &Vec<u32>, vertex_count: usize) -> (valid: bool)
    ensures
        valid == indices_in_bounds(indices@, vertex_count as int),
{
    let mut k: usize = 0;
    while k < indices.len()
        invariant
            k <= indices@.len(),
            indices_in_bounds(indices@.subrange(0, k as int), vertex_count as int),
        decreases indices@.len() - k,
    {
        if indices[k] as usize >= vertex_count {
            return false;
        }
        assert forall|j: int| 0 <= j < k + 1 implies (#[trigger] indices@.subrange(0, k + 1)[j])
            < vertex_count by {
            if j < k {
                assert(indices@.subrange(0, k as int)[j] == indices@[j]);
            }
        }
        k += 1;
    }
    assert(indices@.subrange(0, k as int) == indices@);
    true
}

impl<S> MeshData<S> {
    /// Number of vertices.
    pub open spec fn vertex_count(&self) -> nat {
        self.positions@.len()
    }

    /// The attributes of vertex `k`.
    pub open spec fn vertex(&self, k: int) -> VertexData<S> {
        VertexData {
            position: self.positions@[k],
            normal: self.normals@[k],
            uv: self.uvs@[k],
            color: self.colors@[k],
        }
    }

    /// The four vertex lists are equally long.
    pub open spec fn parallel(&self) -> bool {
        &&& self.normals@.len() == self.positions@.len()
        &&& self.uvs@.len() == self.positions@.len()
        &&& self.colors@.len() == self.positions@.len()
    }

    /// The vertex lists are parallel, every index addresses a vertex, and
    /// the index buffer holds whole primitives.
    pub open spec fn wf(&self) -> bool {
        &&& self.parallel()
        &&& indices_in_bounds(self.indices@, self.positions@.len() as int)
        &&& self.indices@.len() as int % primitive_size(self.topology) == 0
    }

    /// A triangle mesh without vertices.
    pub fn new() -> (mesh: MeshData<S>)
        ensures
            mesh.vertex_count() == 0,
            mesh.indices@.len() == 0,
            mesh.topology == Topology::TriangleList,
            mesh.wf(),
    {
        MeshData {
            positions: Vec::new(),
            indices: Vec::new(),
            normals: Vec::new(),
            uvs: Vec::new(),
            colors: Vec::new(),
            topology: Topology::TriangleList,
        }
    }

    /// Adds a vertex after those that are there.
    pub fn push_vertex(&mut self, vertex: VertexData<S>)
        requires
            old(self).parallel(),
        ensures
            final(self).parallel(),
            final(self).vertex_count() == old(self).vertex_count() + 1,
            final(self).vertex(old(self).vertex_count() as int) == vertex,
            forall|k: int|
                0 <= k < old(self).vertex_count() ==> #[trigger] final(self).vertex(k) == old(
                    self,
                ).vertex(k),
            final(self).indices == old(self).indices,
            final(self).topology == old(self).topology,
    {
        self.positions.push(vertex.position);
        self.normals.push(vertex.normal);
        self.uvs.push(vertex.uv);
        self.colors.push(vertex.color);
    }

    /// Connects the vertices by a triangle list: the mesh takes the
    /// triangles as its index buffer or, with `wireframe`, the line list of
    /// their edges. The vertices stay as they are.
    pub fn connect(&mut self, triangles: Vec<u32>, wireframe: bool)
        requires
            old(self).parallel(),
            indices_in_bounds(triangles@, old(self).vertex_count() as int),
            triangles@.len() % 3 == 0,
        ensures
            final(self).wf(),
            final(self).positions == old(self).positions,
            final(self).normals == old(self).normals,
            final(self).uvs == old(self).uvs,
            final(self).colors == old(self).colors,
            final(self).indices@ == if wireframe {
                wireframe_of(triangles@)
            } else {
                triangles@
            },
            final(self).topology == if wireframe {
                Topology::LineList
            } else {
                Topology::TriangleList
            },
    {
        if wireframe {
            let lines = self::wireframe(&triangles);
            proof {
                lemma_wireframe_in_bounds(triangles@, self.vertex_count() as int);
                assert(lines@.len() == 6 * (triangles@.len() / 3));
            }
            self.indices = lines;
            self.topology = Topology::LineList;
        } else {
            self.indices = triangles;
            self.topology = Topology::TriangleList;
        }
    }

    /// Moves the vertices of `other` behind those that are there; `other`
    /// keeps its indices.
    pub fn append_vertices(&mut self, other: &mut MeshData<S>)
        requires
            old(self).parallel(),
            old(other).parallel(),
        ensures
            final(self).parallel(),
            final(self).vertex_count() == old(self).vertex_count() + old(other).vertex_count(),
            forall|k: int|
                0 <= k < old(self).vertex_count() ==> #[trigger] final(self).vertex(k) == old(
                    self,
                ).vertex(k),
            forall|k: int|
                0 <= k < old(other).vertex_count() ==> #[trigger] final(self).vertex(
                    old(self).vertex_count() + k,
                ) == old(other).vertex(k),
            final(self).indices == old(self).indices,
            final(self).topology == old(self).topology,
            final(other).indices == old(other).indices,
    {
        self.positions.append(&mut other.positions);
        self.normals.append(&mut other.normals);
        self.uvs.append(&mut other.uvs);
        self.colors.append(&mut other.colors);
    }
}

/// Index of the first vertex of quad number `quad` in a grid with `stride`
/// vertices, and so `stride - 1` quads, per line.
pub open spec fn quad_origin(stride: int, quad: int) -> int {
    quad / (stride - 1) * stride + quad % (stride - 1)
}

/// Which corner of a triangle each of the six ends of its three edges is.
pub open spec fn edge_end(end: int) -> int {
    if end == 0 {
        0
    } else if end == 1 {
        1
    } else if end == 2 {
        1
    } else if end == 3 {
        2
    } else if end == 4 {
        2
    } else {
        0
    }
}

/// The line list that draws the three edges of every whole triangle of
/// `indices`. An edge shared by two triangles appears twice.
pub open spec fn wireframe_of(indices: Seq<u32>) -> Seq<u32> {
    Seq::new(
        (6 * (indices.len() / 3)) as nat,
        |k: int| indices[k / 6 * 3 + edge_end(k % 6)],
    )
}

/// Quad `line * (stride - 1) + place` starts at vertex `line * stride + place`.
pub proof fn lemma_quad_origin(stride: int, line: int, place: int)
    requires
        0 <= line,
        0 <= place < stride - 1,
    ensures
        quad_origin(stride, line * (stride - 1) + place) == line * stride + place,
{
    lemma_fundamental_div_mod_converse(line * (stride - 1) + place, stride - 1, line, place);
}

/// A quad of a grid of `lines` lines starts early enough for its far corner,
/// one line down and one place on, to be a vertex of the grid.
pub proof fn lemma_quad_in_grid(lines: int, stride: int, quad: int)
    requires
        0 <= quad < (lines - 1) * (stride - 1),
        1 <= lines,
        1 <= stride,
    ensures
        0 <= quad_origin(stride, quad),
        quad_origin(stride, quad) + stride + 1 < lines * stride,
{
    let d = stride - 1;
    assert(d > 0) by (nonlinear_arith)
        requires
            0 <= quad < (lines - 1) * d,
            1 <= lines,
            0 <= d,
    ;
    lemma_fundamental_div_mod(quad, d);
    let line = quad / d;
    let place = quad % d;
    assert(0 <= line < lines - 1) by (nonlinear_arith)
        requires
            quad == d * line + place,
            0 <= place < d,
            0 <= quad < (lines - 1) * d,
    ;
    lemma_vertex_in_grid(lines, stride, line + 1, place + 1);
    lemma_vertex_in_grid(lines, stride, line, place);
    assert((line + 1) * stride == line * stride + stride) by (nonlinear_arith);
}

/// Number of vertices in lines `0..line` plus `place` stays below the size of
/// the grid.
pub proof fn lemma_vertex_in_grid(lines: int, stride: int, line: int, place: int)
    requires
        0 <= line < lines,
        0 <= place < stride,
    ensures
        0 <= line * stride + place < lines * stride,
{
    assert(line * stride + stride <= lines * stride) by (nonlinear_arith)
        requires
            0 <= line < lines,
            0 < stride,
    ;
    assert(0 <= line * stride) by (nonlinear_arith)
        requires
            0 <= line,
            0 < stride,
    ;
}

/// Turns a triangle list into the line list of its edges.
pub fn wireframe(indices: &Vec<u32>) -> (lines: Vec<u32>)
    ensures
        lines@ == wireframe_of(indices@),
{
    let triangle_number = indices.len() / 3;
    let mut lines: Vec<u32> = Vec::new();
    let mut i: usize = 0;
    while i < triangle_number
        invariant
            triangle_number == indices@.len() / 3,
            indices@.len() <= usize::MAX,
            i <= triangle_number,
            lines@.len() == 6 * i,
            forall|k: int|
                0 <= k < lines@.len() ==> #[trigger] lines@[k] == wireframe_of(indices@)[k],
        decreases triangle_number - i,
    {
        let ghost before = lines@;
        assert(3 * i + 3 <= indices@.len()) by {
            assert(3 * (indices@.len() / 3) <= indices@.len());
        }
        lines.push(indices[i * 3]);
        lines.push(indices[i * 3 + 1]);
        lines.push(indices[i * 3 + 1]);
        lines.push(indices[i * 3 + 2]);
        lines.push(indices[i * 3 + 2]);
        lines.push(indices[i * 3]);
        proof {
            assert forall|k: int| 0 <= k < lines@.len() implies #[trigger] lines@[k]
                == wireframe_of(indices@)[k] by {
                if k >= before.len() {
                    assert(k / 6 == i);
                    assert(k % 6 == k - 6 * i);
                } else {
                    assert(lines@[k] == before[k]);
                }
            }
        }
        i += 1;
    }
    lines
}

/// A wireframe holds three lines of two ends for every triangle: twice the
/// number of triangles, times three, indices.
pub proof fn lemma_wireframe_length(indices: Seq<u32>)
    ensures
        wireframe_of(indices).len() == 2 * (indices.len() / 3) * 3,
        indices.len() % 3 == 0 ==> wireframe_of(indices).len() == 2 * indices.len(),
{
}

/// Every end of a wireframe is an index of the triangle list it was made of.
pub proof fn lemma_wireframe_in_bounds(indices: Seq<u32>, vertex_count: int)
    requires
        indices_in_bounds(indices, vertex_count),
    ensures
        indices_in_bounds(wireframe_of(indices), vertex_count),
        wireframe_of(indices).len() == 2 * (indices.len() / 3) * 3,
{
    assert forall|k: int| 0 <= k < wireframe_of(indices).len() implies (#[trigger] wireframe_of(
        indices,
    )[k]) < vertex_count by {
        let source = k / 6 * 3 + edge_end(k % 6);
        assert(0 <= source < indices.len());
        assert(wireframe_of(indices)[k] == indices[source]);
    }
}

} // verus!
