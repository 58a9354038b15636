//! Cube-sphere planet: six square faces, stitched into one mesh.

use crate::mesh::{
    indices_in_bounds, lemma_quad_in_grid, lemma_quad_origin, lemma_vertex_in_grid, quad_origin,
    wireframe_of, MeshData, Topology, VertexData,
};
use crate::util::gltf::Vertex;
use crate::util::{export_mesh, is_model};
use vstd::arithmetic::div_mod::lemma_fundamental_div_mod_converse;
use vstd::prelude::*;

verus! {

/// The outward normal of one face of the cube.
#[derive(Clone, Copy, Debug, PartialEq, Eq, Structural)]
pub enum Direction {
    /// Towards positive y.
    Y,
    /// Towards negative y.
    NegY,
    /// Towards positive x.
    X,
    /// Towards negative x.
    NegX,
    /// Towards positive z.
    Z,
    /// Towards negative z.
    NegZ,
}

/// Number of faces of the cube.
pub const FACES: usize = 6;

/// The unit vector that points out of a face.
pub open spec fn local_up_of(direction: Direction) -> [i32; 3] {
    match direction {
        Direction::Y => [0i32, 1i32, 0i32],
        Direction::NegY => [0i32, -1i32, 0i32],
        Direction::X => [1i32, 0i32, 0i32],
        Direction::NegX => [-1i32, 0i32, 0i32],
        Direction::Z => [0i32, 0i32, 1i32],
        Direction::NegZ => [0i32, 0i32, -1i32],
    }
}

/// The direction of face number `face`: both y faces, then both x faces,
/// then both z faces, the positive one first.
pub open spec fn face_direction(face: int) -> Direction {
    if face == 0 {
        Direction::Y
    } else if face == 1 {
        Direction::NegY
    } else if face == 2 {
        Direction::X
    } else if face == 3 {
        Direction::NegX
    } else if face == 4 {
        Direction::Z
    } else {
        Direction::NegZ
    }
}

/// The vector `(y, z, x)` for a vector `(x, y, z)`.
pub open spec fn rotated(v: [i32; 3]) -> [i32; 3] {
    [v[1], v[2], v[0]]
}

/// Component `i` of the cross product of `a` and `b`.
pub open spec fn cross_component(a: [i32; 3], b: [i32; 3], i: int) -> int {
    if i == 0 {
        a[1] * b[2] - a[2] * b[1]
    } else if i == 1 {
        a[2] * b[0] - a[0] * b[2]
    } else {
        a[0] * b[1] - a[1] * b[0]
    }
}

/// The first tangent axis of a face: the components of its normal, rotated
/// by one place.
pub open spec fn axis_a_of(direction: Direction) -> [i32; 3] {
    rotated(local_up_of(direction))
}

/// The second tangent axis of a face: the cross product of its normal and
/// its first tangent axis.
pub open spec fn axis_b_of(direction: Direction) -> [i32; 3] {
    [
        cross_component(local_up_of(direction), axis_a_of(direction), 0) as i32,
        cross_component(local_up_of(direction), axis_a_of(direction), 1) as i32,
        cross_component(local_up_of(direction), axis_a_of(direction), 2) as i32,
    ]
}

/// The scalar product of `a` and `b`.
pub open spec fn dot(a: [i32; 3], b: [i32; 3]) -> int {
    a[0] * b[0] + a[1] * b[1] + a[2] * b[2]
}

/// The products of numbers between -1 and 1 follow the table of signs.
proof fn lemma_unit_products()
    ensures
        forall|x: int, y: int|
            -1 <= x <= 1 && -1 <= y <= 1 ==> #[trigger] (x * y) == if x == 0 || y == 0 {
                0int
            } else if x == y {
                1int
            } else {
                -1int
            },
{
    assert forall|x: int, y: int| -1 <= x <= 1 && -1 <= y <= 1 implies #[trigger] (x * y) == if x
        == 0 || y == 0 {
        0int
    } else if x == y {
        1int
    } else {
        -1int
    } by {
        assert(x * y == if x == 0 || y == 0 {
            0int
        } else if x == y {
            1int
        } else {
            -1int
        }) by (nonlinear_arith)
            requires
                -1 <= x <= 1,
                -1 <= y <= 1,
        ;
    }
}

impl Direction {
    /// The direction of face number `face`.
    pub fn of_face(face: usize) -> (direction: Direction)
        requires
            face < FACES,
        ensures
            direction == face_direction(face as int),
    {
        if face == 0 {
            Direction::Y
        } else if face == 1 {
            Direction::NegY
        } else if face == 2 {
            Direction::X
        } else if face == 3 {
            Direction::NegX
        } else if face == 4 {
            Direction::Z
        } else {
            Direction::NegZ
        }
    }

    /// The unit vector that points out of the face.
    pub fn local_up(self) -> (up: [i32; 3])
        ensures
            up == local_up_of(self),
    {
        let up: [i32; 3] = match self {
            Direction::Y => [0, 1, 0],
            Direction::NegY => [0, -1, 0],
            Direction::X => [1, 0, 0],
            Direction::NegX => [-1, 0, 0],
            Direction::Z => [0, 0, 1],
            Direction::NegZ => [0, 0, -1],
        };
        assert(up =~= local_up_of(self));
        up
    }

    /// The first tangent axis of the face: the components of the normal,
    /// rotated by one place.
    pub fn axis_a(self) -> (axis: [i32; 3])
        ensures
            axis == axis_a_of(self),
    {
        let up = self.local_up();
        let axis: [i32; 3] = [up[1], up[2], up[0]];
        assert(axis =~= rotated(local_up_of(self)));
        axis
    }

    /// The second tangent axis of the face: the cross product of the normal
    /// and the first tangent axis.
    pub fn axis_b(self) -> (axis: [i32; 3])
        ensures
            axis == axis_b_of(self),
    {
        let up = self.local_up();
        let a = self.axis_a();
        proof {
            assert(forall|i: int| 0 <= i < 3 ==> -1 <= #[trigger] up[i] <= 1);
            assert(forall|i: int| 0 <= i < 3 ==> -1 <= #[trigger] a[i] <= 1);
            lemma_unit_products();
        }
        let axis: [i32; 3] = [
            up[1] * a[2] - up[2] * a[1],
            up[2] * a[0] - up[0] * a[2],
            up[0] * a[1] - up[1] * a[0],
        ];
        assert(axis =~= axis_b_of(self));
        axis
    }
}

/// Offset from a quad's first vertex to corner `corner` of the two triangles
/// that cover a quad of a face: both start at the first vertex, the first
/// runs over the far corner to the next line, the second along the line to
/// the far corner.
pub open spec fn face_corner(stride: int, corner: int) -> int {
    if corner == 0 {
        0
    } else if corner == 1 {
        stride + 1
    } else if corner == 2 {
        stride
    } else if corner == 3 {
        0
    } else if corner == 4 {
        1
    } else {
        stride + 1
    }
}

/// The triangle list of one face of `stride` by `stride` vertices.
pub open spec fn face_indices(stride: int) -> Seq<u32> {
    Seq::new(
        (6 * ((stride - 1) * (stride - 1))) as nat,
        |k: int| (quad_origin(stride, k / 6) + face_corner(stride, k % 6)) as u32,
    )
}

/// Whether `mesh` holds the vertices of one face, line by line: the vertex
/// at place `x` of line `y` is made by `vertex` from the face's direction,
/// `x` and `y`.
pub open spec fn is_face<S, W: Fn(Direction, u32, u32) -> VertexData<S>>(
    vertex: &W,
    direction: Direction,
    stride: int,
    mesh: MeshData<S>,
) -> bool {
    &&& mesh.vertex_count() == stride * stride
    &&& forall|k: int|
        0 <= k < mesh.vertex_count() ==> vertex.ensures(
            (direction, (k % stride) as u32, (k / stride) as u32),
            #[trigger] mesh.vertex(k),
        )
}

/// Number of quads that are complete when the face loop reaches place `x`
/// of line `y`.
spec fn quads_before(stride: int, y: int, x: int) -> int {
    if y < stride - 1 {
        y * (stride - 1) + if x < stride - 1 {
            x
        } else {
            stride - 1
        }
    } else {
        (stride - 1) * (stride - 1)
    }
}

/// Builds one face of the cube: `resolution + 1` lines of `resolution + 1`
/// vertices and the triangles between them, indexed from zero.
pub fn generate_face<S, W: Fn(Direction, u32, u32) -> VertexData<S>>(
    resolution: u32,
    direction: Direction,
    vertex: &W,
) -> (mesh_data: MeshData<S>)
    requires
        (resolution + 1) * (resolution + 1) <= u32::MAX,
        forall|x: u32, y: u32|
            x <= resolution && y <= resolution ==> #[trigger] vertex.requires((direction, x, y)),
    ensures
        is_face(vertex, direction, resolution + 1, mesh_data),
        mesh_data.indices@ == face_indices(resolution + 1),
        mesh_data.topology == Topology::TriangleList,
        mesh_data.wf(),
{
    proof {
        assert(resolution + 1 <= u32::MAX) by (nonlinear_arith)
            requires
                0 <= resolution,
                (resolution + 1) * (resolution + 1) <= u32::MAX,
        ;
    }
    let stride = resolution + 1;
    let mut mesh_data: MeshData<S> = MeshData::new();
    let mut indices: Vec<u32> = Vec::new();
    let mut y: u32 = 0;
    proof {
        let d = stride - 1;
        assert(0 * d == 0 && (d == 0 ==> d * d == 0)) by (nonlinear_arith);
    }
    while y < stride
        invariant
            stride == resolution + 1,
            stride * stride <= u32::MAX,
            y <= stride,
            forall|x: u32, y: u32|
                x < stride && y < stride ==> #[trigger] vertex.requires((direction, x, y)),
            mesh_data.parallel(),
            mesh_data.topology == Topology::TriangleList,
            is_face_part(vertex, direction, stride as int, y * stride, mesh_data),
            indices@.len() == 6 * quads_before(stride as int, y as int, 0),
            forall|k: int|
                0 <= k < indices@.len() ==> #[trigger] indices@[k] == face_indices(
                    stride as int,
                )[k],
            indices_in_bounds(indices@, stride * stride),
        decreases stride - y,
    {
        let mut x: u32 = 0;
        while x < stride
            invariant
                stride == resolution + 1,
                stride * stride <= u32::MAX,
                y < stride,
                x <= stride,
                forall|x: u32, y: u32|
                    x < stride && y < stride ==> #[trigger] vertex.requires((direction, x, y)),
                mesh_data.parallel(),
                mesh_data.topology == Topology::TriangleList,
                is_face_part(vertex, direction, stride as int, y * stride + x, mesh_data),
                indices@.len() == 6 * quads_before(stride as int, y as int, x as int),
                forall|k: int|
                    0 <= k < indices@.len() ==> #[trigger] indices@[k] == face_indices(
                        stride as int,
                    )[k],
                indices_in_bounds(indices@, stride * stride),
            decreases stride - x,
        {
            let ghost placed = mesh_data;
            let attributes = vertex(direction, x, y);
            mesh_data.push_vertex(attributes);
            proof {
                lemma_fundamental_div_mod_converse(
                    y * stride + x,
                    stride as int,
                    y as int,
                    x as int,
                );
                assert forall|k: int| 0 <= k < mesh_data.vertex_count() implies vertex.ensures(
                    (direction, (k % stride as int) as u32, (k / stride as int) as u32),
                    #[trigger] mesh_data.vertex(k),
                ) by {
                    if k < placed.vertex_count() {
                        assert(mesh_data.vertex(k) == placed.vertex(k));
                    }
                }
            }
            if x != stride - 1 && y != stride - 1 {
                proof {
                    lemma_vertex_in_grid(stride as int, stride as int, y as int, x as int);
                    lemma_vertex_in_grid(stride as int, stride as int, y + 1, x + 1);
                    lemma_vertex_in_grid(stride as int - 1, stride as int - 1, y as int, x as int);
                    lemma_quad_origin(stride as int, y as int, x as int);
                    assert((y + 1) * stride == y * stride + stride) by (nonlinear_arith);
                }
                let i = x + y * stride;
                let ghost before = indices@;
                let ghost quad = y * (stride - 1) + x;

                // Triangle 1
                indices.push(i);
                indices.push(i + stride + 1);
                indices.push(i + stride);

                // Triangle 2
                indices.push(i);
                indices.push(i + 1);
                indices.push(i + stride + 1);

                proof {
                    assert forall|k: int| 0 <= k < indices@.len() implies #[trigger] indices@[k]
                        == face_indices(stride as int)[k] by {
                        if k >= before.len() {
                            assert(k / 6 == quad);
                            assert(k % 6 == k - 6 * quad);
                        } else {
                            assert(indices@[k] == before[k]);
                        }
                    }
                }
            }
            x += 1;
        }
        proof {
            assert((y + 1) * stride == y * stride + stride) by (nonlinear_arith);
            assert((y + 1) * (stride - 1) == y * (stride - 1) + (stride - 1)) by (nonlinear_arith);
        }
        y += 1;
    }
    proof {
        let quads = (stride - 1) * (stride - 1);
        assert(0 <= quads) by (nonlinear_arith)
            requires
                quads == (stride - 1) * (stride - 1),
        ;
        assert(indices@.len() == 6 * quads);
    }
    let ghost placed = mesh_data;
    mesh_data.indices = indices;
    proof {
        assert forall|k: int| 0 <= k < mesh_data.vertex_count() implies #[trigger] mesh_data.vertex(
            k,
        ) == placed.vertex(k) by {}
    }
    mesh_data
}

/// The first `count` vertices of a face are in place.
spec fn is_face_part<S, W: Fn(Direction, u32, u32) -> VertexData<S>>(
    vertex: &W,
    direction: Direction,
    stride: int,
    count: int,
    mesh: MeshData<S>,
) -> bool {
    &&& mesh.vertex_count() == count
    &&& forall|k: int|
        0 <= k < mesh.vertex_count() ==> vertex.ensures(
            (direction, (k % stride) as u32, (k / stride) as u32),
            #[trigger] mesh.vertex(k),
        )
}

/// The largest entry of an index buffer, or zero if it is empty.
pub open spec fn max_index(indices: Seq<u32>) -> int
    decreases indices.len(),
{
    if indices.len() == 0 {
        0
    } else {
        let rest = max_index(indices.drop_last());
        if indices.last() > rest {
            indices.last() as int
        } else {
            rest
        }
    }
}

/// An index buffer with `start` added to every entry.
pub open spec fn shifted(indices: Seq<u32>, start: int) -> Seq<u32> {
    Seq::new(indices.len(), |k: int| (indices[k] + start) as u32)
}

/// The index at which the face after a face with the given indices starts:
/// one more than its largest index, and one if it has none.
pub open spec fn index_after(indices: Seq<u32>) -> int {
    max_index(indices) + 1
}

/// No entry exceeds the largest, and a buffer that is not empty holds it.
pub proof fn lemma_max_index_bounds(indices: Seq<u32>)
    ensures
        forall|k: int| 0 <= k < indices.len() ==> #[trigger] indices[k] <= max_index(indices),
        indices.len() > 0 ==> exists|k: int|
            0 <= k < indices.len() && #[trigger] indices[k] == max_index(indices),
        indices.len() == 0 ==> max_index(indices) == 0,
    decreases indices.len(),
{
    if indices.len() > 0 {
        let rest = indices.drop_last();
        lemma_max_index_bounds(rest);
        assert forall|k: int| 0 <= k < indices.len() implies #[trigger] indices[k] <= max_index(
            indices,
        ) by {
            if k < rest.len() {
                assert(indices[k] == rest[k]);
            }
        }
        if indices.last() > max_index(rest) {
            assert(indices[indices.len() - 1] == max_index(indices));
        } else if rest.len() > 0 {
            let k = choose|k: int| 0 <= k < rest.len() && #[trigger] rest[k] == max_index(rest);
            assert(indices[k] == max_index(indices));
        } else {
            assert(indices[indices.len() - 1] == max_index(indices));
        }
    }
}

/// A value that bounds every entry and occurs among them is the largest.
pub proof fn lemma_max_index_is(indices: Seq<u32>, largest: int, at: int)
    requires
        0 <= at < indices.len(),
        indices[at] == largest,
        forall|k: int| 0 <= k < indices.len() ==> #[trigger] indices[k] <= largest,
    ensures
        max_index(indices) == largest,
{
    lemma_max_index_bounds(indices);
}

/// Appends the indices of a face to the index buffer of the mesh, each
/// raised by `index_start`, and returns the start of the next face: one more
/// than the largest index appended, and one if the face has no indices.
pub fn append_face(indices: &mut Vec<u32>, face: &Vec<u32>, index_start: u32) -> (next_start: u32)
    requires
        forall|k: int| 0 <= k < face@.len() ==> #[trigger] face@[k] + index_start < u32::MAX,
    ensures
        final(indices)@ == old(indices)@ + shifted(face@, index_start as int),
        next_start == index_after(shifted(face@, index_start as int)),
{
    let mut largest: u32 = 0;
    let mut k: usize = 0;
    while k < face.len()
        invariant
            forall|k: int| 0 <= k < face@.len() ==> #[trigger] face@[k] + index_start < u32::MAX,
            k <= face@.len(),
            indices@ == old(indices)@ + shifted(face@.subrange(0, k as int), index_start as int),
            largest == max_index(shifted(face@.subrange(0, k as int), index_start as int)),
            largest < u32::MAX,
        decreases face@.len() - k,
    {
        let index = face[k] + index_start;
        indices.push(index);
        proof {
            let done = shifted(face@.subrange(0, k as int), index_start as int);
            let next = shifted(face@.subrange(0, k + 1), index_start as int);
            assert(next.drop_last() =~= done);
            assert(next.last() == index);
            assert(indices@ =~= old(indices)@ + next);
        }
        if index > largest {
            largest = index;
        }
        k += 1;
    }
    assert(face@.subrange(0, k as int) == face@);
    largest + 1
}

/// The index at which face number `face` of a planet starts: zero for the
/// first, and for every other the index after those of the face before it.
pub open spec fn face_start(stride: int, face: nat) -> int
    decreases face,
{
    if face == 0 {
        0
    } else {
        index_after(shifted(face_indices(stride), face_start(stride, (face - 1) as nat)))
    }
}

/// The index buffer of the first `faces` faces of a planet, each face
/// raised by its start.
pub open spec fn stitched(stride: int, faces: nat) -> Seq<u32>
    decreases faces,
{
    if faces == 0 {
        Seq::empty()
    } else {
        stitched(stride, (faces - 1) as nat) + shifted(
            face_indices(stride),
            face_start(stride, (faces - 1) as nat),
        )
    }
}

/// The triangle list of a planet whose faces have `stride` by `stride`
/// vertices.
pub open spec fn planet_indices(stride: int) -> Seq<u32> {
    stitched(stride, FACES as nat)
}

/// Every index of a face addresses one of its vertices, and a face with at
/// least one quad addresses its last vertex.
pub proof fn lemma_face_indices(stride: int)
    requires
        1 <= stride,
        stride * stride <= u32::MAX,
    ensures
        indices_in_bounds(face_indices(stride), stride * stride),
        stride >= 2 ==> face_indices(stride).len() >= 6 && face_indices(stride)[face_indices(
            stride,
        ).len() - 5] == stride * stride - 1,
        stride == 1 ==> face_indices(stride).len() == 0,
{
    let d = stride - 1;
    let quads = d * d;
    assert(0 <= quads) by (nonlinear_arith)
        requires
            quads == d * d,
    ;
    assert forall|k: int| 0 <= k < face_indices(stride).len() implies (#[trigger] face_indices(
        stride,
    )[k]) < stride * stride by {
        lemma_quad_in_grid(stride, stride, k / 6);
    }
    if stride >= 2 {
        assert(quads >= 1) by (nonlinear_arith)
            requires
                quads == d * d,
                d >= 1,
        ;
        let last = quads - 1;
        assert(last == (d - 1) * d + (d - 1)) by (nonlinear_arith)
            requires
                last == d * d - 1,
        ;
        lemma_quad_origin(stride, d - 1, d - 1);
        let k = 6 * quads - 5;
        assert(k / 6 == last);
        assert(k % 6 == 1);
        assert((d - 1) * stride + (d - 1) + stride + 1 == stride * stride - 1) by (nonlinear_arith)
            requires
                d == stride - 1,
        ;
        assert(face_indices(stride)[k] == stride * stride - 1);
    } else {
        assert(quads == 0) by (nonlinear_arith)
            requires
                quads == d * d,
                d == 0,
        ;
    }
}

/// The face after a face that starts at `start` starts `stride * stride`
/// later, one vertex for each of the face before it, provided that face has
/// a quad. After a face of a single vertex the next start is one.
pub proof fn lemma_index_after_face(stride: int, start: int)
    requires
        1 <= stride,
        0 <= start,
        start + stride * stride <= u32::MAX,
    ensures
        stride >= 2 ==> index_after(shifted(face_indices(stride), start)) == start + stride
            * stride,
        stride == 1 ==> index_after(shifted(face_indices(stride), start)) == 1,
        indices_in_bounds(shifted(face_indices(stride), start), start + stride * stride),
{
    assert(0 <= stride * stride) by (nonlinear_arith);
    lemma_face_indices(stride);
    let face = face_indices(stride);
    let raised = shifted(face, start);
    assert forall|k: int| 0 <= k < raised.len() implies (#[trigger] raised[k]) < start + stride
        * stride by {
        assert(face[k] < stride * stride);
    }
    if stride >= 2 {
        let at = face.len() - 5;
        assert(raised[at] == start + stride * stride - 1);
        lemma_max_index_is(raised, start + stride * stride - 1, at);
    } else {
        lemma_max_index_bounds(raised);
    }
}

/// With faces of at least one quad, every face starts where the vertices of
/// the faces before it end.
pub proof fn lemma_face_start(stride: int, face: nat)
    requires
        2 <= stride,
        face * (stride * stride) <= u32::MAX,
    ensures
        face_start(stride, face) == face * (stride * stride),
    decreases face,
{
    if face > 0 {
        let area = stride * stride;
        assert(0 <= area) by (nonlinear_arith)
            requires
                area == stride * stride,
        ;
        assert((face - 1) * area + area == face * area) by (nonlinear_arith);
        assert(0 <= (face - 1) * area) by (nonlinear_arith)
            requires
                0 <= area,
                face >= 1,
        ;
        lemma_face_start(stride, (face - 1) as nat);
        lemma_index_after_face(stride, (face - 1) * area);
        assert(face_start(stride, face) == index_after(
            shifted(face_indices(stride), face_start(stride, (face - 1) as nat)),
        ));
    } else {
        assert(face * (stride * stride) == 0) by (nonlinear_arith)
            requires
                face == 0,
        ;
    }
}

/// Whether `mesh` holds the vertices of the first `faces` faces of a
/// planet, face by face and within a face line by line.
pub open spec fn is_planet<S, W: Fn(Direction, u32, u32) -> VertexData<S>>(
    vertex: &W,
    stride: int,
    faces: int,
    mesh: MeshData<S>,
) -> bool {
    &&& mesh.vertex_count() == faces * (stride * stride)
    &&& forall|k: int|
        0 <= k < mesh.vertex_count() ==> vertex.ensures(
            (
                face_direction(k / (stride * stride)),
                (k % (stride * stride) % stride) as u32,
                (k % (stride * stride) / stride) as u32,
            ),
            #[trigger] mesh.vertex(k),
        )
}

/// Every index of the first `faces` faces addresses a vertex of those faces;
/// if the faces have a quad, the last vertex is addressed.
pub proof fn lemma_stitched(stride: int, faces: nat)
    requires
        1 <= stride,
        faces * (stride * stride) <= u32::MAX,
    ensures
        indices_in_bounds(stitched(stride, faces), faces * (stride * stride)),
        stitched(stride, faces).len() == faces * face_indices(stride).len(),
        stride >= 2 && faces >= 1 ==> stitched(stride, faces).len() >= 6 && stitched(
            stride,
            faces,
        )[stitched(stride, faces).len() - 5] == faces * (stride * stride) - 1,
    decreases faces,
{
    let area = stride * stride;
    assert(1 <= area) by (nonlinear_arith)
        requires
            area == stride * stride,
            1 <= stride,
    ;
    if faces > 0 {
        let before = (faces - 1) as nat;
        assert(before * area + area == faces * area) by (nonlinear_arith)
            requires
                before == faces - 1,
        ;
        assert(0 <= before * area) by (nonlinear_arith)
            requires
                0 <= area,
                0 <= before,
        ;
        assert(before * face_indices(stride).len() + face_indices(stride).len() == faces
            * face_indices(stride).len()) by (nonlinear_arith)
            requires
                before == faces - 1,
        ;
        lemma_stitched(stride, before);
        lemma_face_indices(stride);
        let start = face_start(stride, before);
        let raised = shifted(face_indices(stride), start);
        if stride >= 2 {
            lemma_face_start(stride, before);
            lemma_index_after_face(stride, start);
            assert(raised[raised.len() - 5] == start + area - 1);
        }
        assert forall|k: int| 0 <= k < stitched(stride, faces).len() implies (#[trigger] stitched(
            stride,
            faces,
        )[k]) < faces * area by {
            if k < stitched(stride, before).len() {
                assert(stitched(stride, faces)[k] == stitched(stride, before)[k]);
            } else {
                assert(stitched(stride, faces)[k] == raised[k - stitched(stride, before).len()]);
            }
        }
    } else {
        assert(faces * area == 0 && faces * face_indices(stride).len() == 0) by (nonlinear_arith)
            requires
                faces == 0,
        ;
    }
}

/// The largest index of a planet mesh is that of its last vertex: with six
/// faces of `stride * stride` vertices each, `6 * stride * stride - 1`. A
/// planet whose faces are single vertices has no indices at all.
pub proof fn lemma_planet_max_index(stride: int)
    requires
        1 <= stride,
        6 * (stride * stride) <= u32::MAX,
    ensures
        stride >= 2 ==> max_index(planet_indices(stride)) == 6 * (stride * stride) - 1,
        stride == 1 ==> planet_indices(stride).len() == 0,
        indices_in_bounds(planet_indices(stride), 6 * (stride * stride)),
{
    lemma_stitched(stride, 6);
    lemma_face_indices(stride);
    if stride >= 2 {
        let indices = planet_indices(stride);
        lemma_max_index_is(indices, 6 * (stride * stride) - 1, indices.len() - 5);
    }
}

/// Whether the vertices of the six faces of a planet of `resolution` can be
/// counted, and so indexed, with 32 bits.
pub open spec fn planet_fits(resolution: u32) -> bool {
    6 * ((resolution + 1) * (resolution + 1)) <= u32::MAX
}

/// Tells whether the vertices of a planet can be indexed with 32 bits.
pub fn fits(resolution: u32) -> (fitting: bool)
    ensures
        fitting == planet_fits(resolution),
{
    let stride = resolution as u64 + 1;
    assert(stride * stride <= 0x1_0000_0000 * 0x1_0000_0000) by (nonlinear_arith)
        requires
            stride <= 0x1_0000_0000,
    ;
    let area = (stride as u128) * (stride as u128);
    6 * area <= u32::MAX as u128
}

/// The three axes of a face are unit vectors at right angles to each
/// other.
pub proof fn lemma_face_axes(direction: Direction)
    ensures
        dot(local_up_of(direction), local_up_of(direction)) == 1,
        dot(axis_a_of(direction), axis_a_of(direction)) == 1,
        dot(axis_b_of(direction), axis_b_of(direction)) == 1,
        dot(local_up_of(direction), axis_a_of(direction)) == 0,
        dot(local_up_of(direction), axis_b_of(direction)) == 0,
        dot(axis_a_of(direction), axis_b_of(direction)) == 0,
{
    let up = local_up_of(direction);
    let a = axis_a_of(direction);
    let b = axis_b_of(direction);
    lemma_unit_products();
    assert(a[0] == up[1] && a[1] == up[2] && a[2] == up[0]);
    match direction {
        Direction::Y => {
            assert(up[0] == 0 && up[1] == 1 && up[2] == 0);
            assert(b[0] == 0 && b[1] == 0 && b[2] == -1);
        },
        Direction::NegY => {
            assert(up[0] == 0 && up[1] == -1 && up[2] == 0);
            assert(b[0] == 0 && b[1] == 0 && b[2] == -1);
        },
        Direction::X => {
            assert(up[0] == 1 && up[1] == 0 && up[2] == 0);
            assert(b[0] == 0 && b[1] == -1 && b[2] == 0);
        },
        Direction::NegX => {
            assert(up[0] == -1 && up[1] == 0 && up[2] == 0);
            assert(b[0] == 0 && b[1] == -1 && b[2] == 0);
        },
        Direction::Z => {
            assert(up[0] == 0 && up[1] == 0 && up[2] == 1);
            assert(b[0] == -1 && b[1] == 0 && b[2] == 0);
        },
        Direction::NegZ => {
            assert(up[0] == 0 && up[1] == 0 && up[2] == -1);
            assert(b[0] == -1 && b[1] == 0 && b[2] == 0);
        },
    }
}

/// Builds the mesh of a planet: six faces of `resolution + 1` by
/// `resolution + 1` vertices, in the order of [`face_direction`], stitched
/// into one set of vertex lists and one index buffer.
///
/// `vertex` makes the attributes of each vertex from the direction of its
/// face, its place in the line and its line. The index buffer is the
/// triangle list of the six faces or, with `wireframe`, the line list of its
/// edges; either way every index addresses a vertex.
pub fn build_planet<S, W: Fn(Direction, u32, u32) -> VertexData<S>>(
    resolution: u32,
    wireframe: bool,
    vertex: W,
) -> (mesh: MeshData<S>)
    requires
        planet_fits(resolution),
        forall|direction: Direction, x: u32, y: u32|
            x <= resolution && y <= resolution ==> #[trigger] vertex.requires((direction, x, y)),
    ensures
        is_planet(&vertex, resolution + 1, FACES as int, mesh),
        mesh.indices@ == if wireframe {
            wireframe_of(planet_indices(resolution + 1))
        } else {
            planet_indices(resolution + 1)
        },
        mesh.topology == if wireframe {
            Topology::LineList
        } else {
            Topology::TriangleList
        },
        mesh.wf(),
{
    let ghost stride = resolution + 1;
    let ghost area = stride * stride;
    proof {
        assert(1 <= area) by (nonlinear_arith)
            requires
                area == stride * stride,
                1 <= stride,
        ;
        assert(0 * area == 0) by (nonlinear_arith);
    }
    let mut mesh: MeshData<S> = MeshData::new();
    let mut indices: Vec<u32> = Vec::new();
    let mut index_start: u32 = 0;
    let mut face: usize = 0;
    while face < FACES
        invariant
            stride == resolution + 1,
            area == stride * stride,
            1 <= area,
            6 * area <= u32::MAX,
            face <= FACES,
            forall|direction: Direction, x: u32, y: u32|
                x <= resolution && y <= resolution ==> #[trigger] vertex.requires(
                    (direction, x, y),
                ),
            mesh.parallel(),
            mesh.topology == Topology::TriangleList,
            is_planet(&vertex, stride, face as int, mesh),
            indices@ == stitched(stride, face as nat),
            index_start == face_start(stride, face as nat),
        decreases FACES - face,
    {
        let direction = Direction::of_face(face);
        proof {
            assert(face * area + area == (face + 1) * area) by (nonlinear_arith);
            assert(0 <= face * area && (face + 1) * area <= 6 * area) by (nonlinear_arith)
                requires
                    0 <= face < 6,
                    1 <= area,
            ;
            lemma_face_indices(stride);
            if stride >= 2 {
                lemma_face_start(stride, face as nat);
            }
        }
        let mut mesh_data = generate_face(resolution, direction, &vertex);
        let ghost placed = mesh;
        let ghost added = mesh_data;
        mesh.append_vertices(&mut mesh_data);
        proof {
            assert forall|k: int| 0 <= k < mesh.vertex_count() implies vertex.ensures(
                (
                    face_direction(k / area),
                    (k % area % stride) as u32,
                    (k % area / stride) as u32,
                ),
                #[trigger] mesh.vertex(k),
            ) by {
                if k < placed.vertex_count() {
                    assert(mesh.vertex(k) == placed.vertex(k));
                } else {
                    let l = k - face * area;
                    lemma_fundamental_div_mod_converse(k, area, face as int, l);
                    assert(mesh.vertex(placed.vertex_count() + l) == added.vertex(l));
                }
            }
        }
        index_start = append_face(&mut indices, &mesh_data.indices, index_start);
        face += 1;
    }
    proof {
        lemma_stitched(stride, FACES as nat);
        let quads = (stride - 1) * (stride - 1);
        assert(0 <= quads) by (nonlinear_arith)
            requires
                quads == (stride - 1) * (stride - 1),
        ;
        assert(indices@.len() == 6 * (6 * quads));
    }
    let ghost placed = mesh;
    mesh.connect(indices, wireframe);
    proof {
        assert forall|k: int| 0 <= k < mesh.vertex_count() implies #[trigger] mesh.vertex(k)
            == placed.vertex(k) by {}
    }
    mesh
}

/// A generated planet.
pub struct GeneratedPlanet<S> {
    /// The mesh of the planet.
    pub mesh: MeshData<S>,
    /// The vertices of the mesh listed for export, if an export was pending.
    pub model: Option<Vec<Vertex<S>>>,
}

/// Generates a planet: builds its mesh and, if an export is pending, lists
/// the vertices of the mesh for it: positions, indices and colours, not
/// normals or texture coordinates. A pending export is taken: none is
/// pending afterwards.
pub fn generate_planet<S: Copy, W: Fn(Direction, u32, u32) -> VertexData<S>>(
    resolution: u32,
    wireframe: bool,
    export: &mut bool,
    vertex: W,
) -> (planet: GeneratedPlanet<S>)
    requires
        planet_fits(resolution),
        forall|direction: Direction, x: u32, y: u32|
            x <= resolution && y <= resolution ==> #[trigger] vertex.requires((direction, x, y)),
    ensures
        !*final(export),
        is_planet(&vertex, resolution + 1, FACES as int, planet.mesh),
        planet.mesh.indices@ == if wireframe {
            wireframe_of(planet_indices(resolution + 1))
        } else {
            planet_indices(resolution + 1)
        },
        planet.mesh.topology == if wireframe {
            Topology::LineList
        } else {
            Topology::TriangleList
        },
        planet.mesh.wf(),
        planet.model is Some == *old(export),
        planet.model matches Some(vertices) ==> is_model(
            vertices@,
            planet.mesh.positions@,
            planet.mesh.indices@,
            planet.mesh.colors@,
        ),
{
    let mesh = build_planet(resolution, wireframe, vertex);
    let model = export_mesh(&mesh, export);
    GeneratedPlanet { mesh, model }
}

} // verus!
