//! Flat terrain: a grid of vertices over a height field, covered by triangles.

use crate::mesh::{
    indices_in_bounds, lemma_quad_in_grid, lemma_quad_origin, lemma_vertex_in_grid, quad_origin,
    wireframe_of, MeshData, Topology, VertexData,
};
use crate::noise::{centred, generate_noise_vector, is_noise_vector, on_axis};
use crate::util::gltf::Vertex;
use crate::util::{export_mesh, is_model};
use vstd::arithmetic::div_mod::lemma_fundamental_div_mod_converse;
use vstd::prelude::*;

verus! {

/// Offset from a quad's first vertex to corner `corner` of the two triangles
/// that cover a terrain quad: the first triangle runs along the line and
/// then to the next line, the second closes the square.
pub open spec fn terrain_corner(stride: int, corner: int) -> int {
    if corner == 0 {
        0
    } else if corner == 1 {
        1
    } else if corner == 2 {
        stride
    } else if corner == 3 {
        stride
    } else if corner == 4 {
        1
    } else {
        stride + 1
    }
}

/// The triangle list of a terrain grid of `rows` lines of `cols` vertices.
pub open spec fn terrain_indices(rows: int, cols: int) -> Seq<u32> {
    Seq::new(
        (6 * ((rows - 1) * (cols - 1))) as nat,
        |k: int| (quad_origin(cols, k / 6) + terrain_corner(cols, k % 6)) as u32,
    )
}

/// Builds the triangle list of a grid of `rows` lines of `cols` vertices.
pub fn triangulate_grid(rows: u32, cols: u32) -> (indices: Vec<u32>)
    requires
        1 <= rows,
        1 <= cols,
        rows * cols <= u32::MAX,
    ensures
        indices@ == terrain_indices(rows as int, cols as int),
        indices_in_bounds(indices@, rows * cols),
{
    let mut indices: Vec<u32> = Vec::new();
    let mut i: u32 = 0;
    while i < rows - 1
        invariant
            1 <= rows,
            1 <= cols,
            rows * cols <= u32::MAX,
            i <= rows - 1,
            indices@.len() == 6 * (i * (cols - 1)),
            forall|k: int|
                0 <= k < indices@.len() ==> #[trigger] indices@[k] == terrain_indices(
                    rows as int,
                    cols as int,
                )[k],
            indices_in_bounds(indices@, rows * cols),
        decreases rows - 1 - i,
    {
        let mut j: u32 = 0;
        while j < cols - 1
            invariant
                1 <= rows,
                1 <= cols,
                rows * cols <= u32::MAX,
                i < rows - 1,
                j <= cols - 1,
                indices@.len() == 6 * (i * (cols - 1) + j),
                forall|k: int|
                    0 <= k < indices@.len() ==> #[trigger] indices@[k] == terrain_indices(
                        rows as int,
                        cols as int,
                    )[k],
                indices_in_bounds(indices@, rows * cols),
            decreases cols - 1 - j,
        {
            proof {
                lemma_vertex_in_grid(rows as int, cols as int, i as int, j as int);
                lemma_vertex_in_grid(rows as int, cols as int, i + 1, j + 1);
                lemma_vertex_in_grid(rows as int - 1, cols as int - 1, i as int, j as int);
                lemma_quad_origin(cols as int, i as int, j as int);
                assert((i + 1) * cols == i * cols + cols) by (nonlinear_arith);
                assert(6 * ((rows - 1) * (cols - 1)) == 6 * (rows - 1) * (cols - 1))
                    by (nonlinear_arith);
            }
            let current = i * cols + j;
            let next_row = (i + 1) * cols + j;
            let ghost before = indices@;
            let ghost quad = i * (cols - 1) + j;

            // Triangle 1
            indices.push(current);
            indices.push(current + 1);
            indices.push(next_row);

            // Triangle 2
            indices.push(next_row);
            indices.push(current + 1);
            indices.push(next_row + 1);

            proof {
                assert forall|k: int| 0 <= k < indices@.len() implies #[trigger] indices@[k]
                    == terrain_indices(rows as int, cols as int)[k] by {
                    if k >= before.len() {
                        assert(k / 6 == quad);
                        assert(k % 6 == k - 6 * quad);
                    } else {
                        assert(indices@[k] == before[k]);
                    }
                }
                assert(i * (cols - 1) + (j + 1) == quad + 1);
            }
            j += 1;
        }
        proof {
            assert((i + 1) * (cols - 1) == i * (cols - 1) + (cols - 1)) by (nonlinear_arith);
        }
        i += 1;
    }
    indices
}

/// Number of vertices along one axis of a terrain of `extent` cells, each
/// divided into `resolution` steps.
pub open spec fn axis_vertices(extent: u32, resolution: u32) -> int {
    extent * resolution + 1
}

/// Whether `mesh` holds one vertex per grid point, line by line, each made
/// by `vertex` from the point's line, its place in the line and the height
/// sampled there.
pub open spec fn is_terrain_vertices<T, S, W: Fn(u32, u32, &T) -> VertexData<S>>(
    vertex: W,
    noise_values: Seq<Vec<T>>,
    rows: int,
    cols: int,
    mesh: MeshData<S>,
) -> bool {
    &&& mesh.vertex_count() == rows * cols
    &&& forall|k: int|
        0 <= k < mesh.vertex_count() ==> vertex.ensures(
            ((k / cols) as u32, (k % cols) as u32, &noise_values[k / cols][k % cols]),
            #[trigger] mesh.vertex(k),
        )
}

/// Index validity: the triangle list of a terrain of `size` cells at
/// `resolution` steps per cell holds two triangles for every step square,
/// and every index in it addresses one of the vertices of the grid.
pub proof fn lemma_terrain_index_validity(size: [u32; 2], resolution: u32)
    requires
        axis_vertices(size[0], resolution) * axis_vertices(size[1], resolution) <= u32::MAX,
    ensures
        terrain_indices(
            axis_vertices(size[0], resolution),
            axis_vertices(size[1], resolution),
        ).len() == 3 * (size[0] * resolution * (size[1] * resolution) * 2),
        indices_in_bounds(
            terrain_indices(axis_vertices(size[0], resolution), axis_vertices(size[1], resolution)),
            axis_vertices(size[0], resolution) * axis_vertices(size[1], resolution),
        ),
{
    let rows = axis_vertices(size[0], resolution);
    let cols = axis_vertices(size[1], resolution);
    let a = rows - 1;
    let b = cols - 1;
    assert(a == size[0] * resolution && b == size[1] * resolution);
    assert(0 <= a && 0 <= b) by (nonlinear_arith)
        requires
            a == size[0] * resolution,
            b == size[1] * resolution,
    ;
    assert(0 <= a * b && 6 * (a * b) == 3 * (a * b * 2)) by (nonlinear_arith)
        requires
            0 <= a,
            0 <= b,
    ;
    assert forall|k: int| 0 <= k < terrain_indices(rows, cols).len() implies (
    #[trigger] terrain_indices(rows, cols)[k]) < rows * cols by {
        lemma_quad_in_grid(rows, cols, k / 6);
    }
}

/// Whether the vertices of a terrain of `size` cells at `resolution` steps per
/// cell can be counted, and so indexed, with 32 bits.
pub open spec fn terrain_fits(size: [u32; 2], resolution: u32) -> bool {
    axis_vertices(size[0], resolution) * axis_vertices(size[1], resolution) <= u32::MAX
}

/// Tells whether the vertices of a terrain can be indexed with 32 bits.
pub fn fits(size: [u32; 2], resolution: u32) -> (fitting: bool)
    ensures
        fitting == terrain_fits(size, resolution),
{
    let step = resolution as u128;
    let width = size[0] as u128;
    let depth = size[1] as u128;
    assert(width * step <= 0xFFFF_FFFF * 0xFFFF_FFFF && depth * step <= 0xFFFF_FFFF * 0xFFFF_FFFF)
        by (nonlinear_arith)
        requires
            width <= 0xFFFF_FFFF,
            depth <= 0xFFFF_FFFF,
            step <= 0xFFFF_FFFF,
    ;
    let rows = width * step + 1;
    let cols = depth * step + 1;
    assert(rows * cols <= 0xFFFF_FFFF_0000_0000 * 0xFFFF_FFFF_0000_0000) by (nonlinear_arith)
        requires
            rows <= 0xFFFF_FFFF_0000_0000,
            cols <= 0xFFFF_FFFF_0000_0000,
    ;
    rows * cols <= u32::MAX as u128
}

/// Size of the height field that a terrain of `size` cells needs at
/// `resolution` steps per cell.
pub fn noise_size(size: [u32; 2], resolution: u32) -> (scaled: [u32; 2])
    requires
        size[0] * resolution <= u32::MAX,
        size[1] * resolution <= u32::MAX,
    ensures
        scaled[0] == size[0] * resolution,
        scaled[1] == size[1] * resolution,
{
    [size[0] * resolution, size[1] * resolution]
}

/// Makes the vertices of a grid of `rows` lines of `cols` vertices, line by
/// line.
fn place_vertices<T, S, W: Fn(u32, u32, &T) -> VertexData<S>>(
    noise_values: &Vec<Vec<T>>,
    rows: u32,
    cols: u32,
    vertex: &W,
) -> (mesh: MeshData<S>)
    requires
        1 <= cols,
        rows * cols <= u32::MAX,
        noise_values@.len() >= rows,
        forall|i: int| 0 <= i < rows ==> (#[trigger] noise_values@[i]).len() >= cols,
        forall|row: u32, col: u32|
            row < rows && col < cols ==> #[trigger] vertex.requires(
                (row, col, &noise_values@[row as int][col as int]),
            ),
    ensures
        mesh.parallel(),
        is_terrain_vertices(*vertex, noise_values@, rows as int, cols as int, mesh),
{
    let mut mesh: MeshData<S> = MeshData::new();
    let mut row: u32 = 0;
    while row < rows
        invariant
            1 <= cols,
            rows * cols <= u32::MAX,
            row <= rows,
            noise_values@.len() >= rows,
            forall|i: int| 0 <= i < rows ==> (#[trigger] noise_values@[i]).len() >= cols,
            forall|row: u32, col: u32|
                row < rows && col < cols ==> #[trigger] vertex.requires(
                    (row, col, &noise_values@[row as int][col as int]),
                ),
            mesh.parallel(),
            is_terrain_vertices(*vertex, noise_values@, row as int, cols as int, mesh),
        decreases rows - row,
    {
        let mut col: u32 = 0;
        while col < cols
            invariant
                1 <= cols,
                row < rows,
                col <= cols,
                noise_values@.len() >= rows,
                forall|i: int| 0 <= i < rows ==> (#[trigger] noise_values@[i]).len() >= cols,
                forall|row: u32, col: u32|
                    row < rows && col < cols ==> #[trigger] vertex.requires(
                        (row, col, &noise_values@[row as int][col as int]),
                    ),
                mesh.parallel(),
                mesh.vertex_count() == row * cols + col,
                forall|k: int|
                    0 <= k < mesh.vertex_count() ==> vertex.ensures(
                        (
                            (k / cols as int) as u32,
                            (k % cols as int) as u32,
                            &noise_values@[k / cols as int][k % cols as int],
                        ),
                        #[trigger] mesh.vertex(k),
                    ),
            decreases cols - col,
        {
            let ghost before = mesh;
            let attributes = vertex(row, col, &noise_values[row as usize][col as usize]);
            mesh.push_vertex(attributes);
            proof {
                lemma_fundamental_div_mod_converse(
                    row * cols + col,
                    cols as int,
                    row as int,
                    col as int,
                );
                assert forall|k: int| 0 <= k < mesh.vertex_count() implies vertex.ensures(
                    (
                        (k / cols as int) as u32,
                        (k % cols as int) as u32,
                        &noise_values@[k / cols as int][k % cols as int],
                    ),
                    #[trigger] mesh.vertex(k),
                ) by {
                    if k < before.vertex_count() {
                        assert(mesh.vertex(k) == before.vertex(k));
                    }
                }
            }
            col += 1;
        }
        proof {
            assert((row + 1) * cols == row * cols + cols) by (nonlinear_arith);
        }
        row += 1;
    }
    mesh
}

/// Builds the mesh of a flat terrain over a height field.
///
/// The grid has `size[0] * resolution + 1` lines of `size[1] * resolution + 1`
/// vertices, and `noise_values` must cover it. `vertex` makes the attributes
/// of each grid point from its line, its place and its height. The index
/// buffer is the triangle list of the grid or, with `wireframe`, the line
/// list of its edges; either way every index addresses a vertex.
pub fn build_terrain<T, S, W: Fn(u32, u32, &T) -> VertexData<S>>(
    noise_values: &Vec<Vec<T>>,
    size: [u32; 2],
    resolution: u32,
    wireframe: bool,
    vertex: W,
) -> (mesh: MeshData<S>)
    requires
        terrain_fits(size, resolution),
        noise_values@.len() >= axis_vertices(size[0], resolution),
        forall|i: int|
            0 <= i < axis_vertices(size[0], resolution) ==> (#[trigger] noise_values@[i]).len()
                >= axis_vertices(size[1], resolution),
        forall|row: u32, col: u32|
            row < axis_vertices(size[0], resolution) && col < axis_vertices(size[1], resolution)
                ==> #[trigger] vertex.requires((row, col, &noise_values@[row as int][col as int])),
    ensures
        is_terrain_vertices(
            vertex,
            noise_values@,
            axis_vertices(size[0], resolution),
            axis_vertices(size[1], resolution),
            mesh,
        ),
        mesh.indices@ == if wireframe {
            wireframe_of(
                terrain_indices(
                    axis_vertices(size[0], resolution),
                    axis_vertices(size[1], resolution),
                ),
            )
        } else {
            terrain_indices(axis_vertices(size[0], resolution), axis_vertices(size[1], resolution))
        },
        mesh.topology == if wireframe {
            Topology::LineList
        } else {
            Topology::TriangleList
        },
        mesh.wf(),
{
    proof {
        let a = size[0] * resolution;
        let b = size[1] * resolution;
        assert(a + 1 <= u32::MAX && b + 1 <= u32::MAX) by (nonlinear_arith)
            requires
                0 <= a,
                0 <= b,
                (a + 1) * (b + 1) <= u32::MAX,
        ;
    }
    let rows = size[0] * resolution + 1;
    let cols = size[1] * resolution + 1;
    let mut mesh = place_vertices(noise_values, rows, cols, &vertex);
    let ghost placed = mesh;
    let triangles = triangulate_grid(rows, cols);
    proof {
        let quads = (rows - 1) * (cols - 1);
        assert(0 <= quads) by (nonlinear_arith)
            requires
                quads == (rows - 1) * (cols - 1),
                1 <= rows,
                1 <= cols,
        ;
        assert(triangles@.len() == 6 * quads);
    }
    mesh.connect(triangles, wireframe);
    proof {
        assert forall|k: int| 0 <= k < mesh.vertex_count() implies #[trigger] mesh.vertex(k)
            == placed.vertex(k) by {}
    }
    mesh
}

/// A generated terrain.
pub struct GeneratedTerrain<T, S> {
    /// The height field under the terrain.
    pub noise_values: Vec<Vec<T>>,
    /// The mesh of the terrain.
    pub mesh: MeshData<S>,
    /// The vertices of the mesh listed for export, if an export was pending.
    pub model: Option<Vec<Vertex<S>>>,
}

/// Generates a terrain of `size` cells at `resolution` steps per cell.
///
/// The noise is sampled at the size of the terrain scaled by the
/// resolution, which is recorded in `noise_size`; the mesh is built over
/// the samples; and if an export is pending, the vertices of the mesh are
/// listed for it: positions, indices and colours, not normals or texture
/// coordinates. A pending export is taken: none is pending afterwards.
pub fn generate_terrain<T, S: Copy, N: Fn(i64, i64) -> T, W: Fn(u32, u32, &T) -> VertexData<S>>(
    size: [u32; 2],
    resolution: u32,
    wireframe: bool,
    export: &mut bool,
    noise_size: &mut [u32; 2],
    noise: N,
    vertex: W,
) -> (terrain: GeneratedTerrain<T, S>)
    requires
        terrain_fits(size, resolution),
        forall|x: i64, y: i64|
            on_axis(x as int, size[0] * resolution) && on_axis(y as int, size[1] * resolution)
                ==> #[trigger] noise.requires((x, y)),
        forall|row: u32, col: u32, height: T|
            row < axis_vertices(size[0], resolution) && col < axis_vertices(size[1], resolution)
                && noise.ensures(
                (
                    centred(row as int, size[0] * resolution) as i64,
                    centred(col as int, size[1] * resolution) as i64,
                ),
                height,
            ) ==> #[trigger] vertex.requires((row, col, &height)),
    ensures
        !*final(export),
        final(noise_size)[0] == size[0] * resolution,
        final(noise_size)[1] == size[1] * resolution,
        is_noise_vector(noise, *final(noise_size), terrain.noise_values@),
        is_terrain_vertices(
            vertex,
            terrain.noise_values@,
            axis_vertices(size[0], resolution),
            axis_vertices(size[1], resolution),
            terrain.mesh,
        ),
        terrain.mesh.indices@ == if wireframe {
            wireframe_of(
                terrain_indices(
                    axis_vertices(size[0], resolution),
                    axis_vertices(size[1], resolution),
                ),
            )
        } else {
            terrain_indices(axis_vertices(size[0], resolution), axis_vertices(size[1], resolution))
        },
        terrain.mesh.topology == if wireframe {
            Topology::LineList
        } else {
            Topology::TriangleList
        },
        terrain.mesh.wf(),
        terrain.model is Some == *old(export),
        terrain.model matches Some(vertices) ==> is_model(
            vertices@,
            terrain.mesh.positions@,
            terrain.mesh.indices@,
            terrain.mesh.colors@,
        ),
{
    proof {
        let a = size[0] * resolution;
        let b = size[1] * resolution;
        assert(a + 1 <= u32::MAX && b + 1 <= u32::MAX) by (nonlinear_arith)
            requires
                0 <= a,
                0 <= b,
                (a + 1) * (b + 1) <= u32::MAX,
        ;
    }
    let scaled = self::noise_size(size, resolution);
    *noise_size = scaled;
    let noise_values = generate_noise_vector(noise, scaled);
    let mesh = build_terrain(&noise_values, size, resolution, wireframe, vertex);
    let model = export_mesh(&mesh, export);
    GeneratedTerrain { noise_values, mesh, model }
}

} // verus!
