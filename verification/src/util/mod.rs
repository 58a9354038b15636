//! Export helpers shared by the generators.

pub mod gltf;

use crate::mesh::{indices_in_bounds, MeshData};
use crate::pixel::{buffer_encode_png, png_encoding, PixelBuffer};
use crate::util::gltf::Vertex;
use vstd::prelude::*;

verus! {

/// Why an export produced no file contents.
#[derive(Clone, Copy, Debug, PartialEq, Eq, Structural)]
pub enum ExportError {
    /// The image has no pixels, so it has no encoding.
    Image,
    /// The file would be larger than a vector can hold.
    TooLarge,
}

/// Takes a pending export request: reports whether one was pending and
/// leaves none pending, so that one request causes one export.
pub fn take_export_request(export: &mut bool) -> (requested: bool)
    ensures
        requested == *old(export),
        !*final(export),
{
    let requested = *export;
    *export = false;
    requested
}

/// What an image export returns for each outcome of the encoder.
pub open spec fn asset_outcome(encoded: Result<Vec<u8>, image::ImageError>) -> Result<
    Vec<u8>,
    ExportError,
> {
    match encoded {
        Ok(bytes) => Ok(bytes),
        Err(_) => Err(ExportError::Image),
    }
}

/// Turns the outcome of the encoder into the outcome of the export.
pub fn encoded_asset(encoded: Result<Vec<u8>, image::ImageError>) -> (result: Result<
    Vec<u8>,
    ExportError,
>)
    ensures
        result == asset_outcome(encoded),
{
    match encoded {
        Ok(bytes) => Ok(bytes),
        Err(_) => Err(ExportError::Image),
    }
}

/// Whether `result` is the outcome of exporting `image`: the PNG encoding
/// of the image if it has pixels, and [`ExportError::Image`] if its width or
/// its height is zero.
pub open spec fn is_asset(result: Result<Vec<u8>, ExportError>, image: PixelBuffer) -> bool {
    &&& result is Ok == (image.spec_width() > 0 && image.spec_height() > 0)
    &&& result matches Ok(bytes) ==> bytes@ == png_encoding(
        image.pixels(),
        image.spec_width(),
        image.spec_height(),
    )
    &&& result matches Err(error) ==> error == ExportError::Image
}

/// Encodes an image as the PNG file to be saved. An image without pixels
/// has no encoding; the export then reports [`ExportError::Image`].
pub fn export_asset(image_buffer: &PixelBuffer) -> (result: Result<Vec<u8>, ExportError>)
    ensures
        is_asset(result, *image_buffer),
{
    encoded_asset(buffer_encode_png(image_buffer))
}

/// Whether `vertices` lists an indexed mesh in the order of its index
/// buffer: for every index the position of the vertex it addresses and the
/// first three components, red, green and blue, of its colour.
pub open spec fn is_model<C>(
    vertices: Seq<Vertex<C>>,
    positions: Seq<[C; 3]>,
    indices: Seq<u32>,
    colors: Seq<[C; 4]>,
) -> bool {
    &&& vertices.len() == indices.len()
    &&& forall|k: int|
        0 <= k < indices.len() ==> (#[trigger] vertices[k]).position == positions[indices[k] as int]
            && vertices[k].color@ == colors[indices[k] as int]@.subrange(0, 3)
}

/// Lists the vertices of an indexed mesh in the order of its index buffer.
pub(crate) fn list_vertices<C: Copy>(
    positions: &[[C; 3]],
    indices: &Vec<u32>,
    colors: &[[C; 4]],
) -> (vertices: Vec<Vertex<C>>)
    requires
        indices_in_bounds(indices@, positions@.len() as int),
        indices_in_bounds(indices@, colors@.len() as int),
    ensures
        is_model(vertices@, positions@, indices@, colors@),
{
    let mut vertices: Vec<Vertex<C>> = Vec::new();
    let mut k: usize = 0;
    while k < indices.len()
        invariant
            indices_in_bounds(indices@, positions@.len() as int),
            indices_in_bounds(indices@, colors@.len() as int),
            k <= indices@.len(),
            vertices@.len() == k,
            forall|j: int|
                0 <= j < k ==> (#[trigger] vertices@[j]).position == positions@[indices@[j] as int]
                    && vertices@[j].color@ == colors@[indices@[j] as int]@.subrange(0, 3),
        decreases indices@.len() - k,
    {
        let i = indices[k] as usize;
        let color: [C; 3] = [colors[i][0], colors[i][1], colors[i][2]];
        assert(color@ =~= colors@[i as int]@.subrange(0, 3));
        vertices.push(Vertex { position: positions[i], color });
        k += 1;
    }
    vertices
}

/// Lists the vertices of an indexed mesh in the order of its index buffer:
/// for every index the position of the vertex it addresses and the first
/// three components of its colour. Normals and texture coordinates are not
/// part of a model. Every index must address a position and a colour.
pub fn export_model<C: Copy>(
    positions: &[[C; 3]],
    indices: Vec<u32>,
    colors: &[[C; 4]],
) -> (vertices: Vec<Vertex<C>>)
    requires
        indices_in_bounds(indices@, positions@.len() as int),
        indices_in_bounds(indices@, colors@.len() as int),
    ensures
        is_model(vertices@, positions@, indices@, colors@),
{
    list_vertices(positions, &indices, colors)
}

/// Lists the vertices of a mesh for export if an export is pending, and
/// takes the request: none is pending afterwards.
pub fn export_mesh<C: Copy>(mesh: &MeshData<C>, export: &mut bool) -> (model: Option<
    Vec<Vertex<C>>,
>)
    requires
        mesh.wf(),
    ensures
        !*final(export),
        model is Some == *old(export),
        model matches Some(vertices) ==> is_model(
            vertices@,
            mesh.positions@,
            mesh.indices@,
            mesh.colors@,
        ),
{
    if take_export_request(export) {
        Some(list_vertices(mesh.positions.as_slice(), &mesh.indices, mesh.colors.as_slice()))
    } else {
        None
    }
}

} // verus!
