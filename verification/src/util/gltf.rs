//! Layout and framing of exported glTF models.
//!
//! A model is exported as one interleaved vertex buffer: each vertex is a
//! position of three 32-bit components followed by a colour of three. The
//! JSON document that describes the buffer is serialized by the caller from
//! a [`Document`]; this module makes that document and frames its
//! serialization and the buffer for either output format.

use crate::util::ExportError;
use std::borrow::Cow;
use vstd::pervasive::unreached;
use vstd::prelude::*;

verus! {

/// Format of an exported model.
#[derive(Clone, Copy, Debug, PartialEq, Eq, Hash, Structural)]
pub enum Output {
    /// Output standard glTF.
    Standard,
    /// Output binary glTF.
    Binary,
}

/// A vertex of an exported model: a position and a colour of three
/// components each. The components are of any one type; in the exported
/// buffer each is four bytes.
#[derive(Copy, Clone, Debug, PartialEq)]
pub struct Vertex<C> {
    /// Position in space.
    pub position: [C; 3],
    /// Red, green and blue.
    pub color: [C; 3],
}

/// Bytes taken by one component of a vertex.
pub const COMPONENT_SIZE: usize = 4;

/// Bytes taken by one vertex: a position and a colour of three components each.
pub const VERTEX_SIZE: usize = 24;

/// The least multiple of four that is not below `n`.
pub open spec fn round_up_to_four(n: int) -> int {
    if n % 4 == 0 {
        n
    } else {
        n + 4 - n % 4
    }
}

/// Rounds `n` up to the next multiple of four.
pub fn align_to_multiple_of_four(n: &mut usize)
    requires
        *old(n) + 3 <= usize::MAX,
    ensures
        *final(n) == round_up_to_four(*old(n) as int),
{
    let shifted: usize = *n + 3;
    assert(shifted & !3usize == round_up_to_four(shifted - 3)) by (bit_vector)
        requires
            shifted >= 3,
    ;
    *n = shifted & !3;
}

/// `count` copies of `fill`.
pub open spec fn filler(count: int, fill: u8) -> Seq<u8> {
    Seq::new(count as nat, |i: int| fill)
}

/// `bytes` followed by as many copies of `fill` as bring its length to a
/// multiple of four.
pub open spec fn padded(bytes: Seq<u8>, fill: u8) -> Seq<u8> {
    bytes + filler(round_up_to_four(bytes.len() as int) - bytes.len(), fill)
}

/// Pads a buffer with zero bytes to a multiple of four bytes.
pub fn to_padded_byte_vector(vec: Vec<u8>) -> (new_vec: Vec<u8>)
    ensures
        new_vec@ == padded(vec@, 0),
{
    let ghost unpadded = vec@;
    let mut new_vec = vec;
    while new_vec.len() % 4 != 0
        invariant
            unpadded.len() <= new_vec@.len() <= round_up_to_four(unpadded.len() as int),
            new_vec@ == unpadded + filler(new_vec@.len() - unpadded.len(), 0),
        decreases round_up_to_four(unpadded.len() as int) - new_vec@.len(),
    {
        new_vec.push(0);
    }
    new_vec
}

/// The bytes of one vertex in the exported buffer: the components of its
/// position, then those of its colour.
pub open spec fn vertex_bytes(vertex: Vertex<[u8; 4]>) -> Seq<u8> {
    vertex.position[0]@ + vertex.position[1]@ + vertex.position[2]@ + vertex.color[0]@
        + vertex.color[1]@ + vertex.color[2]@
}

/// The exported buffer of a list of vertices: their bytes, one vertex after
/// the other.
pub open spec fn interleaved(vertices: Seq<Vertex<[u8; 4]>>) -> Seq<u8>
    decreases vertices.len(),
{
    if vertices.len() == 0 {
        Seq::empty()
    } else {
        interleaved(vertices.drop_last()) + vertex_bytes(vertices.last())
    }
}

/// The buffer of `n` vertices is `n * VERTEX_SIZE` bytes long.
pub proof fn lemma_interleaved_len(vertices: Seq<Vertex<[u8; 4]>>)
    ensures
        interleaved(vertices).len() == vertices.len() * VERTEX_SIZE,
    decreases vertices.len(),
{
    if vertices.len() > 0 {
        lemma_interleaved_len(vertices.drop_last());
    }
}

/// Byte `b` of component `c` of vertex `v` stands at `v * VERTEX_SIZE + c *
/// COMPONENT_SIZE + b` in the buffer, the components of the position being
/// numbered 0 to 2 and those of the colour 3 to 5. So the stride of the
/// buffer is `VERTEX_SIZE`, positions start at offset zero and colours at
/// offset `3 * COMPONENT_SIZE`.
pub proof fn lemma_interleaved_at(vertices: Seq<Vertex<[u8; 4]>>, v: int, c: int, b: int)
    requires
        0 <= v < vertices.len(),
        0 <= c < 6,
        0 <= b < 4,
    ensures
        v * VERTEX_SIZE + c * COMPONENT_SIZE + b < interleaved(vertices).len(),
        interleaved(vertices)[v * VERTEX_SIZE + c * COMPONENT_SIZE + b] == if c < 3 {
            vertices[v].position[c][b]
        } else {
            vertices[v].color[c - 3][b]
        },
    decreases vertices.len(),
{
    lemma_interleaved_len(vertices);
    lemma_interleaved_len(vertices.drop_last());
    if v < vertices.len() - 1 {
        lemma_interleaved_at(vertices.drop_last(), v, c, b);
    }
}

/// Lays the vertices out in one buffer, one after the other, each as the
/// bytes of its position followed by the bytes of its colour.
pub fn vertex_buffer(vertices: &Vec<Vertex<[u8; 4]>>) -> (buffer: Vec<u8>)
    ensures
        buffer@ == interleaved(vertices@),
{
    let mut buffer: Vec<u8> = Vec::new();
    let mut k: usize = 0;
    while k < vertices.len()
        invariant
            k <= vertices@.len(),
            buffer@ == interleaved(vertices@.subrange(0, k as int)),
        decreases vertices@.len() - k,
    {
        let vertex = vertices[k];
        let ghost before = buffer@;
        let mut c: usize = 0;
        while c < 3
            invariant
                c <= 3,
                buffer@ == before + if c == 0 {
                    Seq::<u8>::empty()
                } else if c == 1 {
                    vertex.position[0]@
                } else if c == 2 {
                    vertex.position[0]@ + vertex.position[1]@
                } else {
                    vertex.position[0]@ + vertex.position[1]@ + vertex.position[2]@
                },
            decreases 3 - c,
        {
            let component = vertex.position[c];
            buffer.push(component[0]);
            buffer.push(component[1]);
            buffer.push(component[2]);
            buffer.push(component[3]);
            assert(component@ =~= seq![component[0], component[1], component[2], component[3]]);
            c += 1;
        }
        let ghost positioned = buffer@;
        let mut c: usize = 0;
        while c < 3
            invariant
                c <= 3,
                buffer@ == positioned + if c == 0 {
                    Seq::<u8>::empty()
                } else if c == 1 {
                    vertex.color[0]@
                } else if c == 2 {
                    vertex.color[0]@ + vertex.color[1]@
                } else {
                    vertex.color[0]@ + vertex.color[1]@ + vertex.color[2]@
                },
            decreases 3 - c,
        {
            let component = vertex.color[c];
            buffer.push(component[0]);
            buffer.push(component[1]);
            buffer.push(component[2]);
            buffer.push(component[3]);
            assert(component@ =~= seq![component[0], component[1], component[2], component[3]]);
            c += 1;
        }
        proof {
            let done = vertices@.subrange(0, k + 1);
            assert(done.drop_last() =~= vertices@.subrange(0, k as int));
            assert(done.last() == vertex);
            assert(buffer@ =~= before + vertex_bytes(vertex));
        }
        k += 1;
    }
    assert(vertices@.subrange(0, k as int) == vertices@);
    buffer
}

/// The one buffer of an exported model.
#[derive(Debug, PartialEq, Eq)]
pub struct Buffer {
    /// Length of the buffer in bytes.
    pub byte_length: usize,
    /// Name of the file that holds the buffer; a binary export embeds the
    /// buffer and names none.
    pub uri: Option<String>,
}

/// A view of vertex data onto a buffer.
#[derive(Debug, PartialEq, Eq)]
pub struct BufferView {
    /// Index of the buffer.
    pub buffer: usize,
    /// Length of the view in bytes.
    pub byte_length: usize,
    /// Distance in bytes between the starts of two consecutive vertices.
    pub byte_stride: usize,
}

/// An accessor that reads one vector of three 32-bit components per vertex.
#[derive(Debug, PartialEq)]
pub struct Accessor<C> {
    /// Index of the buffer view.
    pub buffer_view: usize,
    /// Byte offset of the vector inside a vertex.
    pub byte_offset: usize,
    /// Number of vectors.
    pub count: usize,
    /// Least value of each component, where it is stated.
    pub min: Option<[C; 3]>,
    /// Greatest value of each component, where it is stated.
    pub max: Option<[C; 3]>,
}

/// A list of triangles.
#[derive(Debug, PartialEq, Eq)]
pub struct Primitive {
    /// Index of the accessor of the positions.
    pub positions: usize,
    /// Index of the accessor of the first set of colours.
    pub colors: usize,
    /// Index of the accessor of the indices; without one, every three
    /// vertices form a triangle.
    pub indices: Option<usize>,
}

/// What the JSON document of an exported model holds, as plain values.
#[derive(Debug, PartialEq)]
pub struct Document<C> {
    /// The buffers.
    pub buffers: Vec<Buffer>,
    /// The views onto the buffers.
    pub buffer_views: Vec<BufferView>,
    /// The accessors.
    pub accessors: Vec<Accessor<C>>,
    /// The meshes, each a list of primitives.
    pub meshes: Vec<Vec<Primitive>>,
    /// The nodes, each given by the index of its mesh.
    pub nodes: Vec<usize>,
    /// The scenes, each a list of nodes.
    pub scenes: Vec<Vec<usize>>,
}

/// Whether `document` describes a model of `vertex_count` interleaved
/// vertices: one buffer of `VERTEX_SIZE` bytes per vertex, named for a
/// standard export and unnamed for a binary one; one view of the whole
/// buffer with stride `VERTEX_SIZE`; an accessor of the positions at offset
/// zero, with the bounds, and one of the colours behind the three
/// components of the position, without; one mesh of one list of triangles
/// without indices; one node with that mesh; one scene with that node.
pub open spec fn is_model_document<C>(
    document: Document<C>,
    output: Output,
    vertex_count: int,
    min: [C; 3],
    max: [C; 3],
) -> bool {
    &&& document.buffers@.len() == 1
    &&& document.buffers@[0].byte_length == vertex_count * VERTEX_SIZE
    &&& output == Output::Standard ==> (document.buffers@[0].uri matches Some(name) && name@
        == "buffer0.bin"@)
    &&& output == Output::Binary ==> document.buffers@[0].uri is None
    &&& document.buffer_views@.len() == 1
    &&& document.buffer_views@[0].buffer == 0
    &&& document.buffer_views@[0].byte_length == vertex_count * VERTEX_SIZE
    &&& document.buffer_views@[0].byte_stride == VERTEX_SIZE
    &&& document.accessors@.len() == 2
    &&& document.accessors@[0] == (Accessor {
        buffer_view: 0,
        byte_offset: 0,
        count: vertex_count as usize,
        min: Some(min),
        max: Some(max),
    })
    &&& document.accessors@[1] == (Accessor::<C> {
        buffer_view: 0,
        byte_offset: (3 * COMPONENT_SIZE) as usize,
        count: vertex_count as usize,
        min: None,
        max: None,
    })
    &&& document.meshes@.len() == 1
    &&& document.meshes@[0]@ == seq![Primitive { positions: 0, colors: 1, indices: None }]
    &&& document.nodes@ == seq![0usize]
    &&& document.scenes@.len() == 1
    &&& document.scenes@[0]@ == seq![0usize]
}

/// Describes the model of `vertex_count` interleaved vertices whose
/// positions lie between `min` and `max`.
pub fn document<C>(output: Output, vertex_count: usize, min: [C; 3], max: [C; 3]) -> (document:
    Document<C>)
    requires
        vertex_count * VERTEX_SIZE <= usize::MAX,
    ensures
        is_model_document(document, output, vertex_count as int, min, max),
{
    let uri = match output {
        Output::Standard => Some("buffer0.bin".to_owned()),
        Output::Binary => None,
    };
    let byte_length = vertex_count * VERTEX_SIZE;
    let mut buffers: Vec<Buffer> = Vec::new();
    buffers.push(Buffer { byte_length, uri });
    let mut buffer_views: Vec<BufferView> = Vec::new();
    buffer_views.push(BufferView { buffer: 0, byte_length, byte_stride: VERTEX_SIZE });
    let mut accessors: Vec<Accessor<C>> = Vec::new();
    accessors.push(
        Accessor {
            buffer_view: 0,
            byte_offset: 0,
            count: vertex_count,
            min: Some(min),
            max: Some(max),
        },
    );
    accessors.push(
        Accessor {
            buffer_view: 0,
            byte_offset: 3 * COMPONENT_SIZE,
            count: vertex_count,
            min: None,
            max: None,
        },
    );
    let mut primitives: Vec<Primitive> = Vec::new();
    primitives.push(Primitive { positions: 0, colors: 1, indices: None });
    let mut meshes: Vec<Vec<Primitive>> = Vec::new();
    meshes.push(primitives);
    let mut nodes: Vec<usize> = Vec::new();
    nodes.push(0);
    let mut scene: Vec<usize> = Vec::new();
    scene.push(0);
    let mut scenes: Vec<Vec<usize>> = Vec::new();
    scenes.push(scene);
    Document { buffers, buffer_views, accessors, meshes, nodes, scenes }
}

/// The four bytes of `value` modulo 2^32, least significant first.
pub open spec fn le_u32(value: int) -> Seq<u8> {
    seq![
        (value % 256) as u8,
        (value / 256 % 256) as u8,
        (value / 65536 % 256) as u8,
        (value / 16777216 % 256) as u8,
    ]
}

/// The ASCII letters `glTF`, which open a binary glTF file.
pub open spec fn glb_magic() -> Seq<u8> {
    seq![0x67u8, 0x6Cu8, 0x54u8, 0x46u8]
}

/// The ASCII letters `JSON`, the type of the first chunk.
pub open spec fn json_chunk_type() -> Seq<u8> {
    seq![0x4Au8, 0x53u8, 0x4Fu8, 0x4Eu8]
}

/// The ASCII letters `BIN` and a zero byte, the type of the second chunk.
pub open spec fn bin_chunk_type() -> Seq<u8> {
    seq![0x42u8, 0x49u8, 0x4Eu8, 0x00u8]
}

/// One chunk of a binary glTF file: the padded length, the chunk type, the
/// data, and the padding.
pub open spec fn glb_chunk(chunk_type: Seq<u8>, data: Seq<u8>, fill: u8) -> Seq<u8> {
    le_u32(round_up_to_four(data.len() as int)) + chunk_type + padded(data, fill)
}

/// Length in bytes of a binary glTF file with the given JSON and buffer.
pub open spec fn glb_length(json_len: int, bin_len: int) -> int {
    round_up_to_four(round_up_to_four(20 + json_len) + 8 + bin_len)
}

/// The bytes of a binary glTF file (version 2) that holds a JSON document and
/// one binary buffer: a twelve-byte header, the JSON chunk padded with
/// spaces, and the binary chunk padded with zeros.
pub open spec fn glb_bytes(json: Seq<u8>, bin: Seq<u8>) -> Seq<u8> {
    glb_magic() + le_u32(2) + le_u32(glb_length(json.len() as int, bin.len() as int)) + glb_chunk(
        json_chunk_type(),
        json,
        0x20,
    ) + glb_chunk(bin_chunk_type(), bin, 0)
}

/// The error type of the `gltf` crate, carried through as it comes.
#[verifier::external_type_specification]
#[verifier::external_body]
pub struct ExGltfError(gltf::Error);

/// Calls `gltf::binary::Glb::to_vec` on a container with the given header
/// fields, JSON chunk and binary chunk.
///
/// Trusted: the writer succeeds, since it fails only where a write fails
/// and a vector takes every write, and its output is exactly [`glb_bytes`].
/// The writer ignores the header it is given and derives the length field
/// from the two chunks. Inputs whose file would not fit a vector are left
/// out, since the writer reserves the whole length up front.
#[verifier::external_body]
fn glb_to_vec(magic: [u8; 4], version: u32, length: u32, json: Vec<u8>, bin: Vec<u8>) -> (encoded:
    Result<Vec<u8>, gltf::Error>)
    requires
        glb_length(json@.len() as int, bin@.len() as int) <= isize::MAX,
    ensures
        encoded is Ok,
        encoded matches Ok(bytes) ==> bytes@ == glb_bytes(json@, bin@),
{
    let header = gltf::binary::Header { magic, version, length };
    gltf::binary::Glb { header, json: Cow::Owned(json), bin: Some(Cow::Owned(bin)) }.to_vec()
}

/// The length field of the header of a binary glTF file: the length of the
/// file, modulo 2^32.
pub open spec fn length_field(json_len: int, bin_len: int) -> int {
    glb_length(json_len, bin_len) % 0x1_0000_0000
}

/// Computes the length field of the header of a binary glTF file.
pub fn header_length(json_len: usize, bin_len: usize) -> (length: u32)
    requires
        glb_length(json_len as int, bin_len as int) <= isize::MAX,
    ensures
        length == length_field(json_len as int, bin_len as int),
{
    let mut length = 20 + json_len;
    align_to_multiple_of_four(&mut length);
    length = length + 8 + bin_len;
    align_to_multiple_of_four(&mut length);
    let total: u64 = length as u64;
    (total % 0x1_0000_0000) as u32
}

/// File contents produced by an export.
#[derive(Debug, PartialEq, Eq)]
pub enum Exported {
    /// A JSON document and, beside it, the buffer it refers to by name.
    Standard {
        /// The JSON document, as handed in.
        document: Vec<u8>,
        /// The vertex buffer, padded to a multiple of four bytes.
        buffer: Vec<u8>,
    },
    /// One binary glTF file that embeds document and buffer.
    Binary {
        /// The bytes of the file.
        glb: Vec<u8>,
    },
}

/// Whether an export of this format, of a document of `json_len` bytes and
/// of `vertex_count` vertices, can be framed: a binary file has to fit a
/// vector.
pub open spec fn export_fits(output: Output, json_len: int, vertex_count: int) -> bool {
    output == Output::Binary ==> glb_length(json_len, vertex_count * VERTEX_SIZE) <= isize::MAX
}

/// Tells whether an export can be framed.
pub fn fits(output: Output, json_len: usize, vertex_count: usize) -> (fitting: bool)
    ensures
        fitting == export_fits(output, json_len as int, vertex_count as int),
{
    match output {
        Output::Standard => true,
        Output::Binary => {
            let buffer = (vertex_count as u128) * (VERTEX_SIZE as u128);
            let chunks = 20 + json_len as u128;
            let json_end = if chunks % 4 == 0 {
                chunks
            } else {
                chunks + 4 - chunks % 4
            };
            let total = json_end + 8 + buffer;
            let length = if total % 4 == 0 {
                total
            } else {
                total + 4 - total % 4
            };
            length <= isize::MAX as u128
        },
    }
}

/// Frames a serialized JSON document and the vertices it describes.
///
/// The vertices are laid out in one buffer, padded with zeros to a multiple
/// of four bytes. A standard export hands document and buffer back as the
/// contents of two files. A binary export embeds both in one file, whose
/// header states its length; the file must fit a vector.
pub fn frame(output: Output, json: Vec<u8>, vertices: &Vec<Vertex<[u8; 4]>>) -> (exported: Exported)
    requires
        export_fits(output, json@.len() as int, vertices@.len() as int),
    ensures
        is_framing(exported, output, json@, vertices@),
{
    proof {
        lemma_interleaved_len(vertices@);
    }
    let buffer = vertex_buffer(vertices);
    match output {
        Output::Standard => {
            let buffer = to_padded_byte_vector(buffer);
            Exported::Standard { document: json, buffer }
        },
        Output::Binary => {
            let bin = to_padded_byte_vector(buffer);
            let length = header_length(json.len(), bin.len());
            match glb_to_vec([0x67, 0x6C, 0x54, 0x46], 2, length, json, bin) {
                Ok(glb) => Exported::Binary { glb },
                Err(_) => unreached(),
            }
        },
    }
}

/// Whether `exported` frames a document of the bytes `json` and the given
/// vertices for `output`: for a standard export the document and the padded
/// buffer, for a binary export the one file that embeds both.
pub open spec fn is_framing(
    exported: Exported,
    output: Output,
    json: Seq<u8>,
    vertices: Seq<Vertex<[u8; 4]>>,
) -> bool {
    match output {
        Output::Standard => exported matches Exported::Standard { document, buffer } && document@
            == json && buffer@ == padded(interleaved(vertices), 0),
        Output::Binary => exported matches Exported::Binary { glb } && glb@ == glb_bytes(
            json,
            padded(interleaved(vertices), 0),
        ),
    }
}

/// Whether `result` is the outcome of exporting the given vertices with a
/// document serialized as `json`: the framing of both, or
/// [`ExportError::TooLarge`] where a binary file would not fit a vector.
pub open spec fn is_export(
    result: Result<Exported, ExportError>,
    output: Output,
    json: Seq<u8>,
    vertices: Seq<Vertex<[u8; 4]>>,
) -> bool {
    if export_fits(output, json.len() as int, vertices.len() as int) {
        result matches Ok(exported) && is_framing(exported, output, json, vertices)
    } else {
        result == Err::<Exported, ExportError>(ExportError::TooLarge)
    }
}

/// Exports a model: describes the vertices in a document, has the document
/// serialized, and frames serialization and vertices for `output`.
///
/// `vertices` holds every component as its four bytes; `min` and `max` are
/// the bounds of the positions. The document is the one that
/// [`is_model_document`] describes, and `serialize` turns it into the bytes
/// of its JSON text. An export too large to be held is reported as
/// [`ExportError::TooLarge`].
pub fn export_gltf<C, F: FnOnce(&Document<C>) -> Vec<u8>>(
    output: Output,
    vertices: &Vec<Vertex<[u8; 4]>>,
    min: [C; 3],
    max: [C; 3],
    serialize: F,
) -> (result: Result<Exported, ExportError>)
    requires
        forall|document: Document<C>|
            is_model_document(document, output, vertices@.len() as int, min, max)
                ==> #[trigger] serialize.requires((&document,)),
    ensures
        vertices@.len() * VERTEX_SIZE > usize::MAX ==> result == Err::<Exported, ExportError>(
            ExportError::TooLarge,
        ),
        vertices@.len() * VERTEX_SIZE <= usize::MAX ==> exists|
            document: Document<C>,
            json: Vec<u8>,
        |
            is_model_document(document, output, vertices@.len() as int, min, max)
                && #[trigger] serialize.ensures((&document,), json) && is_export(
                result,
                output,
                json@,
                vertices@,
            ),
{
    if vertices.len() > usize::MAX / VERTEX_SIZE {
        return Err(ExportError::TooLarge);
    }
    let document = document(output, vertices.len(), min, max);
    let json = serialize(&document);
    if fits(output, json.len(), vertices.len()) {
        let ghost json_bytes = json;
        let exported = frame(output, json, vertices);
        assert(is_model_document(document, output, vertices@.len() as int, min, max)
            && serialize.ensures((&document,), json_bytes) && is_export(
            Ok(exported),
            output,
            json_bytes@,
            vertices@,
        ));
        Ok(exported)
    } else {
        assert(is_model_document(document, output, vertices@.len() as int, min, max)
            && serialize.ensures((&document,), json) && is_export(
            Err(ExportError::TooLarge),
            output,
            json@,
            vertices@,
        ));
        Err(ExportError::TooLarge)
    }
}

} // verus!
