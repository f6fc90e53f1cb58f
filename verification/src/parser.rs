//! The chunk decoder: a file is a tree of chunks, each with a four-byte id,
//! the length of its content and the length of its children.

use vstd::prelude::*;
use vstd::slice::slice_to_vec;
use vstd::string::*;
use vstd::utf8::{decode_utf8, encode_utf8, encode_utf8_decode_utf8, valid_utf8};
use crate::bytes::{le_u32, spec_parse_u32, spec_take, take};
use crate::dict::{Dict, Entry};
use crate::dot_vox_data::{DotVoxData, DotVoxDataView};
use crate::error::FormatError;
use crate::material::{parse_material, spec_parse_material, Material, MaterialView};
use crate::model::{
    parse_size, parse_voxels, spec_parse_size, spec_parse_voxels, Model, ModelView, Size, Voxel,
};
use crate::palette::{
    default_palette, extract_palette, spec_default_palette, spec_extract_palette, Color,
};
use crate::scene::{
    parse_layer, parse_scene_group, parse_scene_shape, parse_scene_transform, spec_parse_layer,
    spec_parse_scene_group, spec_parse_scene_shape, spec_parse_scene_transform, Frame, Layer,
    RawLayer, RawLayerView, SceneGroup, SceneGroupView, SceneNode, SceneNodeView, SceneShape,
    SceneShapeView, SceneTransform, SceneTransformView,
};

verus! {

/// A chunk of a file, decoded.
#[derive(Debug, PartialEq)]
pub enum Chunk {
    /// The chunk that holds all others.
    Main(Vec<Chunk>),
    /// The size of a model.
    Size(Size),
    /// The voxels of a model.
    Voxels(Vec<Voxel>),
    /// A palette.
    Palette(Vec<Color>),
    /// A material.
    Material(Material),
    /// A transform node of the scene graph.
    TransformNode(SceneTransform),
    /// A group node of the scene graph.
    GroupNode(SceneGroup),
    /// A shape node of the scene graph.
    ShapeNode(SceneShape),
    /// A layer.
    Layer(RawLayer),
    /// A chunk with an id that is not known; the id.
    Unknown(String),
    /// A chunk with a known id whose content could not be read; the content.
    Invalid(Vec<u8>),
}

/// A chunk as a mathematical value, for contracts.
pub enum ChunkView {
    Main(Seq<ChunkView>),
    Size(Size),
    Voxels(Seq<Voxel>),
    Palette(Seq<Color>),
    Material(MaterialView),
    TransformNode(SceneTransformView),
    GroupNode(SceneGroupView),
    ShapeNode(SceneShapeView),
    Layer(RawLayerView),
    Unknown(Seq<char>),
    Invalid(Seq<u8>),
}

/// The mathematical value that a chunk stands for in contracts.
pub open spec fn chunk_view(chunk: Chunk) -> ChunkView
    decreases chunk,
{
    match chunk {
        Chunk::Main(children) => ChunkView::Main(
            Seq::new(
                children@.len(),
                |k: int|
                    if 0 <= k < children@.len() {
                        chunk_view(children@[k])
                    } else {
                        arbitrary()
                    },
            ),
        ),
        Chunk::Size(size) => ChunkView::Size(size),
        Chunk::Voxels(voxels) => ChunkView::Voxels(voxels@),
        Chunk::Palette(colors) => ChunkView::Palette(colors@),
        Chunk::Material(material) => ChunkView::Material(material.deep_view()),
        Chunk::TransformNode(node) => ChunkView::TransformNode(node.deep_view()),
        Chunk::GroupNode(node) => ChunkView::GroupNode(node.deep_view()),
        Chunk::ShapeNode(node) => ChunkView::ShapeNode(node.deep_view()),
        Chunk::Layer(layer) => ChunkView::Layer(layer.deep_view()),
        Chunk::Unknown(id) => ChunkView::Unknown(id@),
        Chunk::Invalid(content) => ChunkView::Invalid(content@),
    }
}

impl DeepView for Chunk {
    type V = ChunkView;

    open spec fn deep_view(&self) -> ChunkView {
        chunk_view(*self)
    }
}

/// The id of the chunk that holds all others: `MAIN`.
pub open spec fn id_main() -> Seq<u8> {
    seq![0x4du8, 0x41u8, 0x49u8, 0x4eu8]
}

/// The id of a size chunk: `SIZE`.
pub open spec fn id_size() -> Seq<u8> {
    seq![0x53u8, 0x49u8, 0x5au8, 0x45u8]
}

/// The id of a voxel chunk: `XYZI`.
pub open spec fn id_voxels() -> Seq<u8> {
    seq![0x58u8, 0x59u8, 0x5au8, 0x49u8]
}

/// The id of a palette chunk: `RGBA`.
pub open spec fn id_palette() -> Seq<u8> {
    seq![0x52u8, 0x47u8, 0x42u8, 0x41u8]
}

/// The id of a material chunk: `MATL`.
pub open spec fn id_material() -> Seq<u8> {
    seq![0x4du8, 0x41u8, 0x54u8, 0x4cu8]
}

/// The id of a transform node: `nTRN`.
pub open spec fn id_transform() -> Seq<u8> {
    seq![0x6eu8, 0x54u8, 0x52u8, 0x4eu8]
}

/// The id of a group node: `nGRP`.
pub open spec fn id_group() -> Seq<u8> {
    seq![0x6eu8, 0x47u8, 0x52u8, 0x50u8]
}

/// The id of a shape node: `nSHP`.
pub open spec fn id_shape() -> Seq<u8> {
    seq![0x6eu8, 0x53u8, 0x48u8, 0x50u8]
}

/// The id of a layer chunk: `LAYR`.
pub open spec fn id_layer() -> Seq<u8> {
    seq![0x4cu8, 0x41u8, 0x59u8, 0x52u8]
}

/// The start of a chunk, as a mathematical value, for contracts.
pub struct ChunkHeaderView {
    /// The four bytes of the id.
    pub id: Seq<u8>,
    /// The content.
    pub content: Seq<u8>,
    /// The declared number of bytes of the children.
    pub children_size: u32,
    /// The bytes of the children.
    pub child_content: Seq<u8>,
}

/// Reads the start of a chunk and cuts out its parts: four bytes of id,
/// which must be UTF-8, the length of the content, the length of the
/// children, then the content and the children in the declared lengths.
/// Fails where fewer bytes are left than are declared.
#[verifier::opaque]
pub open spec fn spec_parse_chunk_header(i: Seq<u8>) -> Result<
    (Seq<u8>, ChunkHeaderView),
    FormatError,
> {
    match spec_take(i, 4) {
        Err(e) => Err(e),
        Ok((rest, id)) => if !valid_utf8(id) {
            Err(FormatError::InvalidUtf8)
        } else {
            match spec_parse_u32(rest) {
                Err(e) => Err(e),
                Ok((rest, content_size)) => match spec_parse_u32(rest) {
                    Err(e) => Err(e),
                    Ok((rest, children_size)) => match spec_take(rest, content_size as nat) {
                        Err(e) => Err(e),
                        Ok((rest, content)) => match spec_take(rest, children_size as nat) {
                            Err(e) => Err(e),
                            Ok((rest, child_content)) => Ok(
                                (
                                    rest,
                                    ChunkHeaderView { id, content, children_size, child_content },
                                ),
                            ),
                        },
                    },
                },
            }
        },
    }
}

/// The size chunk with the given content, or `Invalid` where the content
/// is no size.
pub open spec fn spec_size_chunk(content: Seq<u8>) -> ChunkView {
    match spec_parse_size(content) {
        Ok((_, size)) => ChunkView::Size(size),
        Err(_) => ChunkView::Invalid(content),
    }
}

/// The voxel chunk with the given content, or `Invalid`.
pub open spec fn spec_voxel_chunk(content: Seq<u8>) -> ChunkView {
    match spec_parse_voxels(content) {
        Ok((_, voxels)) => ChunkView::Voxels(voxels),
        Err(_) => ChunkView::Invalid(content),
    }
}

/// The palette chunk with the given content, or `Invalid`.
pub open spec fn spec_palette_chunk(content: Seq<u8>) -> ChunkView {
    match spec_extract_palette(content) {
        Ok((_, colors)) => ChunkView::Palette(colors),
        Err(_) => ChunkView::Invalid(content),
    }
}

/// The material chunk with the given content, or `Invalid`.
pub open spec fn spec_material_chunk(content: Seq<u8>) -> ChunkView {
    match spec_parse_material(content) {
        Ok((_, material)) => ChunkView::Material(material),
        Err(_) => ChunkView::Invalid(content),
    }
}

/// The transform node with the given content, or `Invalid`.
pub open spec fn spec_scene_transform_chunk(content: Seq<u8>) -> ChunkView {
    match spec_parse_scene_transform(content) {
        Ok((_, node)) => ChunkView::TransformNode(node),
        Err(_) => ChunkView::Invalid(content),
    }
}

/// The group node with the given content, or `Invalid`.
pub open spec fn spec_scene_group_chunk(content: Seq<u8>) -> ChunkView {
    match spec_parse_scene_group(content) {
        Ok((_, node)) => ChunkView::GroupNode(node),
        Err(_) => ChunkView::Invalid(content),
    }
}

/// The shape node with the given content, or `Invalid`.
pub open spec fn spec_scene_shape_chunk(content: Seq<u8>) -> ChunkView {
    match spec_parse_scene_shape(content) {
        Ok((_, node)) => ChunkView::ShapeNode(node),
        Err(_) => ChunkView::Invalid(content),
    }
}

/// The layer chunk with the given content, or `Invalid`.
pub open spec fn spec_layer_chunk(content: Seq<u8>) -> ChunkView {
    match spec_parse_layer(content) {
        Ok((_, layer)) => ChunkView::Layer(layer),
        Err(_) => ChunkView::Invalid(content),
    }
}

/// The chunk that a content stands for under an id, where the chunk has no
/// children. A content that cannot be read under a known id gives `Invalid`;
/// an id that is not known gives `Unknown`.
#[verifier::opaque]
pub open spec fn spec_build_leaf(id: Seq<u8>, content: Seq<u8>) -> ChunkView {
    if id == id_size() {
        spec_size_chunk(content)
    } else if id == id_voxels() {
        spec_voxel_chunk(content)
    } else if id == id_palette() {
        spec_palette_chunk(content)
    } else if id == id_material() {
        spec_material_chunk(content)
    } else if id == id_transform() {
        spec_scene_transform_chunk(content)
    } else if id == id_group() {
        spec_scene_group_chunk(content)
    } else if id == id_shape() {
        spec_scene_shape_chunk(content)
    } else if id == id_layer() {
        spec_layer_chunk(content)
    } else {
        ChunkView::Unknown(decode_utf8(id))
    }
}

/// The chunk that a header stands for, given its children: read by its id
/// where it has none, `Main` with the children where its id is `MAIN`, and
/// `Unknown` under any other id.
pub open spec fn spec_build_chunk(
    id: Seq<u8>,
    content: Seq<u8>,
    children_size: u32,
    children: Seq<ChunkView>,
) -> ChunkView {
    if children_size == 0 {
        spec_build_leaf(id, content)
    } else if id == id_main() {
        ChunkView::Main(children)
    } else {
        ChunkView::Unknown(decode_utf8(id))
    }
}

/// The chunk that a header stands for. The children are read only under
/// the id `MAIN`, and a failure among them fails the chunk.
pub open spec fn spec_chunk_from(header: ChunkHeaderView) -> Result<ChunkView, FormatError>
    decreases header.child_content.len(), 1nat,
{
    if header.children_size != 0 && header.id == id_main() {
        match spec_parse_chunks(header.child_content, Seq::<ChunkView>::empty()) {
            Err(e) => Err(e),
            Ok(children) => Ok(ChunkView::Main(children)),
        }
    } else {
        Ok(
            spec_build_chunk(
                header.id,
                header.content,
                header.children_size,
                Seq::<ChunkView>::empty(),
            ),
        )
    }
}

/// Reads chunks until `i` is used up, and adds them to `acc`. Fails where
/// one of them fails.
pub open spec fn spec_parse_chunks(i: Seq<u8>, acc: Seq<ChunkView>) -> Result<
    Seq<ChunkView>,
    FormatError,
>
    decreases i.len(), 0nat,
{
    if i.len() == 0 {
        Ok(acc)
    } else {
        match spec_parse_chunk_header(i) {
            Err(e) => Err(e),
            Ok((rest, header)) => {
                proof {
                    lemma_chunk_header_len(i);
                }
                match spec_chunk_from(header) {
                    Err(e) => Err(e),
                    Ok(chunk) => spec_parse_chunks(rest, acc.push(chunk)),
                }
            },
        }
    }
}

/// Reads one chunk: the bytes that are left, then the chunk.
pub open spec fn spec_parse_chunk(i: Seq<u8>) -> Result<(Seq<u8>, ChunkView), FormatError> {
    match spec_parse_chunk_header(i) {
        Err(e) => Err(e),
        Ok((rest, header)) => match spec_chunk_from(header) {
            Err(e) => Err(e),
            Ok(chunk) => Ok((rest, chunk)),
        },
    }
}

/// A chunk header that was read took at least twelve bytes, and its parts
/// lie in what it took.
pub proof fn lemma_chunk_header_len(i: Seq<u8>)
    ensures
        match spec_parse_chunk_header(i) {
            Ok((rest, header)) => rest.len() + 12 + header.content.len()
                + header.child_content.len() == i.len() && header.content.len() + 12 <= i.len()
                && header.child_content.len() == header.children_size && header.id.len() == 4
                && valid_utf8(header.id),
            Err(_) => true,
        },
{
    reveal(spec_parse_chunk_header);
}

/// A chunk that was read took at least twelve bytes.
pub proof fn lemma_chunk_len(i: Seq<u8>)
    ensures
        match spec_parse_chunk(i) {
            Ok((rest, _)) => rest.len() + 12 <= i.len(),
            Err(_) => true,
        },
{
    lemma_chunk_header_len(i);
}

/// Reading chunks is reading one chunk and then the others.
pub proof fn lemma_chunks_unfold(i: Seq<u8>, acc: Seq<ChunkView>)
    requires
        i.len() > 0,
    ensures
        spec_parse_chunks(i, acc) == (match spec_parse_chunk(i) {
            Err(e) => Err(e),
            Ok((rest, chunk)) => spec_parse_chunks(rest, acc.push(chunk)),
        }),
{
}

/// The start of a chunk: its id, as bytes and as text, its content, and the
/// bytes of its children with their declared length.
pub struct ChunkHeader<'a> {
    /// The four bytes of the id.
    pub id: &'a [u8],
    /// The id as text.
    pub name: &'a str,
    /// The content.
    pub content: &'a [u8],
    /// The declared number of bytes of the children.
    pub children_size: u32,
    /// The bytes of the children.
    pub child_content: &'a [u8],
}

impl<'a> DeepView for ChunkHeader<'a> {
    type V = ChunkHeaderView;

    open spec fn deep_view(&self) -> ChunkHeaderView {
        ChunkHeaderView {
            id: self.id@,
            content: self.content@,
            children_size: self.children_size,
            child_content: self.child_content@,
        }
    }
}

/// Reads the start of a chunk from the front of `i` and cuts out its parts.
/// The lengths are checked against the bytes that are left before anything
/// is cut.
pub fn parse_chunk_header<'a>(i: &'a [u8]) -> (r: Result<(&'a [u8], ChunkHeader<'a>), FormatError>)
    ensures
        match r {
            Ok((rest, header)) => spec_parse_chunk_header(i@) == Ok::<
                (Seq<u8>, ChunkHeaderView),
                FormatError,
            >((rest@, header.deep_view())) && header.name@ == decode_utf8(header.id@)
                && encode_utf8(header.name@) == header.id@,
            Err(e) => spec_parse_chunk_header(i@) == Err::<
                (Seq<u8>, ChunkHeaderView),
                FormatError,
            >(e),
        },
{
    proof {
        reveal(spec_parse_chunk_header);
    }
    let (rest, id) = take(i, 4)?;
    let name: &str = match core::str::from_utf8(id) {
        Ok(name) => name,
        Err(_) => {
            return Err(FormatError::InvalidUtf8);
        },
    };
    proof {
        encode_utf8_decode_utf8(name@);
    }
    let (rest, content_size) = le_u32(rest)?;
    let (rest, children_size) = le_u32(rest)?;
    let (rest, content) = take(rest, content_size as usize)?;
    match take(rest, children_size as usize) {
        Ok((rest, child_content)) => Ok(
            (rest, ChunkHeader { id, name, content, children_size, child_content }),
        ),
        Err(e) => Err(e),
    }
}

/// The view of a `Main` chunk holds the views of its children.
pub proof fn lemma_main_view(children: Vec<Chunk>)
    ensures
        Chunk::Main(children).deep_view() == ChunkView::Main(children.deep_view()),
{
    let inner = Chunk::Main(children).deep_view()->Main_0;
    assert(inner.len() == children@.len());
    assert forall|k: int| 0 <= k < inner.len() implies inner[k] == children.deep_view()[k] by {
    }
    assert(inner =~= children.deep_view());
}

/// Whether `id` is the four bytes given.
fn id_is(id: &[u8], first: u8, second: u8, third: u8, fourth: u8) -> (same: bool)
    ensures
        same == (id@ == seq![first, second, third, fourth]),
{
    if id.len() != 4 {
        return false;
    }
    let same = id[0] == first && id[1] == second && id[2] == third && id[3] == fourth;
    proof {
        if same {
            assert(id@ =~= seq![first, second, third, fourth]);
        } else {
            let other = seq![first, second, third, fourth];
            assert(other[0] == first && other[1] == second && other[2] == third && other[3]
                == fourth);
        }
    }
    same
}

/// The size chunk with the content `chunk_content`.
fn build_size_chunk(chunk_content: &[u8]) -> (chunk: Chunk)
    ensures
        chunk.deep_view() == spec_size_chunk(chunk_content@),
{
    match parse_size(chunk_content) {
        Ok((_, size)) => Chunk::Size(size),
        Err(_) => Chunk::Invalid(slice_to_vec(chunk_content)),
    }
}

/// The voxel chunk with the content `chunk_content`.
fn build_voxel_chunk(chunk_content: &[u8]) -> (chunk: Chunk)
    ensures
        chunk.deep_view() == spec_voxel_chunk(chunk_content@),
{
    match parse_voxels(chunk_content) {
        Ok((_, voxels)) => Chunk::Voxels(voxels),
        Err(_) => Chunk::Invalid(slice_to_vec(chunk_content)),
    }
}

/// The palette chunk with the content `chunk_content`.
fn build_palette_chunk(chunk_content: &[u8]) -> (chunk: Chunk)
    ensures
        chunk.deep_view() == spec_palette_chunk(chunk_content@),
{
    match extract_palette(chunk_content) {
        Ok((_, palette)) => Chunk::Palette(palette),
        Err(_) => Chunk::Invalid(slice_to_vec(chunk_content)),
    }
}

/// The material chunk with the content `chunk_content`.
fn build_material_chunk(chunk_content: &[u8]) -> (chunk: Chunk)
    ensures
        chunk.deep_view() == spec_material_chunk(chunk_content@),
{
    match parse_material(chunk_content) {
        Ok((_, material)) => Chunk::Material(material),
        Err(_) => Chunk::Invalid(slice_to_vec(chunk_content)),
    }
}

/// The transform node with the content `chunk_content`.
fn build_scene_transform_chunk(chunk_content: &[u8]) -> (chunk: Chunk)
    ensures
        chunk.deep_view() == spec_scene_transform_chunk(chunk_content@),
{
    match parse_scene_transform(chunk_content) {
        Ok((_, transform_node)) => Chunk::TransformNode(transform_node),
        Err(_) => Chunk::Invalid(slice_to_vec(chunk_content)),
    }
}

/// The group node with the content `chunk_content`.
fn build_scene_group_chunk(chunk_content: &[u8]) -> (chunk: Chunk)
    ensures
        chunk.deep_view() == spec_scene_group_chunk(chunk_content@),
{
    match parse_scene_group(chunk_content) {
        Ok((_, group_node)) => Chunk::GroupNode(group_node),
        Err(_) => Chunk::Invalid(slice_to_vec(chunk_content)),
    }
}

/// The shape node with the content `chunk_content`.
fn build_scene_shape_chunk(chunk_content: &[u8]) -> (chunk: Chunk)
    ensures
        chunk.deep_view() == spec_scene_shape_chunk(chunk_content@),
{
    match parse_scene_shape(chunk_content) {
        Ok((_, shape_node)) => Chunk::ShapeNode(shape_node),
        Err(_) => Chunk::Invalid(slice_to_vec(chunk_content)),
    }
}

/// The layer chunk with the content `chunk_content`.
fn build_layer_chunk(chunk_content: &[u8]) -> (chunk: Chunk)
    ensures
        chunk.deep_view() == spec_layer_chunk(chunk_content@),
{
    match parse_layer(chunk_content) {
        Ok((_, layer)) => Chunk::Layer(layer),
        Err(_) => Chunk::Invalid(slice_to_vec(chunk_content)),
    }
}

/// Builds the chunk without children that an id and a content stand for.
fn build_leaf_chunk(id: &[u8], name: &str, chunk_content: &[u8]) -> (chunk: Chunk)
    ensures
        name@ == decode_utf8(id@) ==> chunk.deep_view() == spec_build_leaf(id@, chunk_content@),
{
    proof {
        reveal(spec_build_leaf);
    }
    if id_is(id, 0x53, 0x49, 0x5a, 0x45) {
        build_size_chunk(chunk_content)
    } else if id_is(id, 0x58, 0x59, 0x5a, 0x49) {
        build_voxel_chunk(chunk_content)
    } else if id_is(id, 0x52, 0x47, 0x42, 0x41) {
        build_palette_chunk(chunk_content)
    } else if id_is(id, 0x4d, 0x41, 0x54, 0x4c) {
        build_material_chunk(chunk_content)
    } else if id_is(id, 0x6e, 0x54, 0x52, 0x4e) {
        build_scene_transform_chunk(chunk_content)
    } else if id_is(id, 0x6e, 0x47, 0x52, 0x50) {
        build_scene_group_chunk(chunk_content)
    } else if id_is(id, 0x6e, 0x53, 0x48, 0x50) {
        build_scene_shape_chunk(chunk_content)
    } else if id_is(id, 0x4c, 0x41, 0x59, 0x52) {
        build_layer_chunk(chunk_content)
    } else {
        Chunk::Unknown(name.to_owned())
    }
}

/// Builds the chunk that a header stands for, from its parts and from its
/// children, which were read before.
pub fn build_chunk(
    id: &str,
    chunk_content: &[u8],
    children_size: u32,
    child_chunks: Vec<Chunk>,
) -> (chunk: Chunk)
    ensures
        chunk.deep_view() == spec_build_chunk(
            encode_utf8(id@),
            chunk_content@,
            children_size,
            child_chunks.deep_view(),
        ),
{
    proof {
        encode_utf8_decode_utf8(id@);
    }
    if children_size == 0 {
        build_leaf_chunk(id.as_bytes(), id, chunk_content)
    } else if id_is(id.as_bytes(), 0x4d, 0x41, 0x49, 0x4e) {
        proof {
            lemma_main_view(child_chunks);
        }
        Chunk::Main(child_chunks)
    } else {
        Chunk::Unknown(id.to_owned())
    }
}

/// A `MAIN` chunk that is being read: the children read so far, and the
/// bytes that follow the chunk.
struct OpenMain<'a> {
    children: Vec<Chunk>,
    after: &'a [u8],
}

/// The open chunks as mathematical values, the outermost first.
spec fn open_views(stack: Seq<OpenMain>) -> Seq<(Seq<ChunkView>, Seq<u8>)> {
    Seq::new(stack.len(), |k: int| (stack[k].children.deep_view(), stack[k].after@))
}

/// The bytes that wait behind the open chunks.
pub open spec fn pending_bytes(outer: Seq<(Seq<ChunkView>, Seq<u8>)>) -> nat
    decreases outer.len(),
{
    if outer.len() == 0 {
        0
    } else {
        pending_bytes(outer.drop_last()) + outer.last().1.len()
    }
}

/// What the reading of a chunk comes to from a point in its middle. The
/// innermost open `MAIN` chunk has the children `acc` and the bytes `cur`
/// still to read, and is followed by `after`; `outer` holds, for each `MAIN`
/// chunk around it, the children read so far and the bytes that follow.
pub open spec fn spec_resume(
    outer: Seq<(Seq<ChunkView>, Seq<u8>)>,
    acc: Seq<ChunkView>,
    after: Seq<u8>,
    cur: Seq<u8>,
) -> Result<(Seq<u8>, ChunkView), FormatError>
    decreases outer.len(),
{
    match spec_parse_chunks(cur, acc) {
        Err(e) => Err(e),
        Ok(children) => if outer.len() == 0 {
            Ok((after, ChunkView::Main(children)))
        } else {
            spec_resume(
                outer.drop_last(),
                outer.last().0.push(ChunkView::Main(children)),
                outer.last().1,
                after,
            )
        },
    }
}

/// Where nothing is left to read in the innermost open chunk, the chunk is
/// complete: it is the result, or the next child of the chunk around it.
proof fn lemma_resume_complete(
    outer: Seq<(Seq<ChunkView>, Seq<u8>)>,
    acc: Seq<ChunkView>,
    after: Seq<u8>,
    cur: Seq<u8>,
)
    requires
        cur.len() == 0,
    ensures
        outer.len() == 0 ==> spec_resume(outer, acc, after, cur) == Ok::<
            (Seq<u8>, ChunkView),
            FormatError,
        >((after, ChunkView::Main(acc))),
        outer.len() > 0 ==> spec_resume(outer, acc, after, cur) == spec_resume(
            outer.drop_last(),
            outer.last().0.push(ChunkView::Main(acc)),
            outer.last().1,
            after,
        ),
{
}

/// Where the next header cannot be read, the reading fails.
proof fn lemma_resume_failed(
    outer: Seq<(Seq<ChunkView>, Seq<u8>)>,
    acc: Seq<ChunkView>,
    after: Seq<u8>,
    cur: Seq<u8>,
)
    requires
        cur.len() > 0,
        spec_parse_chunk_header(cur) is Err,
    ensures
        spec_resume(outer, acc, after, cur) == Err::<(Seq<u8>, ChunkView), FormatError>(
            spec_parse_chunk_header(cur)->Err_0,
        ),
{
    lemma_chunks_unfold(cur, acc);
}

/// Where the next header is that of a chunk whose children are not read,
/// the chunk is the next child of the innermost open chunk.
proof fn lemma_resume_child(
    outer: Seq<(Seq<ChunkView>, Seq<u8>)>,
    acc: Seq<ChunkView>,
    after: Seq<u8>,
    cur: Seq<u8>,
)
    requires
        cur.len() > 0,
        spec_parse_chunk_header(cur) is Ok,
        !(spec_parse_chunk_header(cur)->Ok_0.1.children_size != 0 && spec_parse_chunk_header(
            cur,
        )->Ok_0.1.id == id_main()),
    ensures
        spec_resume(outer, acc, after, cur) == spec_resume(
            outer,
            acc.push(
                spec_build_chunk(
                    spec_parse_chunk_header(cur)->Ok_0.1.id,
                    spec_parse_chunk_header(cur)->Ok_0.1.content,
                    spec_parse_chunk_header(cur)->Ok_0.1.children_size,
                    Seq::<ChunkView>::empty(),
                ),
            ),
            after,
            spec_parse_chunk_header(cur)->Ok_0.0,
        ),
{
    lemma_chunks_unfold(cur, acc);
}

/// Where the next header is that of a `MAIN` chunk with children, that
/// chunk becomes the innermost open one.
proof fn lemma_resume_open(
    outer: Seq<(Seq<ChunkView>, Seq<u8>)>,
    acc: Seq<ChunkView>,
    after: Seq<u8>,
    cur: Seq<u8>,
)
    requires
        cur.len() > 0,
        spec_parse_chunk_header(cur) is Ok,
        spec_parse_chunk_header(cur)->Ok_0.1.children_size != 0,
        spec_parse_chunk_header(cur)->Ok_0.1.id == id_main(),
    ensures
        spec_resume(outer, acc, after, cur) == spec_resume(
            outer.push((acc, after)),
            Seq::<ChunkView>::empty(),
            spec_parse_chunk_header(cur)->Ok_0.0,
            spec_parse_chunk_header(cur)->Ok_0.1.child_content,
        ),
        pending_bytes(outer.push((acc, after))) == pending_bytes(outer) + after.len(),
{
    reveal_with_fuel(spec_resume, 2);
    lemma_chunks_unfold(cur, acc);
    let grown = outer.push((acc, after));
    assert(grown.drop_last() =~= outer);
    assert(grown.last() == (acc, after));
}

/// The number of chunks in the first `n` of `chunks` and inside them.
pub open spec fn chunks_weight(chunks: Seq<Chunk>, n: nat) -> nat
    decreases chunks, n,
{
    if n == 0 || n > chunks.len() {
        0
    } else {
        chunks_weight(chunks, (n - 1) as nat) + chunk_weight(chunks[n - 1])
    }
}

/// The number of chunks that a chunk holds, itself included.
pub open spec fn chunk_weight(chunk: Chunk) -> nat
    decreases chunk, 0nat,
{
    match chunk {
        Chunk::Main(children) => 1 + chunks_weight(children@, children@.len()),
        _ => 1,
    }
}

/// The number of chunks in the lists `pending` and inside them.
pub open spec fn pending_weight(pending: Seq<Vec<Chunk>>) -> nat
    decreases pending.len(),
{
    if pending.len() == 0 {
        0
    } else {
        pending_weight(pending.drop_last()) + chunks_weight(
            pending.last()@,
            pending.last()@.len(),
        )
    }
}

/// The weight of a list without its last chunk.
proof fn lemma_weight_pop(chunks: Seq<Chunk>)
    requires
        chunks.len() > 0,
    ensures
        chunks_weight(chunks, chunks.len()) == chunks_weight(
            chunks.drop_last(),
            chunks.drop_last().len(),
        ) + chunk_weight(chunks.last()),
{
    lemma_weight_prefix(chunks, chunks.drop_last(), (chunks.len() - 1) as nat);
}

/// Two lists that agree on their first `n` chunks have the same weight
/// there.
proof fn lemma_weight_prefix(a: Seq<Chunk>, b: Seq<Chunk>, n: nat)
    requires
        n <= a.len(),
        n <= b.len(),
        forall|k: int| 0 <= k < n ==> a[k] == b[k],
    ensures
        chunks_weight(a, n) == chunks_weight(b, n),
    decreases n,
{
    if n > 0 {
        lemma_weight_prefix(a, b, (n - 1) as nat);
    }
}

/// Takes chunks apart, however deep they are nested, without recursion:
/// the lists of children that are found are put aside and taken apart in
/// their turn.
pub fn dismantle(chunks: Vec<Chunk>) {
    let mut current: Vec<Chunk> = chunks;
    let mut pending: Vec<Vec<Chunk>> = Vec::new();
    loop
        decreases
                2 * (chunks_weight(current@, current@.len()) + pending_weight(pending@))
                    + pending@.len(),
    {
        let ghost before = current@;
        let ghost waiting = pending@;
        match current.pop() {
            Some(Chunk::Main(inner)) => {
                proof {
                    lemma_weight_pop(before);
                }
                pending.push(inner);
                assert(pending@.drop_last() =~= waiting);
            },
            Some(_) => {
                proof {
                    lemma_weight_pop(before);
                }
            },
            None => {
                match pending.pop() {
                    Some(next) => {
                        assert(pending@ =~= waiting.drop_last());
                        current = next;
                    },
                    None => {
                        return ;
                    },
                }
            },
        }
    }
}

/// Takes apart what was read of a chunk whose reading failed.
fn give_up(stack: Vec<OpenMain>, children: Vec<Chunk>) {
    dismantle(children);
    let mut stack = stack;
    loop
        decreases stack@.len(),
    {
        match stack.pop() {
            Some(frame) => {
                dismantle(frame.children);
            },
            None => {
                return ;
            },
        }
    }
}

/// No children yet.
fn no_children() -> (children: Vec<Chunk>)
    ensures
        children.deep_view() == Seq::<ChunkView>::empty(),
{
    let children: Vec<Chunk> = Vec::new();
    assert(children.deep_view() =~= Seq::<ChunkView>::empty());
    children
}

/// Adds a chunk to the children read so far.
fn add_child(children: &mut Vec<Chunk>, chunk: Chunk)
    ensures
        final(children).deep_view() == old(children).deep_view().push(chunk.deep_view()),
{
    children.push(chunk);
    assert(children.deep_view() =~= old(children).deep_view().push(chunk.deep_view()));
}

/// Puts a `MAIN` chunk on the list of the open ones.
fn open_main<'a>(stack: &mut Vec<OpenMain<'a>>, children: Vec<Chunk>, after: &'a [u8])
    ensures
        open_views(final(stack)@) == open_views(old(stack)@).push((children.deep_view(), after@)),
        final(stack)@.len() == old(stack)@.len() + 1,
{
    stack.push(OpenMain { children, after });
    assert(open_views(stack@) =~= open_views(old(stack)@).push((children.deep_view(), after@)));
}

/// Takes the innermost `MAIN` chunk from the list of the open ones.
fn close_main<'a>(stack: &mut Vec<OpenMain<'a>>) -> (top: Option<(Vec<Chunk>, &'a [u8])>)
    ensures
        match top {
            Some((children, after)) => old(stack)@.len() > 0 && open_views(final(stack)@)
                == open_views(old(stack)@).drop_last() && open_views(old(stack)@).last() == (
                children.deep_view(),
                after@,
            ) && final(stack)@.len() + 1 == old(stack)@.len(),
            None => old(stack)@.len() == 0 && final(stack)@.len() == 0,
        },
{
    match stack.pop() {
        Some(frame) => {
            assert(open_views(stack@) =~= open_views(old(stack)@).drop_last());
            Some((frame.children, frame.after))
        },
        None => None,
    }
}

/// Reads one chunk from the front of `i`, with the chunks inside it. The
/// chunks that are open are kept in a list, so that chunks nested to any
/// depth are read without recursion.
pub fn parse_chunk(i: &[u8]) -> (r: Result<(&[u8], Chunk), FormatError>)
    ensures
        match r {
            Ok((rest, chunk)) => spec_parse_chunk(i@) == Ok::<(Seq<u8>, ChunkView), FormatError>(
                (rest@, chunk.deep_view()),
            ),
            Err(e) => spec_parse_chunk(i@) == Err::<(Seq<u8>, ChunkView), FormatError>(e),
        },
{
    let (rest, header) = parse_chunk_header(i)?;
    proof {
        lemma_chunk_header_len(i@);
    }
    if !(header.children_size != 0 && id_is(header.id, 0x4d, 0x41, 0x49, 0x4e)) {
        let chunk = build_chunk(header.name, header.content, header.children_size, no_children());
        return Ok((rest, chunk));
    }
    let mut stack: Vec<OpenMain> = Vec::new();
    let mut children: Vec<Chunk> = no_children();
    let mut after: &[u8] = rest;
    let mut cur: &[u8] = header.child_content;
    assert(open_views(stack@) =~= Seq::<(Seq<ChunkView>, Seq<u8>)>::empty());
    loop
        invariant
            spec_resume(open_views(stack@), children.deep_view(), after@, cur@) == spec_parse_chunk(
                i@,
            ),
        decreases
                2 * (cur@.len() + after@.len() + pending_bytes(open_views(stack@))) + stack@.len(),
    {
        let ghost outer = open_views(stack@);
        let ghost acc = children.deep_view();
        if cur.len() == 0 {
            proof {
                lemma_main_view(children);
                lemma_resume_complete(outer, acc, after@, cur@);
            }
            let chunk = Chunk::Main(children);
            match close_main(&mut stack) {
                None => {
                    return Ok((after, chunk));
                },
                Some((around, behind)) => {
                    children = around;
                    add_child(&mut children, chunk);
                    cur = after;
                    after = behind;
                },
            }
        } else {
            let (rest, header) = match parse_chunk_header(cur) {
                Ok(read) => read,
                Err(e) => {
                    proof {
                        lemma_resume_failed(outer, acc, after@, cur@);
                    }
                    give_up(stack, children);
                    return Err(e);
                },
            };
            proof {
                lemma_chunk_header_len(cur@);
            }
            if header.children_size != 0 && id_is(header.id, 0x4d, 0x41, 0x49, 0x4e) {
                proof {
                    lemma_resume_open(outer, acc, after@, cur@);
                }
                open_main(&mut stack, children, after);
                children = no_children();
                after = rest;
                cur = header.child_content;
            } else {
                proof {
                    lemma_resume_child(outer, acc, after@, cur@);
                }
                let chunk = build_chunk(
                    header.name,
                    header.content,
                    header.children_size,
                    no_children(),
                );
                add_child(&mut children, chunk);
                cur = rest;
            }
        }
    }
}

/// What has been gathered from the children of the `MAIN` chunk: the data
/// so far, and a size that waits for its voxels.
pub struct Gathered {
    pub pending: Option<Size>,
    pub data: DotVoxDataView,
}

/// The data before any chunk is taken in: the default palette and nothing
/// else.
pub open spec fn spec_gather_start(version: u32) -> Gathered {
    Gathered {
        pending: None,
        data: DotVoxDataView {
            version,
            models: Seq::empty(),
            palette: spec_default_palette(),
            materials: Seq::empty(),
            scenes: Seq::empty(),
            layers: Seq::empty(),
        },
    }
}

/// Takes one chunk in. A size waits for the next voxels and replaces a size
/// that still waited; voxels make a model with the size that waits, which
/// then waits no more, and are dropped where none waits; a palette replaces
/// the palette; materials, nodes and layers are added in their order; any
/// other chunk changes nothing.
pub open spec fn spec_gather_step(state: Gathered, chunk: ChunkView) -> Gathered {
    let data = state.data;
    match chunk {
        ChunkView::Size(size) => Gathered { pending: Some(size), data },
        ChunkView::Voxels(voxels) => match state.pending {
            Some(size) => Gathered {
                pending: None,
                data: DotVoxDataView { models: data.models.push(ModelView { size, voxels }), ..data },
            },
            None => state,
        },
        ChunkView::Palette(palette) => Gathered {
            pending: state.pending,
            data: DotVoxDataView { palette, ..data },
        },
        ChunkView::Material(material) => Gathered {
            pending: state.pending,
            data: DotVoxDataView { materials: data.materials.push(material), ..data },
        },
        ChunkView::TransformNode(node) => Gathered {
            pending: state.pending,
            data: DotVoxDataView {
                scenes: data.scenes.push(
                    SceneNodeView::Transform {
                        attributes: node.header.attributes,
                        frames: node.frames,
                        child: node.child,
                        layer_id: node.layer_id,
                    },
                ),
                ..data
            },
        },
        ChunkView::GroupNode(node) => Gathered {
            pending: state.pending,
            data: DotVoxDataView {
                scenes: data.scenes.push(
                    SceneNodeView::Group {
                        attributes: node.header.attributes,
                        children: node.children,
                    },
                ),
                ..data
            },
        },
        ChunkView::ShapeNode(node) => Gathered {
            pending: state.pending,
            data: DotVoxDataView {
                scenes: data.scenes.push(
                    SceneNodeView::Shape { attributes: node.header.attributes, models: node.models },
                ),
                ..data
            },
        },
        ChunkView::Layer(layer) => Gathered {
            pending: state.pending,
            data: DotVoxDataView { layers: data.layers.push(layer.attributes), ..data },
        },
        _ => state,
    }
}

/// Takes the chunks in, in their order, starting from `state`.
pub open spec fn spec_gather(children: Seq<ChunkView>, state: Gathered) -> Gathered
    decreases children.len(),
{
    if children.len() == 0 {
        state
    } else {
        spec_gather_step(spec_gather(children.drop_last(), state), children.last())
    }
}

/// The data that a chunk tree stands for. A root that is no `MAIN` chunk
/// with children gives data with the version and nothing else.
pub open spec fn spec_map_chunk_to_data(version: u32, main: ChunkView) -> DotVoxDataView {
    match main {
        ChunkView::Main(children) => spec_gather(children, spec_gather_start(version)).data,
        _ => DotVoxDataView {
            version,
            models: Seq::empty(),
            palette: Seq::empty(),
            materials: Seq::empty(),
            scenes: Seq::empty(),
            layers: Seq::empty(),
        },
    }
}

/// Turns the dictionaries of a transform node into frames.
fn frames_from(dicts: Vec<Dict>) -> (frames: Vec<Frame>)
    ensures
        frames.deep_view() == dicts.deep_view(),
{
    let mut frames: Vec<Frame> = Vec::with_capacity(dicts.len());
    let ghost all = dicts.deep_view();
    let ghost raw = dicts@;
    for dict in it: dicts
        invariant
            it.seq() == raw,
            all.len() == raw.len(),
            forall|k: int| 0 <= k < raw.len() ==> all[k] == (#[trigger] raw[k]).entries(),
            frames.deep_view() =~= all.subrange(0, it.index() as int),
    {
        let ghost before = frames.deep_view();
        assert(dict == raw[it.index()]);
        frames.push(Frame::new(dict));
        assert(frames.deep_view() =~= before.push(dict.entries()));
    }
    assert(frames.deep_view() =~= all);
    frames
}

/// The state of the gathering, from the variables that hold it.
spec fn gathered(
    version: u32,
    pending: Option<Size>,
    models: Vec<Model>,
    palette: Vec<Color>,
    materials: Vec<Material>,
    scenes: Vec<SceneNode>,
    layers: Vec<Layer>,
) -> Gathered {
    Gathered {
        pending,
        data: DotVoxDataView {
            version,
            models: models.deep_view(),
            palette: palette@,
            materials: materials.deep_view(),
            scenes: scenes.deep_view(),
            layers: layers.deep_view(),
        },
    }
}

/// Folds the chunks under the root into the data of the file. A size waits
/// in a single slot for the voxels that follow it.
pub fn map_chunk_to_data(version: u32, main: Chunk) -> (data: DotVoxData)
    ensures
        data.deep_view() == spec_map_chunk_to_data(version, main.deep_view()),
{
    match main {
        Chunk::Main(children) => {
            proof {
                lemma_main_view(children);
            }
            let mut size_holder: Option<Size> = None;
            let mut models: Vec<Model> = Vec::new();
            let mut palette_holder: Vec<Color> = default_palette();
            let mut materials: Vec<Material> = Vec::new();
            let mut scene: Vec<SceneNode> = Vec::new();
            let mut layers: Vec<Layer> = Vec::new();
            let ghost views = children.deep_view();
            let ghost raw = children@;
            assert(gathered(version, size_holder, models, palette_holder, materials, scene, layers)
                == spec_gather_start(version)) by {
                assert(models.deep_view() =~= Seq::<ModelView>::empty());
                assert(materials.deep_view() =~= Seq::<MaterialView>::empty());
                assert(scene.deep_view() =~= Seq::<SceneNodeView>::empty());
                assert(layers.deep_view() =~= Seq::<Seq<Entry>>::empty());
            }
            assert(views.subrange(0, 0) =~= Seq::<ChunkView>::empty());
            for chunk in it: children
                invariant
                    it.seq() == raw,
                    views.len() == raw.len(),
                    forall|k: int| 0 <= k < raw.len() ==> views[k] == chunk_view(#[trigger] raw[k]),
                    gathered(version, size_holder, models, palette_holder, materials, scene, layers)
                        == spec_gather(
                        views.subrange(0, it.index() as int),
                        spec_gather_start(version),
                    ),
            {
                let ghost before = gathered(
                    version,
                    size_holder,
                    models,
                    palette_holder,
                    materials,
                    scene,
                    layers,
                );
                let ghost view = chunk_view(chunk);
                proof {
                    let taken = views.subrange(0, it.index() + 1);
                    assert(chunk == raw[it.index()]);
                    assert(taken.drop_last() =~= views.subrange(0, it.index() as int));
                    assert(taken.last() == view);
                    assert(spec_gather(taken, spec_gather_start(version)) == spec_gather_step(
                        before,
                        view,
                    ));
                }
                match chunk {
                    Chunk::Size(size) => {
                        size_holder = Some(size);
                    },
                    Chunk::Voxels(voxels) => {
                        if let Some(size) = size_holder {
                            let ghost old_models = models.deep_view();
                            models.push(Model { size, voxels });
                            assert(models.deep_view() =~= old_models.push(
                                ModelView { size, voxels: voxels@ },
                            ));
                            size_holder = None;
                        }
                    },
                    Chunk::Palette(palette) => {
                        palette_holder = palette;
                    },
                    Chunk::Material(material) => {
                        let ghost old_materials = materials.deep_view();
                        materials.push(material);
                        assert(materials.deep_view() =~= old_materials.push(material.deep_view()));
                    },
                    Chunk::TransformNode(scene_transform) => {
                        let ghost old_scene = scene.deep_view();
                        let node = SceneNode::Transform {
                            attributes: scene_transform.header.attributes,
                            frames: frames_from(scene_transform.frames),
                            child: scene_transform.child,
                            layer_id: scene_transform.layer_id,
                        };
                        scene.push(node);
                        assert(scene.deep_view() =~= old_scene.push(node.deep_view()));
                    },
                    Chunk::GroupNode(scene_group) => {
                        let ghost old_scene = scene.deep_view();
                        let node = SceneNode::Group {
                            attributes: scene_group.header.attributes,
                            children: scene_group.children,
                        };
                        scene.push(node);
                        assert(scene.deep_view() =~= old_scene.push(node.deep_view()));
                    },
                    Chunk::ShapeNode(scene_shape) => {
                        let ghost old_scene = scene.deep_view();
                        let node = SceneNode::Shape {
                            attributes: scene_shape.header.attributes,
                            models: scene_shape.models,
                        };
                        scene.push(node);
                        assert(scene.deep_view() =~= old_scene.push(node.deep_view()));
                    },
                    Chunk::Layer(layer) => {
                        let ghost old_layers = layers.deep_view();
                        layers.push(Layer { attributes: layer.attributes });
                        assert(layers.deep_view() =~= old_layers.push(layer.attributes.entries()));
                    },
                    Chunk::Main(nested) => {
                        dismantle(nested);
                    },
                    _ => {},
                }
            }
            assert(views.subrange(0, raw.len() as int) =~= views);
            DotVoxData {
                version,
                models,
                palette: palette_holder,
                materials,
                scenes: scene,
                layers,
            }
        },
        _ => {
            let data = DotVoxData {
                version,
                models: Vec::new(),
                palette: Vec::new(),
                materials: Vec::new(),
                scenes: Vec::new(),
                layers: Vec::new(),
            };
            assert(data.deep_view().models =~= Seq::<ModelView>::empty());
            assert(data.deep_view().materials =~= Seq::<MaterialView>::empty());
            assert(data.deep_view().scenes =~= Seq::<SceneNodeView>::empty());
            assert(data.deep_view().layers =~= Seq::<Seq<Entry>>::empty());
            data
        },
    }
}

/// The four bytes that every file starts with: `VOX `.
pub open spec fn magic_number() -> Seq<u8> {
    seq![0x56u8, 0x4fu8, 0x58u8, 0x20u8]
}

/// Reads a file: the magic number, the version, and one chunk, whose
/// children make the data. Bytes that follow the chunk are left.
pub open spec fn spec_parse_vox_file(i: Seq<u8>) -> Result<
    (Seq<u8>, DotVoxDataView),
    FormatError,
> {
    match spec_take(i, 4) {
        Err(_) => Err(FormatError::MagicMismatch),
        Ok((rest, magic)) => if magic != magic_number() {
            Err(FormatError::MagicMismatch)
        } else {
            match spec_parse_u32(rest) {
                Err(e) => Err(e),
                Ok((rest, version)) => match spec_parse_chunk(rest) {
                    Err(e) => Err(e),
                    Ok((rest, main)) => Ok((rest, spec_map_chunk_to_data(version, main))),
                },
            }
        },
    }
}

/// Reads a file from the front of `i`.
pub fn parse_vox_file(i: &[u8]) -> (r: Result<(&[u8], DotVoxData), FormatError>)
    ensures
        match r {
            Ok((rest, data)) => spec_parse_vox_file(i@) == Ok::<
                (Seq<u8>, DotVoxDataView),
                FormatError,
            >((rest@, data.deep_view())),
            Err(e) => spec_parse_vox_file(i@) == Err::<(Seq<u8>, DotVoxDataView), FormatError>(e),
        },
{
    let (rest, magic) = match take(i, 4) {
        Ok(read) => read,
        Err(_) => {
            return Err(FormatError::MagicMismatch);
        },
    };
    if !id_is(magic, 0x56, 0x4f, 0x58, 0x20) {
        return Err(FormatError::MagicMismatch);
    }
    let (rest, version) = le_u32(rest)?;
    let (rest, main) = parse_chunk(rest)?;
    Ok((rest, map_chunk_to_data(version, main)))
}

} // verus!
