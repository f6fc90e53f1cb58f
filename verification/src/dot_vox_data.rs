//! What a file holds, and the writer that turns it into bytes again.

use vstd::prelude::*;
use crate::bytes::{concat_map, lemma_concat_map_push, push_bytes, push_u32, spec_u32_bytes};
use crate::dict::{dict_fits, spec_dict_bytes, write_dict, Dict, Entry};
use crate::error::WriteError;
use crate::material::{Material, MaterialView};
use crate::model::{
    spec_size_bytes, spec_voxel_bytes, spec_voxels_bytes, voxels_indexed, Model, ModelView, Voxel,
};
use crate::palette::{spec_color_bytes, spec_palette_bytes, Color};
use crate::parser::{
    id_group, id_main, id_palette, id_shape, id_size, id_transform, id_voxels, magic_number,
};
use crate::scene::{Frame, Layer, SceneNode, SceneNodeView, ShapeModel, ShapeModelView};

verus! {

/// The data of a `.vox` file.
#[derive(Debug, PartialEq, Eq)]
pub struct DotVoxData {
    /// The version number of the file.
    pub version: u32,
    /// The models of the file.
    pub models: Vec<Model>,
    /// The colour palette.
    pub palette: Vec<Color>,
    /// The materials that are set.
    pub materials: Vec<Material>,
    /// The scene graph. The first node is the root.
    pub scenes: Vec<SceneNode>,
    /// The layers, which transform nodes refer to.
    pub layers: Vec<Layer>,
}

/// The data of a file as a mathematical value, for contracts.
pub struct DotVoxDataView {
    pub version: u32,
    pub models: Seq<ModelView>,
    pub palette: Seq<Color>,
    pub materials: Seq<MaterialView>,
    pub scenes: Seq<SceneNodeView>,
    pub layers: Seq<Seq<Entry>>,
}

impl DeepView for DotVoxData {
    type V = DotVoxDataView;

    open spec fn deep_view(&self) -> DotVoxDataView {
        DotVoxDataView {
            version: self.version,
            models: self.models.deep_view(),
            palette: self.palette@,
            materials: self.materials.deep_view(),
            scenes: self.scenes.deep_view(),
            layers: self.layers.deep_view(),
        }
    }
}

/// The start of a chunk as it lies in a file: the id, the length of the
/// content and the length of the children.
pub open spec fn spec_chunk_header_bytes(id: Seq<u8>, content_len: nat, children_len: nat) -> Seq<
    u8,
> {
    id + spec_u32_bytes(content_len as u32) + spec_u32_bytes(children_len as u32)
}

/// A chunk without children as it lies in a file.
pub open spec fn spec_leaf_bytes(id: Seq<u8>, content: Seq<u8>) -> Seq<u8> {
    spec_chunk_header_bytes(id, content.len(), 0) + content
}

/// A model as it lies in a file: a size chunk, then a voxel chunk.
pub open spec fn spec_model_bytes(model: ModelView) -> Seq<u8> {
    spec_leaf_bytes(id_size(), spec_size_bytes(model.size)) + spec_leaf_bytes(
        id_voxels(),
        spec_voxels_bytes(model.voxels),
    )
}

/// The models as they lie in a file, one after another.
pub open spec fn spec_models_bytes(models: Seq<ModelView>) -> Seq<u8> {
    concat_map(models, |m: ModelView| spec_model_bytes(m))
}

/// A model reference as it lies in a file: the position of the model, then
/// the attributes.
pub open spec fn spec_shape_model_bytes(model: ShapeModelView) -> Seq<u8> {
    spec_u32_bytes(model.model_id) + spec_dict_bytes(model.attributes)
}

/// What follows the header of a transform node in a file: the child, -1 in
/// the four bytes that mean nothing, the layer, the number of frames, and
/// the frames.
pub open spec fn spec_transform_fields_bytes(
    child: u32,
    layer_id: u32,
    frames: Seq<Seq<Entry>>,
) -> Seq<u8> {
    spec_u32_bytes(child) + (spec_u32_bytes(u32::MAX) + (spec_u32_bytes(layer_id) + (
    spec_u32_bytes(frames.len() as u32) + concat_map(frames, |f: Seq<Entry>| spec_dict_bytes(f)))))
}

/// The content of the chunk of a node, which is written with its position
/// among the nodes as its number.
#[verifier::opaque]
pub open spec fn spec_node_content(index: u32, node: SceneNodeView) -> Seq<u8> {
    match node {
        SceneNodeView::Transform { attributes, frames, child, layer_id } => spec_u32_bytes(index)
            + spec_dict_bytes(attributes) + spec_transform_fields_bytes(child, layer_id, frames),
        SceneNodeView::Group { attributes, children } => spec_u32_bytes(index) + spec_dict_bytes(
            attributes,
        ) + spec_u32_bytes(children.len() as u32) + concat_map(
            children,
            |c: u32| spec_u32_bytes(c),
        ),
        SceneNodeView::Shape { attributes, models } => spec_u32_bytes(index) + spec_dict_bytes(
            attributes,
        ) + spec_u32_bytes(models.len() as u32) + concat_map(
            models,
            |m: ShapeModelView| spec_shape_model_bytes(m),
        ),
    }
}

/// The id of the chunk of a node.
pub open spec fn spec_node_id(node: SceneNodeView) -> Seq<u8> {
    match node {
        SceneNodeView::Transform { .. } => id_transform(),
        SceneNodeView::Group { .. } => id_group(),
        SceneNodeView::Shape { .. } => id_shape(),
    }
}

/// A node as it lies in a file.
pub open spec fn spec_node_bytes(index: u32, node: SceneNodeView) -> Seq<u8> {
    spec_leaf_bytes(spec_node_id(node), spec_node_content(index, node))
}

/// The nodes as they lie in a file, each under its position.
pub open spec fn spec_scene_bytes(nodes: Seq<SceneNodeView>) -> Seq<u8>
    decreases nodes.len(),
{
    if nodes.len() == 0 {
        Seq::<u8>::empty()
    } else {
        spec_scene_bytes(nodes.drop_last()) + spec_node_bytes(
            (nodes.len() - 1) as u32,
            nodes.last(),
        )
    }
}

/// What lies under the `MAIN` chunk of a written file: the models, the
/// nodes, and the palette. Materials and layers are not written.
pub open spec fn spec_children_bytes(data: DotVoxDataView) -> Seq<u8> {
    spec_models_bytes(data.models) + spec_scene_bytes(data.scenes) + spec_leaf_bytes(
        id_palette(),
        spec_palette_bytes(data.palette),
    )
}

/// A file as it is written: the magic number, the version, and the `MAIN`
/// chunk, which has no content of its own.
pub open spec fn spec_write_vox(data: DotVoxDataView) -> Seq<u8> {
    magic_number() + spec_u32_bytes(data.version) + spec_chunk_header_bytes(
        id_main(),
        0,
        spec_children_bytes(data).len(),
    ) + spec_children_bytes(data)
}

/// The dictionaries can be written.
pub open spec fn frames_fit(frames: Seq<Seq<Entry>>) -> bool {
    forall|k: int| 0 <= k < frames.len() ==> dict_fits(#[trigger] frames[k])
}

/// The model references can be written.
pub open spec fn shape_models_fit(models: Seq<ShapeModelView>) -> bool {
    forall|k: int| 0 <= k < models.len() ==> dict_fits((#[trigger] models[k]).attributes)
}

/// A node can be written: its dictionaries, the number of its frames,
/// children or models, and the length of its content fit in 32 bits.
#[verifier::opaque]
pub open spec fn node_fits(index: u32, node: SceneNodeView) -> bool {
    &&& match node {
        SceneNodeView::Transform { attributes, frames, child, layer_id } => dict_fits(attributes)
            && frames.len() <= u32::MAX && frames_fit(frames),
        SceneNodeView::Group { attributes, children } => dict_fits(attributes) && children.len()
            <= u32::MAX,
        SceneNodeView::Shape { attributes, models } => dict_fits(attributes) && models.len()
            <= u32::MAX && shape_models_fit(models),
    }
    &&& spec_node_content(index, node).len() <= u32::MAX
}

/// The nodes can be written, each under its position.
pub open spec fn scene_fits(nodes: Seq<SceneNodeView>) -> bool {
    forall|k: int| 0 <= k < nodes.len() ==> k <= u32::MAX && node_fits(k as u32, #[trigger] nodes[k])
}

/// A model can be written: the number of its voxels, with the four bytes in
/// front of them, fits in 32 bits.
pub open spec fn model_fits(model: ModelView) -> bool {
    4 + 4 * model.voxels.len() <= u32::MAX
}

/// The models can be written.
pub open spec fn models_fit(models: Seq<ModelView>) -> bool {
    forall|k: int| 0 <= k < models.len() ==> model_fits(#[trigger] models[k])
}

/// No voxel of the models has the palette index 255.
pub open spec fn models_indexed(models: Seq<ModelView>) -> bool {
    forall|k: int| 0 <= k < models.len() ==> voxels_indexed((#[trigger] models[k]).voxels)
}

/// The data can be written: every length and every number that the file
/// holds fits in 32 bits.
pub open spec fn data_fits(data: DotVoxDataView) -> bool {
    &&& models_fit(data.models)
    &&& scene_fits(data.scenes)
    &&& 4 * data.palette.len() <= u32::MAX
    &&& spec_children_bytes(data).len() <= u32::MAX
}

/// Appends the start of a chunk and its content.
fn write_chunk(writer: &mut Vec<u8>, id: &[u8], chunk: &[u8], num_children_bytes: u32) -> (r:
    Result<(), WriteError>)
    requires
        id@.len() == 4,
    ensures
        match r {
            Ok(()) => chunk@.len() <= u32::MAX && final(writer)@ == old(writer)@
                + spec_chunk_header_bytes(id@, chunk@.len(), num_children_bytes as nat) + chunk@,
            Err(e) => e == WriteError::TooLong && chunk@.len() > u32::MAX && final(writer)@ == old(
                writer,
            )@,
        },
{
    if chunk.len() > u32::MAX as usize {
        return Err(WriteError::TooLong);
    }
    push_bytes(writer, id);
    push_u32(writer, chunk.len() as u32);
    push_u32(writer, num_children_bytes);
    push_bytes(writer, chunk);
    assert(writer@ =~= old(writer)@ + spec_chunk_header_bytes(
        id@,
        chunk@.len(),
        num_children_bytes as nat,
    ) + chunk@);
    Ok(())
}

/// Appends a chunk without children.
fn write_leaf_chunk(writer: &mut Vec<u8>, id: &[u8], chunk: &[u8]) -> (r: Result<(), WriteError>)
    requires
        id@.len() == 4,
    ensures
        match r {
            Ok(()) => chunk@.len() <= u32::MAX && final(writer)@ == old(writer)@ + spec_leaf_bytes(
                id@,
                chunk@,
            ),
            Err(e) => e == WriteError::TooLong && chunk@.len() > u32::MAX && final(writer)@ == old(
                writer,
            )@,
        },
{
    let num_children_bytes: u32 = 0;
    let r = write_chunk(writer, id, chunk, num_children_bytes);
    proof {
        if r is Ok {
            assert(writer@ =~= old(writer)@ + spec_leaf_bytes(id@, chunk@));
        }
    }
    r
}

/// The bytes of an id.
fn id_bytes(first: u8, second: u8, third: u8, fourth: u8) -> (id: Vec<u8>)
    ensures
        id@ == seq![first, second, third, fourth],
{
    let mut id: Vec<u8> = Vec::with_capacity(4);
    id.push(first);
    id.push(second);
    id.push(third);
    id.push(fourth);
    assert(id@ =~= seq![first, second, third, fourth]);
    id
}

/// Appends a model: a size chunk, then a voxel chunk, in which the palette
/// indices count from one.
fn write_model(writer: &mut Vec<u8>, model: &Model) -> (r: Result<(), WriteError>)
    requires
        voxels_indexed(model.voxels@),
    ensures
        match r {
            Ok(()) => model_fits(model.deep_view()) && final(writer)@ == old(writer)@
                + spec_model_bytes(model.deep_view()),
            Err(e) => e == WriteError::TooLong && !model_fits(model.deep_view()),
        },
{
    let count: usize = model.voxels.len();
    if count > (u32::MAX as usize - 4) / 4 {
        return Err(WriteError::TooLong);
    }
    let mut size_chunk: Vec<u8> = Vec::new();
    push_u32(&mut size_chunk, model.size.x);
    push_u32(&mut size_chunk, model.size.y);
    push_u32(&mut size_chunk, model.size.z);
    assert(size_chunk@ =~= spec_size_bytes(model.size));
    let size_id = id_bytes(0x53, 0x49, 0x5a, 0x45);
    write_leaf_chunk(writer, size_id.as_slice(), size_chunk.as_slice())?;
    let mut xyzi_chunk: Vec<u8> = Vec::new();
    push_u32(&mut xyzi_chunk, count as u32);
    let ghost write = |v: Voxel| spec_voxel_bytes(v);
    let mut k: usize = 0;
    while k < count
        invariant
            k <= count,
            count == model.voxels@.len(),
            4 + 4 * count <= u32::MAX,
            voxels_indexed(model.voxels@),
            write == (|v: Voxel| spec_voxel_bytes(v)),
            xyzi_chunk@.len() == 4 + 4 * k,
            xyzi_chunk@ == spec_u32_bytes(count as u32) + concat_map(
                model.voxels@.subrange(0, k as int),
                write,
            ),
        decreases count - k,
    {
        let voxel: Voxel = model.voxels[k];
        proof {
            lemma_concat_map_push(model.voxels@.subrange(0, k as int), write, voxel);
            assert(model.voxels@.subrange(0, k as int).push(voxel) =~= model.voxels@.subrange(
                0,
                k + 1,
            ));
        }
        xyzi_chunk.push(voxel.x);
        xyzi_chunk.push(voxel.y);
        xyzi_chunk.push(voxel.z);
        xyzi_chunk.push(voxel.i + 1);
        assert(xyzi_chunk@ =~= spec_u32_bytes(count as u32) + concat_map(
            model.voxels@.subrange(0, k + 1),
            write,
        ));
        k = k + 1;
    }
    assert(model.voxels@.subrange(0, k as int) =~= model.voxels@);
    let xyzi_id = id_bytes(0x58, 0x59, 0x5a, 0x49);
    write_leaf_chunk(writer, xyzi_id.as_slice(), xyzi_chunk.as_slice())?;
    assert(writer@ =~= old(writer)@ + spec_model_bytes(model.deep_view()));
    Ok(())
}

/// Appends the models, one after another.
fn write_models(writer: &mut Vec<u8>, models: &Vec<Model>) -> (r: Result<(), WriteError>)
    requires
        models_indexed(models.deep_view()),
    ensures
        match r {
            Ok(()) => models_fit(models.deep_view()) && final(writer)@ == old(writer)@
                + spec_models_bytes(models.deep_view()),
            Err(e) => e == WriteError::TooLong && !models_fit(models.deep_view()),
        },
{
    let ghost write = |m: ModelView| spec_model_bytes(m);
    let ghost views = models.deep_view();
    let mut k: usize = 0;
    while k < models.len()
        invariant
            k <= models@.len(),
            views == models.deep_view(),
            models_indexed(views),
            write == (|m: ModelView| spec_model_bytes(m)),
            forall|j: int| 0 <= j < k ==> model_fits(#[trigger] views[j]),
            writer@ == old(writer)@ + concat_map(views.subrange(0, k as int), write),
        decreases models@.len() - k,
    {
        proof {
            assert(views[k as int] == models@[k as int].deep_view());
            lemma_concat_map_push(views.subrange(0, k as int), write, views[k as int]);
            assert(views.subrange(0, k as int).push(views[k as int]) =~= views.subrange(0, k + 1));
        }
        write_model(writer, &models[k])?;
        assert(writer@ =~= old(writer)@ + concat_map(views.subrange(0, k + 1), write));
        k = k + 1;
    }
    assert(views.subrange(0, k as int) =~= views);
    Ok(())
}

/// Appends the dictionaries of the frames of a transform node.
fn write_frames(buffer: &mut Vec<u8>, frames: &Vec<Frame>) -> (r: Result<(), WriteError>)
    ensures
        match r {
            Ok(()) => frames_fit(frames.deep_view()) && final(buffer)@ == old(buffer)@
                + concat_map(frames.deep_view(), |f: Seq<Entry>| spec_dict_bytes(f)),
            Err(e) => e == WriteError::TooLong && !frames_fit(frames.deep_view()),
        },
{
    let ghost write = |f: Seq<Entry>| spec_dict_bytes(f);
    let ghost views = frames.deep_view();
    let mut k: usize = 0;
    while k < frames.len()
        invariant
            k <= frames@.len(),
            views == frames.deep_view(),
            write == (|f: Seq<Entry>| spec_dict_bytes(f)),
            forall|j: int| 0 <= j < k ==> dict_fits(#[trigger] views[j]),
            buffer@ == old(buffer)@ + concat_map(views.subrange(0, k as int), write),
        decreases frames@.len() - k,
    {
        proof {
            assert(views[k as int] == frames@[k as int].deep_view());
            lemma_concat_map_push(views.subrange(0, k as int), write, views[k as int]);
            assert(views.subrange(0, k as int).push(views[k as int]) =~= views.subrange(0, k + 1));
        }
        write_dict(buffer, frames[k].attributes())?;
        assert(buffer@ =~= old(buffer)@ + concat_map(views.subrange(0, k + 1), write));
        k = k + 1;
    }
    assert(views.subrange(0, k as int) =~= views);
    Ok(())
}

/// Appends the positions of the children of a group node.
fn write_children(buffer: &mut Vec<u8>, children: &Vec<u32>)
    ensures
        final(buffer)@ == old(buffer)@ + concat_map(children@, |c: u32| spec_u32_bytes(c)),
{
    let ghost write = |c: u32| spec_u32_bytes(c);
    let mut k: usize = 0;
    while k < children.len()
        invariant
            k <= children@.len(),
            write == (|c: u32| spec_u32_bytes(c)),
            buffer@ == old(buffer)@ + concat_map(children@.subrange(0, k as int), write),
        decreases children@.len() - k,
    {
        proof {
            lemma_concat_map_push(children@.subrange(0, k as int), write, children@[k as int]);
            assert(children@.subrange(0, k as int).push(children@[k as int])
                =~= children@.subrange(0, k + 1));
        }
        push_u32(buffer, children[k]);
        assert(buffer@ =~= old(buffer)@ + concat_map(children@.subrange(0, k + 1), write));
        k = k + 1;
    }
    assert(children@.subrange(0, k as int) =~= children@);
}

/// Appends the model references of a shape node.
fn write_shape_models(buffer: &mut Vec<u8>, models: &Vec<ShapeModel>) -> (r: Result<
    (),
    WriteError,
>)
    ensures
        match r {
            Ok(()) => shape_models_fit(models.deep_view()) && final(buffer)@ == old(buffer)@
                + concat_map(models.deep_view(), |m: ShapeModelView| spec_shape_model_bytes(m)),
            Err(e) => e == WriteError::TooLong && !shape_models_fit(models.deep_view()),
        },
{
    let ghost write = |m: ShapeModelView| spec_shape_model_bytes(m);
    let ghost views = models.deep_view();
    let mut k: usize = 0;
    while k < models.len()
        invariant
            k <= models@.len(),
            views == models.deep_view(),
            write == (|m: ShapeModelView| spec_shape_model_bytes(m)),
            forall|j: int| 0 <= j < k ==> dict_fits((#[trigger] views[j]).attributes),
            buffer@ == old(buffer)@ + concat_map(views.subrange(0, k as int), write),
        decreases models@.len() - k,
    {
        proof {
            assert(views[k as int] == models@[k as int].deep_view());
            lemma_concat_map_push(views.subrange(0, k as int), write, views[k as int]);
            assert(views.subrange(0, k as int).push(views[k as int]) =~= views.subrange(0, k + 1));
        }
        push_u32(buffer, models[k].model_id);
        write_dict(buffer, &models[k].attributes)?;
        assert(buffer@ =~= old(buffer)@ + concat_map(views.subrange(0, k + 1), write));
        k = k + 1;
    }
    assert(views.subrange(0, k as int) =~= views);
    Ok(())
}

/// The content of the chunk of a group node.
fn group_content(i: u32, attributes: &Dict, children: &Vec<u32>) -> (r: Result<
    Vec<u8>,
    WriteError,
>)
    ensures
        match r {
            Ok(content) => dict_fits(attributes.entries()) && children@.len() <= u32::MAX
                && content@ == spec_node_content(
                i,
                SceneNodeView::Group { attributes: attributes.entries(), children: children@ },
            ),
            Err(e) => e == WriteError::TooLong && !(dict_fits(attributes.entries())
                && children@.len() <= u32::MAX),
        },
{
    proof {
        reveal(spec_node_content);
    }
    let mut node_chunk: Vec<u8> = Vec::new();
    push_u32(&mut node_chunk, i);
    write_dict(&mut node_chunk, attributes)?;
    if children.len() > u32::MAX as usize {
        return Err(WriteError::TooLong);
    }
    push_u32(&mut node_chunk, children.len() as u32);
    write_children(&mut node_chunk, children);
    assert(node_chunk@ =~= spec_u32_bytes(i) + spec_dict_bytes(attributes.entries())
        + spec_u32_bytes(children@.len() as u32) + concat_map(
        children@,
        |c: u32| spec_u32_bytes(c),
    ));
    Ok(node_chunk)
}

/// The content of the chunk of a transform node.
fn transform_content(
    i: u32,
    attributes: &Dict,
    frames: &Vec<Frame>,
    child: u32,
    layer_id: u32,
) -> (r: Result<Vec<u8>, WriteError>)
    ensures
        match r {
            Ok(content) => dict_fits(attributes.entries()) && frames@.len() <= u32::MAX
                && frames_fit(frames.deep_view()) && content@ == spec_node_content(
                i,
                SceneNodeView::Transform {
                    attributes: attributes.entries(),
                    frames: frames.deep_view(),
                    child,
                    layer_id,
                },
            ),
            Err(e) => e == WriteError::TooLong && !(dict_fits(attributes.entries())
                && frames@.len() <= u32::MAX && frames_fit(frames.deep_view())),
        },
{
    proof {
        reveal(spec_node_content);
    }
    let mut node_chunk: Vec<u8> = Vec::new();
    push_u32(&mut node_chunk, i);
    write_dict(&mut node_chunk, attributes)?;
    push_u32(&mut node_chunk, child);
    push_u32(&mut node_chunk, u32::MAX);
    push_u32(&mut node_chunk, layer_id);
    if frames.len() > u32::MAX as usize {
        return Err(WriteError::TooLong);
    }
    push_u32(&mut node_chunk, frames.len() as u32);
    write_frames(&mut node_chunk, frames)?;
    assert(node_chunk@ =~= spec_u32_bytes(i) + spec_dict_bytes(attributes.entries())
        + spec_transform_fields_bytes(child, layer_id, frames.deep_view()));
    Ok(node_chunk)
}

/// The content of the chunk of a shape node.
fn shape_content(i: u32, attributes: &Dict, models: &Vec<ShapeModel>) -> (r: Result<
    Vec<u8>,
    WriteError,
>)
    ensures
        match r {
            Ok(content) => dict_fits(attributes.entries()) && models@.len() <= u32::MAX
                && shape_models_fit(models.deep_view()) && content@ == spec_node_content(
                i,
                SceneNodeView::Shape {
                    attributes: attributes.entries(),
                    models: models.deep_view(),
                },
            ),
            Err(e) => e == WriteError::TooLong && !(dict_fits(attributes.entries())
                && models@.len() <= u32::MAX && shape_models_fit(models.deep_view())),
        },
{
    proof {
        reveal(spec_node_content);
    }
    let mut node_chunk: Vec<u8> = Vec::new();
    push_u32(&mut node_chunk, i);
    write_dict(&mut node_chunk, attributes)?;
    if models.len() > u32::MAX as usize {
        return Err(WriteError::TooLong);
    }
    push_u32(&mut node_chunk, models.len() as u32);
    write_shape_models(&mut node_chunk, models)?;
    assert(node_chunk@ =~= spec_u32_bytes(i) + spec_dict_bytes(attributes.entries())
        + spec_u32_bytes(models@.len() as u32) + concat_map(
        models.deep_view(),
        |m: ShapeModelView| spec_shape_model_bytes(m),
    ));
    Ok(node_chunk)
}

/// Appends the chunk of a node, with `i`, its position among the nodes, as
/// its number.
fn write_scene_node(writer: &mut Vec<u8>, node: &SceneNode, i: u32) -> (r: Result<(), WriteError>)
    ensures
        match r {
            Ok(()) => node_fits(i, node.deep_view()) && final(writer)@ == old(writer)@
                + spec_node_bytes(i, node.deep_view()),
            Err(e) => e == WriteError::TooLong && !node_fits(i, node.deep_view()),
        },
{
    proof {
        reveal(node_fits);
    }
    let id: Vec<u8>;
    let node_chunk: Vec<u8>;
    match node {
        SceneNode::Group { attributes, children } => {
            id = id_bytes(0x6e, 0x47, 0x52, 0x50);
            node_chunk = match group_content(i, attributes, children) {
                Ok(content) => content,
                Err(e) => {
                    return Err(e);
                },
            };
        },
        SceneNode::Transform { frames, child, layer_id, attributes } => {
            id = id_bytes(0x6e, 0x54, 0x52, 0x4e);
            node_chunk = match transform_content(i, attributes, frames, *child, *layer_id) {
                Ok(content) => content,
                Err(e) => {
                    return Err(e);
                },
            };
        },
        SceneNode::Shape { attributes, models } => {
            id = id_bytes(0x6e, 0x53, 0x48, 0x50);
            node_chunk = match shape_content(i, attributes, models) {
                Ok(content) => content,
                Err(e) => {
                    return Err(e);
                },
            };
        },
    }
    write_leaf_chunk(writer, id.as_slice(), node_chunk.as_slice())
}

/// Appends the chunks of the nodes. Each node is written under its position,
/// which is what the other nodes refer to it by.
fn write_scene_graph(writer: &mut Vec<u8>, scenes: &Vec<SceneNode>) -> (r: Result<(), WriteError>)
    ensures
        match r {
            Ok(()) => scene_fits(scenes.deep_view()) && final(writer)@ == old(writer)@
                + spec_scene_bytes(scenes.deep_view()),
            Err(e) => e == WriteError::TooLong && !scene_fits(scenes.deep_view()),
        },
{
    let ghost views = scenes.deep_view();
    let mut i: usize = 0;
    assert(views.subrange(0, 0) =~= Seq::<SceneNodeView>::empty());
    while i < scenes.len()
        invariant
            i <= scenes@.len(),
            views == scenes.deep_view(),
            forall|j: int| 0 <= j < i ==> j <= u32::MAX && node_fits(j as u32, #[trigger] views[j]),
            writer@ == old(writer)@ + spec_scene_bytes(views.subrange(0, i as int)),
        decreases scenes@.len() - i,
    {
        if i > u32::MAX as usize {
            assert(!scene_fits(views)) by {
                let node = views[i as int];
                assert(i > u32::MAX);
            }
            return Err(WriteError::TooLong);
        }
        proof {
            assert(views[i as int] == scenes@[i as int].deep_view());
            let taken = views.subrange(0, i + 1);
            assert(taken.drop_last() =~= views.subrange(0, i as int));
            assert(taken.last() == views[i as int]);
        }
        write_scene_node(writer, &scenes[i], i as u32)?;
        assert(writer@ =~= old(writer)@ + spec_scene_bytes(views.subrange(0, i + 1)));
        i = i + 1;
    }
    assert(views.subrange(0, i as int) =~= views);
    Ok(())
}

/// Appends the palette chunk: four bytes for each colour.
fn write_palette_chunk(writer: &mut Vec<u8>, palette: &Vec<Color>) -> (r: Result<(), WriteError>)
    ensures
        match r {
            Ok(()) => 4 * palette@.len() <= u32::MAX && final(writer)@ == old(writer)@
                + spec_leaf_bytes(id_palette(), spec_palette_bytes(palette@)),
            Err(e) => e == WriteError::TooLong && 4 * palette@.len() > u32::MAX,
        },
{
    let ghost write = |c: Color| spec_color_bytes(c);
    let mut chunk: Vec<u8> = Vec::new();
    let mut k: usize = 0;
    while k < palette.len()
        invariant
            k <= palette@.len(),
            write == (|c: Color| spec_color_bytes(c)),
            chunk@.len() == 4 * k,
            chunk@ == concat_map(palette@.subrange(0, k as int), write),
        decreases palette@.len() - k,
    {
        let color: Color = palette[k];
        proof {
            lemma_concat_map_push(palette@.subrange(0, k as int), write, color);
            assert(palette@.subrange(0, k as int).push(color) =~= palette@.subrange(0, k + 1));
        }
        chunk.push(color.r);
        chunk.push(color.g);
        chunk.push(color.b);
        chunk.push(color.a);
        assert(chunk@ =~= concat_map(palette@.subrange(0, k + 1), write));
        k = k + 1;
    }
    assert(palette@.subrange(0, k as int) =~= palette@);
    let id = id_bytes(0x52, 0x47, 0x42, 0x41);
    write_leaf_chunk(writer, id.as_slice(), chunk.as_slice())
}

/// Appends the start of a file: the magic number and the version.
fn write_header(writer: &mut Vec<u8>, version: u32)
    ensures
        final(writer)@ == old(writer)@ + magic_number() + spec_u32_bytes(version),
{
    let magic = id_bytes(0x56, 0x4f, 0x58, 0x20);
    push_bytes(writer, magic.as_slice());
    push_u32(writer, version);
}

/// Appends the start of the `MAIN` chunk, which has no content of its own.
fn write_main_chunk(writer: &mut Vec<u8>, num_children_bytes: u32)
    ensures
        final(writer)@ == old(writer)@ + spec_chunk_header_bytes(
            id_main(),
            0,
            num_children_bytes as nat,
        ),
{
    let id = id_bytes(0x4d, 0x41, 0x49, 0x4e);
    let none: Vec<u8> = Vec::new();
    let _ = write_chunk(writer, id.as_slice(), none.as_slice(), num_children_bytes);
    assert(writer@ =~= old(writer)@ + spec_chunk_header_bytes(
        id_main(),
        0,
        num_children_bytes as nat,
    ));
}

/// Whether no voxel of the models has the palette index 255.
fn check_indices(models: &Vec<Model>) -> (indexed: bool)
    ensures
        indexed == models_indexed(models.deep_view()),
{
    let ghost views = models.deep_view();
    let mut m: usize = 0;
    while m < models.len()
        invariant
            m <= models@.len(),
            views == models.deep_view(),
            forall|j: int| 0 <= j < m ==> voxels_indexed((#[trigger] views[j]).voxels),
        decreases models@.len() - m,
    {
        let voxels = &models[m].voxels;
        assert(views[m as int].voxels == voxels@);
        let mut k: usize = 0;
        while k < voxels.len()
            invariant
                k <= voxels@.len(),
                m < views.len(),
                views == models.deep_view(),
                views[m as int].voxels == voxels@,
                forall|j: int| 0 <= j < k ==> (#[trigger] voxels@[j]).i != 255,
            decreases voxels@.len() - k,
        {
            if voxels[k].i == 255 {
                assert(voxels@[k as int].i == 255);
                assert(!voxels_indexed(views[m as int].voxels));
                assert(!models_indexed(views));
                return false;
            }
            k = k + 1;
        }
        m = m + 1;
    }
    true
}

impl DotVoxData {
    /// Writes the data in the `.vox` format to the end of `writer`: the
    /// models, the scene graph and the palette, under one `MAIN` chunk.
    /// Materials and layers are not written. Where the data cannot be written,
    /// `writer` is left as it was.
    pub fn write_vox(&self, writer: &mut Vec<u8>) -> (r: Result<(), WriteError>)
        ensures
            match r {
                Ok(()) => models_indexed(self.deep_view().models) && data_fits(self.deep_view())
                    && final(writer)@ == old(writer)@ + spec_write_vox(self.deep_view()),
                Err(WriteError::PaletteIndex) => !models_indexed(self.deep_view().models)
                    && final(writer)@ == old(writer)@,
                Err(WriteError::TooLong) => models_indexed(self.deep_view().models) && !data_fits(
                    self.deep_view(),
                ) && final(writer)@ == old(writer)@,
            },
    {
        if !check_indices(&self.models) {
            return Err(WriteError::PaletteIndex);
        }
        // The children of MAIN are written first, for the number of their bytes.
        let mut children_buffer: Vec<u8> = Vec::new();
        write_models(&mut children_buffer, &self.models)?;
        write_scene_graph(&mut children_buffer, &self.scenes)?;
        write_palette_chunk(&mut children_buffer, &self.palette)?;
        assert(children_buffer@ =~= spec_children_bytes(self.deep_view()));
        if children_buffer.len() > u32::MAX as usize {
            return Err(WriteError::TooLong);
        }
        let num_main_children_bytes: u32 = children_buffer.len() as u32;
        write_header(writer, self.version);
        write_main_chunk(writer, num_main_children_bytes);
        push_bytes(writer, children_buffer.as_slice());
        assert(writer@ =~= old(writer)@ + spec_write_vox(self.deep_view()));
        Ok(())
    }
}

} // verus!
