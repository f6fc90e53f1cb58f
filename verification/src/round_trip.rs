//! What is written is read back: the laws that tie the writer to the
//! decoder.

use vstd::prelude::*;
use vstd::utf8::{
    encode_utf8, encode_utf8_valid_utf8, is_ascii_chars, is_ascii_chars_encode_utf8, valid_utf8,
};
use crate::bytes::{
    concat_map, lemma_concat_map_len, lemma_parse_u32_written, lemma_repeat_parse_written,
    lemma_take_written, lemma_u32_bytes_round_trip, spec_parse_u32, spec_u32_bytes,
};
use crate::dict::{
    dict_fits, entries_unique, lemma_dict_written, spec_dict_bytes, spec_parse_dict, Entry,
};
use crate::dot_vox_data::{
    data_fits, frames_fit, model_fits, models_fit, models_indexed, node_fits, scene_fits,
    spec_children_bytes, spec_chunk_header_bytes, spec_leaf_bytes, spec_model_bytes,
    spec_models_bytes, spec_node_bytes, spec_node_content, spec_scene_bytes, spec_shape_model_bytes,
    spec_transform_fields_bytes, spec_write_vox, DotVoxDataView,
};
use crate::error::FormatError;
use crate::model::{
    lemma_size_written, lemma_voxels_written, spec_size_bytes, spec_voxels_bytes, voxels_indexed,
    ModelView,
};
use crate::palette::{lemma_palette_written, spec_palette_bytes, Color};
use crate::parser::{
    id_group, id_main, id_material, id_palette, id_shape, id_size, id_transform, id_voxels,
    magic_number, spec_build_leaf, spec_gather, spec_gather_start, spec_gather_step,
    spec_parse_chunk, spec_parse_chunk_header, spec_parse_chunks, ChunkHeaderView, ChunkView,
    Gathered,
};
use crate::spec_load_bytes;
use crate::scene::{
    spec_parse_counted, spec_parse_node_header, spec_parse_scene_group, spec_parse_scene_shape,
    spec_parse_scene_transform, spec_parse_shape_model, spec_parse_transform_fields, NodeHeaderView,
    SceneGroupView, SceneNodeView, SceneShapeView, SceneTransformView, ShapeModelView,
};

verus! {

/// Four bytes below 128 are UTF-8.
pub proof fn lemma_ascii_id(id: Seq<u8>)
    requires
        id.len() == 4,
        forall|k: int| 0 <= k < 4 ==> id[k] < 128,
    ensures
        valid_utf8(id),
{
    let chars = Seq::new(4, |k: int| id[k] as char);
    assert(is_ascii_chars(chars));
    is_ascii_chars_encode_utf8(chars);
    assert(encode_utf8(chars) =~= id);
    encode_utf8_valid_utf8(chars);
}

/// The start of a chunk that was written, with its content and its
/// children, in front of `tail`, is read back, and `tail` is left.
pub proof fn lemma_chunk_header_written(
    id: Seq<u8>,
    content: Seq<u8>,
    children: Seq<u8>,
    tail: Seq<u8>,
)
    requires
        id.len() == 4,
        valid_utf8(id),
        content.len() <= u32::MAX,
        children.len() <= u32::MAX,
    ensures
        spec_parse_chunk_header(
            spec_chunk_header_bytes(id, content.len(), children.len()) + content + children + tail,
        ) == Ok::<(Seq<u8>, ChunkHeaderView), FormatError>(
            (
                tail,
                ChunkHeaderView {
                    id,
                    content,
                    children_size: children.len() as u32,
                    child_content: children,
                },
            ),
        ),
{
    reveal(spec_parse_chunk_header);
    let content_len = content.len() as u32;
    let children_len = children.len() as u32;
    let i = spec_chunk_header_bytes(id, content.len(), children.len()) + content + children + tail;
    let after_id = spec_u32_bytes(content_len) + (spec_u32_bytes(children_len) + (content + (
    children + tail)));
    assert(i =~= id + after_id);
    lemma_take_written(id, after_id);
    lemma_parse_u32_written(content_len, spec_u32_bytes(children_len) + (content + (children + tail)));
    lemma_parse_u32_written(children_len, content + (children + tail));
    lemma_take_written(content, children + tail);
    lemma_take_written(children, tail);
}

/// A chunk without children that was written in front of `tail` is read
/// back as the chunk that its id and its content stand for.
pub proof fn lemma_leaf_written(id: Seq<u8>, content: Seq<u8>, tail: Seq<u8>)
    requires
        id.len() == 4,
        valid_utf8(id),
        content.len() <= u32::MAX,
    ensures
        spec_parse_chunk(spec_leaf_bytes(id, content) + tail) == Ok::<
            (Seq<u8>, ChunkView),
            FormatError,
        >((tail, spec_build_leaf(id, content))),
{
    let none = Seq::<u8>::empty();
    lemma_chunk_header_written(id, content, none, tail);
    assert(spec_leaf_bytes(id, content) + tail =~= spec_chunk_header_bytes(id, content.len(), 0)
        + content + none + tail);
}

/// No key occurs twice in any of the dictionaries.
pub open spec fn frames_wf(frames: Seq<Seq<Entry>>) -> bool {
    forall|k: int| 0 <= k < frames.len() ==> entries_unique(#[trigger] frames[k])
}

/// No key occurs twice in the attributes of any of the model references.
pub open spec fn shape_models_wf(models: Seq<ShapeModelView>) -> bool {
    forall|k: int| 0 <= k < models.len() ==> entries_unique((#[trigger] models[k]).attributes)
}

/// No key occurs twice in any dictionary of the node. Every node that the
/// program holds is so.
pub open spec fn node_wf(node: SceneNodeView) -> bool {
    match node {
        SceneNodeView::Transform { attributes, frames, child, layer_id } => entries_unique(
            attributes,
        ) && frames_wf(frames),
        SceneNodeView::Group { attributes, children } => entries_unique(attributes),
        SceneNodeView::Shape { attributes, models } => entries_unique(attributes)
            && shape_models_wf(models),
    }
}

/// Elements that were written in front of `tail`, after their number, are
/// read back, where each of them takes at least `minimum` bytes.
pub proof fn lemma_counted_written<T>(
    f: spec_fn(Seq<u8>) -> Result<(Seq<u8>, T), FormatError>,
    g: spec_fn(T) -> Seq<u8>,
    valid: spec_fn(T) -> bool,
    s: Seq<T>,
    tail: Seq<u8>,
    minimum: nat,
)
    requires
        minimum > 0,
        s.len() <= u32::MAX,
        forall|x: T, t: Seq<u8>|
            valid(x) ==> #[trigger] f(g(x) + t) == Ok::<(Seq<u8>, T), FormatError>((t, x)),
        forall|x: T| valid(x) ==> (#[trigger] g(x)).len() >= minimum,
        forall|k: int| 0 <= k < s.len() ==> valid(#[trigger] s[k]),
    ensures
        spec_parse_counted(f, concat_map(s, g) + tail, s.len() as u32, minimum) == Ok::<
            (Seq<u8>, Seq<T>),
            FormatError,
        >((tail, s)),
{
    let body = concat_map(s, g);
    assert forall|k: int| 0 <= k < s.len() implies g(#[trigger] s[k]).len() >= minimum by {
        assert(valid(s[k]));
    }
    lemma_concat_map_len(s, g, minimum);
    assert(s.len() <= (body + tail).len() / minimum) by (nonlinear_arith)
        requires
            s.len() * minimum <= (body + tail).len(),
            minimum > 0,
    ;
    lemma_repeat_parse_written(f, g, valid, s, tail, Seq::<T>::empty());
    assert(Seq::<T>::empty() + s =~= s);
}

/// A model reference that was written in front of `tail` is read back.
pub proof fn lemma_shape_model_written(model: ShapeModelView, tail: Seq<u8>)
    requires
        entries_unique(model.attributes),
        dict_fits(model.attributes),
    ensures
        spec_parse_shape_model(spec_shape_model_bytes(model) + tail) == Ok::<
            (Seq<u8>, ShapeModelView),
            FormatError,
        >((tail, model)),
        spec_shape_model_bytes(model).len() >= 8,
{
    reveal(spec_parse_shape_model);
    let rest = spec_dict_bytes(model.attributes) + tail;
    assert(spec_shape_model_bytes(model) + tail =~= spec_u32_bytes(model.model_id) + rest);
    lemma_parse_u32_written(model.model_id, rest);
    lemma_u32_bytes_round_trip(model.model_id);
    lemma_dict_written(model.attributes, tail);
}

/// The start of a node that was written in front of `tail` is read back.
pub proof fn lemma_node_header_written(id: u32, attributes: Seq<Entry>, tail: Seq<u8>)
    requires
        entries_unique(attributes),
        dict_fits(attributes),
    ensures
        spec_parse_node_header(spec_u32_bytes(id) + spec_dict_bytes(attributes) + tail) == Ok::<
            (Seq<u8>, NodeHeaderView),
            FormatError,
        >((tail, NodeHeaderView { id, attributes })),
{
    reveal(spec_parse_node_header);
    let rest = spec_dict_bytes(attributes) + tail;
    assert(spec_u32_bytes(id) + spec_dict_bytes(attributes) + tail =~= spec_u32_bytes(id) + rest);
    lemma_parse_u32_written(id, rest);
    lemma_dict_written(attributes, tail);
}

/// The frames of a transform node that were written in front of `tail`,
/// after their number, are read back.
pub proof fn lemma_frames_written(frames: Seq<Seq<Entry>>, tail: Seq<u8>)
    requires
        frames_wf(frames),
        frames_fit(frames),
        frames.len() <= u32::MAX,
    ensures
        spec_parse_counted(
            |b: Seq<u8>| spec_parse_dict(b),
            concat_map(frames, |f: Seq<Entry>| spec_dict_bytes(f)) + tail,
            frames.len() as u32,
            4,
        ) == Ok::<(Seq<u8>, Seq<Seq<Entry>>), FormatError>((tail, frames)),
{
    let write = |f: Seq<Entry>| spec_dict_bytes(f);
    let read = |b: Seq<u8>| spec_parse_dict(b);
    let valid = |f: Seq<Entry>| entries_unique(f) && dict_fits(f);
    assert forall|f: Seq<Entry>, t: Seq<u8>| valid(f) implies #[trigger] read(write(f) + t) == Ok::<
        (Seq<u8>, Seq<Entry>),
        FormatError,
    >((t, f)) by {
        lemma_dict_written(f, t);
    }
    assert forall|f: Seq<Entry>| valid(f) implies (#[trigger] write(f)).len() >= 4 by {
        lemma_dict_written(f, tail);
    }
    lemma_counted_written(read, write, valid, frames, tail, 4);
}

/// What was written behind the header of a transform node is read back.
pub proof fn lemma_transform_fields_written(child: u32, layer_id: u32, frames: Seq<Seq<Entry>>)
    requires
        frames_wf(frames),
        frames_fit(frames),
        frames.len() <= u32::MAX,
    ensures
        spec_parse_transform_fields(spec_transform_fields_bytes(child, layer_id, frames)) == Ok::<
            (Seq<u8>, (u32, u32, Seq<Seq<Entry>>)),
            FormatError,
        >((Seq::<u8>::empty(), (child, layer_id, frames))),
{
    reveal(spec_parse_transform_fields);
    let none = Seq::<u8>::empty();
    let count = frames.len() as u32;
    let written = concat_map(frames, |f: Seq<Entry>| spec_dict_bytes(f));
    let t4 = spec_u32_bytes(count) + written;
    let t3 = spec_u32_bytes(layer_id) + t4;
    let t2 = spec_u32_bytes(u32::MAX) + t3;
    lemma_parse_u32_written(child, t2);
    lemma_parse_u32_written(u32::MAX, t3);
    lemma_parse_u32_written(layer_id, t4);
    lemma_parse_u32_written(count, written);
    lemma_frames_written(frames, none);
    assert(written + none =~= written);
}

/// The content of a transform node that was written is read back, with the
/// position under which it was written as its number.
pub proof fn lemma_transform_written(
    index: u32,
    attributes: Seq<Entry>,
    frames: Seq<Seq<Entry>>,
    child: u32,
    layer_id: u32,
)
    requires
        node_wf(SceneNodeView::Transform { attributes, frames, child, layer_id }),
        node_fits(index, SceneNodeView::Transform { attributes, frames, child, layer_id }),
    ensures
        spec_parse_scene_transform(
            spec_node_content(
                index,
                SceneNodeView::Transform { attributes, frames, child, layer_id },
            ),
        ) == Ok::<(Seq<u8>, SceneTransformView), FormatError>(
            (
                Seq::<u8>::empty(),
                SceneTransformView {
                    header: NodeHeaderView { id: index, attributes },
                    child,
                    layer_id,
                    frames,
                },
            ),
        ),
{
    reveal(spec_node_content);
    reveal(node_fits);
    reveal(spec_parse_scene_transform);
    lemma_node_header_written(
        index,
        attributes,
        spec_transform_fields_bytes(child, layer_id, frames),
    );
    lemma_transform_fields_written(child, layer_id, frames);
}

/// The content of a group node that was written is read back.
pub proof fn lemma_group_written(index: u32, attributes: Seq<Entry>, children: Seq<u32>)
    requires
        node_wf(SceneNodeView::Group { attributes, children }),
        node_fits(index, SceneNodeView::Group { attributes, children }),
    ensures
        spec_parse_scene_group(
            spec_node_content(index, SceneNodeView::Group { attributes, children }),
        ) == Ok::<(Seq<u8>, SceneGroupView), FormatError>(
            (
                Seq::<u8>::empty(),
                SceneGroupView { header: NodeHeaderView { id: index, attributes }, children },
            ),
        ),
{
    reveal(spec_node_content);
    reveal(node_fits);
    reveal(spec_parse_scene_group);
    let write = |c: u32| spec_u32_bytes(c);
    let read = |b: Seq<u8>| spec_parse_u32(b);
    let valid = |c: u32| true;
    let none = Seq::<u8>::empty();
    let content = spec_node_content(index, SceneNodeView::Group { attributes, children });
    let count = children.len() as u32;
    let t2 = concat_map(children, write) + none;
    let t1 = spec_u32_bytes(count) + t2;
    assert(content =~= spec_u32_bytes(index) + spec_dict_bytes(attributes) + t1);
    lemma_node_header_written(index, attributes, t1);
    lemma_parse_u32_written(count, t2);
    assert forall|c: u32, t: Seq<u8>| valid(c) implies #[trigger] read(write(c) + t) == Ok::<
        (Seq<u8>, u32),
        FormatError,
    >((t, c)) by {
        lemma_parse_u32_written(c, t);
    }
    assert forall|c: u32| valid(c) implies (#[trigger] write(c)).len() >= 4 by {
        lemma_u32_bytes_round_trip(c);
    }
    lemma_counted_written(read, write, valid, children, none, 4);
}

/// The content of a shape node that was written is read back.
pub proof fn lemma_shape_written(index: u32, attributes: Seq<Entry>, models: Seq<ShapeModelView>)
    requires
        node_wf(SceneNodeView::Shape { attributes, models }),
        node_fits(index, SceneNodeView::Shape { attributes, models }),
    ensures
        spec_parse_scene_shape(
            spec_node_content(index, SceneNodeView::Shape { attributes, models }),
        ) == Ok::<(Seq<u8>, SceneShapeView), FormatError>(
            (
                Seq::<u8>::empty(),
                SceneShapeView { header: NodeHeaderView { id: index, attributes }, models },
            ),
        ),
{
    reveal(spec_node_content);
    reveal(node_fits);
    reveal(spec_parse_scene_shape);
    let write = |m: ShapeModelView| spec_shape_model_bytes(m);
    let read = |b: Seq<u8>| spec_parse_shape_model(b);
    let valid = |m: ShapeModelView| entries_unique(m.attributes) && dict_fits(m.attributes);
    let none = Seq::<u8>::empty();
    let content = spec_node_content(index, SceneNodeView::Shape { attributes, models });
    let count = models.len() as u32;
    let t2 = concat_map(models, write) + none;
    let t1 = spec_u32_bytes(count) + t2;
    assert(content =~= spec_u32_bytes(index) + spec_dict_bytes(attributes) + t1);
    lemma_node_header_written(index, attributes, t1);
    lemma_parse_u32_written(count, t2);
    assert forall|m: ShapeModelView, t: Seq<u8>| valid(m) implies #[trigger] read(write(m) + t)
        == Ok::<(Seq<u8>, ShapeModelView), FormatError>((t, m)) by {
        lemma_shape_model_written(m, t);
    }
    assert forall|m: ShapeModelView| valid(m) implies (#[trigger] write(m)).len() >= 8 by {
        lemma_shape_model_written(m, none);
    }
    lemma_counted_written(read, write, valid, models, none, 8);
}

/// The chunk that a node is read back as, after it was written under the
/// position `index`.
pub open spec fn spec_node_chunk(index: u32, node: SceneNodeView) -> ChunkView {
    match node {
        SceneNodeView::Transform { attributes, frames, child, layer_id } => ChunkView::TransformNode(
            SceneTransformView {
                header: NodeHeaderView { id: index, attributes },
                child,
                layer_id,
                frames,
            },
        ),
        SceneNodeView::Group { attributes, children } => ChunkView::GroupNode(
            SceneGroupView { header: NodeHeaderView { id: index, attributes }, children },
        ),
        SceneNodeView::Shape { attributes, models } => ChunkView::ShapeNode(
            SceneShapeView { header: NodeHeaderView { id: index, attributes }, models },
        ),
    }
}

/// The chunks that written models are read back as: for each model its
/// size, then its voxels.
pub open spec fn model_chunks(models: Seq<ModelView>) -> Seq<ChunkView>
    decreases models.len(),
{
    if models.len() == 0 {
        Seq::empty()
    } else {
        model_chunks(models.drop_last()).push(ChunkView::Size(models.last().size)).push(
            ChunkView::Voxels(models.last().voxels),
        )
    }
}

/// The chunks that written nodes are read back as.
pub open spec fn node_chunks(nodes: Seq<SceneNodeView>) -> Seq<ChunkView> {
    Seq::new(nodes.len(), |k: int| spec_node_chunk(k as u32, nodes[k]))
}

/// The chunks that written data is read back as: those of the models, those
/// of the nodes, and the palette.
pub open spec fn written_chunks(data: DotVoxDataView) -> Seq<ChunkView> {
    (model_chunks(data.models) + node_chunks(data.scenes)).push(ChunkView::Palette(data.palette))
}

/// No key occurs twice in any dictionary of the nodes.
pub open spec fn scene_wf(nodes: Seq<SceneNodeView>) -> bool {
    forall|k: int| 0 <= k < nodes.len() ==> node_wf(#[trigger] nodes[k])
}

/// The ids that the writer uses are UTF-8 and differ from each other.
pub proof fn lemma_ids()
    ensures
        valid_utf8(id_main()),
        valid_utf8(id_size()),
        valid_utf8(id_voxels()),
        valid_utf8(id_palette()),
        valid_utf8(id_transform()),
        valid_utf8(id_group()),
        valid_utf8(id_shape()),
        id_voxels() != id_size(),
        id_palette() != id_size() && id_palette() != id_voxels(),
        id_transform() != id_size() && id_transform() != id_voxels() && id_transform()
            != id_palette() && id_transform() != id_material(),
        id_group() != id_size() && id_group() != id_voxels() && id_group() != id_palette()
            && id_group() != id_material() && id_group() != id_transform(),
        id_shape() != id_size() && id_shape() != id_voxels() && id_shape() != id_palette()
            && id_shape() != id_material() && id_shape() != id_transform() && id_shape()
            != id_group(),
{
    lemma_ascii_id(id_main());
    lemma_ascii_id(id_size());
    lemma_ascii_id(id_voxels());
    lemma_ascii_id(id_palette());
    lemma_ascii_id(id_transform());
    lemma_ascii_id(id_group());
    lemma_ascii_id(id_shape());
    assert(id_size()[0] == 0x53 && id_size()[1] == 0x49);
    assert(id_voxels()[0] == 0x58);
    assert(id_palette()[0] == 0x52);
    assert(id_material()[0] == 0x4d);
    assert(id_transform()[0] == 0x6e && id_transform()[1] == 0x54);
    assert(id_group()[0] == 0x6e && id_group()[1] == 0x47);
    assert(id_shape()[0] == 0x6e && id_shape()[1] == 0x53);
}

/// Under each id that the writer uses, a content is read as the chunk of
/// that id.
pub proof fn lemma_leaf_by_id(content: Seq<u8>)
    ensures
        spec_build_leaf(id_size(), content) == crate::parser::spec_size_chunk(content),
        spec_build_leaf(id_voxels(), content) == crate::parser::spec_voxel_chunk(content),
        spec_build_leaf(id_palette(), content) == crate::parser::spec_palette_chunk(content),
        spec_build_leaf(id_transform(), content) == crate::parser::spec_scene_transform_chunk(
            content,
        ),
        spec_build_leaf(id_group(), content) == crate::parser::spec_scene_group_chunk(content),
        spec_build_leaf(id_shape(), content) == crate::parser::spec_scene_shape_chunk(content),
{
    reveal(spec_build_leaf);
    lemma_ids();
}

/// One chunk that is read from the front of `i` is added to the chunks read
/// so far.
pub proof fn lemma_chunks_step(i: Seq<u8>, acc: Seq<ChunkView>)
    requires
        spec_parse_chunk(i) is Ok,
    ensures
        spec_parse_chunks(i, acc) == spec_parse_chunks(
            spec_parse_chunk(i)->Ok_0.0,
            acc.push(spec_parse_chunk(i)->Ok_0.1),
        ),
{
    crate::parser::lemma_chunk_len(i);
    crate::parser::lemma_chunks_unfold(i, acc);
}

/// A size chunk that was written in front of `tail` is read back.
pub proof fn lemma_size_chunk_written(size: crate::model::Size, tail: Seq<u8>)
    ensures
        spec_parse_chunk(spec_leaf_bytes(id_size(), spec_size_bytes(size)) + tail) == Ok::<
            (Seq<u8>, ChunkView),
            FormatError,
        >((tail, ChunkView::Size(size))),
{
    lemma_ids();
    let none = Seq::<u8>::empty();
    let content = spec_size_bytes(size);
    lemma_leaf_by_id(content);
    lemma_size_written(size, none);
    assert(content + none =~= content);
    lemma_leaf_written(id_size(), content, tail);
}

/// A voxel chunk that was written in front of `tail` is read back.
pub proof fn lemma_voxel_chunk_written(voxels: Seq<crate::model::Voxel>, tail: Seq<u8>)
    requires
        4 + 4 * voxels.len() <= u32::MAX,
        voxels_indexed(voxels),
    ensures
        spec_parse_chunk(spec_leaf_bytes(id_voxels(), spec_voxels_bytes(voxels)) + tail) == Ok::<
            (Seq<u8>, ChunkView),
            FormatError,
        >((tail, ChunkView::Voxels(voxels))),
{
    lemma_ids();
    let none = Seq::<u8>::empty();
    let content = spec_voxels_bytes(voxels);
    lemma_leaf_by_id(content);
    lemma_voxels_written(voxels, none);
    assert(content + none =~= content);
    crate::model::lemma_voxels_bytes_len(voxels);
    lemma_leaf_written(id_voxels(), content, tail);
}

/// A palette chunk that was written in front of `tail` is read back.
pub proof fn lemma_palette_chunk_written(colors: Seq<Color>, tail: Seq<u8>)
    requires
        4 * colors.len() <= u32::MAX,
    ensures
        spec_parse_chunk(spec_leaf_bytes(id_palette(), spec_palette_bytes(colors)) + tail) == Ok::<
            (Seq<u8>, ChunkView),
            FormatError,
        >((tail, ChunkView::Palette(colors))),
        spec_leaf_bytes(id_palette(), spec_palette_bytes(colors)).len() >= 12,
{
    lemma_ids();
    lemma_leaf_by_id(spec_palette_bytes(colors));
    lemma_palette_written(colors);
    lemma_leaf_written(id_palette(), spec_palette_bytes(colors), tail);
}

/// The chunk of a transform node that was written in front of `tail` is
/// read back.
proof fn lemma_transform_chunk_written(
    index: u32,
    attributes: Seq<Entry>,
    frames: Seq<Seq<Entry>>,
    child: u32,
    layer_id: u32,
    tail: Seq<u8>,
)
    requires
        node_wf(SceneNodeView::Transform { attributes, frames, child, layer_id }),
        node_fits(index, SceneNodeView::Transform { attributes, frames, child, layer_id }),
    ensures
        spec_parse_chunk(
            spec_node_bytes(
                index,
                SceneNodeView::Transform { attributes, frames, child, layer_id },
            ) + tail,
        ) == Ok::<(Seq<u8>, ChunkView), FormatError>(
            (
                tail,
                spec_node_chunk(
                    index,
                    SceneNodeView::Transform { attributes, frames, child, layer_id },
                ),
            ),
        ),
{
    reveal(node_fits);
    let node = SceneNodeView::Transform { attributes, frames, child, layer_id };
    lemma_ids();
    lemma_transform_written(index, attributes, frames, child, layer_id);
    lemma_leaf_written(id_transform(), spec_node_content(index, node), tail);
    lemma_leaf_by_id(spec_node_content(index, node));
}

/// The chunk of a group node that was written in front of `tail` is read
/// back.
proof fn lemma_group_chunk_written(
    index: u32,
    attributes: Seq<Entry>,
    children: Seq<u32>,
    tail: Seq<u8>,
)
    requires
        node_wf(SceneNodeView::Group { attributes, children }),
        node_fits(index, SceneNodeView::Group { attributes, children }),
    ensures
        spec_parse_chunk(
            spec_node_bytes(index, SceneNodeView::Group { attributes, children }) + tail,
        ) == Ok::<(Seq<u8>, ChunkView), FormatError>(
            (tail, spec_node_chunk(index, SceneNodeView::Group { attributes, children })),
        ),
{
    reveal(node_fits);
    let node = SceneNodeView::Group { attributes, children };
    lemma_ids();
    lemma_group_written(index, attributes, children);
    lemma_leaf_written(id_group(), spec_node_content(index, node), tail);
    lemma_leaf_by_id(spec_node_content(index, node));
}

/// The chunk of a shape node that was written in front of `tail` is read
/// back.
proof fn lemma_shape_chunk_written(
    index: u32,
    attributes: Seq<Entry>,
    models: Seq<ShapeModelView>,
    tail: Seq<u8>,
)
    requires
        node_wf(SceneNodeView::Shape { attributes, models }),
        node_fits(index, SceneNodeView::Shape { attributes, models }),
    ensures
        spec_parse_chunk(
            spec_node_bytes(index, SceneNodeView::Shape { attributes, models }) + tail,
        ) == Ok::<(Seq<u8>, ChunkView), FormatError>(
            (tail, spec_node_chunk(index, SceneNodeView::Shape { attributes, models })),
        ),
{
    reveal(node_fits);
    let node = SceneNodeView::Shape { attributes, models };
    lemma_ids();
    lemma_shape_written(index, attributes, models);
    lemma_leaf_written(id_shape(), spec_node_content(index, node), tail);
    lemma_leaf_by_id(spec_node_content(index, node));
}

/// The chunk of a node that was written in front of `tail` is read back.
pub proof fn lemma_node_chunk_written(index: u32, node: SceneNodeView, tail: Seq<u8>)
    requires
        node_wf(node),
        node_fits(index, node),
    ensures
        spec_parse_chunk(spec_node_bytes(index, node) + tail) == Ok::<
            (Seq<u8>, ChunkView),
            FormatError,
        >((tail, spec_node_chunk(index, node))),
{
    match node {
        SceneNodeView::Transform { attributes, frames, child, layer_id } => {
            lemma_transform_chunk_written(index, attributes, frames, child, layer_id, tail);
        },
        SceneNodeView::Group { attributes, children } => {
            lemma_group_chunk_written(index, attributes, children, tail);
        },
        SceneNodeView::Shape { attributes, models } => {
            lemma_shape_chunk_written(index, attributes, models, tail);
        },
    }
}

/// A model that was written in front of `tail` is read back as its size and
/// its voxels.
pub proof fn lemma_model_written(model: ModelView, tail: Seq<u8>, acc: Seq<ChunkView>)
    requires
        model_fits(model),
        voxels_indexed(model.voxels),
    ensures
        spec_parse_chunks(spec_model_bytes(model) + tail, acc) == spec_parse_chunks(
            tail,
            acc.push(ChunkView::Size(model.size)).push(ChunkView::Voxels(model.voxels)),
        ),
{
    let first = spec_leaf_bytes(id_size(), spec_size_bytes(model.size));
    let second = spec_leaf_bytes(id_voxels(), spec_voxels_bytes(model.voxels));
    assert(spec_model_bytes(model) + tail == first + (second + tail)) by {
        assert(first + second + tail =~= first + (second + tail));
    }
    lemma_size_chunk_written(model.size, second + tail);
    lemma_chunks_step(first + (second + tail), acc);
    lemma_voxel_chunk_written(model.voxels, tail);
    lemma_chunks_step(second + tail, acc.push(ChunkView::Size(model.size)));
}

/// Models that were written in front of `tail` are read back as their
/// chunks.
pub proof fn lemma_models_written(models: Seq<ModelView>, tail: Seq<u8>, acc: Seq<ChunkView>)
    requires
        models_fit(models),
        models_indexed(models),
    ensures
        spec_parse_chunks(spec_models_bytes(models) + tail, acc) == spec_parse_chunks(
            tail,
            acc + model_chunks(models),
        ),
    decreases models.len(),
{
    if models.len() == 0 {
        assert(spec_models_bytes(models) + tail =~= tail);
        assert(acc + model_chunks(models) =~= acc);
    } else {
        let front = models.drop_last();
        let last = models.last();
        assert(models_fit(front) && models_indexed(front)) by {
            assert forall|k: int| 0 <= k < front.len() implies model_fits(#[trigger] front[k])
                && voxels_indexed(front[k].voxels) by {
                assert(front[k] == models[k]);
            }
        }
        assert(model_fits(last) && voxels_indexed(last.voxels)) by {
            assert(last == models[models.len() - 1]);
        }
        assert(spec_models_bytes(models) + tail =~= spec_models_bytes(front) + (spec_model_bytes(
            last,
        ) + tail));
        lemma_models_written(front, spec_model_bytes(last) + tail, acc);
        lemma_model_written(last, tail, acc + model_chunks(front));
        assert((acc + model_chunks(front)).push(ChunkView::Size(last.size)).push(
            ChunkView::Voxels(last.voxels),
        ) =~= acc + model_chunks(models));
    }
}

/// A node that was written in front of `tail` is read back as its chunk.
pub proof fn lemma_node_written(
    index: u32,
    node: SceneNodeView,
    tail: Seq<u8>,
    acc: Seq<ChunkView>,
)
    requires
        node_wf(node),
        node_fits(index, node),
    ensures
        spec_parse_chunks(spec_node_bytes(index, node) + tail, acc) == spec_parse_chunks(
            tail,
            acc.push(spec_node_chunk(index, node)),
        ),
{
    lemma_node_chunk_written(index, node, tail);
    lemma_chunks_step(spec_node_bytes(index, node) + tail, acc);
}

/// Nodes that were written in front of `tail` are read back as their
/// chunks.
pub proof fn lemma_scene_written(nodes: Seq<SceneNodeView>, tail: Seq<u8>, acc: Seq<ChunkView>)
    requires
        scene_wf(nodes),
        scene_fits(nodes),
    ensures
        spec_parse_chunks(spec_scene_bytes(nodes) + tail, acc) == spec_parse_chunks(
            tail,
            acc + node_chunks(nodes),
        ),
    decreases nodes.len(),
{
    if nodes.len() == 0 {
        assert(spec_scene_bytes(nodes) + tail =~= tail);
        assert(acc + node_chunks(nodes) =~= acc);
    } else {
        let front = nodes.drop_last();
        let last = nodes.last();
        let index = (nodes.len() - 1) as u32;
        assert(scene_wf(front) && scene_fits(front)) by {
            assert forall|k: int| 0 <= k < front.len() implies node_wf(#[trigger] front[k]) && k
                <= u32::MAX && node_fits(k as u32, front[k]) by {
                assert(front[k] == nodes[k]);
            }
        }
        assert(node_wf(last) && node_fits(index, last)) by {
            assert(last == nodes[nodes.len() - 1]);
        }
        assert(spec_scene_bytes(nodes) + tail =~= spec_scene_bytes(front) + (spec_node_bytes(
            index,
            last,
        ) + tail));
        lemma_scene_written(front, spec_node_bytes(index, last) + tail, acc);
        lemma_node_written(index, last, tail, acc + node_chunks(front));
        assert((acc + node_chunks(front)).push(spec_node_chunk(index, last)) =~= acc
            + node_chunks(nodes));
    }
}

/// What was written under the `MAIN` chunk is read back as the chunks of the
/// models, of the nodes and of the palette.
pub proof fn lemma_children_written(data: DotVoxDataView)
    requires
        scene_wf(data.scenes),
        models_indexed(data.models),
        data_fits(data),
    ensures
        spec_parse_chunks(spec_children_bytes(data), Seq::<ChunkView>::empty()) == Ok::<
            Seq<ChunkView>,
            FormatError,
        >(written_chunks(data)),
        spec_children_bytes(data).len() >= 12,
{
    let none = Seq::<u8>::empty();
    let start = Seq::<ChunkView>::empty();
    let palette = spec_leaf_bytes(id_palette(), spec_palette_bytes(data.palette));
    let after_models = spec_scene_bytes(data.scenes) + palette;
    assert(spec_children_bytes(data) =~= spec_models_bytes(data.models) + after_models);
    lemma_models_written(data.models, after_models, start);
    lemma_scene_written(data.scenes, palette, start + model_chunks(data.models));
    let before = start + model_chunks(data.models) + node_chunks(data.scenes);
    lemma_palette_chunk_written(data.palette, none);
    assert(palette + none =~= palette);
    lemma_chunks_step(palette, before);
    assert(spec_parse_chunks(none, before.push(ChunkView::Palette(data.palette))) == Ok::<
        Seq<ChunkView>,
        FormatError,
    >(before.push(ChunkView::Palette(data.palette))));
    assert(before.push(ChunkView::Palette(data.palette)) =~= written_chunks(data));
}

/// Taking in one more chunk is one more step.
pub proof fn lemma_gather_push(chunks: Seq<ChunkView>, chunk: ChunkView, state: Gathered)
    ensures
        spec_gather(chunks.push(chunk), state) == spec_gather_step(
            spec_gather(chunks, state),
            chunk,
        ),
{
    assert(chunks.push(chunk).drop_last() =~= chunks);
}

/// Taking in two runs of chunks, one after the other, is taking in the
/// first and then the second.
pub proof fn lemma_gather_concat(first: Seq<ChunkView>, second: Seq<ChunkView>, state: Gathered)
    ensures
        spec_gather(first + second, state) == spec_gather(second, spec_gather(first, state)),
    decreases second.len(),
{
    if second.len() == 0 {
        assert(first + second =~= first);
    } else {
        lemma_gather_concat(first, second.drop_last(), state);
        assert((first + second).drop_last() =~= first + second.drop_last());
        assert((first + second).last() == second.last());
    }
}

/// Taking in the chunks of written models adds the models, where no size
/// waited before.
pub proof fn lemma_gather_models(models: Seq<ModelView>, state: Gathered)
    requires
        state.pending is None,
    ensures
        spec_gather(model_chunks(models), state) == (Gathered {
            pending: None,
            data: DotVoxDataView { models: state.data.models + models, ..state.data },
        }),
    decreases models.len(),
{
    if models.len() == 0 {
        assert(state.data.models + models =~= state.data.models);
    } else {
        let front = models.drop_last();
        let last = models.last();
        lemma_gather_models(front, state);
        let sized = model_chunks(front).push(ChunkView::Size(last.size));
        lemma_gather_push(model_chunks(front), ChunkView::Size(last.size), state);
        lemma_gather_push(sized, ChunkView::Voxels(last.voxels), state);
        assert((state.data.models + front).push(last) =~= state.data.models + models);
    }
}

/// Taking in the chunks of written nodes adds the nodes.
pub proof fn lemma_gather_nodes(nodes: Seq<SceneNodeView>, state: Gathered)
    ensures
        spec_gather(node_chunks(nodes), state) == (Gathered {
            pending: state.pending,
            data: DotVoxDataView { scenes: state.data.scenes + nodes, ..state.data },
        }),
    decreases nodes.len(),
{
    if nodes.len() == 0 {
        assert(state.data.scenes + nodes =~= state.data.scenes);
    } else {
        let front = nodes.drop_last();
        let last = nodes.last();
        let index = (nodes.len() - 1) as u32;
        lemma_gather_nodes(front, state);
        assert(node_chunks(nodes) =~= node_chunks(front).push(spec_node_chunk(index, last)));
        lemma_gather_push(node_chunks(front), spec_node_chunk(index, last), state);
        assert((state.data.scenes + front).push(last) =~= state.data.scenes + nodes);
    }
}

/// The data that written data is read back as: the same, without the
/// materials and the layers, which are not written.
pub open spec fn spec_written(data: DotVoxDataView) -> DotVoxDataView {
    DotVoxDataView { materials: Seq::empty(), layers: Seq::empty(), ..data }
}

/// Taking in the chunks of written data gives the data back, without its
/// materials and its layers.
pub proof fn lemma_gather_written(data: DotVoxDataView)
    ensures
        spec_gather(written_chunks(data), spec_gather_start(data.version)).data == spec_written(
            data,
        ),
{
    let start = spec_gather_start(data.version);
    let models = model_chunks(data.models);
    let nodes = node_chunks(data.scenes);
    lemma_gather_push(models + nodes, ChunkView::Palette(data.palette), start);
    lemma_gather_concat(models, nodes, start);
    lemma_gather_models(data.models, start);
    lemma_gather_nodes(data.scenes, spec_gather(models, start));
    assert(Seq::<ModelView>::empty() + data.models =~= data.models);
    assert(Seq::<SceneNodeView>::empty() + data.scenes =~= data.scenes);
}

/// Writing and reading again gives the data back: a file that was written
/// from data is read as that data, without its materials and its layers,
/// which the writer leaves out. The data must be such that it can be
/// written: no voxel has the palette index 255, and every length fits in 32
/// bits.
pub proof fn lemma_write_then_load(data: DotVoxDataView)
    requires
        scene_wf(data.scenes),
        models_indexed(data.models),
        data_fits(data),
    ensures
        spec_load_bytes(spec_write_vox(data)) == Ok::<DotVoxDataView, FormatError>(
            spec_written(data),
        ),
{
    lemma_ids();
    let none = Seq::<u8>::empty();
    let children = spec_children_bytes(data);
    let chunk = spec_chunk_header_bytes(id_main(), 0, children.len()) + children;
    let after_magic = spec_u32_bytes(data.version) + chunk;
    assert(spec_write_vox(data) =~= magic_number() + after_magic);
    lemma_take_written(magic_number(), after_magic);
    lemma_parse_u32_written(data.version, chunk);
    lemma_children_written(data);
    lemma_chunk_header_written(id_main(), none, children, none);
    assert(spec_chunk_header_bytes(id_main(), 0, children.len()) + none + children + none
        =~= chunk);
    lemma_u32_bytes_round_trip(children.len() as u32);
    assert(spec_parse_chunk(chunk) == Ok::<(Seq<u8>, ChunkView), FormatError>(
        (none, ChunkView::Main(written_chunks(data))),
    ));
    lemma_gather_written(data);
}

} // verus!
