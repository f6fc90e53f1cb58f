//! What holds of everything that is read: the palette indices of voxels,
//! the default palette, and the errors that bad input gives.

use vstd::prelude::*;
use crate::dict::{entries_unique, lemma_entries_collect_unique, spec_parse_dict, spec_parse_entry, Entry};
use crate::dot_vox_data::{data_fits, spec_write_vox};
use crate::round_trip::{frames_wf, lemma_write_then_load, scene_wf, shape_models_wf, spec_written};
use crate::scene::{
    spec_parse_node_header, spec_parse_scene_group, spec_parse_scene_shape,
    spec_parse_scene_transform, spec_parse_shape_model, spec_parse_transform_fields,
    ShapeModelView,
};
use crate::parser::{spec_scene_group_chunk, spec_scene_shape_chunk, spec_scene_transform_chunk};
use crate::bytes::{repeat_parse, spec_parse_u32, spec_take, spec_validate_count};
use crate::dot_vox_data::{models_indexed, DotVoxDataView};
use crate::error::FormatError;
use crate::model::{index_from_file, spec_parse_voxel, voxels_indexed, Voxel};
use crate::palette::{lemma_palette_written, spec_default_palette, spec_palette_bytes};
use crate::parser::{
    magic_number, spec_build_chunk, spec_build_leaf, spec_gather, spec_gather_start,
    spec_palette_chunk, spec_parse_chunk, spec_parse_chunk_header, spec_parse_chunks, ChunkView,
    Gathered,
};
use crate::spec_load_bytes;

verus! {

/// The palette index of a voxel is one less than the index that the file
/// holds, and 0 for the indices 0 and 1: it never wraps around to 255.
pub proof fn lemma_index_from_file(stored: u8)
    ensures
        index_from_file(0) == 0,
        index_from_file(1) == 0,
        stored >= 1 ==> index_from_file(stored) == stored - 1,
        index_from_file(stored) != 255,
{
}

/// Voxels that are read have palette indices below 255.
pub proof fn lemma_voxels_read_indexed(i: Seq<u8>, n: nat, acc: Seq<Voxel>)
    requires
        voxels_indexed(acc),
    ensures
        match repeat_parse(|b: Seq<u8>| spec_parse_voxel(b), i, n, acc) {
            Ok((_, voxels)) => voxels_indexed(voxels),
            Err(_) => true,
        },
    decreases n,
{
    if n > 0 {
        match spec_parse_voxel(i) {
            Ok((rest, voxel)) => {
                lemma_index_from_file(i[3]);
                lemma_voxels_read_indexed(rest, (n - 1) as nat, acc.push(voxel));
            },
            Err(_) => {},
        }
    }
}

/// A chunk of voxels holds no palette index 255.
pub open spec fn chunk_indexed(chunk: ChunkView) -> bool {
    chunk matches ChunkView::Voxels(voxels) ==> voxels_indexed(voxels)
}

/// Every chunk of voxels in `chunks` holds no palette index 255.
pub open spec fn chunks_indexed(chunks: Seq<ChunkView>) -> bool {
    forall|k: int| 0 <= k < chunks.len() ==> chunk_indexed(#[trigger] chunks[k])
}

/// A chunk that is built from a content holds no palette index 255.
pub proof fn lemma_built_chunk_indexed(
    id: Seq<u8>,
    content: Seq<u8>,
    children_size: u32,
    children: Seq<ChunkView>,
)
    ensures
        chunk_indexed(spec_build_chunk(id, content, children_size, children)),
{
    reveal(spec_build_leaf);
    match spec_parse_u32(content) {
        Ok((rest, n)) => {
            match spec_validate_count(rest.len(), n, 4) {
                Ok(count) => {
                    lemma_voxels_read_indexed(rest, count, Seq::<Voxel>::empty());
                },
                Err(_) => {},
            }
        },
        Err(_) => {},
    }
}

/// A chunk that is read holds no palette index 255.
pub proof fn lemma_chunk_read_indexed(i: Seq<u8>)
    ensures
        match spec_parse_chunk(i) {
            Ok((_, chunk)) => chunk_indexed(chunk),
            Err(_) => true,
        },
{
    match spec_parse_chunk_header(i) {
        Ok((rest, header)) => {
            lemma_built_chunk_indexed(
                header.id,
                header.content,
                header.children_size,
                Seq::<ChunkView>::empty(),
            );
        },
        Err(_) => {},
    }
}

/// Chunks that are read hold no palette index 255.
pub proof fn lemma_chunks_read_indexed(i: Seq<u8>, acc: Seq<ChunkView>)
    requires
        chunks_indexed(acc),
    ensures
        match spec_parse_chunks(i, acc) {
            Ok(chunks) => chunks_indexed(chunks),
            Err(_) => true,
        },
    decreases i.len(),
{
    if i.len() > 0 {
        lemma_chunk_read_indexed(i);
        crate::parser::lemma_chunk_len(i);
        crate::parser::lemma_chunks_unfold(i, acc);
        match spec_parse_chunk(i) {
            Ok((rest, chunk)) => {
                lemma_chunks_read_indexed(rest, acc.push(chunk));
            },
            Err(_) => {},
        }
    }
}

/// Models that are gathered from such chunks hold no palette index 255.
pub proof fn lemma_gather_indexed(children: Seq<ChunkView>, state: Gathered)
    requires
        chunks_indexed(children),
        models_indexed(state.data.models),
    ensures
        models_indexed(spec_gather(children, state).data.models),
    decreases children.len(),
{
    if children.len() > 0 {
        let front = children.drop_last();
        assert(chunks_indexed(front)) by {
            assert forall|k: int| 0 <= k < front.len() implies chunk_indexed(#[trigger] front[k]) by {
                assert(front[k] == children[k]);
            }
        }
        lemma_gather_indexed(front, state);
        assert(chunk_indexed(children[children.len() - 1]));
    }
}

/// No voxel of a file that is read has the palette index 255: what is read
/// can be written again, as far as the palette indices go.
pub proof fn lemma_loaded_indexed(bytes: Seq<u8>)
    ensures
        match spec_load_bytes(bytes) {
            Ok(data) => models_indexed(data.models),
            Err(_) => true,
        },
{
    match spec_take(bytes, 4) {
        Ok((rest, magic)) => {
            match spec_parse_u32(rest) {
                Ok((rest, version)) => {
                    lemma_main_read_indexed(rest);
                    match spec_parse_chunk(rest) {
                        Ok((_, main)) => {
                            match main {
                                ChunkView::Main(children) => {
                                    lemma_gather_indexed(children, spec_gather_start(version));
                                },
                                _ => {},
                            }
                        },
                        Err(_) => {},
                    }
                },
                Err(_) => {},
            }
        },
        Err(_) => {},
    }
}

/// The children of a `MAIN` chunk that is read hold no palette index 255.
pub proof fn lemma_main_read_indexed(i: Seq<u8>)
    ensures
        match spec_parse_chunk(i) {
            Ok((_, ChunkView::Main(children))) => chunks_indexed(children),
            _ => true,
        },
{
    reveal(spec_build_leaf);
    match spec_parse_chunk_header(i) {
        Ok((rest, header)) => {
            if header.children_size != 0 && header.id == crate::parser::id_main() {
                lemma_chunks_read_indexed(header.child_content, Seq::<ChunkView>::empty());
            }
        },
        Err(_) => {},
    }
}

/// Elements that are read one after another all have a property that each
/// single element that is read has.
pub proof fn lemma_repeat_all<T>(
    f: spec_fn(Seq<u8>) -> Result<(Seq<u8>, T), FormatError>,
    holds: spec_fn(T) -> bool,
    i: Seq<u8>,
    n: nat,
    acc: Seq<T>,
)
    requires
        forall|b: Seq<u8>| (#[trigger] f(b)) is Ok ==> holds(f(b)->Ok_0.1),
        forall|k: int| 0 <= k < acc.len() ==> holds(#[trigger] acc[k]),
    ensures
        match repeat_parse(f, i, n, acc) {
            Ok((_, elements)) => forall|k: int|
                0 <= k < elements.len() ==> holds(#[trigger] elements[k]),
            Err(_) => true,
        },
    decreases n,
{
    if n > 0 {
        match f(i) {
            Ok((rest, x)) => {
                lemma_repeat_all(f, holds, rest, (n - 1) as nat, acc.push(x));
            },
            Err(_) => {},
        }
    }
}

/// A dictionary that is read has no key twice.
pub proof fn lemma_dict_read_unique(i: Seq<u8>)
    ensures
        spec_parse_dict(i) matches Ok((_, entries)) ==> entries_unique(entries),
{
    match spec_parse_dict(i) {
        Ok((_, entries)) => {
            let (rest, n) = spec_parse_u32(i)->Ok_0;
            let count = spec_validate_count(rest.len(), n, 8)->Ok_0;
            let raw = repeat_parse(
                |b: Seq<u8>| spec_parse_entry(b),
                rest,
                count,
                Seq::<Entry>::empty(),
            )->Ok_0.1;
            lemma_entries_collect_unique(raw);
        },
        Err(_) => {},
    }
}

/// The node that a chunk adds to the scene has no key twice in any
/// dictionary.
pub open spec fn chunk_wf(chunk: ChunkView) -> bool {
    match chunk {
        ChunkView::TransformNode(node) => entries_unique(node.header.attributes) && frames_wf(
            node.frames,
        ),
        ChunkView::GroupNode(node) => entries_unique(node.header.attributes),
        ChunkView::ShapeNode(node) => entries_unique(node.header.attributes) && shape_models_wf(
            node.models,
        ),
        _ => true,
    }
}

/// Every node chunk in `chunks` has no key twice in any dictionary.
pub open spec fn chunks_wf(chunks: Seq<ChunkView>) -> bool {
    forall|k: int| 0 <= k < chunks.len() ==> chunk_wf(#[trigger] chunks[k])
}

/// A transform node that is read has no key twice in any dictionary.
pub proof fn lemma_transform_read_wf(content: Seq<u8>)
    ensures
        chunk_wf(spec_scene_transform_chunk(content)),
{
    reveal(spec_parse_scene_transform);
    reveal(spec_parse_transform_fields);
    reveal(spec_parse_node_header);
    match spec_parse_node_header(content) {
        Ok((rest, header)) => {
            lemma_dict_read_unique(spec_parse_u32(content)->Ok_0.0);
            match spec_parse_transform_fields(rest) {
                Ok((_, fields)) => {
                    let rest = spec_parse_u32(rest)->Ok_0.0;
                    let rest = spec_parse_u32(rest)->Ok_0.0;
                    let rest = spec_parse_u32(rest)->Ok_0.0;
                    let (rest, n) = spec_parse_u32(rest)->Ok_0;
                    let count = spec_validate_count(rest.len(), n, 4)->Ok_0;
                    let read = |b: Seq<u8>| spec_parse_dict(b);
                    let holds = |d: Seq<Entry>| entries_unique(d);
                    assert forall|b: Seq<u8>| (#[trigger] read(b)) is Ok implies holds(
                        read(b)->Ok_0.1,
                    ) by {
                        lemma_dict_read_unique(b);
                    }
                    lemma_repeat_all(read, holds, rest, count, Seq::<Seq<Entry>>::empty());
                },
                Err(_) => {},
            }
        },
        Err(_) => {},
    }
}

/// A group node that is read has no key twice in its dictionary.
pub proof fn lemma_group_read_wf(content: Seq<u8>)
    ensures
        chunk_wf(spec_scene_group_chunk(content)),
{
    reveal(spec_parse_scene_group);
    reveal(spec_parse_node_header);
    match spec_parse_u32(content) {
        Ok((rest, _)) => {
            lemma_dict_read_unique(rest);
        },
        Err(_) => {},
    }
}

/// A shape node that is read has no key twice in any dictionary.
pub proof fn lemma_shape_read_wf(content: Seq<u8>)
    ensures
        chunk_wf(spec_scene_shape_chunk(content)),
{
    reveal(spec_parse_scene_shape);
    reveal(spec_parse_node_header);
    match spec_parse_node_header(content) {
        Ok((rest, header)) => {
            lemma_dict_read_unique(spec_parse_u32(content)->Ok_0.0);
            match spec_parse_u32(rest) {
                Ok((rest, n)) => {
                    match spec_validate_count(rest.len(), n, 8) {
                        Ok(count) => {
                            let read = |b: Seq<u8>| spec_parse_shape_model(b);
                            let holds = |m: ShapeModelView| entries_unique(m.attributes);
                            assert forall|b: Seq<u8>| (#[trigger] read(b)) is Ok implies holds(
                                read(b)->Ok_0.1,
                            ) by {
                                reveal(spec_parse_shape_model);
                                match spec_parse_u32(b) {
                                    Ok((after, _)) => {
                                        lemma_dict_read_unique(after);
                                    },
                                    Err(_) => {},
                                }
                            }
                            lemma_repeat_all(
                                read,
                                holds,
                                rest,
                                count,
                                Seq::<ShapeModelView>::empty(),
                            );
                        },
                        Err(_) => {},
                    }
                },
                Err(_) => {},
            }
        },
        Err(_) => {},
    }
}

/// A chunk that is built from a content has no key twice in any dictionary
/// of a node.
pub proof fn lemma_built_chunk_wf(
    id: Seq<u8>,
    content: Seq<u8>,
    children_size: u32,
    children: Seq<ChunkView>,
)
    ensures
        chunk_wf(spec_build_chunk(id, content, children_size, children)),
{
    reveal(spec_build_leaf);
    lemma_transform_read_wf(content);
    lemma_group_read_wf(content);
    lemma_shape_read_wf(content);
}

/// Chunks that are read have no key twice in any dictionary of a node.
pub proof fn lemma_chunks_read_wf(i: Seq<u8>, acc: Seq<ChunkView>)
    requires
        chunks_wf(acc),
    ensures
        match spec_parse_chunks(i, acc) {
            Ok(chunks) => chunks_wf(chunks),
            Err(_) => true,
        },
    decreases i.len(),
{
    if i.len() > 0 {
        crate::parser::lemma_chunk_len(i);
        crate::parser::lemma_chunks_unfold(i, acc);
        match spec_parse_chunk_header(i) {
            Ok((_, header)) => {
                lemma_built_chunk_wf(
                    header.id,
                    header.content,
                    header.children_size,
                    Seq::<ChunkView>::empty(),
                );
            },
            Err(_) => {},
        }
        match spec_parse_chunk(i) {
            Ok((rest, chunk)) => {
                lemma_chunks_read_wf(rest, acc.push(chunk));
            },
            Err(_) => {},
        }
    }
}

/// Nodes that are gathered from such chunks have no key twice in any
/// dictionary.
pub proof fn lemma_gather_wf(children: Seq<ChunkView>, state: Gathered)
    requires
        chunks_wf(children),
        scene_wf(state.data.scenes),
    ensures
        scene_wf(spec_gather(children, state).data.scenes),
    decreases children.len(),
{
    if children.len() > 0 {
        let front = children.drop_last();
        assert(chunks_wf(front)) by {
            assert forall|k: int| 0 <= k < front.len() implies chunk_wf(#[trigger] front[k]) by {
                assert(front[k] == children[k]);
            }
        }
        lemma_gather_wf(front, state);
        assert(chunk_wf(children[children.len() - 1]));
    }
}

/// No dictionary of a node of a file that is read has a key twice.
pub proof fn lemma_loaded_wf(bytes: Seq<u8>)
    ensures
        match spec_load_bytes(bytes) {
            Ok(data) => scene_wf(data.scenes),
            Err(_) => true,
        },
{
    match spec_take(bytes, 4) {
        Ok((rest, magic)) => {
            match spec_parse_u32(rest) {
                Ok((rest, version)) => {
                    match spec_parse_chunk_header(rest) {
                        Ok((_, header)) => {
                            lemma_chunks_read_wf(header.child_content, Seq::<ChunkView>::empty());
                            match spec_parse_chunk(rest) {
                                Ok((_, ChunkView::Main(children))) => {
                                    reveal(spec_build_leaf);
                                    lemma_gather_wf(children, spec_gather_start(version));
                                },
                                _ => {},
                            }
                        },
                        Err(_) => {},
                    }
                },
                Err(_) => {},
            }
        },
        Err(_) => {},
    }
}

/// What was read can be written and read again: where a file is read as
/// data that can be written, the file that is written from the data is read
/// as the same data, without its materials and its layers.
pub proof fn lemma_load_write_load(bytes: Seq<u8>)
    ensures
        match spec_load_bytes(bytes) {
            Ok(data) => data_fits(data) ==> spec_load_bytes(spec_write_vox(data)) == Ok::<
                DotVoxDataView,
                FormatError,
            >(spec_written(data)),
            Err(_) => true,
        },
{
    lemma_loaded_wf(bytes);
    lemma_loaded_indexed(bytes);
    match spec_load_bytes(bytes) {
        Ok(data) => {
            if data_fits(data) {
                lemma_write_then_load(data);
            }
        },
        Err(_) => {},
    }
}

/// Every palette chunk in `chunks` holds the default palette.
pub open spec fn palettes_default(chunks: Seq<ChunkView>) -> bool {
    forall|k: int|
        0 <= k < chunks.len() ==> ((#[trigger] chunks[k]) matches ChunkView::Palette(colors)
            ==> colors == spec_default_palette())
}

/// A file without a palette chunk and a file whose palette chunks hold the
/// 256 colours of the default palette are read with the same palette, the
/// default one.
pub proof fn lemma_default_palette(children: Seq<ChunkView>, version: u32)
    requires
        palettes_default(children),
    ensures
        spec_gather(children, spec_gather_start(version)).data.palette == spec_default_palette(),
    decreases children.len(),
{
    if children.len() > 0 {
        let front = children.drop_last();
        assert(palettes_default(front)) by {
            assert forall|k: int| 0 <= k < front.len() implies ((#[trigger] front[k]) matches ChunkView::Palette(
                colors,
            ) ==> colors == spec_default_palette()) by {
                assert(front[k] == children[k]);
            }
        }
        lemma_default_palette(front, version);
        assert(children.last() == children[children.len() - 1]);
    }
}

/// The default palette, written as the content of a palette chunk, is read
/// back as the default palette.
pub proof fn lemma_default_palette_chunk()
    ensures
        spec_palette_bytes(spec_default_palette()).len() == 1024,
        spec_palette_chunk(spec_palette_bytes(spec_default_palette())) == ChunkView::Palette(
            spec_default_palette(),
        ),
{
    lemma_palette_written(spec_default_palette());
}

/// Elements that are read after a check of their number are as many as was
/// declared, and no more than can lie in the bytes that were there: nothing
/// larger than the input is ever built.
pub proof fn lemma_counted_len<T>(
    f: spec_fn(Seq<u8>) -> Result<(Seq<u8>, T), FormatError>,
    i: Seq<u8>,
    n: u32,
    minimum: nat,
)
    ensures
        match crate::scene::spec_parse_counted(f, i, n, minimum) {
            Ok((_, elements)) => elements.len() == n && n as nat <= i.len() / minimum,
            Err(_) => true,
        },
{
    lemma_repeat_len(f, i, n as nat, Seq::<T>::empty());
}

/// Reading `n` elements adds `n` elements.
pub proof fn lemma_repeat_len<T>(
    f: spec_fn(Seq<u8>) -> Result<(Seq<u8>, T), FormatError>,
    i: Seq<u8>,
    n: nat,
    acc: Seq<T>,
)
    ensures
        match repeat_parse(f, i, n, acc) {
            Ok((_, elements)) => elements.len() == acc.len() + n,
            Err(_) => true,
        },
    decreases n,
{
    if n > 0 {
        match f(i) {
            Ok((rest, x)) => {
                lemma_repeat_len(f, rest, (n - 1) as nat, acc.push(x));
            },
            Err(_) => {},
        }
    }
}

/// Chunks that are read take at least twelve bytes each.
pub proof fn lemma_chunks_count(i: Seq<u8>, acc: Seq<ChunkView>)
    ensures
        match spec_parse_chunks(i, acc) {
            Ok(chunks) => 12 * chunks.len() <= 12 * acc.len() + i.len(),
            Err(_) => true,
        },
    decreases i.len(),
{
    if i.len() > 0 {
        crate::parser::lemma_chunk_len(i);
        crate::parser::lemma_chunks_unfold(i, acc);
        match spec_parse_chunk(i) {
            Ok((rest, chunk)) => {
                lemma_chunks_count(rest, acc.push(chunk));
            },
            Err(_) => {},
        }
    }
}

/// The number of models, materials, nodes and layers in data.
pub open spec fn item_count(data: DotVoxDataView) -> nat {
    data.models.len() + data.materials.len() + data.scenes.len() + data.layers.len()
}

/// Each chunk that is taken in adds at most one model, material, node or
/// layer.
pub proof fn lemma_gather_count(children: Seq<ChunkView>, state: Gathered)
    ensures
        item_count(spec_gather(children, state).data) <= item_count(state.data) + children.len(),
    decreases children.len(),
{
    if children.len() > 0 {
        lemma_gather_count(children.drop_last(), state);
    }
}

/// What is read is no larger than the input permits: the models, materials,
/// nodes and layers of a file are at most one for every twelve bytes of it.
pub proof fn lemma_loaded_count(bytes: Seq<u8>)
    ensures
        match spec_load_bytes(bytes) {
            Ok(data) => 12 * item_count(data) <= bytes.len(),
            Err(_) => true,
        },
{
    match spec_take(bytes, 4) {
        Ok((rest, magic)) => {
            match spec_parse_u32(rest) {
                Ok((rest, version)) => {
                    crate::parser::lemma_chunk_header_len(rest);
                    match spec_parse_chunk_header(rest) {
                        Ok((_, header)) => {
                            lemma_chunks_count(header.child_content, Seq::<ChunkView>::empty());
                            match spec_parse_chunk(rest) {
                                Ok((_, ChunkView::Main(children))) => {
                                    reveal(spec_build_leaf);
                                    lemma_gather_count(children, spec_gather_start(version));
                                },
                                _ => {},
                            }
                        },
                        Err(_) => {},
                    }
                },
                Err(_) => {},
            }
        },
        Err(_) => {},
    }
}

/// Bad input gives an error. A buffer that does not start with the magic
/// number is no file; a buffer that is too short for a version and the
/// start of a chunk is rejected; and so is one in which the first chunk
/// declares more bytes than follow.
pub proof fn lemma_bad_input(bytes: Seq<u8>)
    ensures
        bytes.len() < 4 || bytes.subrange(0, 4) != magic_number() ==> spec_load_bytes(bytes)
            == Err::<DotVoxDataView, FormatError>(FormatError::MagicMismatch),
        bytes.len() < 20 ==> spec_load_bytes(bytes) is Err,
        bytes.len() >= 20 && crate::bytes::spec_le_u32(bytes.subrange(12, 16))
            + crate::bytes::spec_le_u32(bytes.subrange(16, 20)) > bytes.len() - 20
            ==> spec_load_bytes(bytes) is Err,
{
    reveal(spec_parse_chunk_header);
    if bytes.len() >= 20 {
        let chunk = bytes.subrange(4, bytes.len() as int).subrange(
            4,
            bytes.len() - 4,
        );
        let sizes = chunk.subrange(4, chunk.len() as int);
        assert(sizes[0] == bytes[12] && sizes[1] == bytes[13] && sizes[2] == bytes[14] && sizes[3]
            == bytes[15]);
        let second = sizes.subrange(4, sizes.len() as int);
        assert(second[0] == bytes[16] && second[1] == bytes[17] && second[2] == bytes[18]
            && second[3] == bytes[19]);
        assert(bytes.subrange(12, 16)[0] == bytes[12] && bytes.subrange(12, 16)[1] == bytes[13]
            && bytes.subrange(12, 16)[2] == bytes[14] && bytes.subrange(12, 16)[3] == bytes[15]);
        assert(bytes.subrange(16, 20)[0] == bytes[16] && bytes.subrange(16, 20)[1] == bytes[17]
            && bytes.subrange(16, 20)[2] == bytes[18] && bytes.subrange(16, 20)[3] == bytes[19]);
    }
}

} // verus!
