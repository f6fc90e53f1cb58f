//! Voxel models: a size and the voxels that fill it.

use vstd::prelude::*;
use vstd::slice::slice_subrange;
use crate::bytes::{
    concat_map, le_u32, lemma_concat_map_len, lemma_parse_u32_written, lemma_repeat_parse_written,
    lemma_u32_bytes_round_trip, repeat_parse, spec_parse_u32, spec_rest, spec_u32_bytes,
    spec_validate_count, validate_count,
};
use crate::error::FormatError;

verus! {

/// The dimensions of a model in voxels.
#[derive(Copy, Clone, Debug, PartialEq, Eq)]
pub struct Size {
    /// The width of the model in voxels.
    pub x: u32,
    /// The height of the model in voxels.
    pub y: u32,
    /// The depth of the model in voxels.
    pub z: u32,
}

/// A point in a model, with an indexed colour attached.
#[derive(Copy, Clone, Debug, PartialEq, Eq)]
pub struct Voxel {
    /// The X coordinate of the voxel.
    pub x: u8,
    /// The Y coordinate of the voxel.
    pub y: u8,
    /// The Z coordinate of the voxel.
    pub z: u8,
    /// Index into the colour palette, counted from zero. The file counts from
    /// one, so this is one less than the stored value.
    pub i: u8,
}

impl Voxel {
    /// Builds a voxel from its coordinates and its palette index.
    pub fn new(x: u8, y: u8, z: u8, i: u8) -> (v: Voxel)
        ensures
            v == (Voxel { x, y, z, i }),
    {
        Voxel { x, y, z, i }
    }
}

/// A renderable voxel model.
#[derive(Debug, PartialEq, Eq)]
pub struct Model {
    /// The size of the model in voxels.
    pub size: Size,
    /// The voxels to be displayed.
    pub voxels: Vec<Voxel>,
}

impl Model {
    /// The number of bytes that the model takes in a file: two chunk headers
    /// of twelve bytes, twelve bytes of size, four bytes of voxel count and
    /// four bytes for each voxel.
    pub open spec fn spec_num_vox_bytes(&self) -> nat {
        40 + 4 * self.voxels@.len()
    }

    /// Number of bytes of the model when it is written as a size chunk and a
    /// voxel chunk.
    pub fn num_vox_bytes(&self) -> (n: u32)
        requires
            self.spec_num_vox_bytes() <= u32::MAX,
        ensures
            n == self.spec_num_vox_bytes(),
    {
        let count: usize = self.voxels.len();
        40 + 4 * (count as u32)
    }
}

/// A model as a mathematical value, for contracts.
pub struct ModelView {
    /// The size of the model in voxels.
    pub size: Size,
    /// The voxels to be displayed.
    pub voxels: Seq<Voxel>,
}

impl DeepView for Model {
    type V = ModelView;

    open spec fn deep_view(&self) -> ModelView {
        ModelView { size: self.size, voxels: self.voxels@ }
    }
}

/// Reads a size: three numbers, for x, y and z.
pub open spec fn spec_parse_size(i: Seq<u8>) -> Result<(Seq<u8>, Size), FormatError> {
    match spec_parse_u32(i) {
        Err(e) => Err(e),
        Ok((rest, x)) => match spec_parse_u32(rest) {
            Err(e) => Err(e),
            Ok((rest, y)) => match spec_parse_u32(rest) {
                Err(e) => Err(e),
                Ok((rest, z)) => Ok((rest, Size { x, y, z })),
            },
        },
    }
}

/// A size as it lies in a file.
pub open spec fn spec_size_bytes(size: Size) -> Seq<u8> {
    spec_u32_bytes(size.x) + spec_u32_bytes(size.y) + spec_u32_bytes(size.z)
}

/// The palette index of a voxel in memory, for the index that the file
/// holds: one less, and 0 for 0.
pub open spec fn index_from_file(stored: u8) -> u8 {
    if stored == 0 {
        0
    } else {
        (stored - 1) as u8
    }
}

/// Reads a voxel: one byte each for x, y, z and the palette index, which the
/// file counts from one.
pub open spec fn spec_parse_voxel(i: Seq<u8>) -> Result<(Seq<u8>, Voxel), FormatError> {
    if i.len() < 4 {
        Err(FormatError::Truncated)
    } else {
        Ok((spec_rest(i, 4), Voxel { x: i[0], y: i[1], z: i[2], i: index_from_file(i[3]) }))
    }
}

/// A voxel as it lies in a file. The index 255 has no such form.
pub open spec fn spec_voxel_bytes(voxel: Voxel) -> Seq<u8> {
    seq![voxel.x, voxel.y, voxel.z, (voxel.i + 1) as u8]
}

/// Reads the voxels of a model: their number, which must be able to lie in
/// the bytes that follow at four bytes each, then so many voxels.
pub open spec fn spec_parse_voxels(i: Seq<u8>) -> Result<(Seq<u8>, Seq<Voxel>), FormatError> {
    match spec_parse_u32(i) {
        Err(e) => Err(e),
        Ok((rest, n)) => match spec_validate_count(rest.len(), n, 4) {
            Err(e) => Err(e),
            Ok(count) => repeat_parse(
                |b: Seq<u8>| spec_parse_voxel(b),
                rest,
                count,
                Seq::<Voxel>::empty(),
            ),
        },
    }
}

/// The voxels of a model as they lie in a file: their number, then each.
pub open spec fn spec_voxels_bytes(voxels: Seq<Voxel>) -> Seq<u8> {
    spec_u32_bytes(voxels.len() as u32) + concat_map(voxels, |v: Voxel| spec_voxel_bytes(v))
}

/// The voxels can be written: their number fits in 32 bits.
pub open spec fn voxels_fit(voxels: Seq<Voxel>) -> bool {
    voxels.len() <= u32::MAX
}

/// Every voxel has a palette index that the file can hold: none is 255.
pub open spec fn voxels_indexed(voxels: Seq<Voxel>) -> bool {
    forall|k: int| 0 <= k < voxels.len() ==> (#[trigger] voxels[k]).i != 255
}

/// A size that was written in front of `tail` is read back.
pub proof fn lemma_size_written(size: Size, tail: Seq<u8>)
    ensures
        spec_parse_size(spec_size_bytes(size) + tail) == Ok::<(Seq<u8>, Size), FormatError>(
            (tail, size),
        ),
        spec_size_bytes(size).len() == 12,
{
    let y_on = spec_u32_bytes(size.y) + (spec_u32_bytes(size.z) + tail);
    assert(spec_size_bytes(size) + tail =~= spec_u32_bytes(size.x) + y_on);
    lemma_parse_u32_written(size.x, y_on);
    lemma_parse_u32_written(size.y, spec_u32_bytes(size.z) + tail);
    lemma_parse_u32_written(size.z, tail);
    lemma_u32_bytes_round_trip(size.x);
    lemma_u32_bytes_round_trip(size.y);
    lemma_u32_bytes_round_trip(size.z);
}

/// A voxel that was written in front of `tail` is read back, where its
/// palette index is not 255.
pub proof fn lemma_voxel_written(voxel: Voxel, tail: Seq<u8>)
    requires
        voxel.i != 255,
    ensures
        spec_parse_voxel(spec_voxel_bytes(voxel) + tail) == Ok::<(Seq<u8>, Voxel), FormatError>(
            (tail, voxel),
        ),
{
    let i = spec_voxel_bytes(voxel) + tail;
    assert(spec_rest(i, 4) =~= tail);
    assert(i[0] == voxel.x && i[1] == voxel.y && i[2] == voxel.z && i[3] == voxel.i + 1);
}

/// Voxels that were written in front of `tail` are read back, where none has
/// the palette index 255.
pub proof fn lemma_voxels_written(voxels: Seq<Voxel>, tail: Seq<u8>)
    requires
        voxels_fit(voxels),
        voxels_indexed(voxels),
    ensures
        spec_parse_voxels(spec_voxels_bytes(voxels) + tail) == Ok::<
            (Seq<u8>, Seq<Voxel>),
            FormatError,
        >((tail, voxels)),
{
    let write = |v: Voxel| spec_voxel_bytes(v);
    let read = |b: Seq<u8>| spec_parse_voxel(b);
    let valid = |v: Voxel| v.i != 255;
    let n = voxels.len() as u32;
    let body = concat_map(voxels, write);
    assert(spec_voxels_bytes(voxels) + tail =~= spec_u32_bytes(n) + (body + tail));
    lemma_parse_u32_written(n, body + tail);
    assert forall|v: Voxel, t: Seq<u8>| valid(v) implies #[trigger] read(write(v) + t) == Ok::<
        (Seq<u8>, Voxel),
        FormatError,
    >((t, v)) by {
        lemma_voxel_written(v, t);
    }
    lemma_concat_map_len(voxels, write, 4);
    assert(voxels.len() <= (body + tail).len() / 4) by {
        assert(voxels.len() * 4 <= (body + tail).len());
    }
    lemma_repeat_parse_written(read, write, valid, voxels, tail, Seq::<Voxel>::empty());
    assert(Seq::<Voxel>::empty() + voxels =~= voxels);
}

/// The voxels of a model take four bytes for their number and four for each
/// of them.
pub proof fn lemma_voxels_bytes_len(voxels: Seq<Voxel>)
    ensures
        spec_voxels_bytes(voxels).len() == 4 + 4 * voxels.len(),
{
    lemma_voxel_run_len(voxels);
}

/// Written voxels take four bytes each.
proof fn lemma_voxel_run_len(voxels: Seq<Voxel>)
    ensures
        concat_map(voxels, |v: Voxel| spec_voxel_bytes(v)).len() == 4 * voxels.len(),
    decreases voxels.len(),
{
    if voxels.len() > 0 {
        lemma_voxel_run_len(voxels.drop_last());
    }
}

/// Reads the size of a model from the front of `i`.
pub fn parse_size(i: &[u8]) -> (r: Result<(&[u8], Size), FormatError>)
    ensures
        match r {
            Ok((rest, size)) => spec_parse_size(i@) == Ok::<(Seq<u8>, Size), FormatError>(
                (rest@, size),
            ),
            Err(e) => spec_parse_size(i@) == Err::<(Seq<u8>, Size), FormatError>(e),
        },
{
    let (rest, x) = le_u32(i)?;
    let (rest, y) = le_u32(rest)?;
    let (rest, z) = le_u32(rest)?;
    Ok((rest, Size { x, y, z }))
}

/// Reads one voxel from the front of `i`.
pub fn parse_voxel(i: &[u8]) -> (r: Result<(&[u8], Voxel), FormatError>)
    ensures
        match r {
            Ok((rest, voxel)) => spec_parse_voxel(i@) == Ok::<(Seq<u8>, Voxel), FormatError>(
                (rest@, voxel),
            ),
            Err(e) => spec_parse_voxel(i@) == Err::<(Seq<u8>, Voxel), FormatError>(e),
        },
{
    if i.len() < 4 {
        Err(FormatError::Truncated)
    } else {
        let stored: u8 = i[3];
        Ok((slice_subrange(i, 4, i.len()), Voxel::new(i[0], i[1], i[2], stored.saturating_sub(1))))
    }
}

/// Reads the voxels of a model from the front of `i`.
pub fn parse_voxels(i: &[u8]) -> (r: Result<(&[u8], Vec<Voxel>), FormatError>)
    ensures
        match r {
            Ok((rest, voxels)) => spec_parse_voxels(i@) == Ok::<
                (Seq<u8>, Seq<Voxel>),
                FormatError,
            >((rest@, voxels@)) && voxels@.len() <= i@.len() / 4,
            Err(e) => spec_parse_voxels(i@) == Err::<(Seq<u8>, Seq<Voxel>), FormatError>(e),
        },
{
    let (start, n) = le_u32(i)?;
    let count = validate_count(start, n, 4)?;
    let mut voxels: Vec<Voxel> = Vec::with_capacity(count);
    let mut rest: &[u8] = start;
    let mut k: usize = 0;
    while k < count
        invariant
            k <= count,
            voxels@.len() == k,
            spec_parse_u32(i@) == Ok::<(Seq<u8>, u32), FormatError>((start@, n)),
            spec_validate_count(start@.len(), n, 4) == Ok::<nat, FormatError>(count as nat),
            repeat_parse(
                |b: Seq<u8>| spec_parse_voxel(b),
                start@,
                count as nat,
                Seq::<Voxel>::empty(),
            ) == repeat_parse(|b: Seq<u8>| spec_parse_voxel(b), rest@, (count - k) as nat, voxels@),
        decreases count - k,
    {
        let (after, voxel) = parse_voxel(rest)?;
        voxels.push(voxel);
        rest = after;
        k = k + 1;
    }
    Ok((rest, voxels))
}

} // verus!
