//! Colours, the palette that a file brings, and the one that is used where
//! it brings none.

use vstd::prelude::*;
use vstd::slice::slice_subrange;
use crate::bytes::concat_map;
use crate::error::FormatError;

verus! {

/// A colour of the palette.
#[derive(Copy, Clone, PartialEq, Eq, Debug)]
pub struct Color {
    /// Red.
    pub r: u8,
    /// Green.
    pub g: u8,
    /// Blue.
    pub b: u8,
    /// Opacity.
    pub a: u8,
}

impl From<Color> for [u8; 4] {
    /// The four bytes of a colour: red, green, blue, opacity.
    fn from(color: Color) -> (bytes: [u8; 4]) {
        [color.r, color.g, color.b, color.a]
    }
}

impl vstd::std_specs::convert::FromSpecImpl<Color> for [u8; 4] {
    open spec fn obeys_from_spec() -> bool {
        true
    }

    open spec fn from_spec(color: Color) -> [u8; 4] {
        [color.r, color.g, color.b, color.a]
    }
}

/// The colour that four bytes hold, starting at `at`.
pub open spec fn color_at(i: Seq<u8>, at: int) -> Color {
    Color { r: i[at], g: i[at + 1], b: i[at + 2], a: i[at + 3] }
}

/// A colour as it lies in a file.
pub open spec fn spec_color_bytes(color: Color) -> Seq<u8> {
    seq![color.r, color.g, color.b, color.a]
}

/// Reads a palette: all of `i`, four bytes for each colour. Fails where
/// bytes are left that make no colour.
pub open spec fn spec_extract_palette(i: Seq<u8>) -> Result<(Seq<u8>, Seq<Color>), FormatError> {
    if i.len() % 4 != 0 {
        Err(FormatError::TrailingBytes)
    } else {
        Ok((Seq::<u8>::empty(), Seq::new(i.len() / 4, |k: int| color_at(i, 4 * k))))
    }
}

/// A palette as it lies in a file: its colours, one after another.
pub open spec fn spec_palette_bytes(colors: Seq<Color>) -> Seq<u8> {
    concat_map(colors, |c: Color| spec_color_bytes(c))
}

/// Reads an index map: all of `i`, which must be 256 bytes.
pub open spec fn spec_extract_index_map(i: Seq<u8>) -> Result<(Seq<u8>, Seq<u8>), FormatError> {
    if i.len() < 256 {
        Err(FormatError::Truncated)
    } else if i.len() > 256 {
        Err(FormatError::TrailingBytes)
    } else {
        Ok((Seq::<u8>::empty(), i))
    }
}

/// The entry at `k` of the index map that changes nothing: the palette slot
/// `k + 1`, and 0 for the last.
pub open spec fn default_index(k: int) -> u8 {
    if k == 255 {
        0
    } else {
        (k + 1) as u8
    }
}

/// A step of the ramps that follow the colour cube in the default palette:
/// the multiples of 17 from 238 down to 17 that are no multiples of 51.
pub open spec fn ramp_level(step: int) -> int {
    17 * (14 - step - step / 2)
}

/// The colour at `k` of the default palette. The first 215 are the colours
/// with red, green and blue among 255, 204, 153, 102, 51 and 0, black left
/// out, blue changing fastest; then come ten levels each of red, green, blue
/// and grey; the last is transparent black.
pub open spec fn default_color(k: int) -> Color {
    if k < 215 {
        Color {
            r: (255 - 51 * (k / 36)) as u8,
            g: (255 - 51 * ((k / 6) % 6)) as u8,
            b: (255 - 51 * (k % 6)) as u8,
            a: 255,
        }
    } else if k < 225 {
        Color { r: ramp_level(k - 215) as u8, g: 0, b: 0, a: 255 }
    } else if k < 235 {
        Color { r: 0, g: ramp_level(k - 225) as u8, b: 0, a: 255 }
    } else if k < 245 {
        Color { r: 0, g: 0, b: ramp_level(k - 235) as u8, a: 255 }
    } else if k < 255 {
        Color {
            r: ramp_level(k - 245) as u8,
            g: ramp_level(k - 245) as u8,
            b: ramp_level(k - 245) as u8,
            a: 255,
        }
    } else {
        Color { r: 0, g: 0, b: 0, a: 0 }
    }
}

/// The palette that is used where a file brings none: 256 colours.
pub open spec fn spec_default_palette() -> Seq<Color> {
    Seq::new(256, |k: int| default_color(k))
}

/// A palette that was written is read back.
pub proof fn lemma_palette_written(colors: Seq<Color>)
    ensures
        spec_palette_bytes(colors).len() == 4 * colors.len(),
        spec_extract_palette(spec_palette_bytes(colors)) == Ok::<
            (Seq<u8>, Seq<Color>),
            FormatError,
        >((Seq::<u8>::empty(), colors)),
    decreases colors.len(),
{
    let write = |c: Color| spec_color_bytes(c);
    lemma_palette_bytes_at(colors);
    let bytes = spec_palette_bytes(colors);
    assert(Seq::new(bytes.len() / 4, |k: int| color_at(bytes, 4 * k)) =~= colors);
}

/// The bytes of a written palette: four for each colour, in place.
pub proof fn lemma_palette_bytes_at(colors: Seq<Color>)
    ensures
        spec_palette_bytes(colors).len() == 4 * colors.len(),
        forall|k: int|
            0 <= k < colors.len() ==> color_at(spec_palette_bytes(colors), 4 * k)
                == #[trigger] colors[k],
    decreases colors.len(),
{
    let write = |c: Color| spec_color_bytes(c);
    if colors.len() > 0 {
        let front = colors.drop_last();
        lemma_palette_bytes_at(front);
        assert(spec_palette_bytes(colors) == spec_palette_bytes(front) + spec_color_bytes(
            colors.last(),
        ));
        assert forall|k: int| 0 <= k < colors.len() implies color_at(
            spec_palette_bytes(colors),
            4 * k,
        ) == #[trigger] colors[k] by {
            if k < front.len() {
                assert(front[k] == colors[k]);
                assert(color_at(spec_palette_bytes(front), 4 * k) == front[k]);
            }
        }
    }
}

/// Reads one colour from the front of `i`.
pub fn parse_color(i: &[u8]) -> (r: Result<(&[u8], Color), FormatError>)
    ensures
        match r {
            Ok((rest, color)) => i@.len() >= 4 && rest@ == i@.subrange(4, i@.len() as int)
                && color == color_at(i@, 0),
            Err(e) => i@.len() < 4 && e == FormatError::Truncated,
        },
{
    if i.len() < 4 {
        Err(FormatError::Truncated)
    } else {
        Ok((slice_subrange(i, 4, i.len()), Color { r: i[0], g: i[1], b: i[2], a: i[3] }))
    }
}

/// Reads a palette that takes all of `i`.
pub fn extract_palette(i: &[u8]) -> (r: Result<(&[u8], Vec<Color>), FormatError>)
    ensures
        match r {
            Ok((rest, colors)) => spec_extract_palette(i@) == Ok::<
                (Seq<u8>, Seq<Color>),
                FormatError,
            >((rest@, colors@)),
            Err(e) => spec_extract_palette(i@) == Err::<(Seq<u8>, Seq<Color>), FormatError>(e),
        },
{
    let mut colors: Vec<Color> = Vec::new();
    let mut rest: &[u8] = i;
    loop
        invariant
            rest@.len() + 4 * colors@.len() == i@.len(),
            rest@ == i@.subrange(4 * colors@.len() as int, i@.len() as int),
            forall|k: int| 0 <= k < colors@.len() ==> #[trigger] colors@[k] == color_at(i@, 4 * k),
        decreases rest@.len(),
    {
        match parse_color(rest) {
            Ok((after, color)) => {
                colors.push(color);
                assert(after@ =~= i@.subrange(4 * colors@.len() as int, i@.len() as int));
                rest = after;
            },
            Err(_) => {
                if rest.len() > 0 {
                    return Err(FormatError::TrailingBytes);
                }
                assert(colors@ =~= Seq::new(i@.len() / 4, |k: int| color_at(i@, 4 * k)));
                assert(rest@ =~= Seq::<u8>::empty());
                return Ok((rest, colors));
            },
        }
    }
}

/// Reads an index map that takes all of `i`.
pub fn extract_index_map(i: &[u8]) -> (r: Result<(&[u8], &[u8]), FormatError>)
    ensures
        match r {
            Ok((rest, map)) => spec_extract_index_map(i@) == Ok::<
                (Seq<u8>, Seq<u8>),
                FormatError,
            >((rest@, map@)),
            Err(e) => spec_extract_index_map(i@) == Err::<(Seq<u8>, Seq<u8>), FormatError>(e),
        },
{
    if i.len() < 256 {
        Err(FormatError::Truncated)
    } else if i.len() > 256 {
        Err(FormatError::TrailingBytes)
    } else {
        let rest = slice_subrange(i, 256, i.len());
        assert(rest@ =~= Seq::<u8>::empty());
        Ok((rest, i))
    }
}

/// The index map that changes nothing: it sends the index `k` of a voxel to
/// the palette slot `k + 1`, and the last index to 0.
pub fn create_default_index_map() -> (map: [u8; 256])
    ensures
        forall|k: int| 0 <= k < 256 ==> #[trigger] map@[k] == default_index(k),
{
    let mut result: [u8; 256] = [0;256];
    let mut i: usize = 0;
    while i < 256
        invariant
            i <= 256,
            forall|k: int| 0 <= k < i ==> #[trigger] result@[k] == default_index(k),
        decreases 256 - i,
    {
        let slot: u8 = if i == 255 {
            0
        } else {
            (i + 1) as u8
        };
        result[i] = slot;
        i += 1;
    }
    result
}

/// One level of the ramps of the default palette.
fn ramp(step: usize) -> (level: u8)
    requires
        step < 10,
    ensures
        level == ramp_level(step as int),
{
    (17 * (14 - step - step / 2)) as u8
}

/// The colour at `k` of the default palette.
fn default_color_at(k: usize) -> (color: Color)
    requires
        k < 256,
    ensures
        color == default_color(k as int),
{
    if k < 215 {
        Color {
            r: (255 - 51 * (k / 36)) as u8,
            g: (255 - 51 * ((k / 6) % 6)) as u8,
            b: (255 - 51 * (k % 6)) as u8,
            a: 255,
        }
    } else if k < 225 {
        Color { r: ramp(k - 215), g: 0, b: 0, a: 255 }
    } else if k < 235 {
        Color { r: 0, g: ramp(k - 225), b: 0, a: 255 }
    } else if k < 245 {
        Color { r: 0, g: 0, b: ramp(k - 235), a: 255 }
    } else if k < 255 {
        let level: u8 = ramp(k - 245);
        Color { r: level, g: level, b: level, a: 255 }
    } else {
        Color { r: 0, g: 0, b: 0, a: 0 }
    }
}

/// The palette that is used where a file brings none.
pub fn default_palette() -> (palette: Vec<Color>)
    ensures
        palette@ == spec_default_palette(),
{
    let mut palette: Vec<Color> = Vec::with_capacity(256);
    let mut k: usize = 0;
    while k < 256
        invariant
            k <= 256,
            palette@.len() == k,
            forall|j: int| 0 <= j < k ==> #[trigger] palette@[j] == default_color(j),
        decreases 256 - k,
    {
        palette.push(default_color_at(k));
        k += 1;
    }
    assert(palette@ =~= spec_default_palette());
    palette
}

} // verus!
