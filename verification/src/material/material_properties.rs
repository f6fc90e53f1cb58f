//! The properties of a material in the older form of the format: a mask of
//! eight flags, then one number for each flag that is set.
//!
//! The numbers are IEEE-754 singles. They are kept as the 32 bits that the
//! file holds.

use vstd::prelude::*;

use crate::bytes::{le_u32, spec_le_u32, spec_parse_u32, spec_rest};
use crate::error::FormatError;

verus! {

/// The optional properties of a material. Each number is the bit pattern of
/// a single.
#[derive(Debug, Default, PartialEq)]
pub struct MaterialProperties {
    /// If set, the degree of plasticisation.
    pub plastic: Option<u32>,
    /// If set, the degree of roughness.
    pub roughness: Option<u32>,
    /// If set, the degree of specular.
    pub specular: Option<u32>,
    /// If set, the index of refraction.
    pub ior: Option<u32>,
    /// If set, the attenuation.
    pub attenuation: Option<u32>,
    /// If set, the power.
    pub power: Option<u32>,
    /// If set, the glow.
    pub glow: Option<u32>,
    /// Set where the mask says that the power is the total power.
    pub is_total_power: Option<bool>,
}

/// Whether the mask has the flag at `place` (0 for plastic, up to 7 for the
/// total power).
pub open spec fn mask_has(bitmask: u32, place: nat) -> bool
    recommends
        place < 8,
{
    (bitmask as int / pow2(place)) % 2 == 1
}

/// Two to the power `place`, for the places of the mask.
pub open spec fn pow2(place: nat) -> int {
    if place == 0 {
        1
    } else if place == 1 {
        2
    } else if place == 2 {
        4
    } else if place == 3 {
        8
    } else if place == 4 {
        16
    } else if place == 5 {
        32
    } else if place == 6 {
        64
    } else {
        128
    }
}

/// The number of values that the properties before `place` have taken, of
/// `len` values in all: each property whose flag is set takes one while any
/// is left.
pub open spec fn values_taken(bitmask: u32, len: nat, place: nat) -> nat
    decreases place,
{
    if place == 0 {
        0
    } else {
        let before = values_taken(bitmask, len, (place - 1) as nat);
        if mask_has(bitmask, (place - 1) as nat) && before < len {
            before + 1
        } else {
            before
        }
    }
}

/// The value that the property at `place` gets: the next one that is left,
/// where its flag is set.
pub open spec fn property_value(bitmask: u32, values: Seq<u32>, place: nat) -> Option<u32> {
    let at = values_taken(bitmask, values.len(), place);
    if mask_has(bitmask, place) && at < values.len() {
        Some(values[at as int])
    } else {
        None
    }
}

/// The properties that a mask and the values that follow it stand for.
pub open spec fn spec_properties_from_mask(bitmask: u32, values: Seq<u32>) -> MaterialProperties {
    MaterialProperties {
        plastic: property_value(bitmask, values, 0),
        roughness: property_value(bitmask, values, 1),
        specular: property_value(bitmask, values, 2),
        ior: property_value(bitmask, values, 3),
        attenuation: property_value(bitmask, values, 4),
        power: property_value(bitmask, values, 5),
        glow: property_value(bitmask, values, 6),
        is_total_power: if mask_has(bitmask, 7) {
            Some(true)
        } else {
            None
        },
    }
}

/// Whether `i` starts with the four bytes `MATT`, the id of the chunk that
/// may follow.
pub open spec fn starts_next_material(i: Seq<u8>) -> bool {
    i.len() >= 4 && i[0] == 0x4d && i[1] == 0x41 && i[2] == 0x54 && i[3] == 0x54
}

/// Reads numbers of four bytes until `i` ends or the next material starts,
/// and adds them to `acc`: the bytes that are left, then the numbers.
pub open spec fn spec_parse_values(i: Seq<u8>, acc: Seq<u32>) -> Result<
    (Seq<u8>, Seq<u32>),
    FormatError,
>
    decreases i.len(),
{
    if i.len() == 0 || starts_next_material(i) {
        Ok((i, acc))
    } else if i.len() < 4 {
        Err(FormatError::Truncated)
    } else {
        spec_parse_values(spec_rest(i, 4), acc.push(spec_le_u32(i)))
    }
}

/// Reads the properties of a material: the mask, then the values.
pub open spec fn spec_parse_material_properties(i: Seq<u8>) -> Result<
    (Seq<u8>, MaterialProperties),
    FormatError,
> {
    match spec_parse_u32(i) {
        Err(e) => Err(e),
        Ok((rest, bitmask)) => match spec_parse_values(rest, Seq::<u32>::empty()) {
            Err(e) => Err(e),
            Ok((rest, values)) => Ok((rest, spec_properties_from_mask(bitmask, values))),
        },
    }
}

/// Reading the values uses bytes up and adds none.
pub proof fn lemma_values_len(i: Seq<u8>, acc: Seq<u32>)
    ensures
        match spec_parse_values(i, acc) {
            Ok((rest, _)) => rest.len() <= i.len(),
            Err(_) => true,
        },
    decreases i.len(),
{
    if !(i.len() == 0 || starts_next_material(i)) && i.len() >= 4 {
        lemma_values_len(spec_rest(i, 4), acc.push(spec_le_u32(i)));
    }
}

/// The properties that were read took at least the four bytes of the mask.
pub proof fn lemma_properties_len(i: Seq<u8>)
    ensures
        match spec_parse_material_properties(i) {
            Ok((rest, _)) => rest.len() + 4 <= i.len(),
            Err(_) => true,
        },
{
    match spec_parse_u32(i) {
        Ok((rest, _)) => {
            lemma_values_len(rest, Seq::<u32>::empty());
        },
        Err(_) => {},
    }
}

/// Takes the next value for the property at `place`, where its flag is set
/// and a value is left.
fn set_if_defined(bitmask: u32, place: u8, values: &Vec<u32>, next: &mut usize) -> (value: Option<
    u32,
>)
    requires
        place < 7,
        *old(next) == values_taken(bitmask, values@.len(), place as nat),
    ensures
        value == property_value(bitmask, values@, place as nat),
        *final(next) == values_taken(bitmask, values@.len(), (place + 1) as nat),
{
    let flag: u32 = if place == 0 {
        1
    } else if place == 1 {
        2
    } else if place == 2 {
        4
    } else if place == 3 {
        8
    } else if place == 4 {
        16
    } else if place == 5 {
        32
    } else {
        64
    };
    if (bitmask / flag) % 2 == 1 && *next < values.len() {
        let value: u32 = values[*next];
        *next = *next + 1;
        Some(value)
    } else {
        None
    }
}

/// Gives each property whose flag is set the next of the values, in the
/// order of the flags, as long as values are left.
pub fn properties_from_mask(bitmask: u32, values: Vec<u32>) -> (properties: MaterialProperties)
    ensures
        properties == spec_properties_from_mask(bitmask, values@),
{
    let mut next: usize = 0;
    let plastic = set_if_defined(bitmask, 0, &values, &mut next);
    let roughness = set_if_defined(bitmask, 1, &values, &mut next);
    let specular = set_if_defined(bitmask, 2, &values, &mut next);
    let ior = set_if_defined(bitmask, 3, &values, &mut next);
    let attenuation = set_if_defined(bitmask, 4, &values, &mut next);
    let power = set_if_defined(bitmask, 5, &values, &mut next);
    let glow = set_if_defined(bitmask, 6, &values, &mut next);
    let is_total_power = if (bitmask / 128) % 2 == 1 {
        Some(true)
    } else {
        None
    };
    MaterialProperties {
        plastic,
        roughness,
        specular,
        ior,
        attenuation,
        power,
        glow,
        is_total_power,
    }
}

/// Reads the properties of a material from the front of `i`.
pub fn parse_material_properties(i: &[u8]) -> (r: Result<(&[u8], MaterialProperties), FormatError>)
    ensures
        match r {
            Ok((rest, properties)) => spec_parse_material_properties(i@) == Ok::<
                (Seq<u8>, MaterialProperties),
                FormatError,
            >((rest@, properties)),
            Err(e) => spec_parse_material_properties(i@) == Err::<
                (Seq<u8>, MaterialProperties),
                FormatError,
            >(e),
        },
{
    let (start, bitmask) = le_u32(i)?;
    let mut values: Vec<u32> = Vec::new();
    let mut rest: &[u8] = start;
    loop
        invariant
            spec_parse_u32(i@) == Ok::<(Seq<u8>, u32), FormatError>((start@, bitmask)),
            spec_parse_values(start@, Seq::<u32>::empty()) == spec_parse_values(rest@, values@),
        decreases rest@.len(),
    {
        if rest.len() == 0 || (rest.len() >= 4 && rest[0] == 0x4d && rest[1] == 0x41 && rest[2]
            == 0x54 && rest[3] == 0x54) {
            return Ok((rest, properties_from_mask(bitmask, values)));
        }
        match le_u32(rest) {
            Ok((after, value)) => {
                values.push(value);
                rest = after;
            },
            Err(e) => {
                return Err(e);
            },
        }
    }
}

} // verus!
