//! The type of a material in the older form of the format: a number for
//! the kind, then a weight.
//!
//! The weight is an IEEE-754 single. It is kept as the 32 bits that the
//! file holds.

use vstd::prelude::*;
use crate::bytes::{le_u32, spec_parse_u32};
use crate::error::FormatError;

verus! {

/// The type of a material. Each weight is the bit pattern of a single.
#[derive(Debug, PartialEq)]
pub enum MaterialType {
    /// A diffuse material.
    Diffuse,
    /// A metallic material, with the blend between metal and diffuse.
    Metal(u32),
    /// A glass material, with the blend between glass and diffuse.
    Glass(u32),
    /// An emissive material, with the degree of self-illumination.
    Emissive(u32),
    /// A kind that is not known, with its number and its weight.
    Unknown(u32, u32),
}

/// The type that a number and a weight stand for.
pub open spec fn spec_material_type(material_type: u32, weight: u32) -> MaterialType {
    if material_type == 0 {
        MaterialType::Diffuse
    } else if material_type == 1 {
        MaterialType::Metal(weight)
    } else if material_type == 2 {
        MaterialType::Glass(weight)
    } else if material_type == 3 {
        MaterialType::Emissive(weight)
    } else {
        MaterialType::Unknown(material_type, weight)
    }
}

/// Reads the type of a material: the number of the kind, then the weight.
pub open spec fn spec_parse_material_type(i: Seq<u8>) -> Result<
    (Seq<u8>, MaterialType),
    FormatError,
> {
    match spec_parse_u32(i) {
        Err(e) => Err(e),
        Ok((rest, material_type)) => match spec_parse_u32(rest) {
            Err(e) => Err(e),
            Ok((rest, weight)) => Ok((rest, spec_material_type(material_type, weight))),
        },
    }
}

impl MaterialType {
    /// The type that a number and a weight stand for.
    pub fn from_u32(material_type: u32, weight: u32) -> (r: MaterialType)
        ensures
            r == spec_material_type(material_type, weight),
    {
        match material_type {
            0 => MaterialType::Diffuse,
            1 => MaterialType::Metal(weight),
            2 => MaterialType::Glass(weight),
            3 => MaterialType::Emissive(weight),
            _ => MaterialType::Unknown(material_type, weight),
        }
    }
}

/// Reads the type of a material from the front of `i`.
pub fn parse_material_type(i: &[u8]) -> (r: Result<(&[u8], MaterialType), FormatError>)
    ensures
        match r {
            Ok((rest, material_type)) => spec_parse_material_type(i@) == Ok::<
                (Seq<u8>, MaterialType),
                FormatError,
            >((rest@, material_type)),
            Err(e) => spec_parse_material_type(i@) == Err::<(Seq<u8>, MaterialType), FormatError>(
                e,
            ),
        },
{
    let (rest, material_type) = le_u32(i)?;
    let (rest, weight) = le_u32(rest)?;
    Ok((rest, MaterialType::from_u32(material_type, weight)))
}

} // verus!
