//! A whole material in the older form of the format: the start of its
//! chunk, its number, its type and its properties.

use vstd::prelude::*;
use crate::bytes::{le_u32, spec_parse_u32, spec_take, take};
use crate::error::FormatError;
use crate::material::material_properties::{
    parse_material_properties, spec_parse_material_properties, MaterialProperties,
};
use crate::material::material_type::{parse_material_type, spec_parse_material_type, MaterialType};

verus! {

/// A material in the older form of the format.
#[derive(Debug, PartialEq)]
pub struct Material {
    /// The number of the material, of which the lowest eight bits are kept.
    pub id: u8,
    /// The type of the material.
    pub material_type: MaterialType,
    /// Further properties.
    pub properties: MaterialProperties,
}

/// Reads a material: twelve bytes for the start of its chunk, which are not
/// looked at, its number, its type and its properties.
pub open spec fn spec_parse_material(i: Seq<u8>) -> Result<(Seq<u8>, Material), FormatError> {
    match spec_take(i, 12) {
        Err(e) => Err(e),
        Ok((rest, _)) => match spec_parse_u32(rest) {
            Err(e) => Err(e),
            Ok((rest, id)) => match spec_parse_material_type(rest) {
                Err(e) => Err(e),
                Ok((rest, material_type)) => match spec_parse_material_properties(rest) {
                    Err(e) => Err(e),
                    Ok((rest, properties)) => Ok(
                        (rest, Material { id: (id % 256) as u8, material_type, properties }),
                    ),
                },
            },
        },
    }
}

/// Reads materials as long as one can be read, and adds them to `acc`: the
/// bytes that are left, then the materials.
pub open spec fn spec_extract_materials(i: Seq<u8>, acc: Seq<Material>) -> (Seq<u8>, Seq<Material>)
    decreases i.len(),
{
    match spec_parse_material(i) {
        Err(_) => (i, acc),
        Ok((rest, material)) => {
            proof {
                lemma_material_len(i);
            }
            spec_extract_materials(rest, acc.push(material))
        },
    }
}

/// A material that was read took at least twelve bytes.
pub proof fn lemma_material_len(i: Seq<u8>)
    ensures
        match spec_parse_material(i) {
            Ok((rest, _)) => rest.len() + 12 <= i.len(),
            Err(_) => true,
        },
{
    match spec_parse_material(i) {
        Ok((rest, _)) => {
            let after_start = spec_take(i, 12)->Ok_0.0;
            let after_id = spec_parse_u32(after_start)->Ok_0.0;
            let after_type = spec_parse_material_type(after_id)->Ok_0.0;
            crate::material::material_properties::lemma_properties_len(after_type);
        },
        Err(_) => {},
    }
}

/// Reads a material from the front of `i`.
pub fn parse_material(i: &[u8]) -> (r: Result<(&[u8], Material), FormatError>)
    ensures
        match r {
            Ok((rest, material)) => spec_parse_material(i@) == Ok::<
                (Seq<u8>, Material),
                FormatError,
            >((rest@, material)),
            Err(e) => spec_parse_material(i@) == Err::<(Seq<u8>, Material), FormatError>(e),
        },
{
    let (rest, _) = take(i, 12)?;
    let (rest, id) = le_u32(rest)?;
    let (rest, material_type) = parse_material_type(rest)?;
    let (rest, properties) = parse_material_properties(rest)?;
    Ok((rest, Material { id: (id % 256) as u8, material_type, properties }))
}

/// Reads materials from the front of `i` as long as one can be read.
pub fn extract_materials(i: &[u8]) -> (r: (&[u8], Vec<Material>))
    ensures
        spec_extract_materials(i@, Seq::<Material>::empty()) == (r.0@, r.1@),
{
    let mut materials: Vec<Material> = Vec::new();
    let mut rest: &[u8] = i;
    loop
        invariant
            spec_extract_materials(i@, Seq::<Material>::empty()) == spec_extract_materials(
                rest@,
                materials@,
            ),
        decreases rest@.len(),
    {
        proof {
            lemma_material_len(rest@);
        }
        match parse_material(rest) {
            Ok((after, material)) => {
                materials.push(material);
                rest = after;
            },
            Err(_) => {
                return (rest, materials);
            },
        }
    }
}

} // verus!
