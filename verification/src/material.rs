//! Materials: the properties that a file gives to a slot of the palette.

pub mod material;
pub mod material_properties;
pub mod material_type;

use vstd::prelude::*;
use crate::bytes::{le_u32, spec_parse_u32};
use crate::dict::{parse_dict, spec_parse_dict, Dict, Entry};
use crate::error::FormatError;

verus! {

/// A material used to render a model.
#[derive(Clone, Debug, PartialEq, Eq)]
pub struct Material {
    /// The slot of the palette that the material belongs to.
    pub id: u32,
    /// Properties of the material, by name.
    pub properties: Dict,
}

/// A material as a mathematical value, for contracts.
pub struct MaterialView {
    pub id: u32,
    pub properties: Seq<Entry>,
}

impl DeepView for Material {
    type V = MaterialView;

    open spec fn deep_view(&self) -> MaterialView {
        MaterialView { id: self.id, properties: self.properties.entries() }
    }
}

/// Reads a material: the slot of the palette, then the properties.
pub open spec fn spec_parse_material(i: Seq<u8>) -> Result<(Seq<u8>, MaterialView), FormatError> {
    match spec_parse_u32(i) {
        Err(e) => Err(e),
        Ok((rest, id)) => match spec_parse_dict(rest) {
            Err(e) => Err(e),
            Ok((rest, properties)) => Ok((rest, MaterialView { id, properties })),
        },
    }
}

/// Reads a material from the front of `i`.
pub fn parse_material(i: &[u8]) -> (r: Result<(&[u8], Material), FormatError>)
    ensures
        match r {
            Ok((rest, material)) => spec_parse_material(i@) == Ok::<
                (Seq<u8>, MaterialView),
                FormatError,
            >((rest@, material.deep_view())),
            Err(e) => spec_parse_material(i@) == Err::<(Seq<u8>, MaterialView), FormatError>(e),
        },
{
    let (rest, id) = le_u32(i)?;
    let (rest, properties) = parse_dict(rest)?;
    Ok((rest, Material { id, properties }))
}

impl Material {
    /// The text of the property `name`.
    pub fn property(&self, name: &str) -> (value: Option<&str>)
        ensures
            match value {
                Some(text) => self.properties.spec_get(name@) == Some(text@),
                None => self.properties.spec_get(name@) == None::<Seq<char>>,
            },
    {
        match self.properties.get(name) {
            Some(text) => Some(text.as_str()),
            None => None,
        }
    }

    /// The `_type` property, if present.
    pub fn material_type(&self) -> (value: Option<&str>)
        ensures
            match value {
                Some(text) => self.properties.spec_get("_type"@) == Some(text@),
                None => self.properties.spec_get("_type"@) == None::<Seq<char>>,
            },
    {
        self.property("_type")
    }

    /// The text of the `_weight` property: the share of the material in the
    /// blend with the diffuse one.
    pub fn weight(&self) -> (value: Option<&str>)
        ensures
            match value {
                Some(text) => self.properties.spec_get("_weight"@) == Some(text@),
                None => self.properties.spec_get("_weight"@) == None::<Seq<char>>,
            },
    {
        self.property("_weight")
    }

    /// The text of the `_metal` property.
    pub fn metalness(&self) -> (value: Option<&str>)
        ensures
            match value {
                Some(text) => self.properties.spec_get("_metal"@) == Some(text@),
                None => self.properties.spec_get("_metal"@) == None::<Seq<char>>,
            },
    {
        self.property("_metal")
    }

    /// The text of the `_rough` property.
    pub fn roughness(&self) -> (value: Option<&str>)
        ensures
            match value {
                Some(text) => self.properties.spec_get("_rough"@) == Some(text@),
                None => self.properties.spec_get("_rough"@) == None::<Seq<char>>,
            },
    {
        self.property("_rough")
    }

    /// The text of the `_sp` property.
    pub fn specular(&self) -> (value: Option<&str>)
        ensures
            match value {
                Some(text) => self.properties.spec_get("_sp"@) == Some(text@),
                None => self.properties.spec_get("_sp"@) == None::<Seq<char>>,
            },
    {
        self.property("_sp")
    }

    /// The text of the `_ior` property: the index of refraction.
    pub fn refractive_index(&self) -> (value: Option<&str>)
        ensures
            match value {
                Some(text) => self.properties.spec_get("_ior"@) == Some(text@),
                None => self.properties.spec_get("_ior"@) == None::<Seq<char>>,
            },
    {
        self.property("_ior")
    }

    /// The text of the `_emit` property.
    pub fn emission(&self) -> (value: Option<&str>)
        ensures
            match value {
                Some(text) => self.properties.spec_get("_emit"@) == Some(text@),
                None => self.properties.spec_get("_emit"@) == None::<Seq<char>>,
            },
    {
        self.property("_emit")
    }

    /// The text of the `_ldr` property: the factor by which an emissive
    /// material is blended towards its diffuse colour when it is shown.
    pub fn low_dynamic_range_scale(&self) -> (value: Option<&str>)
        ensures
            match value {
                Some(text) => self.properties.spec_get("_ldr"@) == Some(text@),
                None => self.properties.spec_get("_ldr"@) == None::<Seq<char>>,
            },
    {
        self.property("_ldr")
    }

    /// The text of the `_ior` property, under its other name.
    pub fn ri(&self) -> (value: Option<&str>)
        ensures
            match value {
                Some(text) => self.properties.spec_get("_ior"@) == Some(text@),
                None => self.properties.spec_get("_ior"@) == None::<Seq<char>>,
            },
    {
        self.property("_ior")
    }

    /// The text of the `_att` property of a glass material: the falloff that
    /// stands for the optical density of the medium.
    pub fn attenuation(&self) -> (value: Option<&str>)
        ensures
            match value {
                Some(text) => self.properties.spec_get("_att"@) == Some(text@),
                None => self.properties.spec_get("_att"@) == None::<Seq<char>>,
            },
    {
        self.property("_att")
    }

    /// The text of the `_flux` property of an emissive material.
    pub fn radiant_flux(&self) -> (value: Option<&str>)
        ensures
            match value {
                Some(text) => self.properties.spec_get("_flux"@) == Some(text@),
                None => self.properties.spec_get("_flux"@) == None::<Seq<char>>,
            },
    {
        self.property("_flux")
    }

    /// The text of the `_g` property.
    pub fn phase(&self) -> (value: Option<&str>)
        ensures
            match value {
                Some(text) => self.properties.spec_get("_g"@) == Some(text@),
                None => self.properties.spec_get("_g"@) == None::<Seq<char>>,
            },
    {
        self.property("_g")
    }

    /// The text of the `_alpha` property: the value by which a voxel is
    /// blended with what lies behind it.
    pub fn opacity(&self) -> (value: Option<&str>)
        ensures
            match value {
                Some(text) => self.properties.spec_get("_alpha"@) == Some(text@),
                None => self.properties.spec_get("_alpha"@) == None::<Seq<char>>,
            },
    {
        self.property("_alpha")
    }

    /// The text of the `_trans` property: the transparency of the material.
    pub fn transparency(&self) -> (value: Option<&str>)
        ensures
            match value {
                Some(text) => self.properties.spec_get("_trans"@) == Some(text@),
                None => self.properties.spec_get("_trans"@) == None::<Seq<char>>,
            },
    {
        self.property("_trans")
    }

    /// The text of the `_d` property of a cloud material: the density of the
    /// medium.
    pub fn density(&self) -> (value: Option<&str>)
        ensures
            match value {
                Some(text) => self.properties.spec_get("_d"@) == Some(text@),
                None => self.properties.spec_get("_d"@) == None::<Seq<char>>,
            },
    {
        self.property("_d")
    }

    /// The text of the `_media` property of a cloud material.
    pub fn media(&self) -> (value: Option<&str>)
        ensures
            match value {
                Some(text) => self.properties.spec_get("_media"@) == Some(text@),
                None => self.properties.spec_get("_media"@) == None::<Seq<char>>,
            },
    {
        self.property("_media")
    }

    /// The `_media_type` property, if present: the kind of cloud.
    pub fn media_type(&self) -> (value: Option<&str>)
        ensures
            match value {
                Some(text) => self.properties.spec_get("_media_type"@) == Some(text@),
                None => self.properties.spec_get("_media_type"@) == None::<Seq<char>>,
            },
    {
        self.property("_media_type")
    }
}

} // verus!
