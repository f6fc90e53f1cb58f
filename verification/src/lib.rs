//! Reading and writing MagicaVoxel `.vox` data: the chunk decoder, the scene
//! graph with its traversal, the rotation algebra and the writer.

pub mod bytes;
pub mod dict;
pub mod dot_vox_data;
pub mod error;
pub mod laws;
pub mod material;
pub mod model;
pub mod palette;
pub mod parser;
pub mod placeholder;
pub mod rotation;
pub mod round_trip;
pub mod scene;
pub mod text;
pub mod traverse;

use vstd::prelude::*;
use dot_vox_data::DotVoxDataView;
use parser::{parse_vox_file, spec_parse_vox_file};

pub use dict::Dict;
pub use dot_vox_data::DotVoxData;
pub use error::{FormatError, SceneError, WriteError};
pub use material::material_properties::MaterialProperties;
pub use material::material_type::MaterialType;
pub use material::Material;
pub use model::{Model, Size, Voxel};
pub use palette::{default_palette, Color};
pub use rotation::Rotation;
pub use traverse::Placement;
pub use scene::{
    Frame, Layer, NodeHeader, Position, RawLayer, SceneGroup, SceneNode, SceneShape, SceneTransform,
    ShapeModel,
};

verus! {

/// What the bytes of a file hold, or why they are no file.
pub open spec fn spec_load_bytes(bytes: Seq<u8>) -> Result<DotVoxDataView, FormatError> {
    match spec_parse_vox_file(bytes) {
        Ok((_, data)) => Ok(data),
        Err(e) => Err(e),
    }
}

/// Reads the bytes of a `.vox` file: the version, the models, the palette,
/// the materials, the scene graph and the layers. Bytes that are no such
/// file give an error and never a part of the data.
pub fn load_bytes(bytes: &[u8]) -> (r: Result<DotVoxData, FormatError>)
    ensures
        match r {
            Ok(data) => spec_load_bytes(bytes@) == Ok::<DotVoxDataView, FormatError>(
                data.deep_view(),
            ),
            Err(e) => spec_load_bytes(bytes@) == Err::<DotVoxDataView, FormatError>(e),
        },
{
    let (_, parsed) = parse_vox_file(bytes)?;
    Ok(parsed)
}

} // verus!
