//! The ways in which a byte buffer can fail to be `.vox` data.

use vstd::prelude::*;

verus! {

/// Why a buffer, or a part of it, was rejected.
#[derive(Copy, Clone, Debug, PartialEq, Eq, Structural)]
pub enum FormatError {
    /// The buffer does not start with the four bytes `VOX `.
    MagicMismatch,
    /// A field, or a length that the data declares, runs past the end of the
    /// bytes that are left.
    Truncated,
    /// A declared number of elements cannot fit in the bytes that are left.
    InvalidCount,
    /// A rotation byte names the same column twice, or the column 3.
    InvalidRotationByte,
    /// A chunk id or a string of a dictionary is not UTF-8.
    InvalidUtf8,
    /// Bytes are left over where all of them had to be used.
    TrailingBytes,
}

/// Why a scene graph cannot be walked.
#[derive(Copy, Clone, Debug, PartialEq, Eq, Structural)]
pub enum SceneError {
    /// There is no first node, or it is no transform node.
    RootNotTransform,
    /// A node refers to a node that is not there.
    NodeOutOfRange,
    /// A shape node refers to a model that is not there.
    ModelOutOfRange,
    /// A transform node has no frame.
    NoFrame,
    /// A path from the root is longer than the number of nodes, so it goes
    /// through a node twice.
    Cycle,
    /// A position does not fit in 64 bits.
    Overflow,
}

/// Why data cannot be written.
#[derive(Copy, Clone, Debug, PartialEq, Eq, Structural)]
pub enum WriteError {
    /// A voxel has the palette index 255, which the format, counting from
    /// one, cannot hold in a byte.
    PaletteIndex,
    /// A length or a count does not fit in the 32 bits that the format gives
    /// it.
    TooLong,
}

impl FormatError {
    /// What went wrong, in words.
    pub open spec fn spec_message(&self) -> Seq<char> {
        match self {
            FormatError::MagicMismatch => "Not a valid MagicaVoxel .vox file: bad magic number"@,
            FormatError::Truncated => "Not a valid MagicaVoxel .vox file: truncated"@,
            FormatError::InvalidCount => "Not a valid MagicaVoxel .vox file: impossible count"@,
            FormatError::InvalidRotationByte => "Not a valid rotation byte"@,
            FormatError::InvalidUtf8 => "Not a valid MagicaVoxel .vox file: text is not UTF-8"@,
            FormatError::TrailingBytes => "Not a valid MagicaVoxel .vox file: trailing bytes"@,
        }
    }

    /// What went wrong, in words.
    pub fn message(&self) -> (text: &'static str)
        ensures
            text@ == self.spec_message(),
    {
        match self {
            FormatError::MagicMismatch => "Not a valid MagicaVoxel .vox file: bad magic number",
            FormatError::Truncated => "Not a valid MagicaVoxel .vox file: truncated",
            FormatError::InvalidCount => "Not a valid MagicaVoxel .vox file: impossible count",
            FormatError::InvalidRotationByte => "Not a valid rotation byte",
            FormatError::InvalidUtf8 => "Not a valid MagicaVoxel .vox file: text is not UTF-8",
            FormatError::TrailingBytes => "Not a valid MagicaVoxel .vox file: trailing bytes",
        }
    }
}

impl SceneError {
    /// What went wrong, in words.
    pub open spec fn spec_message(&self) -> Seq<char> {
        match self {
            SceneError::RootNotTransform => "The root of the scene is no transform node"@,
            SceneError::NodeOutOfRange => "A node refers to a node that is not there"@,
            SceneError::ModelOutOfRange => "A shape node refers to a model that is not there"@,
            SceneError::NoFrame => "A transform node has no frame"@,
            SceneError::Cycle => "A path in the scene goes through a node twice"@,
            SceneError::Overflow => "A position does not fit in 64 bits"@,
        }
    }

    /// What went wrong, in words.
    pub fn message(&self) -> (text: &'static str)
        ensures
            text@ == self.spec_message(),
    {
        match self {
            SceneError::RootNotTransform => "The root of the scene is no transform node",
            SceneError::NodeOutOfRange => "A node refers to a node that is not there",
            SceneError::ModelOutOfRange => "A shape node refers to a model that is not there",
            SceneError::NoFrame => "A transform node has no frame",
            SceneError::Cycle => "A path in the scene goes through a node twice",
            SceneError::Overflow => "A position does not fit in 64 bits",
        }
    }
}

impl WriteError {
    /// What went wrong, in words.
    pub open spec fn spec_message(&self) -> Seq<char> {
        match self {
            WriteError::PaletteIndex => "A voxel has the palette index 255"@,
            WriteError::TooLong => "A length or a count does not fit in 32 bits"@,
        }
    }

    /// What went wrong, in words.
    pub fn message(&self) -> (text: &'static str)
        ensures
            text@ == self.spec_message(),
    {
        match self {
            WriteError::PaletteIndex => "A voxel has the palette index 255",
            WriteError::TooLong => "A length or a count does not fit in 32 bits",
        }
    }
}

} // verus!
