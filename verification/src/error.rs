//! Errors of the glTF conversion.

use vstd::prelude::*;

verus! {

/// Why a set of OBJ meshes could not be turned into glTF.
#[derive(Debug, Clone, Copy, PartialEq, Eq, Structural)]
pub enum GltfError {
    /// The OBJ held no model at all.
    NoGeometry,
    /// A model's position list is not made of (x, y, z) triples.
    NotThreeDimensional,
    /// After merging, there were no positions or no indices.
    NoIndexedTriangles,
    /// The binary buffer does not fit in 4 GiB.
    BufferTooLarge,
    /// The padded JSON chunk of a GLB does not fit in 4 GiB.
    JsonChunkTooLarge,
    /// The whole GLB container does not fit in 4 GiB.
    PayloadTooLarge,
}

impl GltfError {
    /// The message that describes the error.
    pub fn message(&self) -> (msg: &'static str)
        ensures
            *self == GltfError::NoGeometry ==> msg@ == "OBJ contained no geometry"@,
            *self == GltfError::NotThreeDimensional ==> msg@
                == "OBJ positions were not 3D coordinates"@,
            *self == GltfError::NoIndexedTriangles ==> msg@
                == "OBJ did not contain indexed triangles"@,
            *self == GltfError::BufferTooLarge ==> msg@
                == "Resulting binary buffer is larger than 4 GiB"@,
            *self == GltfError::JsonChunkTooLarge ==> msg@ == "glTF JSON chunk is larger than 4 GiB"@,
            *self == GltfError::PayloadTooLarge ==> msg@
                == "GLB payload exceeds 4 GiB and cannot be written"@,
    {
        match self {
            GltfError::NoGeometry => "OBJ contained no geometry",
            GltfError::NotThreeDimensional => "OBJ positions were not 3D coordinates",
            GltfError::NoIndexedTriangles => "OBJ did not contain indexed triangles",
            GltfError::BufferTooLarge => "Resulting binary buffer is larger than 4 GiB",
            GltfError::JsonChunkTooLarge => "glTF JSON chunk is larger than 4 GiB",
            GltfError::PayloadTooLarge => "GLB payload exceeds 4 GiB and cannot be written",
        }
    }
}

} // verus!
