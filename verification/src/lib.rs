//! Verified core of the truck B-rep export helpers: merging OBJ meshes,
//! laying out the glTF binary buffer and document, framing binary glTF
//! (GLB) containers, choosing output paths, and the decisions of the
//! interactive viewer.

pub mod le;
pub mod error;
pub mod mesh;
pub mod buffer;
pub mod document;
pub mod glb;
pub mod paths;
pub mod controls;
pub mod convert;
