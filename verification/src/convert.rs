//! Everything the OBJ-to-glTF conversion computes between reading the
//! meshes and writing the files.

use vstd::prelude::*;
use crate::buffer::{BinaryBuffer, build_binary_buffer, buffer_size, lays_out};
use crate::document::{GltfDocument, describe_document, describes};
use crate::error::GltfError;
use crate::mesh::{MergedMesh, MeshModel, ObjMesh, merge_meshes, merge_result, models, no_index_overflow};
use crate::paths::{
    OutputPlan, plan_outputs, neutral_path, extension_matches, glb_extension, planned_bin_path,
    last_component, portable_extension_path, portable_extension, portable_with_bin, dot_bin,
    bin_extension, eq_ignore_ascii_case,
};

verus! {

/// The merged mesh, its binary buffer, where the output goes, and the
/// document that describes them.
#[derive(Debug)]
pub struct GltfParts {
    pub mesh: MergedMesh,
    pub buffer: BinaryBuffer,
    pub plan: OutputPlan,
    pub document: GltfDocument,
}

/// Merges the meshes of an OBJ file, lays out their binary buffer, decides
/// from `output_path` whether a `.glb` container or a `.gltf` file with a
/// `.bin` buffer is written (see `plan_outputs`), and describes it all as a
/// glTF document.
pub fn prepare_gltf(meshes: &Vec<ObjMesh>, output_path: &str) -> (r: Result<GltfParts, GltfError>)
    requires
        no_index_overflow(models(meshes@)),
    ensures
        match merge_result(models(meshes@)) {
            Err(e) => r == Err::<GltfParts, GltfError>(e),
            Ok(m) => if buffer_size(m) > u32::MAX {
                r == Err::<GltfParts, GltfError>(GltfError::BufferTooLarge)
            } else {
                r is Ok
            },
        },
        r matches Ok(p) ==> {
            &&& merge_result(models(meshes@)) == Ok::<MeshModel, GltfError>(p.mesh@)
            &&& lays_out(p.buffer, p.mesh@)
            &&& describes(p.document, p.mesh@, p.buffer, p.plan.buffer_uri)
            &&& p.plan.write_glb ==> p.plan.bin_path is None && p.plan.buffer_uri is None
            &&& !p.plan.write_glb ==> p.plan.bin_path is Some && p.plan.buffer_uri is Some
            &&& neutral_path(output_path@) ==> p.plan.write_glb == extension_matches(
                output_path@,
                glb_extension(),
            )
            &&& neutral_path(output_path@) && !p.plan.write_glb ==> p.plan.bin_path->0@
                == planned_bin_path(output_path@)
            &&& neutral_path(output_path@) && !p.plan.write_glb ==> p.plan.buffer_uri->0@
                == last_component(planned_bin_path(output_path@))
            &&& portable_extension_path(output_path@) ==> p.plan.write_glb == eq_ignore_ascii_case(
                vstd::utf8::encode_utf8(portable_extension(output_path@)),
                glb_extension(),
            )
            &&& portable_extension_path(output_path@) && !p.plan.write_glb ==> p.plan.bin_path->0@
                == (if eq_ignore_ascii_case(
                vstd::utf8::encode_utf8(portable_extension(output_path@)),
                bin_extension(),
            ) {
                output_path@ + dot_bin()
            } else {
                portable_with_bin(output_path@)
            })
            &&& !p.plan.write_glb ==> p.plan.bin_path->0@ != output_path@
        },
{
    let mesh = match merge_meshes(meshes) {
        Ok(m) => m,
        Err(e) => return Err(e),
    };
    let buffer = match build_binary_buffer(&mesh) {
        Ok(b) => b,
        Err(e) => return Err(e),
    };
    let plan = plan_outputs(output_path);
    let uri: Option<String> = match &plan.buffer_uri {
        Some(u) => Some(u.clone()),
        None => None,
    };
    let document = describe_document(&mesh, &buffer, uri);
    Ok(GltfParts { mesh, buffer, plan, document })
}

} // verus!
