use truck_brep::buffer::build_binary_buffer;
use truck_brep::convert::prepare_gltf;
use truck_brep::document::{describe_document, AccessorType, COMPONENT_FLOAT, COMPONENT_UNSIGNED_INT};
use truck_brep::error::GltfError;
use truck_brep::glb::{assemble_glb, pad_json_chunk, CHUNK_TYPE_BIN, CHUNK_TYPE_JSON};
use truck_brep::le::{extend_le_words, push_u32_le};
use truck_brep::mesh::{merge_meshes, merge_would_overflow, MergedMesh, ObjMesh};

fn mesh(positions: &[f32], normals: &[f32], indices: &[u32]) -> ObjMesh {
    ObjMesh {
        positions: positions.iter().map(|p| p.to_bits()).collect(),
        normals: normals.iter().map(|n| n.to_bits()).collect(),
        indices: indices.to_vec(),
    }
}

fn le(x: u32) -> Vec<u8> {
    x.to_le_bytes().to_vec()
}

#[test]
fn push_u32_le_matches_std() {
    let mut out = vec![9u8];
    push_u32_le(&mut out, 0x1234_5678);
    assert_eq!(out, vec![9, 0x78, 0x56, 0x34, 0x12]);
}

#[test]
fn extend_le_words_concatenates() {
    let mut out = Vec::new();
    extend_le_words(&mut out, &[1, 0xdead_beef, 1.5f32.to_bits()]);
    let mut expected = le(1);
    expected.extend(le(0xdead_beef));
    expected.extend(1.5f32.to_le_bytes());
    assert_eq!(out, expected);
}

#[test]
fn merge_no_models_is_no_geometry() {
    assert_eq!(merge_meshes(&vec![]).unwrap_err(), GltfError::NoGeometry);
}

#[test]
fn merge_rejects_non_triples() {
    let ms = vec![mesh(&[0.0, 0.0, 0.0], &[], &[0]), mesh(&[0.0, 1.0], &[], &[])];
    assert_eq!(merge_meshes(&ms).unwrap_err(), GltfError::NotThreeDimensional);
}

#[test]
fn merge_without_indices_is_not_indexed() {
    let ms = vec![mesh(&[0.0, 0.0, 0.0], &[], &[])];
    assert_eq!(merge_meshes(&ms).unwrap_err(), GltfError::NoIndexedTriangles);
    let ms = vec![mesh(&[], &[], &[])];
    assert_eq!(merge_meshes(&ms).unwrap_err(), GltfError::NoIndexedTriangles);
}

#[test]
fn merge_shifts_indices_by_preceding_vertices() {
    let a = mesh(&[0.0, 0.0, 0.0, 1.0, 0.0, 0.0, 0.0, 1.0, 0.0], &[0.0; 9], &[0, 1, 2]);
    let b = mesh(&[5.0, 5.0, 5.0, 6.0, 5.0, 5.0, 5.0, 6.0, 5.0], &[1.0; 9], &[2, 1, 0]);
    let merged = merge_meshes(&vec![a, b]).unwrap();
    assert_eq!(merged.indices, vec![0, 1, 2, 5, 4, 3]);
    assert_eq!(merged.positions.len(), 18);
    assert_eq!(merged.positions[9], 5.0f32.to_bits());
    assert_eq!(merged.normals.len(), 18);
    assert_eq!(merged.normals[17], 1.0f32.to_bits());
}

#[test]
fn merge_keeps_triangles() {
    // Vertex `i` of the merged mesh has the coordinates of the vertex that
    // each merged index named in its own mesh.
    let a = mesh(&[0.0, 0.0, 0.0, 1.0, 2.0, 3.0], &[], &[1, 0, 1]);
    let b = mesh(&[7.0, 8.0, 9.0, 4.0, 5.0, 6.0], &[], &[0, 1, 1]);
    let sources = [a.clone_parts(), b.clone_parts()];
    let merged = merge_meshes(&vec![a, b]).unwrap();
    let mut pos = 0;
    for (positions, indices) in sources.iter() {
        for &i in indices.iter() {
            let g = merged.indices[pos] as usize;
            for c in 0..3 {
                assert_eq!(merged.positions[3 * g + c], positions[3 * i as usize + c]);
            }
            pos += 1;
        }
    }
}

trait CloneParts {
    fn clone_parts(&self) -> (Vec<u32>, Vec<u32>);
}

impl CloneParts for ObjMesh {
    fn clone_parts(&self) -> (Vec<u32>, Vec<u32>) {
        (self.positions.clone(), self.indices.clone())
    }
}

#[test]
fn merge_drops_normals_unless_every_model_has_them() {
    let a = mesh(&[0.0; 3], &[1.0; 3], &[0]);
    let b = mesh(&[0.0; 3], &[], &[0]);
    let c = mesh(&[0.0; 3], &[1.0; 3], &[0]);
    let merged = merge_meshes(&vec![a, b, c]).unwrap();
    assert!(merged.normals.is_empty());
    assert_eq!(merged.indices, vec![0, 1, 2]);
}

#[test]
fn overflow_is_detected() {
    let a = mesh(&[0.0; 6], &[], &[0]);
    let b = mesh(&[0.0; 3], &[], &[u32::MAX - 1]);
    assert!(merge_would_overflow(&vec![a, b]));
    let a = mesh(&[0.0; 6], &[], &[0]);
    let b = mesh(&[0.0; 3], &[], &[u32::MAX - 2]);
    assert!(!merge_would_overflow(&vec![a, b]));
    // A model past a malformed one is never shifted.
    let a = mesh(&[0.0; 6], &[], &[0]);
    let b = mesh(&[0.0; 2], &[], &[]);
    let c = mesh(&[0.0; 3], &[], &[u32::MAX]);
    assert!(!merge_would_overflow(&vec![a, b, c]));
}

fn small_merged(with_normals: bool) -> MergedMesh {
    MergedMesh {
        positions: vec![1, 2, 3, 4, 5, 6, 7, 8, 9],
        normals: if with_normals { vec![10, 11, 12, 13, 14, 15, 16, 17, 18] } else { vec![] },
        indices: vec![0, 1, 2],
    }
}

#[test]
fn binary_buffer_layout() {
    let m = small_merged(true);
    let b = build_binary_buffer(&m).unwrap();
    let mut expected = Vec::new();
    for w in m.positions.iter().chain(m.normals.iter()).chain(m.indices.iter()) {
        expected.extend(le(*w));
    }
    assert_eq!(b.bytes, expected);
    assert_eq!(b.byte_length, 84);
    assert_eq!((b.position_offset, b.normal_offset, b.indices_offset), (0, 36, 72));
    assert_eq!((b.position_bytes, b.normal_bytes, b.indices_bytes), (36, 36, 12));
    assert_eq!(b.bytes.len() % 4, 0);
}

#[test]
fn binary_buffer_without_normals() {
    let m = small_merged(false);
    let b = build_binary_buffer(&m).unwrap();
    assert_eq!(b.byte_length, 48);
    assert_eq!((b.normal_offset, b.indices_offset, b.normal_bytes), (36, 36, 0));
}

#[test]
fn document_with_normals() {
    let m = small_merged(true);
    let b = build_binary_buffer(&m).unwrap();
    let d = describe_document(&m, &b, Some("cube.bin".to_string()));
    assert_eq!(d.buffer_byte_length, 84);
    assert_eq!(d.buffer_uri.as_deref(), Some("cube.bin"));
    assert_eq!(d.buffer_views.len(), 3);
    assert_eq!(d.accessors.len(), 3);
    assert_eq!((d.position_accessor, d.normal_accessor, d.indices_accessor), (0, Some(1), 2));
    assert_eq!(d.buffer_views[1].byte_offset, 36);
    assert_eq!(d.buffer_views[2].target, 34963);
    assert_eq!(d.accessors[0].component_type, COMPONENT_FLOAT);
    assert_eq!(d.accessors[0].count, 3);
    assert!(d.accessors[0].with_bounds);
    assert_eq!(d.accessors[2].component_type, COMPONENT_UNSIGNED_INT);
    assert_eq!(d.accessors[2].accessor_type, AccessorType::Scalar);
    assert_eq!(d.accessors[2].accessor_type.gltf_name(), "SCALAR");
    assert_eq!(d.accessors[1].accessor_type.gltf_name(), "VEC3");
    assert_eq!(d.mode, 4);
}

#[test]
fn document_covers_buffer() {
    for normals in [true, false] {
        let m = small_merged(normals);
        let b = build_binary_buffer(&m).unwrap();
        let d = describe_document(&m, &b, None);
        assert_eq!(d.buffer_views.len(), d.accessors.len());
        let mut offset = 0;
        for (a, v) in d.accessors.iter().zip(d.buffer_views.iter()) {
            let size = match a.accessor_type {
                AccessorType::Vec3 => 12,
                AccessorType::Scalar => 4,
            };
            assert_eq!(a.count * size, v.byte_length as usize);
            assert_eq!(v.byte_offset, offset);
            offset += v.byte_length as usize;
        }
        assert_eq!(offset, d.buffer_byte_length as usize);
    }
}

#[test]
fn json_chunk_padding() {
    let mut j = b"{}".to_vec();
    pad_json_chunk(&mut j);
    assert_eq!(j, b"{}  ".to_vec());
    let mut j = b"{\"a\"}".to_vec();
    pad_json_chunk(&mut j);
    assert_eq!(j, b"{\"a\"}   ".to_vec());
    let mut j = b"{ab}".to_vec();
    pad_json_chunk(&mut j);
    assert_eq!(j, b"{ab}".to_vec());
}

#[test]
fn glb_layout() {
    let json = b"{\"x\":1}".to_vec();
    let bin = vec![1u8, 2, 3, 4];
    let glb = assemble_glb(json, &bin).unwrap();
    let mut expected = b"glTF".to_vec();
    expected.extend(le(2));
    expected.extend(le(40));
    expected.extend(le(8));
    expected.extend(le(CHUNK_TYPE_JSON));
    expected.extend(b"{\"x\":1} ");
    expected.extend(le(4));
    expected.extend(le(CHUNK_TYPE_BIN));
    expected.extend([1u8, 2, 3, 4]);
    assert_eq!(glb, expected);
    assert_eq!(&glb[16..20], b"JSON");
    assert_eq!(&glb[32..36], b"BIN\0");
}

#[test]
fn glb_header_reads_back() {
    let json = b"{\"asset\":{\"version\":\"2.0\"}}".to_vec();
    let bin = vec![0u8; 12];
    let glb = assemble_glb(json.clone(), &bin).unwrap();
    let word = |i: usize| u32::from_le_bytes([glb[i], glb[i + 1], glb[i + 2], glb[i + 3]]);
    assert_eq!(&glb[0..4], b"glTF");
    assert_eq!(word(4), 2);
    assert_eq!(word(8) as usize, glb.len());
    let json_len = word(12) as usize;
    assert_eq!(json_len % 4, 0);
    assert_eq!(&glb[20..20 + json.len()], &json[..]);
    assert_eq!(glb.len() % 4, 0);
}

#[test]
fn error_messages() {
    assert_eq!(GltfError::NoGeometry.message(), "OBJ contained no geometry");
    assert_eq!(GltfError::NotThreeDimensional.message(), "OBJ positions were not 3D coordinates");
    assert_eq!(GltfError::NoIndexedTriangles.message(), "OBJ did not contain indexed triangles");
    assert_eq!(GltfError::BufferTooLarge.message(), "Resulting binary buffer is larger than 4 GiB");
    assert_eq!(GltfError::JsonChunkTooLarge.message(), "glTF JSON chunk is larger than 4 GiB");
    assert_eq!(
        GltfError::PayloadTooLarge.message(),
        "GLB payload exceeds 4 GiB and cannot be written"
    );
}

#[test]
fn buffer_reads_back() {
    let m = small_merged(true);
    let b = build_binary_buffer(&m).unwrap();
    let word = |at: usize| u32::from_le_bytes([b.bytes[at], b.bytes[at + 1], b.bytes[at + 2], b.bytes[at + 3]]);
    for (i, p) in m.positions.iter().enumerate() {
        assert_eq!(word(b.position_offset + 4 * i), *p);
    }
    for (i, n) in m.normals.iter().enumerate() {
        assert_eq!(word(b.normal_offset + 4 * i), *n);
    }
    for (i, x) in m.indices.iter().enumerate() {
        assert_eq!(word(b.indices_offset + 4 * i), *x);
    }
}

#[test]
fn two_objects_to_gltf() {
    let a = mesh(&[1.0, 1.0, 1.0, 2.0, 1.0, 1.0, 1.0, 2.0, 1.0], &[], &[0, 1, 2]);
    let b = mesh(&[1.0, 1.0, 2.0, 2.0, 1.0, 2.0, 1.0, 2.0, 2.0], &[], &[0, 1, 2]);
    let parts = prepare_gltf(&vec![a, b], "out.gltf").unwrap();
    assert_eq!(parts.buffer.bytes.len(), 96);
    let mut expected = Vec::new();
    for f in [1.0f32, 1.0, 1.0, 2.0, 1.0, 1.0, 1.0, 2.0, 1.0, 1.0, 1.0, 2.0, 2.0, 1.0, 2.0, 1.0, 2.0, 2.0] {
        expected.extend(f.to_le_bytes());
    }
    for i in [0u32, 1, 2, 3, 4, 5] {
        expected.extend(le(i));
    }
    assert_eq!(parts.buffer.bytes, expected);
    assert!(!parts.plan.write_glb);
    assert_eq!(parts.plan.bin_path.as_deref(), Some("out.bin"));
    assert_eq!(parts.document.buffer_uri.as_deref(), Some("out.bin"));
    assert_eq!(parts.document.buffer_byte_length, 96);
    assert_eq!(parts.document.accessors[0].count, 6);
    assert_eq!(parts.document.accessors[1].count, 6);
}

#[test]
fn triangle_to_glb() {
    let t = mesh(&[0.0, 0.0, 0.0, 1.0, 0.0, 0.0, 0.0, 1.0, 0.0], &[], &[0, 1, 2]);
    let parts = prepare_gltf(&vec![t], "tri.glb").unwrap();
    assert!(parts.plan.write_glb);
    assert!(parts.plan.bin_path.is_none());
    assert!(parts.document.buffer_uri.is_none());
    assert_eq!(parts.buffer.byte_length, 48);
    let json = b"{\"buffers\":[{\"byteLength\":48}]}".to_vec();
    let glb = assemble_glb(json, &parts.buffer.bytes).unwrap();
    let word = |i: usize| u32::from_le_bytes([glb[i], glb[i + 1], glb[i + 2], glb[i + 3]]);
    let j = word(12) as usize;
    assert_eq!(j % 4, 0);
    assert_eq!(word(8) as usize, glb.len());
    assert_eq!(word(20 + j), 48);
    assert_eq!(word(24 + j), CHUNK_TYPE_BIN);
    assert_eq!(glb.len(), 76 + j);
    assert_eq!((word(64 + j), word(68 + j), word(72 + j)), (0, 1, 2));
}
