//! The binary buffer of a glTF file: positions, then normals, then indices,
//! each as little-endian 32-bit words.

use vstd::prelude::*;
use crate::error::GltfError;
use crate::le::{le_value, le_words, extend_le_words, lemma_le_words_len, lemma_le_words_roundtrip};
use crate::mesh::{MergedMesh, MeshModel};

verus! {

/// The bytes of the binary buffer and where each part stands in it.
#[derive(Debug)]
pub struct BinaryBuffer {
    pub bytes: Vec<u8>,
    /// The length of `bytes`, which fits in 32 bits.
    pub byte_length: u32,
    pub position_offset: usize,
    pub normal_offset: usize,
    pub indices_offset: usize,
    pub position_bytes: u32,
    pub normal_bytes: u32,
    pub indices_bytes: u32,
}

/// The number of bytes of the buffer of a mesh.
pub open spec fn buffer_size(m: MeshModel) -> nat {
    4 * (m.positions.len() + m.normals.len() + m.indices.len())
}

/// Whether `b` is the binary buffer of the mesh `m`: its bytes are the
/// positions, the normals and the indices, one after another, and the
/// offsets and lengths say where each part starts and how long it is.
pub open spec fn lays_out(b: BinaryBuffer, m: MeshModel) -> bool {
    &&& b.bytes@ == le_words(m.positions) + le_words(m.normals) + le_words(m.indices)
    &&& b.byte_length == b.bytes@.len()
    &&& b.position_offset == 0
    &&& b.normal_offset == 4 * m.positions.len()
    &&& b.indices_offset == 4 * (m.positions.len() + m.normals.len())
    &&& b.position_bytes == 4 * m.positions.len()
    &&& b.normal_bytes == 4 * m.normals.len()
    &&& b.indices_bytes == 4 * m.indices.len()
}

/// Builds the binary buffer of a merged mesh. It fails, as a buffer of more
/// than 4 GiB cannot be described, exactly when its size passes `u32::MAX`.
pub fn build_binary_buffer(mesh: &MergedMesh) -> (r: Result<BinaryBuffer, GltfError>)
    ensures
        r is Err <==> buffer_size(mesh@) > u32::MAX,
        r matches Err(e) ==> e == GltfError::BufferTooLarge,
        r matches Ok(b) ==> lays_out(b, mesh@),
{
    let np = mesh.positions.len();
    let nn = mesh.normals.len();
    let ni = mesh.indices.len();
    let size: u128 = 4 * (np as u128 + nn as u128 + ni as u128);
    if size > 0xffff_ffff {
        return Err(GltfError::BufferTooLarge);
    }
    let mut bytes: Vec<u8> = Vec::new();
    let position_offset = bytes.len();
    extend_le_words(&mut bytes, mesh.positions.as_slice());
    let normal_offset = bytes.len();
    if nn != 0 {
        extend_le_words(&mut bytes, mesh.normals.as_slice());
    }
    let indices_offset = bytes.len();
    extend_le_words(&mut bytes, mesh.indices.as_slice());
    proof {
        lemma_le_words_len(mesh.positions@);
        lemma_le_words_len(mesh.normals@);
        lemma_le_words_len(mesh.indices@);
        if nn == 0 {
            assert(mesh.normals@ =~= Seq::<u32>::empty());
            assert(le_words(mesh.normals@) =~= Seq::<u8>::empty());
        }
        assert(bytes@ =~= le_words(mesh.positions@) + le_words(mesh.normals@) + le_words(
            mesh.indices@,
        ));
    }
    let byte_length = bytes.len() as u32;
    let position_bytes = (np * 4) as u32;
    let normal_bytes = (nn * 4) as u32;
    let indices_bytes = (ni * 4) as u32;
    Ok(
        BinaryBuffer {
            bytes,
            byte_length,
            position_offset,
            normal_offset,
            indices_offset,
            position_bytes,
            normal_bytes,
            indices_bytes,
        },
    )
}

/// The buffer of a mesh is a whole number of 32-bit words, as glTF asks of
/// every buffer, so the buffer never needs padding.
pub proof fn lemma_buffer_word_aligned(b: BinaryBuffer, m: MeshModel)
    requires
        lays_out(b, m),
    ensures
        b.bytes@.len() % 4 == 0,
        b.bytes@.len() == buffer_size(m),
{
    lemma_le_words_len(m.positions);
    lemma_le_words_len(m.normals);
    lemma_le_words_len(m.indices);
}

/// Every word written to the buffer reads back from where the offsets say:
/// position component `i` from bytes `position_offset + 4i ..`, normal
/// component `i` from `normal_offset + 4i ..`, and index `i` from
/// `indices_offset + 4i ..`.
pub proof fn lemma_buffer_reads_back(b: BinaryBuffer, m: MeshModel, i: int)
    requires
        lays_out(b, m),
    ensures
        0 <= i < m.positions.len() ==> le_value(
            b.bytes@.subrange(b.position_offset + 4 * i, b.position_offset + 4 * i + 4),
        ) == m.positions[i],
        0 <= i < m.normals.len() ==> le_value(
            b.bytes@.subrange(b.normal_offset + 4 * i, b.normal_offset + 4 * i + 4),
        ) == m.normals[i],
        0 <= i < m.indices.len() ==> le_value(
            b.bytes@.subrange(b.indices_offset + 4 * i, b.indices_offset + 4 * i + 4),
        ) == m.indices[i],
{
    let wp = le_words(m.positions);
    let wn = le_words(m.normals);
    let wi = le_words(m.indices);
    lemma_le_words_len(m.positions);
    lemma_le_words_len(m.normals);
    lemma_le_words_len(m.indices);
    let all = b.bytes@;
    assert(all == wp + wn + wi);
    if 0 <= i < m.positions.len() {
        lemma_le_words_roundtrip(m.positions, i);
        assert(all.subrange(4 * i, 4 * i + 4) =~= wp.subrange(4 * i, 4 * i + 4));
    }
    if 0 <= i < m.normals.len() {
        lemma_le_words_roundtrip(m.normals, i);
        assert(all.subrange(wp.len() + 4 * i, wp.len() + 4 * i + 4) =~= wn.subrange(
            4 * i,
            4 * i + 4,
        ));
    }
    if 0 <= i < m.indices.len() {
        lemma_le_words_roundtrip(m.indices, i);
        assert(all.subrange(wp.len() + wn.len() + 4 * i, wp.len() + wn.len() + 4 * i + 4)
            =~= wi.subrange(4 * i, 4 * i + 4));
    }
}

} // verus!
