//! Framing of binary glTF (GLB) containers: a 12-byte header, a JSON chunk
//! padded with spaces to a multiple of four bytes, and a binary chunk.

use vstd::prelude::*;
use crate::error::GltfError;
use crate::le::{le_bytes_u32, le_value, push_u32_le, lemma_le_bytes_roundtrip};

verus! {

/// The GLB version written in the header.
pub const GLB_VERSION: u32 = 2;
/// The type of the JSON chunk, `"JSON"` read as a little-endian word.
pub const CHUNK_TYPE_JSON: u32 = 0x4E4F534A;
/// The type of the binary chunk, `"BIN\0"` read as a little-endian word.
pub const CHUNK_TYPE_BIN: u32 = 0x004E4942;

/// The four magic bytes `"glTF"` that open every GLB container.
pub open spec fn glb_magic() -> Seq<u8> {
    seq![0x67u8, 0x6cu8, 0x54u8, 0x46u8]
}

/// The number of spaces that bring `n` bytes to a multiple of four.
pub open spec fn pad_len(n: nat) -> nat {
    ((4 - n % 4) % 4) as nat
}

/// The JSON text padded with spaces to a multiple of four bytes.
pub open spec fn padded_json(json: Seq<u8>) -> Seq<u8> {
    json + Seq::new(pad_len(json.len()), |i: int| 0x20u8)
}

/// The length of the GLB container for a JSON text and a binary chunk.
pub open spec fn glb_total_len(json: Seq<u8>, bin: Seq<u8>) -> nat {
    12 + 8 + padded_json(json).len() + 8 + bin.len()
}

/// The 20 bytes that open a GLB container: the magic bytes, the version,
/// the total length, and the length and type of the JSON chunk.
pub open spec fn glb_header(json: Seq<u8>, bin: Seq<u8>) -> Seq<u8> {
    glb_magic() + le_bytes_u32(GLB_VERSION) + le_bytes_u32(glb_total_len(json, bin) as u32)
        + le_bytes_u32(padded_json(json).len() as u32) + le_bytes_u32(CHUNK_TYPE_JSON)
}

/// The binary chunk: its length, its type, and its bytes.
pub open spec fn glb_bin_chunk(bin: Seq<u8>) -> Seq<u8> {
    le_bytes_u32(bin.len() as u32) + le_bytes_u32(CHUNK_TYPE_BIN) + bin
}

/// The GLB container of a JSON text and a binary chunk.
#[verifier::opaque]
pub open spec fn glb_bytes(json: Seq<u8>, bin: Seq<u8>) -> Seq<u8> {
    glb_header(json, bin) + padded_json(json) + glb_bin_chunk(bin)
}

/// Pads a JSON text with spaces to a multiple of four bytes.
pub fn pad_json_chunk(json: &mut Vec<u8>)
    ensures
        final(json)@ == padded_json(old(json)@),
{
    let ghost start = json@;
    while json.len() % 4 != 0
        invariant
            json@.len() >= start.len(),
            json@ == start + Seq::new((json@.len() - start.len()) as nat, |i: int| 0x20u8),
            json@.len() - start.len() <= pad_len(start.len()),
        decreases pad_len(start.len()) - (json@.len() - start.len()),
    {
        json.push(0x20u8);
        assert(json@ =~= start + Seq::new((json@.len() - start.len()) as nat, |i: int| 0x20u8));
    }
    assert(json@.len() - start.len() == pad_len(start.len()));
    assert(json@ =~= padded_json(start));
}

/// Frames a JSON text and a binary chunk as a GLB container. It fails when
/// the binary chunk, the padded JSON chunk, or the whole container does not
/// fit in 4 GiB.
pub fn assemble_glb(json: Vec<u8>, bin: &[u8]) -> (r: Result<Vec<u8>, GltfError>)
    ensures
        r is Ok <==> bin@.len() <= u32::MAX && padded_json(json@).len() <= u32::MAX
            && glb_total_len(json@, bin@) <= u32::MAX,
        r matches Err(e) ==> e == (if bin@.len() > u32::MAX {
            GltfError::BufferTooLarge
        } else if padded_json(json@).len() > u32::MAX {
            GltfError::JsonChunkTooLarge
        } else {
            GltfError::PayloadTooLarge
        }),
        r matches Ok(out) ==> out@ == glb_bytes(json@, bin@),
{
    if bin.len() > 0xffff_ffff {
        return Err(GltfError::BufferTooLarge);
    }
    let bin_length = bin.len() as u32;
    let mut json_bytes = json;
    pad_json_chunk(&mut json_bytes);
    if json_bytes.len() > 0xffff_ffff {
        return Err(GltfError::JsonChunkTooLarge);
    }
    let json_length = json_bytes.len() as u32;
    let total: u64 = 12u64 + 8 + json_length as u64 + 8 + bin_length as u64;
    if total > 0xffff_ffff {
        return Err(GltfError::PayloadTooLarge);
    }
    let total_length = total as u32;
    let mut glb: Vec<u8> = Vec::new();
    glb.push(0x67u8);
    glb.push(0x6cu8);
    glb.push(0x54u8);
    glb.push(0x46u8);
    push_u32_le(&mut glb, GLB_VERSION);
    push_u32_le(&mut glb, total_length);
    push_u32_le(&mut glb, json_length);
    push_u32_le(&mut glb, CHUNK_TYPE_JSON);
    glb.extend_from_slice(json_bytes.as_slice());
    push_u32_le(&mut glb, bin_length);
    push_u32_le(&mut glb, CHUNK_TYPE_BIN);
    glb.extend_from_slice(bin);
    reveal(glb_bytes);
    assert(glb@ =~= glb_bytes(json@, bin@));
    Ok(glb)
}

proof fn lemma_padded_json_len(json: Seq<u8>)
    ensures
        padded_json(json).len() == json.len() + pad_len(json.len()),
        padded_json(json).len() % 4 == 0,
{
}

proof fn lemma_header_fields(json: Seq<u8>, bin: Seq<u8>)
    requires
        padded_json(json).len() <= u32::MAX,
        glb_total_len(json, bin) <= u32::MAX,
    ensures
        glb_header(json, bin).len() == 20,
        glb_header(json, bin).subrange(0, 4) == glb_magic(),
        le_value(glb_header(json, bin).subrange(4, 8)) == GLB_VERSION,
        le_value(glb_header(json, bin).subrange(8, 12)) == glb_total_len(json, bin),
        le_value(glb_header(json, bin).subrange(12, 16)) == padded_json(json).len(),
        le_value(glb_header(json, bin).subrange(16, 20)) == CHUNK_TYPE_JSON,
{
    let total = glb_total_len(json, bin) as u32;
    let pl = padded_json(json).len() as u32;
    let h = glb_header(json, bin);
    lemma_le_bytes_roundtrip(GLB_VERSION);
    lemma_le_bytes_roundtrip(total);
    lemma_le_bytes_roundtrip(pl);
    lemma_le_bytes_roundtrip(CHUNK_TYPE_JSON);
    assert(h.subrange(0, 4) =~= glb_magic());
    assert(h.subrange(4, 8) =~= le_bytes_u32(GLB_VERSION));
    assert(h.subrange(8, 12) =~= le_bytes_u32(total));
    assert(h.subrange(12, 16) =~= le_bytes_u32(pl));
    assert(h.subrange(16, 20) =~= le_bytes_u32(CHUNK_TYPE_JSON));
}

proof fn lemma_bin_chunk_fields(bin: Seq<u8>)
    requires
        bin.len() <= u32::MAX,
    ensures
        glb_bin_chunk(bin).len() == 8 + bin.len(),
        le_value(glb_bin_chunk(bin).subrange(0, 4)) == bin.len(),
        le_value(glb_bin_chunk(bin).subrange(4, 8)) == CHUNK_TYPE_BIN,
        glb_bin_chunk(bin).subrange(8, 8 + bin.len() as int) == bin,
{
    let c = glb_bin_chunk(bin);
    lemma_le_bytes_roundtrip(bin.len() as u32);
    lemma_le_bytes_roundtrip(CHUNK_TYPE_BIN);
    assert(c.subrange(0, 4) =~= le_bytes_u32(bin.len() as u32));
    assert(c.subrange(4, 8) =~= le_bytes_u32(CHUNK_TYPE_BIN));
    assert(c.subrange(8, 8 + bin.len() as int) =~= bin);
}

/// A GLB container reads back: it opens with the magic bytes,
/// its version field reads 2, its length field reads the length of the whole
/// container, the JSON chunk's length field reads the length of the padded
/// JSON text, which follows it, then the binary chunk's length field reads
/// the length of the binary bytes, which follow its type field; the padded
/// JSON text is a multiple of four bytes long (the whole container too, when
/// the binary chunk is).
pub proof fn lemma_glb_reads_back(json: Seq<u8>, bin: Seq<u8>)
    requires
        bin.len() <= u32::MAX,
        padded_json(json).len() <= u32::MAX,
        glb_total_len(json, bin) <= u32::MAX,
    ensures
        glb_bytes(json, bin).len() == glb_total_len(json, bin),
        glb_bytes(json, bin).subrange(0, 4) == glb_magic(),
        le_value(glb_bytes(json, bin).subrange(4, 8)) == GLB_VERSION,
        le_value(glb_bytes(json, bin).subrange(8, 12)) == glb_bytes(json, bin).len(),
        le_value(glb_bytes(json, bin).subrange(12, 16)) == padded_json(json).len(),
        le_value(glb_bytes(json, bin).subrange(16, 20)) == CHUNK_TYPE_JSON,
        glb_bytes(json, bin).subrange(20, 20 + padded_json(json).len() as int) == padded_json(json),
        le_value(
            glb_bytes(json, bin).subrange(
                20 + padded_json(json).len() as int,
                24 + padded_json(json).len() as int,
            ),
        ) == bin.len(),
        le_value(
            glb_bytes(json, bin).subrange(
                24 + padded_json(json).len() as int,
                28 + padded_json(json).len() as int,
            ),
        ) == CHUNK_TYPE_BIN,
        glb_bytes(json, bin).subrange(
            28 + padded_json(json).len() as int,
            glb_bytes(json, bin).len() as int,
        ) == bin,
        padded_json(json).len() % 4 == 0,
        bin.len() % 4 == 0 ==> glb_bytes(json, bin).len() % 4 == 0,
{
    lemma_padded_json_len(json);
    lemma_glb_front(json, bin);
    lemma_glb_back(json, bin);
    if bin.len() % 4 == 0 {
        lemma_aligned_sum(padded_json(json).len() as int, bin.len() as int);
    }
}

proof fn lemma_aligned_sum(p: int, b: int)
    requires
        p % 4 == 0,
        b % 4 == 0,
    ensures
        (12 + 8 + p + 8 + b) % 4 == 0,
{
    assert((12 + 8 + p + 8 + b) % 4 == 0) by (nonlinear_arith)
        requires
            p % 4 == 0,
            b % 4 == 0,
    ;
}

proof fn lemma_glb_front(json: Seq<u8>, bin: Seq<u8>)
    requires
        bin.len() <= u32::MAX,
        padded_json(json).len() <= u32::MAX,
        glb_total_len(json, bin) <= u32::MAX,
    ensures
        glb_bytes(json, bin).len() == glb_total_len(json, bin),
        glb_bytes(json, bin).subrange(0, 4) == glb_magic(),
        le_value(glb_bytes(json, bin).subrange(4, 8)) == GLB_VERSION,
        le_value(glb_bytes(json, bin).subrange(8, 12)) == glb_total_len(json, bin),
        le_value(glb_bytes(json, bin).subrange(12, 16)) == padded_json(json).len(),
        le_value(glb_bytes(json, bin).subrange(16, 20)) == CHUNK_TYPE_JSON,
        glb_bytes(json, bin).subrange(20, 20 + padded_json(json).len() as int) == padded_json(json),
{
    reveal(glb_bytes);
    lemma_header_fields(json, bin);
    let h = glb_header(json, bin);
    let pj = padded_json(json);
    let c = glb_bin_chunk(bin);
    let g = glb_bytes(json, bin);
    assert(c.len() == 8 + bin.len());
    assert(g.len() == glb_total_len(json, bin));
    assert forall|a: int, b: int| 0 <= a <= b <= 20 implies #[trigger] g.subrange(a, b)
        == h.subrange(a, b) by {
        assert(g.subrange(a, b) =~= h.subrange(a, b));
    }
    assert(g.subrange(0, 4) == h.subrange(0, 4));
    assert(g.subrange(4, 8) == h.subrange(4, 8));
    assert(g.subrange(8, 12) == h.subrange(8, 12));
    assert(g.subrange(12, 16) == h.subrange(12, 16));
    assert(g.subrange(16, 20) == h.subrange(16, 20));
    assert(g.subrange(20, 20 + pj.len() as int) =~= pj);
}

proof fn lemma_glb_back(json: Seq<u8>, bin: Seq<u8>)
    requires
        bin.len() <= u32::MAX,
    ensures
        ({
            let g = glb_bytes(json, bin);
            let o = 20 + padded_json(json).len() as int;
            &&& le_value(g.subrange(o, o + 4)) == bin.len()
            &&& le_value(g.subrange(o + 4, o + 8)) == CHUNK_TYPE_BIN
            &&& g.subrange(o + 8, g.len() as int) == bin
        }),
{
    reveal(glb_bytes);
    lemma_bin_chunk_fields(bin);
    let x = glb_header(json, bin) + padded_json(json);
    let c = glb_bin_chunk(bin);
    assert(x.len() == 20 + padded_json(json).len());
    lemma_suffix_fields(x, c, bin);
}

proof fn lemma_suffix_fields(x: Seq<u8>, c: Seq<u8>, bin: Seq<u8>)
    requires
        c.len() == 8 + bin.len(),
        le_value(c.subrange(0, 4)) == bin.len(),
        le_value(c.subrange(4, 8)) == CHUNK_TYPE_BIN,
        c.subrange(8, 8 + bin.len() as int) == bin,
    ensures
        le_value((x + c).subrange(x.len() as int, x.len() as int + 4)) == bin.len(),
        le_value((x + c).subrange(x.len() as int + 4, x.len() as int + 8)) == CHUNK_TYPE_BIN,
        (x + c).subrange(x.len() as int + 8, (x + c).len() as int) == bin,
{
    assert((x + c).subrange(x.len() as int, x.len() as int + 4) =~= c.subrange(0, 4));
    assert((x + c).subrange(x.len() as int + 4, x.len() as int + 8) =~= c.subrange(4, 8));
    assert((x + c).subrange(x.len() as int + 8, (x + c).len() as int) =~= c.subrange(8, 8 + bin.len() as int));
}

} // verus!
