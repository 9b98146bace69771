//! The glTF document that describes a merged mesh and its binary buffer:
//! buffer views, accessors and the one triangle primitive.
//!
//! The bounds of the position accessor (its `min` and `max`) are
//! floating-point values; the document only records that they belong there.

use vstd::prelude::*;
use crate::buffer::{BinaryBuffer, lays_out};
use crate::mesh::{MergedMesh, MeshModel};

verus! {

/// Buffer-view target for vertex attributes.
pub const TARGET_ARRAY_BUFFER: u32 = 34962;
/// Buffer-view target for vertex indices.
pub const TARGET_ELEMENT_ARRAY_BUFFER: u32 = 34963;
/// Accessor component type of 32-bit floats.
pub const COMPONENT_FLOAT: u32 = 5126;
/// Accessor component type of unsigned 32-bit integers.
pub const COMPONENT_UNSIGNED_INT: u32 = 5125;
/// Primitive mode of a triangle list.
pub const MODE_TRIANGLES: u32 = 4;

/// The shape of one element of an accessor.
#[derive(Debug, Clone, Copy, PartialEq, Eq, Structural)]
pub enum AccessorType {
    Vec3,
    Scalar,
}

impl AccessorType {
    /// The name of the accessor type in a glTF document.
    pub fn gltf_name(&self) -> (name: &'static str)
        ensures
            *self == AccessorType::Vec3 ==> name@ == "VEC3"@,
            *self == AccessorType::Scalar ==> name@ == "SCALAR"@,
    {
        match self {
            AccessorType::Vec3 => "VEC3",
            AccessorType::Scalar => "SCALAR",
        }
    }
}

/// A slice of the (only) buffer.
#[derive(Debug, Clone, Copy, PartialEq, Eq, Structural)]
pub struct BufferView {
    pub buffer: usize,
    pub byte_offset: usize,
    pub byte_length: u32,
    pub target: u32,
}

/// A typed view of a buffer view.
#[derive(Debug, Clone, Copy, PartialEq, Eq, Structural)]
pub struct Accessor {
    pub buffer_view: usize,
    pub component_type: u32,
    pub count: usize,
    pub accessor_type: AccessorType,
    /// Whether the accessor carries `min` and `max` bounds.
    pub with_bounds: bool,
}

/// The glTF document of one mesh with one triangle primitive.
#[derive(Debug)]
pub struct GltfDocument {
    pub buffer_byte_length: u32,
    /// Where the buffer lives; none when it is embedded in a GLB container.
    pub buffer_uri: Option<String>,
    pub buffer_views: Vec<BufferView>,
    pub accessors: Vec<Accessor>,
    pub position_accessor: usize,
    pub normal_accessor: Option<usize>,
    pub indices_accessor: usize,
    pub mode: u32,
}

/// The buffer views of a mesh's buffer: positions, normals if there are
/// any, then indices.
pub open spec fn expected_views(m: MeshModel, b: BinaryBuffer) -> Seq<BufferView> {
    let pos = BufferView {
        buffer: 0,
        byte_offset: b.position_offset,
        byte_length: b.position_bytes,
        target: TARGET_ARRAY_BUFFER,
    };
    let nor = BufferView {
        buffer: 0,
        byte_offset: b.normal_offset,
        byte_length: b.normal_bytes,
        target: TARGET_ARRAY_BUFFER,
    };
    let idx = BufferView {
        buffer: 0,
        byte_offset: b.indices_offset,
        byte_length: b.indices_bytes,
        target: TARGET_ELEMENT_ARRAY_BUFFER,
    };
    if m.normals.len() > 0 {
        seq![pos, nor, idx]
    } else {
        seq![pos, idx]
    }
}

/// The accessors of a mesh: positions (with bounds), normals if there are
/// any, then indices, each reading the buffer view of the same rank.
pub open spec fn expected_accessors(m: MeshModel) -> Seq<Accessor> {
    let vertex_count = (m.positions.len() / 3) as usize;
    let pos = Accessor {
        buffer_view: 0,
        component_type: COMPONENT_FLOAT,
        count: vertex_count,
        accessor_type: AccessorType::Vec3,
        with_bounds: true,
    };
    let nor = Accessor {
        buffer_view: 1,
        component_type: COMPONENT_FLOAT,
        count: vertex_count,
        accessor_type: AccessorType::Vec3,
        with_bounds: false,
    };
    let idx_view: usize = if m.normals.len() > 0 {
        2
    } else {
        1
    };
    let idx = Accessor {
        buffer_view: idx_view,
        component_type: COMPONENT_UNSIGNED_INT,
        count: m.indices.len() as usize,
        accessor_type: AccessorType::Scalar,
        with_bounds: false,
    };
    if m.normals.len() > 0 {
        seq![pos, nor, idx]
    } else {
        seq![pos, idx]
    }
}

/// Whether `d` is the document of mesh `m` with buffer `b` stored at `uri`.
pub open spec fn describes(d: GltfDocument, m: MeshModel, b: BinaryBuffer, uri: Option<String>) -> bool {
    &&& d.buffer_byte_length == b.byte_length
    &&& d.buffer_uri == uri
    &&& d.buffer_views@ == expected_views(m, b)
    &&& d.accessors@ == expected_accessors(m)
    &&& d.position_accessor == 0
    &&& d.normal_accessor == (if m.normals.len() > 0 {
        Some(1usize)
    } else {
        None
    })
    &&& d.indices_accessor == (if m.normals.len() > 0 {
        2usize
    } else {
        1usize
    })
    &&& d.mode == MODE_TRIANGLES
}

/// Describes a merged mesh and its binary buffer as a glTF document whose
/// buffer is stored at `buffer_uri` (or embedded, when it is `None`).
pub fn describe_document(mesh: &MergedMesh, bin: &BinaryBuffer, buffer_uri: Option<String>) -> (d:
    GltfDocument)
    ensures
        describes(d, mesh@, *bin, buffer_uri),
{
    let vertex_count = mesh.positions.len() / 3;
    let has_normals = mesh.normals.len() != 0;
    let mut buffer_views: Vec<BufferView> = Vec::new();
    let mut accessors: Vec<Accessor> = Vec::new();

    let position_view = buffer_views.len();
    buffer_views.push(
        BufferView {
            buffer: 0,
            byte_offset: bin.position_offset,
            byte_length: bin.position_bytes,
            target: TARGET_ARRAY_BUFFER,
        },
    );
    let position_accessor = accessors.len();
    accessors.push(
        Accessor {
            buffer_view: position_view,
            component_type: COMPONENT_FLOAT,
            count: vertex_count,
            accessor_type: AccessorType::Vec3,
            with_bounds: true,
        },
    );

    let mut normal_accessor: Option<usize> = None;
    if has_normals {
        let normal_view = buffer_views.len();
        buffer_views.push(
            BufferView {
                buffer: 0,
                byte_offset: bin.normal_offset,
                byte_length: bin.normal_bytes,
                target: TARGET_ARRAY_BUFFER,
            },
        );
        normal_accessor = Some(accessors.len());
        accessors.push(
            Accessor {
                buffer_view: normal_view,
                component_type: COMPONENT_FLOAT,
                count: vertex_count,
                accessor_type: AccessorType::Vec3,
                with_bounds: false,
            },
        );
    }

    let indices_view = buffer_views.len();
    buffer_views.push(
        BufferView {
            buffer: 0,
            byte_offset: bin.indices_offset,
            byte_length: bin.indices_bytes,
            target: TARGET_ELEMENT_ARRAY_BUFFER,
        },
    );
    let indices_accessor = accessors.len();
    accessors.push(
        Accessor {
            buffer_view: indices_view,
            component_type: COMPONENT_UNSIGNED_INT,
            count: mesh.indices.len(),
            accessor_type: AccessorType::Scalar,
            with_bounds: false,
        },
    );
    assert(buffer_views@ =~= expected_views(mesh@, *bin));
    assert(accessors@ =~= expected_accessors(mesh@));
    GltfDocument {
        buffer_byte_length: bin.byte_length,
        buffer_uri,
        buffer_views,
        accessors,
        position_accessor,
        normal_accessor,
        indices_accessor,
        mode: MODE_TRIANGLES,
    }
}

/// The number of bytes of one element of an accessor.
pub open spec fn element_size(a: Accessor) -> int {
    match a.accessor_type {
        AccessorType::Vec3 => 12,
        AccessorType::Scalar => 4,
    }
}

/// The document describes its buffer exactly: when the positions come in
/// triples and normals, if any, come one triple per vertex, every accessor
/// reads a view of the buffer whose length is its count times its element
/// size, and the views follow one another and cover the whole buffer.
pub proof fn lemma_document_covers_buffer(d: GltfDocument, m: MeshModel, b: BinaryBuffer, uri: Option<String>)
    requires
        lays_out(b, m),
        describes(d, m, b, uri),
        m.positions.len() % 3 == 0,
        m.normals.len() == 0 || m.normals.len() == m.positions.len(),
    ensures
        d.buffer_views@.len() == d.accessors@.len(),
        forall|a: int|
            0 <= a < d.accessors@.len() ==> {
                &&& (#[trigger] d.accessors@[a]).buffer_view == a
                &&& d.accessors@[a].count * element_size(d.accessors@[a])
                    == d.buffer_views@[a].byte_length
            },
        d.buffer_views@[0].byte_offset == 0,
        forall|a: int|
            0 <= a < d.buffer_views@.len() - 1 ==> #[trigger] d.buffer_views@[a].byte_offset
                + d.buffer_views@[a].byte_length == d.buffer_views@[a + 1].byte_offset,
        d.buffer_views@.last().byte_offset + d.buffer_views@.last().byte_length
            == d.buffer_byte_length,
{
    crate::buffer::lemma_buffer_word_aligned(b, m);
    let np = m.positions.len();
    assert((np / 3) * 12 == 4 * np) by (nonlinear_arith)
        requires
            np % 3 == 0,
    ;
}

/// Every accessor has the component type of the data it reads: the
/// position accessor reads the position words as triples of 32-bit floats,
/// the normal accessor (present exactly when the mesh has normals) reads the
/// normal words as triples of 32-bit floats, one per vertex like the
/// positions, and the index accessor reads the index words one at a time as
/// unsigned 32-bit integers. Across all accessors, triples are floats and
/// single elements are unsigned integers.
pub proof fn lemma_accessor_types(d: GltfDocument, m: MeshModel, b: BinaryBuffer, uri: Option<String>)
    requires
        lays_out(b, m),
        describes(d, m, b, uri),
    ensures
        0 <= d.position_accessor < d.accessors@.len(),
        d.accessors@[d.position_accessor as int].component_type == COMPONENT_FLOAT,
        d.accessors@[d.position_accessor as int].accessor_type == AccessorType::Vec3,
        d.buffer_views@[d.accessors@[d.position_accessor as int].buffer_view as int].byte_offset
            == b.position_offset,
        d.normal_accessor is Some <==> m.normals.len() > 0,
        d.normal_accessor is Some ==> {
            let i = d.normal_accessor->0 as int;
            &&& 0 <= i < d.accessors@.len()
            &&& d.accessors@[i].component_type == COMPONENT_FLOAT
            &&& d.accessors@[i].accessor_type == AccessorType::Vec3
            &&& d.accessors@[i].count == d.accessors@[d.position_accessor as int].count
            &&& d.buffer_views@[d.accessors@[i].buffer_view as int].byte_offset == b.normal_offset
        },
        0 <= d.indices_accessor < d.accessors@.len(),
        d.accessors@[d.indices_accessor as int].component_type == COMPONENT_UNSIGNED_INT,
        d.accessors@[d.indices_accessor as int].accessor_type == AccessorType::Scalar,
        d.accessors@[d.indices_accessor as int].count == m.indices.len(),
        d.buffer_views@[d.accessors@[d.indices_accessor as int].buffer_view as int].byte_offset
            == b.indices_offset,
        forall|a: int|
            0 <= a < d.accessors@.len() ==> (#[trigger] d.accessors@[a]).component_type == (
            if d.accessors@[a].accessor_type == AccessorType::Vec3 {
                COMPONENT_FLOAT
            } else {
                COMPONENT_UNSIGNED_INT
            }),
{
    crate::buffer::lemma_buffer_word_aligned(b, m);
}

} // verus!
