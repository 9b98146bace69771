//! Merging the meshes of an OBJ file into one indexed triangle mesh.
//!
//! Coordinates are carried as the IEEE-754 bit patterns of their `f32`
//! values: merging only moves them, it never computes with them.

use vstd::prelude::*;
use crate::error::GltfError;

verus! {

/// One model of an OBJ file, with a single index per vertex.
#[derive(Debug)]
pub struct ObjMesh {
    /// Bit patterns of the `f32` coordinates, three per vertex.
    pub positions: Vec<u32>,
    /// Bit patterns of the `f32` normal components, three per vertex (or none).
    pub normals: Vec<u32>,
    /// Vertex indices, three per triangle.
    pub indices: Vec<u32>,
}

/// The meshes after merging: one vertex list, one index list.
#[derive(Debug)]
pub struct MergedMesh {
    pub positions: Vec<u32>,
    pub normals: Vec<u32>,
    pub indices: Vec<u32>,
}

/// The mathematical content of a mesh.
pub ghost struct MeshModel {
    pub positions: Seq<u32>,
    pub normals: Seq<u32>,
    pub indices: Seq<u32>,
}

impl View for ObjMesh {
    type V = MeshModel;

    open spec fn view(&self) -> MeshModel {
        MeshModel { positions: self.positions@, normals: self.normals@, indices: self.indices@ }
    }
}

impl View for MergedMesh {
    type V = MeshModel;

    open spec fn view(&self) -> MeshModel {
        MeshModel { positions: self.positions@, normals: self.normals@, indices: self.indices@ }
    }
}

/// The models of a list of meshes.
pub open spec fn models(ms: Seq<ObjMesh>) -> Seq<MeshModel> {
    ms.map_values(|m: ObjMesh| m@)
}

/// Whether a mesh's positions come in (x, y, z) triples.
pub open spec fn is_triples(m: MeshModel) -> bool {
    m.positions.len() % 3 == 0
}

/// Whether some mesh's positions do not come in triples.
pub open spec fn has_non_triples(ms: Seq<MeshModel>) -> bool {
    exists|k: int| 0 <= k < ms.len() && !#[trigger] is_triples(ms[k])
}

/// All positions, mesh after mesh.
pub open spec fn all_positions(ms: Seq<MeshModel>) -> Seq<u32>
    decreases ms.len(),
{
    if ms.len() == 0 {
        Seq::empty()
    } else {
        all_positions(ms.drop_last()) + ms.last().positions
    }
}

/// All normals, mesh after mesh.
pub open spec fn all_normals(ms: Seq<MeshModel>) -> Seq<u32>
    decreases ms.len(),
{
    if ms.len() == 0 {
        Seq::empty()
    } else {
        all_normals(ms.drop_last()) + ms.last().normals
    }
}

/// Whether every mesh has normals.
pub open spec fn all_have_normals(ms: Seq<MeshModel>) -> bool {
    forall|k: int| 0 <= k < ms.len() ==> #[trigger] ms[k].normals.len() > 0
}

/// The number of vertices before mesh `k`, as the 32-bit index offset of mesh `k`
/// (taken modulo 2^32, as a cast to `u32` does).
pub open spec fn vertex_offset(ms: Seq<MeshModel>, k: int) -> u32 {
    (all_positions(ms.take(k)).len() / 3) as u32
}

/// `idx` with `off` added to every index.
pub open spec fn shifted(idx: Seq<u32>, off: u32) -> Seq<u32> {
    idx.map_values(|i: u32| (i + off) as u32)
}

/// All indices, each mesh's shifted by the number of vertices before it.
pub open spec fn all_indices(ms: Seq<MeshModel>) -> Seq<u32>
    decreases ms.len(),
{
    if ms.len() == 0 {
        Seq::empty()
    } else {
        all_indices(ms.drop_last()) + shifted(ms.last().indices, vertex_offset(ms, ms.len() - 1))
    }
}

/// Whether every index of mesh `k`, shifted by its offset, fits in 32 bits.
pub open spec fn indices_fit(ms: Seq<MeshModel>, k: int) -> bool {
    forall|i: int|
        0 <= i < ms[k].indices.len() ==> #[trigger] ms[k].indices[i] + vertex_offset(ms, k)
            <= u32::MAX
}

/// Whether all meshes up to and including `k` have positions in triples.
pub open spec fn triples_through(ms: Seq<MeshModel>, k: int) -> bool {
    forall|j: int| 0 <= j <= k ==> #[trigger] is_triples(ms[j])
}

/// Whether merging adds no index past `u32::MAX`: the shift of a mesh's
/// indices is reached only when every mesh up to it passed the triple check.
pub open spec fn no_index_overflow(ms: Seq<MeshModel>) -> bool {
    forall|k: int|
        0 <= k < ms.len() && #[trigger] triples_through(ms, k) ==> indices_fit(ms, k)
}

/// What merging gives: an error, or the merged mesh.
pub open spec fn merge_result(ms: Seq<MeshModel>) -> Result<MeshModel, GltfError> {
    if ms.len() == 0 {
        Err(GltfError::NoGeometry)
    } else if has_non_triples(ms) {
        Err(GltfError::NotThreeDimensional)
    } else if all_positions(ms).len() == 0 || all_indices(ms).len() == 0 {
        Err(GltfError::NoIndexedTriangles)
    } else {
        Ok(
            MeshModel {
                positions: all_positions(ms),
                normals: if all_have_normals(ms) {
                    all_normals(ms)
                } else {
                    Seq::empty()
                },
                indices: all_indices(ms),
            },
        )
    }
}

proof fn lemma_take_step(ms: Seq<MeshModel>, k: int)
    requires
        0 <= k < ms.len(),
    ensures
        all_positions(ms.take(k + 1)) == all_positions(ms.take(k)) + ms[k].positions,
        all_normals(ms.take(k + 1)) == all_normals(ms.take(k)) + ms[k].normals,
        all_indices(ms.take(k + 1)) == all_indices(ms.take(k)) + shifted(
            ms[k].indices,
            vertex_offset(ms, k),
        ),
        all_have_normals(ms.take(k + 1)) == (all_have_normals(ms.take(k))
            && ms[k].normals.len() > 0),
{
    let t = ms.take(k + 1);
    assert(t.drop_last() =~= ms.take(k));
    assert(t.take(k) =~= ms.take(k));
    assert(t.last() == ms[k]);
    if all_have_normals(ms.take(k)) && ms[k].normals.len() > 0 {
        assert forall|j: int| 0 <= j < t.len() implies #[trigger] t[j].normals.len() > 0 by {
            if j < k {
                assert(ms.take(k)[j] == t[j]);
            }
        }
    }
    if all_have_normals(t) {
        assert(t[k].normals.len() > 0);
        assert forall|j: int| 0 <= j < k implies #[trigger] ms.take(k)[j].normals.len() > 0 by {
            assert(t[j] == ms.take(k)[j]);
        }
    }
}

/// The number of vertices of a mesh.
pub open spec fn vertex_count(m: MeshModel) -> int {
    (m.positions.len() / 3) as int
}

/// Whether every index of every mesh names a vertex of that same mesh.
pub open spec fn indices_in_range(ms: Seq<MeshModel>) -> bool {
    forall|k: int, i: int|
        0 <= k < ms.len() && 0 <= i < ms[k].indices.len() ==> #[trigger] ms[k].indices[i]
            < vertex_count(ms[k])
}

proof fn lemma_all_positions_triples(ms: Seq<MeshModel>)
    requires
        !has_non_triples(ms),
    ensures
        all_positions(ms).len() % 3 == 0,
    decreases ms.len(),
{
    if ms.len() > 0 {
        let p = ms.drop_last();
        assert(!has_non_triples(p)) by {
            if has_non_triples(p) {
                let k = choose|k: int| 0 <= k < p.len() && !#[trigger] is_triples(p[k]);
                assert(ms[k] == p[k]);
            }
        }
        lemma_all_positions_triples(p);
        assert(is_triples(ms[ms.len() - 1]));
    }
}

proof fn lemma_positions_prefix(ms: Seq<MeshModel>, k: int)
    requires
        0 <= k < ms.len(),
    ensures
        all_positions(ms.take(k)).len() + ms[k].positions.len() <= all_positions(ms).len(),
    decreases ms.len(),
{
    lemma_take_step(ms, k);
    if k == ms.len() - 1 {
        assert(ms.take(k + 1) =~= ms);
    } else {
        let p = ms.drop_last();
        lemma_positions_prefix(p, k);
        assert(p.take(k) =~= ms.take(k));
        assert(p[k] == ms[k]);
    }
}

/// Merging keeps every triangle: when each mesh's indices name vertices of
/// that mesh and all vertices together can be numbered with 32-bit indices,
/// no shifted index overflows, and index `i` of mesh `k`, once merged, names
/// a vertex of the merged mesh with the same three coordinates as the vertex
/// it named in mesh `k`.
pub proof fn lemma_merge_keeps_triangles(ms: Seq<MeshModel>, k: int, i: int, c: int)
    requires
        !has_non_triples(ms),
        indices_in_range(ms),
        all_positions(ms).len() <= 3 * 0x1_0000_0000,
        0 <= k < ms.len(),
        0 <= i < ms[k].indices.len(),
        0 <= c < 3,
    ensures
        no_index_overflow(ms),
        all_indices(ms.take(k)).len() + i < all_indices(ms).len(),
        ({
            let g = all_indices(ms)[all_indices(ms.take(k)).len() + i];
            &&& g < vertex_count(MeshModel {
                positions: all_positions(ms),
                normals: Seq::empty(),
                indices: Seq::empty(),
            })
            &&& all_positions(ms)[3 * g + c] == ms[k].positions[3 * ms[k].indices[i] + c]
        }),
    decreases ms.len(),
{
    lemma_no_overflow_in_range(ms);
    let n = ms.len();
    let p = ms.drop_last();
    let last = ms[n - 1];
    assert(ms.take(n - 1) =~= p);
    let lp = all_positions(p).len();
    assert(all_positions(ms).len() == lp + last.positions.len());
    assert(!has_non_triples(p)) by {
        if has_non_triples(p) {
            let j = choose|j: int| 0 <= j < p.len() && !#[trigger] is_triples(p[j]);
            assert(ms[j] == p[j]);
        }
    }
    lemma_all_positions_triples(p);
    assert(is_triples(last));
    if k < n - 1 {
        assert(indices_in_range(p)) by {
            assert forall|kk: int, ii: int|
                0 <= kk < p.len() && 0 <= ii < p[kk].indices.len() implies #[trigger] p[kk].indices[ii]
                < vertex_count(p[kk]) by {
                assert(p[kk] == ms[kk]);
            }
        }
        lemma_merge_keeps_triangles(p, k, i, c);
        assert(p.take(k) =~= ms.take(k));
        assert(p[k] == ms[k]);
        let pos = all_indices(p.take(k)).len() + i;
        let g = all_indices(p)[pos];
        assert(all_indices(ms)[pos] == g);
        assert(3 * g + c < lp) by (nonlinear_arith)
            requires
                g < lp / 3,
                0 <= c < 3,
                lp >= 0,
        ;
        assert(all_positions(ms)[3 * g + c] == all_positions(p)[3 * g + c]);
    } else {
        let idx = last.indices[i];
        assert(idx < vertex_count(last));
        let off = vertex_offset(ms, n - 1);
        assert(lp / 3 + last.positions.len() / 3 <= 0x1_0000_0000) by (nonlinear_arith)
            requires
                lp + last.positions.len() <= 3 * 0x1_0000_0000,
                lp >= 0,
                last.positions.len() >= 0,
        ;
        assert(off == lp / 3);
        let pos = all_indices(p).len() + i;
        assert(all_indices(ms)[pos] == shifted(last.indices, off)[i]);
        let g = all_indices(ms)[pos];
        assert(g == idx + lp / 3);
        assert(3 * g + c == lp + 3 * idx + c && 3 * idx + c < last.positions.len() && g < (lp
            + last.positions.len()) / 3) by (nonlinear_arith)
            requires
                g == idx + lp / 3,
                lp % 3 == 0,
                last.positions.len() % 3 == 0,
                idx < last.positions.len() / 3,
                0 <= c < 3,
                lp >= 0,
                idx >= 0,
        ;
        assert(all_positions(ms)[3 * g + c] == last.positions[3 * idx + c]);
    }
}

proof fn lemma_no_overflow_in_range(ms: Seq<MeshModel>)
    requires
        indices_in_range(ms),
        all_positions(ms).len() <= 3 * 0x1_0000_0000,
    ensures
        no_index_overflow(ms),
{
    assert forall|k: int| 0 <= k < ms.len() && #[trigger] triples_through(ms, k) implies indices_fit(
        ms,
        k,
    ) by {
        lemma_positions_prefix(ms, k);
        let lp = all_positions(ms.take(k)).len();
        let lk = ms[k].positions.len();
        assert(lp / 3 + lk / 3 <= 0x1_0000_0000) by (nonlinear_arith)
            requires
                lp + lk <= 3 * 0x1_0000_0000,
                lp >= 0,
                lk >= 0,
        ;
        assert forall|i: int| 0 <= i < ms[k].indices.len() implies #[trigger] ms[k].indices[i]
            + vertex_offset(ms, k) <= u32::MAX by {
            assert(ms[k].indices[i] < vertex_count(ms[k]));
        }
    }
}

proof fn lemma_per_vertex_normals(ms: Seq<MeshModel>)
    requires
        forall|k: int| 0 <= k < ms.len() ==> (#[trigger] ms[k]).normals.len() == ms[k].positions.len(),
    ensures
        all_normals(ms).len() == all_positions(ms).len(),
    decreases ms.len(),
{
    if ms.len() > 0 {
        let p = ms.drop_last();
        assert forall|k: int| 0 <= k < p.len() implies (#[trigger] p[k]).normals.len()
            == p[k].positions.len() by {
            assert(p[k] == ms[k]);
        }
        lemma_per_vertex_normals(p);
        assert(ms.last() == ms[ms.len() - 1]);
    }
}

proof fn lemma_all_normals_nonempty(ms: Seq<MeshModel>)
    requires
        ms.len() > 0,
        all_have_normals(ms),
    ensures
        all_normals(ms).len() > 0,
{
    assert(ms[ms.len() - 1].normals.len() > 0);
    assert(ms.last() == ms[ms.len() - 1]);
}

/// Merged normals are all or nothing: when some model has no normals, the
/// merged mesh has none; when every model has normals, the merged mesh has
/// normals; when every model has normals, one normal component per position
/// component, the merged normals match the merged positions one for one; and
/// when each model has either no normals or one per position, so does the
/// merged mesh.
pub proof fn lemma_merged_normals(ms: Seq<MeshModel>, m: MeshModel)
    requires
        merge_result(ms) == Ok::<MeshModel, GltfError>(m),
    ensures
        (exists|k: int| 0 <= k < ms.len() && (#[trigger] ms[k]).normals.len() == 0) ==> m.normals.len()
            == 0,
        (forall|k: int| 0 <= k < ms.len() ==> (#[trigger] ms[k]).normals.len() > 0) ==> m.normals.len()
            > 0,
        (forall|k: int|
            0 <= k < ms.len() ==> (#[trigger] ms[k]).normals.len() > 0 && ms[k].normals.len()
                == ms[k].positions.len()) ==> m.normals.len() == m.positions.len(),
        (forall|k: int|
            0 <= k < ms.len() ==> (#[trigger] ms[k]).normals.len() == 0 || ms[k].normals.len()
                == ms[k].positions.len()) ==> (m.normals.len() == 0 || m.normals.len()
            == m.positions.len()),
{
    if exists|k: int| 0 <= k < ms.len() && (#[trigger] ms[k]).normals.len() == 0 {
        let k = choose|k: int| 0 <= k < ms.len() && (#[trigger] ms[k]).normals.len() == 0;
        assert(!all_have_normals(ms));
    }
    if forall|k: int| 0 <= k < ms.len() ==> (#[trigger] ms[k]).normals.len() > 0 {
        assert(all_have_normals(ms));
        lemma_all_normals_nonempty(ms);
    }
    if forall|k: int| 0 <= k < ms.len() ==> (#[trigger] ms[k]).normals.len() == 0 || ms[k].normals.len()
        == ms[k].positions.len() {
        if all_have_normals(ms) {
            assert forall|k: int| 0 <= k < ms.len() implies (#[trigger] ms[k]).normals.len()
                == ms[k].positions.len() by {
                assert(ms[k].normals.len() > 0);
            }
            lemma_per_vertex_normals(ms);
        }
    }
    if forall|k: int|
        0 <= k < ms.len() ==> (#[trigger] ms[k]).normals.len() > 0 && ms[k].normals.len()
            == ms[k].positions.len() {
        assert(all_have_normals(ms));
        lemma_per_vertex_normals(ms);
    }
}

/// Whether merging `meshes` would add an index past `u32::MAX`,
/// the one input on which merging cannot go on.
pub fn merge_would_overflow(meshes: &Vec<ObjMesh>) -> (b: bool)
    ensures
        b == !no_index_overflow(models(meshes@)),
{
    let ghost ms = models(meshes@);
    let n = meshes.len();
    let mut total: u128 = 0;
    let mut k: usize = 0;
    while k < n
        invariant
            n == meshes@.len(),
            ms == models(meshes@),
            0 <= k <= n,
            total == all_positions(ms.take(k as int)).len(),
            total <= k * 0x1_0000_0000_0000_0000,
            triples_through(ms, k - 1),
            forall|j: int| 0 <= j < k ==> indices_fit(ms, j),
        decreases n - k,
    {
        let m = &meshes[k];
        assert(ms[k as int] == m@);
        let len = m.positions.len();
        if len % 3 != 0 {
            assert forall|j: int|
                0 <= j < ms.len() && #[trigger] triples_through(ms, j) implies indices_fit(
                ms,
                j,
            ) by {
                if j >= k {
                    assert(is_triples(ms[k as int]));
                }
            }
            return false;
        }
        assert(triples_through(ms, k as int));
        let off: u32 = #[verifier::truncate] ((total / 3) as u32);
        assert(off == vertex_offset(ms, k as int));
        let mut i: usize = 0;
        while i < m.indices.len()
            invariant
                0 <= i <= m.indices@.len(),
                ms == models(meshes@),
                ms[k as int] == m@,
                k < ms.len(),
                off == vertex_offset(ms, k as int),
                triples_through(ms, k as int),
                forall|t: int| 0 <= t < i ==> #[trigger] m.indices@[t] + off <= u32::MAX,
            decreases m.indices@.len() - i,
        {
            assert(m.indices@[i as int] == ms[k as int].indices[i as int]);
            if m.indices[i] as u64 + off as u64 > 0xffff_ffff {
                assert(!indices_fit(ms, k as int));
                assert(triples_through(ms, k as int));
                assert(!no_index_overflow(ms)) by {
                    if no_index_overflow(ms) {
                        assert(triples_through(ms, k as int) ==> indices_fit(ms, k as int));
                    }
                }
                return true;
            }
            i = i + 1;
        }
        assert(indices_fit(ms, k as int));
        proof {
            lemma_take_step(ms, k as int);
            assert(total + len <= (k + 1) * 0x1_0000_0000_0000_0000) by (nonlinear_arith)
                requires
                    total <= k * 0x1_0000_0000_0000_0000,
                    len < 0x1_0000_0000_0000_0000,
            ;
        }
        total = total + len as u128;
        k = k + 1;
        proof {
            assert((k as int) <= 0x1_0000_0000_0000_0000);
            assert(k * 0x1_0000_0000_0000_0000 <= 0x1_0000_0000_0000_0000 * 0x1_0000_0000_0000_0000)
                by (nonlinear_arith)
                requires
                    (k as int) <= 0x1_0000_0000_0000_0000,
            ;
        }
    }
    assert forall|j: int|
        0 <= j < ms.len() && #[trigger] triples_through(ms, j) implies indices_fit(ms, j) by {}
    false
}

/// Merges the meshes of an OBJ file: positions and normals are concatenated,
/// and each mesh's indices are shifted by the number of vertices before it.
/// Normals are kept only when every mesh has them.
pub fn merge_meshes(meshes: &Vec<ObjMesh>) -> (r: Result<MergedMesh, GltfError>)
    requires
        no_index_overflow(models(meshes@)),
    ensures
        match r {
            Ok(m) => merge_result(models(meshes@)) == Ok::<MeshModel, GltfError>(m@),
            Err(e) => merge_result(models(meshes@)) == Err::<MeshModel, GltfError>(e),
        },
{
    let ghost ms = models(meshes@);
    if meshes.len() == 0 {
        return Err(GltfError::NoGeometry);
    }
    let mut positions: Vec<u32> = Vec::new();
    let mut normals: Vec<u32> = Vec::new();
    let mut indices: Vec<u32> = Vec::new();
    let mut has_normals = true;
    let n = meshes.len();
    let mut k: usize = 0;
    assert(ms.take(0) =~= Seq::<MeshModel>::empty());
    while k < n
        invariant
            n == meshes@.len(),
            ms == models(meshes@),
            no_index_overflow(ms),
            0 <= k <= n,
            positions@ == all_positions(ms.take(k as int)),
            indices@ == all_indices(ms.take(k as int)),
            has_normals == all_have_normals(ms.take(k as int)),
            has_normals ==> normals@ == all_normals(ms.take(k as int)),
            triples_through(ms, k - 1),
        decreases n - k,
    {
        let m = &meshes[k];
        assert(ms[k as int] == m@);
        if m.positions.len() % 3 != 0 {
            assert(!is_triples(ms[k as int]));
            return Err(GltfError::NotThreeDimensional);
        }
        assert(triples_through(ms, k as int));
        let vertex_offset: u32 = #[verifier::truncate] ((positions.len() / 3) as u32);
        assert(vertex_offset == crate::mesh::vertex_offset(ms, k as int));
        assert(indices_fit(ms, k as int));
        proof {
            lemma_take_step(ms, k as int);
        }
        positions.extend_from_slice(m.positions.as_slice());
        assert(positions@ =~= all_positions(ms.take(k + 1)));
        if m.normals.len() == 0 {
            has_normals = false;
        } else if has_normals {
            normals.extend_from_slice(m.normals.as_slice());
            assert(normals@ =~= all_normals(ms.take(k + 1)));
        }
        let ghost base = indices@;
        let mut i: usize = 0;
        while i < m.indices.len()
            invariant
                0 <= i <= m.indices@.len(),
                ms == models(meshes@),
                ms[k as int] == m@,
                k < ms.len(),
                indices_fit(ms, k as int),
                vertex_offset == crate::mesh::vertex_offset(ms, k as int),
                indices@ == base + shifted(m.indices@.take(i as int), vertex_offset),
            decreases m.indices@.len() - i,
        {
            assert(m.indices@[i as int] == ms[k as int].indices[i as int]);
            let x = m.indices[i] + vertex_offset;
            indices.push(x);
            assert(shifted(m.indices@.take(i + 1), vertex_offset) =~= shifted(
                m.indices@.take(i as int),
                vertex_offset,
            ).push(x));
            i = i + 1;
        }
        assert(m.indices@.take(i as int) =~= m.indices@);
        k = k + 1;
    }
    assert(ms.take(n as int) =~= ms);
    assert(!has_non_triples(ms));
    if positions.len() == 0 || indices.len() == 0 {
        return Err(GltfError::NoIndexedTriangles);
    }
    if !has_normals {
        normals = Vec::new();
    }
    Ok(MergedMesh { positions, normals, indices })
}

} // verus!
