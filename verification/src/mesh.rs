//! Mesh data as it is uploaded to the GPU, and the binary mesh file format.
//! `f32` components are held as their bit patterns.
use vstd::prelude::*;

verus! {

/// A vertex in the layout of the vertex buffer.
#[derive(Clone, Copy, Debug, PartialEq, Eq)]
pub struct VkVertex {
    pub v_pos: [u32; 3],
    pub v_nor: [u32; 3],
    pub v_bin: [u32; 3],
    pub v_tan: [u32; 3],
    pub v_tex1: [u32; 2],
    pub v_tex2: [u32; 2],
    pub v_grp: [u32; 3],
}

/// An axis-aligned box from `begin` to `end`, as `f32` bit patterns.
#[derive(Clone, Copy, Debug, PartialEq, Eq)]
pub struct BoundingBox {
    pub begin: [u32; 3],
    pub end: [u32; 3],
}

/// What a mesh builder has collected.
pub struct MeshBuilderView {
    pub name: Seq<char>,
    pub indices: Seq<u32>,
    pub vertices: Seq<VkVertex>,
}

/// Collects the indices and vertices of a mesh.
pub struct MeshBuilder {
    _name: String,
    _indices: Vec<u32>,
    _vertices: Vec<VkVertex>,
}

impl View for MeshBuilder {
    type V = MeshBuilderView;

    closed spec fn view(&self) -> MeshBuilderView {
        MeshBuilderView { name: self._name@, indices: self._indices@, vertices: self._vertices@ }
    }
}

/// The little-endian `u32` at `at`.
pub open spec fn le_u32(b: Seq<u8>, at: int) -> u32 {
    (b[at] as int + b[at + 1] as int * 0x100 + b[at + 2] as int * 0x1_0000 + b[at + 3] as int * 0x100_0000) as u32
}

/// A mesh file starts with 8 bytes that are skipped, a flag byte for skinning
/// groups, a flag byte for a second texture layer and the number of indices.
pub open spec fn mesh_deformed(b: Seq<u8>) -> bool {
    b[8] != 0
}

pub open spec fn mesh_two_layers(b: Seq<u8>) -> bool {
    b[9] != 0
}

pub open spec fn mesh_index_count(b: Seq<u8>) -> nat {
    le_u32(b, 10) as nat
}

/// The number of vertices follows the indices.
pub open spec fn mesh_vertex_count(b: Seq<u8>) -> nat {
    le_u32(b, 14 + 4 * (mesh_index_count(b) as int)) as nat
}

/// Offset of the first vertex.
pub open spec fn mesh_vertices_start(b: Seq<u8>) -> int {
    18 + 4 * (mesh_index_count(b) as int)
}

/// Bytes per vertex: position, normal, first texture layer, binormal and tangent,
/// then the skinning groups and the second texture layer where the flags say so.
pub open spec fn mesh_vertex_size(b: Seq<u8>) -> int {
    56 + (if mesh_deformed(b) { 12int } else { 0int }) + (if mesh_two_layers(b) { 8int } else { 0int })
}

/// The bytes hold a whole mesh (bytes after it are ignored) and both flags are
/// booleans.
pub open spec fn spec_mesh_valid(b: Seq<u8>) -> bool {
    &&& b.len() >= 18
    &&& b[8] <= 1
    &&& b[9] <= 1
    &&& b.len() >= mesh_vertices_start(b)
    &&& b.len() >= mesh_vertices_start(b) + mesh_vertex_count(b) * mesh_vertex_size(b)
}

/// The `i`-th index of the file.
pub open spec fn mesh_index(b: Seq<u8>, i: int) -> u32 {
    le_u32(b, 14 + 4 * i)
}

/// `v` is the vertex stored at `at`; absent groups and a missing second texture
/// layer are zero.
pub open spec fn vertex_decoded(v: VkVertex, b: Seq<u8>, at: int) -> bool {
    let grp_at = at + 56;
    let tex2_at = at + 56 + (if mesh_deformed(b) { 12int } else { 0int });
    &&& v.v_pos@ == seq![le_u32(b, at), le_u32(b, at + 4), le_u32(b, at + 8)]
    &&& v.v_nor@ == seq![le_u32(b, at + 12), le_u32(b, at + 16), le_u32(b, at + 20)]
    &&& v.v_tex1@ == seq![le_u32(b, at + 24), le_u32(b, at + 28)]
    &&& v.v_bin@ == seq![le_u32(b, at + 32), le_u32(b, at + 36), le_u32(b, at + 40)]
    &&& v.v_tan@ == seq![le_u32(b, at + 44), le_u32(b, at + 48), le_u32(b, at + 52)]
    &&& v.v_grp@ == (if mesh_deformed(b) {
        seq![le_u32(b, grp_at), le_u32(b, grp_at + 4), le_u32(b, grp_at + 8)]
    } else {
        seq![0u32, 0u32, 0u32]
    })
    &&& v.v_tex2@ == (if mesh_two_layers(b) {
        seq![le_u32(b, tex2_at), le_u32(b, tex2_at + 4)]
    } else {
        seq![0u32, 0u32]
    })
}

/// Reads the little-endian `u32` at `at`.
pub fn read_u32(bytes: &[u8], at: usize) -> (r: u32)
    requires
        at + 4 <= bytes@.len(),
    ensures
        r == le_u32(bytes@, at as int),
{
    let r = bytes[at] as u32 + bytes[at + 1] as u32 * 0x100 + bytes[at + 2] as u32 * 0x1_0000 + bytes[at + 3] as u32
        * 0x100_0000;
    r
}

/// Whether the bytes hold a whole mesh.
pub fn mesh_data_valid(bytes: &[u8]) -> (r: bool)
    ensures
        r == spec_mesh_valid(bytes@),
{
    let len = bytes.len() as u64;
    if len < 18 || bytes[8] > 1 || bytes[9] > 1 {
        return false;
    }
    let n = read_u32(bytes, 10) as u64;
    let start = 18 + 4 * n;
    if len < start {
        return false;
    }
    let m = read_u32(bytes, (14 + 4 * n) as usize) as u64;
    let size: u64 = 56 + (if bytes[8] != 0 { 12 } else { 0 }) + (if bytes[9] != 0 { 8 } else { 0 });
    assert(m * size <= 0xFFFF_FFFF * 76) by (nonlinear_arith)
        requires m <= 0xFFFF_FFFF, size <= 76;
    len >= start + m * size
}

impl MeshBuilder {
    /// An empty mesh named `name`.
    pub fn new(name: &str) -> (b: Self)
        ensures
            b@ == (MeshBuilderView { name: name@, indices: Seq::empty(), vertices: Seq::empty() }),
    {
        MeshBuilder { _name: name.to_owned(), _indices: Vec::new(), _vertices: Vec::new() }
    }

    pub fn indices(&self) -> (r: &Vec<u32>)
        ensures
            r@ == self@.indices,
    {
        &self._indices
    }

    pub fn vertices(&self) -> (r: &Vec<VkVertex>)
        ensures
            r@ == self@.vertices,
    {
        &self._vertices
    }

    /// Appends a triangle of three new vertices. Each index is the number of
    /// indices before it.
    pub fn push_triangle(&mut self, a: VkVertex, b: VkVertex, c: VkVertex) -> (r: &mut Self)
        requires
            old(self)@.indices.len() + 3 <= u32::MAX,
        ensures
            r@ == (MeshBuilderView {
                indices: old(self)@.indices + seq![
                    old(self)@.indices.len() as u32,
                    (old(self)@.indices.len() + 1) as u32,
                    (old(self)@.indices.len() + 2) as u32,
                ],
                vertices: old(self)@.vertices + seq![a, b, c],
                ..old(self)@
            }),
            *final(self) == *final(r),
    {
        let ghost before = self@;
        self._indices.push(self._indices.len() as u32);
        self._vertices.push(a);
        self._indices.push(self._indices.len() as u32);
        self._vertices.push(b);
        self._indices.push(self._indices.len() as u32);
        self._vertices.push(c);
        assert(self@.indices =~= before.indices + seq![
            before.indices.len() as u32,
            (before.indices.len() + 1) as u32,
            (before.indices.len() + 2) as u32,
        ]);
        assert(self@.vertices =~= before.vertices + seq![a, b, c]);
        self
    }

    /// Whether `push_from_bytes` can take the bytes: they hold a whole mesh, and
    /// the indices, moved past the vertices already held, and the counts fit in
    /// `u32`.
    pub open spec fn can_push(self, b: Seq<u8>) -> bool {
        &&& spec_mesh_valid(b)
        &&& self@.indices.len() + mesh_index_count(b) <= u32::MAX
        &&& self@.vertices.len() + mesh_vertex_count(b) <= u32::MAX
        &&& forall|i: int| 0 <= i < mesh_index_count(b) ==> self@.vertices.len() + #[trigger] mesh_index(b, i)
            <= u32::MAX
    }

    /// Whether `push_from_bytes` can take the bytes (see `can_push`).
    pub fn check_push(&self, bytes: &[u8]) -> (r: bool)
        ensures
            r == self.can_push(bytes@),
    {
        if !mesh_data_valid(bytes) {
            return false;
        }
        let len = bytes.len();
        let n = read_u32(bytes, 10);
        assert(18 + 4 * (n as int) <= len);
        let m = read_u32(bytes, 14 + 4 * (n as usize));
        let held_indices = self._indices.len() as u64;
        let held_vertices = self._vertices.len() as u64;
        if held_indices > 0xFFFF_FFFF || held_vertices > 0xFFFF_FFFF {
            return false;
        }
        if held_indices + n as u64 > 0xFFFF_FFFF || held_vertices + m as u64 > 0xFFFF_FFFF {
            return false;
        }
        let mut i: u32 = 0;
        while i < n
            invariant
                spec_mesh_valid(bytes@),
                len == bytes@.len(),
                n == mesh_index_count(bytes@),
                held_vertices == self@.vertices.len(),
                held_vertices <= 0xFFFF_FFFF,
                i <= n,
                forall|j: int| 0 <= j < i ==> held_vertices + #[trigger] mesh_index(bytes@, j) <= u32::MAX,
            decreases n - i,
        {
            assert(18 + 4 * (i as int) <= len);
            let index = read_u32(bytes, 14 + 4 * (i as usize));
            assert(index == mesh_index(bytes@, i as int));
            if held_vertices + index as u64 > 0xFFFF_FFFF {
                return false;
            }
            i = i + 1;
        }
        true
    }

    fn read_vertex(bytes: &[u8], at: usize) -> (v: VkVertex)
        requires
            bytes@.len() >= 10,
            at + mesh_vertex_size(bytes@) <= bytes@.len(),
        ensures
            vertex_decoded(v, bytes@, at as int),
    {
        let deformed = bytes[8] != 0;
        let two_layers = bytes[9] != 0;
        let v_pos = [read_u32(bytes, at), read_u32(bytes, at + 4), read_u32(bytes, at + 8)];
        let v_nor = [read_u32(bytes, at + 12), read_u32(bytes, at + 16), read_u32(bytes, at + 20)];
        let v_tex1 = [read_u32(bytes, at + 24), read_u32(bytes, at + 28)];
        let v_bin = [read_u32(bytes, at + 32), read_u32(bytes, at + 36), read_u32(bytes, at + 40)];
        let v_tan = [read_u32(bytes, at + 44), read_u32(bytes, at + 48), read_u32(bytes, at + 52)];
        let mut next = at + 56;
        let v_grp = if deformed {
            let g = [read_u32(bytes, next), read_u32(bytes, next + 4), read_u32(bytes, next + 8)];
            next = next + 12;
            g
        } else {
            [0u32, 0u32, 0u32]
        };
        let v_tex2 = if two_layers {
            [read_u32(bytes, next), read_u32(bytes, next + 4)]
        } else {
            [0u32, 0u32]
        };
        let v = VkVertex { v_pos, v_nor, v_bin, v_tan, v_tex1, v_tex2, v_grp };
        assert(v.v_pos@ =~= seq![le_u32(bytes@, at as int), le_u32(bytes@, at + 4), le_u32(bytes@, at + 8)]);
        assert(v.v_nor@ =~= seq![le_u32(bytes@, at + 12), le_u32(bytes@, at + 16), le_u32(bytes@, at + 20)]);
        assert(v.v_tex1@ =~= seq![le_u32(bytes@, at + 24), le_u32(bytes@, at + 28)]);
        assert(v.v_bin@ =~= seq![le_u32(bytes@, at + 32), le_u32(bytes@, at + 36), le_u32(bytes@, at + 40)]);
        assert(v.v_tan@ =~= seq![le_u32(bytes@, at + 44), le_u32(bytes@, at + 48), le_u32(bytes@, at + 52)]);
        assert(v.v_grp@ =~= (if mesh_deformed(bytes@) {
            seq![le_u32(bytes@, at + 56), le_u32(bytes@, at + 60), le_u32(bytes@, at + 64)]
        } else {
            seq![0u32, 0u32, 0u32]
        }));
        let ghost t2 = at + 56 + (if mesh_deformed(bytes@) { 12int } else { 0int });
        assert(v.v_tex2@ =~= (if mesh_two_layers(bytes@) {
            seq![le_u32(bytes@, t2), le_u32(bytes@, t2 + 4)]
        } else {
            seq![0u32, 0u32]
        }));
        v
    }

    /// Appends the mesh held in `bytes`: its indices, moved past the vertices
    /// already held, and its vertices. Returns the number of indices held before
    /// and the number of indices added.
    pub fn push_from_bytes(&mut self, bytes: &[u8]) -> (r: (u32, u32))
        requires
            old(self).can_push(bytes@),
        ensures
            r == (old(self)@.indices.len() as u32, mesh_index_count(bytes@) as u32),
            final(self)@.name == old(self)@.name,
            final(self)@.indices.len() == old(self)@.indices.len() + mesh_index_count(bytes@),
            final(self)@.indices.subrange(0, old(self)@.indices.len() as int) == old(self)@.indices,
            forall|i: int| 0 <= i < mesh_index_count(bytes@) ==> #[trigger] final(self)@.indices[old(
                self,
            )@.indices.len() + i] == old(self)@.vertices.len() + mesh_index(bytes@, i),
            final(self)@.vertices.len() == old(self)@.vertices.len() + mesh_vertex_count(bytes@),
            final(self)@.vertices.subrange(0, old(self)@.vertices.len() as int) == old(self)@.vertices,
            forall|k: int| 0 <= k < mesh_vertex_count(bytes@) ==> vertex_decoded(
                #[trigger] final(self)@.vertices[old(self)@.vertices.len() + k],
                bytes@,
                mesh_vertices_start(bytes@) + k * mesh_vertex_size(bytes@),
            ),
    {
        let ghost b = bytes@;
        let ghost before = self@;
        let len = bytes.len();
        let ind_count = read_u32(bytes, 10);
        let base_index = self._indices.len() as u32;
        let base_vertex = self._vertices.len() as u32;
        let mut i: u32 = 0;
        while i < ind_count
            invariant
                b == bytes@,
                len == b.len(),
                before == old(self)@,
                self@.name == before.name,
                self@.vertices == before.vertices,
                ind_count == mesh_index_count(b),
                base_vertex == before.vertices.len(),
                old(self).can_push(b),
                i <= ind_count,
                self@.indices.len() == before.indices.len() + i,
                self@.indices.subrange(0, before.indices.len() as int) == before.indices,
                forall|j: int| 0 <= j < i ==> #[trigger] self@.indices[before.indices.len() + j] == base_vertex
                    + mesh_index(b, j),
            decreases ind_count - i,
        {
            assert(14 + 4 * (i as int) + 4 <= len);
            let at: usize = 14 + 4 * (i as usize);
            let index = read_u32(bytes, at);
            assert(index == mesh_index(b, i as int));
            assert(base_vertex + mesh_index(b, i as int) <= u32::MAX);
            let ghost prev = self@.indices;
            self._indices.push(base_vertex + index);
            assert(self@.indices.subrange(0, before.indices.len() as int) =~= prev.subrange(
                0,
                before.indices.len() as int,
            ));
            i = i + 1;
        }
        assert(18 + 4 * (ind_count as int) <= len);
        let start: usize = 18 + 4 * (ind_count as usize);
        let vert_count = read_u32(bytes, start - 4);
        let size: usize = 56 + (if bytes[8] != 0 { 12 } else { 0 }) + (if bytes[9] != 0 { 8 } else { 0 });
        let mut k: u32 = 0;
        let mut at: usize = start;
        while k < vert_count
            invariant
                b == bytes@,
                len == b.len(),
                before == old(self)@,
                self@.name == before.name,
                self@.indices.len() == before.indices.len() + mesh_index_count(b),
                self@.indices.subrange(0, before.indices.len() as int) == before.indices,
                forall|j: int| 0 <= j < mesh_index_count(b) ==> #[trigger] self@.indices[before.indices.len() + j]
                    == before.vertices.len() + mesh_index(b, j),
                old(self).can_push(b),
                vert_count == mesh_vertex_count(b),
                size == mesh_vertex_size(b),
                start == mesh_vertices_start(b),
                k <= vert_count,
                at == start + k * size,
                self@.vertices.len() == before.vertices.len() + k,
                self@.vertices.subrange(0, before.vertices.len() as int) == before.vertices,
                forall|j: int| 0 <= j < k ==> vertex_decoded(
                    #[trigger] self@.vertices[before.vertices.len() + j],
                    b,
                    start + j * size,
                ),
            decreases vert_count - k,
        {
            assert(at + size <= b.len()) by (nonlinear_arith)
                requires
                    at == start + k * size,
                    k < vert_count,
                    b.len() >= start + vert_count * size,
                    size >= 0,
            ;
            let v = Self::read_vertex(bytes, at);
            let ghost prev = self@.vertices;
            self._vertices.push(v);
            assert(self@.vertices.subrange(0, before.vertices.len() as int) =~= prev.subrange(
                0,
                before.vertices.len() as int,
            ));
            assert(at + size == start + (k + 1) * size) by (nonlinear_arith)
                requires at == start + k * size;
            at = at + size;
            k = k + 1;
        }
        (base_index, ind_count)
    }
}

} // verus!
