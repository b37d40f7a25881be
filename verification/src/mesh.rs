//! From the objects of a loaded file to the vertices and indices that the
//! device draws.
//!
//! An object of a loaded file holds positions, texture coordinates, and
//! indices that pick a position and a texture coordinate each. The device
//! wants each distinct vertex once, and indices that point at them. A vertex
//! is known here by its key: the bit patterns of its eight 32-bit values,
//! three of position, three of colour and two of texture coordinate. Two
//! vertices are the same where their keys are.

use vstd::prelude::*;

verus! {

/// Number of 32-bit values in a vertex.
pub const VERTEX_VALUES: usize = 8;

/// The bit pattern of 1.0: every vertex has full intensity in red, green
/// and blue.
pub const WHITE: u32 = 0x3f80_0000;

/// One object of a loaded file. Values are held by their bit patterns.
#[derive(Debug, PartialEq, Eq)]
pub struct LoadedMesh {
    /// Three values for each position.
    pub positions: Vec<u32>,
    /// Two values for each texture coordinate.
    pub texcoords: Vec<u32>,
    /// For each corner of each triangle, the position and texture
    /// coordinate that it takes.
    pub indices: Vec<u32>,
}

/// Why a loaded file gives no model.
#[derive(Clone, Copy, Debug, PartialEq, Eq, Structural)]
pub enum ModelError {
    /// An index has no position or no texture coordinate.
    IndexOutOfRange,
    /// There are more corners than a 32-bit index can name.
    TooManyVertices,
}

impl LoadedMesh {
    /// Corner `k` has a position and a texture coordinate.
    pub open spec fn in_range(self, k: int) -> bool {
        3 * self.indices[k] + 2 < self.positions.len() && 2 * self.indices[k] + 1 < self.texcoords.len()
    }

    /// Every corner has a position and a texture coordinate.
    pub open spec fn loadable(self) -> bool {
        forall|k: int| 0 <= k < self.indices.len() ==> self.in_range(k)
    }

    /// The key of the vertex at corner `k`: its position, white, and its
    /// texture coordinate.
    pub open spec fn key_at(self, k: int) -> Seq<u32> {
        let i = self.indices[k] as int;
        seq![
            self.positions[3 * i],
            self.positions[3 * i + 1],
            self.positions[3 * i + 2],
            WHITE,
            WHITE,
            WHITE,
            self.texcoords[2 * i],
            self.texcoords[2 * i + 1],
        ]
    }

    /// The keys of all corners, in their order.
    pub open spec fn keys(self) -> Seq<Seq<u32>> {
        Seq::new(self.indices.len() as nat, |k: int| self.key_at(k))
    }
}

/// The keys of all corners of all objects, object after object.
pub open spec fn keys_of(meshes: Seq<LoadedMesh>) -> Seq<Seq<u32>>
    decreases meshes.len(),
{
    if meshes.len() == 0 {
        Seq::empty()
    } else {
        keys_of(meshes.drop_last()) + meshes.last().keys()
    }
}

/// The number of corners of all objects.
pub open spec fn corners(meshes: Seq<LoadedMesh>) -> nat
    decreases meshes.len(),
{
    if meshes.len() == 0 {
        0
    } else {
        corners(meshes.drop_last()) + meshes.last().indices.len() as nat
    }
}

/// Every corner of every object has a position and a texture coordinate.
pub open spec fn all_loadable(meshes: Seq<LoadedMesh>) -> bool {
    forall|m: int| 0 <= m < meshes.len() ==> (#[trigger] meshes[m]).loadable()
}

/// The keys as sequences.
pub open spec fn views(keys: Seq<[u32; 8]>) -> Seq<Seq<u32>> {
    Seq::new(keys.len(), |i: int| keys[i]@)
}

/// A loaded model: the key of every corner, and the deduplicated mesh over
/// those keys. The device's vertex `a` is the one with the key
/// `keys[mesh.vertices[a]]`.
#[derive(Debug, PartialEq, Eq)]
pub struct Model {
    pub keys: Vec<[u32; 8]>,
    pub mesh: Mesh,
}

/// A deduplicated mesh.
#[derive(Debug, PartialEq, Eq)]
pub struct Mesh {
    /// For each distinct vertex, where it first stands in the input.
    pub vertices: Vec<usize>,
    /// For each vertex of the input, the distinct vertex that it is.
    pub indices: Vec<u32>,
}

/// The vertex at `i` has not occurred before `i`.
pub open spec fn is_first(keys: Seq<[u32; 8]>, i: int) -> bool {
    0 <= i < keys.len() && forall|j: int| 0 <= j < i ==> (#[trigger] keys[j])@ != keys[i]@
}

/// `vertices` lists the first occurrences among the first `n` vertices of
/// the input, in the order of the input, and `indices` leads each of those
/// `n` vertices to the entry that holds the same key.
pub open spec fn deduplicates(keys: Seq<[u32; 8]>, n: int, vertices: Seq<usize>, indices: Seq<u32>) -> bool {
    &&& indices.len() == n
    &&& forall|a: int| 0 <= a < vertices.len() ==> (#[trigger] vertices[a]) < n && is_first(keys, vertices[a] as int)
    &&& forall|a: int, b: int| 0 <= a < b < vertices.len() ==> (#[trigger] vertices[a]) < (#[trigger] vertices[b])
    &&& forall|k: int|
        0 <= k < n ==> (#[trigger] indices[k]) < vertices.len() && keys[vertices[indices[k] as int] as int]@
            == keys[k]@
}

fn same_key(a: &[u32; 8], b: &[u32; 8]) -> (same: bool)
    ensures
        same == (a@ == b@),
{
    let mut i: usize = 0;
    while i < 8
        invariant
            i <= 8,
            forall|j: int| 0 <= j < i ==> a@[j] == b@[j],
        decreases 8 - i,
    {
        if a[i] != b[i] {
            return false;
        }
        i = i + 1;
    }
    assert(a@ =~= b@);
    true
}

/// Finds the entry of `vertices` that holds the key of the vertex at `k`.
fn find(keys: &Vec<[u32; 8]>, vertices: &Vec<usize>, k: usize) -> (found: Option<usize>)
    requires
        k < keys.len(),
        forall|a: int| 0 <= a < vertices.len() ==> (#[trigger] vertices[a]) < keys.len(),
    ensures
        match found {
            Some(a) => a < vertices.len() && keys[vertices[a as int] as int]@ == keys[k as int]@,
            None => forall|a: int| 0 <= a < vertices.len() ==> keys[(#[trigger] vertices[a]) as int]@ != keys[k as int]@,
        },
{
    let mut a: usize = 0;
    while a < vertices.len()
        invariant
            a <= vertices.len(),
            k < keys.len(),
            forall|b: int| 0 <= b < vertices.len() ==> (#[trigger] vertices[b]) < keys.len(),
            forall|b: int| 0 <= b < a ==> keys[(#[trigger] vertices[b]) as int]@ != keys[k as int]@,
        decreases vertices.len() - a,
    {
        if same_key(&keys[vertices[a]], &keys[k]) {
            return Some(a);
        }
        a = a + 1;
    }
    None
}

/// Deduplicates a mesh. `keys[k]` is the key of the vertex that index `k`
/// of the loaded mesh stands for. The result lists each distinct vertex
/// once, by the place where it first stands, in the order of the input,
/// and gives for every index the entry of that list with the same key.
pub fn deduplicate(keys: &Vec<[u32; 8]>) -> (mesh: Mesh)
    requires
        keys.len() <= u32::MAX,
    ensures
        deduplicates(keys@, keys.len() as int, mesh.vertices@, mesh.indices@),
        forall|i: int| is_first(keys@, i) ==> mesh.vertices@.contains(i as usize),
{
    let mut vertices: Vec<usize> = Vec::new();
    let mut indices: Vec<u32> = Vec::new();
    let mut k: usize = 0;
    while k < keys.len()
        invariant
            k <= keys.len() <= u32::MAX,
            vertices.len() <= k,
            deduplicates(keys@, k as int, vertices@, indices@),
            forall|i: int| 0 <= i < k && is_first(keys@, i) ==> vertices@.contains(i as usize),
        decreases keys.len() - k,
    {
        let ghost before = vertices@;
        let ghost led = indices@;
        match find(keys, &vertices, k) {
            Some(a) => {
                indices.push(a as u32);
            },
            None => {
                let entry = vertices.len();
                vertices.push(k);
                indices.push(entry as u32);
                proof {
                    assert forall|j: int| 0 <= j < k implies (#[trigger] keys@[j])@ != keys@[k as int]@ by {
                        assert(keys@[before[led[j] as int] as int]@ == keys@[j]@);
                    }
                    assert(vertices@[entry as int] == k);
                }
            },
        }
        proof {
            assert forall|i: int| 0 <= i < k + 1 && is_first(keys@, i) implies vertices@.contains(i as usize) by {
                if i < k {
                    let a = choose|a: int| 0 <= a < before.len() && before[a] == i as usize;
                    assert(vertices@[a] == i as usize);
                }
            }
        }
        k = k + 1;
    }
    Mesh { vertices, indices }
}

/// There are as many keys as corners.
pub proof fn lemma_keys_count_corners(meshes: Seq<LoadedMesh>)
    ensures
        keys_of(meshes).len() == corners(meshes),
    decreases meshes.len(),
{
    if meshes.len() > 0 {
        lemma_keys_count_corners(meshes.drop_last());
    }
}

/// Tests that the objects have no more than `u32::MAX` corners together.
fn count_fits(meshes: &Vec<LoadedMesh>) -> (fits: bool)
    ensures
        fits == (corners(meshes@) <= u32::MAX),
{
    let mut total: u64 = 0;
    let mut m: usize = 0;
    while m < meshes.len()
        invariant
            m <= meshes.len(),
            total == corners(meshes@.take(m as int)),
            total <= u32::MAX,
        decreases meshes.len() - m,
    {
        let count = meshes[m].indices.len();
        proof {
            assert(meshes@.take(m + 1).drop_last() == meshes@.take(m as int));
            lemma_corners_grow(meshes@, m + 1);
        }
        if count > 0xffff_ffff || count as u64 > 0xffff_ffff - total {
            return false;
        }
        total = total + count as u64;
        m = m + 1;
    }
    assert(meshes@.take(m as int) == meshes@);
    true
}

/// The first `n` objects have no more corners than all of them.
proof fn lemma_corners_grow(meshes: Seq<LoadedMesh>, n: int)
    requires
        0 <= n <= meshes.len(),
    ensures
        corners(meshes.take(n)) <= corners(meshes),
    decreases meshes.len() - n,
{
    if n < meshes.len() {
        assert(meshes.take(n + 1).drop_last() == meshes.take(n));
        lemma_corners_grow(meshes, n + 1);
    } else {
        assert(meshes.take(n) == meshes);
    }
}

/// Appends the key of every corner of `mesh`, or stops at the first
/// corner that has no position or no texture coordinate.
fn push_keys(keys: &mut Vec<[u32; 8]>, mesh: &LoadedMesh) -> (done: bool)
    ensures
        done == mesh.loadable(),
        done ==> views(final(keys)@) == views(old(keys)@) + mesh.keys(),
{
    let mut k: usize = 0;
    while k < mesh.indices.len()
        invariant
            k <= mesh.indices.len(),
            forall|j: int| 0 <= j < k ==> mesh.in_range(j),
            views(keys@) == views(old(keys)@) + mesh.keys().take(k as int),
        decreases mesh.indices.len() - k,
    {
        let index = mesh.indices[k] as usize;
        if index > (usize::MAX - 2) / 3 || 3 * index + 2 >= mesh.positions.len() || 2 * index + 1
            >= mesh.texcoords.len() {
            assert(!mesh.in_range(k as int));
            return false;
        }
        let key = [
            mesh.positions[3 * index],
            mesh.positions[3 * index + 1],
            mesh.positions[3 * index + 2],
            WHITE,
            WHITE,
            WHITE,
            mesh.texcoords[2 * index],
            mesh.texcoords[2 * index + 1],
        ];
        assert(key@ == mesh.key_at(k as int));
        let ghost before = keys@;
        keys.push(key);
        proof {
            assert(views(keys@) == views(before).push(key@));
            assert(mesh.keys().take(k + 1) == mesh.keys().take(k as int).push(mesh.key_at(k as int)));
        }
        k = k + 1;
    }
    assert(mesh.keys().take(k as int) == mesh.keys());
    true
}

/// Builds the model from the objects of a loaded file: every corner of
/// every object, object after object, becomes a vertex of its position,
/// white, and its texture coordinate, and the vertices are deduplicated.
///
/// A file whose objects have more than `u32::MAX` corners together is
/// refused, and so is one with an index that has no position or no texture
/// coordinate.
pub fn load_model(meshes: &Vec<LoadedMesh>) -> (r: Result<Model, ModelError>)
    ensures
        r is Ok <==> corners(meshes@) <= u32::MAX && all_loadable(meshes@),
        r matches Ok(model) ==> {
            &&& views(model.keys@) == keys_of(meshes@)
            &&& deduplicates(model.keys@, model.keys.len() as int, model.mesh.vertices@, model.mesh.indices@)
            &&& forall|i: int| is_first(model.keys@, i) ==> model.mesh.vertices@.contains(i as usize)
        },
        r matches Err(e) ==> e == if corners(meshes@) > u32::MAX {
            ModelError::TooManyVertices
        } else {
            ModelError::IndexOutOfRange
        },
{
    if !count_fits(meshes) {
        return Err(ModelError::TooManyVertices);
    }
    let mut keys: Vec<[u32; 8]> = Vec::new();
    let mut m: usize = 0;
    while m < meshes.len()
        invariant
            m <= meshes.len(),
            corners(meshes@) <= u32::MAX,
            forall|j: int| 0 <= j < m ==> (#[trigger] meshes[j]).loadable(),
            views(keys@) == keys_of(meshes@.take(m as int)),
        decreases meshes.len() - m,
    {
        proof {
            assert(meshes@.take(m + 1).drop_last() == meshes@.take(m as int));
        }
        if !push_keys(&mut keys, &meshes[m]) {
            return Err(ModelError::IndexOutOfRange);
        }
        m = m + 1;
    }
    proof {
        assert(meshes@.take(m as int) == meshes@);
        lemma_keys_count_corners(meshes@);
        assert(keys.len() == views(keys@).len());
    }
    let mesh = deduplicate(&keys);
    Ok(Model { keys, mesh })
}

} // verus!
