//! Indexed triangle meshes and the vertex stream that a renderer draws.
use crate::scalar::ONE;
use vstd::prelude::*;

verus! {

/// A point in space: the bit patterns of its three coordinates.
pub type P3 = (u32, u32, u32);

/// The three corners of a triangle, as indices into a vertex list.
pub type TriangleIndices = [usize; 3];

/// One vertex of the stream: a point in homogeneous coordinates.
#[derive(Copy, Clone, Debug, PartialEq, Eq)]
pub struct Vertex {
    pub position: [u32; 4],
}

/// Vertex positions and the triangles that connect them.
#[derive(Clone, Debug)]
pub struct TriangleMesh {
    pub vertices: Vec<P3>,
    pub indices: Vec<TriangleIndices>,
}

/// Geometry that can be laid out as a flat list of triangle corners.
pub trait Mesh {
    fn faces(&self) -> Vec<Vertex>;
}

/// The point `p` with the homogeneous coordinate one.
pub open spec fn homogeneous_point(p: P3) -> Vertex {
    Vertex { position: [p.0, p.1, p.2, ONE] }
}

/// What one corner contributes: its vertex, or nothing when the index points
/// past the vertex list.
pub open spec fn corner(vertices: Seq<P3>, idx: usize) -> Seq<Vertex> {
    if idx < vertices.len() {
        seq![homogeneous_point(vertices[idx as int])]
    } else {
        Seq::empty()
    }
}

/// The corners of one triangle, in the order given.
pub open spec fn triangle_corners(vertices: Seq<P3>, t: TriangleIndices) -> Seq<Vertex> {
    corner(vertices, t[0]) + corner(vertices, t[1]) + corner(vertices, t[2])
}

/// The corners of all triangles, triangle after triangle.
pub open spec fn face_stream(vertices: Seq<P3>, indices: Seq<TriangleIndices>) -> Seq<Vertex> {
    indices.flat_map(|t: TriangleIndices| triangle_corners(vertices, t))
}

impl TriangleMesh {
    /// No triangle names a vertex that the mesh lacks.
    pub open spec fn well_formed(&self) -> bool {
        forall|i: int, k: int|
            0 <= i < self.indices@.len() && 0 <= k < 3 ==> (#[trigger] self.indices@[i][k])
                < self.vertices@.len()
    }

    /// Tells whether every corner of every triangle is a vertex of the mesh.
    pub fn is_well_formed(&self) -> (ok: bool)
        ensures
            ok == self.well_formed(),
    {
        let n = self.vertices.len();
        let mut i: usize = 0;
        while i < self.indices.len()
            invariant
                i <= self.indices@.len(),
                n == self.vertices@.len(),
                forall|a: int, k: int|
                    0 <= a < i && 0 <= k < 3 ==> (#[trigger] self.indices@[a][k]) < n,
            decreases self.indices@.len() - i,
        {
            let t = &self.indices[i];
            if t[0] >= n || t[1] >= n || t[2] >= n {
                assert(!(self.indices@[i as int][0] < n && self.indices@[i as int][1] < n
                    && self.indices@[i as int][2] < n));
                return false;
            }
            i += 1;
        }
        true
    }
}

impl Mesh for TriangleMesh {
    /// The flattened vertex stream: for each triangle its corners, each as a
    /// homogeneous point.  A corner whose index is out of bounds is skipped.
    fn faces(&self) -> (stream: Vec<Vertex>)
        ensures
            stream@ == face_stream(self.vertices@, self.indices@),
    {
        let ghost f = |t: TriangleIndices| triangle_corners(self.vertices@, t);
        let mut stream: Vec<Vertex> = Vec::new();
        let mut i: usize = 0;
        assert(self.indices@.take(0).flat_map(f) == Seq::<Vertex>::empty());
        while i < self.indices.len()
            invariant
                i <= self.indices@.len(),
                f == |t: TriangleIndices| triangle_corners(self.vertices@, t),
                stream@ == self.indices@.take(i as int).flat_map(f),
            decreases self.indices@.len() - i,
        {
            let t = &self.indices[i];
            let ghost before = stream@;
            let mut k: usize = 0;
            while k < 3
                invariant
                    k <= 3,
                    i < self.indices@.len(),
                    *t == self.indices@[i as int],
                    stream@ == before + (if k == 0 {
                        Seq::empty()
                    } else if k == 1 {
                        corner(self.vertices@, t[0])
                    } else if k == 2 {
                        corner(self.vertices@, t[0]) + corner(self.vertices@, t[1])
                    } else {
                        triangle_corners(self.vertices@, *t)
                    }),
                decreases 3 - k,
            {
                let idx = t[k];
                if idx < self.vertices.len() {
                    let v = self.vertices[idx];
                    stream.push(Vertex { position: [v.0, v.1, v.2, ONE] });
                }
                k += 1;
            }
            proof {
                self.indices@.lemma_flat_map_take_append(f, i as int);
            }
            i += 1;
        }
        assert(self.indices@.take(i as int) == self.indices@);
        stream
    }
}

/// In a well-formed mesh nothing is skipped: the stream holds three vertices
/// for each triangle, and corner `k` of triangle `i` stands at `3 * i + k`.
pub proof fn lemma_well_formed_stream(mesh: TriangleMesh)
    requires
        mesh.well_formed(),
    ensures
        face_stream(mesh.vertices@, mesh.indices@).len() == 3 * mesh.indices@.len(),
        forall|i: int, k: int|
            0 <= i < mesh.indices@.len() && 0 <= k < 3 ==> #[trigger] face_stream(
                mesh.vertices@,
                mesh.indices@,
            )[3 * i + k] == homogeneous_point(mesh.vertices@[mesh.indices@[i][k] as int]),
{
    lemma_well_formed_prefix(mesh, mesh.indices@.len());
    assert(mesh.indices@.take(mesh.indices@.len() as int) == mesh.indices@);
}

proof fn lemma_well_formed_prefix(mesh: TriangleMesh, n: nat)
    requires
        mesh.well_formed(),
        n <= mesh.indices@.len(),
    ensures
        face_stream(mesh.vertices@, mesh.indices@.take(n as int)).len() == 3 * n,
        forall|i: int, k: int|
            0 <= i < n && 0 <= k < 3 ==> #[trigger] face_stream(
                mesh.vertices@,
                mesh.indices@.take(n as int),
            )[3 * i + k] == homogeneous_point(mesh.vertices@[mesh.indices@[i][k] as int]),
    decreases n,
{
    let f = |t: TriangleIndices| triangle_corners(mesh.vertices@, t);
    if n == 0 {
        assert(mesh.indices@.take(0).flat_map(f) == Seq::<Vertex>::empty());
    } else {
        let m = (n - 1) as nat;
        lemma_well_formed_prefix(mesh, m);
        mesh.indices@.lemma_flat_map_take_append(f, m as int);
        let t = mesh.indices@[m as int];
        assert(t[0] < mesh.vertices@.len() && t[1] < mesh.vertices@.len() && t[2]
            < mesh.vertices@.len());
        let shorter = face_stream(mesh.vertices@, mesh.indices@.take(m as int));
        let longer = face_stream(mesh.vertices@, mesh.indices@.take(n as int));
        assert(longer == shorter + triangle_corners(mesh.vertices@, t));
        assert forall|i: int, k: int| 0 <= i < n && 0 <= k < 3 implies #[trigger] longer[3 * i
            + k] == homogeneous_point(mesh.vertices@[mesh.indices@[i][k] as int]) by {
            if i < m {
                assert(longer[3 * i + k] == shorter[3 * i + k]);
            }
        }
    }
}

} // verus!
