//! Storage that the triangles of a mesh share.

use vstd::prelude::*;
use crate::scalar::Scalar;
use crate::vec3::{Point3, Vec3};

verus! {

/// The vertices of a mesh and the triangles over them.
///
/// Triangle `f` has the corners `p[vertex_indices[3 f]]`,
/// `p[vertex_indices[3 f + 1]]` and `p[vertex_indices[3 f + 2]]`. Normals,
/// tangents and texture coordinates are given for all vertices or not at
/// all.
pub struct TriangleMesh {
    pub n_faces: usize,
    pub n_vertices: usize,
    pub vertex_indices: Vec<usize>,
    pub p: Vec<Point3>,
    pub n: Option<Vec<Vec3>>,
    pub s: Option<Vec<Vec3>>,
    pub uv: Option<Vec<(Scalar, Scalar)>>,
    pub mat: usize,
}

/// The lengths that a mesh's arrays must have.
pub open spec fn lengths_fit(
    n_faces: usize,
    vertex_indices: Seq<usize>,
    n_vertices: usize,
    p: Seq<Point3>,
    n: Option<Vec<Vec3>>,
    s: Option<Vec<Vec3>>,
    uv: Option<Vec<(Scalar, Scalar)>>,
) -> bool {
    &&& vertex_indices.len() >= n_faces * 3
    &&& p.len() == n_vertices
    &&& n matches Some(normals) ==> normals@.len() == n_vertices
    &&& s matches Some(tangents) ==> tangents@.len() == n_vertices
    &&& uv matches Some(coords) ==> coords@.len() == n_vertices
}

/// Every corner of each of `n_faces` triangles is one of `n_vertices`
/// vertices.
pub open spec fn indices_fit(n_faces: usize, vertex_indices: Seq<usize>, n_vertices: usize) -> bool {
    forall|k: int|
        0 <= k < n_faces * 3 && k < vertex_indices.len() ==> (#[trigger] vertex_indices[k])
            < n_vertices
}

/// The triples of a flat array of coordinates, as a mesh file lists
/// positions and normals: three numbers for each vertex.
pub fn triples(flat: &[Scalar]) -> (out: Vec<Vec3>)
    requires
        flat@.len() % 3 == 0,
    ensures
        out@.len() * 3 == flat@.len(),
        forall|k: int|
            0 <= k < out@.len() ==> #[trigger] out@[k] == Vec3(
                flat@[3 * k],
                flat@[3 * k + 1],
                flat@[3 * k + 2],
            ),
{
    let mut out: Vec<Vec3> = Vec::new();
    let mut at: usize = 0;
    while at < flat.len()
        invariant
            at <= flat@.len(),
            at % 3 == 0,
            flat@.len() % 3 == 0,
            out@.len() * 3 == at,
            forall|k: int|
                0 <= k < out@.len() ==> #[trigger] out@[k] == Vec3(
                    flat@[3 * k],
                    flat@[3 * k + 1],
                    flat@[3 * k + 2],
                ),
        decreases flat@.len() - at,
    {
        out.push(Vec3(flat[at], flat[at + 1], flat[at + 2]));
        at = at + 3;
    }
    out
}

/// The pairs of a flat array of coordinates, as a mesh file lists texture
/// coordinates: two numbers for each vertex.
pub fn pairs(flat: &[Scalar]) -> (out: Vec<(Scalar, Scalar)>)
    requires
        flat@.len() % 2 == 0,
    ensures
        out@.len() * 2 == flat@.len(),
        forall|k: int|
            0 <= k < out@.len() ==> #[trigger] out@[k] == (flat@[2 * k], flat@[2 * k + 1]),
{
    let mut out: Vec<(Scalar, Scalar)> = Vec::new();
    let mut at: usize = 0;
    while at < flat.len()
        invariant
            at <= flat@.len(),
            at % 2 == 0,
            flat@.len() % 2 == 0,
            out@.len() * 2 == at,
            forall|k: int|
                0 <= k < out@.len() ==> #[trigger] out@[k] == (flat@[2 * k], flat@[2 * k + 1]),
        decreases flat@.len() - at,
    {
        out.push((flat[at], flat[at + 1]));
        at = at + 2;
    }
    out
}

impl TriangleMesh {
    /// The arrays have the lengths that the counts of faces and vertices ask
    /// for, and every corner of every triangle is a vertex of the mesh.
    pub open spec fn wf(&self) -> bool {
        &&& lengths_fit(
            self.n_faces,
            self.vertex_indices@,
            self.n_vertices,
            self.p@,
            self.n,
            self.s,
            self.uv,
        )
        &&& self.indexed()
    }

    /// Every corner of every triangle is a vertex of the mesh.
    pub open spec fn indexed(&self) -> bool {
        indices_fit(self.n_faces, self.vertex_indices@, self.n_vertices)
    }

    /// A mesh of `n_faces` triangles over `n_vertices` vertices. The arrays
    /// have the lengths that the two counts ask for, and the indices name
    /// vertices of the mesh: [`TriangleMesh::fits`] tells whether they do.
    pub fn new(
        n_faces: usize,
        vertex_indices: Vec<usize>,
        n_vertices: usize,
        p: Vec<Point3>,
        n: Option<Vec<Vec3>>,
        s: Option<Vec<Vec3>>,
        uv: Option<Vec<(Scalar, Scalar)>>,
        mat: usize,
    ) -> (mesh: Self)
        requires
            lengths_fit(n_faces, vertex_indices@, n_vertices, p@, n, s, uv),
            indices_fit(n_faces, vertex_indices@, n_vertices),
        ensures
            mesh.wf(),
            mesh.indexed(),
            mesh.n_faces == n_faces,
            mesh.n_vertices == n_vertices,
            mesh.vertex_indices == vertex_indices,
            mesh.p == p,
            mesh.n == n,
            mesh.s == s,
            mesh.uv == uv,
            mesh.mat == mat,
    {
        Self { n_faces, vertex_indices, n_vertices, p, n, s, uv, mat }
    }

    /// Whether these arrays make a mesh: the condition of
    /// [`TriangleMesh::new`]. They do where they have the lengths that the
    /// two counts ask for and every index of a corner is below the number of
    /// vertices.
    pub fn fits(
        n_faces: usize,
        vertex_indices: &Vec<usize>,
        n_vertices: usize,
        p: &Vec<Point3>,
        n: &Option<Vec<Vec3>>,
        s: &Option<Vec<Vec3>>,
        uv: &Option<Vec<(Scalar, Scalar)>>,
    ) -> (b: bool)
        ensures
            b == (lengths_fit(n_faces, vertex_indices@, n_vertices, p@, *n, *s, *uv) && indices_fit(
                n_faces,
                vertex_indices@,
                n_vertices,
            )),
    {
        if vertex_indices.len() / 3 < n_faces {
            return false;
        }
        if p.len() != n_vertices {
            return false;
        }
        if let Some(normals) = n {
            if normals.len() != n_vertices {
                return false;
            }
        }
        if let Some(tangents) = s {
            if tangents.len() != n_vertices {
                return false;
            }
        }
        if let Some(coords) = uv {
            if coords.len() != n_vertices {
                return false;
            }
        }
        let mut k: usize = 0;
        let end: usize = n_faces * 3;
        while k < end
            invariant
                k <= end,
                end == n_faces * 3,
                end <= vertex_indices@.len(),
                forall|m: int| 0 <= m < k ==> (#[trigger] vertex_indices@[m]) < n_vertices,
            decreases end - k,
        {
            if vertex_indices[k] >= n_vertices {
                return false;
            }
            k = k + 1;
        }
        true
    }
}

} // verus!
