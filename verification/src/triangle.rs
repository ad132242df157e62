//! Triangles of a mesh.

use std::sync::Arc;
use vstd::prelude::*;
use crate::aabb::AABB;
use crate::aarect::ONE_BITS;
use crate::scalar::Scalar;
use crate::sphere::{in_range, is_in_range};
use crate::triangle_mesh::TriangleMesh;
use crate::vec3::{Point3, Vec3};

verus! {

/// The pattern of 1e-6: a determinant closer to zero counts as zero.
pub const DEGENERATE_BITS: u64 = 0x3EB0_C6F7_A0B5_ED8D;

/// One triangle of a mesh: the mesh, the place of the triangle's first corner
/// among the mesh's indices, and the three corners' vertices.
pub struct Triangle {
    pub mesh: Arc<TriangleMesh>,
    pub i_min: usize,
    pub vs: [usize; 3],
}

/// What decides a ray's hit of a triangle.
#[derive(Clone, Copy, Debug, PartialEq, Eq, Structural)]
pub struct Solution {
    /// The determinant of the system that places the ray on the triangle's
    /// plane.
    pub det: Scalar,
    /// The parameter at which the ray meets the plane.
    pub t_hit: Scalar,
    /// The barycentric coordinate of the meeting point for the second corner.
    pub b1: Scalar,
    /// The barycentric coordinate of the meeting point for the third corner.
    pub b2: Scalar,
    /// The sum of `b1` and `b2`.
    pub b_sum: Scalar,
}

/// A number is closer to zero than 1e-6.
pub open spec fn negligible(x: Scalar) -> bool {
    x.abs_spec().lt_spec(Scalar { bits: DEGENERATE_BITS })
}

/// A ray hits where the determinant is at least 1e-6 away from zero, the
/// meeting point's barycentric coordinates lie in the simplex, and the
/// parameter lies in the range. A solution with a NaN in it is no hit.
pub open spec fn accepts_spec(s: Solution, t_min: Scalar, t_max: Scalar) -> bool {
    let zero = Scalar { bits: 0 };
    let one = Scalar { bits: ONE_BITS };
    &&& (Scalar { bits: DEGENERATE_BITS }).le_spec(s.det.abs_spec())
    &&& zero.le_spec(s.b1)
    &&& zero.le_spec(s.b2)
    &&& s.b1.le_spec(one)
    &&& s.b_sum.le_spec(one)
    &&& in_range(s.t_hit, t_min, t_max)
}

/// The corner-wise smallest and largest coordinates of three points.
pub open spec fn span_of(a: Point3, b: Point3, c: Point3) -> AABB {
    AABB {
        min: Vec3(
            a.0.min_spec(b.0).min_spec(c.0),
            a.1.min_spec(b.1).min_spec(c.1),
            a.2.min_spec(b.2).min_spec(c.2),
        ),
        max: Vec3(
            a.0.max_spec(b.0).max_spec(c.0),
            a.1.max_spec(b.1).max_spec(c.1),
            a.2.max_spec(b.2).max_spec(c.2),
        ),
    }
}

/// Whether a number is closer to zero than 1e-6.
pub fn is_negligible(x: Scalar) -> (b: bool)
    ensures
        b == negligible(x),
{
    x.abs().lt(Scalar { bits: DEGENERATE_BITS })
}

impl Triangle {
    /// The three corners are vertices of the mesh, and they are the ones
    /// that the mesh's indices name for this triangle.
    pub open spec fn wf(&self) -> bool {
        &&& self.mesh.wf()
        &&& self.i_min + 2 < self.mesh.vertex_indices@.len()
        &&& forall|i: int|
            0 <= i < 3 ==> #[trigger] self.vs@[i] == self.mesh.vertex_indices@[self.i_min + i]
                && self.vs@[i] < self.mesh.n_vertices
    }

    /// Triangle `t_idx` of a mesh.
    pub fn new(mesh: Arc<TriangleMesh>, t_idx: usize) -> (tri: Self)
        requires
            mesh.wf(),
            t_idx < mesh.n_faces,
        ensures
            tri.wf(),
            tri.mesh == mesh,
            tri.i_min == t_idx * 3,
    {
        let n_indices = mesh.vertex_indices.len();
        assert(t_idx * 3 + 3 <= mesh.n_faces * 3 <= n_indices);
        let i_min = t_idx * 3;
        let vs = [
            mesh.vertex_indices[i_min],
            mesh.vertex_indices[i_min + 1],
            mesh.vertex_indices[i_min + 2],
        ];
        Self { vs, mesh, i_min }
    }

    /// Corner `i` of the triangle.
    pub fn vertex(&self, i: usize) -> (p: Point3)
        requires
            self.wf(),
            i < 3,
        ensures
            p == self.mesh.p@[self.vs@[i as int] as int],
    {
        self.mesh.p[self.vs[i]]
    }

    /// The texture coordinates of the three corners: those of the mesh, or
    /// `(0, 0)`, `(1, 0)` and `(1, 1)` where the mesh has none.
    pub fn get_uvs(&self) -> (uvs: [(Scalar, Scalar); 3])
        requires
            self.wf(),
        ensures
            self.mesh.uv matches Some(coords) ==> forall|i: int|
                0 <= i < 3 ==> #[trigger] uvs@[i] == coords@[self.vs@[i] as int],
            self.mesh.uv is None ==> uvs@ == seq![
                (Scalar { bits: 0 }, Scalar { bits: 0 }),
                (Scalar { bits: ONE_BITS }, Scalar { bits: 0 }),
                (Scalar { bits: ONE_BITS }, Scalar { bits: ONE_BITS }),
            ],
    {
        let zero = Scalar { bits: 0 };
        let one = Scalar { bits: ONE_BITS };
        match &self.mesh.uv {
            Some(uv) => [uv[self.vs[0]], uv[self.vs[1]], uv[self.vs[2]]],
            None => [(zero, zero), (one, zero), (one, one)],
        }
    }

    /// The normals of the three corners, where the mesh has normals.
    pub fn corner_normals(&self) -> (normals: Option<[Vec3; 3]>)
        requires
            self.wf(),
        ensures
            self.mesh.n is Some <==> normals is Some,
            self.mesh.n matches Some(all) ==> forall|i: int|
                0 <= i < 3 ==> #[trigger] normals->0@[i] == all@[self.vs@[i] as int],
    {
        match &self.mesh.n {
            Some(n) => Some([n[self.vs[0]], n[self.vs[1]], n[self.vs[2]]]),
            None => None,
        }
    }

    /// Whether a ray hits the triangle within `[t_min, t_max]`, from the
    /// solution of the system that places the ray on the triangle's plane.
    pub fn accepts(s: Solution, t_min: Scalar, t_max: Scalar) -> (b: bool)
        ensures
            b == accepts_spec(s, t_min, t_max),
            b ==> !s.det.is_nan_spec() && !s.t_hit.is_nan_spec() && !s.b1.is_nan_spec()
                && !s.b2.is_nan_spec() && !s.b_sum.is_nan_spec(),
    {
        let zero = Scalar { bits: 0 };
        let one = Scalar { bits: ONE_BITS };
        if !(Scalar { bits: DEGENERATE_BITS }).le(s.det.abs()) {
            return false;
        }
        if !(zero.le(s.b1) && zero.le(s.b2) && s.b1.le(one) && s.b_sum.le(one)) {
            return false;
        }
        is_in_range(s.t_hit, t_min, t_max)
    }

    /// The least box that holds the three corners.
    pub fn corner_box(&self) -> (b: AABB)
        requires
            self.wf(),
        ensures
            b == span_of(
                self.mesh.p@[self.vs@[0] as int],
                self.mesh.p@[self.vs@[1] as int],
                self.mesh.p@[self.vs@[2] as int],
            ),
    {
        let a = self.vertex(0);
        let b = self.vertex(1);
        let c = self.vertex(2);
        AABB {
            min: Vec3(
                a.x().min(b.x()).min(c.x()),
                a.y().min(b.y()).min(c.y()),
                a.z().min(b.z()).min(c.z()),
            ),
            max: Vec3(
                a.x().max(b.x()).max(c.x()),
                a.y().max(b.y()).max(c.y()),
                a.z().max(b.z()).max(c.z()),
            ),
        }
    }
}

/// The box of three corners holds each of them.
pub proof fn corner_box_holds_the_corners(a: Point3, b: Point3, c: Point3)
    requires
        !a.is_nan_spec(),
        !b.is_nan_spec(),
        !c.is_nan_spec(),
    ensures
        span_of(a, b, c).wf(),
        span_of(a, b, c).holds(a),
        span_of(a, b, c).holds(b),
        span_of(a, b, c).holds(c),
{
}

} // verus!
