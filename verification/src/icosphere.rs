//! A regular icosahedron about the origin, the coarsest approximation of a
//! sphere.
use crate::scalar::{negate, negated, ZERO};
use crate::triangle_mesh::{TriangleIndices, TriangleMesh, P3};
use vstd::prelude::*;

verus! {

/// The twelve vertices: the corners of three rectangles with sides `2 r` and
/// `2 t`, one in each coordinate plane.
pub open spec fn icosphere_vertices(r: u32, t: u32) -> Seq<P3> {
    seq![
        (negated(r), t, ZERO),
        (r, t, ZERO),
        (negated(r), negated(t), ZERO),
        (r, negated(t), ZERO),
        (ZERO, negated(r), t),
        (ZERO, r, t),
        (ZERO, negated(r), negated(t)),
        (ZERO, r, negated(t)),
        (t, ZERO, negated(r)),
        (t, ZERO, r),
        (negated(t), ZERO, negated(r)),
        (negated(t), ZERO, r),
    ]
}

/// The twenty faces: five about vertex 0, the five next to them, five about
/// vertex 3, and the five next to those.
pub open spec fn icosphere_indices() -> Seq<TriangleIndices> {
    seq![
        [0usize, 11, 5],
        [0usize, 5, 1],
        [0usize, 1, 7],
        [0usize, 7, 10],
        [0usize, 10, 11],
        [1usize, 5, 9],
        [5usize, 11, 4],
        [11usize, 10, 2],
        [10usize, 7, 6],
        [7usize, 1, 8],
        [3usize, 9, 4],
        [3usize, 4, 2],
        [3usize, 2, 6],
        [3usize, 6, 8],
        [3usize, 8, 9],
        [4usize, 9, 5],
        [2usize, 4, 11],
        [6usize, 2, 10],
        [8usize, 6, 7],
        [9usize, 8, 1],
    ]
}

/// The icosahedron whose rectangles have the half sides `r` and `t`; it is
/// regular where `t` is `r` times the golden ratio.
pub fn icosphere(r: u32, t: u32) -> (mesh: TriangleMesh)
    ensures
        mesh.vertices@ == icosphere_vertices(r, t),
        mesh.indices@ == icosphere_indices(),
        mesh.well_formed(),
{
    let mr = negate(r);
    let mt = negate(t);
    let vertices: Vec<P3> = vec![
        (mr, t, ZERO),
        (r, t, ZERO),
        (mr, mt, ZERO),
        (r, mt, ZERO),
        (ZERO, mr, t),
        (ZERO, r, t),
        (ZERO, mr, mt),
        (ZERO, r, mt),
        (t, ZERO, mr),
        (t, ZERO, r),
        (mt, ZERO, mr),
        (mt, ZERO, r),
    ];
    let indices: Vec<TriangleIndices> = vec![
        [0, 11, 5],
        [0, 5, 1],
        [0, 1, 7],
        [0, 7, 10],
        [0, 10, 11],
        [1, 5, 9],
        [5, 11, 4],
        [11, 10, 2],
        [10, 7, 6],
        [7, 1, 8],
        [3, 9, 4],
        [3, 4, 2],
        [3, 2, 6],
        [3, 6, 8],
        [3, 8, 9],
        [4, 9, 5],
        [2, 4, 11],
        [6, 2, 10],
        [8, 6, 7],
        [9, 8, 1],
    ];
    TriangleMesh { vertices, indices }
}

} // verus!
