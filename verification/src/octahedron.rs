//! A slim octahedron standing on one tip, as used to draw a bone or a node.
use crate::scalar::{negate, negated, ZERO};
use crate::triangle_mesh::{TriangleIndices, TriangleMesh, P3};
use vstd::prelude::*;

verus! {

/// The six vertices: the lower tip at the origin, the four corners of a
/// square at height `top_length`, each `thel` away from the axis in `x` and in
/// `y`, and the upper tip at height `length`.
pub open spec fn octahedron_vertices(length: u32, top_length: u32, thel: u32) -> Seq<P3> {
    seq![
        (ZERO, ZERO, ZERO),
        (negated(thel), thel, top_length),
        (thel, thel, top_length),
        (thel, negated(thel), top_length),
        (negated(thel), negated(thel), top_length),
        (ZERO, ZERO, length),
    ]
}

/// The eight faces: four about the lower tip, then four about the upper one.
pub open spec fn octahedron_indices() -> Seq<TriangleIndices> {
    seq![
        [0usize, 1, 2],
        [0usize, 2, 3],
        [0usize, 3, 4],
        [0usize, 4, 1],
        [5usize, 2, 1],
        [5usize, 3, 2],
        [5usize, 4, 3],
        [5usize, 1, 4],
    ]
}

/// The octahedron of the given height, whose square cross-section lies at
/// height `top_length` and reaches `thel` to either side.
pub fn octahedron(length: u32, top_length: u32, thel: u32) -> (mesh: TriangleMesh)
    ensures
        mesh.vertices@ == octahedron_vertices(length, top_length, thel),
        mesh.indices@ == octahedron_indices(),
        mesh.well_formed(),
{
    let minus = negate(thel);
    let vertices: Vec<P3> = vec![
        (ZERO, ZERO, ZERO),
        (minus, thel, top_length),
        (thel, thel, top_length),
        (thel, minus, top_length),
        (minus, minus, top_length),
        (ZERO, ZERO, length),
    ];
    let indices: Vec<TriangleIndices> = vec![
        [0, 1, 2],
        [0, 2, 3],
        [0, 3, 4],
        [0, 4, 1],
        [5, 2, 1],
        [5, 3, 2],
        [5, 4, 3],
        [5, 1, 4],
    ];
    TriangleMesh { vertices, indices }
}

} // verus!
