//! The core of a small mesh viewer: resolving a hierarchy of scene nodes into
//! drawable elements, and steering the camera with an arcball.
//!
//! Every number is a single-precision value carried as its IEEE-754 bit
//! pattern in a `u32`.  The code here places, copies and compares such
//! patterns.  Where numbers are to be multiplied or a rotation is to be
//! computed, the caller supplies the computation as a function on bit
//! patterns, and the contracts say what is handed to it and where its result
//! goes.
pub mod arcball;
pub mod frame_loop;
pub mod icosphere;
pub mod octahedron;
pub mod scalar;
pub mod scene_element;
pub mod scene_graph;
pub mod scene_node;
pub mod transform;
pub mod triangle_mesh;
pub mod window_state;
