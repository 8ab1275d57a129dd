//! Vertex and index buffers for a maze renderer.
//!
//! A level is a run of walls over a floor. Each wall is a vertical rectangle
//! over a segment of the ground plane; the floor is the bounding rectangle
//! of a cloud of ground-plane points. From these the library builds the flat
//! vertex buffer (a position and a colour a vertex, 24 bytes) and the 16-bit
//! index buffer (two triangles a rectangle) that a rasterizer takes, and it
//! answers which three walls lie nearest to a place.
//!
//! Numbers are single-precision and travel as their bit patterns
//! ([`scalar::Scalar`]): the library moves and compares them, and does no
//! arithmetic on them. What needs arithmetic comes in from the caller: the
//! transfer curve from 8-bit colour channels to linear components as a table
//! of 256 entries, and the distances of the walls from a place as a list.
//!
//! - [`scalar`]: bit patterns and their numeric order.
//! - [`color`]: hex colours, the lookup through the transfer curve, and the
//!   random jitter of wall colours.
//! - [`wall`]: walls, vertices, the vertex layout and the index arithmetic.
//! - [`room`]: walls without a floor.
//! - [`level`]: walls with a floor, extents, and the nearest-wall query.

pub mod color;
pub mod level;
pub mod room;
pub mod scalar;
pub mod wall;
