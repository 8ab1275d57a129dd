//! Rooms: an ordered run of walls without a floor.

use vstd::prelude::*;

use crate::scalar::Scalar;
use crate::wall::{
    is_wall_buffer, lemma_quad_indices_bounds, quad_indices, wall_indices, wall_vertices, Wall,
    WallVertex, MAX_QUADS,
};

verus! {

/// An ordered collection of walls. The order decides which block of four
/// vertices each wall gets.
pub struct Room {
    pub walls: Vec<Wall>,
}

impl Room {
    /// A room without walls.
    pub fn new() -> (room: Room)
        ensures
            room.walls@.len() == 0,
    {
        Room { walls: Vec::new() }
    }

    /// The vertex buffer of the room: the four vertices of each wall, in
    /// wall order, colours decoded through `curve`.
    pub fn all_verts(&self, curve: &[Scalar; 256]) -> (verts: Vec<WallVertex>)
        ensures
            verts@.len() == 4 * self.walls@.len(),
            is_wall_buffer(verts@, self.walls@, *curve),
    {
        wall_vertices(&self.walls, curve)
    }

    /// The index buffer of the room: wall `i` contributes the quad pattern
    /// raised by `4 * i`. Indices are 16 bits wide, which bounds the number
    /// of walls.
    pub fn all_indices(&self) -> (indices: Vec<u16>)
        requires
            self.walls@.len() <= MAX_QUADS,
        ensures
            indices@ == quad_indices(self.walls@.len()),
            indices@.len() == 6 * self.walls@.len(),
            forall|j: int|
                0 <= j < indices@.len() ==> #[trigger] indices@[j] < 4 * self.walls@.len(),
            self.walls@.len() > 0 ==> indices@[indices@.len() - 1] == 4 * self.walls@.len() - 1,
    {
        proof {
            lemma_quad_indices_bounds(self.walls@.len());
        }
        wall_indices(&self.walls)
    }
}

} // verus!
