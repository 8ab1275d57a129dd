//! Walls: vertical rectangles over a ground-plane segment, their four
//! vertices, and the index arithmetic that lets many quads share one vertex
//! buffer.

use vstd::prelude::*;

use crate::color::{
    decoded, hex_as_srgb, is_jitter_of, jitter_color, jitter_range, DEFAULT_JITTER,
};
use crate::scalar::Scalar;

verus! {

/// The hue that every wall vertex is a jittered shade of.
pub const WALL_COLOR: u32 = 0x4287F5;

/// The jitter range of the bottom-left and top-right corners; the other two
/// corners take the default range.
pub const STRONG_JITTER: u8 = 25;

/// How many vertices one quad has.
pub const QUAD_VERTICES: u16 = 4;

/// The most quads that one index buffer can address: indices are 16 bits
/// wide, and the last quad ends at vertex `4 * 16384 - 1`.
pub const MAX_QUADS: usize = 16384;

/// A vertical rectangular panel: two ground-plane endpoints and a height
/// range.
#[derive(Clone, Copy, Debug, PartialEq, Eq, Structural)]
pub struct Wall {
    pub left_x: Scalar,
    pub left_z: Scalar,
    pub right_x: Scalar,
    pub right_z: Scalar,
    pub top: Scalar,
    pub bottom: Scalar,
}

/// One record of the vertex buffer: a position, then a colour, three words
/// each.
#[derive(Clone, Copy, Debug)]
pub struct WallVertex {
    pub position: [Scalar; 3],
    pub color: [Scalar; 3],
}

/// How a vertex buffer is stepped through: once a vertex, or once an
/// instance.
#[derive(Clone, Copy, Debug, PartialEq, Eq, Structural)]
pub enum VertexStepMode {
    Vertex,
    Instance,
}

/// What one attribute of a vertex record holds.
#[derive(Clone, Copy, Debug, PartialEq, Eq, Structural)]
pub enum VertexFormat {
    /// Three 32-bit floating-point words.
    Float32x3,
}

/// Where one attribute of a vertex record lies, what it holds, and which
/// shader input reads it.
#[derive(Clone, Copy, Debug, PartialEq, Eq, Structural)]
pub struct VertexAttribute {
    pub format: VertexFormat,
    pub offset: u64,
    pub shader_location: u32,
}

/// The byte layout of a vertex buffer: the distance from one record to the
/// next, how the buffer is stepped through, and the attributes read from
/// each record.
#[derive(Clone, Copy, Debug)]
pub struct VertexLayout {
    pub array_stride: u64,
    pub step_mode: VertexStepMode,
    pub attributes: [VertexAttribute; 2],
}

/// The bytes of one vertex record: six 32-bit words.
pub const VERTEX_BYTES: u64 = 24;

/// The bytes of a position or a colour: three 32-bit words.
pub const TRIPLE_BYTES: u64 = 12;

/// The two attributes of a wall vertex: the position at the start of the
/// record for shader input 0, and the colour behind it for shader input 1.
pub open spec fn wall_vertex_attributes() -> Seq<VertexAttribute> {
    seq![
        (VertexAttribute { format: VertexFormat::Float32x3, offset: 0, shader_location: 0 }),
        (VertexAttribute {
            format: VertexFormat::Float32x3,
            offset: TRIPLE_BYTES,
            shader_location: 1,
        }),
    ]
}

/// The attributes of a wall vertex are two triples of words that lie one
/// behind the other and fill the record: the position from byte 0, the
/// colour from where the position ends to the end of the record, each for a
/// shader input of its own.
pub proof fn lemma_attributes_fill_the_record()
    ensures
        wall_vertex_attributes().len() == 2,
        wall_vertex_attributes()[0].offset == 0,
        wall_vertex_attributes()[1].offset == wall_vertex_attributes()[0].offset + TRIPLE_BYTES,
        wall_vertex_attributes()[1].offset + TRIPLE_BYTES == VERTEX_BYTES,
        wall_vertex_attributes()[0].shader_location != wall_vertex_attributes()[1].shader_location,
{
}

/// The triangulation of one quad whose vertices are numbered top-left,
/// bottom-left, bottom-right, top-right.
pub open spec fn quad_pattern() -> Seq<u16> {
    seq![0u16, 1u16, 3u16, 1u16, 2u16, 3u16]
}

/// Entry `j` of the index buffer of consecutive quads: quad `j / 6` owns the
/// vertices from `4 * (j / 6)` on, and entry `j % 6` of the pattern says
/// which of them.
pub open spec fn quad_index(j: int) -> int {
    quad_pattern()[j % 6] + 4 * (j / 6)
}

/// The index buffer of `quads` consecutive quads.
pub open spec fn quad_indices(quads: nat) -> Seq<u16> {
    Seq::new(6 * quads, |j: int| quad_index(j) as u16)
}

/// The index buffer of `quads` quads has six entries a quad, each entry
/// points into the `4 * quads` vertices of those quads, and its last entry
/// is the last of those vertices, so that the largest index is
/// `4 * quads - 1`.
pub proof fn lemma_quad_indices_bounds(quads: nat)
    requires
        quads <= MAX_QUADS,
    ensures
        quad_indices(quads).len() == 6 * quads,
        forall|j: int| 0 <= j < 6 * quads ==> #[trigger] quad_indices(quads)[j] < 4 * quads,
        quads > 0 ==> quad_indices(quads)[6 * quads - 1] == 4 * quads - 1,
{
    assert forall|j: int| 0 <= j < 6 * quads implies #[trigger] quad_indices(quads)[j] < 4
        * quads by {
        assert(quad_pattern()[j % 6] <= 3);
    }
    if quads > 0 {
        let j: int = 6 * quads - 1;
        assert(j % 6 == 5 && j / 6 == quads - 1);
    }
}

/// Indices are laid out quad after quad: entry `k` of quad `i` is entry `k`
/// of the pattern raised by `4 * i`.
pub proof fn lemma_quad_indices_rebased(quads: nat, i: int, k: int)
    requires
        quads <= MAX_QUADS,
        0 <= i < quads,
        0 <= k < 6,
    ensures
        quad_indices(quads)[6 * i + k] == quad_pattern()[k] + 4 * i,
{
    let j: int = 6 * i + k;
    assert(j % 6 == k && j / 6 == i);
}

/// The buffer is a list of triangles, two a quad: the three corners of
/// triangle `t` are three different vertices of quad `t / 2`.
pub proof fn lemma_triangles_stay_in_their_quad(quads: nat, t: int)
    requires
        quads <= MAX_QUADS,
        0 <= t < 2 * quads,
    ensures
        quad_indices(quads)[3 * t] != quad_indices(quads)[3 * t + 1],
        quad_indices(quads)[3 * t + 1] != quad_indices(quads)[3 * t + 2],
        quad_indices(quads)[3 * t] != quad_indices(quads)[3 * t + 2],
        forall|k: int|
            0 <= k < 3 ==> 4 * (t / 2) <= #[trigger] quad_indices(quads)[3 * t + k] < 4 * (t / 2)
                + 4,
{
    let i: int = t / 2;
    if t % 2 == 0 {
        lemma_quad_indices_rebased(quads, i, 0);
        lemma_quad_indices_rebased(quads, i, 1);
        lemma_quad_indices_rebased(quads, i, 2);
        assert(3 * t == 6 * i);
    } else {
        lemma_quad_indices_rebased(quads, i, 3);
        lemma_quad_indices_rebased(quads, i, 4);
        lemma_quad_indices_rebased(quads, i, 5);
        assert(3 * t == 6 * i + 3);
    }
}

/// The jitter range of corner `k` of a wall.
pub open spec fn corner_jitter(k: int) -> u8 {
    if k % 2 == 0 {
        DEFAULT_JITTER
    } else {
        STRONG_JITTER
    }
}

impl WallVertex {
    /// A vertex with the given position and colour.
    pub fn new(position: [Scalar; 3], color: [Scalar; 3]) -> (v: WallVertex)
        ensures
            v.position == position,
            v.color == color,
    {
        WallVertex { position, color }
    }

    /// The record as the vertex buffer holds it: the three words of the
    /// position, then the three words of the colour, nothing between them.
    pub open spec fn spec_words(self) -> Seq<u32> {
        seq![
            self.position[0].bits,
            self.position[1].bits,
            self.position[2].bits,
            self.color[0].bits,
            self.color[1].bits,
            self.color[2].bits,
        ]
    }

    /// The six words of the record, in buffer order.
    pub fn words(&self) -> (words: [u32; 6])
        ensures
            words@ == self.spec_words(),
    {
        let words: [u32; 6] = [
            self.position[0].to_bits(),
            self.position[1].to_bits(),
            self.position[2].to_bits(),
            self.color[0].to_bits(),
            self.color[1].to_bits(),
            self.color[2].to_bits(),
        ];
        assert(words@ =~= self.spec_words());
        words
    }

    /// The layout of a buffer of wall vertices: records of 24 bytes, stepped
    /// once a vertex, with two attributes, the position at byte 0 for shader
    /// input 0 and the colour at byte 12 for shader input 1.
    pub fn desc() -> (layout: VertexLayout)
        ensures
            layout.array_stride == VERTEX_BYTES,
            layout.step_mode == VertexStepMode::Vertex,
            layout.attributes@ == wall_vertex_attributes(),
    {
        let attributes: [VertexAttribute; 2] = [
            VertexAttribute { format: VertexFormat::Float32x3, offset: 0, shader_location: 0 },
            VertexAttribute {
                format: VertexFormat::Float32x3,
                offset: TRIPLE_BYTES,
                shader_location: 1,
            },
        ];
        assert(attributes@ =~= wall_vertex_attributes());
        VertexLayout { array_stride: VERTEX_BYTES, step_mode: VertexStepMode::Vertex, attributes }
    }
}

impl Wall {
    /// Corner `k` of the wall as `x, y, z`: top-left, bottom-left,
    /// bottom-right, top-right for `k` from 0 to 3.
    pub open spec fn corner(self, k: int) -> Seq<Scalar> {
        if k == 0 {
            seq![self.left_x, self.top, self.left_z]
        } else if k == 1 {
            seq![self.left_x, self.bottom, self.left_z]
        } else if k == 2 {
            seq![self.right_x, self.bottom, self.right_z]
        } else {
            seq![self.right_x, self.top, self.right_z]
        }
    }

    /// Whether `v` can be vertex `k` of the wall under `curve`: it stands at
    /// corner `k`, and its colour is the decoding of some jitter of the wall
    /// hue within the range of that corner.
    pub open spec fn has_vertex(self, k: int, v: WallVertex, curve: [Scalar; 256]) -> bool {
        &&& v.position@ == self.corner(k)
        &&& exists|hex: u32|
            is_jitter_of(hex, WALL_COLOR, corner_jitter(k)) && v.color@ == #[trigger] decoded(
                hex,
                curve,
            )
    }

    /// A wall from its left endpoint, its right endpoint, its top and its
    /// bottom.
    pub fn new(l: (Scalar, Scalar), r: (Scalar, Scalar), t: Scalar, b: Scalar) -> (wall: Wall)
        ensures
            wall.left_x == l.0,
            wall.left_z == l.1,
            wall.right_x == r.0,
            wall.right_z == r.1,
            wall.top == t,
            wall.bottom == b,
    {
        let (left_x, left_z) = l;
        let (right_x, right_z) = r;
        Wall { left_x, left_z, right_x, right_z, top: t, bottom: b }
    }

    /// The triangulation of the wall's quad: the same six indices for every
    /// wall.
    pub fn indices(&self) -> (indices: Vec<u16>)
        ensures
            indices@ == quad_pattern(),
    {
        let indices: Vec<u16> = vec![0, 1, 3, 1, 2, 3];
        assert(indices@ =~= quad_pattern());
        indices
    }

    /// One vertex of the wall at the given position, in a fresh jitter of the
    /// wall hue.
    fn shaded_vertex(
        &self,
        position: [Scalar; 3],
        delta: Option<u8>,
        curve: &[Scalar; 256],
        Ghost(k): Ghost<int>,
    ) -> (v: WallVertex)
        requires
            position@ == self.corner(k),
            jitter_range(delta) == corner_jitter(k),
        ensures
            self.has_vertex(k, v, *curve),
    {
        let hex: u32 = jitter_color(WALL_COLOR, delta);
        let v = WallVertex::new(position, hex_as_srgb(hex, curve));
        assert(v.color@ == decoded(hex, *curve));
        v
    }

    /// The four vertices of the wall, in the order top-left, bottom-left,
    /// bottom-right, top-right. Each gets its own jitter of the wall hue,
    /// decoded through `curve`: top-left and bottom-right within the default
    /// range, bottom-left and top-right within the strong one.
    pub fn vert_pos(&self, curve: &[Scalar; 256]) -> (verts: Vec<WallVertex>)
        ensures
            verts@.len() == 4,
            forall|k: int| 0 <= k < 4 ==> self.has_vertex(k, #[trigger] verts@[k], *curve),
    {
        let top_left: [Scalar; 3] = [self.left_x, self.top, self.left_z];
        let bottom_left: [Scalar; 3] = [self.left_x, self.bottom, self.left_z];
        let bottom_right: [Scalar; 3] = [self.right_x, self.bottom, self.right_z];
        let top_right: [Scalar; 3] = [self.right_x, self.top, self.right_z];
        assert(top_left@ =~= self.corner(0));
        assert(bottom_left@ =~= self.corner(1));
        assert(bottom_right@ =~= self.corner(2));
        assert(top_right@ =~= self.corner(3));

        let tl_vert = self.shaded_vertex(top_left, None, curve, Ghost(0));
        let bl_vert = self.shaded_vertex(bottom_left, Some(STRONG_JITTER), curve, Ghost(1));
        let br_vert = self.shaded_vertex(bottom_right, None, curve, Ghost(2));
        let tr_vert = self.shaded_vertex(top_right, Some(STRONG_JITTER), curve, Ghost(3));

        vec![tl_vert, bl_vert, br_vert, tr_vert]
    }
}

/// Appends `local` to `indices`, every entry raised by `offset`.
pub fn push_rebased(indices: &mut Vec<u16>, local: &Vec<u16>, offset: u16)
    requires
        forall|k: int| 0 <= k < local@.len() ==> local@[k] + offset <= u16::MAX,
    ensures
        final(indices)@.len() == old(indices)@.len() + local@.len(),
        forall|j: int| 0 <= j < old(indices)@.len() ==> final(indices)@[j] == old(indices)@[j],
        forall|k: int|
            0 <= k < local@.len() ==> #[trigger] final(indices)@[old(indices)@.len() + k]
                == local@[k] + offset,
{
    let mut k: usize = 0;
    while k < local.len()
        invariant
            k <= local@.len(),
            forall|k: int| 0 <= k < local@.len() ==> local@[k] + offset <= u16::MAX,
            indices@.len() == old(indices)@.len() + k,
            forall|j: int| 0 <= j < old(indices)@.len() ==> indices@[j] == old(indices)@[j],
            forall|m: int|
                0 <= m < k ==> #[trigger] indices@[old(indices)@.len() + m] == local@[m] + offset,
        decreases local@.len() - k,
    {
        indices.push(local[k] + offset);
        k = k + 1;
    }
}

/// The index buffer of a run of walls: wall `i` contributes its pattern
/// raised by `4 * i`, so that it points at the `i`-th block of four
/// vertices.
pub fn wall_indices(walls: &Vec<Wall>) -> (indices: Vec<u16>)
    requires
        walls@.len() <= MAX_QUADS,
    ensures
        indices@ == quad_indices(walls@.len()),
{
    let mut indices: Vec<u16> = Vec::new();
    let mut i: usize = 0;
    while i < walls.len()
        invariant
            i <= walls@.len() <= MAX_QUADS,
            indices@ == quad_indices(i as nat),
        decreases walls@.len() - i,
    {
        let local: Vec<u16> = walls[i].indices();
        let offset: u16 = (i as u16) * QUAD_VERTICES;
        push_rebased(&mut indices, &local, offset);
        assert(indices@ =~= quad_indices((i + 1) as nat)) by {
            assert forall|j: int| 0 <= j < 6 * (i + 1) implies indices@[j] == quad_index(
                j,
            ) as u16 by {
                if j >= 6 * i {
                    let k = j - 6 * i;
                    assert(indices@[6 * i + k] == local@[k] + offset);
                }
            }
        }
        i = i + 1;
    }
    indices
}

/// The vertex buffer of a run of walls: the four vertices of each wall, in
/// wall order.
pub fn wall_vertices(walls: &Vec<Wall>, curve: &[Scalar; 256]) -> (verts: Vec<WallVertex>)
    ensures
        is_wall_buffer(verts@, walls@, *curve),
{
    let mut verts: Vec<WallVertex> = Vec::new();
    let mut i: usize = 0;
    while i < walls.len()
        invariant
            i <= walls@.len(),
            is_wall_buffer(verts@, walls@.take(i as int), *curve),
        decreases walls@.len() - i,
    {
        let mut quad: Vec<WallVertex> = walls[i].vert_pos(curve);
        let ghost before = verts@;
        let ghost added = quad@;
        verts.append(&mut quad);
        assert(is_wall_buffer(verts@, walls@.take(i + 1), *curve)) by {
            assert(verts@ == before + added);
            assert forall|j: int| 0 <= j < 4 * (i + 1) implies walls@.take(i + 1)[j / 4].has_vertex(
                j % 4,
                #[trigger] verts@[j],
                *curve,
            ) by {
                if j < 4 * i {
                    assert(verts@[j] == before[j]);
                    assert(walls@.take(i as int)[j / 4] == walls@.take(i + 1)[j / 4]);
                } else {
                    assert(verts@[j] == added[j - 4 * i]);
                }
            }
        }
        i = i + 1;
    }
    assert(walls@.take(i as int) =~= walls@);
    verts
}

/// Whether `verts` is a vertex buffer of `walls` under `curve`: four
/// vertices a wall, and vertex `j` is vertex `j % 4` of wall `j / 4`.
pub open spec fn is_wall_buffer(
    verts: Seq<WallVertex>,
    walls: Seq<Wall>,
    curve: [Scalar; 256],
) -> bool {
    &&& verts.len() == 4 * walls.len()
    &&& forall|j: int|
        0 <= j < verts.len() ==> walls[j / 4].has_vertex(j % 4, #[trigger] verts[j], curve)
}

} // verus!
