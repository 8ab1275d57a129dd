//! Levels: a run of walls over a floor. The floor is the bounding rectangle
//! of a cloud of ground-plane points, seeded at the origin; a level also
//! answers which three walls lie nearest to a place.

use vstd::prelude::*;

use crate::color::{decoded, hex_as_srgb};
use crate::scalar::{lemma_key_determines_bits, Scalar};
use crate::wall::{
    is_wall_buffer, lemma_quad_indices_bounds, push_rebased, quad_index, quad_indices,
    wall_indices, wall_vertices, Wall, WallVertex, MAX_QUADS,
};

verus! {

/// The bounding rectangle of a point cloud on the ground plane.
#[derive(Clone, Copy, Debug, PartialEq, Eq, Structural)]
pub struct Extents {
    pub min_x: Scalar,
    pub max_x: Scalar,
    pub min_z: Scalar,
    pub max_z: Scalar,
}

/// A level: walls, the point cloud that its floor bounds, a scale factor
/// kept for the caller, the four floor corners, and a starting place.
///
/// The corners are never given: they are the extents of the points, here
/// and in every level that exists.
pub struct Level {
    walls: Vec<Wall>,
    points: Vec<(Scalar, Scalar)>,
    scale_factor: Scalar,
    top_left: (Scalar, Scalar),
    bottom_left: (Scalar, Scalar),
    bottom_right: (Scalar, Scalar),
    top_right: (Scalar, Scalar),
    start_pos: (Scalar, Scalar),
}

/// What a level is made from. The corners are no part of it: the points
/// determine them.
pub struct LevelView {
    pub walls: Seq<Wall>,
    pub points: Seq<(Scalar, Scalar)>,
    pub scale_factor: Scalar,
    pub start_pos: (Scalar, Scalar),
}

impl View for Level {
    type V = LevelView;

    closed spec fn view(&self) -> LevelView {
        LevelView {
            walls: self.walls@,
            points: self.points@,
            scale_factor: self.scale_factor,
            start_pos: self.start_pos,
        }
    }
}

/// The `x` of a ground-plane point, or its `z` where `axis_z` is set.
pub open spec fn coordinate(p: (Scalar, Scalar), axis_z: bool) -> Scalar {
    if axis_z {
        p.1
    } else {
        p.0
    }
}

/// The running minimum of one coordinate over the points, started at zero:
/// a point takes over only where it lies strictly below what is held.
pub open spec fn lower_extent(points: Seq<(Scalar, Scalar)>, axis_z: bool) -> Scalar
    decreases points.len(),
{
    if points.len() == 0 {
        Scalar::spec_zero()
    } else {
        let held = lower_extent(points.drop_last(), axis_z);
        let c = coordinate(points.last(), axis_z);
        if c.spec_lt(held) {
            c
        } else {
            held
        }
    }
}

/// The running maximum of one coordinate over the points, started at zero:
/// a point takes over only where it lies strictly above what is held.
pub open spec fn upper_extent(points: Seq<(Scalar, Scalar)>, axis_z: bool) -> Scalar
    decreases points.len(),
{
    if points.len() == 0 {
        Scalar::spec_zero()
    } else {
        let held = upper_extent(points.drop_last(), axis_z);
        let c = coordinate(points.last(), axis_z);
        if c.spec_gt(held) {
            c
        } else {
            held
        }
    }
}

/// The extents of a point cloud.
pub open spec fn extents_of(points: Seq<(Scalar, Scalar)>) -> Extents {
    Extents {
        min_x: lower_extent(points, false),
        max_x: upper_extent(points, false),
        min_z: lower_extent(points, true),
        max_z: upper_extent(points, true),
    }
}

/// Zero lies within the extents, and neither bound is a NaN.
pub proof fn lemma_extents_hold_zero(points: Seq<(Scalar, Scalar)>, axis_z: bool)
    ensures
        !lower_extent(points, axis_z).spec_is_nan(),
        !upper_extent(points, axis_z).spec_is_nan(),
        lower_extent(points, axis_z).order_key() <= 0 <= upper_extent(points, axis_z).order_key(),
    decreases points.len(),
{
    if points.len() > 0 {
        lemma_extents_hold_zero(points.drop_last(), axis_z);
    }
}

/// Every point whose coordinate is a number lies within the extents.
pub proof fn lemma_extents_hold_points(points: Seq<(Scalar, Scalar)>, axis_z: bool, i: int)
    requires
        0 <= i < points.len(),
        !coordinate(points[i], axis_z).spec_is_nan(),
    ensures
        lower_extent(points, axis_z).order_key() <= coordinate(points[i], axis_z).order_key(),
        coordinate(points[i], axis_z).order_key() <= upper_extent(points, axis_z).order_key(),
    decreases points.len(),
{
    lemma_extents_hold_zero(points.drop_last(), axis_z);
    if i < points.len() - 1 {
        lemma_extents_hold_points(points.drop_last(), axis_z, i);
    }
}

/// A bound is the seed or the coordinate of one of the points, and a bound
/// that is numerically zero is the seed itself: a zero among the points
/// never replaces it.
pub proof fn lemma_extents_attained(points: Seq<(Scalar, Scalar)>, axis_z: bool)
    ensures
        lower_extent(points, axis_z) == Scalar::spec_zero() || exists|i: int|
            0 <= i < points.len() && #[trigger] coordinate(points[i], axis_z) == lower_extent(
                points,
                axis_z,
            ),
        upper_extent(points, axis_z) == Scalar::spec_zero() || exists|i: int|
            0 <= i < points.len() && #[trigger] coordinate(points[i], axis_z) == upper_extent(
                points,
                axis_z,
            ),
        lower_extent(points, axis_z).order_key() == 0 ==> lower_extent(points, axis_z)
            == Scalar::spec_zero(),
        upper_extent(points, axis_z).order_key() == 0 ==> upper_extent(points, axis_z)
            == Scalar::spec_zero(),
    decreases points.len(),
{
    if points.len() > 0 {
        let rest = points.drop_last();
        let last = points.len() - 1;
        lemma_extents_attained(rest, axis_z);
        lemma_extents_hold_zero(rest, axis_z);
        let lo = lower_extent(points, axis_z);
        if lo != Scalar::spec_zero() {
            if lo == lower_extent(rest, axis_z) {
                let i = choose|i: int|
                    0 <= i < rest.len() && #[trigger] coordinate(rest[i], axis_z) == lo;
                assert(coordinate(points[i], axis_z) == lo);
            } else {
                assert(coordinate(points[last], axis_z) == lo);
            }
        }
        let hi = upper_extent(points, axis_z);
        if hi != Scalar::spec_zero() {
            if hi == upper_extent(rest, axis_z) {
                let i = choose|i: int|
                    0 <= i < rest.len() && #[trigger] coordinate(rest[i], axis_z) == hi;
                assert(coordinate(points[i], axis_z) == hi);
            } else {
                assert(coordinate(points[last], axis_z) == hi);
            }
        }
    }
}

/// Whether `m` is the least of zero and the coordinates that are numbers:
/// it is a number, it lies at or below zero and all of them, and it is one
/// of them or the seed, the seed wherever it is numerically zero.
pub open spec fn is_least(points: Seq<(Scalar, Scalar)>, axis_z: bool, m: Scalar) -> bool {
    &&& !m.spec_is_nan()
    &&& m.order_key() <= 0
    &&& forall|i: int|
        0 <= i < points.len() && !(#[trigger] coordinate(points[i], axis_z)).spec_is_nan()
            ==> m.order_key() <= coordinate(points[i], axis_z).order_key()
    &&& m == Scalar::spec_zero() || exists|i: int|
        0 <= i < points.len() && #[trigger] coordinate(points[i], axis_z) == m
    &&& m.order_key() == 0 ==> m == Scalar::spec_zero()
}

/// Whether `m` is the greatest of zero and the coordinates that are
/// numbers.
pub open spec fn is_greatest(points: Seq<(Scalar, Scalar)>, axis_z: bool, m: Scalar) -> bool {
    &&& !m.spec_is_nan()
    &&& m.order_key() >= 0
    &&& forall|i: int|
        0 <= i < points.len() && !(#[trigger] coordinate(points[i], axis_z)).spec_is_nan()
            ==> m.order_key() >= coordinate(points[i], axis_z).order_key()
    &&& m == Scalar::spec_zero() || exists|i: int|
        0 <= i < points.len() && #[trigger] coordinate(points[i], axis_z) == m
    &&& m.order_key() == 0 ==> m == Scalar::spec_zero()
}

/// The lower extent is the least of zero and the coordinates, the upper
/// extent the greatest, and nothing else is: the order in which the points
/// come does not matter, nor that a point is held against the upper bound
/// only where it did not move the lower one.
pub proof fn lemma_extents_are_least_and_greatest(
    points: Seq<(Scalar, Scalar)>,
    axis_z: bool,
    m: Scalar,
)
    ensures
        is_least(points, axis_z, m) <==> m == lower_extent(points, axis_z),
        is_greatest(points, axis_z, m) <==> m == upper_extent(points, axis_z),
{
    let lo = lower_extent(points, axis_z);
    let hi = upper_extent(points, axis_z);
    lemma_extents_hold_zero(points, axis_z);
    lemma_extents_attained(points, axis_z);
    assert(is_least(points, axis_z, lo)) by {
        assert forall|i: int|
            0 <= i < points.len() && !(#[trigger] coordinate(
                points[i],
                axis_z,
            )).spec_is_nan() implies lo.order_key() <= coordinate(points[i], axis_z).order_key() by {
            lemma_extents_hold_points(points, axis_z, i);
        }
    }
    assert(is_greatest(points, axis_z, hi)) by {
        assert forall|i: int|
            0 <= i < points.len() && !(#[trigger] coordinate(
                points[i],
                axis_z,
            )).spec_is_nan() implies hi.order_key() >= coordinate(points[i], axis_z).order_key() by {
            lemma_extents_hold_points(points, axis_z, i);
        }
    }
    if is_least(points, axis_z, m) {
        assert(m.order_key() == lo.order_key()) by {
            if lo != Scalar::spec_zero() {
                let i = choose|i: int|
                    0 <= i < points.len() && #[trigger] coordinate(points[i], axis_z) == lo;
                assert(m.order_key() <= coordinate(points[i], axis_z).order_key());
            }
            if m != Scalar::spec_zero() {
                let i = choose|i: int|
                    0 <= i < points.len() && #[trigger] coordinate(points[i], axis_z) == m;
                assert(lo.order_key() <= coordinate(points[i], axis_z).order_key());
            }
        }
        if m.order_key() != 0 {
            lemma_key_determines_bits(m, lo);
        }
    }
    if is_greatest(points, axis_z, m) {
        assert(m.order_key() == hi.order_key()) by {
            if hi != Scalar::spec_zero() {
                let i = choose|i: int|
                    0 <= i < points.len() && #[trigger] coordinate(points[i], axis_z) == hi;
                assert(m.order_key() >= coordinate(points[i], axis_z).order_key());
            }
            if m != Scalar::spec_zero() {
                let i = choose|i: int|
                    0 <= i < points.len() && #[trigger] coordinate(points[i], axis_z) == m;
                assert(hi.order_key() >= coordinate(points[i], axis_z).order_key());
            }
        }
        if m.order_key() != 0 {
            lemma_key_determines_bits(m, hi);
        }
    }
}

/// Where no point lies below zero, the lower bound stays at the seed, and
/// where none lies above zero, so does the upper bound: the extents never
/// shrink towards the points.
pub proof fn lemma_extents_keep_seed(points: Seq<(Scalar, Scalar)>, axis_z: bool)
    ensures
        (forall|i: int|
            0 <= i < points.len() ==> !(#[trigger] coordinate(points[i], axis_z)).spec_lt(
                Scalar::spec_zero(),
            )) ==> lower_extent(points, axis_z) == Scalar::spec_zero(),
        (forall|i: int|
            0 <= i < points.len() ==> !(#[trigger] coordinate(points[i], axis_z)).spec_gt(
                Scalar::spec_zero(),
            )) ==> upper_extent(points, axis_z) == Scalar::spec_zero(),
    decreases points.len(),
{
    if points.len() > 0 {
        let rest = points.drop_last();
        lemma_extents_keep_seed(rest, axis_z);
        if forall|i: int|
            0 <= i < points.len() ==> !(#[trigger] coordinate(points[i], axis_z)).spec_lt(
                Scalar::spec_zero(),
            ) {
            assert forall|i: int| 0 <= i < rest.len() implies !(#[trigger] coordinate(
                rest[i],
                axis_z,
            )).spec_lt(Scalar::spec_zero()) by {
                assert(rest[i] == points[i]);
            }
            assert(!coordinate(points[points.len() - 1], axis_z).spec_lt(Scalar::spec_zero()));
        }
        if forall|i: int|
            0 <= i < points.len() ==> !(#[trigger] coordinate(points[i], axis_z)).spec_gt(
                Scalar::spec_zero(),
            ) {
            assert forall|i: int| 0 <= i < rest.len() implies !(#[trigger] coordinate(
                rest[i],
                axis_z,
            )).spec_gt(Scalar::spec_zero()) by {
                assert(rest[i] == points[i]);
            }
            assert(!coordinate(points[points.len() - 1], axis_z).spec_gt(Scalar::spec_zero()));
        }
    }
}

/// Scans the points once and returns their extents. Both bounds of each axis
/// start at zero; a point moves the lower bound if it lies below it, and
/// otherwise the upper bound if it lies above that. A point below the lower
/// bound is never above the upper one, since zero lies between the two, so
/// the two bounds are the running minimum and maximum.
pub fn compute_extents(points: &Vec<(Scalar, Scalar)>) -> (e: Extents)
    ensures
        e == extents_of(points@),
{
    let mut min_x: Scalar = Scalar::zero();
    let mut min_z: Scalar = Scalar::zero();
    let mut max_x: Scalar = Scalar::zero();
    let mut max_z: Scalar = Scalar::zero();

    let mut i: usize = 0;
    while i < points.len()
        invariant
            i <= points@.len(),
            min_x == lower_extent(points@.take(i as int), false),
            max_x == upper_extent(points@.take(i as int), false),
            min_z == lower_extent(points@.take(i as int), true),
            max_z == upper_extent(points@.take(i as int), true),
        decreases points@.len() - i,
    {
        let (pt_x, pt_z) = points[i];
        proof {
            let seen = points@.take(i as int);
            assert(points@.take(i + 1).drop_last() =~= seen);
            assert(points@.take(i + 1).last() == points@[i as int]);
            lemma_extents_hold_zero(seen, false);
            lemma_extents_hold_zero(seen, true);
        }
        if pt_x.lt(min_x) {
            min_x = pt_x;
        } else if pt_x.gt(max_x) {
            max_x = pt_x;
        }

        if pt_z.lt(min_z) {
            min_z = pt_z;
        } else if pt_z.gt(max_z) {
            max_z = pt_z;
        }
        i = i + 1;
    }
    assert(points@.take(i as int) =~= points@);
    Extents { min_x, max_x, min_z, max_z }
}

/// Corner `k` of the floor on the ground plane, in the order the floor
/// vertices are emitted: top-right, bottom-right, bottom-left, top-left.
/// "Top" is the far side in `z`, "right" the far side in `x`.
pub open spec fn floor_corner(e: Extents, k: int) -> (Scalar, Scalar) {
    if k == 0 {
        (e.max_x, e.max_z)
    } else if k == 1 {
        (e.max_x, e.min_z)
    } else if k == 2 {
        (e.min_x, e.min_z)
    } else {
        (e.min_x, e.max_z)
    }
}

/// The hex colour of the floor at its top-right corner.
pub const FLOOR_TOP_RIGHT: u32 = 0x60996F;

/// The hex colour of the floor at its bottom-right corner.
pub const FLOOR_BOTTOM_RIGHT: u32 = 0x457A53;

/// The hex colour of the floor at its bottom-left corner: the shade halfway
/// between those of the two corners on the right.
pub const FLOOR_BOTTOM_LEFT: u32 = 0x528961;

/// The hex colour of the floor at its top-left corner.
pub const FLOOR_TOP_LEFT: u32 = 0x72B584;

/// The hex colour of floor vertex `k`.
pub open spec fn floor_color(k: int) -> u32 {
    if k == 0 {
        FLOOR_TOP_RIGHT
    } else if k == 1 {
        FLOOR_BOTTOM_RIGHT
    } else if k == 2 {
        FLOOR_BOTTOM_LEFT
    } else {
        FLOOR_TOP_LEFT
    }
}

/// Every corner of the floor has a colour of its own, so that the floor is a
/// gradient of four colours.
pub proof fn lemma_floor_colors_distinct(j: int, k: int)
    requires
        0 <= j < 4,
        0 <= k < 4,
        j != k,
    ensures
        floor_color(j) != floor_color(k),
{
}

/// Whether `v` is floor vertex `k` of a floor with extents `e`: it lies at
/// height zero over corner `k` and carries that corner's colour, decoded
/// through `curve`.
pub open spec fn is_floor_vertex(
    v: WallVertex,
    k: int,
    e: Extents,
    curve: [Scalar; 256],
) -> bool {
    &&& v.position@ == seq![floor_corner(e, k).0, Scalar::spec_zero(), floor_corner(e, k).1]
    &&& v.color@ == decoded(floor_color(k), curve)
}

/// Whether `verts` is a vertex buffer of `level` under `curve`: the vertices
/// of the walls, then the four floor vertices over the extents of the
/// points.
pub open spec fn is_level_buffer(
    verts: Seq<WallVertex>,
    level: LevelView,
    curve: [Scalar; 256],
) -> bool {
    &&& verts.len() == 4 * level.walls.len() + 4
    &&& is_wall_buffer(verts.take(4 * level.walls.len() as int), level.walls, curve)
    &&& forall|k: int|
        0 <= k < 4 ==> is_floor_vertex(
            #[trigger] verts[4 * level.walls.len() + k],
            k,
            extents_of(level.points),
            curve,
        )
}

/// Two vertex buffers built from one level have the same length and the
/// same position in every vertex, and the same colour in the floor
/// vertices: a rebuild can change the colours of wall vertices and nothing
/// else. The index buffer is a function of the number of walls, so a
/// rebuild changes nothing in it.
pub proof fn lemma_rebuild_keeps_positions(
    level: LevelView,
    curve: [Scalar; 256],
    first: Seq<WallVertex>,
    second: Seq<WallVertex>,
    first_indices: Seq<u16>,
    second_indices: Seq<u16>,
)
    requires
        is_level_buffer(first, level, curve),
        is_level_buffer(second, level, curve),
        first_indices == quad_indices(level.walls.len() + 1),
        second_indices == quad_indices(level.walls.len() + 1),
    ensures
        first_indices == second_indices,
        first.len() == second.len(),
        forall|j: int| 0 <= j < first.len() ==> (#[trigger] first[j]).position == second[j].position,
        forall|j: int|
            4 * level.walls.len() <= j < first.len() ==> (#[trigger] first[j]).color
                == second[j].color,
{
    let n = level.walls.len() as int;
    assert forall|j: int| 0 <= j < first.len() implies (#[trigger] first[j]).position
        == second[j].position by {
        if j < 4 * n {
            assert(first.take(4 * n)[j] == first[j]);
            assert(second.take(4 * n)[j] == second[j]);
            assert(level.walls[j / 4].has_vertex(j % 4, first.take(4 * n)[j], curve));
            assert(level.walls[j / 4].has_vertex(j % 4, second.take(4 * n)[j], curve));
        } else {
            let k = j - 4 * n;
            assert(is_floor_vertex(first[4 * n + k], k, extents_of(level.points), curve));
            assert(is_floor_vertex(second[4 * n + k], k, extents_of(level.points), curve));
        }
        assert(first[j].position@ == second[j].position@);
        assert(first[j].position =~= second[j].position);
    }
    assert forall|j: int| 4 * n <= j < first.len() implies (#[trigger] first[j]).color
        == second[j].color by {
        let k = j - 4 * n;
        assert(is_floor_vertex(first[4 * n + k], k, extents_of(level.points), curve));
        assert(is_floor_vertex(second[4 * n + k], k, extents_of(level.points), curve));
        assert(first[j].color =~= second[j].color);
    }
}

/// Whether wall `i` comes before wall `j` when walls are ordered by
/// distance and, among equal distances, by their place in the level.
pub open spec fn comes_before(dists: Seq<Scalar>, i: int, j: int) -> bool {
    dists[i].order_key() < dists[j].order_key() || (dists[i].order_key() == dists[j].order_key()
        && i < j)
}

/// Whether walls `a`, `b`, `c` are, in this order, the first three of the
/// walls ordered by `comes_before`.
pub open spec fn is_nearest_three(dists: Seq<Scalar>, a: int, b: int, c: int) -> bool {
    &&& 0 <= a < dists.len()
    &&& 0 <= b < dists.len()
    &&& 0 <= c < dists.len()
    &&& comes_before(dists, a, b)
    &&& comes_before(dists, b, c)
    &&& forall|j: int|
        0 <= j < dists.len() && j != a && j != b && j != c ==> #[trigger] comes_before(dists, c, j)
}

/// There is one answer only: two triples that are both the nearest three
/// are the same triple.
pub proof fn lemma_nearest_three_unique(
    dists: Seq<Scalar>,
    a: int,
    b: int,
    c: int,
    a2: int,
    b2: int,
    c2: int,
)
    requires
        is_nearest_three(dists, a, b, c),
        is_nearest_three(dists, a2, b2, c2),
    ensures
        a == a2,
        b == b2,
        c == c2,
{
    // A member of one triple that is no member of the other comes after the
    // other's last, and before or at its own last: with the same said the
    // other way round, the two last would each come before the other.
    if a2 != a && a2 != b && a2 != c {
        assert(comes_before(dists, c, a2));
    }
    if b2 != a && b2 != b && b2 != c {
        assert(comes_before(dists, c, b2));
    }
    if c2 != a && c2 != b && c2 != c {
        assert(comes_before(dists, c, c2));
    }
    if a != a2 && a != b2 && a != c2 {
        assert(comes_before(dists, c2, a));
    }
    if b != a2 && b != b2 && b != c2 {
        assert(comes_before(dists, c2, b));
    }
    if c != a2 && c != b2 && c != c2 {
        assert(comes_before(dists, c2, c));
    }
}

/// Whether `order` lists the walls as a stable sort by distance leaves
/// them: every wall once, nearer walls first, and walls at equal distance
/// in the order they have in the level.
pub open spec fn is_stable_order(dists: Seq<Scalar>, order: Seq<int>) -> bool {
    &&& order.len() == dists.len()
    &&& forall|p: int| 0 <= p < order.len() ==> 0 <= #[trigger] order[p] < dists.len()
    &&& forall|i: int| 0 <= i < dists.len() ==> #[trigger] order.contains(i)
    &&& forall|p: int, q: int|
        0 <= p < q < order.len() ==> comes_before(dists, #[trigger] order[p], #[trigger] order[q])
}

/// The nearest three are what a stable sort by distance puts first.
pub proof fn lemma_stable_order_starts_with_nearest(dists: Seq<Scalar>, order: Seq<int>)
    requires
        dists.len() >= 3,
        is_stable_order(dists, order),
    ensures
        is_nearest_three(dists, order[0], order[1], order[2]),
{
    assert(comes_before(dists, order[0], order[1]));
    assert(comes_before(dists, order[1], order[2]));
    assert forall|j: int|
        0 <= j < dists.len() && j != order[0] && j != order[1] && j != order[2] implies #[trigger] comes_before(
        dists,
        order[2],
        j,
    ) by {
        assert(order.contains(j));
        let p = choose|p: int| 0 <= p < order.len() && order[p] == j;
        assert(p > 2);
        assert(comes_before(dists, order[2], order[p]));
    }
}

/// Whether wall `i` comes before wall `j`.
fn precedes(dists: &Vec<Scalar>, i: usize, j: usize) -> (r: bool)
    requires
        i < dists@.len(),
        j < dists@.len(),
    ensures
        r == comes_before(dists@, i as int, j as int),
{
    let a: i64 = dists[i].key();
    let b: i64 = dists[j].key();
    a < b || (a == b && i < j)
}

/// Whether wall `i` is one of the two walls left out of a search.
spec fn left_out(i: int, skip_a: int, skip_b: int) -> bool {
    i == skip_a || i == skip_b
}

/// The wall that comes before every other wall but `skip_a` and `skip_b`.
/// An index past the end leaves nothing out.
fn first_but(dists: &Vec<Scalar>, skip_a: usize, skip_b: usize) -> (best: usize)
    requires
        dists@.len() >= 3,
    ensures
        best < dists@.len(),
        !left_out(best as int, skip_a as int, skip_b as int),
        forall|j: int|
            0 <= j < dists@.len() && !left_out(j, skip_a as int, skip_b as int) && j != best
                ==> #[trigger] comes_before(dists@, best as int, j),
{
    let n: usize = dists.len();
    let mut best: usize = n;
    let mut j: usize = 0;
    while j < n
        invariant
            n == dists@.len(),
            j <= n,
            best <= n,
            best == n ==> forall|i: int|
                0 <= i < j ==> #[trigger] left_out(i, skip_a as int, skip_b as int),
            best < n ==> best < j && !left_out(best as int, skip_a as int, skip_b as int),
            best < n ==> forall|i: int|
                0 <= i < j && !left_out(i, skip_a as int, skip_b as int) && i != best
                    ==> #[trigger] comes_before(dists@, best as int, i),
        decreases n - j,
    {
        if j != skip_a && j != skip_b {
            if best == n {
                best = j;
            } else if precedes(dists, j, best) {
                proof {
                    assert forall|i: int|
                        0 <= i < j && !left_out(
                            i,
                            skip_a as int,
                            skip_b as int,
                        ) implies #[trigger] comes_before(dists@, j as int, i) by {
                        if i != best {
                            assert(comes_before(dists@, best as int, i));
                        }
                    }
                }
                best = j;
            }
        }
        j = j + 1;
    }
    proof {
        if best == n {
            assert(left_out(0, skip_a as int, skip_b as int));
            assert(left_out(1, skip_a as int, skip_b as int));
            assert(left_out(2, skip_a as int, skip_b as int));
        }
    }
    best
}

/// The three walls nearest by the given distances, nearest first; walls at
/// equal distance keep their order in the level. `dists[i]` is the distance
/// of wall `i`.
pub fn nearest_three(dists: &Vec<Scalar>) -> (picks: (usize, usize, usize))
    requires
        dists@.len() >= 3,
        forall|i: int| 0 <= i < dists@.len() ==> !(#[trigger] dists@[i]).spec_is_nan(),
    ensures
        is_nearest_three(dists@, picks.0 as int, picks.1 as int, picks.2 as int),
{
    let n: usize = dists.len();
    let a: usize = first_but(dists, n, n);
    let b: usize = first_but(dists, a, n);
    let c: usize = first_but(dists, a, b);
    proof {
        assert(comes_before(dists@, a as int, b as int));
        assert(comes_before(dists@, b as int, c as int));
        assert forall|j: int|
            0 <= j < dists@.len() && j != a && j != b && j != c implies #[trigger] comes_before(
            dists@,
            c as int,
            j,
        ) by {
            assert(!left_out(j, a as int, b as int));
        }
    }
    (a, b, c)
}

impl Level {
    #[verifier::type_invariant]
    spec fn corners_bound_points(&self) -> bool {
        let e = extents_of(self.points@);
        &&& self.top_left == (e.min_x, e.max_z)
        &&& self.bottom_left == (e.min_x, e.min_z)
        &&& self.bottom_right == (e.max_x, e.min_z)
        &&& self.top_right == (e.max_x, e.max_z)
    }

    /// A level of the given walls, points, scale factor and starting place.
    /// The floor corners are computed from the points.
    pub fn new(
        walls: Vec<Wall>,
        points: Vec<(Scalar, Scalar)>,
        scale_factor: Scalar,
        start_pos: (Scalar, Scalar),
    ) -> (level: Level)
        ensures
            level@.walls == walls@,
            level@.points == points@,
            level@.scale_factor == scale_factor,
            level@.start_pos == start_pos,
    {
        let e = compute_extents(&points);
        Level {
            walls,
            points,
            scale_factor,
            top_left: (e.min_x, e.max_z),
            bottom_left: (e.min_x, e.min_z),
            bottom_right: (e.max_x, e.min_z),
            top_right: (e.max_x, e.max_z),
            start_pos,
        }
    }

    /// The level of an empty input: no walls, no points, and a floor that is
    /// the single point at the origin.
    pub fn empty() -> (level: Level)
        ensures
            level@.walls.len() == 0,
            level@.points.len() == 0,
            level@.scale_factor == Scalar::spec_zero(),
            level@.start_pos == (Scalar::spec_zero(), Scalar::spec_zero()),
            extents_of(level@.points) == (Extents {
                min_x: Scalar::spec_zero(),
                max_x: Scalar::spec_zero(),
                min_z: Scalar::spec_zero(),
                max_z: Scalar::spec_zero(),
            }),
    {
        Level::new(Vec::new(), Vec::new(), Scalar::zero(), (Scalar::zero(), Scalar::zero()))
    }

    /// The walls, in order.
    pub fn walls(&self) -> (walls: &Vec<Wall>)
        ensures
            walls@ == self@.walls,
    {
        &self.walls
    }

    /// The points that the floor bounds.
    pub fn points(&self) -> (points: &Vec<(Scalar, Scalar)>)
        ensures
            points@ == self@.points,
    {
        &self.points
    }

    /// The scale factor, as given.
    pub fn scale_factor(&self) -> (s: Scalar)
        ensures
            s == self@.scale_factor,
    {
        self.scale_factor
    }

    /// The starting place, as given.
    pub fn start_pos(&self) -> (p: (Scalar, Scalar))
        ensures
            p == self@.start_pos,
    {
        self.start_pos
    }

    /// The extents of the floor.
    pub fn extents(&self) -> (e: Extents)
        ensures
            e == extents_of(self@.points),
    {
        proof {
            use_type_invariant(self);
        }
        Extents {
            min_x: self.top_left.0,
            max_x: self.bottom_right.0,
            min_z: self.bottom_right.1,
            max_z: self.top_left.1,
        }
    }

    /// The vertex buffer of the level: the vertices of the walls, then the
    /// four floor vertices at height zero, in the order top-right,
    /// bottom-right, bottom-left, top-left. Floor colours are fixed, not
    /// jittered.
    pub fn all_verts(&self, curve: &[Scalar; 256]) -> (verts: Vec<WallVertex>)
        ensures
            verts@.len() == 4 * self@.walls.len() + 4,
            is_level_buffer(verts@, self@, *curve),
    {
        proof {
            use_type_invariant(self);
        }
        let mut verts: Vec<WallVertex> = wall_vertices(&self.walls, curve);
        let ghost wall_part = verts@;

        let floor_tr = WallVertex::new(
            [self.top_right.0, Scalar::zero(), self.top_right.1],
            hex_as_srgb(FLOOR_TOP_RIGHT, curve),
        );
        let floor_br = WallVertex::new(
            [self.bottom_right.0, Scalar::zero(), self.bottom_right.1],
            hex_as_srgb(FLOOR_BOTTOM_RIGHT, curve),
        );
        let floor_bl = WallVertex::new(
            [self.bottom_left.0, Scalar::zero(), self.bottom_left.1],
            hex_as_srgb(FLOOR_BOTTOM_LEFT, curve),
        );
        let floor_tl = WallVertex::new(
            [self.top_left.0, Scalar::zero(), self.top_left.1],
            hex_as_srgb(FLOOR_TOP_LEFT, curve),
        );
        let ghost e = extents_of(self@.points);
        assert(is_floor_vertex(floor_tr, 0, e, *curve)) by {
            assert(floor_tr.position@ =~= seq![e.max_x, Scalar::spec_zero(), e.max_z]);
        }
        assert(is_floor_vertex(floor_br, 1, e, *curve)) by {
            assert(floor_br.position@ =~= seq![e.max_x, Scalar::spec_zero(), e.min_z]);
        }
        assert(is_floor_vertex(floor_bl, 2, e, *curve)) by {
            assert(floor_bl.position@ =~= seq![e.min_x, Scalar::spec_zero(), e.min_z]);
        }
        assert(is_floor_vertex(floor_tl, 3, e, *curve)) by {
            assert(floor_tl.position@ =~= seq![e.min_x, Scalar::spec_zero(), e.max_z]);
        }

        verts.push(floor_tr);
        verts.push(floor_br);
        verts.push(floor_bl);
        verts.push(floor_tl);
        assert(verts@.take(4 * self@.walls.len() as int) =~= wall_part);
        verts
    }

    /// The index buffer of the level: the indices of the walls, then the
    /// quad pattern of the floor, raised so that it points at the four
    /// vertices after the last one a wall uses. With no walls the floor
    /// pattern stands unraised. Indices are 16 bits wide, which bounds the
    /// number of walls.
    pub fn all_indices(&self) -> (indices: Vec<u16>)
        requires
            self@.walls.len() < MAX_QUADS,
        ensures
            indices@ == quad_indices(self@.walls.len() + 1),
            indices@.len() == 6 * self@.walls.len() + 6,
            forall|j: int|
                0 <= j < indices@.len() ==> #[trigger] indices@[j] < 4 * self@.walls.len() + 4,
    {
        proof {
            lemma_quad_indices_bounds(self@.walls.len() + 1);
        }
        let mut indices: Vec<u16> = wall_indices(&self.walls);
        let ghost n = self.walls@.len();
        let ghost wall_part = indices@;
        let start_idx: u16 = match indices.last() {
            Some(last) => {
                proof {
                    lemma_quad_indices_bounds(n);
                }
                *last + 1
            },
            None => 0,
        };
        assert(start_idx == 4 * n) by {
            lemma_quad_indices_bounds(n);
        }
        let floor_idxs: Vec<u16> = vec![0, 1, 3, 1, 2, 3];
        push_rebased(&mut indices, &floor_idxs, start_idx);
        assert(indices@ =~= quad_indices(n + 1)) by {
            assert forall|j: int| 0 <= j < 6 * (n + 1) implies indices@[j]
                == quad_index(j) as u16 by {
                if j >= 6 * n {
                    let k = j - 6 * n;
                    assert(indices@[wall_part.len() + k] == floor_idxs@[k] + start_idx);
                } else {
                    assert(indices@[j] == wall_part[j]);
                }
            }
        }
        indices
    }

    /// The three walls nearest to a place, nearest first; walls at equal
    /// distance keep their order in the level. `dists[i]` is the distance of
    /// wall `i` from the place, by any measure that grows with the distance.
    /// There must be at least three walls, and every distance a number.
    pub fn closest_walls(&self, dists: &Vec<Scalar>) -> (near: Vec<Wall>)
        requires
            self@.walls.len() >= 3,
            dists@.len() == self@.walls.len(),
            forall|i: int| 0 <= i < dists@.len() ==> !(#[trigger] dists@[i]).spec_is_nan(),
        ensures
            near@.len() == 3,
            exists|a: int, b: int, c: int|
                #[trigger] is_nearest_three(dists@, a, b, c) && near@ == seq![
                    self@.walls[a],
                    self@.walls[b],
                    self@.walls[c],
                ],
    {
        let (a, b, c) = nearest_three(dists);
        let near: Vec<Wall> = vec![self.walls[a], self.walls[b], self.walls[c]];
        assert(near@ =~= seq![self@.walls[a as int], self@.walls[b as int], self@.walls[c as int]]);
        assert(is_nearest_three(dists@, a as int, b as int, c as int));
        near
    }
}

} // verus!
