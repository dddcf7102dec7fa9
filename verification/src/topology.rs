//! The fixed shape of the board, as mathematics.
//!
//! The 24 positions are numbered layer by layer, from the outer square
//! (layer 0) to the inner one (layer 2). Within a layer the four corners come
//! first, then the four midpoints: north-west, north-east, south-west,
//! south-east, north, east, south, west.

use vstd::prelude::*;
use crate::direction::Direction;
use crate::mill::Mill;
use crate::position::link_seq;

verus! {

/// Number of positions on the board.
pub const POSITION_COUNT: usize = 24;

/// Number of lines of three on the board.
pub const LINE_COUNT: usize = 16;

/// The layer of position `i`: 0 is the outer square, 2 the inner one.
pub open spec fn layer_of(i: int) -> int {
    i / 8
}

/// The point of position `i` within its layer: 0 to 3 are the corners
/// nw, ne, sw, se and 4 to 7 the midpoints n, e, s, w.
pub open spec fn point_of(i: int) -> int {
    i % 8
}

/// Whether `i` is the index of a position.
pub open spec fn on_board(i: int) -> bool {
    0 <= i < 24
}

/// The compass part of a position id, for a point within a layer.
pub open spec fn point_name(point: int) -> Seq<char> {
    if point == 0 {
        seq!['n', 'w']
    } else if point == 1 {
        seq!['n', 'e']
    } else if point == 2 {
        seq!['s', 'w']
    } else if point == 3 {
        seq!['s', 'e']
    } else if point == 4 {
        seq!['n']
    } else if point == 5 {
        seq!['e']
    } else if point == 6 {
        seq!['s']
    } else {
        seq!['w']
    }
}

/// The digit that names a layer.
pub open spec fn layer_digit(layer: int) -> char {
    if layer == 0 {
        '0'
    } else if layer == 1 {
        '1'
    } else {
        '2'
    }
}

/// The textual id of position `i`: the layer digit followed by the compass
/// point, as in `0nw` or `2s`.
pub open spec fn spec_id(i: int) -> Seq<char> {
    seq![layer_digit(layer_of(i))] + point_name(point_of(i))
}

/// Whether corner `c` and midpoint `m` lie in one layer with `m` next to `c`.
pub open spec fn ring_adjacent(c: int, m: int) -> bool {
    let pc = point_of(c);
    let pm = point_of(m);
    &&& layer_of(c) == layer_of(m)
    &&& {
        ||| pc == 0 && (pm == 4 || pm == 7)
        ||| pc == 1 && (pm == 4 || pm == 5)
        ||| pc == 2 && (pm == 7 || pm == 6)
        ||| pc == 3 && (pm == 5 || pm == 6)
    }
}

/// Whether `a` and `b` are the same midpoint in two layers next to each other.
pub open spec fn spoke_adjacent(a: int, b: int) -> bool {
    &&& point_of(a) >= 4
    &&& point_of(a) == point_of(b)
    &&& (layer_of(a) == layer_of(b) + 1 || layer_of(b) == layer_of(a) + 1)
}

/// Whether a piece can step from `a` to `b`: a corner and a midpoint next to
/// it on the same square, or the same midpoint of two neighbouring squares.
pub open spec fn adjacent(a: int, b: int) -> bool {
    &&& on_board(a)
    &&& on_board(b)
    &&& (ring_adjacent(a, b) || ring_adjacent(b, a) || spoke_adjacent(a, b))
}

/// The link from midpoint `i` to the same midpoint one square further out.
pub open spec fn outer_link(i: int) -> Option<usize> {
    if layer_of(i) > 0 {
        Some((i - 8) as usize)
    } else {
        None
    }
}

/// The link from midpoint `i` to the same midpoint one square further in.
pub open spec fn inner_link(i: int) -> Option<usize> {
    if layer_of(i) < 2 {
        Some((i + 8) as usize)
    } else {
        None
    }
}

/// The position within the layer of `i` that has point `point`.
pub open spec fn in_layer(i: int, point: int) -> usize {
    (8 * layer_of(i) + point) as usize
}

/// The neighbour of position `i` in `direction`, if the board has one there.
pub open spec fn spec_neighbour(i: int, direction: Direction) -> Option<usize> {
    let p = point_of(i);
    match direction {
        Direction::North => if p == 2 {
            Some(in_layer(i, 7))
        } else if p == 3 {
            Some(in_layer(i, 5))
        } else if p == 4 {
            outer_link(i)
        } else if p == 5 {
            Some(in_layer(i, 1))
        } else if p == 6 {
            inner_link(i)
        } else if p == 7 {
            Some(in_layer(i, 0))
        } else {
            None
        },
        Direction::East => if p == 0 {
            Some(in_layer(i, 4))
        } else if p == 2 {
            Some(in_layer(i, 6))
        } else if p == 4 {
            Some(in_layer(i, 1))
        } else if p == 5 {
            outer_link(i)
        } else if p == 6 {
            Some(in_layer(i, 3))
        } else if p == 7 {
            inner_link(i)
        } else {
            None
        },
        Direction::South => if p == 0 {
            Some(in_layer(i, 7))
        } else if p == 1 {
            Some(in_layer(i, 5))
        } else if p == 4 {
            inner_link(i)
        } else if p == 5 {
            Some(in_layer(i, 3))
        } else if p == 6 {
            outer_link(i)
        } else if p == 7 {
            Some(in_layer(i, 2))
        } else {
            None
        },
        Direction::West => if p == 1 {
            Some(in_layer(i, 4))
        } else if p == 3 {
            Some(in_layer(i, 6))
        } else if p == 4 {
            Some(in_layer(i, 0))
        } else if p == 5 {
            inner_link(i)
        } else if p == 6 {
            Some(in_layer(i, 2))
        } else if p == 7 {
            outer_link(i)
        } else {
            None
        },
    }
}

/// The links of position `i` within its own layer, and, for a midpoint of a
/// layer that is not the outer one, the link outwards, in the order in which
/// the board lists them.
pub open spec fn spec_own_connections(i: int) -> Seq<usize> {
    let p = point_of(i);
    if p == 0 {
        seq![in_layer(i, 4), in_layer(i, 7)]
    } else if p == 1 {
        seq![in_layer(i, 4), in_layer(i, 5)]
    } else if p == 2 {
        seq![in_layer(i, 7), in_layer(i, 6)]
    } else if p == 3 {
        seq![in_layer(i, 5), in_layer(i, 6)]
    } else if p == 4 {
        link_seq(outer_link(i)) + seq![in_layer(i, 1), in_layer(i, 0)]
    } else if p == 5 {
        seq![in_layer(i, 1)] + link_seq(outer_link(i)) + seq![in_layer(i, 3)]
    } else if p == 6 {
        seq![in_layer(i, 3)] + link_seq(outer_link(i)) + seq![in_layer(i, 2)]
    } else {
        seq![in_layer(i, 0), in_layer(i, 2)] + link_seq(outer_link(i))
    }
}

/// The ordered list of the positions next to position `i`. A midpoint lists
/// its link inwards last.
pub open spec fn spec_connections(i: int) -> Seq<usize> {
    if point_of(i) >= 4 {
        spec_own_connections(i) + link_seq(inner_link(i))
    } else {
        spec_own_connections(i)
    }
}

/// The line along side `side` of square `layer`.
pub open spec fn spec_ring_line(layer: int, side: Direction) -> Mill {
    let b = 8 * layer;
    match side {
        Direction::North => Mill {
            first: (b + 1) as usize,
            second: (b + 4) as usize,
            third: b as usize,
        },
        Direction::East => Mill {
            first: (b + 1) as usize,
            second: (b + 5) as usize,
            third: (b + 3) as usize,
        },
        Direction::South => Mill {
            first: (b + 3) as usize,
            second: (b + 6) as usize,
            third: (b + 2) as usize,
        },
        Direction::West => Mill {
            first: b as usize,
            second: (b + 7) as usize,
            third: (b + 2) as usize,
        },
    }
}

/// The line through the three midpoints that lie in direction `spoke` of the
/// centre.
pub open spec fn spec_spoke_line(spoke: Direction) -> Mill {
    let d = spoke.ordinal();
    Mill { first: (4 + d) as usize, second: (12 + d) as usize, third: (20 + d) as usize }
}

/// The direction with the given ordinal.
pub open spec fn direction_at(ordinal: int) -> Direction {
    if ordinal == 0 {
        Direction::North
    } else if ordinal == 1 {
        Direction::East
    } else if ordinal == 2 {
        Direction::South
    } else {
        Direction::West
    }
}

/// Line number `k` of the board: the twelve ring lines, square by square and
/// side by side, then the four spoke lines.
pub open spec fn spec_line(k: int) -> Mill {
    if k < 12 {
        spec_ring_line(k / 4, direction_at(k % 4))
    } else {
        spec_spoke_line(direction_at(k - 12))
    }
}

/// The connections of a position are exactly the positions adjacent to it.
pub proof fn lemma_connections_are_adjacent(a: int, b: int)
    requires
        on_board(a),
        0 <= b <= usize::MAX,
    ensures
        spec_connections(a).contains(b as usize) <==> adjacent(a, b),
{
    let s = spec_connections(a);
    let p = point_of(a);
    let own = spec_own_connections(a);
    if s.contains(b as usize) {
        let j = choose|j: int| 0 <= j < s.len() && s[j] == b as usize;
        assert(adjacent(a, b));
    }
    if adjacent(a, b) {
        if p < 4 {
            assert(s[0] == b as usize || s[1] == b as usize);
        } else {
            assert(s[0] == b as usize || s[1] == b as usize || s[2] == b as usize || (s.len() == 4
                && s[3] == b as usize));
        }
    }
}

/// Every position has a neighbour, every neighbour is a position, and
/// adjacency goes both ways.
pub proof fn lemma_adjacency_symmetric(a: int, b: int)
    requires
        on_board(a),
        on_board(b),
    ensures
        spec_connections(a).len() > 0,
        forall|j: int| 0 <= j < spec_connections(a).len() ==> on_board(#[trigger] spec_connections(a)[j] as int),
        spec_connections(a).contains(b as usize) <==> spec_connections(b).contains(a as usize),
{
    lemma_connections_are_adjacent(a, b);
    lemma_connections_are_adjacent(b, a);
}

/// Each of the sixteen lines holds three different positions of the board,
/// and no two lines hold the same three positions.
pub proof fn lemma_lines_distinct(k: int, l: int)
    requires
        0 <= k < 16,
        0 <= l < 16,
    ensures
        on_board(spec_line(k).first as int),
        on_board(spec_line(k).second as int),
        on_board(spec_line(k).third as int),
        spec_line(k).first != spec_line(k).second,
        spec_line(k).first != spec_line(k).third,
        spec_line(k).second != spec_line(k).third,
        k != l ==> spec_line(k) != spec_line(l),
        k != l ==> !(spec_line(k).spec_contains(spec_line(l).first) && spec_line(k).spec_contains(
            spec_line(l).second) && spec_line(k).spec_contains(spec_line(l).third)),
{
}

/// The number of a line through position `i`: the ring line on whose side the
/// position lies (for a corner, the northern or southern one).
pub open spec fn line_through(i: int) -> int {
    let p = point_of(i);
    let side: int = if p == 0 || p == 1 || p == 4 {
        0
    } else if p == 5 {
        1
    } else if p == 2 || p == 3 || p == 6 {
        2
    } else {
        3
    };
    4 * layer_of(i) + side
}

/// Every position lies on at least one of the sixteen lines.
pub proof fn lemma_lines_cover(i: int)
    requires
        on_board(i),
    ensures
        0 <= line_through(i) < 16,
        spec_line(line_through(i)).spec_contains(i as usize),
{
}

/// Whether `id` is the id of one of the 24 positions.
pub open spec fn is_position_id(id: Seq<char>) -> bool {
    exists|i: int| on_board(i) && spec_id(i) == id
}

/// The index of the position whose id is `id`, if there is one.
pub open spec fn spec_index_of(id: Seq<char>) -> Option<usize> {
    if is_position_id(id) {
        Some((choose|i: int| on_board(i) && spec_id(i) == id) as usize)
    } else {
        None
    }
}

/// No two positions share an id.
pub proof fn lemma_ids_distinct(i: int, j: int)
    requires
        on_board(i),
        on_board(j),
        spec_id(i) == spec_id(j),
    ensures
        i == j,
{
    let a = spec_id(i);
    let b = spec_id(j);
    assert(a[0] == b[0]);
    assert(a.len() == b.len());
    assert(a[1] == b[1]);
    if a.len() > 2 {
        assert(a[2] == b[2]);
    }
    assert(layer_of(i) == layer_of(j));
    assert(point_of(i) == point_of(j));
}

/// The id of a position leads back to its index.
pub proof fn lemma_index_of_id(i: int)
    requires
        on_board(i),
    ensures
        spec_index_of(spec_id(i)) == Some(i as usize),
{
    let j = choose|j: int| on_board(j) && spec_id(j) == spec_id(i);
    lemma_ids_distinct(i, j);
}

/// An index found for an id is the index of the position with that id.
pub proof fn lemma_index_of_found(id: Seq<char>)
    requires
        spec_index_of(id) is Some,
    ensures
        on_board(spec_index_of(id)->0 as int),
        spec_id(spec_index_of(id)->0 as int) == id,
{
}

} // verus!
