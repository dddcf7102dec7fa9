//! What holds of the board and its rules whatever the position: facts that
//! the state machine relies on and that callers may rely on too.

use vstd::prelude::*;
use crate::board::{places_upto, moves_from, moves_upto, plies_match, BoardView};
use crate::error::GameError;
use crate::game::spec_switch_player_id;
use crate::mill::Mill;
use crate::mills::{
    mill_stands, standing_upto, standing_mills, capturable, captures_upto, unknown_upto,
};
use crate::ply::{Ply, PlyView};
use crate::topology::{
    on_board, spec_id, spec_index_of, spec_line, spec_connections, lemma_index_of_id, lemma_ids_distinct,
    lemma_index_of_found, lemma_lines_distinct, lemma_adjacency_symmetric,
};

verus! {

/// A value is in a sequence with one more element if it is that element or
/// was in the sequence before.
pub proof fn lemma_push_contains<A>(s: Seq<A>, a: A, x: A)
    ensures
        s.push(a).contains(x) <==> s.contains(x) || x == a,
{
    let t = s.push(a);
    if s.contains(x) {
        let j = choose|j: int| 0 <= j < s.len() && s[j] == x;
        assert(t[j] == x);
    }
    if x == a {
        assert(t[s.len() as int] == x);
    }
    if t.contains(x) {
        let j = choose|j: int| 0 <= j < t.len() && t[j] == x;
        if j < s.len() {
            assert(s[j] == x);
        }
    }
}

/// A value is in the concatenation of two sequences if it is in one of them.
pub proof fn lemma_concat_contains<A>(s: Seq<A>, t: Seq<A>, x: A)
    ensures
        (s + t).contains(x) <==> s.contains(x) || t.contains(x),
{
    let u = s + t;
    if s.contains(x) {
        let j = choose|j: int| 0 <= j < s.len() && s[j] == x;
        assert(u[j] == x);
    }
    if t.contains(x) {
        let j = choose|j: int| 0 <= j < t.len() && t[j] == x;
        assert(u[s.len() + j] == x);
    }
    if u.contains(x) {
        let j = choose|j: int| 0 <= j < u.len() && u[j] == x;
        if j < s.len() {
            assert(s[j] == x);
        } else {
            assert(t[j - s.len()] == x);
        }
    }
}

/// Whether `mill` is line number `k` and stands for `player_id`.
pub open spec fn stands_as_line(pieces: Seq<i8>, player_id: i8, mill: Mill, k: int) -> bool {
    mill == spec_line(k) && mill_stands(pieces, mill, player_id)
}

/// The mills found among the first `n` lines are the lines among them that
/// stand, each listed once.
pub proof fn lemma_standing_members(pieces: Seq<i8>, player_id: i8, n: int)
    requires
        0 <= n <= 16,
    ensures
        standing_upto(pieces, player_id, n).len() <= n,
        standing_upto(pieces, player_id, n).no_duplicates(),
        forall|m: Mill|
            standing_upto(pieces, player_id, n).contains(m) <==> exists|k: int|
                0 <= k < n && #[trigger] stands_as_line(pieces, player_id, m, k),
    decreases n,
{
    if n > 0 {
        lemma_standing_members(pieces, player_id, n - 1);
        let rest = standing_upto(pieces, player_id, n - 1);
        let all = standing_upto(pieces, player_id, n);
        let last = spec_line(n - 1);
        assert forall|m: Mill|
            all.contains(m) <==> exists|k: int|
                0 <= k < n && #[trigger] stands_as_line(pieces, player_id, m, k) by {
            lemma_push_contains(rest, last, m);
            if rest.contains(m) {
                let k = choose|k: int| 0 <= k < n - 1 && stands_as_line(pieces, player_id, m, k);
                assert(stands_as_line(pieces, player_id, m, k));
            }
            if mill_stands(pieces, last, player_id) && m == last {
                assert(stands_as_line(pieces, player_id, m, n - 1));
            }
            if exists|k: int| 0 <= k < n && #[trigger] stands_as_line(pieces, player_id, m, k) {
                let k = choose|k: int| 0 <= k < n && stands_as_line(pieces, player_id, m, k);
                if k < n - 1 {
                    assert(stands_as_line(pieces, player_id, m, k));
                }
            }
        }
        if mill_stands(pieces, last, player_id) {
            if rest.contains(last) {
                let k = choose|k: int| 0 <= k < n - 1 && stands_as_line(pieces, player_id, last, k);
                lemma_lines_distinct(k, n - 1);
            }
            assert forall|i: int, j: int| 0 <= i < all.len() && 0 <= j < all.len() && i != j implies all[i]
                != all[j] by {
                if i < rest.len() && j < rest.len() {
                } else if i < rest.len() {
                    assert(rest[i] == all[i]);
                    assert(rest.contains(all[i]));
                } else {
                    assert(rest[j] == all[j]);
                    assert(rest.contains(all[j]));
                }
            }
        }
    }
}

/// Which mills stand for a player depends only on where that player's
/// pieces are.
pub proof fn lemma_standing_own_pieces(before: Seq<i8>, after: Seq<i8>, player_id: i8, n: int)
    requires
        0 <= n <= 16,
        forall|i: int| 0 <= i < 24 ==> (before[i] == player_id) == (after[i] == player_id),
    ensures
        standing_upto(before, player_id, n) == standing_upto(after, player_id, n),
    decreases n,
{
    if n > 0 {
        lemma_standing_own_pieces(before, after, player_id, n - 1);
        lemma_lines_distinct(n - 1, n - 1);
    }
}

/// Whether `ply` places a piece of `player_id` on the empty position `i`.
pub open spec fn places_at(pieces: Seq<i8>, player_id: i8, ply: PlyView, i: int) -> bool {
    pieces[i] == 0 && ply == (PlyView::Placement { player_id, piece_id: spec_id(i) })
}

/// The placements listed for the first `n` positions are the placements on
/// the empty ones among them.
pub proof fn lemma_places_members(pieces: Seq<i8>, player_id: i8, n: int)
    requires
        0 <= n <= 24,
    ensures
        forall|ply: PlyView|
            places_upto(pieces, player_id, n).contains(ply) <==> exists|i: int|
                0 <= i < n && #[trigger] places_at(pieces, player_id, ply, i),
    decreases n,
{
    if n > 0 {
        lemma_places_members(pieces, player_id, n - 1);
        let rest = places_upto(pieces, player_id, n - 1);
        let all = places_upto(pieces, player_id, n);
        let last = PlyView::Placement { player_id, piece_id: spec_id(n - 1) };
        assert forall|ply: PlyView|
            all.contains(ply) <==> exists|i: int|
                0 <= i < n && #[trigger] places_at(pieces, player_id, ply, i) by {
            lemma_push_contains(rest, last, ply);
            if rest.contains(ply) {
                let i = choose|i: int| 0 <= i < n - 1 && places_at(pieces, player_id, ply, i);
                assert(places_at(pieces, player_id, ply, i));
            }
            if pieces[n - 1] == 0 && ply == last {
                assert(places_at(pieces, player_id, ply, n - 1));
            }
            if exists|i: int| 0 <= i < n && #[trigger] places_at(pieces, player_id, ply, i) {
                let i = choose|i: int| 0 <= i < n && places_at(pieces, player_id, ply, i);
                if i < n - 1 {
                    assert(places_at(pieces, player_id, ply, i));
                }
            }
        }
    }
}

/// Whether `ply` moves a piece of `player_id` from position `from` along its
/// connection number `k` to an empty position.
pub open spec fn moves_along(pieces: Seq<i8>, player_id: i8, ply: PlyView, from: int, k: int) -> bool {
    let to = spec_connections(from)[k] as int;
    pieces[to] == 0 && ply == (PlyView::Move { player_id, from: spec_id(from), to: spec_id(to) })
}

/// The moves listed for position `from` along its first `n` connections are
/// the moves along those of them that end on an empty position.
pub proof fn lemma_moves_from_members(pieces: Seq<i8>, player_id: i8, from: int, n: int)
    requires
        0 <= n <= spec_connections(from).len(),
    ensures
        forall|ply: PlyView|
            moves_from(pieces, player_id, from, n).contains(ply) <==> exists|k: int|
                0 <= k < n && #[trigger] moves_along(pieces, player_id, ply, from, k),
    decreases n,
{
    if n > 0 {
        lemma_moves_from_members(pieces, player_id, from, n - 1);
        let rest = moves_from(pieces, player_id, from, n - 1);
        let all = moves_from(pieces, player_id, from, n);
        let to = spec_connections(from)[n - 1] as int;
        let last = PlyView::Move { player_id, from: spec_id(from), to: spec_id(to) };
        assert forall|ply: PlyView|
            all.contains(ply) <==> exists|k: int|
                0 <= k < n && #[trigger] moves_along(pieces, player_id, ply, from, k) by {
            lemma_push_contains(rest, last, ply);
            if rest.contains(ply) {
                let k = choose|k: int| 0 <= k < n - 1 && moves_along(pieces, player_id, ply, from, k);
                assert(moves_along(pieces, player_id, ply, from, k));
            }
            if pieces[to] == 0 && ply == last {
                assert(moves_along(pieces, player_id, ply, from, n - 1));
            }
            if exists|k: int| 0 <= k < n && #[trigger] moves_along(pieces, player_id, ply, from, k) {
                let k = choose|k: int| 0 <= k < n && moves_along(pieces, player_id, ply, from, k);
                if k < n - 1 {
                    assert(moves_along(pieces, player_id, ply, from, k));
                }
            }
        }
    }
}

/// Whether `ply` is a step that `player_id` may take from position `from` to
/// position `to`.
pub open spec fn moves_between(pieces: Seq<i8>, player_id: i8, ply: PlyView, from: int, to: int) -> bool {
    &&& on_board(from)
    &&& on_board(to)
    &&& pieces[from] == player_id
    &&& pieces[to] == 0
    &&& spec_connections(from).contains(to as usize)
    &&& ply == (PlyView::Move { player_id, from: spec_id(from), to: spec_id(to) })
}

/// Whether `ply` is a step that `player_id` may take from position `from`.
pub open spec fn moves_out_of(pieces: Seq<i8>, player_id: i8, ply: PlyView, from: int) -> bool {
    exists|to: int| #[trigger] moves_between(pieces, player_id, ply, from, to)
}

/// The moves listed for the first `n` positions are the steps that the
/// player may take from one of them.
pub proof fn lemma_moves_members(pieces: Seq<i8>, player_id: i8, n: int)
    requires
        0 <= n <= 24,
    ensures
        forall|ply: PlyView|
            moves_upto(pieces, player_id, n).contains(ply) <==> exists|from: int|
                0 <= from < n && #[trigger] moves_out_of(pieces, player_id, ply, from),
    decreases n,
{
    if n > 0 {
        lemma_moves_members(pieces, player_id, n - 1);
        let from = n - 1;
        let links = spec_connections(from);
        let rest = moves_upto(pieces, player_id, n - 1);
        let here = moves_from(pieces, player_id, from, links.len() as int);
        let all = moves_upto(pieces, player_id, n);
        lemma_moves_from_members(pieces, player_id, from, links.len() as int);
        lemma_adjacency_symmetric(from, from);
        assert forall|ply: PlyView|
            all.contains(ply) <==> exists|f: int|
                0 <= f < n && #[trigger] moves_out_of(pieces, player_id, ply, f) by {
            lemma_concat_contains(rest, here, ply);
            if rest.contains(ply) {
                let f = choose|f: int| 0 <= f < n - 1 && moves_out_of(pieces, player_id, ply, f);
                assert(moves_out_of(pieces, player_id, ply, f));
            }
            if pieces[from] == player_id && here.contains(ply) {
                let k = choose|k: int|
                    0 <= k < links.len() && moves_along(pieces, player_id, ply, from, k);
                let to = links[k] as int;
                assert(on_board(links[k] as int));
                assert(links.contains(to as usize));
                assert(moves_between(pieces, player_id, ply, from, to));
                assert(moves_out_of(pieces, player_id, ply, from));
            }
            if exists|f: int| 0 <= f < n && #[trigger] moves_out_of(pieces, player_id, ply, f) {
                let f = choose|f: int| 0 <= f < n && moves_out_of(pieces, player_id, ply, f);
                if f < n - 1 {
                    assert(moves_out_of(pieces, player_id, ply, f));
                } else {
                    let to = choose|to: int| moves_between(pieces, player_id, ply, from, to);
                    let k = choose|k: int| 0 <= k < links.len() && links[k] == to as usize;
                    assert(moves_along(pieces, player_id, ply, from, k));
                    assert(here.contains(ply));
                }
            }
        }
    }
}

/// Whether `ply` takes for `capturer_id` the piece of `victim_id` on position
/// `i`, and that piece may be taken.
pub open spec fn captures_at(
    pieces: Seq<i8>,
    capturer_id: i8,
    victim_id: i8,
    ply: PlyView,
    i: int,
) -> bool {
    capturable(pieces, victim_id, i) && ply == (PlyView::Mill {
        player_id: capturer_id,
        piece_id: spec_id(i),
    })
}

/// The captures listed for the first `n` positions are the captures of the
/// pieces on them that may be taken.
pub proof fn lemma_captures_members(pieces: Seq<i8>, capturer_id: i8, victim_id: i8, n: int)
    requires
        0 <= n <= 24,
    ensures
        forall|ply: PlyView|
            captures_upto(pieces, capturer_id, victim_id, n).contains(ply) <==> exists|i: int|
                0 <= i < n && #[trigger] captures_at(pieces, capturer_id, victim_id, ply, i),
    decreases n,
{
    if n > 0 {
        lemma_captures_members(pieces, capturer_id, victim_id, n - 1);
        let rest = captures_upto(pieces, capturer_id, victim_id, n - 1);
        let all = captures_upto(pieces, capturer_id, victim_id, n);
        let last = PlyView::Mill { player_id: capturer_id, piece_id: spec_id(n - 1) };
        assert forall|ply: PlyView|
            all.contains(ply) <==> exists|i: int|
                0 <= i < n && #[trigger] captures_at(pieces, capturer_id, victim_id, ply, i) by {
            lemma_push_contains(rest, last, ply);
            if rest.contains(ply) {
                let i = choose|i: int|
                    0 <= i < n - 1 && captures_at(pieces, capturer_id, victim_id, ply, i);
                assert(captures_at(pieces, capturer_id, victim_id, ply, i));
            }
            if capturable(pieces, victim_id, n - 1) && ply == last {
                assert(captures_at(pieces, capturer_id, victim_id, ply, n - 1));
            }
            if exists|i: int|
                0 <= i < n && #[trigger] captures_at(pieces, capturer_id, victim_id, ply, i) {
                let i = choose|i: int|
                    0 <= i < n && captures_at(pieces, capturer_id, victim_id, ply, i);
                if i < n - 1 {
                    assert(captures_at(pieces, capturer_id, victim_id, ply, i));
                }
            }
        }
    }
}

/// The number of pieces of `player_id` on the first `n` positions.
pub open spec fn count_upto(pieces: Seq<i8>, player_id: i8, n: int) -> nat
    decreases n,
{
    if n <= 0 {
        0
    } else {
        count_upto(pieces, player_id, n - 1) + if pieces[n - 1] == player_id {
            1nat
        } else {
            0nat
        }
    }
}

/// The number of pieces of `player_id` on the board.
pub open spec fn piece_count(pieces: Seq<i8>, player_id: i8) -> nat {
    count_upto(pieces, player_id, 24)
}

/// Changing the occupant of one position changes a player's number of
/// pieces by what left and what came.
pub proof fn lemma_count_update(pieces: Seq<i8>, i: int, piece: i8, player_id: i8, n: int)
    requires
        0 <= i < pieces.len(),
        0 <= n <= pieces.len(),
    ensures
        count_upto(pieces.update(i, piece), player_id, n) + (if i < n && pieces[i] == player_id {
            1nat
        } else {
            0nat
        }) == count_upto(pieces, player_id, n) + (if i < n && piece == player_id {
            1nat
        } else {
            0nat
        }),
    decreases n,
{
    if n > 0 {
        lemma_count_update(pieces, i, piece, player_id, n - 1);
    }
}

/// On a board without any piece of `player_id`, the player has no piece
/// and holds no mill.
pub proof fn lemma_nothing_without_pieces(pieces: Seq<i8>, player_id: i8, n: int)
    requires
        0 <= n <= 24,
        pieces.len() == 24,
        forall|i: int| 0 <= i < 24 ==> pieces[i] != player_id,
    ensures
        count_upto(pieces, player_id, n) == 0,
        n <= 16 ==> standing_upto(pieces, player_id, n) == Seq::<Mill>::empty(),
    decreases n,
{
    if n > 0 {
        lemma_nothing_without_pieces(pieces, player_id, n - 1);
        if n <= 16 {
            lemma_lines_distinct(n - 1, n - 1);
        }
    }
}

/// When the pieces of `player_id` stand on one line of the board and nowhere
/// else, that line is the one mill that stands for the player.
pub proof fn lemma_single_line(pieces: Seq<i8>, player_id: i8, k: int)
    requires
        pieces.len() == 24,
        0 <= k < 16,
        forall|i: int|
            0 <= i < 24 ==> (pieces[i] == player_id <==> spec_line(k).spec_contains(i as usize)),
    ensures
        standing_mills(pieces, player_id) == seq![spec_line(k)],
{
    let found = standing_mills(pieces, player_id);
    let only = spec_line(k);
    lemma_standing_members(pieces, player_id, 16);
    lemma_lines_distinct(k, k);
    assert(stands_as_line(pieces, player_id, only, k));
    assert(found.contains(only));
    assert forall|j: int| 0 <= j < found.len() implies found[j] == only by {
        let m = found[j];
        assert(found.contains(m));
        let l = choose|l: int| 0 <= l < 16 && stands_as_line(pieces, player_id, m, l);
        lemma_lines_distinct(k, l);
    }
    if found.len() > 1 {
        assert(found[0] == found[1]);
    }
    assert(found =~= seq![only]);
}

/// A move that the board accepts can be taken back: moving the piece from
/// its destination to its origin is accepted too and restores the board.
pub proof fn lemma_move_round_trip(board: BoardView, player_id: i8, from: Seq<char>, to: Seq<char>)
    requires
        board.pieces.len() == 24,
        board.move_piece(player_id, from, to) is Ok,
    ensures
        board.move_piece(player_id, from, to)->Ok_0.move_piece(player_id, to, from) == Ok::<
            BoardView,
            GameError,
        >(board),
{
    let f = spec_index_of(from)->0 as int;
    let t = spec_index_of(to)->0 as int;
    lemma_index_of_found(from);
    lemma_index_of_found(to);
    lemma_adjacency_symmetric(f, t);
    lemma_adjacency_symmetric(f, f);
    let moved = board.move_piece(player_id, from, to)->Ok_0;
    assert(f != t);
    assert(moved.can_move(player_id, t, f));
    let back = moved.move_piece(player_id, to, from)->Ok_0;
    assert(back.pieces =~= board.pieces);
}

/// The board accepts a move exactly when the move is among the moves it
/// lists for the player.
pub proof fn lemma_moves_are_the_legal_moves(board: BoardView, player_id: i8, from: Seq<char>, to: Seq<char>)
    requires
        board.pieces.len() == 24,
    ensures
        board.move_piece(player_id, from, to) is Ok <==> board.available_moves(player_id).contains(
            PlyView::Move { player_id, from, to },
        ),
{
    let ply = PlyView::Move { player_id, from, to };
    lemma_moves_members(board.pieces, player_id, 24);
    if board.move_piece(player_id, from, to) is Ok {
        let f = spec_index_of(from)->0 as int;
        let t = spec_index_of(to)->0 as int;
        lemma_index_of_found(from);
        lemma_index_of_found(to);
        assert(moves_between(board.pieces, player_id, ply, f, t));
        assert(moves_out_of(board.pieces, player_id, ply, f));
    }
    if board.available_moves(player_id).contains(ply) {
        let f = choose|f: int| 0 <= f < 24 && moves_out_of(board.pieces, player_id, ply, f);
        let t = choose|t: int| moves_between(board.pieces, player_id, ply, f, t);
        lemma_index_of_id(f);
        lemma_index_of_id(t);
    }
}

/// The board accepts a placement exactly when the placement is among the
/// placements it lists for the player.
pub proof fn lemma_places_are_the_legal_places(board: BoardView, player_id: i8, id: Seq<char>)
    requires
        board.pieces.len() == 24,
    ensures
        board.place(player_id, id) is Ok <==> board.available_places(player_id).contains(
            PlyView::Placement { player_id, piece_id: id },
        ),
{
    let ply = PlyView::Placement { player_id, piece_id: id };
    lemma_places_members(board.pieces, player_id, 24);
    if board.place(player_id, id) is Ok {
        let i = spec_index_of(id)->0 as int;
        lemma_index_of_found(id);
        assert(places_at(board.pieces, player_id, ply, i));
    }
    if board.available_places(player_id).contains(ply) {
        let i = choose|i: int| 0 <= i < 24 && places_at(board.pieces, player_id, ply, i);
        lemma_index_of_id(i);
    }
}

/// The board accepts a capture exactly when the capture is among the
/// captures it lists for the player against the opponent.
pub proof fn lemma_mills_are_the_legal_mills(board: BoardView, player_id: i8, id: Seq<char>)
    requires
        board.pieces.len() == 24,
    ensures
        board.perform_mill(player_id, id) is Ok <==> board.available_mills(
            player_id,
            spec_switch_player_id(player_id),
        ).contains(PlyView::Mill { player_id, piece_id: id }),
{
    let victim_id = spec_switch_player_id(player_id);
    let ply = PlyView::Mill { player_id, piece_id: id };
    lemma_captures_members(board.pieces, player_id, victim_id, 24);
    if board.perform_mill(player_id, id) is Ok {
        let i = spec_index_of(id)->0 as int;
        lemma_index_of_found(id);
        assert(captures_at(board.pieces, player_id, victim_id, ply, i));
    }
    if board.available_mills(player_id, victim_id).contains(ply) {
        let i = choose|i: int|
            0 <= i < 24 && captures_at(board.pieces, player_id, victim_id, ply, i);
        lemma_index_of_id(i);
    }
}

/// After a piece of `player_id` left position `i`, the mills that stand for
/// the player are those that stood before and still stand.
pub proof fn lemma_standing_after_removal(pieces: Seq<i8>, player_id: i8, i: int)
    requires
        pieces.len() == 24,
        0 <= i < 24,
        player_id != 0,
    ensures
        standing_mills(pieces.update(i, 0), player_id).to_set() == standing_mills(
            pieces,
            player_id,
        ).to_set().filter(|m: Mill| mill_stands(pieces.update(i, 0), m, player_id)),
{
    let after = pieces.update(i, 0);
    let left = standing_mills(after, player_id).to_set();
    let stands = |m: Mill| mill_stands(after, m, player_id);
    let right = standing_mills(pieces, player_id).to_set().filter(stands);
    lemma_standing_members(pieces, player_id, 16);
    lemma_standing_members(after, player_id, 16);
    assert forall|m: Mill| left.contains(m) <==> right.contains(m) by {
        if left.contains(m) {
            assert(standing_mills(after, player_id).contains(m));
            let k = choose|k: int| 0 <= k < 16 && stands_as_line(after, player_id, m, k);
            assert(stands_as_line(pieces, player_id, m, k));
            assert(standing_mills(pieces, player_id).contains(m));
        }
        if right.contains(m) {
            assert(standing_mills(pieces, player_id).contains(m));
            let k = choose|k: int| 0 <= k < 16 && stands_as_line(pieces, player_id, m, k);
            assert(stands_as_line(after, player_id, m, k));
        }
    }
    assert(left =~= right);
}

/// Asking a board twice for the moves open to a player gives the same plies
/// in the same order, as long as the board is not changed in between.
pub proof fn lemma_available_moves_repeatable(
    board: BoardView,
    player_id: i8,
    first: Seq<Ply>,
    second: Seq<Ply>,
)
    requires
        plies_match(first, board.available_moves(player_id)),
        plies_match(second, board.available_moves(player_id)),
    ensures
        first.len() == second.len(),
        forall|k: int| 0 <= k < first.len() ==> (#[trigger] first[k])@ == second[k]@,
{
}

/// The placements open on the first `n` positions are as many as the empty
/// positions among them, and no two of them are the same.
pub proof fn lemma_places_count(pieces: Seq<i8>, player_id: i8, n: int)
    requires
        0 <= n <= 24,
    ensures
        places_upto(pieces, player_id, n).len() == count_upto(pieces, 0, n),
        places_upto(pieces, player_id, n).no_duplicates(),
    decreases n,
{
    if n > 0 {
        lemma_places_count(pieces, player_id, n - 1);
        lemma_places_members(pieces, player_id, n - 1);
        let rest = places_upto(pieces, player_id, n - 1);
        let all = places_upto(pieces, player_id, n);
        let last = PlyView::Placement { player_id, piece_id: spec_id(n - 1) };
        if pieces[n - 1] == 0 {
            if rest.contains(last) {
                let i = choose|i: int| 0 <= i < n - 1 && places_at(pieces, player_id, last, i);
                lemma_ids_distinct(i, n - 1);
            }
            assert forall|i: int, j: int| 0 <= i < all.len() && 0 <= j < all.len() && i != j implies all[i]
                != all[j] by {
                if i < rest.len() && j < rest.len() {
                } else if i < rest.len() {
                    assert(rest[i] == all[i]);
                    assert(rest.contains(all[i]));
                } else {
                    assert(rest[j] == all[j]);
                    assert(rest.contains(all[j]));
                }
            }
        }
    }
}

/// A ply cannot close more mills than the board has lines.
pub proof fn lemma_new_mills_bound(pieces: Seq<i8>, player_id: i8, known: Set<Mill>)
    ensures
        unknown_upto(
            standing_mills(pieces, player_id),
            known,
            standing_mills(pieces, player_id).len() as int,
        ).len() <= 16,
{
    let found = standing_mills(pieces, player_id);
    lemma_standing_members(pieces, player_id, 16);
    lemma_unknown_bound(found, known, found.len() as int);
}

/// Leaving out the known mills makes a list no longer.
pub proof fn lemma_unknown_bound(found: Seq<Mill>, known: Set<Mill>, n: int)
    requires
        0 <= n <= found.len(),
    ensures
        unknown_upto(found, known, n).len() <= n,
    decreases n,
{
    if n > 0 {
        lemma_unknown_bound(found, known, n - 1);
    }
}

} // verus!
