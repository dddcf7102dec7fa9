//! The board: an arena of 24 positions and, for each player, the mills that
//! the player was last seen to hold.

use vstd::prelude::*;
use crate::direction::Direction;
use crate::error::GameError;
use crate::mill::Mill;
use crate::ply::{Ply, PlyView};
use crate::position::{Position, PositionView};
use crate::topology::{
    layer_of, point_of, on_board, spec_id, spec_neighbour, spec_connections, spec_own_connections,
    layer_digit, point_name, spec_index_of, lemma_index_of_id, lemma_adjacency_symmetric,
    POSITION_COUNT,
};

verus! {

/// The board as plain mathematical values.
pub struct BoardView {
    /// The occupant of each of the 24 positions: `0` for none, otherwise the
    /// id of the owning player.
    pub pieces: Seq<i8>,
    /// The mills that player 1 was last seen to hold.
    pub p1_mills: Set<Mill>,
    /// The mills that player 2 was last seen to hold.
    pub p2_mills: Set<Mill>,
}

impl BoardView {
    /// The board before the first ply: no piece, no mill.
    pub open spec fn empty() -> BoardView {
        BoardView {
            pieces: Seq::new(24, |i: int| 0i8),
            p1_mills: Set::empty(),
            p2_mills: Set::empty(),
        }
    }

    /// The mills that `player_id` was last seen to hold.
    pub open spec fn held_mills(self, player_id: i8) -> Set<Mill> {
        if player_id == 1 {
            self.p1_mills
        } else {
            self.p2_mills
        }
    }

    /// This board with `mills` recorded as held by `player_id`.
    pub open spec fn with_held_mills(self, player_id: i8, mills: Set<Mill>) -> BoardView {
        if player_id == 1 {
            BoardView { p1_mills: mills, ..self }
        } else {
            BoardView { p2_mills: mills, ..self }
        }
    }

    /// This board with `piece` standing on position `i`.
    pub open spec fn with_piece(self, i: int, piece: i8) -> BoardView {
        BoardView { pieces: self.pieces.update(i, piece), ..self }
    }
}

/// The placements open on the first `n` positions: one for each empty
/// position, in the order of the board.
pub open spec fn places_upto(pieces: Seq<i8>, player_id: i8, n: int) -> Seq<PlyView>
    decreases n,
{
    if n <= 0 {
        Seq::empty()
    } else {
        let rest = places_upto(pieces, player_id, n - 1);
        if pieces[n - 1] == 0 {
            rest.push(PlyView::Placement { player_id, piece_id: spec_id(n - 1) })
        } else {
            rest
        }
    }
}

/// The moves from position `from` along its first `n` connections: one for
/// each connection that ends on an empty position.
pub open spec fn moves_from(pieces: Seq<i8>, player_id: i8, from: int, n: int) -> Seq<PlyView>
    decreases n,
{
    if n <= 0 {
        Seq::empty()
    } else {
        let rest = moves_from(pieces, player_id, from, n - 1);
        let to = spec_connections(from)[n - 1] as int;
        if pieces[to] == 0 {
            rest.push(PlyView::Move { player_id, from: spec_id(from), to: spec_id(to) })
        } else {
            rest
        }
    }
}

/// The moves of `player_id` from the first `n` positions, position by
/// position in the order of the board.
pub open spec fn moves_upto(pieces: Seq<i8>, player_id: i8, n: int) -> Seq<PlyView>
    decreases n,
{
    if n <= 0 {
        Seq::empty()
    } else {
        let rest = moves_upto(pieces, player_id, n - 1);
        if pieces[n - 1] == player_id {
            rest + moves_from(pieces, player_id, n - 1, spec_connections(n - 1).len() as int)
        } else {
            rest
        }
    }
}

impl BoardView {
    /// The occupant of the position called `id`.
    pub open spec fn occupant(self, id: Seq<char>) -> Result<i8, GameError> {
        match spec_index_of(id) {
            None => Err(GameError::UnknownPosition),
            Some(i) => Ok(self.pieces[i as int]),
        }
    }

    /// Placing a piece of `player_id` on the position called `id`: refused
    /// for an unknown id and for an occupied position.
    pub open spec fn place(self, player_id: i8, id: Seq<char>) -> Result<BoardView, GameError> {
        match spec_index_of(id) {
            None => Err(GameError::UnknownPosition),
            Some(i) => if self.pieces[i as int] != 0 {
                Err(GameError::InvalidPlacement)
            } else {
                Ok(self.with_piece(i as int, player_id))
            },
        }
    }

    /// Whether `player_id` may step from position `from` to position `to`:
    /// the origin is the player's, the destination is empty and next to it.
    pub open spec fn can_move(self, player_id: i8, from: int, to: int) -> bool {
        &&& self.pieces[from] == player_id
        &&& self.pieces[to] == 0
        &&& spec_connections(from).contains(to as usize)
    }

    /// Moving a piece of `player_id` between the positions called `from` and
    /// `to`: refused for an unknown id and for a step that is not allowed.
    pub open spec fn move_piece(self, player_id: i8, from: Seq<char>, to: Seq<char>) -> Result<
        BoardView,
        GameError,
    > {
        match (spec_index_of(from), spec_index_of(to)) {
            (Some(f), Some(t)) => if self.can_move(player_id, f as int, t as int) {
                Ok(self.with_piece(f as int, 0).with_piece(t as int, player_id))
            } else {
                Err(GameError::IllegalMove)
            },
            _ => Err(GameError::UnknownPosition),
        }
    }

    /// Emptying the position called `id`: refused for an unknown id only.
    pub open spec fn remove(self, id: Seq<char>) -> Result<BoardView, GameError> {
        match spec_index_of(id) {
            None => Err(GameError::UnknownPosition),
            Some(i) => Ok(self.with_piece(i as int, 0)),
        }
    }

    /// The placements open to `player_id`: one for each empty position.
    pub open spec fn available_places(self, player_id: i8) -> Seq<PlyView> {
        places_upto(self.pieces, player_id, 24)
    }

    /// The moves open to `player_id`: for each position of the player, one
    /// for each empty position next to it.
    pub open spec fn available_moves(self, player_id: i8) -> Seq<PlyView> {
        moves_upto(self.pieces, player_id, 24)
    }
}

/// Whether `plies` holds exactly the values `views`, in the same order.
pub open spec fn plies_match(plies: Seq<Ply>, views: Seq<PlyView>) -> bool {
    &&& plies.len() == views.len()
    &&& forall|k: int| 0 <= k < plies.len() ==> (#[trigger] plies[k])@ == views[k]
}

/// Position `i` of the board while `piece` stands on it.
pub open spec fn spec_position(i: int, piece: i8) -> PositionView {
    PositionView {
        id: spec_id(i),
        piece,
        north: spec_neighbour(i, Direction::North),
        east: spec_neighbour(i, Direction::East),
        south: spec_neighbour(i, Direction::South),
        west: spec_neighbour(i, Direction::West),
        connections: spec_connections(i),
    }
}

/// The direction in which a midpoint looks at the centre of the board.
pub open spec fn inward_direction(point: int) -> Direction {
    if point == 4 {
        Direction::South
    } else if point == 5 {
        Direction::West
    } else if point == 6 {
        Direction::North
    } else {
        Direction::East
    }
}

/// Empty position `i` of a board of which only the `layers` outermost squares
/// exist yet: a midpoint of the innermost of them has no link inwards.
pub open spec fn spec_position_during_build(i: int, layers: int) -> PositionView {
    let whole = spec_position(i, 0);
    if point_of(i) >= 4 && layer_of(i) + 1 == layers {
        let open_end = PositionView { connections: spec_own_connections(i), ..whole };
        match inward_direction(point_of(i)) {
            Direction::North => PositionView { north: None, ..open_end },
            Direction::East => PositionView { east: None, ..open_end },
            Direction::South => PositionView { south: None, ..open_end },
            Direction::West => PositionView { west: None, ..open_end },
        }
    } else {
        whole
    }
}

/// The arena of positions with the two players' held mills.
#[derive(Debug)]
pub struct Board {
    positions: Vec<Position>,
    p1_mills: Vec<Mill>,
    p2_mills: Vec<Mill>,
}

impl View for Board {
    type V = BoardView;

    closed spec fn view(&self) -> BoardView {
        BoardView {
            pieces: Seq::new(self.positions@.len(), |i: int| self.positions@[i]@.piece),
            p1_mills: self.p1_mills@.to_set(),
            p2_mills: self.p2_mills@.to_set(),
        }
    }
}

impl Clone for Board {
    fn clone(&self) -> (copy: Self)
        ensures
            copy@ == self@,
            copy.position_views() == self.position_views(),
            copy.held_lists() == self.held_lists(),
    {
        let mut positions: Vec<Position> = Vec::new();
        let mut i: usize = 0;
        while i < self.positions.len()
            invariant
                i <= self.positions@.len(),
                positions@.len() == i,
                forall|j: int| 0 <= j < i ==> (#[trigger] positions@[j])@ == self.positions@[j]@,
            decreases self.positions@.len() - i,
        {
            positions.push(self.positions[i].clone());
            i += 1;
        }
        let copy = Board {
            positions,
            p1_mills: self.p1_mills.clone(),
            p2_mills: self.p2_mills.clone(),
        };
        assert(copy.position_views() =~= self.position_views());
        assert(copy@.pieces =~= self@.pieces);
        copy
    }
}

/// The id of the position at `point` of square `layer`.
pub fn position_id(layer: usize, point: usize) -> (id: String)
    requires
        layer < 3,
        point < 8,
    ensures
        id@ == spec_id(8 * layer + point),
{
    let digit = if layer == 0 {
        "0"
    } else if layer == 1 {
        "1"
    } else {
        "2"
    };
    let name = if point == 0 {
        "nw"
    } else if point == 1 {
        "ne"
    } else if point == 2 {
        "sw"
    } else if point == 3 {
        "se"
    } else if point == 4 {
        "n"
    } else if point == 5 {
        "e"
    } else if point == 6 {
        "s"
    } else {
        "w"
    };
    let mut id = String::from_str(digit);
    id.append(name);
    proof {
        reveal_strlit("0");
        reveal_strlit("1");
        reveal_strlit("2");
        reveal_strlit("nw");
        reveal_strlit("ne");
        reveal_strlit("sw");
        reveal_strlit("se");
        reveal_strlit("n");
        reveal_strlit("e");
        reveal_strlit("s");
        reveal_strlit("w");
        assert(digit@ =~= seq![layer_digit(layer as int)]);
        assert(name@ =~= point_name(point as int));
    }
    id
}

impl Board {
    /// The board before the first ply: all 24 positions, linked and empty,
    /// and no mill held by either player.
    pub fn new() -> (board: Board)
        ensures
            board.wf(),
            board@ == BoardView::empty(),
    {
        build()
    }

    /// The positions as plain values, in arena order.
    pub closed spec fn position_views(&self) -> Seq<PositionView> {
        Seq::new(self.positions@.len(), |i: int| self.positions@[i]@)
    }

    /// The mills that each of the two players was last seen to hold, as
    /// they are listed.
    pub closed spec fn held_lists(&self) -> (Seq<Mill>, Seq<Mill>) {
        (self.p1_mills@, self.p2_mills@)
    }

    /// Whether the arena holds the 24 positions of the board, each with its
    /// id and its links, and no mill is listed twice as held by a player.
    pub open spec fn wf(&self) -> bool {
        &&& self@.pieces.len() == 24
        &&& self.position_views().len() == 24
        &&& forall|i: int|
            0 <= i < 24 ==> #[trigger] self.position_views()[i] == spec_position(i, self@.pieces[i])
        &&& self.held_lists().0.no_duplicates()
        &&& self.held_lists().1.no_duplicates()
        &&& self@.p1_mills == self.held_lists().0.to_set()
        &&& self@.p2_mills == self.held_lists().1.to_set()
    }

    /// Whether the arena holds the `layers` outermost squares, all empty and
    /// linked among themselves.
    pub open spec fn partly_built(&self, layers: int) -> bool {
        &&& self.position_views().len() == 8 * layers
        &&& forall|i: int|
            0 <= i < 8 * layers ==> #[trigger] self.position_views()[i]
                == spec_position_during_build(i, layers)
    }

    /// Appends `position` to the arena and returns its index.
    fn add_position(&mut self, position: Position) -> (index: usize)
        ensures
            index == old(self).position_views().len(),
            final(self).position_views() == old(self).position_views().push(position@),
            final(self).held_lists() == old(self).held_lists(),
    {
        let next_index = self.positions.len();
        self.positions.push(position);
        assert(self.position_views() =~= old(self).position_views().push(position@));
        next_index
    }

    /// Appends an empty, unlinked position with the given id.
    fn new_blank_position(&mut self, id: String) -> (index: usize)
        ensures
            index == old(self).position_views().len(),
            final(self).position_views() == old(self).position_views().push(
                PositionView::fresh(id@, None, None, None, None),
            ),
            final(self).held_lists() == old(self).held_lists(),
    {
        self.add_position(Position::blank(id))
    }

    /// The index of the position called `id`, if the board has one.
    pub fn index_of(&self, id: &String) -> (found: Option<usize>)
        requires
            self.wf(),
        ensures
            found == spec_index_of(id@),
            found matches Some(i) ==> on_board(i as int) && spec_id(i as int) == id@,
    {
        let mut i: usize = 0;
        while i < POSITION_COUNT
            invariant
                self.wf(),
                i <= 24,
                forall|j: int| 0 <= j < i ==> spec_id(j) != id@,
            decreases 24 - i,
        {
            assert(self.position_views()[i as int] == spec_position(i as int, self@.pieces[i as int]));
            if *self.positions[i].id() == *id {
                proof {
                    lemma_index_of_id(i as int);
                }
                return Some(i);
            }
            i += 1;
        }
        None
    }

    /// The position at `index`.
    pub fn position(&self, index: usize) -> (position: &Position)
        requires
            self.wf(),
            index < 24,
        ensures
            position@ == spec_position(index as int, self@.pieces[index as int]),
    {
        assert(self.position_views()[index as int] == spec_position(
            index as int,
            self@.pieces[index as int],
        ));
        &self.positions[index]
    }

    /// The occupant of the position at `index`.
    pub fn piece_at(&self, index: usize) -> (piece: i8)
        requires
            self.wf(),
            index < 24,
        ensures
            piece == self@.pieces[index as int],
    {
        self.position(index).piece()
    }

    /// Puts `piece` on the position at `index`, whatever stood there.
    pub(crate) fn set_piece(&mut self, index: usize, piece: i8)
        requires
            old(self).wf(),
            index < 24,
        ensures
            final(self).wf(),
            final(self)@ == old(self)@.with_piece(index as int, piece),
    {
        assert(self.position_views()[index as int] == spec_position(
            index as int,
            self@.pieces[index as int],
        ));
        self.positions[index].remove();
        let placed = self.positions[index].place(piece);
        proof {
            assert(self@.pieces =~= old(self)@.pieces.update(index as int, piece));
            assert forall|i: int| 0 <= i < 24 implies #[trigger] self.position_views()[i]
                == spec_position(i, self@.pieces[i]) by {
                assert(old(self).position_views()[i] == spec_position(i, old(self)@.pieces[i]));
            }
        }
    }

    /// The mills that `player_id` was last seen to hold.
    pub(crate) fn held(&self, player_id: i8) -> (mills: &Vec<Mill>)
        ensures
            mills@.to_set() == self@.held_mills(player_id),
            self.wf() ==> mills@.no_duplicates(),
    {
        if player_id == 1 {
            &self.p1_mills
        } else {
            &self.p2_mills
        }
    }

    /// Records `mills` as the mills held by `player_id`.
    pub(crate) fn set_held(&mut self, player_id: i8, mills: Vec<Mill>)
        requires
            mills@.no_duplicates(),
        ensures
            old(self).wf() ==> final(self).wf(),
            final(self)@ == old(self)@.with_held_mills(player_id, mills@.to_set()),
    {
        if player_id == 1 {
            self.p1_mills = mills;
        } else {
            self.p2_mills = mills;
        }
    }

    /// The id of the position at index `position`, or `_` for no position.
    pub fn get_id(&self, position: Option<usize>) -> (id: String)
        requires
            self.wf(),
            position matches Some(p) ==> p < 24,
        ensures
            id@ == match position {
                Some(p) => spec_id(p as int),
                None => seq!['_'],
            },
    {
        match position {
            Some(p) => self.position(p).id().clone(),
            None => {
                proof {
                    reveal_strlit("_");
                }
                assert("_"@ =~= seq!['_']);
                String::from_str("_")
            },
        }
    }

    /// The position called `id`, if the board has one.
    pub fn get_position(&self, id: &String) -> (position: Option<&Position>)
        requires
            self.wf(),
        ensures
            match spec_index_of(id@) {
                Some(i) => position matches Some(p) && p@ == spec_position(
                    i as int,
                    self@.pieces[i as int],
                ),
                None => position is None,
            },
    {
        match self.index_of(id) {
            Some(index) => Some(self.position(index)),
            None => None,
        }
    }

    /// Whether `position` is the id of a position of the board.
    pub fn is_valid_position(&self, position: &String) -> (valid: bool)
        requires
            self.wf(),
        ensures
            valid == spec_index_of(position@) is Some,
    {
        match self.get_position(position) {
            Some(_p) => true,
            None => false,
        }
    }

    /// Whether `position` is the id of a position on which no piece stands.
    pub fn is_empty_position(&self, position: &String) -> (empty: bool)
        requires
            self.wf(),
        ensures
            empty == (self@.occupant(position@) == Ok::<i8, GameError>(0)),
    {
        match self.get_position(position) {
            Some(p) => p.is_empty(),
            None => false,
        }
    }

    /// The occupant of the position called `id`: `0` for none, otherwise the
    /// id of the owning player.
    pub fn occupant(&self, id: &String) -> (occupant: Result<i8, GameError>)
        requires
            self.wf(),
        ensures
            occupant == self@.occupant(id@),
    {
        match self.get_position(id) {
            Some(p) => Ok(p.piece()),
            None => Err(GameError::UnknownPosition),
        }
    }

    /// The ids of the positions next to the position called `id`.
    pub fn neighbors(&self, id: &String) -> (ids: Result<Vec<String>, GameError>)
        requires
            self.wf(),
        ensures
            match spec_index_of(id@) {
                Some(i) => ids matches Ok(names) && names@.len() == spec_connections(i as int).len()
                    && forall|k: int|
                    0 <= k < names@.len() ==> (#[trigger] names@[k])@ == spec_id(
                        spec_connections(i as int)[k] as int,
                    ),
                None => ids == Err::<Vec<String>, GameError>(GameError::UnknownPosition),
            },
    {
        match self.index_of(id) {
            Some(index) => {
                let connections = self.position(index).connections();
                let mut names: Vec<String> = Vec::new();
                let mut k: usize = 0;
                proof {
                    lemma_adjacency_symmetric(index as int, index as int);
                }
                while k < connections.len()
                    invariant
                        self.wf(),
                        k <= connections@.len(),
                        connections@ == spec_connections(index as int),
                        forall|j: int|
                            0 <= j < connections@.len() ==> on_board(
                                #[trigger] connections@[j] as int,
                            ),
                        names@.len() == k,
                        forall|j: int|
                            0 <= j < k ==> (#[trigger] names@[j])@ == spec_id(connections@[j] as int),
                    decreases connections@.len() - k,
                {
                    let to = connections[k];
                    assert(on_board(connections@[k as int] as int));
                    names.push(self.get_id(Some(to)));
                    k += 1;
                }
                Ok(names)
            },
            None => Err(GameError::UnknownPosition),
        }
    }

    /// Puts a piece of `player_id` on the position called `piece_id`. The
    /// board is left as it is when the placement is refused.
    pub fn place_piece(&mut self, player_id: i8, piece_id: &String) -> (outcome: Result<
        (),
        GameError,
    >)
        requires
            old(self).wf(),
        ensures
            final(self).wf(),
            match old(self)@.place(player_id, piece_id@) {
                Ok(placed) => outcome is Ok && final(self)@ == placed,
                Err(e) => outcome == Err::<(), GameError>(e) && final(self)@ == old(self)@,
            },
    {
        match self.index_of(piece_id) {
            None => Err(GameError::UnknownPosition),
            Some(index) => {
                if self.piece_at(index) != 0 {
                    Err(GameError::InvalidPlacement)
                } else {
                    self.set_piece(index, player_id);
                    Ok(())
                }
            },
        }
    }

    /// Whether the positions at `from` and `to` are next to each other.
    fn are_connected(&self, from: usize, to: usize) -> (connected: bool)
        requires
            self.wf(),
            from < 24,
        ensures
            connected == spec_connections(from as int).contains(to),
    {
        self.position(from).connected_to(Some(&to))
    }

    /// Moves the piece of `player_id` on the position called `from_id` to the
    /// position called `to_id`. The board is left as it is when the move is
    /// refused.
    pub fn move_piece(&mut self, player_id: i8, from_id: &String, to_id: &String) -> (outcome:
        Result<(), GameError>)
        requires
            old(self).wf(),
        ensures
            final(self).wf(),
            match old(self)@.move_piece(player_id, from_id@, to_id@) {
                Ok(moved) => outcome is Ok && final(self)@ == moved,
                Err(e) => outcome == Err::<(), GameError>(e) && final(self)@ == old(self)@,
            },
    {
        let from = match self.index_of(from_id) {
            Some(index) => index,
            None => {
                return Err(GameError::UnknownPosition);
            },
        };
        let to = match self.index_of(to_id) {
            Some(index) => index,
            None => {
                return Err(GameError::UnknownPosition);
            },
        };
        let can_move = self.position(from).owned_by(player_id) && self.position(to).is_empty()
            && self.are_connected(from, to);
        if can_move {
            self.set_piece(from, 0);
            self.set_piece(to, player_id);
            Ok(())
        } else {
            Err(GameError::IllegalMove)
        }
    }

    /// Takes the piece, if any, off the position called `id`.
    pub fn remove(&mut self, id: &String) -> (outcome: Result<(), GameError>)
        requires
            old(self).wf(),
        ensures
            final(self).wf(),
            match old(self)@.remove(id@) {
                Ok(removed) => outcome is Ok && final(self)@ == removed,
                Err(e) => outcome == Err::<(), GameError>(e) && final(self)@ == old(self)@,
            },
    {
        match self.index_of(id) {
            None => Err(GameError::UnknownPosition),
            Some(index) => {
                self.set_piece(index, 0);
                Ok(())
            },
        }
    }

    /// The placements open to `player_id`: one for each empty position, in
    /// the order of the board.
    pub fn available_places(&self, player_id: i8) -> (plies: Vec<Ply>)
        requires
            self.wf(),
        ensures
            plies_match(plies@, self@.available_places(player_id)),
    {
        let mut plies: Vec<Ply> = Vec::new();
        let mut i: usize = 0;
        while i < POSITION_COUNT
            invariant
                self.wf(),
                i <= 24,
                plies_match(plies@, places_upto(self@.pieces, player_id, i as int)),
            decreases 24 - i,
        {
            let position = self.position(i);
            if position.is_empty() {
                plies.push(Ply::Placement { player_id, piece_id: position.id().clone() });
            }
            i += 1;
        }
        plies
    }

    /// The moves open to `player_id`: for each position of the player, in
    /// the order of the board, one for each empty position next to it. An
    /// empty result means that the player cannot move.
    pub fn available_moves(&self, player_id: i8) -> (plies: Vec<Ply>)
        requires
            self.wf(),
        ensures
            plies_match(plies@, self@.available_moves(player_id)),
    {
        let mut plies: Vec<Ply> = Vec::new();
        let mut i: usize = 0;
        while i < POSITION_COUNT
            invariant
                self.wf(),
                i <= 24,
                plies_match(plies@, moves_upto(self@.pieces, player_id, i as int)),
            decreases 24 - i,
        {
            let position = self.position(i);
            if position.owned_by(player_id) {
                let connections = position.connections();
                let ghost before = plies@;
                let mut k: usize = 0;
                proof {
                    lemma_adjacency_symmetric(i as int, i as int);
                }
                while k < connections.len()
                    invariant
                        self.wf(),
                        i < 24,
                        position@ == spec_position(i as int, self@.pieces[i as int]),
                        connections@ == spec_connections(i as int),
                        forall|j: int|
                            0 <= j < connections@.len() ==> on_board(
                                #[trigger] connections@[j] as int,
                            ),
                        k <= connections@.len(),
                        plies_match(before, moves_upto(self@.pieces, player_id, i as int)),
                        plies_match(
                            plies@,
                            moves_upto(self@.pieces, player_id, i as int) + moves_from(
                                self@.pieces,
                                player_id,
                                i as int,
                                k as int,
                            ),
                        ),
                    decreases connections@.len() - k,
                {
                    let to = connections[k];
                    assert(on_board(connections@[k as int] as int));
                    let connection = self.position(to);
                    if connection.is_empty() {
                        let mv = (position.id().clone(), connection.id().clone());
                        plies.push(Ply::Move { player_id, mv });
                    }
                    k += 1;
                }
            }
            i += 1;
        }
        plies
    }

    /// Records `to` as the neighbour of position `from` in `direction`.
    fn link(&mut self, from: usize, direction: Direction, to: usize)
        requires
            from < old(self).position_views().len(),
        ensures
            final(self).position_views() == old(self).position_views().update(
                from as int,
                old(self).position_views()[from as int].with_neighbour(direction, Some(to)),
            ),
            final(self).held_lists() == old(self).held_lists(),
    {
        self.positions[from].add_neighbour(direction, Some(to));
        assert(self.position_views() =~= old(self).position_views().update(
            from as int,
            old(self).position_views()[from as int].with_neighbour(direction, Some(to)),
        ));
    }
}

/// The midpoint at `point` of the square outside square `layer`, if any.
pub open spec fn previous_midpoint(layer: int, point: int) -> Option<usize> {
    if layer == 0 {
        None
    } else {
        Some((8 * (layer - 1) + point) as usize)
    }
}

/// Links position `from`, if there is one, to `to` in `direction`.
fn add_connection_to_prev(board: &mut Board, direction: Direction, from: Option<usize>, to: usize)
    requires
        from matches Some(p) ==> p < old(board).position_views().len(),
    ensures
        final(board).position_views().len() == old(board).position_views().len(),
        forall|i: int|
            0 <= i < old(board).position_views().len() ==> #[trigger] final(board).position_views()[i]
                == if from is Some && from->0 == i {
                old(board).position_views()[i].with_neighbour(direction, Some(to))
            } else {
                old(board).position_views()[i]
            },
        final(board).held_lists() == old(board).held_lists(),
{
    if let Some(p) = from {
        board.link(p, direction, to);
    }
}

/// Appends the eight positions of square `layer`: the four corners without
/// any link, then the four midpoints, each linked to its two corners and to
/// the same midpoint of the square outside.
fn add_layer_positions(board: &mut Board, layer: usize)
    requires
        layer < 3,
        old(board).position_views().len() == 8 * layer,
    ensures
        final(board).position_views().len() == 8 * layer + 8,
        forall|i: int|
            0 <= i < 8 * layer ==> #[trigger] final(board).position_views()[i] == old(
                board,
            ).position_views()[i],
        forall|k: int|
            0 <= k < 4 ==> #[trigger] final(board).position_views()[8 * layer + k]
                == PositionView::fresh(spec_id(8 * layer + k), None, None, None, None),
        final(board).position_views()[8 * layer + 4] == PositionView::fresh(
            spec_id(8 * layer + 4),
            previous_midpoint(layer as int, 4),
            Some((8 * layer + 1) as usize),
            None,
            Some((8 * layer) as usize),
        ),
        final(board).position_views()[8 * layer + 5] == PositionView::fresh(
            spec_id(8 * layer + 5),
            Some((8 * layer + 1) as usize),
            previous_midpoint(layer as int, 5),
            Some((8 * layer + 3) as usize),
            None,
        ),
        final(board).position_views()[8 * layer + 6] == PositionView::fresh(
            spec_id(8 * layer + 6),
            None,
            Some((8 * layer + 3) as usize),
            previous_midpoint(layer as int, 6),
            Some((8 * layer + 2) as usize),
        ),
        final(board).position_views()[8 * layer + 7] == PositionView::fresh(
            spec_id(8 * layer + 7),
            Some((8 * layer) as usize),
            None,
            Some((8 * layer + 2) as usize),
            previous_midpoint(layer as int, 7),
        ),
        final(board).held_lists() == old(board).held_lists(),
{
    let prev_north = if layer == 0 { None } else { Some(8 * (layer - 1) + 4) };
    let prev_east = if layer == 0 { None } else { Some(8 * (layer - 1) + 5) };
    let prev_south = if layer == 0 { None } else { Some(8 * (layer - 1) + 6) };
    let prev_west = if layer == 0 { None } else { Some(8 * (layer - 1) + 7) };

    let nw = board.new_blank_position(position_id(layer, 0));
    let ne = board.new_blank_position(position_id(layer, 1));
    let sw = board.new_blank_position(position_id(layer, 2));
    let se = board.new_blank_position(position_id(layer, 3));

    board.add_position(Position::new(position_id(layer, 4), prev_north, Some(ne), None, Some(nw)));
    board.add_position(Position::new(position_id(layer, 5), Some(ne), prev_east, Some(se), None));
    board.add_position(Position::new(position_id(layer, 6), None, Some(se), prev_south, Some(sw)));
    board.add_position(Position::new(position_id(layer, 7), Some(nw), None, Some(sw), prev_west));
}

/// Links each corner of square `layer` to the two midpoints next to it.
fn link_corners(board: &mut Board, layer: usize)
    requires
        layer < 3,
        old(board).position_views().len() == 8 * layer + 8,
    ensures
        final(board).position_views().len() == 8 * layer + 8,
        forall|i: int|
            0 <= i < 8 * layer || 8 * layer + 4 <= i < 8 * layer + 8
                ==> #[trigger] final(board).position_views()[i] == old(board).position_views()[i],
        final(board).position_views()[8 * layer as int] == old(board).position_views()[8
            * layer as int].with_neighbour(
            Direction::East,
            Some((8 * layer + 4) as usize),
        ).with_neighbour(Direction::South, Some((8 * layer + 7) as usize)),
        final(board).position_views()[8 * layer + 1] == old(board).position_views()[8 * layer
            + 1].with_neighbour(Direction::West, Some((8 * layer + 4) as usize)).with_neighbour(
            Direction::South,
            Some((8 * layer + 5) as usize),
        ),
        final(board).position_views()[8 * layer + 2] == old(board).position_views()[8 * layer
            + 2].with_neighbour(Direction::North, Some((8 * layer + 7) as usize)).with_neighbour(
            Direction::East,
            Some((8 * layer + 6) as usize),
        ),
        final(board).position_views()[8 * layer + 3] == old(board).position_views()[8 * layer
            + 3].with_neighbour(Direction::North, Some((8 * layer + 5) as usize)).with_neighbour(
            Direction::West,
            Some((8 * layer + 6) as usize),
        ),
        final(board).held_lists() == old(board).held_lists(),
{
    let nw = 8 * layer;
    let ne = nw + 1;
    let sw = nw + 2;
    let se = nw + 3;
    let north = nw + 4;
    let east = nw + 5;
    let south = nw + 6;
    let west = nw + 7;
    board.link(nw, Direction::East, north);
    board.link(nw, Direction::South, west);
    board.link(ne, Direction::West, north);
    board.link(ne, Direction::South, east);
    board.link(sw, Direction::North, west);
    board.link(sw, Direction::East, south);
    board.link(se, Direction::North, east);
    board.link(se, Direction::West, south);
}

/// Links each midpoint of the square outside square `layer`, if there is
/// one, to the same midpoint of square `layer`.
fn link_previous_layer(board: &mut Board, layer: usize)
    requires
        layer < 3,
        old(board).position_views().len() == 8 * layer + 8,
    ensures
        final(board).position_views().len() == 8 * layer + 8,
        forall|i: int|
            0 <= i < 8 * layer + 8 ==> #[trigger] final(board).position_views()[i] == if layer > 0
                && 8 * layer - 4 <= i < 8 * layer {
                old(board).position_views()[i].with_neighbour(
                    inward_direction(i - 8 * (layer - 1)),
                    Some((i + 8) as usize),
                )
            } else {
                old(board).position_views()[i]
            },
        final(board).held_lists() == old(board).held_lists(),
{
    let prev_north = if layer == 0 { None } else { Some(8 * (layer - 1) + 4) };
    let prev_east = if layer == 0 { None } else { Some(8 * (layer - 1) + 5) };
    let prev_south = if layer == 0 { None } else { Some(8 * (layer - 1) + 6) };
    let prev_west = if layer == 0 { None } else { Some(8 * (layer - 1) + 7) };
    let north = 8 * layer + 4;
    add_connection_to_prev(board, Direction::South, prev_north, north);
    add_connection_to_prev(board, Direction::West, prev_east, north + 1);
    add_connection_to_prev(board, Direction::North, prev_south, north + 2);
    add_connection_to_prev(board, Direction::East, prev_west, north + 3);
}

/// Adds square `layer` to an arena that holds the squares outside it.
fn add_layer(board: &mut Board, layer: usize)
    requires
        layer < 3,
        old(board).partly_built(layer as int),
    ensures
        final(board).partly_built(layer + 1),
        final(board).held_lists() == old(board).held_lists(),
{
    add_layer_positions(board, layer);
    let ghost added = board.position_views();
    link_corners(board, layer);
    let ghost cornered = board.position_views();
    link_previous_layer(board, layer);
    proof {
        let before = old(board).position_views();
        let after = board.position_views();
        assert forall|i: int| 0 <= i < 8 * layer + 8 implies #[trigger] after[i]
            == spec_position_during_build(i, layer + 1) by {
            if i < 8 * layer {
                assert(before[i] == spec_position_during_build(i, layer as int));
                assert(added[i] == before[i]);
                assert(cornered[i] == added[i]);
                if 8 * layer - 4 <= i {
                    assert(after[i].connections =~= spec_connections(i));
                }
            } else {
                let k = i - 8 * layer;
                assert(layer_of(i) == layer && point_of(i) == k);
                if k < 4 {
                    assert(added[8 * layer + k] == PositionView::fresh(
                        spec_id(8 * layer + k),
                        None,
                        None,
                        None,
                        None,
                    ));
                }
                assert(after[i].connections =~= spec_own_connections(i));
            }
        }
    }
}

/// Fills an arena that holds no position yet with the 24 positions of the
/// board, square by square from the outside in, and links them.
fn generate_positions(mut board: Board) -> (built: Board)
    requires
        board.position_views().len() == 0,
        board.held_lists().0.no_duplicates(),
        board.held_lists().1.no_duplicates(),
    ensures
        built.wf(),
        built@.pieces == BoardView::empty().pieces,
        built@.p1_mills == board@.p1_mills,
        built@.p2_mills == board@.p2_mills,
{
    let ghost given = board.held_lists();
    let mut layer: usize = 0;
    while layer < 3
        invariant
            layer <= 3,
            board.partly_built(layer as int),
            board.held_lists() == given,
        decreases 3 - layer,
    {
        add_layer(&mut board, layer);
        layer += 1;
    }
    proof {
        assert(board@.pieces.len() == 24);
        assert forall|i: int| 0 <= i < 24 implies #[trigger] board.position_views()[i]
            == spec_position(i, board@.pieces[i]) by {
            assert(board.position_views()[i] == spec_position_during_build(i, 3));
            assert(board@.pieces[i] == board.position_views()[i].piece);
            if point_of(i) >= 4 && layer_of(i) == 2 {
                assert(spec_connections(i) =~= spec_own_connections(i));
            }
        }
        assert forall|i: int| 0 <= i < 24 implies #[trigger] board@.pieces[i] == 0 by {
            assert(board.position_views()[i] == spec_position(i, board@.pieces[i]));
        }
        assert(board@.pieces =~= BoardView::empty().pieces);
    }
    board
}

/// The board before the first ply: all 24 positions, linked and empty, and
/// no mill held by either player.
pub fn build() -> (board: Board)
    ensures
        board.wf(),
        board@ == BoardView::empty(),
{
    let board = Board { positions: Vec::new(), p1_mills: Vec::new(), p2_mills: Vec::new() };
    assert(board@.p1_mills =~= Set::empty());
    assert(board@.p2_mills =~= Set::empty());
    generate_positions(board)
}


} // verus!
