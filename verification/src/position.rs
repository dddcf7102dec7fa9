use vstd::prelude::*;
use crate::direction::Direction;
use crate::error::GameError;

verus! {

/// What a position is, as plain mathematical values.
pub struct PositionView {
    /// The textual id, such as `0nw`.
    pub id: Seq<char>,
    /// `0` while empty, otherwise the id of the owning player.
    pub piece: i8,
    pub north: Option<usize>,
    pub east: Option<usize>,
    pub south: Option<usize>,
    pub west: Option<usize>,
    /// Indices of the adjacent positions, in the order they were linked.
    pub connections: Seq<usize>,
}

/// The sequence holding `link` if there is one, and nothing otherwise.
pub open spec fn link_seq(link: Option<usize>) -> Seq<usize> {
    match link {
        Some(p) => seq![p],
        None => Seq::empty(),
    }
}

impl PositionView {
    /// The neighbour recorded for `direction`.
    pub open spec fn neighbour(self, direction: Direction) -> Option<usize> {
        match direction {
            Direction::North => self.north,
            Direction::East => self.east,
            Direction::South => self.south,
            Direction::West => self.west,
        }
    }

    /// This position with `link` recorded for `direction` and, if there is
    /// one, appended to the connections.
    pub open spec fn with_neighbour(self, direction: Direction, link: Option<usize>) -> PositionView {
        let connections = self.connections + link_seq(link);
        match direction {
            Direction::North => PositionView { north: link, connections, ..self },
            Direction::East => PositionView { east: link, connections, ..self },
            Direction::South => PositionView { south: link, connections, ..self },
            Direction::West => PositionView { west: link, connections, ..self },
        }
    }

    /// A fresh, empty position with the given directional links.
    pub open spec fn fresh(
        id: Seq<char>,
        north: Option<usize>,
        east: Option<usize>,
        south: Option<usize>,
        west: Option<usize>,
    ) -> PositionView {
        PositionView {
            id,
            piece: 0,
            north,
            east,
            south,
            west,
            connections: link_seq(north) + link_seq(east) + link_seq(south) + link_seq(west),
        }
    }
}

/// One intersection of the board: its id, its occupant and its links.
/// Two positions are equal when they have the same id.
#[derive(Debug)]
pub struct Position {
    id: String,
    piece: i8,
    north: Option<usize>,
    east: Option<usize>,
    south: Option<usize>,
    west: Option<usize>,
    connections: Vec<usize>,
}

impl View for Position {
    type V = PositionView;

    closed spec fn view(&self) -> PositionView {
        PositionView {
            id: self.id@,
            piece: self.piece,
            north: self.north,
            east: self.east,
            south: self.south,
            west: self.west,
            connections: self.connections@,
        }
    }
}

impl Clone for Position {
    fn clone(&self) -> (copy: Self)
        ensures
            copy@ == self@,
    {
        Position {
            id: self.id.clone(),
            piece: self.piece,
            north: self.north,
            east: self.east,
            south: self.south,
            west: self.west,
            connections: self.connections.clone(),
        }
    }
}

impl Position {
    /// An empty position linked to the given neighbours. The connections list
    /// the neighbours that are present, in the order north, east, south, west.
    pub fn new(
        id: String,
        north: Option<usize>,
        east: Option<usize>,
        south: Option<usize>,
        west: Option<usize>,
    ) -> (position: Position)
        ensures
            position@ == PositionView::fresh(id@, north, east, south, west),
    {
        let connections = Vec::with_capacity(4);
        let mut position = Position { id, piece: 0, north, east, south, west, connections };
        position.add_connection(north);
        position.add_connection(east);
        position.add_connection(south);
        position.add_connection(west);
        assert(position.connections@ =~= link_seq(north) + link_seq(east) + link_seq(south)
            + link_seq(west));
        position
    }

    /// An empty position without any link.
    pub fn blank(id: String) -> (position: Position)
        ensures
            position@ == PositionView::fresh(id@, None, None, None, None),
    {
        Position::new(id, None, None, None, None)
    }

    /// Appends `connection`, if there is one, to the connections.
    pub fn add_connection(&mut self, connection: Option<usize>)
        ensures
            final(self)@ == (PositionView {
                connections: old(self)@.connections + link_seq(connection),
                ..old(self)@
            }),
    {
        if let Some(p) = connection {
            self.connections.push(p);
        }
        assert(self.connections@ =~= old(self).connections@ + link_seq(connection));
    }

    /// Records `position` as the neighbour in `direction` and, if there is
    /// one, appends it to the connections.
    pub fn add_neighbour(&mut self, direction: Direction, position: Option<usize>)
        ensures
            final(self)@ == old(self)@.with_neighbour(direction, position),
    {
        match direction {
            Direction::North => {
                self.north = position;
                self.add_connection(position);
            },
            Direction::East => {
                self.east = position;
                self.add_connection(position);
            },
            Direction::South => {
                self.south = position;
                self.add_connection(position);
            },
            Direction::West => {
                self.west = position;
                self.add_connection(position);
            },
        }
    }

    /// Records `position` as the neighbour in the direction called
    /// `direction`, one of `north`, `east`, `south` and `west`, and, if there
    /// is one, appends it to the connections.
    pub fn add_position(&mut self, direction: &str, position: Option<usize>)
        requires
            Direction::named(direction@) is Some,
        ensures
            final(self)@ == old(self)@.with_neighbour(Direction::named(direction@)->0, position),
    {
        match Direction::from_name(direction) {
            Some(direction) => self.add_neighbour(direction, position),
            None => {},
        }
    }

    /// Puts a piece of `player_id` on the position. An occupied position is
    /// left as it is and the placement refused.
    pub fn place(&mut self, player_id: i8) -> (outcome: Result<(), GameError>)
        ensures
            old(self)@.piece == 0 ==> outcome == Ok::<(), GameError>(()) && final(self)@ == (
            PositionView { piece: player_id, ..old(self)@ }),
            old(self)@.piece != 0 ==> outcome == Err::<(), GameError>(GameError::InvalidPlacement)
                && final(self)@ == old(self)@,
    {
        if self.piece == 0 {
            self.piece = player_id;
            Ok(())
        } else {
            Err(GameError::InvalidPlacement)
        }
    }

    /// Takes the piece, if any, off the position.
    pub fn remove(&mut self)
        ensures
            final(self)@ == (PositionView { piece: 0, ..old(self)@ }),
    {
        self.piece = 0;
    }

    /// The textual id of the position.
    pub fn id(&self) -> (id: &String)
        ensures
            id@ == self@.id,
    {
        &self.id
    }

    /// The occupant: `0` for none, otherwise the owning player's id.
    pub fn piece(&self) -> (piece: i8)
        ensures
            piece == self@.piece,
    {
        self.piece
    }

    /// Whether no piece stands on the position.
    pub fn is_empty(&self) -> (empty: bool)
        ensures
            empty == (self@.piece == 0),
    {
        self.piece == 0
    }

    /// Whether the occupant is `player_id`.
    pub fn owned_by(&self, player_id: i8) -> (owned: bool)
        ensures
            owned == (self@.piece == player_id),
    {
        self.piece == player_id
    }

    /// The neighbour recorded for `direction`.
    pub fn neighbour(&self, direction: Direction) -> (link: Option<usize>)
        ensures
            link == self@.neighbour(direction),
    {
        match direction {
            Direction::North => self.north,
            Direction::East => self.east,
            Direction::South => self.south,
            Direction::West => self.west,
        }
    }

    /// Whether `other_option` names an index among the connections.
    pub fn connected_to(&self, other_option: Option<&usize>) -> (connected: bool)
        ensures
            connected == match other_option {
                Some(other) => self@.connections.contains(*other),
                None => false,
            },
    {
        if let Some(other) = other_option {
            let mut k: usize = 0;
            while k < self.connections.len()
                invariant
                    other_option == Some(other),
                    k <= self.connections@.len(),
                    forall|j: int| 0 <= j < k ==> self.connections@[j] != *other,
                decreases self.connections@.len() - k,
            {
                if self.connections[k] == *other {
                    assert(self.connections@[k as int] == *other);
                    return true;
                }
                k += 1;
            }
            false
        } else {
            false
        }
    }

    /// The indices of the adjacent positions.
    pub fn connections(&self) -> (connections: &Vec<usize>)
        ensures
            connections@ == self@.connections,
    {
        &self.connections
    }
}

impl PartialEq for Position {
    fn eq(&self, other: &Position) -> (equal: bool) {
        self.id == other.id
    }
}

impl Eq for Position {}

impl vstd::std_specs::cmp::PartialEqSpecImpl for Position {
    open spec fn obeys_eq_spec() -> bool {
        true
    }

    open spec fn eq_spec(&self, other: &Position) -> bool {
        self@.id == other@.id
    }
}

} // verus!
