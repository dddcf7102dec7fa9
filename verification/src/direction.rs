use vstd::prelude::*;

verus! {

/// A compass direction: a side of a ring, or the way a spoke points.
#[derive(Clone, Copy, Debug, PartialEq, Eq, Structural)]
pub enum Direction {
    North,
    East,
    South,
    West,
}

impl Direction {
    /// The four directions in the order north, east, south, west.
    pub open spec fn all() -> Seq<Direction> {
        seq![Direction::North, Direction::East, Direction::South, Direction::West]
    }

    /// Position of this direction in [`Direction::all`].
    pub open spec fn ordinal(self) -> int {
        match self {
            Direction::North => 0,
            Direction::East => 1,
            Direction::South => 2,
            Direction::West => 3,
        }
    }

    /// The direction called `name`: one of `north`, `east`, `south`, `west`.
    pub open spec fn named(name: Seq<char>) -> Option<Direction> {
        if name == seq!['n', 'o', 'r', 't', 'h'] {
            Some(Direction::North)
        } else if name == seq!['e', 'a', 's', 't'] {
            Some(Direction::East)
        } else if name == seq!['s', 'o', 'u', 't', 'h'] {
            Some(Direction::South)
        } else if name == seq!['w', 'e', 's', 't'] {
            Some(Direction::West)
        } else {
            None
        }
    }

    /// The direction called `name`, if `name` is one of `north`, `east`,
    /// `south` and `west`.
    pub fn from_name(name: &str) -> (direction: Option<Direction>)
        ensures
            direction == Direction::named(name@),
    {
        proof {
            reveal_strlit("north");
            reveal_strlit("east");
            reveal_strlit("south");
            reveal_strlit("west");
            assert("north"@ =~= seq!['n', 'o', 'r', 't', 'h']);
            assert("east"@ =~= seq!['e', 'a', 's', 't']);
            assert("south"@ =~= seq!['s', 'o', 'u', 't', 'h']);
            assert("west"@ =~= seq!['w', 'e', 's', 't']);
        }
        let name = String::from_str(name);
        if name == String::from_str("north") {
            Some(Direction::North)
        } else if name == String::from_str("east") {
            Some(Direction::East)
        } else if name == String::from_str("south") {
            Some(Direction::South)
        } else if name == String::from_str("west") {
            Some(Direction::West)
        } else {
            None
        }
    }

    /// All four directions, clockwise from north.
    pub fn iterator() -> (dirs: [Direction; 4])
        ensures
            dirs@ == Direction::all(),
    {
        let dirs = [Direction::North, Direction::East, Direction::South, Direction::West];
        assert(dirs@ =~= Direction::all());
        dirs
    }
}

} // verus!
