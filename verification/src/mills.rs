//! The mill engine: which lines a player holds, which of them are new, and
//! which pieces of the opponent a new mill allows to take.

use vstd::prelude::*;
use crate::board::{Board, BoardView, plies_match};
use crate::direction::Direction;
use crate::error::GameError;
use crate::game::{is_player, spec_switch_player_id, switch_player_id};
use crate::laws::{lemma_push_contains, lemma_standing_members};
use crate::mill::Mill;
use crate::ply::{Ply, PlyView};
use crate::topology::{
    spec_id, spec_index_of, spec_line, spec_ring_line, spec_spoke_line, direction_at, LINE_COUNT,
    POSITION_COUNT,
};

verus! {

/// Whether the three positions of `mill` are on the board and all hold a
/// piece of `player_id`.
pub open spec fn mill_stands(pieces: Seq<i8>, mill: Mill, player_id: i8) -> bool {
    &&& mill.first < 24
    &&& mill.second < 24
    &&& mill.third < 24
    &&& pieces[mill.first as int] == player_id
    &&& pieces[mill.second as int] == player_id
    &&& pieces[mill.third as int] == player_id
}

/// The mills that stand for `player_id` among the first `n` lines of the
/// board, in the order of the lines.
pub open spec fn standing_upto(pieces: Seq<i8>, player_id: i8, n: int) -> Seq<Mill>
    decreases n,
{
    if n <= 0 {
        Seq::empty()
    } else {
        let rest = standing_upto(pieces, player_id, n - 1);
        if mill_stands(pieces, spec_line(n - 1), player_id) {
            rest.push(spec_line(n - 1))
        } else {
            rest
        }
    }
}

/// The mills that stand for `player_id`: every line of the board whose three
/// positions all hold a piece of the player.
pub open spec fn standing_mills(pieces: Seq<i8>, player_id: i8) -> Seq<Mill> {
    standing_upto(pieces, player_id, 16)
}

/// Those of the first `n` mills of `found` that are not in `known`.
pub open spec fn unknown_upto(found: Seq<Mill>, known: Set<Mill>, n: int) -> Seq<Mill>
    decreases n,
{
    if n <= 0 {
        Seq::empty()
    } else {
        let rest = unknown_upto(found, known, n - 1);
        if known.contains(found[n - 1]) {
            rest
        } else {
            rest.push(found[n - 1])
        }
    }
}

/// Those of the first `n` mills of `held` that still stand for `player_id`.
pub open spec fn still_standing_upto(held: Seq<Mill>, pieces: Seq<i8>, player_id: i8, n: int) -> Seq<
    Mill,
>
    decreases n,
{
    if n <= 0 {
        Seq::empty()
    } else {
        let rest = still_standing_upto(held, pieces, player_id, n - 1);
        if mill_stands(pieces, held[n - 1], player_id) {
            rest.push(held[n - 1])
        } else {
            rest
        }
    }
}

/// Whether position `i` is part of a mill that stands for `player_id`.
pub open spec fn in_standing_mill(pieces: Seq<i8>, player_id: i8, i: int) -> bool {
    exists|k: int|
        0 <= k < 16 && (#[trigger] spec_line(k)).spec_contains(i as usize) && mill_stands(
            pieces,
            spec_line(k),
            player_id,
        )
}

/// Whether every piece of `player_id` is part of a standing mill.
pub open spec fn all_in_standing_mills(pieces: Seq<i8>, player_id: i8) -> bool {
    forall|i: int|
        0 <= i < 24 && #[trigger] pieces[i] == player_id ==> in_standing_mill(pieces, player_id, i)
}

/// Whether the piece on position `i` may be taken from `victim_id`: it is the
/// victim's, and it is outside every standing mill of the victim unless all
/// of the victim's pieces are inside one.
pub open spec fn capturable(pieces: Seq<i8>, victim_id: i8, i: int) -> bool {
    &&& pieces[i] == victim_id
    &&& (!in_standing_mill(pieces, victim_id, i) || all_in_standing_mills(pieces, victim_id))
}

/// The captures open on the first `n` positions, in the order of the board.
pub open spec fn captures_upto(pieces: Seq<i8>, capturer_id: i8, victim_id: i8, n: int) -> Seq<
    PlyView,
>
    decreases n,
{
    if n <= 0 {
        Seq::empty()
    } else {
        let rest = captures_upto(pieces, capturer_id, victim_id, n - 1);
        if capturable(pieces, victim_id, n - 1) {
            rest.push(PlyView::Mill { player_id: capturer_id, piece_id: spec_id(n - 1) })
        } else {
            rest
        }
    }
}

impl BoardView {
    /// The mills that stand for `player_id` and that the player was not yet
    /// seen to hold.
    pub open spec fn new_mills(self, player_id: i8) -> Seq<Mill> {
        let found = standing_mills(self.pieces, player_id);
        unknown_upto(found, self.held_mills(player_id), found.len() as int)
    }

    /// The board once the mills that stand for `player_id` are recorded as
    /// the mills the player holds.
    pub open spec fn update_mills(self, player_id: i8) -> BoardView {
        self.with_held_mills(player_id, standing_mills(self.pieces, player_id).to_set())
    }

    /// The captures open to `capturer_id` against `victim_id`.
    pub open spec fn available_mills(self, capturer_id: i8, victim_id: i8) -> Seq<PlyView> {
        captures_upto(self.pieces, capturer_id, victim_id, 24)
    }

    /// `player_id` taking the piece on the position called `id`: refused for
    /// an unknown id and for a piece that may not be taken. The opponent
    /// keeps, of the mills held, those that still stand.
    pub open spec fn perform_mill(self, player_id: i8, id: Seq<char>) -> Result<
        BoardView,
        GameError,
    > {
        let victim_id = spec_switch_player_id(player_id);
        match spec_index_of(id) {
            None => Err(GameError::UnknownPosition),
            Some(i) => if capturable(self.pieces, victim_id, i as int) {
                let taken = self.with_piece(i as int, 0);
                Ok(
                    taken.with_held_mills(
                        victim_id,
                        self.held_mills(victim_id).filter(
                            |m: Mill| mill_stands(taken.pieces, m, victim_id),
                        ),
                    ),
                )
            } else {
                Err(GameError::InvalidCapture)
            },
        }
    }
}

/// The line along side `side` of square `layer`.
pub fn ring_line(layer: usize, side: &Direction) -> (line: Mill)
    requires
        layer < 3,
    ensures
        line == spec_ring_line(layer as int, *side),
{
    let b = 8 * layer;
    match side {
        Direction::North => Mill { first: b + 1, second: b + 4, third: b },
        Direction::East => Mill { first: b + 1, second: b + 5, third: b + 3 },
        Direction::South => Mill { first: b + 3, second: b + 6, third: b + 2 },
        Direction::West => Mill { first: b, second: b + 7, third: b + 2 },
    }
}

/// The line through the three midpoints in direction `spoke`.
pub fn spoke_line(spoke: &Direction) -> (line: Mill)
    ensures
        line == spec_spoke_line(*spoke),
{
    match spoke {
        Direction::North => Mill { first: 4, second: 12, third: 20 },
        Direction::East => Mill { first: 5, second: 13, third: 21 },
        Direction::South => Mill { first: 6, second: 14, third: 22 },
        Direction::West => Mill { first: 7, second: 15, third: 23 },
    }
}

/// Line number `k` of the board.
pub fn board_line(k: usize) -> (line: Mill)
    requires
        k < 16,
    ensures
        line == spec_line(k as int),
{
    let directions = Direction::iterator();
    if k < 12 {
        ring_line(k / 4, &directions[k % 4])
    } else {
        spoke_line(&directions[k - 12])
    }
}

/// Whether `mills` holds `mill`.
pub fn holds_mill(mills: &Vec<Mill>, mill: &Mill) -> (found: bool)
    ensures
        found == mills@.contains(*mill),
{
    let mut k: usize = 0;
    while k < mills.len()
        invariant
            k <= mills@.len(),
            forall|j: int| 0 <= j < k ==> mills@[j] != *mill,
        decreases mills@.len() - k,
    {
        if mills[k] == *mill {
            assert(mills@[k as int] == *mill);
            return true;
        }
        k += 1;
    }
    false
}

impl Board {
    /// Whether `mill` stands for `player_id`.
    pub fn is_mill(&self, player_id: i8, mill: &Mill) -> (stands: bool)
        requires
            self.wf(),
        ensures
            stands == mill_stands(self@.pieces, *mill, player_id),
    {
        mill.first < 24 && mill.second < 24 && mill.third < 24 && self.piece_at(mill.first)
            == player_id && self.piece_at(mill.second) == player_id && self.piece_at(mill.third)
            == player_id
    }

    /// `mill`, if it stands for `player_id`.
    fn mill(&self, player_id: i8, mill: Mill) -> (found: Option<Mill>)
        requires
            self.wf(),
        ensures
            found == if mill_stands(self@.pieces, mill, player_id) {
                Some(mill)
            } else {
                None
            },
    {
        match self.is_mill(player_id, &mill) {
            true => Some(mill),
            false => None,
        }
    }

    /// The line along side `side` of square `layer`, if it stands for
    /// `player_id`.
    fn find_mill_for_side(&self, player_id: i8, layer: usize, side: &Direction) -> (found: Option<
        Mill,
    >)
        requires
            self.wf(),
            layer < 3,
        ensures
            found == if mill_stands(self@.pieces, spec_ring_line(layer as int, *side), player_id) {
                Some(spec_ring_line(layer as int, *side))
            } else {
                None
            },
    {
        self.mill(player_id, ring_line(layer, side))
    }

    /// The spoke line in direction `cross_section`, if it stands for
    /// `player_id`.
    fn find_mill_for_cross_section(&self, player_id: i8, cross_section: &Direction) -> (found:
        Option<Mill>)
        requires
            self.wf(),
        ensures
            found == if mill_stands(self@.pieces, spec_spoke_line(*cross_section), player_id) {
                Some(spec_spoke_line(*cross_section))
            } else {
                None
            },
    {
        self.mill(player_id, spoke_line(cross_section))
    }

    /// The mills that stand for `player_id`: the twelve ring lines are
    /// scanned square by square, then the four spoke lines.
    pub fn find_mills(&self, player_id: i8) -> (mills: Vec<Mill>)
        requires
            self.wf(),
        ensures
            mills@ == standing_mills(self@.pieces, player_id),
    {
        let mut mills: Vec<Mill> = Vec::new();
        let directions = Direction::iterator();
        let mut layer: usize = 0;
        while layer < 3
            invariant
                self.wf(),
                layer <= 3,
                directions@ == Direction::all(),
                mills@ == standing_upto(self@.pieces, player_id, 4 * layer),
            decreases 3 - layer,
        {
            let mut d: usize = 0;
            while d < 4
                invariant
                    self.wf(),
                    layer < 3,
                    d <= 4,
                    directions@ == Direction::all(),
                    mills@ == standing_upto(self@.pieces, player_id, 4 * layer + d),
                decreases 4 - d,
            {
                assert(directions@[d as int] == direction_at(d as int));
                assert(spec_line(4 * layer + d) == spec_ring_line(
                    layer as int,
                    direction_at(d as int),
                ));
                if let Some(mill) = self.find_mill_for_side(player_id, layer, &directions[d]) {
                    mills.push(mill);
                }
                d += 1;
            }
            layer += 1;
        }
        let mut d: usize = 0;
        while d < 4
            invariant
                self.wf(),
                d <= 4,
                directions@ == Direction::all(),
                mills@ == standing_upto(self@.pieces, player_id, 12 + d),
            decreases 4 - d,
        {
            assert(directions@[d as int] == direction_at(d as int));
            assert(spec_line(12 + d) == spec_spoke_line(direction_at(d as int)));
            if let Some(mill) = self.find_mill_for_cross_section(player_id, &directions[d]) {
                mills.push(mill);
            }
            d += 1;
        }
        mills
    }

    /// The mills that stand for `player_id` and are not among the mills the
    /// player was last seen to hold.
    pub fn new_mills(&self, player_id: i8) -> (mills: Vec<Mill>)
        requires
            self.wf(),
        ensures
            mills@ == self@.new_mills(player_id),
    {
        let found = self.find_mills(player_id);
        let held = self.held(player_id);
        let mut mills: Vec<Mill> = Vec::new();
        let mut k: usize = 0;
        while k < found.len()
            invariant
                k <= found@.len(),
                held@.to_set() == self@.held_mills(player_id),
                mills@ == unknown_upto(found@, self@.held_mills(player_id), k as int),
            decreases found@.len() - k,
        {
            if !holds_mill(held, &found[k]) {
                mills.push(found[k]);
            }
            k += 1;
        }
        mills
    }

    /// Whether a ply that formed `new_mills` grants a capture.
    pub fn can_mill(&self, player_id: i8, new_mills: &Vec<Mill>) -> (granted: bool)
        ensures
            granted == (new_mills@.len() > 0),
    {
        new_mills.len() > 0
    }

    /// Records the mills that stand for `player_id` as the mills the player
    /// holds, and tells whether any of them is new.
    pub fn update_mills(&mut self, player_id: i8) -> (formed: bool)
        requires
            old(self).wf(),
            is_player(player_id),
        ensures
            final(self).wf(),
            final(self)@ == old(self)@.update_mills(player_id),
            formed == (old(self)@.new_mills(player_id).len() > 0),
    {
        let new_mills = self.new_mills(player_id);
        let mills = self.find_mills(player_id);
        proof {
            lemma_standing_members(self@.pieces, player_id, 16);
        }
        self.set_held(player_id, mills);
        self.can_mill(player_id, &new_mills)
    }

    /// Whether the position at `index` is part of a mill that stands for
    /// `player_id`.
    pub fn in_standing_mill(&self, player_id: i8, index: usize) -> (protected: bool)
        requires
            self.wf(),
        ensures
            protected == in_standing_mill(self@.pieces, player_id, index as int),
    {
        let mut k: usize = 0;
        while k < LINE_COUNT
            invariant
                self.wf(),
                k <= 16,
                forall|j: int|
                    0 <= j < k ==> !((#[trigger] spec_line(j)).spec_contains(index) && mill_stands(
                        self@.pieces,
                        spec_line(j),
                        player_id,
                    )),
            decreases 16 - k,
        {
            let candidate = board_line(k);
            if candidate.contains(index) && self.is_mill(player_id, &candidate) {
                assert(spec_line(k as int).spec_contains(index));
                return true;
            }
            k += 1;
        }
        false
    }

    /// Whether every piece of `player_id` is part of a standing mill.
    pub fn all_in_standing_mills(&self, player_id: i8) -> (all: bool)
        requires
            self.wf(),
        ensures
            all == all_in_standing_mills(self@.pieces, player_id),
    {
        let mut i: usize = 0;
        while i < POSITION_COUNT
            invariant
                self.wf(),
                i <= 24,
                forall|j: int|
                    0 <= j < i && #[trigger] self@.pieces[j] == player_id ==> in_standing_mill(
                        self@.pieces,
                        player_id,
                        j,
                    ),
            decreases 24 - i,
        {
            if self.piece_at(i) == player_id && !self.in_standing_mill(player_id, i) {
                return false;
            }
            i += 1;
        }
        true
    }

    /// Whether the piece on the position at `index` may be taken from
    /// `victim_id`, given whether all of the victim's pieces are protected.
    fn can_be_taken(&self, victim_id: i8, index: usize, all_protected: bool) -> (eligible: bool)
        requires
            self.wf(),
            index < 24,
            all_protected == all_in_standing_mills(self@.pieces, victim_id),
        ensures
            eligible == capturable(self@.pieces, victim_id, index as int),
    {
        self.piece_at(index) == victim_id && (all_protected || !self.in_standing_mill(
            victim_id,
            index,
        ))
    }

    /// The captures open to `current_player_id` against `opponent_id`: every
    /// piece of the opponent outside the opponent's standing mills, or, when
    /// there is none, every piece of the opponent.
    pub fn available_mills(&self, current_player_id: i8, opponent_id: i8) -> (plies: Vec<Ply>)
        requires
            self.wf(),
        ensures
            plies_match(plies@, self@.available_mills(current_player_id, opponent_id)),
    {
        let all_protected = self.all_in_standing_mills(opponent_id);
        let mut plies: Vec<Ply> = Vec::new();
        let mut i: usize = 0;
        while i < POSITION_COUNT
            invariant
                self.wf(),
                i <= 24,
                all_protected == all_in_standing_mills(self@.pieces, opponent_id),
                plies_match(
                    plies@,
                    captures_upto(self@.pieces, current_player_id, opponent_id, i as int),
                ),
            decreases 24 - i,
        {
            if self.can_be_taken(opponent_id, i, all_protected) {
                let piece_id = self.get_id(Some(i));
                plies.push(Ply::Mill { player_id: current_player_id, piece_id });
            }
            i += 1;
        }
        plies
    }

    /// Drops from the mills held by `player_id` those that no longer stand.
    fn validate_mills(&mut self, player_id: i8)
        requires
            old(self).wf(),
        ensures
            final(self).wf(),
            final(self)@ == old(self)@.with_held_mills(
                player_id,
                old(self)@.held_mills(player_id).filter(
                    |m: Mill| mill_stands(old(self)@.pieces, m, player_id),
                ),
            ),
    {
        let held = self.held(player_id);
        let mut kept: Vec<Mill> = Vec::new();
        let mut k: usize = 0;
        while k < held.len()
            invariant
                self.wf(),
                k <= held@.len(),
                kept@ == still_standing_upto(held@, self@.pieces, player_id, k as int),
            decreases held@.len() - k,
        {
            if self.is_mill(player_id, &held[k]) {
                kept.push(held[k]);
            }
            k += 1;
        }
        proof {
            lemma_still_standing(held@, self@.pieces, player_id, held@.len() as int);
            assert(held@.take(held@.len() as int) =~= held@);
            assert(kept@.no_duplicates());
            let stands = |m: Mill| mill_stands(self@.pieces, m, player_id);
            assert forall|m: Mill| kept@.to_set().contains(m) <==> held@.to_set().filter(
                stands,
            ).contains(m) by {
                assert(kept@.contains(m) <==> mill_stands(self@.pieces, m, player_id)
                    && held@.contains(m));
                assert(stands(m) == mill_stands(self@.pieces, m, player_id));
            }
            assert(kept@.to_set() =~= held@.to_set().filter(
                |m: Mill| mill_stands(self@.pieces, m, player_id),
            ));
        }
        self.set_held(player_id, kept);
    }

    /// Takes for `player_id` the opponent's piece on the position called
    /// `piece_id`. The board is left as it is when the capture is refused.
    pub fn perform_mill(&mut self, player_id: i8, piece_id: &String) -> (outcome: Result<
        (),
        GameError,
    >)
        requires
            old(self).wf(),
            is_player(player_id),
        ensures
            final(self).wf(),
            match old(self)@.perform_mill(player_id, piece_id@) {
                Ok(taken) => outcome is Ok && final(self)@ == taken,
                Err(e) => outcome == Err::<(), GameError>(e) && final(self)@ == old(self)@,
            },
    {
        let opponent_id = switch_player_id(player_id);
        match self.index_of(piece_id) {
            None => Err(GameError::UnknownPosition),
            Some(index) => {
                let all_protected = self.all_in_standing_mills(opponent_id);
                if self.can_be_taken(opponent_id, index, all_protected) {
                    self.set_piece(index, 0);
                    self.validate_mills(opponent_id);
                    Ok(())
                } else {
                    Err(GameError::InvalidCapture)
                }
            },
        }
    }
}

/// The mills kept are exactly the held mills that still stand.
pub proof fn lemma_still_standing(held: Seq<Mill>, pieces: Seq<i8>, player_id: i8, n: int)
    requires
        0 <= n <= held.len(),
    ensures
        forall|m: Mill|
            still_standing_upto(held, pieces, player_id, n).contains(m) <==> mill_stands(
                pieces,
                m,
                player_id,
            ) && held.take(n).contains(m),
        held.no_duplicates() ==> still_standing_upto(held, pieces, player_id, n).no_duplicates(),
    decreases n,
{
    if n > 0 {
        lemma_still_standing(held, pieces, player_id, n - 1);
        let rest = still_standing_upto(held, pieces, player_id, n - 1);
        let all = still_standing_upto(held, pieces, player_id, n);
        let last = held[n - 1];
        assert(held.take(n) =~= held.take(n - 1).push(last));
        assert forall|m: Mill|
            all.contains(m) <==> mill_stands(pieces, m, player_id) && held.take(n).contains(m) by {
            lemma_push_contains(rest, last, m);
            lemma_push_contains(held.take(n - 1), last, m);
        }
        if held.no_duplicates() && mill_stands(pieces, last, player_id) {
            let before = held.take(n - 1);
            if before.contains(last) {
                let j = choose|j: int| 0 <= j < before.len() && before[j] == last;
                assert(held[j] == held[n - 1]);
            }
            assert(!rest.contains(last));
            assert forall|i: int, j: int| 0 <= i < all.len() && 0 <= j < all.len() && i != j implies all[i]
                != all[j] by {
                if i < rest.len() && j < rest.len() {
                } else if i < rest.len() {
                    assert(rest[i] == all[i]);
                    assert(rest.contains(all[i]));
                } else {
                    assert(rest[j] == all[j]);
                    assert(rest.contains(all[j]));
                }
            }
        }
    } else {
        assert(held.take(0) =~= Seq::<Mill>::empty());
        assert forall|m: Mill| !Seq::<Mill>::empty().contains(m) by {}
    }
}

} // verus!
