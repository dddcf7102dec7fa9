use vstd::prelude::*;
use crate::ply::Ply;

verus! {

/// The number of captures that wins the game unless the rules say otherwise.
pub const WIN_SCORE: i8 = 7;

/// The score of a player before the first ply.
pub const STARTING_SCORE: i8 = 0;

/// The number of pieces each player has to place.
pub const STARTING_PIECES: i8 = 9;

/// A player's counters as plain values.
pub struct PlayerStateView {
    /// The number of pieces taken from the opponent.
    pub score: i8,
    /// The number of pieces not yet placed.
    pub pieces_left_to_place: i8,
}

impl PlayerStateView {
    /// The counters before the first ply.
    pub open spec fn at_beginning() -> PlayerStateView {
        PlayerStateView { score: 0, pieces_left_to_place: 9 }
    }

    /// Whether the player still has a piece to place.
    pub open spec fn is_placement(self) -> bool {
        self.pieces_left_to_place > 0
    }

    /// Whether the player has won at the threshold `win_score`: by score, or
    /// because the opponent is past placement with `other_player_moves`
    /// moves open and that number is zero.
    pub open spec fn has_won_at(
        self,
        win_score: i8,
        other_player_moves: nat,
        other_player_placement: bool,
    ) -> bool {
        self.score >= win_score || (!other_player_placement && other_player_moves == 0)
    }
}

/// A player's score and the number of pieces the player has yet to place.
#[derive(Clone, Copy, Debug, PartialEq, Eq, Structural)]
pub struct PlayerState {
    score: i8,
    pieces_left_to_place: i8,
}

impl View for PlayerState {
    type V = PlayerStateView;

    closed spec fn view(&self) -> PlayerStateView {
        PlayerStateView { score: self.score, pieces_left_to_place: self.pieces_left_to_place }
    }
}

impl PlayerState {
    /// The counters before the first ply: no score, nine pieces to place.
    pub fn at_beginning() -> (state: PlayerState)
        ensures
            state@ == PlayerStateView::at_beginning(),
    {
        PlayerState { score: STARTING_SCORE, pieces_left_to_place: STARTING_PIECES }
    }

    /// Whether the player still has a piece to place.
    pub fn is_placement(&self) -> (placing: bool)
        ensures
            placing == self@.is_placement(),
    {
        self.pieces_left_to_place > 0
    }

    /// The counters after the player placed one piece.
    pub fn place_piece(&self) -> (state: PlayerState)
        requires
            self@.is_placement(),
        ensures
            state@ == (PlayerStateView {
                pieces_left_to_place: (self@.pieces_left_to_place - 1) as i8,
                ..self@
            }),
    {
        PlayerState { score: self.score, pieces_left_to_place: self.pieces_left_to_place - 1 }
    }

    /// The counters after the player took one piece.
    pub fn increment_score(&self) -> (state: PlayerState)
        requires
            self@.score < i8::MAX,
        ensures
            state@ == (PlayerStateView { score: (self@.score + 1) as i8, ..self@ }),
    {
        PlayerState { score: self.score + 1, pieces_left_to_place: self.pieces_left_to_place }
    }

    /// Whether the player has won at the threshold `win_score`: by score, or
    /// because the opponent is past placement and has no move open.
    pub fn has_won_at(
        &self,
        win_score: i8,
        other_player_available_moves: &Vec<Ply>,
        other_player_placement: bool,
    ) -> (won: bool)
        ensures
            won == self@.has_won_at(
                win_score,
                other_player_available_moves@.len(),
                other_player_placement,
            ),
    {
        self.score >= win_score || (!other_player_placement && other_player_available_moves.len()
            == 0)
    }

    /// Whether the player has won at the usual threshold.
    pub fn has_won(&self, other_player_available_moves: Vec<Ply>, other_player_placement: bool) -> (won:
        bool)
        ensures
            won == self@.has_won_at(
                WIN_SCORE,
                other_player_available_moves@.len(),
                other_player_placement,
            ),
    {
        self.has_won_at(WIN_SCORE, &other_player_available_moves, other_player_placement)
    }

    /// The number of pieces taken from the opponent.
    pub fn score(&self) -> (score: i8)
        ensures
            score == self@.score,
    {
        self.score
    }

    /// The number of pieces not yet placed.
    pub fn pieces_left_to_place(&self) -> (left: i8)
        ensures
            left == self@.pieces_left_to_place,
    {
        self.pieces_left_to_place
    }
}

} // verus!
