//! The state machine of the game: whose turn it is, what kind of ply is
//! expected next, and how a ply leads from one position to the next.

use vstd::prelude::*;
use crate::board::{build, plies_match, Board, BoardView};
use crate::error::GameError;
use crate::game::{is_player, spec_switch_player_id, switch_player_id};
use crate::laws::{
    piece_count, lemma_count_update, lemma_places_count, lemma_nothing_without_pieces, lemma_standing_own_pieces,
    lemma_standing_members, lemma_places_members, lemma_moves_members,
    lemma_captures_members, places_at, moves_out_of, moves_between, captures_at,
    lemma_standing_after_removal, lemma_places_are_the_legal_places,
    lemma_moves_are_the_legal_moves, lemma_mills_are_the_legal_mills, lemma_new_mills_bound,
};
use crate::mill::Mill;
use crate::mills::standing_mills;
use crate::player_state::{PlayerState, PlayerStateView, WIN_SCORE};
use crate::ply::{Ply, PlyView};
use crate::topology::{spec_index_of, lemma_index_of_id, lemma_index_of_found};

verus! {

/// The house rules of a game.
#[derive(Clone, Copy, Debug, PartialEq, Eq, Structural)]
pub struct Rules {
    /// The score at which a player has won.
    pub win_score: i8,
    /// Whether a ply that closes two mills at once grants two captures
    /// rather than one.
    pub capture_per_mill: bool,
}

impl Rules {
    /// The usual rules: seven captures win, and every new mill grants a
    /// capture.
    pub open spec fn spec_standard() -> Rules {
        Rules { win_score: 7, capture_per_mill: true }
    }

    /// The usual rules: seven captures win, and every new mill grants a
    /// capture.
    pub fn standard() -> (rules: Rules)
        ensures
            rules == Rules::spec_standard(),
    {
        Rules { win_score: WIN_SCORE, capture_per_mill: true }
    }

    /// The number of captures that a ply grants which formed `formed` new
    /// mills.
    pub open spec fn captures_for(self, formed: nat) -> nat {
        if self.capture_per_mill || formed == 0 {
            formed
        } else {
            1
        }
    }
}

/// A placement by `player_id` that names no position.
pub open spec fn expect_placement(player_id: i8) -> PlyView {
    PlyView::Placement { player_id, piece_id: Seq::empty() }
}

/// A move by `player_id` that names no position.
pub open spec fn expect_move(player_id: i8) -> PlyView {
    PlyView::Move { player_id, from: Seq::empty(), to: Seq::empty() }
}

/// A capture by `player_id` that names no position.
pub open spec fn expect_mill(player_id: i8) -> PlyView {
    PlyView::Mill { player_id, piece_id: Seq::empty() }
}

/// A position of the game as plain mathematical values.
pub struct GameStateView {
    /// The occupant of each of the 24 positions.
    pub pieces: Seq<i8>,
    /// The player who acts next.
    pub current_player_id: i8,
    /// The kind of ply expected next and its player; it names no position.
    pub next_ply: PlyView,
    /// The ply that led to this position.
    pub ply_to_get_here: PlyView,
    pub player1_state: PlayerStateView,
    pub player2_state: PlayerStateView,
    /// The number of captures that the current player has yet to make.
    pub captures_left: nat,
    pub rules: Rules,
}

impl GameStateView {
    /// The board of this position: each player holds the mills that stand.
    pub open spec fn board(self) -> BoardView {
        BoardView {
            pieces: self.pieces,
            p1_mills: standing_mills(self.pieces, 1).to_set(),
            p2_mills: standing_mills(self.pieces, 2).to_set(),
        }
    }

    /// The counters of `player_id`.
    pub open spec fn player_state(self, player_id: i8) -> PlayerStateView {
        if player_id == 1 {
            self.player1_state
        } else {
            self.player2_state
        }
    }

    /// This position with `state` as the counters of `player_id`.
    pub open spec fn with_player_state(self, player_id: i8, state: PlayerStateView) -> GameStateView {
        if player_id == 1 {
            GameStateView { player1_state: state, ..self }
        } else {
            GameStateView { player2_state: state, ..self }
        }
    }

    /// The kind of ply that a position with these counters expects: a
    /// capture while one is outstanding, else a placement while the current
    /// player has pieces to place, else a move.
    pub open spec fn expected_ply(self) -> PlyView {
        if self.captures_left > 0 {
            expect_mill(self.current_player_id)
        } else if self.player_state(self.current_player_id).is_placement() {
            expect_placement(self.current_player_id)
        } else {
            expect_move(self.current_player_id)
        }
    }

    /// What holds of every position that a game can reach.
    pub open spec fn valid(self) -> bool {
        &&& self.pieces.len() == 24
        &&& forall|i: int| 0 <= i < 24 ==> 0 <= #[trigger] self.pieces[i] <= 2
        &&& is_player(self.current_player_id)
        &&& self.next_ply == self.expected_ply()
        &&& self.captures_left <= 16
        &&& 0 <= self.player1_state.pieces_left_to_place <= 9
        &&& 0 <= self.player2_state.pieces_left_to_place <= 9
        &&& 0 <= self.player1_state.score
        &&& 0 <= self.player2_state.score
        &&& piece_count(self.pieces, 1) + self.player1_state.pieces_left_to_place
            + self.player2_state.score == 9
        &&& piece_count(self.pieces, 2) + self.player2_state.pieces_left_to_place
            + self.player1_state.score == 9
    }

    /// The position before the first ply under `rules`.
    pub open spec fn at_beginning(rules: Rules) -> GameStateView {
        GameStateView {
            pieces: BoardView::empty().pieces,
            current_player_id: 1,
            next_ply: expect_placement(1),
            ply_to_get_here: PlyView::Root,
            player1_state: PlayerStateView::at_beginning(),
            player2_state: PlayerStateView::at_beginning(),
            captures_left: 0,
            rules,
        }
    }

    /// Whether `ply` is of the kind that this position expects, by the
    /// player whose turn it is.
    pub open spec fn expects(self, ply: PlyView) -> bool {
        ply.same_kind(self.next_ply) && ply.player_id() == self.current_player_id
    }

    /// This position with the turn handed to the opponent of the current
    /// player.
    pub open spec fn hand_over(self) -> GameStateView {
        let turned = GameStateView {
            current_player_id: spec_switch_player_id(self.current_player_id),
            captures_left: 0,
            ..self
        };
        GameStateView { next_ply: turned.expected_ply(), ..turned }
    }

    /// The number of captures that the current player earns by changing the
    /// board to `pieces`: one for each mill that stands then and did not
    /// stand before, or one in all where the rules grant no more.
    pub open spec fn captures_granted(self, pieces: Seq<i8>) -> nat {
        let changed = BoardView { pieces, ..self.board() };
        self.rules.captures_for(changed.new_mills(self.current_player_id).len())
    }

    /// The position after the current player, by `ply`, changed the board to
    /// `pieces` and the own counters to `state`: the player goes on to
    /// capture if the ply closed a mill, and the turn passes otherwise.
    pub open spec fn after_ply(self, ply: PlyView, pieces: Seq<i8>, state: PlayerStateView) -> GameStateView {
        let granted = self.captures_granted(pieces);
        let played = GameStateView { pieces, ply_to_get_here: ply, ..self }.with_player_state(
            self.current_player_id,
            state,
        );
        if granted > 0 {
            GameStateView {
                captures_left: granted,
                next_ply: expect_mill(self.current_player_id),
                ..played
            }
        } else {
            played.hand_over()
        }
    }

    /// The position after the current player places a piece by `ply`.
    /// Refused with `PhaseMismatch` unless a placement by the current player
    /// is expected, else as the board refuses the placement.
    pub open spec fn place_piece(self, ply: PlyView) -> Result<GameStateView, GameError> {
        match ply {
            PlyView::Placement { player_id, piece_id } => if !self.expects(ply) {
                Err(GameError::PhaseMismatch)
            } else {
                match self.board().place(player_id, piece_id) {
                    Err(e) => Err(e),
                    Ok(placed) => {
                        let state = self.player_state(player_id);
                        Ok(
                            self.after_ply(
                                ply,
                                placed.pieces,
                                PlayerStateView {
                                    pieces_left_to_place: (state.pieces_left_to_place - 1) as i8,
                                    ..state
                                },
                            ),
                        )
                    },
                }
            },
            _ => Err(GameError::PhaseMismatch),
        }
    }

    /// The position after the current player moves a piece by `ply`.
    /// Refused with `PhaseMismatch` unless a move by the current player is
    /// expected, else as the board refuses the move.
    pub open spec fn move_piece(self, ply: PlyView) -> Result<GameStateView, GameError> {
        match ply {
            PlyView::Move { player_id, from, to } => if !self.expects(ply) {
                Err(GameError::PhaseMismatch)
            } else {
                match self.board().move_piece(player_id, from, to) {
                    Err(e) => Err(e),
                    Ok(moved) => Ok(
                        self.after_ply(ply, moved.pieces, self.player_state(player_id)),
                    ),
                }
            },
            _ => Err(GameError::PhaseMismatch),
        }
    }

    /// The position after the current player takes a piece by `ply`: the
    /// piece is gone, the player's score is one higher, and the player goes
    /// on to capture while captures are outstanding. Refused with
    /// `PhaseMismatch` unless a capture by the current player is expected,
    /// else as the board refuses the capture.
    pub open spec fn mill_piece(self, ply: PlyView) -> Result<GameStateView, GameError> {
        match ply {
            PlyView::Mill { player_id, piece_id } => if !self.expects(ply) {
                Err(GameError::PhaseMismatch)
            } else {
                match self.board().perform_mill(player_id, piece_id) {
                    Err(e) => Err(e),
                    Ok(taken) => {
                        let state = self.player_state(player_id);
                        let scored = GameStateView {
                            pieces: taken.pieces,
                            ply_to_get_here: ply,
                            captures_left: (self.captures_left - 1) as nat,
                            ..self
                        }.with_player_state(
                            player_id,
                            PlayerStateView { score: (state.score + 1) as i8, ..state },
                        );
                        if scored.captures_left > 0 {
                            Ok(scored)
                        } else {
                            Ok(scored.hand_over())
                        }
                    },
                }
            },
            _ => Err(GameError::PhaseMismatch),
        }
    }

    /// The position after `ply`, whatever its kind.
    pub open spec fn apply(self, ply: PlyView) -> Result<GameStateView, GameError> {
        match ply {
            PlyView::Root => Err(GameError::PhaseMismatch),
            PlyView::Placement { .. } => self.place_piece(ply),
            PlyView::Move { .. } => self.move_piece(ply),
            PlyView::Mill { .. } => self.mill_piece(ply),
        }
    }

    /// The plies open in this position, in the order of the board.
    pub open spec fn legal_plies(self) -> Seq<PlyView> {
        let player_id = self.current_player_id;
        match self.next_ply {
            PlyView::Root => Seq::empty(),
            PlyView::Placement { .. } => self.board().available_places(player_id),
            PlyView::Move { .. } => self.board().available_moves(player_id),
            PlyView::Mill { .. } => self.board().available_mills(
                player_id,
                spec_switch_player_id(player_id),
            ),
        }
    }

    /// Whether `player_id` has won: by score, or because the opponent is
    /// past placement and cannot move.
    pub open spec fn player_has_won(self, player_id: i8) -> bool {
        let opponent_id = spec_switch_player_id(player_id);
        self.player_state(player_id).has_won_at(
            self.rules.win_score,
            self.board().available_moves(opponent_id).len(),
            self.player_state(opponent_id).is_placement(),
        )
    }
}

/// One position of a game: the board, whose turn it is, what kind of ply is
/// expected next, and both players' counters. A ply leads to a new value
/// and leaves the old one as it was.
#[derive(Debug)]
pub struct GameState {
    ply_to_get_here: Ply,
    next_ply: Ply,
    board: Board,
    current_player_id: i8,
    player1_state: PlayerState,
    player2_state: PlayerState,
    captures_left: usize,
    rules: Rules,
}

impl View for GameState {
    type V = GameStateView;

    closed spec fn view(&self) -> GameStateView {
        GameStateView {
            pieces: self.board@.pieces,
            current_player_id: self.current_player_id,
            next_ply: self.next_ply@,
            ply_to_get_here: self.ply_to_get_here@,
            player1_state: self.player1_state@,
            player2_state: self.player2_state@,
            captures_left: self.captures_left as nat,
            rules: self.rules,
        }
    }
}

impl Clone for GameState {
    fn clone(&self) -> (copy: Self)
        ensures
            copy@ == self@,
            copy.wf() == self.wf(),
    {
        GameState {
            ply_to_get_here: self.ply_to_get_here.clone(),
            next_ply: self.next_ply.clone(),
            board: self.board.clone(),
            current_player_id: self.current_player_id,
            player1_state: self.player1_state,
            player2_state: self.player2_state,
            captures_left: self.captures_left,
            rules: self.rules,
        }
    }
}

impl GameState {
    /// Whether the board is whole and records for each player the mills that
    /// stand.
    pub closed spec fn consistent(&self) -> bool {
        self.board.wf() && self.board@ == self@.board()
    }

    /// Whether this is a position that a game can reach.
    pub open spec fn wf(&self) -> bool {
        self.consistent() && self@.valid()
    }

    /// The position before the first ply under `rules`: an empty board, nine
    /// pieces to place for each player, and a placement by player 1 expected.
    pub fn with_rules(rules: Rules) -> (state: GameState)
        ensures
            state.wf(),
            state@ == GameStateView::at_beginning(rules),
    {
        let state = GameState {
            board: build(),
            ply_to_get_here: Ply::Root,
            next_ply: Ply::Placement { player_id: 1, piece_id: String::new() },
            current_player_id: 1,
            player1_state: PlayerState::at_beginning(),
            player2_state: PlayerState::at_beginning(),
            captures_left: 0,
            rules,
        };
        proof {
            let pieces = state.board@.pieces;
            lemma_nothing_without_pieces(pieces, 1, 16);
            lemma_nothing_without_pieces(pieces, 2, 16);
            lemma_nothing_without_pieces(pieces, 1, 24);
            lemma_nothing_without_pieces(pieces, 2, 24);
            assert(standing_mills(pieces, 1).to_set() =~= Set::<Mill>::empty());
            assert(standing_mills(pieces, 2).to_set() =~= Set::<Mill>::empty());
        }
        state
    }

    /// The position before the first ply under the usual rules.
    pub fn at_beginning() -> (state: GameState)
        ensures
            state.wf(),
            state@ == GameStateView::at_beginning(Rules::spec_standard()),
    {
        GameState::with_rules(Rules::standard())
    }

    /// The player who acts next.
    pub fn current_player_id(&self) -> (id: i8)
        ensures
            id == self@.current_player_id,
    {
        self.current_player_id
    }

    /// The kind of ply expected next and its player.
    pub fn next_ply(&self) -> (ply: &Ply)
        ensures
            ply@ == self@.next_ply,
    {
        &self.next_ply
    }

    /// The ply that led to this position.
    pub fn ply_to_get_here(&self) -> (ply: &Ply)
        ensures
            ply@ == self@.ply_to_get_here,
    {
        &self.ply_to_get_here
    }

    /// The board of this position.
    pub fn board(&self) -> (board: &Board)
        ensures
            board@.pieces == self@.pieces,
            self.wf() ==> board.wf() && board@ == self@.board(),
    {
        &self.board
    }

    /// The rules of this game.
    pub fn rules(&self) -> (rules: Rules)
        ensures
            rules == self@.rules,
    {
        self.rules
    }

    /// The number of captures that the current player has yet to make.
    pub fn captures_left(&self) -> (left: usize)
        ensures
            left == self@.captures_left,
    {
        self.captures_left
    }

    /// The counters of `player_id`.
    pub fn player_state(&self, player_id: i8) -> (state: &PlayerState)
        requires
            is_player(player_id),
        ensures
            state@ == self@.player_state(player_id),
    {
        if player_id == 1 {
            &self.player1_state
        } else {
            &self.player2_state
        }
    }

    /// The counters of the player who acts next.
    pub fn current_player_state(&self) -> (state: &PlayerState)
        requires
            self.wf(),
        ensures
            state@ == self@.player_state(self@.current_player_id),
    {
        self.player_state(self.current_player_id)
    }

    /// The counters of the opponent of the player who acts next.
    pub fn other_player_state(&self) -> (state: &PlayerState)
        requires
            self.wf(),
        ensures
            state@ == self@.player_state(spec_switch_player_id(self@.current_player_id)),
    {
        let other_id = switch_player_id(self.current_player_id);
        self.player_state(other_id)
    }

    /// The score of `player_id`.
    pub fn player_score(&self, player_id: i8) -> (score: i8)
        requires
            is_player(player_id),
        ensures
            score == self@.player_state(player_id).score,
    {
        self.player_state(player_id).score()
    }

    /// Replaces the counters of `player_id`.
    fn update_player_state(&mut self, player_id: i8, player_state: PlayerState)
        requires
            is_player(player_id),
        ensures
            final(self).player1_state == if player_id == 1 {
                player_state
            } else {
                old(self).player1_state
            },
            final(self).player2_state == if player_id == 1 {
                old(self).player2_state
            } else {
                player_state
            },
            final(self).board == old(self).board,
            final(self).ply_to_get_here == old(self).ply_to_get_here,
            final(self).next_ply == old(self).next_ply,
            final(self).current_player_id == old(self).current_player_id,
            final(self).captures_left == old(self).captures_left,
            final(self).rules == old(self).rules,
    {
        if player_id == 1 {
            self.player1_state = player_state;
        } else {
            self.player2_state = player_state;
        }
    }

    /// Whether the player who acts next is to capture.
    pub fn can_current_player_mill(&self) -> (capturing: bool)
        ensures
            capturing == (self@.next_ply is Mill && self@.next_ply.player_id()
                == self@.current_player_id),
    {
        let player_id = self.current_player_id;
        self.next_ply.is_mill() && (self.next_ply.player_id() == player_id)
    }

    /// The kind of ply expected after a ply of `player_id`: a capture by the
    /// same player if `can_mill`, otherwise a placement or a move by the
    /// opponent, whichever the opponent's counters call for.
    fn new_next_ply(&self, player_id: i8, can_mill: bool) -> (ply: Ply)
        requires
            is_player(player_id),
        ensures
            ply@ == if can_mill {
                expect_mill(player_id)
            } else if self@.player_state(spec_switch_player_id(player_id)).is_placement() {
                expect_placement(spec_switch_player_id(player_id))
            } else {
                expect_move(spec_switch_player_id(player_id))
            },
    {
        if can_mill {
            Ply::Mill { player_id, piece_id: String::new() }
        } else {
            let other_player_id = switch_player_id(player_id);
            if self.player_state(other_player_id).is_placement() {
                Ply::Placement { player_id: other_player_id, piece_id: String::new() }
            } else {
                Ply::Move { player_id: other_player_id, mv: (String::new(), String::new()) }
            }
        }
    }

    /// The placements open to the player who acts next.
    pub fn available_places(&self) -> (plies: Vec<Ply>)
        requires
            self.wf(),
        ensures
            plies_match(plies@, self@.board().available_places(self@.current_player_id)),
    {
        self.board.available_places(self.current_player_id)
    }

    /// The moves open to `player_id`.
    pub fn available_moves(&self, player_id: i8) -> (plies: Vec<Ply>)
        requires
            self.wf(),
        ensures
            plies_match(plies@, self@.board().available_moves(player_id)),
    {
        self.board.available_moves(player_id)
    }

    /// The captures open to `capturer_id` against `victim_id`.
    pub fn available_mills(&self, capturer_id: i8, victim_id: i8) -> (plies: Vec<Ply>)
        requires
            self.wf(),
        ensures
            plies_match(plies@, self@.board().available_mills(capturer_id, victim_id)),
    {
        self.board.available_mills(capturer_id, victim_id)
    }

    /// Whether `player_id` has won: by score, or because the opponent is
    /// past placement and cannot move.
    pub fn player_has_won(&self, player_id: i8) -> (won: bool)
        requires
            self.wf(),
            is_player(player_id),
        ensures
            won == self@.player_has_won(player_id),
    {
        let opponent_id = switch_player_id(player_id);
        let moves = self.board.available_moves(opponent_id);
        self.player_state(player_id).has_won_at(
            self.rules.win_score,
            &moves,
            self.player_state(opponent_id).is_placement(),
        )
    }

    /// Whether the player who acts next has won.
    pub fn current_player_has_won(&self) -> (won: bool)
        requires
            self.wf(),
        ensures
            won == self@.player_has_won(self@.current_player_id),
    {
        self.player_has_won(self.current_player_id)
    }

    /// Whether the opponent of the player who acts next has won.
    pub fn last_player_has_won(&self) -> (won: bool)
        requires
            self.wf(),
        ensures
            won == self@.player_has_won(spec_switch_player_id(self@.current_player_id)),
    {
        self.player_has_won(switch_player_id(self.current_player_id))
    }
}

/// Settles what follows a placement or a move of `player_id`: the player's
/// held mills are brought up to date, and either the player goes on to
/// capture, once for each capture the new mills grant, or the turn passes.
fn give_new_game_state(game_state: &mut GameState, player_id: i8)
    requires
        old(game_state).board.wf(),
        is_player(player_id),
    ensures
        final(game_state).board.wf(),
        final(game_state).board@ == old(game_state).board@.update_mills(player_id),
        final(game_state).ply_to_get_here == old(game_state).ply_to_get_here,
        final(game_state).player1_state == old(game_state).player1_state,
        final(game_state).player2_state == old(game_state).player2_state,
        final(game_state).rules == old(game_state).rules,
        final(game_state).captures_left == old(game_state).rules.captures_for(
            old(game_state).board@.new_mills(player_id).len(),
        ),
        final(game_state).current_player_id == if final(game_state).captures_left > 0 {
            player_id
        } else {
            spec_switch_player_id(player_id)
        },
        final(game_state).next_ply@ == if final(game_state).captures_left > 0 {
            expect_mill(player_id)
        } else if old(game_state)@.player_state(spec_switch_player_id(player_id)).is_placement() {
            expect_placement(spec_switch_player_id(player_id))
        } else {
            expect_move(spec_switch_player_id(player_id))
        },
{
    let formed = game_state.board.new_mills(player_id).len();
    let granted = if game_state.rules.capture_per_mill || formed == 0 {
        formed
    } else {
        1
    };
    let can_mill = game_state.can_mill_next(player_id);
    game_state.next_ply = game_state.new_next_ply(player_id, can_mill);
    game_state.current_player_id = game_state.next_ply.player_id();
    game_state.captures_left = granted;
}

impl GameState {
    /// Brings the mills held by `player_id` up to date and tells whether the
    /// player closed a new one.
    fn can_mill_next(&mut self, player_id: i8) -> (formed: bool)
        requires
            old(self).board.wf(),
            is_player(player_id),
        ensures
            final(self).board.wf(),
            final(self).board@ == old(self).board@.update_mills(player_id),
            formed == (old(self).board@.new_mills(player_id).len() > 0),
            final(self).ply_to_get_here == old(self).ply_to_get_here,
            final(self).next_ply == old(self).next_ply,
            final(self).current_player_id == old(self).current_player_id,
            final(self).player1_state == old(self).player1_state,
            final(self).player2_state == old(self).player2_state,
            final(self).captures_left == old(self).captures_left,
            final(self).rules == old(self).rules,
    {
        self.board.update_mills(player_id)
    }

    /// The position after the current player places a piece by
    /// `placement_ply`. This position is left as it is.
    pub fn place_piece(&self, placement_ply: Ply) -> (outcome: Result<GameState, GameError>)
        requires
            self.wf(),
        ensures
            match self@.place_piece(placement_ply@) {
                Ok(next) => outcome matches Ok(state) && state.wf() && state@ == next,
                Err(e) => outcome matches Err(refusal) && refusal == e,
            },
    {
        let expected = match (&placement_ply, &self.next_ply) {
            (Ply::Placement { .. }, Ply::Placement { .. }) => placement_ply.player_id()
                == self.current_player_id,
            _ => false,
        };
        if !expected {
            return Err(GameError::PhaseMismatch);
        }
        let player_id = placement_ply.player_id();
        let piece_id = placement_ply.piece_id();
        let mut game_state = self.clone();
        match game_state.board.place_piece(player_id, &piece_id) {
            Err(e) => {
                return Err(e);
            },
            Ok(()) => {},
        }
        let new_player_state = game_state.player_state(player_id).place_piece();
        game_state.update_player_state(player_id, new_player_state);
        game_state.ply_to_get_here = placement_ply;
        give_new_game_state(&mut game_state, player_id);
        proof {
            let index = spec_index_of(piece_id@)->0 as int;
            lemma_index_of_found(piece_id@);
            self.lemma_own_ply_keeps_consistent(game_state.board@.pieces);
            lemma_count_update(self@.pieces, index, player_id, 1, 24);
            lemma_count_update(self@.pieces, index, player_id, 2, 24);
            lemma_new_mills_bound(game_state.board@.pieces, player_id, self@.board().held_mills(player_id));
            assert(game_state@ == self@.place_piece(placement_ply@)->Ok_0);
        }
        Ok(game_state)
    }

    /// The position after the current player moves a piece by `move_ply`.
    /// This position is left as it is.
    pub fn move_piece(&self, move_ply: Ply) -> (outcome: Result<GameState, GameError>)
        requires
            self.wf(),
        ensures
            match self@.move_piece(move_ply@) {
                Ok(next) => outcome matches Ok(state) && state.wf() && state@ == next,
                Err(e) => outcome matches Err(refusal) && refusal == e,
            },
    {
        let expected = match (&move_ply, &self.next_ply) {
            (Ply::Move { .. }, Ply::Move { .. }) => move_ply.player_id() == self.current_player_id,
            _ => false,
        };
        if !expected {
            return Err(GameError::PhaseMismatch);
        }
        let player_id = move_ply.player_id();
        let (from_id, to_id) = move_ply.mv();
        let mut game_state = self.clone();
        match game_state.board.move_piece(player_id, &from_id, &to_id) {
            Err(e) => {
                return Err(e);
            },
            Ok(()) => {},
        }
        game_state.ply_to_get_here = move_ply;
        give_new_game_state(&mut game_state, player_id);
        proof {
            let from = spec_index_of(from_id@)->0 as int;
            let to = spec_index_of(to_id@)->0 as int;
            lemma_index_of_found(from_id@);
            lemma_index_of_found(to_id@);
            let lifted = self@.pieces.update(from, 0);
            self.lemma_own_ply_keeps_consistent(game_state.board@.pieces);
            lemma_count_update(self@.pieces, from, 0, 1, 24);
            lemma_count_update(self@.pieces, from, 0, 2, 24);
            lemma_count_update(lifted, to, player_id, 1, 24);
            lemma_count_update(lifted, to, player_id, 2, 24);
            lemma_new_mills_bound(
                game_state.board@.pieces,
                player_id,
                self@.board().held_mills(player_id),
            );
            assert(game_state@ == self@.move_piece(move_ply@)->Ok_0);
        }
        Ok(game_state)
    }

    /// The position after the current player takes a piece by `mill_ply`.
    /// This position is left as it is.
    pub fn mill_piece(&self, mill_ply: Ply) -> (outcome: Result<GameState, GameError>)
        requires
            self.wf(),
        ensures
            match self@.mill_piece(mill_ply@) {
                Ok(next) => outcome matches Ok(state) && state.wf() && state@ == next,
                Err(e) => outcome matches Err(refusal) && refusal == e,
            },
    {
        let expected = match (&mill_ply, &self.next_ply) {
            (Ply::Mill { .. }, Ply::Mill { .. }) => mill_ply.player_id() == self.current_player_id,
            _ => false,
        };
        if !expected {
            return Err(GameError::PhaseMismatch);
        }
        let player_id = mill_ply.player_id();
        let piece_id = mill_ply.piece_id();
        let mut game_state = self.clone();
        match game_state.board.perform_mill(player_id, &piece_id) {
            Err(e) => {
                return Err(e);
            },
            Ok(()) => {},
        }
        proof {
            let victim_id = spec_switch_player_id(player_id);
            let index = spec_index_of(piece_id@)->0 as int;
            lemma_index_of_found(piece_id@);
            lemma_standing_own_pieces(self@.pieces, game_state.board@.pieces, player_id, 16);
            lemma_standing_after_removal(self@.pieces, victim_id, index);
            lemma_count_update(self@.pieces, index, 0, 1, 24);
            lemma_count_update(self@.pieces, index, 0, 2, 24);
        }
        let new_player_state = game_state.player_state(player_id).increment_score();
        game_state.update_player_state(player_id, new_player_state);
        game_state.ply_to_get_here = mill_ply;
        game_state.captures_left = game_state.captures_left - 1;
        let can_mill = game_state.captures_left > 0;
        game_state.next_ply = game_state.new_next_ply(player_id, can_mill);
        game_state.current_player_id = game_state.next_ply.player_id();
        proof {
            assert(game_state@ == self@.mill_piece(mill_ply@)->Ok_0);
        }
        Ok(game_state)
    }

    /// The position after `ply`, whatever its kind. This position is left as
    /// it is.
    pub fn apply(&self, ply: Ply) -> (outcome: Result<GameState, GameError>)
        requires
            self.wf(),
        ensures
            match self@.apply(ply@) {
                Ok(next) => outcome matches Ok(state) && state.wf() && state@ == next,
                Err(e) => outcome matches Err(refusal) && refusal == e,
            },
    {
        match ply {
            Ply::Root => Err(GameError::PhaseMismatch),
            Ply::Placement { .. } => self.place_piece(ply),
            Ply::Move { .. } => self.move_piece(ply),
            Ply::Mill { .. } => self.mill_piece(ply),
        }
    }

    /// The plies open in this position, in the order of the board.
    pub fn legal_plies(&self) -> (plies: Vec<Ply>)
        requires
            self.wf(),
        ensures
            plies_match(plies@, self@.legal_plies()),
    {
        match self.next_ply {
            Ply::Root => Vec::new(),
            Ply::Placement { .. } => self.board.available_places(self.current_player_id),
            Ply::Move { .. } => self.board.available_moves(self.current_player_id),
            Ply::Mill { .. } => self.board.available_mills(
                self.current_player_id,
                switch_player_id(self.current_player_id),
            ),
        }
    }

    /// The positions that one ply leads to from this one: one for each ply
    /// open here, in the same order. The positions share nothing with this
    /// one or with each other.
    pub fn children(&self) -> (children: Vec<GameState>)
        requires
            self.wf(),
        ensures
            children@.len() == self@.legal_plies().len(),
            forall|k: int|
                0 <= k < children@.len() ==> (#[trigger] children@[k]).wf() && self@.apply(
                    self@.legal_plies()[k],
                ) == Ok::<GameStateView, GameError>(children@[k]@),
    {
        let plies = self.legal_plies();
        let mut children: Vec<GameState> = Vec::new();
        let mut k: usize = 0;
        while k < plies.len()
            invariant
                self.wf(),
                plies_match(plies@, self@.legal_plies()),
                k <= plies@.len(),
                children@.len() == k,
                forall|j: int|
                    0 <= j < k ==> (#[trigger] children@[j]).wf() && self@.apply(
                        self@.legal_plies()[j],
                    ) == Ok::<GameStateView, GameError>(children@[j]@),
            decreases plies@.len() - k,
        {
            proof {
                assert(plies@[k as int]@ == self@.legal_plies()[k as int]);
                assert(self@.legal_plies().contains(self@.legal_plies()[k as int]));
                lemma_legal_plies_are_accepted(self@, plies@[k as int]@);
            }
            match self.apply(plies[k].clone()) {
                Ok(child) => {
                    children.push(child);
                },
                Err(_) => {
                    assert(false);
                },
            }
            k += 1;
        }
        children
    }

    /// A board change that leaves the opponent's pieces where they are
    /// leaves the opponent's standing mills as they are.
    proof fn lemma_own_ply_keeps_consistent(&self, pieces: Seq<i8>)
        requires
            self.wf(),
            pieces.len() == 24,
            forall|i: int|
                0 <= i < 24 && pieces[i] != self@.pieces[i] ==> (pieces[i] == 0 || pieces[i]
                    == self@.current_player_id) && (self@.pieces[i] == 0 || self@.pieces[i]
                    == self@.current_player_id),
        ensures
            standing_mills(pieces, spec_switch_player_id(self@.current_player_id))
                == standing_mills(self@.pieces, spec_switch_player_id(self@.current_player_id)),
    {
        lemma_standing_own_pieces(
            self@.pieces,
            pieces,
            spec_switch_player_id(self@.current_player_id),
            16,
        );
    }
}

/// Every ply open in a position is of the kind that the position expects,
/// by the player whose turn it is.
pub proof fn lemma_legal_plies_are_expected(state: GameStateView, ply: PlyView)
    requires
        state.valid(),
        state.legal_plies().contains(ply),
    ensures
        state.expects(ply),
{
    let player_id = state.current_player_id;
    let victim_id = spec_switch_player_id(player_id);
    lemma_places_members(state.pieces, player_id, 24);
    lemma_moves_members(state.pieces, player_id, 24);
    lemma_captures_members(state.pieces, player_id, victim_id, 24);
    if state.next_ply is Placement {
        let i = choose|i: int| 0 <= i < 24 && places_at(state.pieces, player_id, ply, i);
    } else if state.next_ply is Move {
        let f = choose|f: int| 0 <= f < 24 && moves_out_of(state.pieces, player_id, ply, f);
        let t = choose|t: int| moves_between(state.pieces, player_id, ply, f, t);
    } else {
        let i = choose|i: int|
            0 <= i < 24 && captures_at(state.pieces, player_id, victim_id, ply, i);
    }
}

/// A position accepts a ply exactly when the ply is among the plies open in
/// it: the list of legal plies leaves none out and holds none too many.
pub proof fn lemma_legal_plies_are_accepted(state: GameStateView, ply: PlyView)
    requires
        state.valid(),
    ensures
        state.apply(ply) is Ok <==> state.legal_plies().contains(ply),
{
    let board = state.board();
    if state.legal_plies().contains(ply) {
        lemma_legal_plies_are_expected(state, ply);
    }
    match ply {
        PlyView::Root => {},
        PlyView::Placement { player_id, piece_id } => {
            lemma_places_are_the_legal_places(board, player_id, piece_id);
        },
        PlyView::Move { player_id, from, to } => {
            lemma_moves_are_the_legal_moves(board, player_id, from, to);
        },
        PlyView::Mill { player_id, piece_id } => {
            lemma_mills_are_the_legal_mills(board, player_id, piece_id);
        },
    }
}

/// While placements are expected, a position has one child for each empty
/// position of the board, no two for the same one, and in each child the
/// current player's piece stands on that one position and everything else
/// stands as before.
pub proof fn lemma_placement_children(state: GameStateView, k: int)
    requires
        state.valid(),
        state.next_ply is Placement,
        0 <= k < state.legal_plies().len(),
    ensures
        state.legal_plies().len() == piece_count(state.pieces, 0),
        state.legal_plies().no_duplicates(),
        exists|i: int|
            0 <= i < 24 && #[trigger] places_at(
                state.pieces,
                state.current_player_id,
                state.legal_plies()[k],
                i,
            ) && state.apply(state.legal_plies()[k]) is Ok && state.apply(
                state.legal_plies()[k],
            )->Ok_0.pieces == state.pieces.update(i, state.current_player_id),
{
    let player_id = state.current_player_id;
    let ply = state.legal_plies()[k];
    lemma_places_count(state.pieces, player_id, 24);
    lemma_places_members(state.pieces, player_id, 24);
    assert(state.legal_plies().contains(ply));
    let i = choose|i: int| 0 <= i < 24 && places_at(state.pieces, player_id, ply, i);
    lemma_index_of_id(i);
    assert(places_at(state.pieces, player_id, ply, i));
}

} // verus!
