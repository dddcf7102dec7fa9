//! The two players and whose turn it is.

use vstd::prelude::*;
use crate::board::plies_match;
use crate::game_state::{GameState, GameStateView};
use crate::ply::Ply;

verus! {

/// Whether `player_id` names one of the two players.
pub open spec fn is_player(player_id: i8) -> bool {
    player_id == 1 || player_id == 2
}

/// The opponent of `player_id`.
pub open spec fn spec_switch_player_id(player_id: i8) -> i8 {
    if player_id == 1 {
        2
    } else {
        1
    }
}

/// The id of the opponent of `player_id`.
pub fn switch_player_id(player_id: i8) -> (other: i8)
    requires
        is_player(player_id),
    ensures
        other == spec_switch_player_id(player_id),
        is_player(other),
        other != player_id,
{
    if player_id == 1 {
        2
    } else {
        1
    }
}

/// What whoever runs a game does next.
#[derive(Debug)]
pub enum Action {
    /// Ask `player_id` for one of `plies`, then apply the ply chosen.
    Ask { player_id: i8, plies: Vec<Ply> },
    /// Stop: `winner_id` has won.
    Finish { winner_id: i8 },
}

impl GameStateView {
    /// Whether the game is over in this position: no capture is outstanding
    /// and the player who acted last has won.
    pub open spec fn is_over(self) -> bool {
        !(self.next_ply is Mill) && self.player_has_won(
            spec_switch_player_id(self.current_player_id),
        )
    }
}

impl GameState {
    /// What to do in this position: stop if the player who acted last has
    /// won, otherwise ask the current player for one of the plies open.
    /// While a capture is outstanding the game goes on, whatever the score.
    pub fn next_action(&self) -> (action: Action)
        requires
            self.wf(),
        ensures
            match action {
                Action::Finish { winner_id } => self@.is_over() && winner_id
                    == spec_switch_player_id(self@.current_player_id),
                Action::Ask { player_id, plies } => !self@.is_over() && player_id
                    == self@.current_player_id && plies_match(plies@, self@.legal_plies()),
            },
    {
        if !self.next_ply().is_mill() && self.last_player_has_won() {
            Action::Finish { winner_id: switch_player_id(self.current_player_id()) }
        } else {
            Action::Ask { player_id: self.current_player_id(), plies: self.legal_plies() }
        }
    }
}

} // verus!
