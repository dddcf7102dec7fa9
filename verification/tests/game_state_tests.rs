use nineman::error::GameError;
use nineman::game::{switch_player_id, Action};
use nineman::game_state::{GameState, Rules};
use nineman::ply::Ply;

fn place(player_id: i8, name: &str) -> Ply {
    Ply::Placement { player_id, piece_id: name.to_string() }
}

fn step(player_id: i8, from: &str, to: &str) -> Ply {
    Ply::Move { player_id, mv: (from.to_string(), to.to_string()) }
}

fn take(player_id: i8, name: &str) -> Ply {
    Ply::Mill { player_id, piece_id: name.to_string() }
}

fn pieces(state: &GameState) -> Vec<i8> {
    (0..24).map(|i| state.board().piece_at(i)).collect()
}

/// Plays alternating placements, player 1 first; no ply may close a mill.
fn play_placements(mut state: GameState, first: &[&str], second: &[&str]) -> GameState {
    for k in 0..first.len() {
        state = state.place_piece(place(1, first[k])).unwrap();
        if k < second.len() {
            state = state.place_piece(place(2, second[k])).unwrap();
        }
    }
    state
}

const BLOCKED_ONE: [&str; 9] = ["0ne", "0e", "1nw", "1ne", "1se", "2nw", "2sw", "2n", "2s"];
const BLOCKING_TWO: [&str; 9] = ["0se", "0n", "1n", "1e", "1s", "1w", "2ne", "2se", "2w"];

#[test]
fn beginning_of_the_game() {
    let state = GameState::at_beginning();
    assert_eq!(state.current_player_id(), 1);
    assert_eq!(state.player_state(1).pieces_left_to_place(), 9);
    assert_eq!(state.player_state(2).pieces_left_to_place(), 9);
    assert_eq!(state.player_state(1).score(), 0);
    assert_eq!(state.player_state(2).score(), 0);
    assert_eq!(state.player_score(1), 0);
    assert_eq!(state.player_score(2), 0);
    assert_eq!(*state.next_ply(), place(1, ""));
    assert_eq!(*state.ply_to_get_here(), Ply::Root);
    assert_eq!(state.captures_left(), 0);
    assert_eq!(state.rules(), Rules { win_score: 7, capture_per_mill: true });
    assert_eq!(state.rules(), Rules::standard());
    assert_eq!(pieces(&state), vec![0i8; 24]);
    assert!(state.current_player_state().is_placement());
    assert!(state.other_player_state().is_placement());
    assert!(!state.can_current_player_mill());
    assert!(!state.current_player_has_won());
    assert!(!state.last_player_has_won());
    assert_eq!(state.legal_plies().len(), 24);
}

#[test]
fn a_placement_passes_the_turn() {
    let start = GameState::at_beginning();
    let state = start.place_piece(place(1, "0nw")).unwrap();
    assert_eq!(state.current_player_id(), 2);
    assert_eq!(*state.next_ply(), place(2, ""));
    assert_eq!(*state.ply_to_get_here(), place(1, "0nw"));
    assert_eq!(state.player_state(1).pieces_left_to_place(), 8);
    assert_eq!(state.player_state(2).pieces_left_to_place(), 9);
    assert_eq!(state.board().occupant(&"0nw".to_string()), Ok(1));
    // the position played from is untouched
    assert_eq!(start.current_player_id(), 1);
    assert_eq!(pieces(&start), vec![0i8; 24]);
    assert_eq!(start.player_state(1).pieces_left_to_place(), 9);
}

#[test]
fn plies_out_of_turn_are_refused() {
    let start = GameState::at_beginning();
    let refused = |outcome: Result<GameState, GameError>| outcome.err();
    assert_eq!(refused(start.place_piece(place(2, "0nw"))), Some(GameError::PhaseMismatch));
    assert_eq!(refused(start.place_piece(place(0, "0nw"))), Some(GameError::PhaseMismatch));
    assert_eq!(refused(start.place_piece(step(1, "0nw", "0n"))), Some(GameError::PhaseMismatch));
    assert_eq!(refused(start.place_piece(Ply::Root)), Some(GameError::PhaseMismatch));
    assert_eq!(refused(start.move_piece(step(1, "0nw", "0n"))), Some(GameError::PhaseMismatch));
    assert_eq!(refused(start.move_piece(place(1, "0nw"))), Some(GameError::PhaseMismatch));
    assert_eq!(refused(start.mill_piece(take(1, "0nw"))), Some(GameError::PhaseMismatch));
    assert_eq!(refused(start.mill_piece(place(1, "0nw"))), Some(GameError::PhaseMismatch));
    assert_eq!(refused(start.apply(Ply::Root)), Some(GameError::PhaseMismatch));
    assert_eq!(refused(start.apply(step(1, "0nw", "0n"))), Some(GameError::PhaseMismatch));
    assert_eq!(refused(start.apply(take(1, "0nw"))), Some(GameError::PhaseMismatch));
    assert_eq!(refused(start.apply(place(2, "0nw"))), Some(GameError::PhaseMismatch));
    // the phase is checked before the position
    assert_eq!(refused(start.place_piece(place(2, "nowhere"))), Some(GameError::PhaseMismatch));
}

#[test]
fn placements_on_bad_positions_are_refused() {
    let start = GameState::at_beginning();
    assert_eq!(start.place_piece(place(1, "9x")).err(), Some(GameError::UnknownPosition));
    assert_eq!(start.apply(place(1, "")).err(), Some(GameError::UnknownPosition));
    let state = start.place_piece(place(1, "0nw")).unwrap();
    assert_eq!(state.place_piece(place(2, "0nw")).err(), Some(GameError::InvalidPlacement));
    assert_eq!(state.apply(place(2, "0nw")).err(), Some(GameError::InvalidPlacement));
}

#[test]
fn children_of_a_placement_position() {
    let state = play_placements(GameState::at_beginning(), &["0nw", "1n"], &["2w"]);
    assert_eq!(state.current_player_id(), 2);
    let before = pieces(&state);
    let plies = state.legal_plies();
    let children = state.children();
    let empty: Vec<usize> = (0..24).filter(|i| before[*i] == 0).collect();
    assert_eq!(empty.len(), 21);
    assert_eq!(children.len(), empty.len());
    assert_eq!(plies.len(), empty.len());
    assert_eq!(plies, state.available_places());
    for (k, child) in children.iter().enumerate() {
        let mut expected = before.clone();
        expected[empty[k]] = 2;
        assert_eq!(pieces(child), expected);
        assert_eq!(*child.ply_to_get_here(), plies[k]);
        assert_eq!(plies[k], place(2, &state.board().get_id(Some(empty[k]))));
        assert_eq!(child.current_player_id(), 1);
        assert_eq!(*child.next_ply(), place(1, ""));
        assert_eq!(child.player_state(2).pieces_left_to_place(), 7);
        assert_eq!(child.player_state(1).pieces_left_to_place(), 7);
    }
    assert_eq!(pieces(&state), before);
}

#[test]
fn children_do_not_share_state() {
    let state = GameState::at_beginning();
    let children = state.children();
    assert_eq!(children.len(), 24);
    let grandchild = children[0].place_piece(place(2, "2s")).unwrap();
    assert_eq!(grandchild.board().occupant(&"2s".to_string()), Ok(2));
    for child in &children {
        assert_eq!(child.board().occupant(&"2s".to_string()).unwrap() , if *child.ply_to_get_here() == place(1, "2s") { 1 } else { 0 });
        assert_eq!(pieces(child).iter().filter(|p| **p != 0).count(), 1);
    }
    assert_eq!(pieces(&state), vec![0i8; 24]);
}

#[test]
fn closing_a_mill_grants_a_capture() {
    let state = play_placements(GameState::at_beginning(), &["0nw", "0n"], &["1n", "2s"]);
    let state = state.place_piece(place(1, "0ne")).unwrap();
    assert_eq!(state.current_player_id(), 1);
    assert_eq!(*state.next_ply(), take(1, ""));
    assert_eq!(state.captures_left(), 1);
    assert!(state.can_current_player_mill());
    assert_eq!(state.player_score(1), 0);
    assert_eq!(state.legal_plies(), vec![take(1, "1n"), take(1, "2s")]);
    assert_eq!(state.available_mills(1, 2), vec![take(1, "1n"), take(1, "2s")]);
    assert_eq!(state.children().len(), 2);
    // only a capture is accepted now
    assert_eq!(state.place_piece(place(1, "0e")).err(), Some(GameError::PhaseMismatch));
    assert_eq!(state.apply(place(2, "0e")).err(), Some(GameError::PhaseMismatch));
    assert_eq!(state.mill_piece(take(2, "0n")).err(), Some(GameError::PhaseMismatch));
    assert_eq!(state.mill_piece(take(1, "0n")).err(), Some(GameError::InvalidCapture));
    assert_eq!(state.mill_piece(take(1, "2n")).err(), Some(GameError::InvalidCapture));
    assert_eq!(state.mill_piece(take(1, "zz")).err(), Some(GameError::UnknownPosition));
    let after = state.mill_piece(take(1, "2s")).unwrap();
    assert_eq!(after.board().occupant(&"2s".to_string()), Ok(0));
    assert_eq!(after.player_score(1), 1);
    assert_eq!(after.player_score(2), 0);
    assert_eq!(after.captures_left(), 0);
    assert_eq!(after.current_player_id(), 2);
    assert_eq!(*after.next_ply(), place(2, ""));
    assert_eq!(*after.ply_to_get_here(), take(1, "2s"));
    assert_eq!(after.player_state(1).pieces_left_to_place(), 6);
    assert_eq!(after.player_state(2).pieces_left_to_place(), 7);
    // the standing mill grants nothing on later plies
    let later = after.place_piece(place(2, "2w")).unwrap().place_piece(place(1, "1s")).unwrap();
    assert_eq!(later.current_player_id(), 2);
    assert_eq!(later.captures_left(), 0);
}

#[test]
fn two_mills_in_one_ply_grant_two_captures() {
    let state = play_placements(
        GameState::at_beginning(),
        &["0n", "0ne", "0w", "0sw"],
        &["1n", "2s", "1e", "2w"],
    );
    let state = state.place_piece(place(1, "0nw")).unwrap();
    assert_eq!(state.captures_left(), 2);
    assert_eq!(state.current_player_id(), 1);
    let state = state.mill_piece(take(1, "1n")).unwrap();
    assert_eq!(state.captures_left(), 1);
    assert_eq!(state.current_player_id(), 1);
    assert_eq!(*state.next_ply(), take(1, ""));
    assert_eq!(state.player_score(1), 1);
    assert!(state.can_current_player_mill());
    let state = state.mill_piece(take(1, "2s")).unwrap();
    assert_eq!(state.captures_left(), 0);
    assert_eq!(state.current_player_id(), 2);
    assert_eq!(*state.next_ply(), place(2, ""));
    assert_eq!(state.player_score(1), 2);
    assert!(!state.can_current_player_mill());
}

#[test]
fn house_rule_of_one_capture_per_ply() {
    let rules = Rules { win_score: 3, capture_per_mill: false };
    let state = play_placements(
        GameState::with_rules(rules),
        &["0n", "0ne", "0w", "0sw"],
        &["1n", "2s", "1e", "2w"],
    );
    assert_eq!(state.rules(), rules);
    let state = state.place_piece(place(1, "0nw")).unwrap();
    assert_eq!(state.captures_left(), 1);
    let state = state.mill_piece(take(1, "1n")).unwrap();
    assert_eq!(state.captures_left(), 0);
    assert_eq!(state.current_player_id(), 2);
    assert_eq!(state.player_score(1), 1);
}

#[test]
fn reaching_the_win_score_wins() {
    let rules = Rules { win_score: 1, capture_per_mill: true };
    let state = play_placements(GameState::with_rules(rules), &["0nw", "0n"], &["1n", "2s"]);
    assert!(!state.player_has_won(1));
    let state = state.place_piece(place(1, "0ne")).unwrap();
    assert!(!state.current_player_has_won());
    let state = state.mill_piece(take(1, "1n")).unwrap();
    assert_eq!(state.current_player_id(), 2);
    assert!(state.last_player_has_won());
    assert!(state.player_has_won(1));
    assert!(!state.current_player_has_won());
    assert!(!state.player_has_won(2));
}

#[test]
fn after_nine_placements_each_the_players_move() {
    let state = play_placements(GameState::at_beginning(), &BLOCKED_ONE, &BLOCKING_TWO[..8]);
    assert_eq!(state.current_player_id(), 2);
    assert_eq!(*state.next_ply(), place(2, ""));
    assert_eq!(state.player_state(1).pieces_left_to_place(), 0);
    assert_eq!(state.player_state(2).pieces_left_to_place(), 1);
    assert!(!state.player_state(1).is_placement());
    let state = state.place_piece(place(2, BLOCKING_TWO[8])).unwrap();
    assert_eq!(state.current_player_id(), 1);
    assert_eq!(*state.next_ply(), step(1, "", ""));
    assert_eq!(state.player_state(2).pieces_left_to_place(), 0);
    assert_eq!(state.place_piece(place(1, "0nw")).err(), Some(GameError::PhaseMismatch));
}

#[test]
fn a_player_who_cannot_move_has_lost() {
    let state = play_placements(GameState::at_beginning(), &BLOCKED_ONE, &BLOCKING_TWO);
    assert_eq!(state.current_player_id(), 1);
    assert_eq!(state.current_player_state().pieces_left_to_place(), 0);
    assert!(state.available_moves(1).is_empty());
    assert!(state.legal_plies().is_empty());
    assert!(state.children().is_empty());
    assert!(state.player_has_won(2));
    assert!(state.last_player_has_won());
    assert!(!state.player_has_won(1));
    assert!(!state.current_player_has_won());
    assert_eq!(state.available_moves(2).len(), 9);
}

#[test]
fn moves_in_the_move_phase() {
    // as in the blocked position, but player 2 leaves 1w empty and takes 0s
    let second = ["0se", "0n", "1n", "1e", "1s", "0s", "2ne", "2se", "2w"];
    let state = play_placements(GameState::at_beginning(), &BLOCKED_ONE, &second);
    assert_eq!(*state.next_ply(), step(1, "", ""));
    assert_eq!(state.legal_plies(), vec![step(1, "1nw", "1w")]);
    assert_eq!(state.available_moves(1), vec![step(1, "1nw", "1w")]);
    assert!(!state.last_player_has_won());
    assert_eq!(state.move_piece(step(2, "0n", "0nw")).err(), Some(GameError::PhaseMismatch));
    assert_eq!(state.move_piece(step(1, "1nw", "0nw")).err(), Some(GameError::IllegalMove));
    assert_eq!(state.move_piece(step(1, "1nw", "1n")).err(), Some(GameError::IllegalMove));
    assert_eq!(state.move_piece(step(1, "0n", "0nw")).err(), Some(GameError::IllegalMove));
    assert_eq!(state.move_piece(step(1, "1nw", "??")).err(), Some(GameError::UnknownPosition));
    let before = pieces(&state);
    let children = state.children();
    assert_eq!(children.len(), 1);
    let moved = state.apply(step(1, "1nw", "1w")).unwrap();
    assert_eq!(pieces(&moved), pieces(&children[0]));
    assert_eq!(moved.board().occupant(&"1nw".to_string()), Ok(0));
    assert_eq!(moved.board().occupant(&"1w".to_string()), Ok(1));
    assert_eq!(moved.current_player_id(), 2);
    assert_eq!(*moved.next_ply(), step(2, "", ""));
    assert_eq!(*moved.ply_to_get_here(), step(1, "1nw", "1w"));
    assert_eq!(pieces(&state), before);
    // player 2 steps aside, player 1 steps back: the board is as before but for player 2's step
    let again = moved
        .move_piece(step(2, "2w", "2sw"))
        .err();
    assert_eq!(again, Some(GameError::IllegalMove));
    let aside = moved.move_piece(step(2, "0s", "0sw")).unwrap();
    let back = aside.move_piece(step(1, "1w", "1nw")).unwrap();
    let mut expected = before.clone();
    expected[6] = 0;
    expected[2] = 2;
    assert_eq!(pieces(&back), expected);
}

#[test]
fn switching_players() {
    assert_eq!(switch_player_id(1), 2);
    assert_eq!(switch_player_id(2), 1);
}

#[test]
fn the_next_action_asks_the_current_player() {
    let state = GameState::at_beginning();
    match state.next_action() {
        Action::Ask { player_id, plies } => {
            assert_eq!(player_id, 1);
            assert_eq!(plies, state.legal_plies());
            assert_eq!(plies.len(), 24);
        },
        Action::Finish { .. } => panic!("the game has only begun"),
    }
    let state = play_placements(state, &["0nw", "0n"], &["1n", "2s"]);
    let state = state.place_piece(place(1, "0ne")).unwrap();
    match state.next_action() {
        Action::Ask { player_id, plies } => {
            assert_eq!(player_id, 1);
            assert_eq!(plies, vec![take(1, "1n"), take(1, "2s")]);
        },
        Action::Finish { .. } => panic!("a capture is outstanding"),
    }
}

#[test]
fn the_next_action_ends_a_won_game() {
    let state = play_placements(GameState::at_beginning(), &BLOCKED_ONE, &BLOCKING_TWO);
    match state.next_action() {
        Action::Finish { winner_id } => assert_eq!(winner_id, 2),
        Action::Ask { .. } => panic!("player 1 cannot move"),
    }
    let rules = Rules { win_score: 1, capture_per_mill: true };
    let state = play_placements(GameState::with_rules(rules), &["0nw", "0n"], &["1n", "2s"]);
    let state = state.place_piece(place(1, "0ne")).unwrap();
    let state = state.mill_piece(take(1, "1n")).unwrap();
    match state.next_action() {
        Action::Finish { winner_id } => assert_eq!(winner_id, 1),
        Action::Ask { .. } => panic!("player 1 has reached the winning score"),
    }
}
