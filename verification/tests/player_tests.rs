use nineman::direction::Direction;
use nineman::error::GameError;
use nineman::game_state::GameState;
use nineman::mill::Mill;
use nineman::player::{picked, Human, InputError, Random};
use nineman::player_state::{PlayerState, STARTING_PIECES, STARTING_SCORE, WIN_SCORE};
use nineman::ply::Ply;
use nineman::position::Position;

fn place(player_id: i8, name: &str) -> Ply {
    Ply::Placement { player_id, piece_id: name.to_string() }
}

#[test]
fn player_state_counts_down_and_up() {
    let start = PlayerState::at_beginning();
    assert_eq!(start.score(), STARTING_SCORE);
    assert_eq!(start.pieces_left_to_place(), STARTING_PIECES);
    assert_eq!(start.score(), 0);
    assert_eq!(start.pieces_left_to_place(), 9);
    assert!(start.is_placement());
    let mut state = start;
    for left in (0..9).rev() {
        state = state.place_piece();
        assert_eq!(state.pieces_left_to_place(), left);
        assert_eq!(state.score(), 0);
    }
    assert!(!state.is_placement());
    let scored = state.increment_score().increment_score();
    assert_eq!(scored.score(), 2);
    assert_eq!(scored.pieces_left_to_place(), 0);
    assert_eq!(start.pieces_left_to_place(), 9);
}

#[test]
fn player_state_win_conditions() {
    assert_eq!(WIN_SCORE, 7);
    let mut state = PlayerState::at_beginning();
    let some_move = vec![Ply::Move { player_id: 2, mv: ("0n".to_string(), "0ne".to_string()) }];
    assert!(!state.has_won(some_move.clone(), false));
    assert!(!state.has_won(some_move.clone(), true));
    assert!(!state.has_won(Vec::new(), true));
    assert!(state.has_won(Vec::new(), false));
    for _ in 0..6 {
        state = state.increment_score();
    }
    assert!(!state.has_won(some_move.clone(), false));
    assert!(state.has_won_at(6, &some_move, true));
    assert!(!state.has_won_at(7, &some_move, true));
    state = state.increment_score();
    assert!(state.has_won(some_move.clone(), true));
    assert!(state.has_won(some_move, false));
}

#[test]
fn mill_contains_its_three_positions() {
    let mill = Mill { first: 1, second: 4, third: 0 };
    assert!(mill.contains(0));
    assert!(mill.contains(1));
    assert!(mill.contains(4));
    assert!(!mill.contains(2));
    assert!(!mill.contains(3));
}

#[test]
fn directions_in_order() {
    assert_eq!(
        Direction::iterator(),
        [Direction::North, Direction::East, Direction::South, Direction::West]
    );
}

#[test]
fn position_links_and_occupancy() {
    let mut position = Position::new("1n".to_string(), Some(4), None, Some(20), Some(8));
    assert_eq!(position.id(), "1n");
    assert_eq!(*position.connections(), vec![4, 20, 8]);
    assert_eq!(position.neighbour(Direction::North), Some(4));
    assert_eq!(position.neighbour(Direction::East), None);
    assert_eq!(position.neighbour(Direction::South), Some(20));
    assert_eq!(position.neighbour(Direction::West), Some(8));
    position.add_neighbour(Direction::East, Some(9));
    assert_eq!(position.neighbour(Direction::East), Some(9));
    assert_eq!(*position.connections(), vec![4, 20, 8, 9]);
    position.add_neighbour(Direction::South, None);
    assert_eq!(position.neighbour(Direction::South), None);
    assert_eq!(*position.connections(), vec![4, 20, 8, 9]);
    position.add_connection(Some(3));
    position.add_connection(None);
    assert_eq!(*position.connections(), vec![4, 20, 8, 9, 3]);
    assert!(position.connected_to(Some(&9)));
    assert!(position.connected_to(Some(&3)));
    assert!(!position.connected_to(Some(&5)));
    assert!(!position.connected_to(None));

    assert!(position.is_empty());
    assert_eq!(position.piece(), 0);
    assert!(!position.owned_by(1));
    assert_eq!(position.place(2), Ok(()));
    assert!(!position.is_empty());
    assert_eq!(position.piece(), 2);
    assert!(position.owned_by(2));
    assert!(!position.owned_by(1));
    assert_eq!(position.place(1), Err(GameError::InvalidPlacement));
    assert_eq!(position.piece(), 2);
    position.remove();
    assert!(position.is_empty());
    assert_eq!(position.place(1), Ok(()));
    assert_eq!(position.piece(), 1);
}

#[test]
fn blank_positions_and_equality_by_id() {
    let blank = Position::blank("0nw".to_string());
    assert!(blank.is_empty());
    assert!(blank.connections().is_empty());
    for direction in Direction::iterator() {
        assert_eq!(blank.neighbour(direction), None);
    }
    let mut other = Position::new("0nw".to_string(), Some(1), None, None, None);
    assert_eq!(other.place(1), Ok(()));
    assert!(blank == other);
    assert!(blank != Position::blank("0ne".to_string()));
    let copy = other.clone();
    assert_eq!(copy.piece(), 1);
    assert_eq!(*copy.connections(), vec![1]);
    assert_eq!(copy.id(), "0nw");
}

#[test]
fn plies_compare_by_kind_and_fields() {
    let placement = place(1, "0n");
    let capture = Ply::Mill { player_id: 1, piece_id: "0n".to_string() };
    let a_move = Ply::Move { player_id: 2, mv: ("0n".to_string(), "0ne".to_string()) };
    assert_eq!(placement, place(1, "0n"));
    assert_ne!(placement, place(2, "0n"));
    assert_ne!(placement, place(1, "0ne"));
    assert_ne!(placement, capture);
    assert_ne!(placement, Ply::Root);
    assert_eq!(Ply::Root, Ply::Root);
    assert_eq!(a_move, a_move.clone());
    assert_ne!(a_move, Ply::Move { player_id: 2, mv: ("0ne".to_string(), "0n".to_string()) });
    assert_ne!(a_move, Ply::Move { player_id: 1, mv: ("0n".to_string(), "0ne".to_string()) });
    assert_eq!(capture.clone(), capture);

    assert_eq!(Ply::Root.player_id(), 0);
    assert_eq!(placement.player_id(), 1);
    assert_eq!(capture.player_id(), 1);
    assert_eq!(a_move.player_id(), 2);
    assert_eq!(placement.piece_id(), "0n");
    assert_eq!(capture.piece_id(), "0n");
    assert_eq!(a_move.mv(), ("0n".to_string(), "0ne".to_string()));
    assert!(capture.is_mill());
    assert!(!placement.is_mill());
    assert!(!a_move.is_mill());
    assert!(!Ply::Root.is_mill());

    let list = vec![placement.clone(), a_move.clone()];
    assert!(placement.is_among(&list));
    assert!(a_move.is_among(&list));
    assert!(!capture.is_among(&list));
    assert!(!Ply::Root.is_among(&list));
    assert!(!placement.is_among(&Vec::new()));
}

#[test]
fn human_builds_plies_for_its_player() {
    let mut human = Human { player_id: 2 };
    assert_eq!(human.placement_ply("1s".to_string()), place(2, "1s"));
    assert_eq!(
        human.move_ply(("1s".to_string(), "2s".to_string())),
        Ply::Move { player_id: 2, mv: ("1s".to_string(), "2s".to_string()) }
    );
    assert_eq!(
        human.mill_ply("0w".to_string()),
        Ply::Mill { player_id: 2, piece_id: "0w".to_string() }
    );
    human.set_player_id(1);
    assert_eq!(human.placement_ply("1s".to_string()), place(1, "1s"));
}

#[test]
fn random_picks_one_of_the_plies_offered() {
    let mut random = Random { player_id: 1 };
    assert_eq!(random.pick(&Vec::new()), None);
    let only = vec![place(1, "2e")];
    assert_eq!(random.pick(&only), Some(place(1, "2e")));
    assert_eq!(random.get_placement(only.clone()), place(1, "2e"));
    assert_eq!(random.get_move(only.clone()), place(1, "2e"));
    assert_eq!(random.get_mill(only.clone()), place(1, "2e"));
    let state = GameState::at_beginning();
    let offered = state.legal_plies();
    let mut seen = Vec::new();
    for _ in 0..400 {
        let ply = random.get_placement(offered.clone());
        assert!(ply.is_among(&offered));
        if !ply.is_among(&seen) {
            seen.push(ply);
        }
    }
    assert!(seen.len() > 1);
    random.set_player_id(2);
    assert_eq!(random.player_id, 2);
}

#[test]
fn picked_copies_the_chosen_ply() {
    let offered = vec![place(1, "2e"), place(1, "0s")];
    assert_eq!(picked(&offered, Some(&offered[1])), Some(place(1, "0s")));
    assert_eq!(picked(&offered, Some(&offered[0])), Some(place(1, "2e")));
    assert_eq!(picked(&offered, None), None);
}

#[test]
fn a_random_game_only_sees_legal_positions() {
    let mut random = Random { player_id: 1 };
    let mut state = GameState::at_beginning();
    for _ in 0..300 {
        let offered = state.legal_plies();
        if offered.is_empty() {
            break;
        }
        assert_eq!(state.children().len(), offered.len());
        let ply = random.pick(&offered).unwrap();
        assert_eq!(ply.player_id(), state.current_player_id());
        let next = state.apply(ply.clone()).unwrap();
        assert_eq!(*next.ply_to_get_here(), ply);
        let on_board = |player: i8| {
            (0..24).filter(|i| next.board().piece_at(*i) == player).count() as i8
        };
        for player in [1i8, 2i8] {
            let left = next.player_state(player).pieces_left_to_place();
            let lost = next.player_state(3 - player).score();
            assert_eq!(on_board(player) + left + lost, 9);
        }
        state = next;
    }
}

#[test]
fn text_splits_at_every_comma() {
    let fields = |text: &str| nineman::player::split_on_commas(text);
    assert_eq!(fields(""), [""]);
    assert_eq!(fields("0n"), ["0n"]);
    assert_eq!(fields("0n,0e"), ["0n", "0e"]);
    assert_eq!(fields("a,,b"), ["a", "", "b"]);
    assert_eq!(fields(","), ["", ""]);
    assert_eq!(fields("a,"), ["a", ""]);
    assert_eq!(fields(",a"), ["", "a"]);
    assert_eq!(fields("1nw,1w,2w"), ["1nw", "1w", "2w"]);
    assert_eq!(fields("é,ü"), ["é", "ü"]);
}

#[test]
fn a_typed_move_is_its_first_two_fields() {
    let pair = |from: &str, to: &str| Some((from.to_string(), to.to_string()));
    assert_eq!(Human::parse_move("0n,0e"), pair("0n", "0e"));
    assert_eq!(Human::parse_move("1nw,1w,2w"), pair("1nw", "1w"));
    assert_eq!(Human::parse_move(","), pair("", ""));
    assert_eq!(Human::parse_move("a,"), pair("a", ""));
    assert_eq!(Human::parse_move(",0e"), pair("", "0e"));
    assert_eq!(Human::parse_move("0n 0e,x"), pair("0n 0e", "x"));
    assert_eq!(Human::parse_move("0n"), None);
    assert_eq!(Human::parse_move(""), None);
    assert_eq!(Human::parse_move("0n;0e"), None);
}

#[test]
fn typed_plies_must_be_on_offer() {
    let human = Human { player_id: 1 };
    let places = vec![place(1, "0n"), place(1, "0e")];
    assert_eq!(human.read_placement("0e".to_string(), &places), Ok(place(1, "0e")));
    assert_eq!(human.read_placement("0s".to_string(), &places), Err(InputError::NotAvailable));
    assert_eq!(human.read_placement("".to_string(), &places), Err(InputError::NotAvailable));
    assert_eq!(
        Human { player_id: 2 }.read_placement("0e".to_string(), &places),
        Err(InputError::NotAvailable)
    );

    let step = |from: &str, to: &str| Ply::Move {
        player_id: 1,
        mv: (from.to_string(), to.to_string()),
    };
    let moves = vec![step("0n", "0ne"), step("1w", "2w")];
    assert_eq!(human.read_move("1w,2w", &moves), Ok(step("1w", "2w")));
    assert_eq!(human.read_move("0n,0ne,0e", &moves), Ok(step("0n", "0ne")));
    assert_eq!(human.read_move("2w,1w", &moves), Err(InputError::NotAvailable));
    assert_eq!(human.read_move("0n,0nw", &moves), Err(InputError::NotAvailable));
    assert_eq!(human.read_move("1w", &moves), Err(InputError::Malformed));
    assert_eq!(human.read_move("", &moves), Err(InputError::Malformed));
    assert_eq!(human.read_move("1w 2w", &moves), Err(InputError::Malformed));

    let capture = |name: &str| Ply::Mill { player_id: 1, piece_id: name.to_string() };
    let mills = vec![capture("2s")];
    assert_eq!(human.read_mill("2s".to_string(), &mills), Ok(capture("2s")));
    assert_eq!(human.read_mill("2n".to_string(), &mills), Err(InputError::NotAvailable));
    assert_eq!(human.read_mill("2s".to_string(), &places), Err(InputError::NotAvailable));
}

#[test]
fn directions_by_name() {
    assert_eq!(Direction::from_name("north"), Some(Direction::North));
    assert_eq!(Direction::from_name("east"), Some(Direction::East));
    assert_eq!(Direction::from_name("south"), Some(Direction::South));
    assert_eq!(Direction::from_name("west"), Some(Direction::West));
    assert_eq!(Direction::from_name("North"), None);
    assert_eq!(Direction::from_name("n"), None);
    assert_eq!(Direction::from_name(""), None);
    assert_eq!(Direction::from_name("northeast"), None);
}

#[test]
fn links_added_by_the_name_of_the_direction() {
    let mut position = Position::blank("0nw".to_string());
    position.add_position("east", Some(4));
    position.add_position("south", Some(7));
    position.add_position("north", None);
    assert_eq!(position.neighbour(Direction::East), Some(4));
    assert_eq!(position.neighbour(Direction::South), Some(7));
    assert_eq!(position.neighbour(Direction::North), None);
    assert_eq!(position.neighbour(Direction::West), None);
    assert_eq!(*position.connections(), vec![4, 7]);
    position.add_position("west", Some(2));
    assert_eq!(position.neighbour(Direction::West), Some(2));
    assert_eq!(*position.connections(), vec![4, 7, 2]);
}
