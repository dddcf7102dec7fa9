use nineman::board::{build, position_id, Board};
use nineman::direction::Direction;
use nineman::error::GameError;
use nineman::mill::Mill;
use nineman::mills::{board_line, holds_mill, ring_line, spoke_line};
use nineman::ply::Ply;

fn id(name: &str) -> String {
    name.to_string()
}

fn all_ids() -> Vec<String> {
    let mut ids = Vec::new();
    for layer in 0..3 {
        for point in 0..8 {
            ids.push(position_id(layer, point));
        }
    }
    ids
}

fn place_all(board: &mut Board, player_id: i8, names: &[&str]) {
    for name in names {
        assert_eq!(board.place_piece(player_id, &id(name)), Ok(()));
    }
}

fn piece_ids(plies: &[Ply]) -> Vec<String> {
    plies.iter().map(|ply| ply.piece_id()).collect()
}

#[test]
fn it_works() {
    assert_eq!(2 + 2, 4);
}

#[test]
fn position_ids_follow_the_layout() {
    let ids = all_ids();
    let expected = vec![
        "0nw", "0ne", "0sw", "0se", "0n", "0e", "0s", "0w", "1nw", "1ne", "1sw", "1se", "1n",
        "1e", "1s", "1w", "2nw", "2ne", "2sw", "2se", "2n", "2e", "2s", "2w",
    ];
    assert_eq!(ids, expected);
    let board = build();
    for (index, name) in expected.iter().enumerate() {
        assert_eq!(board.index_of(&id(name)), Some(index));
        assert_eq!(board.get_id(Some(index)), *name);
        assert_eq!(board.position(index).id().as_str(), *name);
    }
    assert_eq!(board.get_id(None), "_");
}

#[test]
fn fresh_board_is_empty() {
    let board = build();
    for name in all_ids() {
        assert_eq!(board.occupant(&name), Ok(0));
        assert!(board.is_valid_position(&name));
        assert!(board.is_empty_position(&name));
    }
    assert!(board.find_mills(1).is_empty());
    assert!(board.find_mills(2).is_empty());
    assert_eq!(board.available_places(1).len(), 24);
    assert!(board.available_moves(1).is_empty());
    assert!(board.available_mills(1, 2).is_empty());
}

#[test]
fn unknown_ids_are_refused() {
    let mut board = build();
    for name in ["", "0", "3n", "0x", "0nww", "n0", "0N", "_"] {
        assert_eq!(board.index_of(&id(name)), None);
        assert!(!board.is_valid_position(&id(name)));
        assert!(!board.is_empty_position(&id(name)));
        assert_eq!(board.occupant(&id(name)), Err(GameError::UnknownPosition));
        assert_eq!(board.neighbors(&id(name)), Err(GameError::UnknownPosition));
        assert_eq!(board.place_piece(1, &id(name)), Err(GameError::UnknownPosition));
        assert_eq!(board.remove(&id(name)), Err(GameError::UnknownPosition));
        assert_eq!(board.move_piece(1, &id(name), &id("0n")), Err(GameError::UnknownPosition));
        assert_eq!(board.move_piece(1, &id("0n"), &id(name)), Err(GameError::UnknownPosition));
        assert_eq!(board.perform_mill(1, &id(name)), Err(GameError::UnknownPosition));
    }
}

#[test]
fn neighbors_of_chosen_positions() {
    let board = build();
    let expect = |name: &str, neighbours: &[&str]| {
        let found = board.neighbors(&id(name)).unwrap();
        let wanted: Vec<String> = neighbours.iter().map(|n| n.to_string()).collect();
        assert_eq!(found, wanted, "neighbours of {}", name);
    };
    expect("0nw", &["0n", "0w"]);
    expect("0ne", &["0n", "0e"]);
    expect("0sw", &["0w", "0s"]);
    expect("0se", &["0e", "0s"]);
    expect("0n", &["0ne", "0nw", "1n"]);
    expect("1n", &["0n", "1ne", "1nw", "2n"]);
    expect("2n", &["1n", "2ne", "2nw"]);
    expect("0e", &["0ne", "0se", "1e"]);
    expect("1e", &["1ne", "0e", "1se", "2e"]);
    expect("2e", &["2ne", "1e", "2se"]);
    expect("1s", &["1se", "0s", "1sw", "2s"]);
    expect("1w", &["1nw", "1sw", "0w", "2w"]);
    expect("2w", &["2nw", "2sw", "1w"]);
}

#[test]
fn neighbors_are_never_empty_and_symmetric() {
    let board = build();
    let ids = all_ids();
    let mut links = 0;
    for a in &ids {
        let from_a = board.neighbors(a).unwrap();
        assert!(!from_a.is_empty());
        assert!(from_a.len() <= 4);
        links += from_a.len();
        for b in &ids {
            let from_b = board.neighbors(b).unwrap();
            assert_eq!(from_a.contains(b), from_b.contains(a));
        }
        assert!(!from_a.contains(a));
    }
    assert_eq!(links, 64);
}

#[test]
fn directional_links_match_the_connections() {
    let board = build();
    for index in 0..24 {
        let position = board.position(index);
        let mut by_direction = Vec::new();
        for direction in Direction::iterator() {
            if let Some(to) = position.neighbour(direction) {
                by_direction.push(to);
            }
        }
        let mut connections = position.connections().clone();
        by_direction.sort();
        connections.sort();
        assert_eq!(by_direction, connections);
    }
    let north = board.get_position(&id("1n")).unwrap();
    assert_eq!(north.neighbour(Direction::North), Some(4));
    assert_eq!(north.neighbour(Direction::East), Some(9));
    assert_eq!(north.neighbour(Direction::South), Some(20));
    assert_eq!(north.neighbour(Direction::West), Some(8));
    let corner = board.get_position(&id("2se")).unwrap();
    assert_eq!(corner.neighbour(Direction::North), Some(21));
    assert_eq!(corner.neighbour(Direction::East), None);
    assert_eq!(corner.neighbour(Direction::South), None);
    assert_eq!(corner.neighbour(Direction::West), Some(22));
}

#[test]
fn sixteen_lines_cover_the_board() {
    let mut seen = vec![0usize; 24];
    let mut lines: Vec<Mill> = Vec::new();
    for k in 0..16 {
        let mill = board_line(k);
        assert!(mill.first < 24 && mill.second < 24 && mill.third < 24);
        assert_ne!(mill.first, mill.second);
        assert_ne!(mill.first, mill.third);
        assert_ne!(mill.second, mill.third);
        for other in &lines {
            let shared = [mill.first, mill.second, mill.third]
                .iter()
                .filter(|i| other.contains(**i))
                .count();
            assert!(shared <= 1);
        }
        assert!(!holds_mill(&lines, &mill));
        lines.push(mill);
        assert!(holds_mill(&lines, &mill));
        seen[mill.first] += 1;
        seen[mill.second] += 1;
        seen[mill.third] += 1;
    }
    assert_eq!(lines.len(), 16);
    for (index, count) in seen.iter().enumerate() {
        assert_eq!(*count, 2, "position {}", index);
    }
}

#[test]
fn lines_by_name() {
    let board = build();
    let ids_of = |mill: Mill| {
        vec![
            board.get_id(Some(mill.first)),
            board.get_id(Some(mill.second)),
            board.get_id(Some(mill.third)),
        ]
    };
    assert_eq!(ids_of(ring_line(0, &Direction::North)), ["0ne", "0n", "0nw"]);
    assert_eq!(ids_of(ring_line(1, &Direction::East)), ["1ne", "1e", "1se"]);
    assert_eq!(ids_of(ring_line(2, &Direction::South)), ["2se", "2s", "2sw"]);
    assert_eq!(ids_of(ring_line(2, &Direction::West)), ["2nw", "2w", "2sw"]);
    assert_eq!(ids_of(spoke_line(&Direction::North)), ["0n", "1n", "2n"]);
    assert_eq!(ids_of(spoke_line(&Direction::East)), ["0e", "1e", "2e"]);
    assert_eq!(ids_of(spoke_line(&Direction::South)), ["0s", "1s", "2s"]);
    assert_eq!(ids_of(spoke_line(&Direction::West)), ["0w", "1w", "2w"]);
    assert_eq!(board_line(0), ring_line(0, &Direction::North));
    assert_eq!(board_line(5), ring_line(1, &Direction::East));
    assert_eq!(board_line(11), ring_line(2, &Direction::West));
    assert_eq!(board_line(12), spoke_line(&Direction::North));
    assert_eq!(board_line(15), spoke_line(&Direction::West));
    assert_eq!(board_line(0), Mill { first: 1, second: 4, third: 0 });
    assert_eq!(board_line(14), Mill { first: 6, second: 14, third: 22 });
}

#[test]
fn a_single_full_line_is_the_only_mill() {
    for k in 0..16 {
        for player_id in [1i8, 2i8] {
            let mut board = build();
            let mill = board_line(k);
            for index in [mill.first, mill.second, mill.third] {
                let name = board.get_id(Some(index));
                assert_eq!(board.place_piece(player_id, &name), Ok(()));
            }
            assert_eq!(board.find_mills(player_id), vec![mill]);
            assert!(board.find_mills(3 - player_id).is_empty());
            assert!(board.is_mill(player_id, &mill));
            assert!(!board.is_mill(3 - player_id, &mill));
        }
    }
}

#[test]
fn two_pieces_on_a_line_are_no_mill() {
    let mut board = build();
    place_all(&mut board, 1, &["0nw", "0n"]);
    place_all(&mut board, 2, &["0ne"]);
    assert!(board.find_mills(1).is_empty());
    assert!(board.find_mills(2).is_empty());
    assert!(!board.is_mill(1, &Mill { first: 1, second: 4, third: 0 }));
    assert!(!board.is_mill(1, &Mill { first: 24, second: 4, third: 0 }));
}

#[test]
fn placing_on_an_occupied_position_is_refused() {
    let mut board = build();
    assert_eq!(board.place_piece(1, &id("1e")), Ok(()));
    assert_eq!(board.occupant(&id("1e")), Ok(1));
    assert!(!board.is_empty_position(&id("1e")));
    assert_eq!(board.place_piece(2, &id("1e")), Err(GameError::InvalidPlacement));
    assert_eq!(board.place_piece(1, &id("1e")), Err(GameError::InvalidPlacement));
    assert_eq!(board.occupant(&id("1e")), Ok(1));
    assert_eq!(board.available_places(2).len(), 23);
}

#[test]
fn available_places_lists_the_empty_positions() {
    let mut board = build();
    place_all(&mut board, 1, &["0nw", "1n"]);
    place_all(&mut board, 2, &["2w"]);
    let plies = board.available_places(2);
    let expected: Vec<Ply> = all_ids()
        .into_iter()
        .filter(|name| name != "0nw" && name != "1n" && name != "2w")
        .map(|name| Ply::Placement { player_id: 2, piece_id: name })
        .collect();
    assert_eq!(plies, expected);
}

#[test]
fn moves_need_ownership_room_and_adjacency() {
    let mut board = build();
    place_all(&mut board, 1, &["0nw", "0n"]);
    place_all(&mut board, 2, &["0w"]);
    // not the mover's piece
    assert_eq!(board.move_piece(2, &id("0nw"), &id("0n")), Err(GameError::IllegalMove));
    assert_eq!(board.move_piece(1, &id("0w"), &id("0sw")), Err(GameError::IllegalMove));
    // nothing to move
    assert_eq!(board.move_piece(1, &id("0ne"), &id("0e")), Err(GameError::IllegalMove));
    // destination occupied
    assert_eq!(board.move_piece(1, &id("0nw"), &id("0n")), Err(GameError::IllegalMove));
    assert_eq!(board.move_piece(1, &id("0nw"), &id("0w")), Err(GameError::IllegalMove));
    // not adjacent
    assert_eq!(board.move_piece(1, &id("0n"), &id("0e")), Err(GameError::IllegalMove));
    assert_eq!(board.move_piece(1, &id("0n"), &id("2n")), Err(GameError::IllegalMove));
    assert_eq!(board.move_piece(1, &id("0n"), &id("0n")), Err(GameError::IllegalMove));
    assert_eq!(board.occupant(&id("0nw")), Ok(1));
    assert_eq!(board.occupant(&id("0n")), Ok(1));
    assert_eq!(board.occupant(&id("0w")), Ok(2));
    // a legal step
    assert_eq!(board.move_piece(1, &id("0n"), &id("1n")), Ok(()));
    assert_eq!(board.occupant(&id("0n")), Ok(0));
    assert_eq!(board.occupant(&id("1n")), Ok(1));
    assert_eq!(board.move_piece(2, &id("0w"), &id("0sw")), Ok(()));
    assert_eq!(board.occupant(&id("0w")), Ok(0));
    assert_eq!(board.occupant(&id("0sw")), Ok(2));
}

#[test]
fn available_moves_lists_every_step_to_an_empty_neighbour() {
    let mut board = build();
    place_all(&mut board, 1, &["0nw", "1n", "2e"]);
    place_all(&mut board, 2, &["0n", "1ne"]);
    let mv = |from: &str, to: &str| Ply::Move { player_id: 1, mv: (id(from), id(to)) };
    let expected = vec![
        mv("0nw", "0w"),
        mv("1n", "1nw"),
        mv("1n", "2n"),
        mv("2e", "2ne"),
        mv("2e", "1e"),
        mv("2e", "2se"),
    ];
    assert_eq!(board.available_moves(1), expected);
    let mv2 = |from: &str, to: &str| Ply::Move { player_id: 2, mv: (id(from), id(to)) };
    assert_eq!(board.available_moves(2), vec![mv2("0n", "0ne"), mv2("1ne", "1e")]);
}

#[test]
fn available_moves_twice_gives_the_same() {
    let mut board = build();
    place_all(&mut board, 1, &["0nw", "1n", "2e", "2s"]);
    place_all(&mut board, 2, &["0n", "1ne", "0s"]);
    for player_id in [1i8, 2i8] {
        let first = board.available_moves(player_id);
        let second = board.available_moves(player_id);
        assert_eq!(first, second);
        assert!(!first.is_empty());
    }
}

#[test]
fn every_listed_move_is_accepted_and_can_be_taken_back() {
    let mut board = build();
    place_all(&mut board, 1, &["0nw", "1n", "2e", "2s"]);
    place_all(&mut board, 2, &["0n", "1ne", "0s"]);
    let before: Vec<i8> = (0..24).map(|i| board.piece_at(i)).collect();
    for player_id in [1i8, 2i8] {
        for ply in board.available_moves(player_id) {
            let (from, to) = ply.mv();
            assert_eq!(ply.player_id(), player_id);
            let mut moved = board.clone();
            assert_eq!(moved.move_piece(player_id, &from, &to), Ok(()));
            assert_eq!(moved.occupant(&from), Ok(0));
            assert_eq!(moved.occupant(&to), Ok(player_id));
            assert_eq!(moved.move_piece(player_id, &to, &from), Ok(()));
            let after: Vec<i8> = (0..24).map(|i| moved.piece_at(i)).collect();
            assert_eq!(after, before);
        }
    }
}

#[test]
fn remove_vacates_whatever_stands_there() {
    let mut board = build();
    place_all(&mut board, 2, &["2s"]);
    assert_eq!(board.remove(&id("2s")), Ok(()));
    assert_eq!(board.occupant(&id("2s")), Ok(0));
    assert_eq!(board.remove(&id("2s")), Ok(()));
    assert_eq!(board.occupant(&id("2s")), Ok(0));
}

#[test]
fn update_mills_reports_only_new_mills() {
    let mut board = build();
    place_all(&mut board, 1, &["0nw", "0n"]);
    assert!(!board.update_mills(1));
    place_all(&mut board, 1, &["0ne"]);
    place_all(&mut board, 2, &["1n", "2s", "1w"]);
    assert_eq!(board.new_mills(1), vec![board_line(0)]);
    assert!(board.can_mill(1, &board.new_mills(1)));
    assert!(board.update_mills(1));
    // the mill persists: it is not new a second time
    assert!(board.new_mills(1).is_empty());
    assert!(!board.can_mill(1, &board.new_mills(1)));
    assert!(!board.update_mills(1));
    assert!(!board.update_mills(2));
    assert_eq!(board.find_mills(1), vec![board_line(0)]);
    // opening and closing the mill makes it new again
    assert_eq!(board.move_piece(1, &id("0ne"), &id("0e")), Ok(()));
    assert!(!board.update_mills(1));
    assert!(board.find_mills(1).is_empty());
    assert_eq!(board.move_piece(1, &id("0e"), &id("0ne")), Ok(()));
    assert!(board.update_mills(1));
}

#[test]
fn one_ply_can_close_two_mills() {
    let mut board = build();
    place_all(&mut board, 1, &["0n", "0ne", "0w", "0sw"]);
    assert!(!board.update_mills(1));
    place_all(&mut board, 1, &["0nw"]);
    assert_eq!(board.new_mills(1), vec![board_line(0), board_line(3)]);
    assert!(board.update_mills(1));
    assert_eq!(board.find_mills(1), vec![board_line(0), board_line(3)]);
}

#[test]
fn captures_spare_pieces_in_standing_mills() {
    let mut board = build();
    place_all(&mut board, 1, &["0nw", "0n", "0ne"]);
    place_all(&mut board, 2, &["1n", "1ne", "1nw", "2s", "0w"]);
    assert!(board.update_mills(1));
    assert!(board.update_mills(2));
    let plies = board.available_mills(1, 2);
    assert_eq!(piece_ids(&plies), ["0w", "2s"]);
    for ply in &plies {
        assert!(ply.is_mill());
        assert_eq!(ply.player_id(), 1);
    }
    assert!(board.in_standing_mill(2, 12));
    assert!(!board.in_standing_mill(2, 22));
    assert!(!board.in_standing_mill(1, 12));
    assert!(!board.all_in_standing_mills(2));
    assert!(board.all_in_standing_mills(1));
    // a protected piece, an own piece and an empty position cannot be taken
    assert_eq!(board.perform_mill(1, &id("1n")), Err(GameError::InvalidCapture));
    assert_eq!(board.perform_mill(1, &id("0n")), Err(GameError::InvalidCapture));
    assert_eq!(board.perform_mill(1, &id("2n")), Err(GameError::InvalidCapture));
    assert_eq!(board.occupant(&id("1n")), Ok(2));
    assert_eq!(board.perform_mill(1, &id("2s")), Ok(()));
    assert_eq!(board.occupant(&id("2s")), Ok(0));
    assert_eq!(piece_ids(&board.available_mills(1, 2)), ["0w"]);
    // player 2 takes from player 1, whose pieces all stand in a mill
    assert_eq!(piece_ids(&board.available_mills(2, 1)), ["0nw", "0ne", "0n"]);
}

#[test]
fn when_every_piece_is_protected_all_can_be_taken() {
    let mut board = build();
    place_all(&mut board, 1, &["0nw", "0n", "0ne"]);
    place_all(&mut board, 2, &["1n", "1ne", "1nw"]);
    assert!(board.update_mills(1));
    assert!(board.update_mills(2));
    assert!(board.all_in_standing_mills(2));
    assert_eq!(piece_ids(&board.available_mills(1, 2)), ["1nw", "1ne", "1n"]);
    assert_eq!(board.perform_mill(1, &id("1ne")), Ok(()));
    assert_eq!(board.occupant(&id("1ne")), Ok(0));
    assert!(board.find_mills(2).is_empty());
    // the broken mill is forgotten: closing it again counts as new
    place_all(&mut board, 2, &["1ne"]);
    assert_eq!(board.new_mills(2), vec![board_line(4)]);
    assert!(board.update_mills(2));
}

#[test]
fn a_clone_shares_nothing_with_the_board() {
    let mut board = build();
    place_all(&mut board, 1, &["0nw"]);
    let mut copy = board.clone();
    place_all(&mut copy, 2, &["0n"]);
    assert_eq!(board.occupant(&id("0n")), Ok(0));
    assert_eq!(copy.occupant(&id("0n")), Ok(2));
    assert_eq!(copy.occupant(&id("0nw")), Ok(1));
}

#[test]
fn a_new_board_is_the_built_board() {
    let board = Board::new();
    let built = build();
    for index in 0..24 {
        assert_eq!(board.piece_at(index), 0);
        assert_eq!(board.position(index).id(), built.position(index).id());
        assert_eq!(board.position(index).connections(), built.position(index).connections());
    }
    assert!(board.new_mills(1).is_empty());
    assert!(board.new_mills(2).is_empty());
}

#[test]
fn closing_the_north_line_of_the_outer_square() {
    let mut board = build();
    place_all(&mut board, 2, &["1e", "2w", "0s"]);
    place_all(&mut board, 1, &["0nw", "0n", "0ne"]);
    assert_eq!(board.new_mills(1).len(), 1);
    assert_eq!(board.new_mills(1), vec![Mill { first: 1, second: 4, third: 0 }]);
    assert!(board.update_mills(1));
    assert_eq!(piece_ids(&board.available_mills(1, 2)), ["0s", "1e", "2w"]);
}
