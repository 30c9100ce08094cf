use tic_tac_toe::board::Board;
use tic_tac_toe::game::Marker;
use tic_tac_toe::input::parse_marker;
use tic_tac_toe::input::parse_yes_no;
use tic_tac_toe::input::validate_move;
use tic_tac_toe::mark::Mark;
use tic_tac_toe::player::Player;

#[test]
fn yes_answers_accepted_case_insensitively() {
    assert_eq!(parse_yes_no("y".as_bytes()), Some(true));
    assert_eq!(parse_yes_no("Y".as_bytes()), Some(true));
    assert_eq!(parse_yes_no("yes".as_bytes()), Some(true));
    assert_eq!(parse_yes_no("YES".as_bytes()), Some(true));
    assert_eq!(parse_yes_no("YeS".as_bytes()), Some(true));
}

#[test]
fn no_answers_accepted_case_insensitively() {
    assert_eq!(parse_yes_no("n".as_bytes()), Some(false));
    assert_eq!(parse_yes_no("N".as_bytes()), Some(false));
    assert_eq!(parse_yes_no("no".as_bytes()), Some(false));
    assert_eq!(parse_yes_no("NO".as_bytes()), Some(false));
}

#[test]
fn other_answers_rejected() {
    assert_eq!(parse_yes_no("".as_bytes()), None);
    assert_eq!(parse_yes_no("x".as_bytes()), None);
    assert_eq!(parse_yes_no("ye".as_bytes()), None);
    assert_eq!(parse_yes_no("yess".as_bytes()), None);
    assert_eq!(parse_yes_no("maybe".as_bytes()), None);
}

#[test]
fn valid_move_on_empty_cell_accepted() {
    let board = Board::new();
    assert_eq!(validate_move(&board, 0), Some(Mark { x: 0, y: 0 }));
    assert_eq!(validate_move(&board, 5), Some(Mark { x: 1, y: 2 }));
    assert_eq!(validate_move(&board, 8), Some(Mark { x: 2, y: 2 }));
}

#[test]
fn occupied_cell_rejected() {
    let board = Board::new().mark(1, 2, Player::Human);
    assert_eq!(validate_move(&board, 5), None);
    assert_eq!(validate_move(&board, 4), Some(Mark { x: 1, y: 1 }));
}

#[test]
fn out_of_range_index_rejected() {
    let board = Board::new();
    assert_eq!(validate_move(&board, 9), None);
    assert_eq!(validate_move(&board, 100), None);
}

#[test]
fn index_and_coordinates_are_a_bijection() {
    for i in 0..9usize {
        let mark = Mark::from(i);
        assert!(mark.x < 3 && mark.y < 3);
        assert_eq!(mark.index(), i);
    }
}

#[test]
fn marker_choice_parsed_case_insensitively() {
    assert_eq!(parse_marker("x".as_bytes()), Some(Marker::Cross));
    assert_eq!(parse_marker("X".as_bytes()), Some(Marker::Cross));
    assert_eq!(parse_marker("o".as_bytes()), Some(Marker::Naught));
    assert_eq!(parse_marker("O".as_bytes()), Some(Marker::Naught));
    assert_eq!(parse_marker("".as_bytes()), None);
    assert_eq!(parse_marker("xo".as_bytes()), None);
    assert_eq!(parse_marker("q".as_bytes()), None);
}
