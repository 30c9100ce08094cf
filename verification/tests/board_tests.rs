use tic_tac_toe::board::Board;
use tic_tac_toe::board::Winner;
use tic_tac_toe::player::Player;
use tic_tac_toe::square::Square;

fn board_of(tiles: [Square; 9]) -> Board {
    Board { tiles }
}

#[test]
fn test_winner() {
    let board = Board {
        tiles: [
            Square::Computer, Square::Empty, Square::Human,
            Square::Empty, Square::Human, Square::Empty,
            Square::Computer, Square::Empty, Square::Empty,
        ],
    };

    assert_eq!(board.get_winner(), None);
}

#[test]
fn empty_board_has_no_winner() {
    assert_eq!(Board::new().get_winner(), None);
}

#[test]
fn winner_is_deterministic() {
    let board = board_of([
        Square::Computer, Square::Empty, Square::Human,
        Square::Empty, Square::Human, Square::Empty,
        Square::Computer, Square::Empty, Square::Empty,
    ]);
    assert_eq!(board.get_winner(), board.get_winner());
}

#[test]
fn full_tied_board_is_tie() {
    // X O X / X O O / O X X with the human as X.
    let board = board_of([
        Square::Human, Square::Computer, Square::Human,
        Square::Human, Square::Computer, Square::Computer,
        Square::Computer, Square::Human, Square::Human,
    ]);
    assert_eq!(board.get_winner(), Some(Winner::Tie));
}

#[test]
fn row_win_detected_with_empty_cells() {
    let board = Board::new()
        .mark(1, 0, Player::Human)
        .mark(1, 1, Player::Human)
        .mark(1, 2, Player::Human);
    assert_eq!(board.get_winner(), Some(Winner::Human));
}

#[test]
fn column_win_detected() {
    let board = Board::new()
        .mark(0, 2, Player::Computer)
        .mark(1, 2, Player::Computer)
        .mark(2, 2, Player::Computer);
    assert_eq!(board.get_winner(), Some(Winner::Computer));
}

#[test]
fn diagonal_wins_detected() {
    let main_diag = Board::new()
        .mark(0, 0, Player::Human)
        .mark(1, 1, Player::Human)
        .mark(2, 2, Player::Human);
    assert_eq!(main_diag.get_winner(), Some(Winner::Human));

    let anti_diag = Board::new()
        .mark(2, 0, Player::Computer)
        .mark(1, 1, Player::Computer)
        .mark(0, 2, Player::Computer);
    assert_eq!(anti_diag.get_winner(), Some(Winner::Computer));
}

#[test]
fn mark_leaves_original_intact() {
    let board = Board::new();
    let marked = board.mark(0, 0, Player::Human);
    assert_eq!(board.get(0, 0), Square::Empty);
    assert_eq!(marked.get(0, 0), Square::Human);
    for i in 1..9usize {
        assert_eq!(marked.get(i / 3, i % 3), Square::Empty);
    }
}

#[test]
fn moves_on_empty_board_yields_nine() {
    let mut moves = Board::new().moves(Player::Human);
    let mut count = 0usize;
    while let Some(_) = moves.next() {
        count += 1;
    }
    assert_eq!(count, 9);
}

#[test]
fn moves_yield_one_board_per_empty_cell_in_order() {
    let board = Board::new()
        .mark(0, 0, Player::Human)
        .mark(1, 1, Player::Computer);
    let mut moves = board.moves(Player::Human);
    let mut marked_cells: Vec<usize> = Vec::new();
    while let Some(next) = moves.next() {
        let mut changed: Vec<usize> = Vec::new();
        for i in 0..9usize {
            if next.get(i / 3, i % 3) != board.get(i / 3, i % 3) {
                changed.push(i);
            }
        }
        // each generated board differs in exactly one cell, which now
        // carries the moving player's marker
        assert_eq!(changed.len(), 1);
        assert_eq!(next.get(changed[0] / 3, changed[0] % 3), Square::Human);
        marked_cells.push(changed[0]);
    }
    assert_eq!(marked_cells, vec![1, 2, 3, 5, 6, 7, 8]);
}

#[test]
fn moves_on_full_board_yields_none() {
    let board = board_of([
        Square::Human, Square::Computer, Square::Human,
        Square::Human, Square::Computer, Square::Computer,
        Square::Computer, Square::Human, Square::Human,
    ]);
    let mut moves = board.moves(Player::Computer);
    assert!(moves.next().is_none());
}

#[test]
fn utility_of_terminal_boards_is_direct_score() {
    let human_win = Board::new()
        .mark(0, 0, Player::Human)
        .mark(0, 1, Player::Human)
        .mark(0, 2, Player::Human);
    assert_eq!(human_win.utility(Player::Human), 1);
    assert_eq!(human_win.utility(Player::Computer), -1);

    let tie = board_of([
        Square::Human, Square::Computer, Square::Human,
        Square::Human, Square::Computer, Square::Computer,
        Square::Computer, Square::Human, Square::Human,
    ]);
    assert_eq!(tie.utility(Player::Human), 0);
    assert_eq!(tie.utility(Player::Computer), 0);
}

#[test]
fn utility_is_always_a_unit_score() {
    let board = Board::new()
        .mark(0, 0, Player::Computer)
        .mark(1, 1, Player::Human);
    for player in [Player::Human, Player::Computer] {
        let u = board.utility(player);
        assert!(u == -1 || u == 0 || u == 1);
    }
}

#[test]
fn optimal_play_from_empty_board_is_a_draw() {
    // The opponent of the named player moves first in the evaluation;
    // from an empty board perfect play by both sides ties.
    assert_eq!(Board::new().utility(Player::Human), 0);
    assert_eq!(Board::new().utility(Player::Computer), 0);
}
