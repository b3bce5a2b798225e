//! The legality oracle, checkmate detection, and the validated move path.

use chess_engine::engine::{set_figure, Board, Positions};
use chess_engine::figures::{
    BLACK_KING, BLACK_QUEEN, BLACK_ROOK, CAPTURED, WHITE_KING, WHITE_PAWN, WHITE_ROOK,
};
use chess_engine::legality::{
    get_safe_moves, handle_move_request, is_board_valid, is_checkmate, MoveError,
};
use chess_engine::movegen::is_in_movement_set;

fn positions_with(king: (u8, u8, u8), extra: &[(usize, (u8, u8, u8))]) -> Positions {
    let mut ps = [(CAPTURED, 1u8, 1u8); 16];
    ps[0] = king;
    for &(slot, entry) in extra {
        ps[slot] = entry;
    }
    ps
}

/// White king on e1, black rook on e8, optionally a white pawn on e4 that
/// blocks the file.
fn rook_on_kings_file(with_blocker: bool) -> (Board, Positions, Positions) {
    let mut board: Board = [0u8; 66];
    board = set_figure(board, WHITE_KING, 5, 1);
    board = set_figure(board, BLACK_KING, 1, 8);
    board = set_figure(board, BLACK_ROOK, 5, 8);
    let mut white = positions_with((WHITE_KING, 5, 1), &[]);
    let black = positions_with((BLACK_KING, 1, 8), &[(6, (BLACK_ROOK, 5, 8))]);
    if with_blocker {
        board = set_figure(board, WHITE_PAWN, 5, 4);
        white[8] = (WHITE_PAWN, 5, 4);
    }
    (board, black, white)
}

#[test]
fn an_unblocked_rook_on_the_kings_file_is_unsafe() {
    let (board, black, white) = rook_on_kings_file(false);
    assert!(!is_board_valid(board, black, white, true));
}

#[test]
fn an_intervening_pawn_makes_the_same_board_safe() {
    let (board, black, white) = rook_on_kings_file(true);
    assert!(is_board_valid(board, black, white, true));
}

#[test]
fn moving_the_blocking_pawn_away_is_rejected() {
    // the pawn on the king's file is pinned: capturing nothing diagonally is
    // no move, and advancing it keeps the file closed, so test with a rook
    let mut board: Board = [0u8; 66];
    board = set_figure(board, WHITE_KING, 5, 1);
    board = set_figure(board, WHITE_ROOK, 5, 2);
    board = set_figure(board, BLACK_KING, 1, 8);
    board = set_figure(board, BLACK_ROOK, 5, 8);
    let white = positions_with((WHITE_KING, 5, 1), &[(6, (WHITE_ROOK, 5, 2))]);
    let black = positions_with((BLACK_KING, 1, 8), &[(6, (BLACK_ROOK, 5, 8))]);
    // sideways exposes the king: rejected
    let r = handle_move_request(board, black, white, true, (5, 2), (6, 2));
    assert_eq!(r.err(), Some(MoveError::InvalidMove));
    // up the file keeps the king covered: accepted
    let r = handle_move_request(board, black, white, true, (5, 2), (5, 5));
    assert!(r.is_ok());
    let (nb, _, nw) = r.unwrap();
    assert_eq!(chess_engine::engine::get_figure(nb, 5, 5), WHITE_ROOK);
    assert_eq!(nw[6], (WHITE_ROOK, 5, 5));
}

#[test]
fn safe_moves_truncate_each_ray_at_the_first_self_check() {
    let mut board: Board = [0u8; 66];
    board = set_figure(board, WHITE_KING, 5, 1);
    board = set_figure(board, WHITE_ROOK, 5, 2);
    board = set_figure(board, BLACK_KING, 1, 8);
    board = set_figure(board, BLACK_ROOK, 5, 8);
    let white = positions_with((WHITE_KING, 5, 1), &[(6, (WHITE_ROOK, 5, 2))]);
    let black = positions_with((BLACK_KING, 1, 8), &[(6, (BLACK_ROOK, 5, 8))]);
    let safe = get_safe_moves(board, black, white, true, WHITE_ROOK, 5, 2);
    assert!(is_in_movement_set(&safe, 5, 3));
    assert!(is_in_movement_set(&safe, 5, 8));
    assert!(!is_in_movement_set(&safe, 4, 2));
    assert!(!is_in_movement_set(&safe, 6, 2));
}

#[test]
fn move_requests_are_validated_in_order() {
    let (board, black, white) = chess_engine::engine::new_game(false);
    // empty origin square
    let r = handle_move_request(board, black, white, true, (4, 4), (4, 5));
    assert_eq!(r.err(), Some(MoveError::NoFigure));
    // the opponent's piece
    let r = handle_move_request(board, black, white, true, (5, 7), (5, 6));
    assert_eq!(r.err(), Some(MoveError::NotYourFigure));
    // a destination the piece cannot reach
    let r = handle_move_request(board, black, white, true, (5, 2), (5, 5));
    assert_eq!(r.err(), Some(MoveError::InvalidMove));
    // a proper opening move
    let r = handle_move_request(board, black, white, true, (5, 2), (5, 4));
    assert!(r.is_ok());
}

#[test]
fn a_cornered_king_facing_a_guarded_queen_is_checkmate() {
    let mut board: Board = [0u8; 66];
    board = set_figure(board, WHITE_KING, 1, 1);
    board = set_figure(board, BLACK_QUEEN, 2, 2);
    board = set_figure(board, BLACK_KING, 3, 3);
    let white = positions_with((WHITE_KING, 1, 1), &[]);
    let black = positions_with((BLACK_KING, 3, 3), &[(1, (BLACK_QUEEN, 2, 2))]);
    assert!(is_checkmate(board, black, white, true));
}

#[test]
fn a_stalemate_is_reported_as_checkmate_too() {
    // the white king is not attacked but has no safe move; the engine's test
    // does not tell the two apart, and that behaviour is kept as it is
    let mut board: Board = [0u8; 66];
    board = set_figure(board, WHITE_KING, 1, 1);
    board = set_figure(board, BLACK_QUEEN, 3, 2);
    board = set_figure(board, BLACK_KING, 8, 8);
    let white = positions_with((WHITE_KING, 1, 1), &[]);
    let black = positions_with((BLACK_KING, 8, 8), &[(1, (BLACK_QUEEN, 3, 2))]);
    assert!(is_board_valid(board, black, white, true));
    assert!(is_checkmate(board, black, white, true));
}

#[test]
fn a_free_king_is_not_checkmated() {
    let mut board: Board = [0u8; 66];
    board = set_figure(board, WHITE_KING, 4, 4);
    board = set_figure(board, BLACK_KING, 8, 8);
    let white = positions_with((WHITE_KING, 4, 4), &[]);
    let black = positions_with((BLACK_KING, 8, 8), &[]);
    assert!(!is_checkmate(board, black, white, true));
}
