//! State transition behaviour: captures, promotion, castling, rights.

use chess_engine::engine::{get_figure, new_game, set_figure, Board, Positions};
use chess_engine::figures::{
    BLACK_KING, BLACK_PAWN, BLACK_QUEEN, CAPTURED, WHITE_KING, WHITE_PAWN, WHITE_QUEEN, WHITE_ROOK,
};
use chess_engine::transition::move_figure;

fn lone_kings() -> (Board, Positions, Positions) {
    let mut board: Board = [0u8; 66];
    board = set_figure(board, WHITE_KING, 5, 1);
    board = set_figure(board, BLACK_KING, 5, 8);
    let mut white = [(CAPTURED, 1u8, 1u8); 16];
    white[0] = (WHITE_KING, 5, 1);
    let mut black = [(CAPTURED, 1u8, 1u8); 16];
    black[0] = (BLACK_KING, 5, 8);
    (board, black, white)
}

#[test]
fn a_simple_move_updates_both_representations() {
    let (board, black, white) = new_game(false);
    let (board, black, white) = move_figure(board, black, white, WHITE_PAWN, 5, 2, 5, 4, true);
    assert_eq!(get_figure(board, 5, 2), 0);
    assert_eq!(get_figure(board, 5, 4), WHITE_PAWN);
    assert_eq!(white[12], (WHITE_PAWN, 5, 4));
    assert_eq!(black[12], (BLACK_PAWN, 5, 7));
}

#[test]
fn a_capture_marks_the_enemy_slot_and_keeps_it() {
    let (board, black, white) = new_game(false);
    // walk the white e-pawn forward, then have it capture the black d-pawn
    let (board, black, white) = move_figure(board, black, white, WHITE_PAWN, 5, 2, 5, 4, true);
    let (board, black, white) = move_figure(board, black, white, BLACK_PAWN, 4, 7, 4, 5, false);
    let (board, black, white) = move_figure(board, black, white, WHITE_PAWN, 5, 4, 4, 5, true);
    assert_eq!(get_figure(board, 4, 5), WHITE_PAWN);
    // the caught pawn's slot stays, marked with the captured code
    assert_eq!(black[11], (CAPTURED, 4, 5));
    assert_eq!(white[12], (WHITE_PAWN, 4, 5));
}

#[test]
fn promotion_reaches_board_and_position_array() {
    let (mut board, mut black, mut white) = lone_kings();
    board = set_figure(board, WHITE_PAWN, 1, 7);
    white[8] = (WHITE_PAWN, 1, 7);
    let (board, _black2, white2) = move_figure(board, black, white, WHITE_PAWN, 1, 7, 1, 8, true);
    assert_eq!(get_figure(board, 1, 8), WHITE_QUEEN);
    assert_eq!(white2[8], (WHITE_QUEEN, 1, 8));
    // and the mirrored case: a black pawn reaching rank 1 becomes the black
    // queen in both representations
    let (mut board, _, _) = lone_kings();
    board = set_figure(board, BLACK_PAWN, 8, 2);
    black[8] = (BLACK_PAWN, 8, 2);
    white[8] = (CAPTURED, 1, 1);
    let (board, black2, _white2) = move_figure(board, black, white, BLACK_PAWN, 8, 2, 8, 1, false);
    assert_eq!(get_figure(board, 8, 1), BLACK_QUEEN);
    assert_eq!(black2[8], (BLACK_QUEEN, 8, 1));
}

#[test]
fn kingside_castling_moves_king_and_rook_together() {
    let (mut board, black, mut white) = lone_kings();
    board = set_figure(board, WHITE_ROOK, 8, 1);
    white[7] = (WHITE_ROOK, 8, 1);
    board[64] = 3;
    let (board, _black, white) = move_figure(board, black, white, WHITE_KING, 5, 1, 7, 1, true);
    // one transition call: king two squares towards the h-file, rook beside it
    assert_eq!(get_figure(board, 7, 1), WHITE_KING);
    assert_eq!(get_figure(board, 6, 1), WHITE_ROOK);
    assert_eq!(get_figure(board, 5, 1), 0);
    assert_eq!(get_figure(board, 8, 1), 0);
    assert_eq!(white[0], (WHITE_KING, 7, 1));
    assert_eq!(white[7], (WHITE_ROOK, 6, 1));
    // castling costs every right of that colour
    assert_eq!(board[64], 0);
}

#[test]
fn queenside_castling_moves_the_a_rook() {
    let (mut board, black, mut white) = lone_kings();
    board = set_figure(board, WHITE_ROOK, 1, 1);
    white[6] = (WHITE_ROOK, 1, 1);
    board[64] = 3;
    let (board, _black, white) = move_figure(board, black, white, WHITE_KING, 5, 1, 3, 1, true);
    assert_eq!(get_figure(board, 3, 1), WHITE_KING);
    assert_eq!(get_figure(board, 4, 1), WHITE_ROOK);
    assert_eq!(get_figure(board, 1, 1), 0);
    assert_eq!(white[6], (WHITE_ROOK, 4, 1));
    assert_eq!(board[64], 0);
}

#[test]
fn rook_moves_clear_their_rights_bit_permanently() {
    let (mut board, black, mut white) = lone_kings();
    board = set_figure(board, WHITE_ROOK, 1, 1);
    white[6] = (WHITE_ROOK, 1, 1);
    board[64] = 3;
    // the a-rook leaves its origin file: queenside bit gone, kingside kept
    let (board, black, white) = move_figure(board, black, white, WHITE_ROOK, 1, 1, 1, 4, true);
    assert_eq!(board[64], 2);
    // the rook returns: the lost bit does not come back
    let (board, _black, _white) = move_figure(board, black, white, WHITE_ROOK, 1, 4, 1, 1, true);
    assert_eq!(board[64], 2);
}

#[test]
fn king_move_from_home_clears_both_rights() {
    let (mut board, black, white) = lone_kings();
    board[64] = 3;
    let (board, _black, _white) = move_figure(board, black, white, WHITE_KING, 5, 1, 5, 2, true);
    assert_eq!(board[64], 0);
    assert_eq!(get_figure(board, 5, 2), WHITE_KING);
}
