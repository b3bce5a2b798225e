//! Board state, catalog, and move-generator behaviour on concrete positions.

use chess_engine::engine::{get_figure, new_game, set_figure, Board};
use chess_engine::figures::{
    colored_figure_to_blank_figure, get_relative_moves, BLACK_KING, BLACK_PAWN, BLACK_QUEEN,
    BLACK_ROOK, CAPTURED, WHITE_KING, WHITE_KNIGHT, WHITE_PAWN, WHITE_QUEEN, WHITE_ROOK,
};
use chess_engine::movegen::{contains_position, get_valid_moves, is_in_movement_set};

fn empty_board() -> Board {
    [0u8; 66]
}

#[test]
fn new_game_sets_up_the_standard_position() {
    let (board, black, white) = new_game(false);
    assert_eq!(get_figure(board, 1, 1), WHITE_ROOK);
    assert_eq!(get_figure(board, 2, 1), WHITE_KNIGHT);
    assert_eq!(get_figure(board, 5, 1), WHITE_KING);
    assert_eq!(get_figure(board, 4, 8), BLACK_QUEEN);
    assert_eq!(get_figure(board, 5, 8), BLACK_KING);
    for x in 1..=8u8 {
        assert_eq!(get_figure(board, x, 2), WHITE_PAWN);
        assert_eq!(get_figure(board, x, 7), BLACK_PAWN);
        for y in 3..=6u8 {
            assert_eq!(get_figure(board, x, y), 0);
        }
    }
    // both castling rights cells start with both bits set
    assert_eq!(board[64], 3);
    assert_eq!(board[65], 3);
    // position arrays: king in slot 0, queen in slot 1, pawns in slots 8..16
    assert_eq!(white[0], (WHITE_KING, 5, 1));
    assert_eq!(white[1], (WHITE_QUEEN, 4, 1));
    assert_eq!(black[0], (BLACK_KING, 5, 8));
    for i in 8..16 {
        assert_eq!(white[i], (WHITE_PAWN, (i - 7) as u8, 2));
        assert_eq!(black[i], (BLACK_PAWN, (i - 7) as u8, 7));
    }
}

#[test]
fn new_game_handicap_removes_the_a_file_pawn() {
    let (board, _black, white) = new_game(true);
    assert_eq!(get_figure(board, 1, 2), 0);
    assert_eq!(white[8], (CAPTURED, 1, 2));
    assert_eq!(get_figure(board, 2, 2), WHITE_PAWN);
}

#[test]
fn set_and_get_figure_agree() {
    let board = empty_board();
    let board = set_figure(board, WHITE_QUEEN, 3, 5);
    assert_eq!(get_figure(board, 3, 5), WHITE_QUEEN);
    assert_eq!(get_figure(board, 5, 3), 0);
}

#[test]
fn blank_figure_strips_the_colour_band() {
    assert_eq!(colored_figure_to_blank_figure(BLACK_ROOK), 7);
    assert_eq!(colored_figure_to_blank_figure(WHITE_ROOK), 7);
    assert_eq!(colored_figure_to_blank_figure(BLACK_PAWN), 9);
}

#[test]
fn knight_template_has_eight_single_step_rays() {
    let rays = get_relative_moves(WHITE_KNIGHT, 1);
    assert_eq!(rays.len(), 8);
    for r in &rays {
        assert_eq!(r.len, 1);
    }
    assert_eq!((rays[0].dx, rays[0].dy), (2, -1));
}

#[test]
fn pawn_template_two_step_only_on_home_rank() {
    let home = get_relative_moves(WHITE_PAWN, 2);
    assert_eq!(home[0].len, 2);
    let moved = get_relative_moves(WHITE_PAWN, 3);
    assert_eq!(moved[0].len, 1);
    let black_home = get_relative_moves(BLACK_PAWN, 7);
    assert_eq!(black_home[0].len, 2);
    assert_eq!(black_home[0].dy, -1);
}

#[test]
fn knight_moves_from_initial_position() {
    let (board, _black, _white) = new_game(false);
    let moves = get_valid_moves(board, WHITE_KNIGHT, 2, 1);
    // only the two forward jumps are free; every other ray is off-board or
    // blocked by a piece of the same colour
    assert!(contains_position(&moves, (3, 3)));
    assert!(contains_position(&moves, (1, 3)));
    assert!(!contains_position(&moves, (4, 2)));
    let count: usize = moves.iter().map(|r| r.len()).sum();
    assert_eq!(count, 2);
}

#[test]
fn pawn_advances_but_never_captures_straight_ahead() {
    let (board, _black, _white) = new_game(false);
    let moves = get_valid_moves(board, WHITE_PAWN, 1, 2);
    assert!(contains_position(&moves, (1, 3)));
    assert!(contains_position(&moves, (1, 4)));
    // the empty diagonals are not moves
    assert!(!contains_position(&moves, (2, 3)));
    // a blocked pawn cannot advance
    let blocked = set_figure(board, BLACK_PAWN, 1, 3);
    let moves = get_valid_moves(blocked, WHITE_PAWN, 1, 2);
    assert!(!contains_position(&moves, (1, 3)));
    assert!(!contains_position(&moves, (1, 4)));
}

#[test]
fn pawn_captures_diagonally() {
    let (board, _black, _white) = new_game(false);
    let board = set_figure(board, BLACK_PAWN, 2, 3);
    let moves = get_valid_moves(board, WHITE_PAWN, 1, 2);
    assert!(contains_position(&moves, (2, 3)));
    assert!(is_in_movement_set(&moves, 2, 3));
    assert!(!is_in_movement_set(&moves, 9, 9));
}

#[test]
fn rook_rays_stop_at_the_first_piece() {
    let mut board = empty_board();
    board = set_figure(board, WHITE_ROOK, 4, 4);
    board = set_figure(board, BLACK_PAWN, 4, 6);
    board = set_figure(board, WHITE_PAWN, 6, 4);
    let moves = get_valid_moves(board, WHITE_ROOK, 4, 4);
    // up the file: two free squares, then the capture, nothing beyond
    assert!(contains_position(&moves, (4, 5)));
    assert!(contains_position(&moves, (4, 6)));
    assert!(!contains_position(&moves, (4, 7)));
    // towards the own pawn: stop before it
    assert!(contains_position(&moves, (5, 4)));
    assert!(!contains_position(&moves, (6, 4)));
}

#[test]
fn generated_moves_stay_on_board_and_never_hit_own_pieces() {
    // the concrete face of the generator's soundness law, on a crowded board
    let (board, black, white) = new_game(false);
    for &(fig, x, y) in white.iter().chain(black.iter()) {
        let moves = get_valid_moves(board, fig, x, y);
        for ray in &moves {
            for &(mx, my) in ray {
                assert!((1..=8).contains(&mx) && (1..=8).contains(&my));
                let occ = get_figure(board, mx, my);
                assert!(occ == 0 || occ / 10 != fig / 10);
            }
        }
    }
}

#[test]
fn king_cannot_castle_through_missing_rights() {
    // cleared path but rights bits zero: the two-step move is not generated
    let mut board = empty_board();
    board = set_figure(board, WHITE_KING, 5, 1);
    board = set_figure(board, WHITE_ROOK, 8, 1);
    let moves = get_valid_moves(board, WHITE_KING, 5, 1);
    assert!(!contains_position(&moves, (7, 1)));
    // with the kingside bit set it is generated
    board[64] = 2;
    let moves = get_valid_moves(board, WHITE_KING, 5, 1);
    assert!(contains_position(&moves, (7, 1)));
}

#[test]
fn queenside_castling_needs_the_knight_square_empty() {
    let mut board = empty_board();
    board = set_figure(board, WHITE_KING, 5, 1);
    board = set_figure(board, WHITE_ROOK, 1, 1);
    board[64] = 1;
    let moves = get_valid_moves(board, WHITE_KING, 5, 1);
    assert!(contains_position(&moves, (3, 1)));
    // a piece on the b-file square blocks it
    let blocked = set_figure(board, WHITE_KNIGHT, 2, 1);
    let moves = get_valid_moves(blocked, WHITE_KING, 5, 1);
    assert!(!contains_position(&moves, (3, 1)));
}
