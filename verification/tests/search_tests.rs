//! Evaluation, search determinism, and the anti-repetition rule.

use chess_engine::ai::{evaluate_board, min_max, turn};
use chess_engine::engine::{get_figure, new_game, set_figure, Board, GameState, Positions};
use chess_engine::figures::{BLACK_KING, CAPTURED, WHITE_KING};
use chess_engine::transition::move_figure;

fn positions_with(king: (u8, u8, u8)) -> Positions {
    let mut ps = [(CAPTURED, 1u8, 1u8); 16];
    ps[0] = king;
    ps
}

fn kings_only(wk: (u8, u8), bk: (u8, u8)) -> (Board, Positions, Positions) {
    let mut board: Board = [0u8; 66];
    board = set_figure(board, WHITE_KING, wk.0, wk.1);
    board = set_figure(board, BLACK_KING, bk.0, bk.1);
    let white = positions_with((WHITE_KING, wk.0, wk.1));
    let black = positions_with((BLACK_KING, bk.0, bk.1));
    (board, black, white)
}

#[test]
fn initial_position_evaluates_to_exactly_zero() {
    let (_board, black, white) = new_game(false);
    assert_eq!(evaluate_board(black, white), 0);
}

#[test]
fn removing_the_white_queen_strictly_decreases_the_score() {
    let (_board, black, mut white) = new_game(false);
    white[1] = (CAPTURED, 4, 1);
    let score = evaluate_board(black, white);
    assert!(score < 0);
    // the exact tapered value of that position
    assert_eq!(score, -1015);
}

#[test]
fn evaluation_is_a_pure_function_of_the_arrays() {
    let (_board, black, white) = new_game(false);
    assert_eq!(evaluate_board(black, white), evaluate_board(black, white));
}

#[test]
fn search_returns_the_extreme_score_when_a_king_is_gone() {
    let (board, mut black, white) = kings_only((1, 1), (8, 8));
    black[0] = (CAPTURED, 8, 8);
    let v = min_max(board, black, white, true, i32::MIN, i32::MAX, 4);
    assert_eq!(v, i32::MAX - 100 + 4);
    let (board, black, mut white) = kings_only((1, 1), (8, 8));
    white[0] = (CAPTURED, 1, 1);
    let v = min_max(board, black, white, true, i32::MIN, i32::MAX, 4);
    assert_eq!(v, i32::MIN + 100 - 4);
}

#[test]
fn search_is_deterministic() {
    let (board, black, white) = new_game(false);
    let v1 = min_max(board, black, white, true, i32::MIN, i32::MAX, 2);
    let v2 = min_max(board, black, white, true, i32::MIN, i32::MAX, 2);
    assert_eq!(v1, v2);
    let prev = [board; 10];
    let r1 = turn(board, black, white, false, 1, prev);
    let r2 = turn(board, black, white, false, 1, prev);
    let b1 = match r1 {
        GameState::Normal(v) | GameState::CheckMate(v) => v.0,
    };
    let b2 = match r2 {
        GameState::Normal(v) | GameState::CheckMate(v) => v.0,
    };
    assert_eq!(b1, b2);
}

#[test]
fn engine_turn_applies_a_move_for_the_engine_side() {
    let (board, black, white) = new_game(false);
    let prev = [[0u8; 66]; 10];
    match turn(board, black, white, false, 1, prev) {
        GameState::Normal((nb, nblack, _nwhite)) => {
            // black moved something: its arrays and board changed
            assert_ne!(nb, board);
            assert_ne!(nblack, black);
        }
        GameState::CheckMate(_) => panic!("the opening position is not decided"),
    }
}

#[test]
fn repeated_boards_are_excluded_from_consideration_entirely() {
    // the lone white king has exactly three moves; remember each resulting
    // board as a previous position and the search may take none of them
    let (board, black, white) = kings_only((1, 1), (8, 8));
    let mut prev: [Board; 10] = [[0u8; 66]; 10];
    let dests: [(u8, u8); 3] = [(2, 1), (2, 2), (1, 2)];
    for (j, &(tx, ty)) in dests.iter().enumerate() {
        let (nb, _, _) = move_figure(board, black, white, WHITE_KING, 1, 1, tx, ty, true);
        prev[j] = nb;
    }
    match turn(board, black, white, true, 1, prev) {
        GameState::CheckMate((nb, _, nw)) => {
            // no candidate was taken: the state is handed back unchanged
            assert_eq!(nb, board);
            assert_eq!(nw[0], (WHITE_KING, 1, 1));
        }
        GameState::Normal(_) => panic!("every candidate recreates a remembered board"),
    }
    // free one destination again: the search now picks exactly that one
    prev[2] = [0u8; 66];
    match turn(board, black, white, true, 1, prev) {
        GameState::Normal((nb, _, nw)) => {
            assert_eq!(get_figure(nb, 1, 2), WHITE_KING);
            assert_eq!(nw[0], (WHITE_KING, 1, 2));
        }
        GameState::CheckMate(_) => panic!("one move does not repeat"),
    }
}
