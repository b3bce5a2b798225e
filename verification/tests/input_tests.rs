//! Parsing and validation of typed move requests.

use chess_engine::input::{parse_input, validate_coordinate};

#[test]
fn coordinates_are_validated_against_the_board() {
    assert!(validate_coordinate("A1"));
    assert!(validate_coordinate("H8"));
    assert!(!validate_coordinate("I1"));
    assert!(!validate_coordinate("A9"));
    assert!(!validate_coordinate("A"));
    assert!(!validate_coordinate("A1B"));
    assert!(!validate_coordinate("a1"));
}

#[test]
fn a_single_coordinate_asks_for_a_piece_s_moves() {
    assert_eq!(parse_input("A1"), Some(((1, 1), None)));
    assert_eq!(parse_input("  H8 "), Some(((8, 8), None)));
}

#[test]
fn two_coordinates_ask_for_a_move() {
    assert_eq!(parse_input("E2 E4"), Some(((5, 2), Some((5, 4)))));
    assert_eq!(parse_input("A1\tB2"), Some(((1, 1), Some((2, 2)))));
}

#[test]
fn malformed_requests_are_rejected() {
    assert_eq!(parse_input(""), None);
    assert_eq!(parse_input("E2 E4 E5"), None);
    assert_eq!(parse_input("E9"), None);
    assert_eq!(parse_input("E2 Z4"), None);
    // origin and destination must differ
    assert_eq!(parse_input("E2 E2"), None);
}
