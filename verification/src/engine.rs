//! Board and position state: the two redundant representations of a game
//! (the 64-square board array and the two per-colour position arrays), the
//! invariant that ties them together, and the initial setup.

use vstd::prelude::*;

use crate::figures;
use crate::figures::{
    Figure, BISHOP, BLACK_BISHOP, BLACK_KING, BLACK_KNIGHT, BLACK_PAWN, BLACK_QUEEN, BLACK_ROOK,
    CAPTURED, KING, KNIGHT, PAWN, QUEEN, ROOK, WHITE_BISHOP, WHITE_KING, WHITE_KNIGHT, WHITE_PAWN,
    WHITE_QUEEN, WHITE_ROOK,
};

verus! {

broadcast use vstd::array::group_array_axioms;

/// The board: 64 squares in rank-major order, then one castling-rights cell
/// per colour (index 64 white, 65 black). Rights are a bitmask: bit 1 is
/// queenside, bit 2 is kingside; `3` means both are still allowed.
pub type Board = [u8; 66];

/// One position-array entry: piece code, file (1..=8), rank (1..=8).
/// The code is [`CAPTURED`] once the piece has been caught; the entry is
/// never removed, so a slot keeps its identity for the whole game.
pub type Position = (Figure, u8, u8);

/// The sixteen slots of one colour, in fixed order: king, queen, the two
/// knights, the two bishops, the two rooks, the eight pawns. Slot 0 always
/// holds the king (or its captured marker, which signals a lost game).
pub type Positions = [Position; 16];

/// Result of a full turn: the new state, tagged with whether the moving side
/// has just won.
pub enum GameState {
    Normal((Board, Positions, Positions)),
    CheckMate((Board, Positions, Positions)),
}

/// Index of file `x`, rank `y` in the flat square array.
pub open spec fn sq_index(x: int, y: int) -> int {
    8 * (y - 1) + (x - 1)
}

pub open spec fn spec_on_board(x: int, y: int) -> bool {
    1 <= x <= 8 && 1 <= y <= 8
}

/// The piece code on square `(x, y)` of board `b`.
pub open spec fn spec_get_figure(b: Seq<u8>, x: int, y: int) -> Figure {
    b[sq_index(x, y)]
}

/// The castling-rights cell of a colour (`0` white, `1` black).
pub open spec fn spec_rights(b: Seq<u8>, color: int) -> u8 {
    b[64 + color]
}

/// Reads the piece code on square `(x, y)`.
pub fn get_figure(board: Board, x: u8, y: u8) -> (r: Figure)
    requires
        spec_on_board(x as int, y as int),
    ensures
        r == spec_get_figure(board@, x as int, y as int),
{
    board[(8 * (y - 1) + (x - 1)) as usize]
}

/// Writes piece code `figure` to square `(x, y)`, returning the new board.
pub fn set_figure(board: Board, figure: Figure, x: u8, y: u8) -> (r: Board)
    requires
        spec_on_board(x as int, y as int),
    ensures
        r@ == board@.update(sq_index(x as int, y as int), figure),
{
    let mut b = board;
    b[(8 * (y - 1) + (x - 1)) as usize] = figure;
    b
}

/// The piece code square `i` of the flat array holds at the start (the two
/// rights cells, indices 64 and 65, start at 3: both castlings allowed).
pub open spec fn initial_square(i: int) -> u8 {
    if i == 0 || i == 7 {
        WHITE_ROOK
    } else if i == 1 || i == 6 {
        WHITE_KNIGHT
    } else if i == 2 || i == 5 {
        WHITE_BISHOP
    } else if i == 3 {
        WHITE_QUEEN
    } else if i == 4 {
        WHITE_KING
    } else if 8 <= i < 16 {
        WHITE_PAWN
    } else if 48 <= i < 56 {
        BLACK_PAWN
    } else if i == 56 || i == 63 {
        BLACK_ROOK
    } else if i == 57 || i == 62 {
        BLACK_KNIGHT
    } else if i == 58 || i == 61 {
        BLACK_BISHOP
    } else if i == 59 {
        BLACK_QUEEN
    } else if i == 60 {
        BLACK_KING
    } else if i == 64 || i == 65 {
        3
    } else {
        0
    }
}

/// The standard initial board, with both colours' castling rights set.
pub open spec fn initial_board() -> Seq<u8> {
    Seq::new(66, |i: int| initial_square(i))
}

/// The fixed slot order of one colour's pieces: king, queen, knights,
/// bishops, rooks, then the eight pawns on files 1..=8.
pub open spec fn initial_position_entry(i: int, home: u8, pawn_rank: u8, band: u8) -> Position {
    if i == 0 {
        ((KING + band) as u8, 5u8, home)
    } else if i == 1 {
        ((QUEEN + band) as u8, 4u8, home)
    } else if i == 2 {
        ((KNIGHT + band) as u8, 2u8, home)
    } else if i == 3 {
        ((KNIGHT + band) as u8, 7u8, home)
    } else if i == 4 {
        ((BISHOP + band) as u8, 3u8, home)
    } else if i == 5 {
        ((BISHOP + band) as u8, 6u8, home)
    } else if i == 6 {
        ((ROOK + band) as u8, 1u8, home)
    } else if i == 7 {
        ((ROOK + band) as u8, 8u8, home)
    } else {
        ((PAWN + band) as u8, (i - 7) as u8, pawn_rank)
    }
}

pub open spec fn initial_white_positions() -> Seq<Position> {
    Seq::new(16, |i: int| initial_position_entry(i, 1u8, 2u8, 0u8))
}

pub open spec fn initial_black_positions() -> Seq<Position> {
    Seq::new(16, |i: int| initial_position_entry(i, 8u8, 7u8, 10u8))
}

/// The initial board after the optional handicap (white's a-file pawn, which
/// stands on square `(1, 2)`, flat index 8, is taken off).
pub open spec fn spec_initial_board(white_handicap: bool) -> Seq<u8> {
    if white_handicap {
        initial_board().update(8, 0u8)
    } else {
        initial_board()
    }
}

pub open spec fn spec_initial_white_positions(white_handicap: bool) -> Seq<Position> {
    if white_handicap {
        initial_white_positions().update(8, (CAPTURED, 1u8, 2u8))
    } else {
        initial_white_positions()
    }
}

/// Creates the state of a fresh game: board and both position arrays in the
/// standard setup, in lockstep. If `white_handicap` is set, white begins with
/// one pawn less (the a-file pawn), removed from both representations.
pub fn new_game(white_handicap: bool) -> (r: (Board, Positions, Positions))
    ensures
        r.0@ == spec_initial_board(white_handicap),
        r.1@ == initial_black_positions(),
        r.2@ == spec_initial_white_positions(white_handicap),
{
    let mut b: Board = [0u8; 66];
    b[0] = WHITE_ROOK;
    b[1] = WHITE_KNIGHT;
    b[2] = WHITE_BISHOP;
    b[3] = WHITE_QUEEN;
    b[4] = WHITE_KING;
    b[5] = WHITE_BISHOP;
    b[6] = WHITE_KNIGHT;
    b[7] = WHITE_ROOK;
    let mut i: usize = 8;
    while i < 16
        invariant
            8 <= i <= 16,
            b@.len() == 66,
            forall|j: int| 0 <= j < 8 ==> b@[j] == initial_board()[j],
            forall|j: int| 8 <= j < i ==> b@[j] == WHITE_PAWN,
            forall|j: int| i <= j < 66 ==> b@[j] == 0,
        decreases 16 - i,
    {
        b[i] = WHITE_PAWN;
        i += 1;
    }
    let mut i: usize = 48;
    while i < 56
        invariant
            48 <= i <= 56,
            b@.len() == 66,
            forall|j: int| 0 <= j < 16 ==> b@[j] == initial_board()[j],
            forall|j: int| 16 <= j < 48 ==> b@[j] == 0,
            forall|j: int| 48 <= j < i ==> b@[j] == BLACK_PAWN,
            forall|j: int| i <= j < 66 ==> b@[j] == 0,
        decreases 56 - i,
    {
        b[i] = BLACK_PAWN;
        i += 1;
    }
    b[56] = BLACK_ROOK;
    b[57] = BLACK_KNIGHT;
    b[58] = BLACK_BISHOP;
    b[59] = BLACK_QUEEN;
    b[60] = BLACK_KING;
    b[61] = BLACK_BISHOP;
    b[62] = BLACK_KNIGHT;
    b[63] = BLACK_ROOK;
    b[64] = 3;
    b[65] = 3;

    let mut wf: Positions = [(0u8, 0u8, 0u8); 16];
    wf[0] = (WHITE_KING, 5, 1);
    wf[1] = (WHITE_QUEEN, 4, 1);
    wf[2] = (WHITE_KNIGHT, 2, 1);
    wf[3] = (WHITE_KNIGHT, 7, 1);
    wf[4] = (WHITE_BISHOP, 3, 1);
    wf[5] = (WHITE_BISHOP, 6, 1);
    wf[6] = (WHITE_ROOK, 1, 1);
    wf[7] = (WHITE_ROOK, 8, 1);
    let mut i: usize = 8;
    while i < 16
        invariant
            8 <= i <= 16,
            wf@.len() == 16,
            forall|j: int| 0 <= j < 8 ==> wf@[j] == initial_white_positions()[j],
            forall|j: int| 8 <= j < i ==> wf@[j] == (WHITE_PAWN, (j - 7) as u8, 2u8),
        decreases 16 - i,
    {
        wf[i] = (WHITE_PAWN, (i - 7) as u8, 2);
        i += 1;
    }

    let mut bf: Positions = [(0u8, 0u8, 0u8); 16];
    bf[0] = (BLACK_KING, 5, 8);
    bf[1] = (BLACK_QUEEN, 4, 8);
    bf[2] = (BLACK_KNIGHT, 2, 8);
    bf[3] = (BLACK_KNIGHT, 7, 8);
    bf[4] = (BLACK_BISHOP, 3, 8);
    bf[5] = (BLACK_BISHOP, 6, 8);
    bf[6] = (BLACK_ROOK, 1, 8);
    bf[7] = (BLACK_ROOK, 8, 8);
    let mut i: usize = 8;
    while i < 16
        invariant
            8 <= i <= 16,
            bf@.len() == 16,
            forall|j: int| 0 <= j < 8 ==> bf@[j] == initial_black_positions()[j],
            forall|j: int| 8 <= j < i ==> bf@[j] == (BLACK_PAWN, (j - 7) as u8, 7u8),
        decreases 16 - i,
    {
        bf[i] = (BLACK_PAWN, (i - 7) as u8, 7);
        i += 1;
    }

    assert(b@ =~= initial_board());
    assert(wf@ =~= initial_white_positions());
    assert(bf@ =~= initial_black_positions());

    if white_handicap {
        b[8] = 0;
        wf[8] = (CAPTURED, 1, 2);
        assert(b@ =~= spec_initial_board(true));
        assert(wf@ =~= spec_initial_white_positions(true));
    }

    (b, bf, wf)
}

/// An entry still stands on the board (its piece has not been caught).
pub open spec fn entry_active(e: Position) -> bool {
    e.0 != CAPTURED
}

/// Well-formedness of one colour's position array (`color` is `0` for white,
/// `1` for black): every active entry holds a valid piece code of that
/// colour, stands on the board, and sits in a slot no earlier than the first
/// slot of its piece type; slot 0 is the king's.
pub open spec fn wf_positions(ps: Seq<Position>, color: int) -> bool {
    &&& ps.len() == 16
    &&& forall|i: int|
        0 <= i < 16 && entry_active(#[trigger] ps[i]) ==> {
            &&& figures::is_valid_figure(ps[i].0)
            &&& figures::spec_color_of(ps[i].0) == color
            &&& spec_on_board(ps[i].1 as int, ps[i].2 as int)
            &&& figures::spec_blank_of(ps[i].0) - 1 <= i
        }
    &&& (entry_active(ps[0]) ==> ps[0].0 % 10 == KING)
}

/// No two active pieces, of either colour, share a square.
pub open spec fn distinct_active_coords(bf: Seq<Position>, wf: Seq<Position>) -> bool {
    &&& forall|i: int, j: int|
        0 <= i < 16 && 0 <= j < 16 && i != j && entry_active(#[trigger] wf[i]) && entry_active(
            #[trigger] wf[j],
        ) ==> !(wf[i].1 == wf[j].1 && wf[i].2 == wf[j].2)
    &&& forall|i: int, j: int|
        0 <= i < 16 && 0 <= j < 16 && i != j && entry_active(#[trigger] bf[i]) && entry_active(
            #[trigger] bf[j],
        ) ==> !(bf[i].1 == bf[j].1 && bf[i].2 == bf[j].2)
    &&& forall|i: int, j: int|
        0 <= i < 16 && 0 <= j < 16 && entry_active(#[trigger] wf[i]) && entry_active(
            #[trigger] bf[j],
        ) ==> !(wf[i].1 == bf[j].1 && wf[i].2 == bf[j].2)
}

/// Some active entry of `ps` stands on square `(x, y)`.
pub open spec fn claimed(ps: Seq<Position>, x: int, y: int) -> bool {
    exists|i: int|
        0 <= i < 16 && entry_active(#[trigger] ps[i]) && ps[i].1 == x && ps[i].2 == y
}

/// The square array agrees with the occupancy derived from the position
/// arrays: each active entry finds its own code on its square, and every
/// occupied square is claimed by some active entry.
pub open spec fn board_matches_positions(b: Seq<u8>, bf: Seq<Position>, wf: Seq<Position>) -> bool {
    &&& forall|i: int|
        0 <= i < 16 && entry_active(#[trigger] wf[i]) ==> spec_get_figure(
            b,
            wf[i].1 as int,
            wf[i].2 as int,
        ) == wf[i].0
    &&& forall|i: int|
        0 <= i < 16 && entry_active(#[trigger] bf[i]) ==> spec_get_figure(
            b,
            bf[i].1 as int,
            bf[i].2 as int,
        ) == bf[i].0
    &&& forall|x: int, y: int|
        spec_on_board(x, y) && #[trigger] spec_get_figure(b, x, y) != 0 ==> claimed(
            if spec_get_figure(b, x, y) / 10 == 0 {
                wf
            } else {
                bf
            },
            x,
            y,
        )
}

/// Well-formedness of one board array on its own: 66 cells, every square
/// empty or a valid piece code, both rights cells a bitmask below 4.
pub open spec fn wf_board(b: Seq<u8>) -> bool {
    &&& b.len() == 66
    &&& forall|s: int| 0 <= s < 64 ==> b[s] == 0 || figures::is_valid_figure(#[trigger] b[s])
    &&& b[64] <= 3
    &&& b[65] <= 3
}

/// The full state invariant: both representations well-formed, all active
/// pieces on distinct squares, and board and position arrays in lockstep.
pub open spec fn wf_state(b: Seq<u8>, bf: Seq<Position>, wf: Seq<Position>) -> bool {
    &&& wf_board(b)
    &&& wf_positions(bf, 1)
    &&& wf_positions(wf, 0)
    &&& distinct_active_coords(bf, wf)
    &&& board_matches_positions(b, bf, wf)
}

} // verus!
