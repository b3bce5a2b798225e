//! The piece/movement catalog: piece codes and per-piece movement templates.
//!
//! A movement template is a list of independent rays. Each ray runs in one
//! direction `(dx, dy)` for up to `len` steps of increasing magnitude; a
//! piece that cannot make one step of a ray also cannot make any later step
//! of that same ray, while the other rays are unaffected.

use vstd::prelude::*;

verus! {

/// A piece code: a colour band plus a type code; `0` means an empty square.
pub type Figure = u8;

/// Offset of the white colour band: white piece codes are `1..=9`.
pub const WHITE: Figure = 0;

/// Offset of the black colour band: black piece codes are `11..=19`.
pub const BLACK: Figure = 10;

pub const KING: Figure = 1;
pub const QUEEN: Figure = 2;
pub const KNIGHT: Figure = 3;
pub const BISHOP: Figure = 5;
pub const ROOK: Figure = 7;
pub const PAWN: Figure = 9;

pub const WHITE_KING: Figure = KING + WHITE;
pub const WHITE_QUEEN: Figure = QUEEN + WHITE;
pub const WHITE_KNIGHT: Figure = KNIGHT + WHITE;
pub const WHITE_BISHOP: Figure = BISHOP + WHITE;
pub const WHITE_ROOK: Figure = ROOK + WHITE;
pub const WHITE_PAWN: Figure = PAWN + WHITE;

pub const BLACK_KING: Figure = KING + BLACK;
pub const BLACK_QUEEN: Figure = QUEEN + BLACK;
pub const BLACK_KNIGHT: Figure = KNIGHT + BLACK;
pub const BLACK_BISHOP: Figure = BISHOP + BLACK;
pub const BLACK_ROOK: Figure = ROOK + BLACK;
pub const BLACK_PAWN: Figure = PAWN + BLACK;

/// Marker stored in a position-array entry once the piece has been caught.
pub const CAPTURED: Figure = 255;

/// True for the twelve codes that denote an actual piece on the board.
pub open spec fn is_valid_figure(figure: Figure) -> bool {
    let blank = figure % 10;
    &&& figure / 10 <= 1
    &&& (blank == KING || blank == QUEEN || blank == KNIGHT || blank == BISHOP || blank == ROOK
        || blank == PAWN)
}

/// The colour band of a piece code: `0` for white, `1` for black.
pub open spec fn spec_color_of(figure: Figure) -> int {
    figure as int / 10
}

/// The colourless type code of a piece.
pub open spec fn spec_blank_of(figure: Figure) -> int {
    figure as int % 10
}

/// One movement ray: the piece may advance to `(x + j*dx, y + j*dy)` for
/// `j = 1, ..., len`, each step reachable only through all the previous ones.
#[derive(Clone, Copy, PartialEq, Eq, Structural, Debug)]
pub struct Ray {
    pub dx: i8,
    pub dy: i8,
    pub len: u8,
}

pub open spec fn ray(dx: i8, dy: i8, len: u8) -> Ray {
    Ray { dx, dy, len }
}

pub open spec fn king_rays() -> Seq<Ray> {
    seq![
        ray(1i8, 1i8, 1u8),
        ray(1i8, 0i8, 2u8),
        ray(1i8, -1i8, 1u8),
        ray(0i8, -1i8, 1u8),
        ray(-1i8, -1i8, 1u8),
        ray(-1i8, 0i8, 2u8),
        ray(-1i8, 1i8, 1u8),
        ray(0i8, 1i8, 1u8),
    ]
}

pub open spec fn queen_rays() -> Seq<Ray> {
    seq![
        ray(1i8, 1i8, 7u8),
        ray(1i8, 0i8, 7u8),
        ray(0i8, 1i8, 7u8),
        ray(1i8, -1i8, 7u8),
        ray(-1i8, 1i8, 7u8),
        ray(-1i8, -1i8, 7u8),
        ray(-1i8, 0i8, 7u8),
        ray(0i8, -1i8, 7u8),
    ]
}

pub open spec fn knight_rays() -> Seq<Ray> {
    seq![
        ray(2i8, -1i8, 1u8),
        ray(2i8, 1i8, 1u8),
        ray(1i8, 2i8, 1u8),
        ray(-1i8, 2i8, 1u8),
        ray(-2i8, 1i8, 1u8),
        ray(-2i8, -1i8, 1u8),
        ray(1i8, -2i8, 1u8),
        ray(-1i8, -2i8, 1u8),
    ]
}

pub open spec fn bishop_rays() -> Seq<Ray> {
    seq![ray(1i8, 1i8, 7u8), ray(1i8, -1i8, 7u8), ray(-1i8, 1i8, 7u8), ray(-1i8, -1i8, 7u8)]
}

pub open spec fn rook_rays() -> Seq<Ray> {
    seq![ray(1i8, 0i8, 7u8), ray(0i8, 1i8, 7u8), ray(-1i8, 0i8, 7u8), ray(0i8, -1i8, 7u8)]
}

/// Pawn template; the two-step first advance is only in the unmoved variant.
pub open spec fn pawn_rays(dy: i8, unmoved: bool) -> Seq<Ray> {
    seq![ray(0, dy, if unmoved { 2 } else { 1 }), ray(1i8, dy, 1u8), ray(-1i8, dy, 1u8)]
}

/// The movement template of a piece. A pawn standing on its colour's home
/// rank gets the first-move variant with the two-step advance.
pub open spec fn spec_template(figure: Figure, y: u8) -> Seq<Ray> {
    let blank = figure % 10;
    if blank == KING {
        king_rays()
    } else if blank == QUEEN {
        queen_rays()
    } else if blank == KNIGHT {
        knight_rays()
    } else if blank == BISHOP {
        bishop_rays()
    } else if blank == ROOK {
        rook_rays()
    } else if figure == WHITE_PAWN {
        pawn_rays(1i8, y == 2)
    } else if figure == BLACK_PAWN {
        pawn_rays(-1i8, y == 7)
    } else {
        Seq::empty()
    }
}

fn push_ray(v: &mut Vec<Ray>, dx: i8, dy: i8, len: u8)
    ensures
        final(v)@ == old(v)@.push(ray(dx, dy, len)),
{
    v.push(Ray { dx, dy, len });
}

/// Movement Catalog lookup: the template of `figure` when it stands on rank
/// `y`. Pure; defined exactly for the recognized piece codes.
pub fn get_relative_moves(figure: Figure, y: u8) -> (r: Vec<Ray>)
    requires
        is_valid_figure(figure),
    ensures
        r@ == spec_template(figure, y),
{
    let blank = figure % 10;
    let mut v: Vec<Ray> = Vec::new();
    if blank == KING {
        push_ray(&mut v, 1, 1, 1);
        push_ray(&mut v, 1, 0, 2);
        push_ray(&mut v, 1, -1, 1);
        push_ray(&mut v, 0, -1, 1);
        push_ray(&mut v, -1, -1, 1);
        push_ray(&mut v, -1, 0, 2);
        push_ray(&mut v, -1, 1, 1);
        push_ray(&mut v, 0, 1, 1);
        assert(v@ =~= king_rays());
    } else if blank == QUEEN {
        push_ray(&mut v, 1, 1, 7);
        push_ray(&mut v, 1, 0, 7);
        push_ray(&mut v, 0, 1, 7);
        push_ray(&mut v, 1, -1, 7);
        push_ray(&mut v, -1, 1, 7);
        push_ray(&mut v, -1, -1, 7);
        push_ray(&mut v, -1, 0, 7);
        push_ray(&mut v, 0, -1, 7);
        assert(v@ =~= queen_rays());
    } else if blank == KNIGHT {
        push_ray(&mut v, 2, -1, 1);
        push_ray(&mut v, 2, 1, 1);
        push_ray(&mut v, 1, 2, 1);
        push_ray(&mut v, -1, 2, 1);
        push_ray(&mut v, -2, 1, 1);
        push_ray(&mut v, -2, -1, 1);
        push_ray(&mut v, 1, -2, 1);
        push_ray(&mut v, -1, -2, 1);
        assert(v@ =~= knight_rays());
    } else if blank == BISHOP {
        push_ray(&mut v, 1, 1, 7);
        push_ray(&mut v, 1, -1, 7);
        push_ray(&mut v, -1, 1, 7);
        push_ray(&mut v, -1, -1, 7);
        assert(v@ =~= bishop_rays());
    } else if blank == ROOK {
        push_ray(&mut v, 1, 0, 7);
        push_ray(&mut v, 0, 1, 7);
        push_ray(&mut v, -1, 0, 7);
        push_ray(&mut v, 0, -1, 7);
        assert(v@ =~= rook_rays());
    } else if figure == WHITE_PAWN {
        push_ray(&mut v, 0, 1, if y == 2 { 2 } else { 1 });
        push_ray(&mut v, 1, 1, 1);
        push_ray(&mut v, -1, 1, 1);
        assert(v@ =~= pawn_rays(1i8, y == 2));
    } else {
        push_ray(&mut v, 0, -1, if y == 7 { 2 } else { 1 });
        push_ray(&mut v, 1, -1, 1);
        push_ray(&mut v, -1, -1, 1);
        assert(v@ =~= pawn_rays(-1i8, y == 7));
    }
    v
}

/// Strips the colour band from a piece code, leaving the bare type code.
pub fn colored_figure_to_blank_figure(figure: Figure) -> (r: Figure)
    ensures
        r == figure % 10,
{
    figure - 10 * (figure / 10)
}

} // verus!
