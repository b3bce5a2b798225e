//! Fixed evaluation tables: per-piece-type material values for middlegame
//! and endgame, a placement bonus indexed by board square (stated from
//! white's orientation; callers mirror black's rank), and the phase weight
//! each piece type adds to the game-phase counter.

use vstd::prelude::*;

use crate::figures::{Figure, BISHOP, KING, KNIGHT, PAWN, QUEEN, ROOK};

verus! {

pub open spec fn spec_mg_value(blank: int) -> int {
    if blank == KING {
        0
    } else if blank == QUEEN {
        1025
    } else if blank == KNIGHT {
        337
    } else if blank == BISHOP {
        365
    } else if blank == ROOK {
        477
    } else if blank == PAWN {
        82
    } else {
        0
    }
}

pub open spec fn spec_eg_value(blank: int) -> int {
    if blank == KING {
        0
    } else if blank == QUEEN {
        936
    } else if blank == KNIGHT {
        281
    } else if blank == BISHOP {
        297
    } else if blank == ROOK {
        512
    } else if blank == PAWN {
        94
    } else {
        0
    }
}

/// How much one piece of this type adds to the game-phase counter.
pub open spec fn spec_phase_inc(blank: int) -> int {
    if blank == QUEEN {
        4
    } else if blank == ROOK {
        2
    } else if blank == KNIGHT || blank == BISHOP {
        1
    } else {
        0
    }
}

/// Distance of a file or rank from the middle of the board (0 to 3).
pub open spec fn spec_center_dist(v: int) -> int {
    if v <= 4 {
        4 - v
    } else {
        v - 5
    }
}

/// Middlegame placement bonus of a piece type on square `(x, y)`, seen from
/// white's side: minor pieces and the queen like the centre, pawns like
/// advancing.
pub open spec fn spec_mg_placement(blank: int, x: int, y: int) -> int {
    if blank == QUEEN || blank == KNIGHT || blank == BISHOP {
        2 * (6 - spec_center_dist(x) - spec_center_dist(y))
    } else if blank == PAWN {
        3 * (y - 1)
    } else {
        0
    }
}

/// Endgame placement bonus: the king walks to the centre, pawns push on.
pub open spec fn spec_eg_placement(blank: int, x: int, y: int) -> int {
    if blank == KING {
        2 * (6 - spec_center_dist(x) - spec_center_dist(y))
    } else if blank == PAWN {
        6 * (y - 1)
    } else {
        0
    }
}

pub fn mg_value(blank: Figure) -> (r: i32)
    ensures
        r == spec_mg_value(blank as int),
        0 <= r <= 1025,
{
    if blank == KING {
        0
    } else if blank == QUEEN {
        1025
    } else if blank == KNIGHT {
        337
    } else if blank == BISHOP {
        365
    } else if blank == ROOK {
        477
    } else if blank == PAWN {
        82
    } else {
        0
    }
}

pub fn eg_value(blank: Figure) -> (r: i32)
    ensures
        r == spec_eg_value(blank as int),
        0 <= r <= 1025,
{
    if blank == KING {
        0
    } else if blank == QUEEN {
        936
    } else if blank == KNIGHT {
        281
    } else if blank == BISHOP {
        297
    } else if blank == ROOK {
        512
    } else if blank == PAWN {
        94
    } else {
        0
    }
}

pub fn phase_inc(blank: Figure) -> (r: i32)
    ensures
        r == spec_phase_inc(blank as int),
        0 <= r <= 4,
{
    if blank == QUEEN {
        4
    } else if blank == ROOK {
        2
    } else if blank == KNIGHT || blank == BISHOP {
        1
    } else {
        0
    }
}

fn center_dist(v: u8) -> (r: u8)
    requires
        1 <= v <= 8,
    ensures
        r == spec_center_dist(v as int),
        r <= 3,
{
    if v <= 4 {
        4 - v
    } else {
        v - 5
    }
}

pub fn mg_placement(blank: Figure, x: u8, y: u8) -> (r: i32)
    requires
        1 <= x <= 8,
        1 <= y <= 8,
    ensures
        r == spec_mg_placement(blank as int, x as int, y as int),
        0 <= r <= 42,
{
    if blank == QUEEN || blank == KNIGHT || blank == BISHOP {
        2 * (6 - center_dist(x) as i32 - center_dist(y) as i32)
    } else if blank == PAWN {
        3 * (y as i32 - 1)
    } else {
        0
    }
}

pub fn eg_placement(blank: Figure, x: u8, y: u8) -> (r: i32)
    requires
        1 <= x <= 8,
        1 <= y <= 8,
    ensures
        r == spec_eg_placement(blank as int, x as int, y as int),
        0 <= r <= 42,
{
    if blank == KING {
        2 * (6 - center_dist(x) as i32 - center_dist(y) as i32)
    } else if blank == PAWN {
        6 * (y as i32 - 1)
    } else {
        0
    }
}

} // verus!
