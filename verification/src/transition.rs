//! State transition: applying one move. Both board representations are
//! updated in lockstep, a caught enemy piece's slot is marked, a pawn on the
//! farthest rank is promoted to a queen, castling moves the rook alongside
//! the king, and castling rights are cleared as king or rook leave home.

use vstd::prelude::*;

use crate::engine::{
    sq_index, spec_get_figure, spec_on_board, Board, Position, Positions,
};
use crate::figures;
use crate::figures::{
    Figure, BLACK_PAWN, BLACK_QUEEN, BLACK_ROOK, CAPTURED, KING, ROOK, WHITE_PAWN, WHITE_QUEEN,
    WHITE_ROOK,
};

verus! {

broadcast use vstd::array::group_array_axioms;

/// A pawn reaching the farthest rank becomes its colour's queen; every other
/// code is kept.
pub open spec fn spec_promote(figure: Figure, to_y: u8) -> Figure {
    if figure == WHITE_PAWN && to_y == 8 {
        WHITE_QUEEN
    } else if figure == BLACK_PAWN && to_y == 1 {
        BLACK_QUEEN
    } else {
        figure
    }
}

/// Marks, from slot `start` on, every active entry standing on `(tx, ty)` as
/// captured; the entry keeps its last coordinates and its slot.
pub open spec fn spec_mark_captured(ps: Seq<Position>, start: int, tx: u8, ty: u8) -> Seq<
    Position,
> {
    Seq::new(
        16,
        |i: int|
            if i >= start && ps[i].0 != CAPTURED && ps[i].1 == tx && ps[i].2 == ty {
                (CAPTURED, ps[i].1, ps[i].2)
            } else {
                ps[i]
            },
    )
}

/// Moves, from slot `start` on, every entry recorded on `(fx, fy)` to
/// `(tx, ty)`, promoting a pawn that reaches the farthest rank.
pub open spec fn spec_update_own(
    ps: Seq<Position>,
    start: int,
    fx: u8,
    fy: u8,
    tx: u8,
    ty: u8,
) -> Seq<Position> {
    Seq::new(
        16,
        |i: int|
            if i >= start && ps[i].1 == fx && ps[i].2 == fy {
                (spec_promote(ps[i].0, ty), tx, ty)
            } else {
                ps[i]
            },
    )
}

/// After the origin square is cleared, the destination square holds nothing
/// or a piece of the opposing colour (a legal capture).
pub open spec fn capture_ok(b: Seq<u8>, fx: u8, fy: u8, tx: u8, ty: u8, white: bool) -> bool {
    let caught = spec_get_figure(
        b.update(sq_index(fx as int, fy as int), 0u8),
        tx as int,
        ty as int,
    );
    caught == 0 || (figures::is_valid_figure(caught) && caught / 10 == (if white {
        1u8
    } else {
        0u8
    }))
}

/// One piece's move without any castling or rights side effect: clear the
/// origin square, mark a caught enemy entry, move the mover's own entry
/// (promoting a far-rank pawn), and write the (possibly promoted) code to
/// the destination square.
pub open spec fn spec_basic_move(
    b: Seq<u8>,
    bf: Seq<Position>,
    wf: Seq<Position>,
    figure: Figure,
    fx: u8,
    fy: u8,
    tx: u8,
    ty: u8,
    white: bool,
) -> (Seq<u8>, Seq<Position>, Seq<Position>) {
    let b1 = b.update(sq_index(fx as int, fy as int), 0u8);
    let caught = spec_get_figure(b1, tx as int, ty as int);
    let bf1 = if caught != 0 && white {
        spec_mark_captured(bf, caught as int % 10 - 1, tx, ty)
    } else {
        bf
    };
    let wf1 = if caught != 0 && !white {
        spec_mark_captured(wf, caught as int % 10 - 1, tx, ty)
    } else {
        wf
    };
    let wf2 = if white {
        spec_update_own(wf1, figure as int % 10 - 1, fx, fy, tx, ty)
    } else {
        wf1
    };
    let bf2 = if !white {
        spec_update_own(bf1, figure as int % 10 - 1, fx, fy, tx, ty)
    } else {
        bf1
    };
    let b2 = b1.update(sq_index(tx as int, ty as int), spec_promote(figure, ty));
    (b2, bf2, wf2)
}

/// The castling rook stands on its home square of rank `fy` and its target
/// square holds nothing or an enemy piece, so the rook's move can be applied.
pub open spec fn spec_rook_home_ok(b: Seq<u8>, white: bool, fy: u8, queenside: bool) -> bool {
    let rfx: int = if queenside {
        1
    } else {
        8
    };
    let rtx: int = if queenside {
        4
    } else {
        6
    };
    let own_rook: u8 = if white {
        WHITE_ROOK
    } else {
        BLACK_ROOK
    };
    let dest = spec_get_figure(b, rtx, fy as int);
    &&& spec_get_figure(b, rfx, fy as int) == own_rook
    &&& (dest == 0 || (figures::is_valid_figure(dest) && dest / 10 == (if white {
        1u8
    } else {
        0u8
    })))
}

/// The full State Transition. On top of [`spec_basic_move`]: a king leaving
/// file 5 two files sideways drags the matching rook along (when that rook
/// is at home and its target square is free or enemy-held) and in any case
/// costs its colour all castling rights; a rook leaving its home file costs
/// the matching rights bit, which once lost never returns.
pub open spec fn spec_move_figure(
    b: Seq<u8>,
    bf: Seq<Position>,
    wf: Seq<Position>,
    figure: Figure,
    fx: u8,
    fy: u8,
    tx: u8,
    ty: u8,
    white: bool,
) -> (Seq<u8>, Seq<Position>, Seq<Position>) {
    let m = spec_basic_move(b, bf, wf, figure, fx, fy, tx, ty, white);
    let color = figure as int / 10;
    if figure % 10 == KING && fx == 5 {
        let m2 = if tx == 3 && spec_rook_home_ok(m.0, white, fy, true) {
            spec_basic_move(
                m.0,
                m.1,
                m.2,
                if white {
                    WHITE_ROOK
                } else {
                    BLACK_ROOK
                },
                1,
                fy,
                4,
                fy,
                white,
            )
        } else if tx == 7 && spec_rook_home_ok(m.0, white, fy, false) {
            spec_basic_move(
                m.0,
                m.1,
                m.2,
                if white {
                    WHITE_ROOK
                } else {
                    BLACK_ROOK
                },
                8,
                fy,
                6,
                fy,
                white,
            )
        } else {
            m
        };
        (m2.0.update(64 + color, 0u8), m2.1, m2.2)
    } else if figure % 10 == ROOK {
        let rights = m.0[64 + color];
        if (rights == 1 || rights == 3) && fx == 1 {
            (m.0.update(64 + color, (rights - 1) as u8), m.1, m.2)
        } else if rights >= 2 && fx == 8 {
            (m.0.update(64 + color, (rights - 2) as u8), m.1, m.2)
        } else {
            m
        }
    } else {
        m
    }
}

fn mark_captured(ps: Positions, start: u8, tx: u8, ty: u8) -> (r: Positions)
    requires
        start <= 15,
    ensures
        r@ == spec_mark_captured(ps@, start as int, tx, ty),
{
    let mut out = ps;
    let mut i: usize = start as usize;
    while i < 16
        invariant
            start <= i <= 16,
            out@.len() == 16,
            forall|k: int| 0 <= k < start || i <= k < 16 ==> out@[k] == ps@[k],
            forall|k: int|
                start <= k < i ==> out@[k] == spec_mark_captured(ps@, start as int, tx, ty)[k],
        decreases 16 - i,
    {
        let e = out[i];
        if e.0 != CAPTURED && e.1 == tx && e.2 == ty {
            out[i] = (CAPTURED, e.1, e.2);
        }
        i += 1;
    }
    assert(out@ =~= spec_mark_captured(ps@, start as int, tx, ty));
    out
}

fn update_own(ps: Positions, start: u8, fx: u8, fy: u8, tx: u8, ty: u8) -> (r: Positions)
    requires
        start <= 15,
    ensures
        r@ == spec_update_own(ps@, start as int, fx, fy, tx, ty),
{
    let mut out = ps;
    let mut i: usize = start as usize;
    while i < 16
        invariant
            start <= i <= 16,
            out@.len() == 16,
            forall|k: int| 0 <= k < start || i <= k < 16 ==> out@[k] == ps@[k],
            forall|k: int|
                start <= k < i ==> out@[k] == spec_update_own(
                    ps@,
                    start as int,
                    fx,
                    fy,
                    tx,
                    ty,
                )[k],
        decreases 16 - i,
    {
        let e = out[i];
        if e.1 == fx && e.2 == fy {
            let f0 = if e.0 == WHITE_PAWN && ty == 8 {
                WHITE_QUEEN
            } else if e.0 == BLACK_PAWN && ty == 1 {
                BLACK_QUEEN
            } else {
                e.0
            };
            out[i] = (f0, tx, ty);
        }
        i += 1;
    }
    assert(out@ =~= spec_update_own(ps@, start as int, fx, fy, tx, ty));
    out
}

fn move_piece_basic(
    board: Board,
    black_figures: Positions,
    white_figures: Positions,
    figure: Figure,
    from_x: u8,
    from_y: u8,
    to_x: u8,
    to_y: u8,
    white: bool,
) -> (r: (Board, Positions, Positions))
    requires
        spec_on_board(from_x as int, from_y as int),
        spec_on_board(to_x as int, to_y as int),
        figures::is_valid_figure(figure),
        figure / 10 == (if white {
            0u8
        } else {
            1u8
        }),
        capture_ok(board@, from_x, from_y, to_x, to_y, white),
    ensures
        ({
            let m = spec_basic_move(
                board@,
                black_figures@,
                white_figures@,
                figure,
                from_x,
                from_y,
                to_x,
                to_y,
                white,
            );
            r.0@ == m.0 && r.1@ == m.1 && r.2@ == m.2
        }),
{
    let b = crate::engine::set_figure(board, 0, from_x, from_y);
    let caught = crate::engine::get_figure(b, to_x, to_y);
    let mut bf = black_figures;
    let mut wf = white_figures;
    if caught != 0 {
        if white {
            bf = mark_captured(bf, caught - 10 - 1, to_x, to_y);
        } else {
            wf = mark_captured(wf, caught - 1, to_x, to_y);
        }
    }
    if white {
        wf = update_own(wf, figure - 1, from_x, from_y, to_x, to_y);
    } else {
        bf = update_own(bf, figure - 10 - 1, from_x, from_y, to_x, to_y);
    }
    let promoted = if figure == WHITE_PAWN && to_y == 8 {
        WHITE_QUEEN
    } else if figure == BLACK_PAWN && to_y == 1 {
        BLACK_QUEEN
    } else {
        figure
    };
    let b = crate::engine::set_figure(b, promoted, to_x, to_y);
    (b, bf, wf)
}

/// State Transition: applies the move of `figure` from `(from_x, from_y)` to
/// `(to_x, to_y)` and returns the new board and position arrays. The
/// transition is pure and never judges legality; the caller keeps or
/// discards the result.
pub fn move_figure(
    board: Board,
    black_figures: Positions,
    white_figures: Positions,
    figure: Figure,
    from_x: u8,
    from_y: u8,
    to_x: u8,
    to_y: u8,
    white: bool,
) -> (r: (Board, Positions, Positions))
    requires
        crate::engine::wf_board(board@),
        spec_on_board(from_x as int, from_y as int),
        spec_on_board(to_x as int, to_y as int),
        figures::is_valid_figure(figure),
        figure / 10 == (if white {
            0u8
        } else {
            1u8
        }),
        capture_ok(board@, from_x, from_y, to_x, to_y, white),
    ensures
        ({
            let m = spec_move_figure(
                board@,
                black_figures@,
                white_figures@,
                figure,
                from_x,
                from_y,
                to_x,
                to_y,
                white,
            );
            r.0@ == m.0 && r.1@ == m.1 && r.2@ == m.2
        }),
{
    let m = move_piece_basic(
        board,
        black_figures,
        white_figures,
        figure,
        from_x,
        from_y,
        to_x,
        to_y,
        white,
    );
    let mut b = m.0;
    let mut bf = m.1;
    let mut wf = m.2;
    proof {
        // every square of the new board is empty or a valid piece code
        assert forall|s: int| 0 <= s < 64 implies b@[s] == 0 || figures::is_valid_figure(
            #[trigger] b@[s],
        ) by {
            assert(figures::is_valid_figure(spec_promote(figure, to_y)));
        }
    }
    if figure % 10 == KING && from_x == 5 {
        let own_rook = if white {
            WHITE_ROOK
        } else {
            BLACK_ROOK
        };
        if to_x == 3 {
            let rook = crate::engine::get_figure(b, 1, from_y);
            let dest_occ = crate::engine::get_figure(b, 4, from_y);
            if rook == own_rook && (dest_occ == 0 || dest_occ / 10 == (if white { 1 } else { 0 })) {
                let m2 = move_piece_basic(b, bf, wf, own_rook, 1, from_y, 4, from_y, white);
                b = m2.0;
                bf = m2.1;
                wf = m2.2;
            }
        } else if to_x == 7 {
            let rook = crate::engine::get_figure(b, 8, from_y);
            let dest_occ = crate::engine::get_figure(b, 6, from_y);
            if rook == own_rook && (dest_occ == 0 || dest_occ / 10 == (if white { 1 } else { 0 })) {
                let m2 = move_piece_basic(b, bf, wf, own_rook, 8, from_y, 6, from_y, white);
                b = m2.0;
                bf = m2.1;
                wf = m2.2;
            }
        }
        b[(64 + figure / 10) as usize] = 0;
    } else if figure % 10 == ROOK {
        let ri = (64 + figure / 10) as usize;
        let rights = b[ri];
        if (rights == 1 || rights == 3) && from_x == 1 {
            b[ri] = rights - 1;
        } else if rights >= 2 && from_x == 8 {
            b[ri] = rights - 2;
        }
    }
    (b, bf, wf)
}


/// The premises under which one basic move is applied: a well-formed state,
/// an active mover entry `im` holding `(figure, fx, fy)`, an on-board
/// destination, and a destination occupant that may be caught.
pub open spec fn basic_move_pre(
    b: Seq<u8>,
    bf: Seq<Position>,
    wf: Seq<Position>,
    figure: Figure,
    fx: u8,
    fy: u8,
    tx: u8,
    ty: u8,
    white: bool,
    im: int,
) -> bool {
    &&& crate::engine::wf_state(b, bf, wf)
    &&& 0 <= im < 16
    &&& (if white {
        wf[im]
    } else {
        bf[im]
    }) == (figure, fx, fy)
    &&& figure != CAPTURED
    &&& spec_on_board(tx as int, ty as int)
    &&& capture_ok(b, fx, fy, tx, ty, white)
}

/// On-board coordinates map to distinct flat square indices.
pub proof fn lemma_sq_index_injective()
    ensures
        forall|x1: int, y1: int, x2: int, y2: int|
            spec_on_board(x1, y1) && spec_on_board(x2, y2) && #[trigger] sq_index(x1, y1)
                == #[trigger] sq_index(x2, y2) ==> x1 == x2 && y1 == y2,
        forall|x: int, y: int| spec_on_board(x, y) ==> 0 <= #[trigger] sq_index(x, y) < 64,
{
}

/// Under [`basic_move_pre`], no active entry other than the mover stands on
/// the origin or the destination square, except the single enemy entry being
/// caught, and that entry's slot is within reach of the marking pass.
proof fn lemma_basic_move_squares(
    b: Seq<u8>,
    bf: Seq<Position>,
    wf: Seq<Position>,
    figure: Figure,
    fx: u8,
    fy: u8,
    tx: u8,
    ty: u8,
    white: bool,
    im: int,
)
    requires
        basic_move_pre(b, bf, wf, figure, fx, fy, tx, ty, white, im),
    ensures
        ({
            let mover = if white { wf } else { bf };
            let enemy = if white { bf } else { wf };
            let caught = spec_get_figure(
                b.update(sq_index(fx as int, fy as int), 0u8),
                tx as int,
                ty as int,
            );
            &&& forall|j: int|
                0 <= j < 16 && j != im && crate::engine::entry_active(#[trigger] mover[j])
                    ==> !(mover[j].1 == fx && mover[j].2 == fy) && !(mover[j].1 == tx
                    && mover[j].2 == ty)
            &&& forall|j: int|
                0 <= j < 16 && crate::engine::entry_active(#[trigger] enemy[j]) ==> !(enemy[j].1
                    == fx && enemy[j].2 == fy)
            &&& forall|j: int|
                0 <= j < 16 && crate::engine::entry_active(#[trigger] enemy[j]) && enemy[j].1 == tx
                    && enemy[j].2 == ty ==> caught != 0 && enemy[j].0 == caught && caught as int
                    % 10 - 1 <= j
        }),
{
    lemma_sq_index_injective();
    let mover = if white { wf } else { bf };
    let enemy = if white { bf } else { wf };
    let sqo = sq_index(fx as int, fy as int);
    let sqd = sq_index(tx as int, ty as int);
    let b1 = b.update(sqo, 0u8);
    let caught = spec_get_figure(b1, tx as int, ty as int);
    assert(spec_on_board(fx as int, fy as int));
    assert forall|j: int|
        0 <= j < 16 && j != im && crate::engine::entry_active(#[trigger] mover[j]) implies !(
    mover[j].1 == fx && mover[j].2 == fy) && !(mover[j].1 == tx && mover[j].2 == ty) by {
        if mover[j].1 == tx && mover[j].2 == ty {
            assert(spec_get_figure(b, tx as int, ty as int) == mover[j].0);
            if tx == fx && ty == fy {
            } else {
                assert(caught == mover[j].0);
                assert(caught != 0);
                assert(caught as int / 10 == (if white {
                    1int
                } else {
                    0int
                }));
                assert(figures::spec_color_of(mover[j].0) == (if white {
                    0int
                } else {
                    1int
                }));
            }
        }
    }
    assert forall|j: int|
        0 <= j < 16 && crate::engine::entry_active(#[trigger] enemy[j]) && enemy[j].1 == tx
        && enemy[j].2 == ty implies caught != 0 && enemy[j].0 == caught && caught as int % 10 - 1
        <= j by {
        assert(spec_get_figure(b, tx as int, ty as int) == enemy[j].0);
        assert(enemy[j].0 != 0);
        if tx == fx && ty == fy {
            assert(crate::engine::entry_active(mover[im]));
        } else {
            assert(caught == enemy[j].0);
            assert(figures::spec_blank_of(enemy[j].0) - 1 <= j);
        }
    }
}

/// Under [`basic_move_pre`], both position arrays after the basic move are
/// well-formed and all active pieces keep distinct squares.
#[verifier::rlimit(40)]
proof fn lemma_basic_move_arrays(
    b: Seq<u8>,
    bf: Seq<Position>,
    wf: Seq<Position>,
    figure: Figure,
    fx: u8,
    fy: u8,
    tx: u8,
    ty: u8,
    white: bool,
    im: int,
)
    requires
        basic_move_pre(b, bf, wf, figure, fx, fy, tx, ty, white, im),
    ensures
        ({
            let m = spec_basic_move(b, bf, wf, figure, fx, fy, tx, ty, white);
            &&& crate::engine::wf_positions(m.1, 1)
            &&& crate::engine::wf_positions(m.2, 0)
            &&& crate::engine::distinct_active_coords(m.1, m.2)
        }),
{
    lemma_basic_move_squares(b, bf, wf, figure, fx, fy, tx, ty, white, im);
    let m = spec_basic_move(b, bf, wf, figure, fx, fy, tx, ty, white);
    let mover = if white { wf } else { bf };
    let enemy = if white { bf } else { wf };
    let sqo = sq_index(fx as int, fy as int);
    let b1 = b.update(sqo, 0u8);
    let caught = spec_get_figure(b1, tx as int, ty as int);
    let promoted = spec_promote(figure, ty);
    let start = figure as int % 10 - 1;
    let mover2 = spec_update_own(mover, start, fx, fy, tx, ty);
    let enemy2 = if caught != 0 {
        spec_mark_captured(enemy, caught as int % 10 - 1, tx, ty)
    } else {
        enemy
    };
    assert(m.1 == if white { enemy2 } else { mover2 });
    assert(m.2 == if white { mover2 } else { enemy2 });
    assert(figures::is_valid_figure(figure));
    assert(figures::is_valid_figure(promoted) && promoted as int / 10 == figure as int / 10);
    assert(promoted as int % 10 <= figure as int % 10);

    // every entry the move touches: only the mover's slot changes among the
    // active entries of its own array, and marking only deactivates
    assert forall|i: int|
        0 <= i < 16 && i != im && crate::engine::entry_active(#[trigger] mover2[i])
        implies mover2[i] == mover[i] && crate::engine::entry_active(mover[i]) by {
        if i >= start && mover[i].1 == fx && mover[i].2 == fy {
            assert(mover2[i].0 == spec_promote(mover[i].0, ty));
            assert(mover[i].0 != CAPTURED);
        }
    }
    assert(mover2[im] == (promoted, tx, ty));
    assert forall|i: int|
        0 <= i < 16 && crate::engine::entry_active(#[trigger] enemy2[i]) implies enemy2[i]
        == enemy[i] && crate::engine::entry_active(enemy[i]) by {}

    assert(crate::engine::wf_positions(mover2, if white { 0int } else { 1int }));
    assert(crate::engine::wf_positions(enemy2, if white { 1int } else { 0int }));

    assert forall|i: int, j: int|
        0 <= i < 16 && 0 <= j < 16 && i != j && crate::engine::entry_active(#[trigger] mover2[i])
        && crate::engine::entry_active(#[trigger] mover2[j]) implies !(mover2[i].1 == mover2[j].1
        && mover2[i].2 == mover2[j].2) by {}
    assert forall|i: int, j: int|
        0 <= i < 16 && 0 <= j < 16 && crate::engine::entry_active(#[trigger] mover2[i])
        && crate::engine::entry_active(#[trigger] enemy2[j]) implies !(mover2[i].1 == enemy2[j].1
        && mover2[i].2 == enemy2[j].2) by {
        if i == im {
            assert(!(enemy[j].1 == tx && enemy[j].2 == ty));
        }
    }
    assert(crate::engine::distinct_active_coords(m.1, m.2));
}

/// Under [`basic_move_pre`], the board array after the basic move agrees
/// with the occupancy derived from the two new position arrays.
#[verifier::rlimit(60)]
proof fn lemma_basic_move_matches(
    b: Seq<u8>,
    bf: Seq<Position>,
    wf: Seq<Position>,
    figure: Figure,
    fx: u8,
    fy: u8,
    tx: u8,
    ty: u8,
    white: bool,
    im: int,
)
    requires
        basic_move_pre(b, bf, wf, figure, fx, fy, tx, ty, white, im),
    ensures
        ({
            let m = spec_basic_move(b, bf, wf, figure, fx, fy, tx, ty, white);
            crate::engine::board_matches_positions(m.0, m.1, m.2)
        }),
{
    lemma_sq_index_injective();
    lemma_basic_move_squares(b, bf, wf, figure, fx, fy, tx, ty, white, im);
    let m = spec_basic_move(b, bf, wf, figure, fx, fy, tx, ty, white);
    let mover = if white { wf } else { bf };
    let enemy = if white { bf } else { wf };
    let sqo = sq_index(fx as int, fy as int);
    let sqd = sq_index(tx as int, ty as int);
    let b1 = b.update(sqo, 0u8);
    let caught = spec_get_figure(b1, tx as int, ty as int);
    let promoted = spec_promote(figure, ty);
    let start = figure as int % 10 - 1;
    let mover2 = spec_update_own(mover, start, fx, fy, tx, ty);
    let enemy2 = if caught != 0 {
        spec_mark_captured(enemy, caught as int % 10 - 1, tx, ty)
    } else {
        enemy
    };
    let b2 = m.0;
    let bf2 = m.1;
    let wf2 = m.2;
    assert(bf2 == if white { enemy2 } else { mover2 });
    assert(wf2 == if white { mover2 } else { enemy2 });
    assert(figures::is_valid_figure(promoted) && promoted as int / 10 == figure as int / 10);
    assert(mover2[im] == (promoted, tx, ty));
    assert(promoted != 0 && promoted != CAPTURED);

    assert forall|i: int|
        0 <= i < 16 && i != im && crate::engine::entry_active(#[trigger] mover2[i])
        implies mover2[i] == mover[i] && crate::engine::entry_active(mover[i]) by {
        if i >= start && mover[i].1 == fx && mover[i].2 == fy {
            assert(mover2[i].0 == spec_promote(mover[i].0, ty));
            assert(mover[i].0 != CAPTURED);
        }
    }

    // each active entry finds its own code on its square
    assert forall|i: int| 0 <= i < 16 && crate::engine::entry_active(#[trigger] mover2[i])
        implies spec_get_figure(b2, mover2[i].1 as int, mover2[i].2 as int) == mover2[i].0 by {
        if i == im {
            assert(spec_get_figure(b2, tx as int, ty as int) == promoted);
        } else {
            assert(sq_index(mover[i].1 as int, mover[i].2 as int) != sqo);
            assert(sq_index(mover[i].1 as int, mover[i].2 as int) != sqd);
        }
    }
    assert forall|i: int| 0 <= i < 16 && crate::engine::entry_active(#[trigger] enemy2[i])
        implies spec_get_figure(b2, enemy2[i].1 as int, enemy2[i].2 as int) == enemy2[i].0 by {
        assert(enemy2[i] == enemy[i] && crate::engine::entry_active(enemy[i]));
        assert(!(enemy[i].1 == tx && enemy[i].2 == ty));
        assert(!(enemy[i].1 == fx && enemy[i].2 == fy));
        assert(sq_index(enemy[i].1 as int, enemy[i].2 as int) != sqo);
        assert(sq_index(enemy[i].1 as int, enemy[i].2 as int) != sqd);
    }

    // every occupied square is claimed by an active entry
    assert forall|x: int, y: int|
        spec_on_board(x, y) && #[trigger] spec_get_figure(b2, x, y) != 0
        implies crate::engine::claimed(
        if spec_get_figure(b2, x, y) / 10 == 0 {
            wf2
        } else {
            bf2
        },
        x,
        y,
    ) by {
        let code = spec_get_figure(b2, x, y);
        let arr = if code / 10 == 0 {
            wf2
        } else {
            bf2
        };
        if x == tx && y == ty {
            assert(code == promoted);
            assert(arr == mover2);
            assert(crate::engine::entry_active(arr[im]) && arr[im].1 == x && arr[im].2 == y);
        } else if x == fx && y == fy {
            assert(sq_index(x, y) == sqo && sqo != sqd);
            assert(spec_get_figure(b2, x, y) == 0);
        } else {
            assert(sq_index(x, y) != sqo && sq_index(x, y) != sqd);
            assert(code == spec_get_figure(b, x, y));
            let arr0 = if code / 10 == 0 {
                wf
            } else {
                bf
            };
            assert(crate::engine::claimed(arr0, x, y));
            let k = choose|i: int|
                0 <= i < 16 && crate::engine::entry_active(#[trigger] arr0[i]) && arr0[i].1 == x
                    && arr0[i].2 == y;
            let e = arr0[k];
            assert(arr[k] == e) by {
                assert(!(e.1 == fx && e.2 == fy));
                assert(!(e.1 == tx && e.2 == ty));
            }
            assert(crate::engine::entry_active(arr[k]) && arr[k].1 == x && arr[k].2 == y);
        }
    }
    assert(crate::engine::board_matches_positions(b2, bf2, wf2));
}

/// One basic move keeps the full state invariant: the two board
/// representations stay in lockstep, active pieces keep distinct squares,
/// and board and arrays stay well-formed.
pub proof fn lemma_basic_move_preserves_wf(
    b: Seq<u8>,
    bf: Seq<Position>,
    wf: Seq<Position>,
    figure: Figure,
    fx: u8,
    fy: u8,
    tx: u8,
    ty: u8,
    white: bool,
    im: int,
)
    requires
        basic_move_pre(b, bf, wf, figure, fx, fy, tx, ty, white, im),
    ensures
        ({
            let m = spec_basic_move(b, bf, wf, figure, fx, fy, tx, ty, white);
            crate::engine::wf_state(m.0, m.1, m.2)
        }),
{
    lemma_sq_index_injective();
    lemma_basic_move_arrays(b, bf, wf, figure, fx, fy, tx, ty, white, im);
    lemma_basic_move_matches(b, bf, wf, figure, fx, fy, tx, ty, white, im);
    let m = spec_basic_move(b, bf, wf, figure, fx, fy, tx, ty, white);
    let promoted = spec_promote(figure, ty);
    assert(figures::is_valid_figure(promoted));
    assert forall|s: int| 0 <= s < 64 implies m.0[s] == 0 || figures::is_valid_figure(
        #[trigger] m.0[s],
    ) by {}
    assert(crate::engine::wf_board(m.0));
}

/// Writing a rights bitmask below four into a colour's rights cell touches
/// no square, so the state invariant is kept.
proof fn lemma_rights_update_preserves_wf(
    b: Seq<u8>,
    bf: Seq<Position>,
    wf: Seq<Position>,
    color: int,
    v: u8,
)
    requires
        crate::engine::wf_state(b, bf, wf),
        color == 0 || color == 1,
        v <= 3,
    ensures
        crate::engine::wf_state(b.update(64 + color, v), bf, wf),
{
    lemma_sq_index_injective();
    let b2 = b.update(64 + color, v);
    assert forall|x: int, y: int| spec_on_board(x, y) implies #[trigger] spec_get_figure(b2, x, y)
        == spec_get_figure(b, x, y) by {
        assert(0 <= sq_index(x, y) < 64);
    }
    assert(crate::engine::wf_board(b2));
    assert forall|x: int, y: int|
        spec_on_board(x, y) && #[trigger] spec_get_figure(b2, x, y) != 0
        implies crate::engine::claimed(
        if spec_get_figure(b2, x, y) / 10 == 0 {
            wf
        } else {
            bf
        },
        x,
        y,
    ) by {
        assert(spec_get_figure(b, x, y) != 0);
        assert(spec_get_figure(b2, x, y) == spec_get_figure(b, x, y));
    }
    assert(crate::engine::board_matches_positions(b2, bf, wf));
}

/// State Transition preserves the full state invariant: applying any move of
/// an active piece to a permissible destination, castling rook shift and
/// rights bookkeeping included, leaves board and position arrays in
/// lockstep, so occupancy re-derived from the arrays agrees with the board
/// on every square.
#[verifier::rlimit(40)]
pub proof fn lemma_move_preserves_wf(
    b: Seq<u8>,
    bf: Seq<Position>,
    wf: Seq<Position>,
    figure: Figure,
    fx: u8,
    fy: u8,
    tx: u8,
    ty: u8,
    white: bool,
    im: int,
)
    requires
        basic_move_pre(b, bf, wf, figure, fx, fy, tx, ty, white, im),
    ensures
        ({
            let m = spec_move_figure(b, bf, wf, figure, fx, fy, tx, ty, white);
            crate::engine::wf_state(m.0, m.1, m.2)
        }),
{
    lemma_sq_index_injective();
    lemma_basic_move_preserves_wf(b, bf, wf, figure, fx, fy, tx, ty, white, im);
    let m = spec_basic_move(b, bf, wf, figure, fx, fy, tx, ty, white);
    let color = figure as int / 10;
    assert(figures::is_valid_figure(figure));
    assert(color == (if white {
        0int
    } else {
        1int
    }));
    if figure % 10 == KING && fx == 5 {
        let own_rook: u8 = if white {
            WHITE_ROOK
        } else {
            BLACK_ROOK
        };
        let queenside = tx == 3 && spec_rook_home_ok(m.0, white, fy, true);
        let kingside = tx == 7 && spec_rook_home_ok(m.0, white, fy, false);
        if queenside || kingside {
            let rfx: u8 = if queenside {
                1
            } else {
                8
            };
            let rtx: u8 = if queenside {
                4
            } else {
                6
            };
            assert(spec_get_figure(m.0, rfx as int, fy as int) == own_rook);
            assert(spec_on_board(rfx as int, fy as int));
            assert(own_rook != 0 && own_rook as int / 10 == (if white {
                0int
            } else {
                1int
            }));
            let rarr = if white {
                m.2
            } else {
                m.1
            };
            assert(crate::engine::claimed(rarr, rfx as int, fy as int));
            let jr = choose|i: int|
                0 <= i < 16 && crate::engine::entry_active(#[trigger] rarr[i]) && rarr[i].1
                    == rfx as int && rarr[i].2 == fy as int;
            let re = rarr[jr];
            assert(crate::engine::entry_active(re) && re.1 == rfx && re.2 == fy);
            assert(spec_get_figure(m.0, rfx as int, fy as int) == re.0);
            assert(re == (own_rook, rfx, fy));
            assert(capture_ok(m.0, rfx, fy, rtx, fy, white)) by {
                assert(sq_index(rtx as int, fy as int) != sq_index(rfx as int, fy as int));
            }
            assert(basic_move_pre(m.0, m.1, m.2, own_rook, rfx, fy, rtx, fy, white, jr));
            lemma_basic_move_preserves_wf(m.0, m.1, m.2, own_rook, rfx, fy, rtx, fy, white, jr);
            let m2 = spec_basic_move(m.0, m.1, m.2, own_rook, rfx, fy, rtx, fy, white);
            lemma_rights_update_preserves_wf(m2.0, m2.1, m2.2, color, 0);
        } else {
            lemma_rights_update_preserves_wf(m.0, m.1, m.2, color, 0);
        }
    } else if figure % 10 == ROOK {
        let rights = m.0[64 + color];
        assert(rights <= 3);
        if (rights == 1 || rights == 3) && fx == 1 {
            lemma_rights_update_preserves_wf(m.0, m.1, m.2, color, (rights - 1) as u8);
        } else if rights >= 2 && fx == 8 {
            lemma_rights_update_preserves_wf(m.0, m.1, m.2, color, (rights - 2) as u8);
        }
    }
}
} // verus!
