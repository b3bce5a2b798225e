//! The engine's global laws: the fresh game establishes the state invariant,
//! every generated move preserves it (so the two board representations never
//! drift apart), castling rights never return, promotion reaches both
//! representations, the search is deterministic, and the search never
//! chooses a move that recreates a remembered board.

use vstd::prelude::*;

use crate::ai::{
    spec_is_repetition, spec_min_max, spec_turn_acc, spec_turn_pieces, spec_turn_rays,
    spec_turn_steps, TurnAcc,
};
use crate::engine::{
    claimed, entry_active, initial_black_positions, initial_white_positions, spec_get_figure,
    spec_initial_board,
    spec_initial_white_positions, spec_on_board, spec_rights, sq_index, wf_state, Position,
};
use crate::figures;
use crate::figures::{Figure, BLACK_PAWN, BLACK_QUEEN, CAPTURED, KING, WHITE_PAWN, WHITE_QUEEN};
use crate::movegen::{spec_contains_position, spec_gen_moves};
use crate::transition::{
    basic_move_pre, spec_basic_move, spec_move_figure, spec_promote, spec_update_own,
};

verus! {

/// A fresh game satisfies the full state invariant, with or without the
/// handicap: board and position arrays describe the same occupancy.
pub proof fn lemma_new_game_establishes_invariant(white_handicap: bool)
    ensures
        wf_state(
            spec_initial_board(white_handicap),
            initial_black_positions(),
            spec_initial_white_positions(white_handicap),
        ),
{
    let b = spec_initial_board(white_handicap);
    let bf = initial_black_positions();
    let wf = spec_initial_white_positions(white_handicap);
    assert(crate::engine::wf_board(b));
    assert(crate::engine::wf_positions(bf, 1));
    assert(crate::engine::wf_positions(wf, 0));
    assert(crate::engine::distinct_active_coords(bf, wf));
    assert forall|i: int| 0 <= i < 16 && entry_active(#[trigger] wf[i]) implies spec_get_figure(
        b,
        wf[i].1 as int,
        wf[i].2 as int,
    ) == wf[i].0 by {
        if i >= 8 {
            assert(sq_index(wf[i].1 as int, wf[i].2 as int) == i);
        }
    }
    assert forall|i: int| 0 <= i < 16 && entry_active(#[trigger] bf[i]) implies spec_get_figure(
        b,
        bf[i].1 as int,
        bf[i].2 as int,
    ) == bf[i].0 by {
        if i >= 8 {
            assert(sq_index(bf[i].1 as int, bf[i].2 as int) == 40 + i);
        }
    }
    assert forall|x: int, y: int|
        spec_on_board(x, y) && #[trigger] spec_get_figure(b, x, y) != 0 implies claimed(
        if spec_get_figure(b, x, y) / 10 == 0 {
            wf
        } else {
            bf
        },
        x,
        y,
    ) by {
        let code = spec_get_figure(b, x, y);
        if y == 1 || y == 8 {
            let arr = if y == 1 {
                wf
            } else {
                bf
            };
            let w: int = if x == 5 {
                0
            } else if x == 4 {
                1
            } else if x == 2 {
                2
            } else if x == 7 {
                3
            } else if x == 3 {
                4
            } else if x == 6 {
                5
            } else if x == 1 {
                6
            } else {
                7
            };
            assert(entry_active(arr[w]) && arr[w].1 == x && arr[w].2 == y);
            assert((if code / 10 == 0 {
                wf
            } else {
                bf
            }) == arr);
        } else if y == 2 {
            assert(sq_index(x, y) == 7 + x);
            let w: int = 7 + x;
            assert(entry_active(wf[w]) && wf[w].1 == x && wf[w].2 == y);
        } else if y == 7 {
            assert(sq_index(x, y) == 47 + x);
            let w: int = 7 + x;
            assert(entry_active(bf[w]) && bf[w].1 == x && bf[w].2 == y);
        } else {
            assert(code == 0);
        }
    }
    assert(crate::engine::board_matches_positions(b, bf, wf));
}

/// Representation consistency: applying a move the Move Generator produced
/// for a piece that really stands on its origin square keeps the full state
/// invariant, so square occupancy re-derived from the position arrays agrees
/// with the board array on every square.
pub proof fn lemma_generated_move_keeps_lockstep(
    b: Seq<u8>,
    bf: Seq<Position>,
    wf: Seq<Position>,
    figure: Figure,
    fx: u8,
    fy: u8,
    tx: u8,
    ty: u8,
    white: bool,
)
    requires
        wf_state(b, bf, wf),
        spec_on_board(fx as int, fy as int),
        spec_get_figure(b, fx as int, fy as int) == figure,
        figure != 0,
        figure / 10 == (if white {
            0u8
        } else {
            1u8
        }),
        spec_contains_position(spec_gen_moves(b, figure, fx, fy), (tx, ty)),
    ensures
        ({
            let m = spec_move_figure(b, bf, wf, figure, fx, fy, tx, ty, white);
            &&& wf_state(m.0, m.1, m.2)
            &&& crate::engine::board_matches_positions(m.0, m.1, m.2)
        }),
{
    let movers = if white {
        wf
    } else {
        bf
    };
    assert(claimed(movers, fx as int, fy as int));
    let pi = choose|i: int|
        0 <= i < 16 && entry_active(#[trigger] movers[i]) && movers[i].1 == fx as int
            && movers[i].2 == fy as int;
    assert(movers[pi] == (figure, fx, fy));
    crate::movegen::lemma_gen_move_capture_ok(b, figure, fx, fy, tx, ty, white);
    crate::transition::lemma_move_preserves_wf(b, bf, wf, figure, fx, fy, tx, ty, white, pi);
}

/// The queenside castling right of a colour is still held on this board.
pub open spec fn queenside_right(b: Seq<u8>, color: int) -> bool {
    spec_rights(b, color) == 1 || spec_rights(b, color) == 3
}

/// The kingside castling right of a colour is still held on this board.
pub open spec fn kingside_right(b: Seq<u8>, color: int) -> bool {
    spec_rights(b, color) >= 2
}

/// Castling rights only ever shrink: a rights bit still set after any move
/// was already set before it. Once a rook has left its origin file (or the
/// king has moved), the lost bit never returns, even if the piece comes back.
pub proof fn lemma_rights_never_return(
    b: Seq<u8>,
    bf: Seq<Position>,
    wf: Seq<Position>,
    figure: Figure,
    fx: u8,
    fy: u8,
    tx: u8,
    ty: u8,
    white: bool,
    color: int,
)
    requires
        crate::engine::wf_board(b),
        figures::is_valid_figure(figure),
        spec_on_board(fx as int, fy as int),
        spec_on_board(tx as int, ty as int),
        color == 0 || color == 1,
    ensures
        ({
            let m = spec_move_figure(b, bf, wf, figure, fx, fy, tx, ty, white);
            &&& (queenside_right(m.0, color) ==> queenside_right(b, color))
            &&& (kingside_right(m.0, color) ==> kingside_right(b, color))
        }),
{
    crate::transition::lemma_sq_index_injective();
    let m = spec_move_figure(b, bf, wf, figure, fx, fy, tx, ty, white);
    let m1 = spec_basic_move(b, bf, wf, figure, fx, fy, tx, ty, white);
    assert(spec_rights(m1.0, color) == spec_rights(b, color));
    let mc = figure as int / 10;
    assert(mc == 0 || mc == 1);
    if figure % 10 == KING && fx == 5 {
        let queenside = tx == 3 && crate::transition::spec_rook_home_ok(m1.0, white, fy, true);
        let kingside = tx == 7 && crate::transition::spec_rook_home_ok(m1.0, white, fy, false);
        if queenside || kingside {
            let rfx: u8 = if queenside {
                1
            } else {
                8
            };
            let rtx: u8 = if queenside {
                4
            } else {
                6
            };
            let rook: u8 = if white {
                figures::WHITE_ROOK
            } else {
                figures::BLACK_ROOK
            };
            let m2 = spec_basic_move(m1.0, m1.1, m1.2, rook, rfx, fy, rtx, fy, white);
            assert(spec_rights(m2.0, color) == spec_rights(m1.0, color));
            assert(m.0 == m2.0.update(64 + mc, 0u8));
        } else {
            assert(m.0 == m1.0.update(64 + mc, 0u8));
        }
        assert(spec_rights(m.0, color) == 0 || spec_rights(m.0, color) == spec_rights(b, color));
    } else if figure % 10 == crate::figures::ROOK {
        let rights = m1.0[64 + mc];
        if (rights == 1 || rights == 3) && fx == 1 {
            assert(m.0 == m1.0.update(64 + mc, (rights - 1) as u8));
        } else if rights >= 2 && fx == 8 {
            assert(m.0 == m1.0.update(64 + mc, (rights - 2) as u8));
        } else {
            assert(m.0 == m1.0);
        }
    } else {
        assert(m.0 == m1.0);
    }
}

/// Promotion: a pawn moved onto its farthest rank appears as its colour's
/// queen both on the destination square of the board and in its own
/// position-array slot; it never stays a pawn in either representation.
pub proof fn lemma_promotion(
    b: Seq<u8>,
    bf: Seq<Position>,
    wf: Seq<Position>,
    fx: u8,
    fy: u8,
    tx: u8,
    ty: u8,
    white: bool,
    im: int,
)
    requires
        basic_move_pre(
            b,
            bf,
            wf,
            if white {
                WHITE_PAWN
            } else {
                BLACK_PAWN
            },
            fx,
            fy,
            tx,
            ty,
            white,
            im,
        ),
        white ==> ty == 8,
        !white ==> ty == 1,
    ensures
        ({
            let pawn = if white {
                WHITE_PAWN
            } else {
                BLACK_PAWN
            };
            let queen = if white {
                WHITE_QUEEN
            } else {
                BLACK_QUEEN
            };
            let m = spec_move_figure(b, bf, wf, pawn, fx, fy, tx, ty, white);
            &&& spec_get_figure(m.0, tx as int, ty as int) == queen
            &&& (if white {
                m.2
            } else {
                m.1
            })[im] == (queen, tx, ty)
        }),
{
    crate::transition::lemma_sq_index_injective();
    let pawn = if white {
        WHITE_PAWN
    } else {
        BLACK_PAWN
    };
    let queen = if white {
        WHITE_QUEEN
    } else {
        BLACK_QUEEN
    };
    let mover = if white {
        wf
    } else {
        bf
    };
    let m = spec_move_figure(b, bf, wf, pawn, fx, fy, tx, ty, white);
    assert(spec_promote(pawn, ty) == queen);
    assert(figures::spec_blank_of(pawn) - 1 <= im);
    let mover2 = spec_update_own(mover, pawn as int % 10 - 1, fx, fy, tx, ty);
    assert(mover2[im] == (queen, tx, ty));
}

/// Search determinism: the score of a node is a pure function of the board,
/// the two position arrays, the side to move, the window and the depth; two
/// runs on identical inputs return identical scores.
pub proof fn lemma_search_deterministic(
    b: Seq<u8>,
    bf: Seq<Position>,
    wf: Seq<Position>,
    white: bool,
    alpha: int,
    beta: int,
    depth: u8,
    r1: int,
    r2: int,
)
    requires
        r1 == spec_min_max(b, bf, wf, white, alpha, beta, depth),
        r2 == spec_min_max(b, bf, wf, white, alpha, beta, depth),
    ensures
        r1 == r2,
{
}

proof fn lemma_turn_steps_keeps_no_repetition(
    b: Seq<u8>,
    bf: Seq<Position>,
    wf: Seq<Position>,
    white: bool,
    depth: u8,
    prev: Seq<Seq<u8>>,
    i: int,
    fig: Figure,
    fx: u8,
    fy: u8,
    steps: Seq<(u8, u8)>,
    acc: TurnAcc,
)
    requires
        acc.best_fig.0 != CAPTURED ==> !spec_is_repetition(acc.best_b, prev),
    ensures
        ({
            let r = spec_turn_steps(b, bf, wf, white, depth, prev, i, fig, fx, fy, steps, acc);
            r.best_fig.0 != CAPTURED ==> !spec_is_repetition(r.best_b, prev)
        }),
    decreases steps.len(),
{
    if !(acc.stop || steps.len() == 0 || depth == 0 || i < 0 || i > 15) {
        let mv = steps[0];
        let m = spec_move_figure(b, bf, wf, fig, fx, fy, mv.0, mv.1, white);
        let acc2 = if spec_is_repetition(m.0, prev) {
            acc
        } else {
            let value = spec_min_max(m.0, m.1, m.2, !white, acc.alpha, acc.beta, (depth - 1) as u8);
            let a1 = if white && value > acc.alpha {
                TurnAcc {
                    alpha: value,
                    best_value: value,
                    best_b: m.0,
                    best_bf: m.1,
                    best_wf: m.2,
                    best_fig: (fig, fx, fy),
                    best_to: mv,
                    ..acc
                }
            } else if !white && value < acc.beta {
                TurnAcc {
                    beta: value,
                    best_value: value,
                    best_b: m.0,
                    best_bf: m.1,
                    best_wf: m.2,
                    best_fig: (fig, fx, fy),
                    best_to: mv,
                    ..acc
                }
            } else {
                acc
            };
            if a1.beta <= a1.alpha {
                TurnAcc { stop: true, ..a1 }
            } else {
                a1
            }
        };
        lemma_turn_steps_keeps_no_repetition(
            b,
            bf,
            wf,
            white,
            depth,
            prev,
            i,
            fig,
            fx,
            fy,
            steps.drop_first(),
            acc2,
        );
    }
}

proof fn lemma_turn_rays_keeps_no_repetition(
    b: Seq<u8>,
    bf: Seq<Position>,
    wf: Seq<Position>,
    white: bool,
    depth: u8,
    prev: Seq<Seq<u8>>,
    i: int,
    fig: Figure,
    fx: u8,
    fy: u8,
    rays: Seq<Seq<(u8, u8)>>,
    acc: TurnAcc,
)
    requires
        acc.best_fig.0 != CAPTURED ==> !spec_is_repetition(acc.best_b, prev),
    ensures
        ({
            let r = spec_turn_rays(b, bf, wf, white, depth, prev, i, fig, fx, fy, rays, acc);
            r.best_fig.0 != CAPTURED ==> !spec_is_repetition(r.best_b, prev)
        }),
    decreases rays.len(),
{
    if !(rays.len() == 0 || depth == 0 || i < 0 || i > 15) {
        lemma_turn_steps_keeps_no_repetition(
            b,
            bf,
            wf,
            white,
            depth,
            prev,
            i,
            fig,
            fx,
            fy,
            rays[0],
            acc,
        );
        let acc2 = spec_turn_steps(b, bf, wf, white, depth, prev, i, fig, fx, fy, rays[0], acc);
        lemma_turn_rays_keeps_no_repetition(
            b,
            bf,
            wf,
            white,
            depth,
            prev,
            i,
            fig,
            fx,
            fy,
            rays.drop_first(),
            acc2,
        );
    }
}

proof fn lemma_turn_pieces_keeps_no_repetition(
    b: Seq<u8>,
    bf: Seq<Position>,
    wf: Seq<Position>,
    white: bool,
    depth: u8,
    prev: Seq<Seq<u8>>,
    i: int,
    acc: TurnAcc,
)
    requires
        acc.best_fig.0 != CAPTURED ==> !spec_is_repetition(acc.best_b, prev),
    ensures
        ({
            let r = spec_turn_pieces(b, bf, wf, white, depth, prev, i, acc);
            r.best_fig.0 != CAPTURED ==> !spec_is_repetition(r.best_b, prev)
        }),
    decreases 16 - i,
{
    if !(i < 0 || i >= 16 || depth == 0) {
        let p = if white {
            wf[i]
        } else {
            bf[i]
        };
        let acc1 = if p.0 == CAPTURED {
            acc
        } else {
            lemma_turn_rays_keeps_no_repetition(
                b,
                bf,
                wf,
                white,
                depth,
                prev,
                i,
                p.0,
                p.1,
                p.2,
                spec_gen_moves(b, p.0, p.1, p.2),
                acc,
            );
            spec_turn_rays(
                b,
                bf,
                wf,
                white,
                depth,
                prev,
                i,
                p.0,
                p.1,
                p.2,
                spec_gen_moves(b, p.0, p.1, p.2),
                acc,
            )
        };
        lemma_turn_pieces_keeps_no_repetition(b, bf, wf, white, depth, prev, i + 1, acc1);
    }
}

/// Anti-repetition: where the Search selects a move at all, the selected
/// move's board differs on the 64 squares from every remembered previous
/// board — a candidate that recreates one is excluded from consideration
/// entirely, never merely disfavoured.
pub proof fn lemma_turn_avoids_repetition(
    b: Seq<u8>,
    bf: Seq<Position>,
    wf: Seq<Position>,
    white: bool,
    depth: u8,
    prev: Seq<Seq<u8>>,
)
    ensures
        ({
            let acc = spec_turn_acc(b, bf, wf, white, depth, prev);
            acc.best_fig.0 != CAPTURED ==> !spec_is_repetition(acc.best_b, prev)
        }),
{
    let acc0 = TurnAcc {
        alpha: i32::MIN as int,
        beta: i32::MAX as int,
        best_value: if white {
            i32::MIN as int
        } else {
            i32::MAX as int
        },
        best_b: b,
        best_bf: bf,
        best_wf: wf,
        best_fig: (255u8, 1u8, 1u8),
        best_to: (1u8, 1u8),
        stop: false,
    };
    lemma_turn_pieces_keeps_no_repetition(b, bf, wf, white, depth, prev, 0, acc0);
}

/// Evaluator symmetry at the start: the standard initial position, with all
/// thirty-two pieces standing, evaluates to exactly zero.
pub proof fn lemma_initial_evaluation_balanced()
    ensures
        crate::ai::spec_evaluate(initial_black_positions(), initial_white_positions()) == 0,
{
    let bf = initial_black_positions();
    let wf = initial_white_positions();
    assert(crate::ai::spec_eval_acc(bf, wf, 0) == (0int, 0int, 0int));
    assert(crate::ai::spec_eval_acc(bf, wf, 1) == (0int, 0int, 0int));
    assert(crate::ai::spec_eval_acc(bf, wf, 2) == (0int, 0int, 8int));
    assert(crate::ai::spec_eval_acc(bf, wf, 3) == (0int, 0int, 10int));
    assert(crate::ai::spec_eval_acc(bf, wf, 4) == (0int, 0int, 12int));
    assert(crate::ai::spec_eval_acc(bf, wf, 5) == (0int, 0int, 14int));
    assert(crate::ai::spec_eval_acc(bf, wf, 6) == (0int, 0int, 16int));
    assert(crate::ai::spec_eval_acc(bf, wf, 7) == (0int, 0int, 20int));
    assert(crate::ai::spec_eval_acc(bf, wf, 8) == (0int, 0int, 24int));
    assert(crate::ai::spec_eval_acc(bf, wf, 9) == (0int, 0int, 24int));
    assert(crate::ai::spec_eval_acc(bf, wf, 10) == (0int, 0int, 24int));
    assert(crate::ai::spec_eval_acc(bf, wf, 11) == (0int, 0int, 24int));
    assert(crate::ai::spec_eval_acc(bf, wf, 12) == (0int, 0int, 24int));
    assert(crate::ai::spec_eval_acc(bf, wf, 13) == (0int, 0int, 24int));
    assert(crate::ai::spec_eval_acc(bf, wf, 14) == (0int, 0int, 24int));
    assert(crate::ai::spec_eval_acc(bf, wf, 15) == (0int, 0int, 24int));
    assert(crate::ai::spec_eval_acc(bf, wf, 16) == (0int, 0int, 24int));
    assert(crate::ai::spec_evaluate(bf, wf) == 0);
}

/// Evaluator symmetry, second half: taking white's queen off the initial
/// position while holding black's pieces fixed makes the score strictly
/// negative.
pub proof fn lemma_queen_removal_decreases()
    ensures
        crate::ai::spec_evaluate(
            initial_black_positions(),
            initial_white_positions().update(1, (CAPTURED, 4u8, 1u8)),
        ) < 0,
{
    let bf = initial_black_positions();
    let wf = initial_white_positions().update(1, (CAPTURED, 4u8, 1u8));
    assert(crate::ai::spec_eval_acc(bf, wf, 0) == (0int, 0int, 0int));
    assert(crate::ai::spec_eval_acc(bf, wf, 1) == (0int, 0int, 0int));
    assert(crate::ai::spec_eval_acc(bf, wf, 2) == (-1031int, -936int, 4int));
    assert(crate::ai::spec_eval_acc(bf, wf, 3) == (-1031int, -936int, 6int));
    assert(crate::ai::spec_eval_acc(bf, wf, 4) == (-1031int, -936int, 8int));
    assert(crate::ai::spec_eval_acc(bf, wf, 5) == (-1031int, -936int, 10int));
    assert(crate::ai::spec_eval_acc(bf, wf, 6) == (-1031int, -936int, 12int));
    assert(crate::ai::spec_eval_acc(bf, wf, 7) == (-1031int, -936int, 16int));
    assert(crate::ai::spec_eval_acc(bf, wf, 8) == (-1031int, -936int, 20int));
    assert(crate::ai::spec_eval_acc(bf, wf, 9) == (-1031int, -936int, 20int));
    assert(crate::ai::spec_eval_acc(bf, wf, 10) == (-1031int, -936int, 20int));
    assert(crate::ai::spec_eval_acc(bf, wf, 11) == (-1031int, -936int, 20int));
    assert(crate::ai::spec_eval_acc(bf, wf, 12) == (-1031int, -936int, 20int));
    assert(crate::ai::spec_eval_acc(bf, wf, 13) == (-1031int, -936int, 20int));
    assert(crate::ai::spec_eval_acc(bf, wf, 14) == (-1031int, -936int, 20int));
    assert(crate::ai::spec_eval_acc(bf, wf, 15) == (-1031int, -936int, 20int));
    assert(crate::ai::spec_eval_acc(bf, wf, 16) == (-1031int, -936int, 20int));
    assert(crate::ai::spec_evaluate(bf, wf) == -1015);
}

} // verus!
