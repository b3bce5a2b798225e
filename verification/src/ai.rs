//! The automated opponent: the tapered static evaluation of a position and
//! the depth-bounded minimax search with alpha-beta pruning over it.

use vstd::prelude::*;

use crate::engine::{Position, Positions};
use crate::evaluation;
use crate::figures::CAPTURED;

verus! {

/// Running totals after the first `n` slots of both position arrays:
/// middlegame score, endgame score, and the game-phase counter. Every active
/// white piece adds its material value plus its placement bonus; every
/// active black piece subtracts its own, its square mirrored vertically.
pub open spec fn spec_eval_acc(bf: Seq<Position>, wf: Seq<Position>, n: int) -> (int, int, int)
    decreases n,
{
    if n <= 0 {
        (0int, 0int, 0int)
    } else {
        let p = spec_eval_acc(bf, wf, n - 1);
        let w = wf[n - 1];
        let bl = bf[n - 1];
        let wmg = if w.0 != CAPTURED {
            evaluation::spec_mg_value(w.0 as int) + evaluation::spec_mg_placement(
                w.0 as int,
                w.1 as int,
                w.2 as int,
            )
        } else {
            0int
        };
        let weg = if w.0 != CAPTURED {
            evaluation::spec_eg_value(w.0 as int) + evaluation::spec_eg_placement(
                w.0 as int,
                w.1 as int,
                w.2 as int,
            )
        } else {
            0int
        };
        let wph = if w.0 != CAPTURED {
            evaluation::spec_phase_inc(w.0 as int)
        } else {
            0int
        };
        let bmg = if bl.0 != CAPTURED {
            evaluation::spec_mg_value(bl.0 as int - 10) + evaluation::spec_mg_placement(
                bl.0 as int - 10,
                bl.1 as int,
                9 - bl.2 as int,
            )
        } else {
            0int
        };
        let beg = if bl.0 != CAPTURED {
            evaluation::spec_eg_value(bl.0 as int - 10) + evaluation::spec_eg_placement(
                bl.0 as int - 10,
                bl.1 as int,
                9 - bl.2 as int,
            )
        } else {
            0int
        };
        let bph = if bl.0 != CAPTURED {
            evaluation::spec_phase_inc(bl.0 as int - 10)
        } else {
            0int
        };
        (p.0 + wmg - bmg, p.1 + weg - beg, p.2 + wph + bph)
    }
}

/// Truncating division by 24, as the machine computes it for either sign.
pub open spec fn spec_div24_trunc(a: int) -> int {
    if a >= 0 {
        a / 24
    } else {
        -((-a) / 24)
    }
}

/// Evaluator: the tapered score of a position, positive favouring white.
/// The middlegame and endgame totals are blended by the game phase, clamped
/// at 24, so the weighting slides towards the endgame as material leaves
/// the board.
pub open spec fn spec_evaluate(bf: Seq<Position>, wf: Seq<Position>) -> int {
    let t = spec_eval_acc(bf, wf, 16);
    let mg_phase = if t.2 > 24 {
        24int
    } else {
        t.2
    };
    let eg_phase = 24 - mg_phase;
    spec_div24_trunc(t.0 * mg_phase + t.1 * eg_phase)
}

/// Evaluator: deterministic, pure function of the two position arrays.
/// Returns exactly [`spec_evaluate`] of them.
pub fn evaluate_board(black_figures: Positions, white_figures: Positions) -> (r: i32)
    requires
        crate::engine::wf_positions(black_figures@, 1),
        crate::engine::wf_positions(white_figures@, 0),
    ensures
        r as int == spec_evaluate(black_figures@, white_figures@),
{
    let mut mg_score: i32 = 0;
    let mut eg_score: i32 = 0;
    let mut game_phase: i32 = 0;
    let mut i: usize = 0;
    while i < 16
        invariant
            crate::engine::wf_positions(black_figures@, 1),
            crate::engine::wf_positions(white_figures@, 0),
            0 <= i <= 16,
            -2200 * i <= mg_score as int <= 2200 * i,
            -2200 * i <= eg_score as int <= 2200 * i,
            0 <= game_phase as int <= 8 * i,
            (mg_score as int, eg_score as int, game_phase as int) == spec_eval_acc(
                black_figures@,
                white_figures@,
                i as int,
            ),
        decreases 16 - i,
    {
        let w = white_figures[i];
        if w.0 != CAPTURED {
            mg_score = mg_score + evaluation::mg_value(w.0) + evaluation::mg_placement(
                w.0,
                w.1,
                w.2,
            );
            eg_score = eg_score + evaluation::eg_value(w.0) + evaluation::eg_placement(
                w.0,
                w.1,
                w.2,
            );
            game_phase = game_phase + evaluation::phase_inc(w.0);
        }
        let bl = black_figures[i];
        if bl.0 != CAPTURED {
            mg_score = mg_score - (evaluation::mg_value(bl.0 - 10) + evaluation::mg_placement(
                bl.0 - 10,
                bl.1,
                9 - bl.2,
            ));
            eg_score = eg_score - (evaluation::eg_value(bl.0 - 10) + evaluation::eg_placement(
                bl.0 - 10,
                bl.1,
                9 - bl.2,
            ));
            game_phase = game_phase + evaluation::phase_inc(bl.0 - 10);
        }
        i += 1;
    }
    let mg_phase: i32 = if game_phase > 24 {
        24
    } else {
        game_phase
    };
    let eg_phase: i32 = 24 - mg_phase;
    proof {
        assert(-35200 * 24 <= mg_score as int * mg_phase as int <= 35200 * 24) by (nonlinear_arith)
            requires
                -35200 <= mg_score as int <= 35200,
                0 <= mg_phase as int <= 24,
        {
        }
        assert(-35200 * 24 <= eg_score as int * eg_phase as int <= 35200 * 24) by (nonlinear_arith)
            requires
                -35200 <= eg_score as int <= 35200,
                0 <= eg_phase as int <= 24,
        {
        }
    }
    let num: i32 = mg_score * mg_phase + eg_score * eg_phase;
    if num >= 0 {
        num / 24
    } else {
        -((-num) / 24)
    }
}

/// Winning score at a given remaining depth: faster mates score higher.
pub open spec fn win_score(depth: u8) -> int {
    i32::MAX - 100 + depth
}

/// Losing score at a given remaining depth: faster mates score lower.
pub open spec fn loss_score(depth: u8) -> int {
    i32::MIN + 100 - depth
}

/// Side `movers` has a pseudo-legal move onto the square `target`.
pub open spec fn spec_side_attacks(b: Seq<u8>, movers: Seq<Position>, target: (u8, u8)) -> bool {
    exists|i: int|
        0 <= i < 16 && (#[trigger] movers[i]).0 != CAPTURED
            && crate::movegen::spec_contains_position(
            crate::movegen::spec_gen_moves(b, movers[i].0, movers[i].1, movers[i].2),
            target,
        )
}

/// The one-ply horizon test: the side to move could capture the enemy king
/// on its very next pseudo-legal move.
pub open spec fn spec_could_catch_king(
    b: Seq<u8>,
    bf: Seq<Position>,
    wf: Seq<Position>,
    white: bool,
) -> bool {
    let king = if white {
        bf[0]
    } else {
        wf[0]
    };
    spec_side_attacks(
        b,
        if white {
            wf
        } else {
            bf
        },
        (king.1, king.2),
    )
}

/// Whether some active piece of `movers` has a pseudo-legal move onto
/// `(tx, ty)`.
pub(crate) fn side_attacks(board: crate::engine::Board, movers: Positions, tx: u8, ty: u8) -> (r: bool)
    requires
        movers@.len() == 16,
        forall|k: int|
            0 <= k < 16 && (#[trigger] movers@[k]).0 != CAPTURED ==> crate::figures::is_valid_figure(
                movers@[k].0,
            ) && crate::engine::spec_on_board(movers@[k].1 as int, movers@[k].2 as int),
    ensures
        r == spec_side_attacks(board@, movers@, (tx, ty)),
{
    let mut i: usize = 0;
    while i < 16
        invariant
            movers@.len() == 16,
            forall|k: int|
                0 <= k < 16 && (#[trigger] movers@[k]).0 != CAPTURED
                    ==> crate::figures::is_valid_figure(movers@[k].0) && crate::engine::spec_on_board(
                    movers@[k].1 as int,
                    movers@[k].2 as int,
                ),
            0 <= i <= 16,
            forall|k: int|
                0 <= k < i ==> !((#[trigger] movers@[k]).0 != CAPTURED
                    && crate::movegen::spec_contains_position(
                    crate::movegen::spec_gen_moves(board@, movers@[k].0, movers@[k].1, movers@[k].2),
                    (tx, ty),
                )),
        decreases 16 - i,
    {
        let p = movers[i];
        if p.0 != CAPTURED {
            let moves = crate::movegen::get_valid_moves(board, p.0, p.1, p.2);
            if crate::movegen::contains_position(&moves, (tx, ty)) {
                return true;
            }
        }
        i += 1;
    }
    false
}

/// The running window and partial extremes of one node of the search, and
/// whether it has been cut off (by pruning, or by an immediate mate that is
/// returned as is).
pub ghost struct MinMaxAcc {
    pub alpha: int,
    pub beta: int,
    pub mn: int,
    pub mx: int,
    pub stop: bool,
    pub early: Option<int>,
}

/// Folds the remaining steps of one ray of piece `i` into the accumulator:
/// each candidate move is applied, scored by the recursive search one ply
/// deeper, and narrows the window; an immediate mate is returned as is, and
/// an inverted window stops the whole node.
pub open spec fn spec_mm_steps(
    b: Seq<u8>,
    bf: Seq<Position>,
    wf: Seq<Position>,
    white: bool,
    depth: u8,
    i: int,
    fig: crate::figures::Figure,
    fx: u8,
    fy: u8,
    steps: Seq<(u8, u8)>,
    acc: MinMaxAcc,
) -> MinMaxAcc
    decreases depth, 16 - i, 0int, 0int, steps.len(),
{
    if acc.stop || steps.len() == 0 || depth == 0 || i < 0 || i > 15 {
        acc
    } else {
        let mv = steps[0];
        let m = crate::transition::spec_move_figure(b, bf, wf, fig, fx, fy, mv.0, mv.1, white);
        let var = spec_min_max(m.0, m.1, m.2, !white, acc.alpha, acc.beta, (depth - 1) as u8);
        let acc2 = if white && var == win_score(depth) - 1 {
            MinMaxAcc { stop: true, early: Some(var), ..acc }
        } else if !white && var == loss_score(depth) - 1 {
            MinMaxAcc { stop: true, early: Some(var), ..acc }
        } else {
            let a1 = if var < acc.mn {
                MinMaxAcc {
                    beta: if !white {
                        var
                    } else {
                        acc.beta
                    },
                    mn: var,
                    ..acc
                }
            } else {
                acc
            };
            let a2 = if var > a1.mx {
                MinMaxAcc {
                    alpha: if white {
                        var
                    } else {
                        a1.alpha
                    },
                    mx: var,
                    ..a1
                }
            } else {
                a1
            };
            if a2.beta <= a2.alpha {
                MinMaxAcc { stop: true, ..a2 }
            } else {
                a2
            }
        };
        spec_mm_steps(b, bf, wf, white, depth, i, fig, fx, fy, steps.drop_first(), acc2)
    }
}

/// Folds the remaining rays of piece `i` into the accumulator.
pub open spec fn spec_mm_rays(
    b: Seq<u8>,
    bf: Seq<Position>,
    wf: Seq<Position>,
    white: bool,
    depth: u8,
    i: int,
    fig: crate::figures::Figure,
    fx: u8,
    fy: u8,
    rays: Seq<Seq<(u8, u8)>>,
    acc: MinMaxAcc,
) -> MinMaxAcc
    decreases depth, 16 - i, 1int, rays.len(), 0int,
{
    if rays.len() == 0 || depth == 0 || i < 0 || i > 15 {
        acc
    } else {
        let acc2 = spec_mm_steps(b, bf, wf, white, depth, i, fig, fx, fy, rays[0], acc);
        spec_mm_rays(b, bf, wf, white, depth, i, fig, fx, fy, rays.drop_first(), acc2)
    }
}

/// Folds the mover's pieces, from slot `i` on, into the accumulator: every
/// active piece contributes all its pseudo-legal moves in template order.
pub open spec fn spec_mm_pieces(
    b: Seq<u8>,
    bf: Seq<Position>,
    wf: Seq<Position>,
    white: bool,
    depth: u8,
    i: int,
    acc: MinMaxAcc,
) -> MinMaxAcc
    decreases depth, 16 - i, 2int, 0int, 0int,
{
    if i < 0 || i >= 16 || depth == 0 {
        acc
    } else {
        let p = if white {
            wf[i]
        } else {
            bf[i]
        };
        let acc1 = if p.0 == CAPTURED {
            acc
        } else {
            spec_mm_rays(
                b,
                bf,
                wf,
                white,
                depth,
                i,
                p.0,
                p.1,
                p.2,
                crate::movegen::spec_gen_moves(b, p.0, p.1, p.2),
                acc,
            )
        };
        spec_mm_pieces(b, bf, wf, white, depth, i + 1, acc1)
    }
}

/// Search: minimax with alpha-beta pruning, maximizing for white and
/// minimizing for black. A captured king ends the node at once with the
/// depth-adjusted extreme score; at depth zero the one-ply king-capture
/// shortcut fires before the Evaluator; otherwise every pseudo-legal move of
/// the side to move is searched in enumeration order.
pub open spec fn spec_min_max(
    b: Seq<u8>,
    bf: Seq<Position>,
    wf: Seq<Position>,
    white: bool,
    alpha: int,
    beta: int,
    depth: u8,
) -> int
    decreases depth, 17int, 2int, 0int, 0int,
{
    if bf[0].0 == CAPTURED {
        win_score(depth)
    } else if wf[0].0 == CAPTURED {
        loss_score(depth)
    } else if depth == 0 {
        if spec_could_catch_king(b, bf, wf, white) {
            if white {
                win_score(depth)
            } else {
                loss_score(depth)
            }
        } else {
            spec_evaluate(bf, wf)
        }
    } else {
        let acc0 = MinMaxAcc {
            alpha,
            beta,
            mn: win_score(depth),
            mx: loss_score(depth),
            stop: false,
            early: None,
        };
        let acc = spec_mm_pieces(b, bf, wf, white, depth, 0, acc0);
        match acc.early {
            Some(v) => v,
            None => if white {
                acc.mx
            } else {
                acc.mn
            },
        }
    }
}

/// The exec mirror of [`MinMaxAcc`].
struct SearchState {
    alpha: i32,
    beta: i32,
    mn: i32,
    mx: i32,
    stop: bool,
    early: Option<i32>,
}

impl SearchState {
    spec fn acc(self) -> MinMaxAcc {
        MinMaxAcc {
            alpha: self.alpha as int,
            beta: self.beta as int,
            mn: self.mn as int,
            mx: self.mx as int,
            stop: self.stop,
            early: match self.early {
                Some(v) => Some(v as int),
                None => None,
            },
        }
    }
}

/// Walks one generated ray, searching each candidate one ply deeper.
#[verifier::rlimit(60)]
fn mm_steps(
    board: crate::engine::Board,
    black_figures: Positions,
    white_figures: Positions,
    white: bool,
    depth: u8,
    Ghost(pi): Ghost<int>,
    Ghost(ri): Ghost<int>,
    figure: crate::figures::Figure,
    fx: u8,
    fy: u8,
    steps: &Vec<(u8, u8)>,
    st: SearchState,
) -> (r: SearchState)
    requires
        crate::engine::wf_state(board@, black_figures@, white_figures@),
        1 <= depth <= 64,
        0 <= pi < 16,
        (if white {
            white_figures@[pi]
        } else {
            black_figures@[pi]
        }) == (figure, fx, fy),
        figure != CAPTURED,
        0 <= ri < crate::movegen::spec_gen_moves(board@, figure, fx, fy).len(),
        steps@ == crate::movegen::spec_gen_moves(board@, figure, fx, fy)[ri],
    ensures
        r.acc() == spec_mm_steps(
            board@,
            black_figures@,
            white_figures@,
            white,
            depth,
            pi,
            figure,
            fx,
            fy,
            steps@,
            st.acc(),
        ),
    decreases depth, 0int,
{
    let ghost whole = spec_mm_steps(
        board@,
        black_figures@,
        white_figures@,
        white,
        depth,
        pi,
        figure,
        fx,
        fy,
        steps@,
        st.acc(),
    );
    let mut cur = st;
    let mut s: usize = 0;
    proof {
        assert(steps@.skip(0) =~= steps@);
    }
    while s < steps.len()
        invariant
            crate::engine::wf_state(board@, black_figures@, white_figures@),
            1 <= depth <= 64,
            0 <= pi < 16,
            (if white {
                white_figures@[pi]
            } else {
                black_figures@[pi]
            }) == (figure, fx, fy),
            figure != CAPTURED,
            0 <= ri < crate::movegen::spec_gen_moves(board@, figure, fx, fy).len(),
            steps@ == crate::movegen::spec_gen_moves(board@, figure, fx, fy)[ri],
            0 <= s <= steps@.len(),
            whole == spec_mm_steps(
                board@,
                black_figures@,
                white_figures@,
                white,
                depth,
                pi,
                figure,
                fx,
                fy,
                steps@,
                st.acc(),
            ),
            whole == spec_mm_steps(
                board@,
                black_figures@,
                white_figures@,
                white,
                depth,
                pi,
                figure,
                fx,
                fy,
                steps@.skip(s as int),
                cur.acc(),
            ),
        decreases steps@.len() - s,
    {
        if cur.stop {
            proof {
                assert(spec_mm_steps(
                    board@,
                    black_figures@,
                    white_figures@,
                    white,
                    depth,
                    pi,
                    figure,
                    fx,
                    fy,
                    steps@.skip(s as int),
                    cur.acc(),
                ) == cur.acc());
            }
            return cur;
        }
        let mv = steps[s];
        proof {
            assert(steps@.skip(s as int)[0] == steps@[s as int]);
            assert(crate::figures::is_valid_figure(figure));
            assert(crate::engine::spec_on_board(fx as int, fy as int));
            assert(crate::engine::spec_get_figure(board@, fx as int, fy as int) == figure);
            assert(crate::movegen::spec_contains_position(
                crate::movegen::spec_gen_moves(board@, figure, fx, fy),
                (mv.0, mv.1),
            ));
            crate::movegen::lemma_gen_move_capture_ok(board@, figure, fx, fy, mv.0, mv.1, white);
            assert(crate::transition::basic_move_pre(
                board@,
                black_figures@,
                white_figures@,
                figure,
                fx,
                fy,
                mv.0,
                mv.1,
                white,
                pi,
            ));
            crate::transition::lemma_move_preserves_wf(
                board@,
                black_figures@,
                white_figures@,
                figure,
                fx,
                fy,
                mv.0,
                mv.1,
                white,
                pi,
            );
        }
        let m = crate::transition::move_figure(
            board,
            black_figures,
            white_figures,
            figure,
            fx,
            fy,
            mv.0,
            mv.1,
            white,
        );
        let var = min_max(m.0, m.1, m.2, !white, cur.alpha, cur.beta, depth - 1);
        let w_early: i32 = i32::MAX - 100 + depth as i32 - 1;
        let l_early: i32 = i32::MIN + 100 - (depth as i32) - 1;
        if white && var == w_early {
            cur.stop = true;
            cur.early = Some(var);
        } else if !white && var == l_early {
            cur.stop = true;
            cur.early = Some(var);
        } else {
            if var < cur.mn {
                if !white {
                    cur.beta = var;
                }
                cur.mn = var;
            }
            if var > cur.mx {
                if white {
                    cur.alpha = var;
                }
                cur.mx = var;
            }
            if cur.beta <= cur.alpha {
                cur.stop = true;
            }
        }
        proof {
            assert(steps@.skip(s as int).drop_first() =~= steps@.skip(s as int + 1));
        }
        s += 1;
    }
    proof {
        assert(steps@.skip(s as int) =~= Seq::<(u8, u8)>::empty());
    }
    cur
}

/// Search: minimax with alpha-beta pruning over the State Transition,
/// maximizing for white and minimizing for black, with the one-ply
/// king-capture shortcut at the horizon and depth-adjusted mate scores so
/// that faster mates are preferred. Deterministic: the result is exactly
/// [`spec_min_max`] of the inputs.
#[verifier::rlimit(30)]
pub fn min_max(
    board: crate::engine::Board,
    black_figures: Positions,
    white_figures: Positions,
    white: bool,
    alpha: i32,
    beta: i32,
    depth: u8,
) -> (r: i32)
    requires
        crate::engine::wf_state(board@, black_figures@, white_figures@),
        depth <= 64,
    ensures
        r as int == spec_min_max(
            board@,
            black_figures@,
            white_figures@,
            white,
            alpha as int,
            beta as int,
            depth,
        ),
    decreases depth, 1int,
{
    if black_figures[0].0 == CAPTURED {
        return i32::MAX - 100 + depth as i32;
    }
    if white_figures[0].0 == CAPTURED {
        return i32::MIN + 100 - (depth as i32);
    }
    if depth == 0 {
        let king = if white {
            black_figures[0]
        } else {
            white_figures[0]
        };
        let movers = if white {
            white_figures
        } else {
            black_figures
        };
        if side_attacks(board, movers, king.1, king.2) {
            return if white {
                i32::MAX - 100
            } else {
                i32::MIN + 100
            };
        }
        return evaluate_board(black_figures, white_figures);
    }
    let mut st = SearchState {
        alpha,
        beta,
        mn: i32::MAX - 100 + depth as i32,
        mx: i32::MIN + 100 - (depth as i32),
        stop: false,
        early: None,
    };
    let ghost acc0 = st.acc();
    let ghost whole = spec_mm_pieces(
        board@,
        black_figures@,
        white_figures@,
        white,
        depth,
        0,
        acc0,
    );
    let mut i: usize = 0;
    while i < 16
        invariant
            crate::engine::wf_state(board@, black_figures@, white_figures@),
            1 <= depth <= 64,
            0 <= i <= 16,
            whole == spec_mm_pieces(
                board@,
                black_figures@,
                white_figures@,
                white,
                depth,
                i as int,
                st.acc(),
            ),
        decreases 16 - i,
    {
        let p = if white {
            white_figures[i]
        } else {
            black_figures[i]
        };
        if p.0 != CAPTURED {
            let moves = crate::movegen::get_valid_moves(board, p.0, p.1, p.2);
            let ghost rays = crate::movegen::spec_gen_moves(board@, p.0, p.1, p.2);
            let ghost st_in = st.acc();
            let mut r: usize = 0;
            proof {
                assert(rays.skip(0) =~= rays);
            }
            while r < moves.len()
                invariant
                    crate::engine::wf_state(board@, black_figures@, white_figures@),
                    1 <= depth <= 64,
                    0 <= i < 16,
                    (if white {
                        white_figures@[i as int]
                    } else {
                        black_figures@[i as int]
                    }) == p,
                    p.0 != CAPTURED,
                    crate::movegen::moves_view(moves) == rays,
                    rays == crate::movegen::spec_gen_moves(board@, p.0, p.1, p.2),
                    0 <= r <= moves@.len(),
                    spec_mm_rays(
                        board@,
                        black_figures@,
                        white_figures@,
                        white,
                        depth,
                        i as int,
                        p.0,
                        p.1,
                        p.2,
                        rays,
                        st_in,
                    ) == spec_mm_rays(
                        board@,
                        black_figures@,
                        white_figures@,
                        white,
                        depth,
                        i as int,
                        p.0,
                        p.1,
                        p.2,
                        rays.skip(r as int),
                        st.acc(),
                    ),
                decreases moves@.len() - r,
            {
                let ray = &moves[r];
                proof {
                    assert(rays.skip(r as int)[0] == rays[r as int]);
                    assert(ray@ == rays[r as int]);
                }
                let st2 = mm_steps(
                    board,
                    black_figures,
                    white_figures,
                    white,
                    depth,
                    Ghost(i as int),
                    Ghost(r as int),
                    p.0,
                    p.1,
                    p.2,
                    ray,
                    st,
                );
                proof {
                    assert(rays.skip(r as int).drop_first() =~= rays.skip(r as int + 1));
                }
                st = st2;
                r += 1;
            }
            proof {
                assert(rays.skip(moves@.len() as int) =~= Seq::<Seq<(u8, u8)>>::empty());
            }
        }
        i += 1;
    }
    match st.early {
        Some(v) => v,
        None => if white {
            st.mx
        } else {
            st.mn
        },
    }
}

/// Two boards agree on all 64 squares (castling cells not compared).
pub open spec fn boards_equal_64(a: Seq<u8>, b: Seq<u8>) -> bool {
    forall|k: int| 0 <= k < 64 ==> a[k] == #[trigger] b[k]
}

/// The board's squares match one of the remembered previous boards.
pub open spec fn spec_is_repetition(b: Seq<u8>, prev: Seq<Seq<u8>>) -> bool {
    exists|j: int| 0 <= j < prev.len() && boards_equal_64(b, #[trigger] prev[j])
}

/// The square contents of each remembered board.
pub open spec fn prev_views(p: Seq<crate::engine::Board>) -> Seq<Seq<u8>> {
    Seq::new(p.len(), |j: int| p[j]@)
}

/// Whether the board's 64 squares coincide with one of the ten remembered
/// previous boards.
fn is_repetition(board: &crate::engine::Board, prev_boards: &[crate::engine::Board; 10]) -> (r:
    bool)
    ensures
        r == spec_is_repetition(board@, prev_views(prev_boards@)),
{
    let mut j: usize = 0;
    while j < 10
        invariant
            0 <= j <= 10,
            forall|k: int| 0 <= k < j ==> !boards_equal_64(board@, #[trigger] prev_views(
                prev_boards@,
            )[k]),
        decreases 10 - j,
    {
        let prev = prev_boards[j];
        let mut k: usize = 0;
        let mut eq = true;
        while k < 64
            invariant
                0 <= k <= 64,
                prev@ == prev_views(prev_boards@)[j as int],
                0 <= j < 10,
                eq == (forall|l: int| 0 <= l < k ==> board@[l] == #[trigger] prev@[l]),
            decreases 64 - k,
        {
            if board[k] != prev[k] {
                eq = false;
            }
            k += 1;
        }
        if eq {
            return true;
        }
        j += 1;
    }
    false
}

/// The running window of the top-level search, the best state found so far,
/// and the entry and destination of the move that reached it. The initial
/// placeholder entry code 255 survives only if no candidate is ever taken.
pub ghost struct TurnAcc {
    pub alpha: int,
    pub beta: int,
    pub best_value: int,
    pub best_b: Seq<u8>,
    pub best_bf: Seq<Position>,
    pub best_wf: Seq<Position>,
    pub best_fig: Position,
    pub best_to: (u8, u8),
    pub stop: bool,
}

/// Folds the remaining steps of one ray at the top level of the search: a
/// candidate whose resulting squares match a remembered board is skipped
/// entirely; every other candidate is scored one ply deeper and taken when
/// it strictly improves the mover's bound.
pub open spec fn spec_turn_steps(
    b: Seq<u8>,
    bf: Seq<Position>,
    wf: Seq<Position>,
    white: bool,
    depth: u8,
    prev: Seq<Seq<u8>>,
    i: int,
    fig: crate::figures::Figure,
    fx: u8,
    fy: u8,
    steps: Seq<(u8, u8)>,
    acc: TurnAcc,
) -> TurnAcc
    decreases 16 - i, 0int, 0int, steps.len(),
{
    if acc.stop || steps.len() == 0 || depth == 0 || i < 0 || i > 15 {
        acc
    } else {
        let mv = steps[0];
        let m = crate::transition::spec_move_figure(b, bf, wf, fig, fx, fy, mv.0, mv.1, white);
        let acc2 = if spec_is_repetition(m.0, prev) {
            acc
        } else {
            let value = spec_min_max(m.0, m.1, m.2, !white, acc.alpha, acc.beta, (depth - 1) as u8);
            let a1 = if white && value > acc.alpha {
                TurnAcc {
                    alpha: value,
                    best_value: value,
                    best_b: m.0,
                    best_bf: m.1,
                    best_wf: m.2,
                    best_fig: (fig, fx, fy),
                    best_to: mv,
                    ..acc
                }
            } else if !white && value < acc.beta {
                TurnAcc {
                    beta: value,
                    best_value: value,
                    best_b: m.0,
                    best_bf: m.1,
                    best_wf: m.2,
                    best_fig: (fig, fx, fy),
                    best_to: mv,
                    ..acc
                }
            } else {
                acc
            };
            if a1.beta <= a1.alpha {
                TurnAcc { stop: true, ..a1 }
            } else {
                a1
            }
        };
        spec_turn_steps(b, bf, wf, white, depth, prev, i, fig, fx, fy, steps.drop_first(), acc2)
    }
}

/// Folds the remaining rays of piece `i` at the top level of the search.
pub open spec fn spec_turn_rays(
    b: Seq<u8>,
    bf: Seq<Position>,
    wf: Seq<Position>,
    white: bool,
    depth: u8,
    prev: Seq<Seq<u8>>,
    i: int,
    fig: crate::figures::Figure,
    fx: u8,
    fy: u8,
    rays: Seq<Seq<(u8, u8)>>,
    acc: TurnAcc,
) -> TurnAcc
    decreases 16 - i, 1int, rays.len(), 0int,
{
    if rays.len() == 0 || depth == 0 || i < 0 || i > 15 {
        acc
    } else {
        let acc2 = spec_turn_steps(b, bf, wf, white, depth, prev, i, fig, fx, fy, rays[0], acc);
        spec_turn_rays(b, bf, wf, white, depth, prev, i, fig, fx, fy, rays.drop_first(), acc2)
    }
}

/// Folds the mover's pieces, from slot `i` on, at the top of the search.
pub open spec fn spec_turn_pieces(
    b: Seq<u8>,
    bf: Seq<Position>,
    wf: Seq<Position>,
    white: bool,
    depth: u8,
    prev: Seq<Seq<u8>>,
    i: int,
    acc: TurnAcc,
) -> TurnAcc
    decreases 16 - i, 2int, 0int, 0int,
{
    if i < 0 || i >= 16 || depth == 0 {
        acc
    } else {
        let p = if white {
            wf[i]
        } else {
            bf[i]
        };
        let acc1 = if p.0 == CAPTURED {
            acc
        } else {
            spec_turn_rays(
                b,
                bf,
                wf,
                white,
                depth,
                prev,
                i,
                p.0,
                p.1,
                p.2,
                crate::movegen::spec_gen_moves(b, p.0, p.1, p.2),
                acc,
            )
        };
        spec_turn_pieces(b, bf, wf, white, depth, prev, i + 1, acc1)
    }
}

/// The state of the top-level search after all of the mover's pieces.
pub open spec fn spec_turn_acc(
    b: Seq<u8>,
    bf: Seq<Position>,
    wf: Seq<Position>,
    white: bool,
    depth: u8,
    prev: Seq<Seq<u8>>,
) -> TurnAcc {
    spec_turn_pieces(
        b,
        bf,
        wf,
        white,
        depth,
        prev,
        0,
        TurnAcc {
            alpha: i32::MIN as int,
            beta: i32::MAX as int,
            best_value: if white {
                i32::MIN as int
            } else {
                i32::MAX as int
            },
            best_b: b,
            best_bf: bf,
            best_wf: wf,
            best_fig: (255u8, 1u8, 1u8),
            best_to: (1u8, 1u8),
            stop: false,
        },
    )
}

/// The exec mirror of [`TurnAcc`].
struct TurnState {
    alpha: i32,
    beta: i32,
    best_value: i32,
    best: (crate::engine::Board, Positions, Positions),
    best_fig: Position,
    best_to: (u8, u8),
    stop: bool,
}

impl TurnState {
    spec fn acc(self) -> TurnAcc {
        TurnAcc {
            alpha: self.alpha as int,
            beta: self.beta as int,
            best_value: self.best_value as int,
            best_b: self.best.0@,
            best_bf: self.best.1@,
            best_wf: self.best.2@,
            best_fig: self.best_fig,
            best_to: self.best_to,
            stop: self.stop,
        }
    }
}

/// Walks one generated ray at the top level of the search.
#[verifier::rlimit(60)]
fn turn_steps(
    board: crate::engine::Board,
    black_figures: Positions,
    white_figures: Positions,
    white: bool,
    depth: u8,
    prev_boards: &[crate::engine::Board; 10],
    Ghost(pi): Ghost<int>,
    Ghost(ri): Ghost<int>,
    figure: crate::figures::Figure,
    fx: u8,
    fy: u8,
    steps: &Vec<(u8, u8)>,
    st: TurnState,
) -> (r: TurnState)
    requires
        crate::engine::wf_state(board@, black_figures@, white_figures@),
        crate::engine::wf_state(st.best.0@, st.best.1@, st.best.2@),
        1 <= depth <= 64,
        0 <= pi < 16,
        (if white {
            white_figures@[pi]
        } else {
            black_figures@[pi]
        }) == (figure, fx, fy),
        figure != CAPTURED,
        0 <= ri < crate::movegen::spec_gen_moves(board@, figure, fx, fy).len(),
        steps@ == crate::movegen::spec_gen_moves(board@, figure, fx, fy)[ri],
    ensures
        r.acc() == spec_turn_steps(
            board@,
            black_figures@,
            white_figures@,
            white,
            depth,
            prev_views(prev_boards@),
            pi,
            figure,
            fx,
            fy,
            steps@,
            st.acc(),
        ),
        crate::engine::wf_state(r.best.0@, r.best.1@, r.best.2@),
{
    let ghost prev = prev_views(prev_boards@);
    let ghost whole = spec_turn_steps(
        board@,
        black_figures@,
        white_figures@,
        white,
        depth,
        prev,
        pi,
        figure,
        fx,
        fy,
        steps@,
        st.acc(),
    );
    let mut cur = st;
    let mut s: usize = 0;
    proof {
        assert(steps@.skip(0) =~= steps@);
    }
    while s < steps.len()
        invariant
            crate::engine::wf_state(board@, black_figures@, white_figures@),
            crate::engine::wf_state(cur.best.0@, cur.best.1@, cur.best.2@),
            1 <= depth <= 64,
            0 <= pi < 16,
            (if white {
                white_figures@[pi]
            } else {
                black_figures@[pi]
            }) == (figure, fx, fy),
            figure != CAPTURED,
            0 <= ri < crate::movegen::spec_gen_moves(board@, figure, fx, fy).len(),
            steps@ == crate::movegen::spec_gen_moves(board@, figure, fx, fy)[ri],
            prev == prev_views(prev_boards@),
            0 <= s <= steps@.len(),
            whole == spec_turn_steps(
                board@,
                black_figures@,
                white_figures@,
                white,
                depth,
                prev,
                pi,
                figure,
                fx,
                fy,
                steps@,
                st.acc(),
            ),
            whole == spec_turn_steps(
                board@,
                black_figures@,
                white_figures@,
                white,
                depth,
                prev,
                pi,
                figure,
                fx,
                fy,
                steps@.skip(s as int),
                cur.acc(),
            ),
        decreases steps@.len() - s,
    {
        if cur.stop {
            proof {
                assert(spec_turn_steps(
                    board@,
                    black_figures@,
                    white_figures@,
                    white,
                    depth,
                    prev,
                    pi,
                    figure,
                    fx,
                    fy,
                    steps@.skip(s as int),
                    cur.acc(),
                ) == cur.acc());
            }
            return cur;
        }
        let mv = steps[s];
        proof {
            assert(steps@.skip(s as int)[0] == steps@[s as int]);
            assert(crate::movegen::spec_contains_position(
                crate::movegen::spec_gen_moves(board@, figure, fx, fy),
                (mv.0, mv.1),
            ));
            crate::movegen::lemma_gen_move_capture_ok(board@, figure, fx, fy, mv.0, mv.1, white);
            crate::transition::lemma_move_preserves_wf(
                board@,
                black_figures@,
                white_figures@,
                figure,
                fx,
                fy,
                mv.0,
                mv.1,
                white,
                pi,
            );
        }
        let m = crate::transition::move_figure(
            board,
            black_figures,
            white_figures,
            figure,
            fx,
            fy,
            mv.0,
            mv.1,
            white,
        );
        if !is_repetition(&m.0, prev_boards) {
            let value = min_max(m.0, m.1, m.2, !white, cur.alpha, cur.beta, depth - 1);
            if white && value > cur.alpha {
                cur.alpha = value;
                cur.best_value = value;
                cur.best = m;
                cur.best_fig = (figure, fx, fy);
                cur.best_to = mv;
            } else if !white && value < cur.beta {
                cur.beta = value;
                cur.best_value = value;
                cur.best = m;
                cur.best_fig = (figure, fx, fy);
                cur.best_to = mv;
            }
            if cur.beta <= cur.alpha {
                cur.stop = true;
            }
        }
        proof {
            assert(steps@.skip(s as int).drop_first() =~= steps@.skip(s as int + 1));
        }
        s += 1;
    }
    proof {
        assert(steps@.skip(s as int) =~= Seq::<(u8, u8)>::empty());
    }
    cur
}

/// One engine turn: picks the engine's move by minimax with alpha-beta
/// pruning, looking `turns` full moves ahead. A candidate whose board
/// recreates one of the ten remembered previous boards is skipped entirely.
/// Returns the state after the chosen move, tagged `CheckMate` when no
/// candidate was taken at all or the opponent is now checkmated.
#[verifier::rlimit(30)]
pub fn turn(
    board: crate::engine::Board,
    black_figures: Positions,
    white_figures: Positions,
    white: bool,
    turns: u8,
    prev_boards: [crate::engine::Board; 10],
) -> (r: crate::engine::GameState)
    requires
        crate::engine::wf_state(board@, black_figures@, white_figures@),
        1 <= turns <= 32,
    ensures
        ({
            let acc = spec_turn_acc(
                board@,
                black_figures@,
                white_figures@,
                white,
                (turns * 2) as u8,
                prev_views(prev_boards@),
            );
            let mate = acc.best_fig.0 == CAPTURED || crate::legality::spec_is_checkmate(
                acc.best_b,
                acc.best_bf,
                acc.best_wf,
                !white,
            );
            match r {
                crate::engine::GameState::Normal(v) => !mate && v.0@ == acc.best_b && v.1@
                    == acc.best_bf && v.2@ == acc.best_wf,
                crate::engine::GameState::CheckMate(v) => mate && v.0@ == acc.best_b && v.1@
                    == acc.best_bf && v.2@ == acc.best_wf,
            }
        }),
{
    let depth: u8 = turns * 2;
    let ghost prev = prev_views(prev_boards@);
    let mut st = TurnState {
        alpha: i32::MIN,
        beta: i32::MAX,
        best_value: if white {
            i32::MIN
        } else {
            i32::MAX
        },
        best: (board, black_figures, white_figures),
        best_fig: (CAPTURED, 1, 1),
        best_to: (1, 1),
        stop: false,
    };
    let ghost acc0 = st.acc();
    let ghost whole = spec_turn_pieces(
        board@,
        black_figures@,
        white_figures@,
        white,
        depth,
        prev,
        0,
        acc0,
    );
    let mut i: usize = 0;
    while i < 16
        invariant
            crate::engine::wf_state(board@, black_figures@, white_figures@),
            crate::engine::wf_state(st.best.0@, st.best.1@, st.best.2@),
            1 <= depth <= 64,
            prev == prev_views(prev_boards@),
            0 <= i <= 16,
            whole == spec_turn_pieces(
                board@,
                black_figures@,
                white_figures@,
                white,
                depth,
                prev,
                i as int,
                st.acc(),
            ),
        decreases 16 - i,
    {
        let p = if white {
            white_figures[i]
        } else {
            black_figures[i]
        };
        if p.0 != CAPTURED {
            let moves = crate::movegen::get_valid_moves(board, p.0, p.1, p.2);
            let ghost rays = crate::movegen::spec_gen_moves(board@, p.0, p.1, p.2);
            let ghost st_in = st.acc();
            let mut r: usize = 0;
            proof {
                assert(rays.skip(0) =~= rays);
            }
            while r < moves.len()
                invariant
                    crate::engine::wf_state(board@, black_figures@, white_figures@),
                    crate::engine::wf_state(st.best.0@, st.best.1@, st.best.2@),
                    1 <= depth <= 64,
                    prev == prev_views(prev_boards@),
                    0 <= i < 16,
                    (if white {
                        white_figures@[i as int]
                    } else {
                        black_figures@[i as int]
                    }) == p,
                    p.0 != CAPTURED,
                    crate::movegen::moves_view(moves) == rays,
                    rays == crate::movegen::spec_gen_moves(board@, p.0, p.1, p.2),
                    0 <= r <= moves@.len(),
                    spec_turn_rays(
                        board@,
                        black_figures@,
                        white_figures@,
                        white,
                        depth,
                        prev,
                        i as int,
                        p.0,
                        p.1,
                        p.2,
                        rays,
                        st_in,
                    ) == spec_turn_rays(
                        board@,
                        black_figures@,
                        white_figures@,
                        white,
                        depth,
                        prev,
                        i as int,
                        p.0,
                        p.1,
                        p.2,
                        rays.skip(r as int),
                        st.acc(),
                    ),
                decreases moves@.len() - r,
            {
                let ray = &moves[r];
                proof {
                    assert(rays.skip(r as int)[0] == rays[r as int]);
                    assert(ray@ == rays[r as int]);
                }
                let st2 = turn_steps(
                    board,
                    black_figures,
                    white_figures,
                    white,
                    depth,
                    &prev_boards,
                    Ghost(i as int),
                    Ghost(r as int),
                    p.0,
                    p.1,
                    p.2,
                    ray,
                    st,
                );
                proof {
                    assert(rays.skip(r as int).drop_first() =~= rays.skip(r as int + 1));
                }
                st = st2;
                r += 1;
            }
            proof {
                assert(rays.skip(moves@.len() as int) =~= Seq::<Seq<(u8, u8)>>::empty());
            }
        }
        i += 1;
    }
    let best = st.best;
    if st.best_fig.0 == CAPTURED || crate::legality::is_checkmate(best.0, best.1, best.2, !white) {
        crate::engine::GameState::CheckMate(best)
    } else {
        crate::engine::GameState::Normal(best)
    }
}

} // verus!
