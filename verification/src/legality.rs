//! The legality oracle: whether a state leaves the mover's king capturable,
//! the checkmate test built on it, and the validated human-move path that
//! rejects moves not in the generated set or that leave the own king unsafe.

use vstd::prelude::*;

use crate::ai::{side_attacks, spec_side_attacks};
use crate::engine::{
    spec_get_figure, spec_on_board, wf_state, Board, Position, Positions,
};
use crate::figures;
use crate::figures::CAPTURED;
use crate::movegen::{moves_view, spec_contains_position, spec_gen_moves, MovementSet};
use crate::transition::spec_move_figure;

verus! {

/// Legality Oracle: colour `white`'s king is safe, i.e. no opposing piece's
/// pseudo-legal move set contains the king's square.
pub open spec fn spec_board_safe(
    b: Seq<u8>,
    bf: Seq<Position>,
    wf: Seq<Position>,
    white: bool,
) -> bool {
    let king = if white {
        wf[0]
    } else {
        bf[0]
    };
    !spec_side_attacks(
        b,
        if white {
            bf
        } else {
            wf
        },
        (king.1, king.2),
    )
}

/// Legality Oracle: reports whether colour `white`'s king is safe on this
/// board — `false` exactly when some opposing pseudo-legal move's destination
/// equals the king's square.
pub fn is_board_valid(
    board: Board,
    black_figures: Positions,
    white_figures: Positions,
    white: bool,
) -> (r: bool)
    requires
        crate::engine::wf_positions(black_figures@, 1),
        crate::engine::wf_positions(white_figures@, 0),
    ensures
        r == spec_board_safe(board@, black_figures@, white_figures@, white),
{
    let king = if white {
        white_figures[0]
    } else {
        black_figures[0]
    };
    let movers = if white {
        black_figures
    } else {
        white_figures
    };
    !side_attacks(board, movers, king.1, king.2)
}

/// Candidate `(i, r, s)` — piece slot, ray, step — is a pseudo-legal move of
/// colour `white` whose application leaves that colour's king safe.
pub open spec fn spec_candidate_escapes(
    b: Seq<u8>,
    bf: Seq<Position>,
    wf: Seq<Position>,
    white: bool,
    i: int,
    r: int,
    s: int,
) -> bool {
    let p = if white {
        wf[i]
    } else {
        bf[i]
    };
    let g = spec_gen_moves(b, p.0, p.1, p.2);
    &&& 0 <= i < 16
    &&& p.0 != CAPTURED
    &&& 0 <= r < g.len()
    &&& 0 <= s < g[r].len()
    &&& ({
        let mv = g[r][s];
        let m = spec_move_figure(b, bf, wf, p.0, p.1, p.2, mv.0, mv.1, white);
        spec_board_safe(m.0, m.1, m.2, white)
    })
}

/// Checkmate as this engine judges it: no pseudo-legal move of the side to
/// move yields a board on which its king is safe. (A position with no safe
/// move but no standing attack — a stalemate — is reported the same way.)
pub open spec fn spec_is_checkmate(
    b: Seq<u8>,
    bf: Seq<Position>,
    wf: Seq<Position>,
    white: bool,
) -> bool {
    forall|i: int, r: int, s: int| !#[trigger] spec_candidate_escapes(b, bf, wf, white, i, r, s)
}

/// Whether the side to move (`white`) is checkmated: every pseudo-legal move
/// of every one of its pieces leaves its king capturable.
pub fn is_checkmate(
    board: Board,
    black_figures: Positions,
    white_figures: Positions,
    white: bool,
) -> (r: bool)
    requires
        wf_state(board@, black_figures@, white_figures@),
    ensures
        r == spec_is_checkmate(board@, black_figures@, white_figures@, white),
{
    let mut i: usize = 0;
    while i < 16
        invariant
            wf_state(board@, black_figures@, white_figures@),
            0 <= i <= 16,
            forall|k: int, r: int, s: int|
                k < i ==> !#[trigger] spec_candidate_escapes(
                    board@,
                    black_figures@,
                    white_figures@,
                    white,
                    k,
                    r,
                    s,
                ),
        decreases 16 - i,
    {
        let p = if white {
            white_figures[i]
        } else {
            black_figures[i]
        };
        if p.0 != CAPTURED {
            let moves = crate::movegen::get_valid_moves(board, p.0, p.1, p.2);
            let ghost rays = spec_gen_moves(board@, p.0, p.1, p.2);
            let mut r: usize = 0;
            while r < moves.len()
                invariant
                    wf_state(board@, black_figures@, white_figures@),
                    0 <= i < 16,
                    (if white {
                        white_figures@[i as int]
                    } else {
                        black_figures@[i as int]
                    }) == p,
                    p.0 != CAPTURED,
                    moves_view(moves) == rays,
                    rays == spec_gen_moves(board@, p.0, p.1, p.2),
                    0 <= r <= moves@.len(),
                    forall|k: int, rr: int, ss: int|
                        k < i ==> !#[trigger] spec_candidate_escapes(
                            board@,
                            black_figures@,
                            white_figures@,
                            white,
                            k,
                            rr,
                            ss,
                        ),
                    forall|rr: int, ss: int|
                        rr < r ==> !#[trigger] spec_candidate_escapes(
                            board@,
                            black_figures@,
                            white_figures@,
                            white,
                            i as int,
                            rr,
                            ss,
                        ),
                decreases moves@.len() - r,
            {
                let ray = &moves[r];
                let mut s: usize = 0;
                while s < ray.len()
                    invariant
                        wf_state(board@, black_figures@, white_figures@),
                        0 <= i < 16,
                        (if white {
                            white_figures@[i as int]
                        } else {
                            black_figures@[i as int]
                        }) == p,
                        p.0 != CAPTURED,
                        rays == spec_gen_moves(board@, p.0, p.1, p.2),
                        0 <= r < rays.len(),
                        ray@ == rays[r as int],
                        0 <= s <= ray@.len(),
                        forall|ss: int|
                            ss < s ==> !#[trigger] spec_candidate_escapes(
                                board@,
                                black_figures@,
                                white_figures@,
                                white,
                                i as int,
                                r as int,
                                ss,
                            ),
                    decreases ray@.len() - s,
                {
                    let mv = ray[s];
                    proof {
                        assert(spec_contains_position(rays, (mv.0, mv.1)));
                        crate::movegen::lemma_gen_move_capture_ok(
                            board@,
                            p.0,
                            p.1,
                            p.2,
                            mv.0,
                            mv.1,
                            white,
                        );
                        assert(crate::transition::basic_move_pre(
                            board@,
                            black_figures@,
                            white_figures@,
                            p.0,
                            p.1,
                            p.2,
                            mv.0,
                            mv.1,
                            white,
                            i as int,
                        ));
                        crate::transition::lemma_move_preserves_wf(
                            board@,
                            black_figures@,
                            white_figures@,
                            p.0,
                            p.1,
                            p.2,
                            mv.0,
                            mv.1,
                            white,
                            i as int,
                        );
                    }
                    let m = crate::transition::move_figure(
                        board,
                        black_figures,
                        white_figures,
                        p.0,
                        p.1,
                        p.2,
                        mv.0,
                        mv.1,
                        white,
                    );
                    if is_board_valid(m.0, m.1, m.2, white) {
                        proof {
                            assert(spec_candidate_escapes(
                                board@,
                                black_figures@,
                                white_figures@,
                                white,
                                i as int,
                                r as int,
                                s as int,
                            ));
                        }
                        return false;
                    }
                    s += 1;
                }
                r += 1;
            }
            proof {
                assert forall|rr: int, ss: int|
                    !spec_candidate_escapes(
                        board@,
                        black_figures@,
                        white_figures@,
                        white,
                        i as int,
                        rr,
                        ss,
                    ) by {
                    if 0 <= rr < rays.len() && 0 <= ss < rays[rr].len() {
                    }
                }
            }
        } else {
            proof {
                assert forall|rr: int, ss: int|
                    !spec_candidate_escapes(
                        board@,
                        black_figures@,
                        white_figures@,
                        white,
                        i as int,
                        rr,
                        ss,
                    ) by {}
            }
        }
        i += 1;
    }
    true
}

/// The longest prefix of one generated ray all of whose moves leave the
/// mover's king safe; the ray is cut at the first unsafe move.
pub open spec fn spec_safe_prefix(
    b: Seq<u8>,
    bf: Seq<Position>,
    wf: Seq<Position>,
    white: bool,
    fig: figures::Figure,
    x: u8,
    y: u8,
    steps: Seq<(u8, u8)>,
) -> Seq<(u8, u8)>
    decreases steps.len(),
{
    if steps.len() == 0 {
        Seq::empty()
    } else {
        let mv = steps[0];
        let m = spec_move_figure(b, bf, wf, fig, x, y, mv.0, mv.1, white);
        if !spec_board_safe(m.0, m.1, m.2, white) {
            Seq::empty()
        } else {
            seq![mv] + spec_safe_prefix(b, bf, wf, white, fig, x, y, steps.drop_first())
        }
    }
}

/// The pseudo-legal moves of the piece on `(x, y)` with every ray truncated
/// at its first self-checking move.
pub open spec fn spec_safe_moves(
    b: Seq<u8>,
    bf: Seq<Position>,
    wf: Seq<Position>,
    white: bool,
    fig: figures::Figure,
    x: u8,
    y: u8,
) -> Seq<Seq<(u8, u8)>> {
    let g = spec_gen_moves(b, fig, x, y);
    Seq::new(g.len(), |r: int| spec_safe_prefix(b, bf, wf, white, fig, x, y, g[r]))
}

/// The moves of one piece that a player may actually play: its pseudo-legal
/// moves, each ray truncated at the first move that would leave the player's
/// own king capturable. This is what the display of a piece's possible moves
/// shows.
pub fn get_safe_moves(
    board: Board,
    black_figures: Positions,
    white_figures: Positions,
    white: bool,
    figure: figures::Figure,
    x: u8,
    y: u8,
) -> (out: MovementSet)
    requires
        wf_state(board@, black_figures@, white_figures@),
        spec_on_board(x as int, y as int),
        spec_get_figure(board@, x as int, y as int) == figure,
        figure != 0,
        figure / 10 == (if white {
            0u8
        } else {
            1u8
        }),
    ensures
        moves_view(out) == spec_safe_moves(
            board@,
            black_figures@,
            white_figures@,
            white,
            figure,
            x,
            y,
        ),
{
    let ghost movers = if white {
        white_figures@
    } else {
        black_figures@
    };
    proof {
        assert(crate::engine::claimed(movers, x as int, y as int));
    }
    let ghost pi = choose|i: int|
        0 <= i < 16 && crate::engine::entry_active(#[trigger] movers[i]) && movers[i].1 == x as int
            && movers[i].2 == y as int;
    proof {
        assert(movers[pi] == (figure, x, y));
    }
    let moves = crate::movegen::get_valid_moves(board, figure, x, y);
    let ghost rays = spec_gen_moves(board@, figure, x, y);
    let mut out: MovementSet = Vec::new();
    let mut r: usize = 0;
    while r < moves.len()
        invariant
            wf_state(board@, black_figures@, white_figures@),
            0 <= pi < 16,
            (if white {
                white_figures@[pi]
            } else {
                black_figures@[pi]
            }) == (figure, x, y),
            figure != CAPTURED,
            figure != 0,
            moves_view(moves) == rays,
            rays == spec_gen_moves(board@, figure, x, y),
            0 <= r <= moves@.len(),
            out@.len() == r,
            forall|k: int|
                0 <= k < r ==> #[trigger] out@[k]@ == spec_safe_prefix(
                    board@,
                    black_figures@,
                    white_figures@,
                    white,
                    figure,
                    x,
                    y,
                    rays[k],
                ),
        decreases moves@.len() - r,
    {
        let ray = &moves[r];
        let ghost full = spec_safe_prefix(
            board@,
            black_figures@,
            white_figures@,
            white,
            figure,
            x,
            y,
            ray@,
        );
        let mut kept: Vec<(u8, u8)> = Vec::new();
        let mut s: usize = 0;
        proof {
            assert(ray@.skip(0) =~= ray@);
        }
        while s < ray.len()
            invariant_except_break
                wf_state(board@, black_figures@, white_figures@),
                0 <= pi < 16,
                (if white {
                    white_figures@[pi]
                } else {
                    black_figures@[pi]
                }) == (figure, x, y),
                figure != CAPTURED,
                rays == spec_gen_moves(board@, figure, x, y),
                0 <= r < rays.len(),
                ray@ == rays[r as int],
                0 <= s <= ray@.len(),
                kept@.len() == s,
                full == kept@ + spec_safe_prefix(
                    board@,
                    black_figures@,
                    white_figures@,
                    white,
                    figure,
                    x,
                    y,
                    ray@.skip(s as int),
                ),
            ensures
                kept@ == full,
            decreases ray@.len() - s,
        {
            let mv = ray[s];
            proof {
                assert(ray@.skip(s as int)[0] == ray@[s as int]);
                assert(spec_contains_position(rays, (mv.0, mv.1)));
                crate::movegen::lemma_gen_move_capture_ok(
                    board@,
                    figure,
                    x,
                    y,
                    mv.0,
                    mv.1,
                    white,
                );
                crate::transition::lemma_move_preserves_wf(
                    board@,
                    black_figures@,
                    white_figures@,
                    figure,
                    x,
                    y,
                    mv.0,
                    mv.1,
                    white,
                    pi,
                );
            }
            let m = crate::transition::move_figure(
                board,
                black_figures,
                white_figures,
                figure,
                x,
                y,
                mv.0,
                mv.1,
                white,
            );
            if !is_board_valid(m.0, m.1, m.2, white) {
                assert(kept@ =~= full);
                break ;
            }
            kept.push(mv);
            proof {
                assert(ray@.skip(s as int).drop_first() =~= ray@.skip(s as int + 1));
            }
            s += 1;
        }
        out.push(kept);
        r += 1;
    }
    proof {
        assert(moves_view(out) =~= spec_safe_moves(
            board@,
            black_figures@,
            white_figures@,
            white,
            figure,
            x,
            y,
        ));
    }
    out
}

/// Why a requested move was rejected.
#[derive(Clone, Copy, PartialEq, Eq, Structural, Debug)]
pub enum MoveError {
    /// The origin square holds no piece.
    NoFigure,
    /// The piece on the origin square belongs to the opponent.
    NotYourFigure,
    /// The destination is not among the piece's pseudo-legal moves, or the
    /// move would leave the player's own king capturable.
    InvalidMove,
}

/// The outcome [`handle_move_request`] owes for each input: the rejections
/// in the order the checks are made, else the applied move.
pub open spec fn spec_handle_move_request(
    b: Seq<u8>,
    bf: Seq<Position>,
    wf: Seq<Position>,
    white: bool,
    from: (u8, u8),
    to: (u8, u8),
) -> Result<(Seq<u8>, Seq<Position>, Seq<Position>), MoveError> {
    let figure = spec_get_figure(b, from.0 as int, from.1 as int);
    if figure == 0 {
        Err(MoveError::NoFigure)
    } else if figure / 10 != (if white {
        0u8
    } else {
        1u8
    }) {
        Err(MoveError::NotYourFigure)
    } else if !spec_contains_position(spec_gen_moves(b, figure, from.0, from.1), to) {
        Err(MoveError::InvalidMove)
    } else {
        let m = spec_move_figure(b, bf, wf, figure, from.0, from.1, to.0, to.1, white);
        if !spec_board_safe(m.0, m.1, m.2, white) {
            Err(MoveError::InvalidMove)
        } else {
            Ok(m)
        }
    }
}

/// Validates and applies one human move request: rejects an empty origin, an
/// opponent's piece, a destination outside the piece's generated moves, and
/// a move after which the player's own king could be caught; otherwise
/// returns the new state. Exactly [`spec_handle_move_request`] of the input.
pub fn handle_move_request(
    board: Board,
    black_figures: Positions,
    white_figures: Positions,
    white: bool,
    from: (u8, u8),
    to: (u8, u8),
) -> (r: Result<(Board, Positions, Positions), MoveError>)
    requires
        wf_state(board@, black_figures@, white_figures@),
        spec_on_board(from.0 as int, from.1 as int),
        spec_on_board(to.0 as int, to.1 as int),
    ensures
        ({
            let sr = spec_handle_move_request(
                board@,
                black_figures@,
                white_figures@,
                white,
                from,
                to,
            );
            match r {
                Ok(m) => sr == Ok::<_, MoveError>((m.0@, m.1@, m.2@)),
                Err(e) => sr == Err::<(Seq<u8>, Seq<Position>, Seq<Position>), _>(e),
            }
        }),
        r is Ok ==> wf_state(r->Ok_0.0@, r->Ok_0.1@, r->Ok_0.2@),
{
    let figure = crate::engine::get_figure(board, from.0, from.1);
    if figure == 0 {
        return Err(MoveError::NoFigure);
    }
    if (white && figure / 10 != 0) || (!white && figure / 10 != 1) {
        return Err(MoveError::NotYourFigure);
    }
    let moves = crate::movegen::get_valid_moves(board, figure, from.0, from.1);
    if !crate::movegen::contains_position(&moves, to) {
        return Err(MoveError::InvalidMove);
    }
    let ghost movers = if white {
        white_figures@
    } else {
        black_figures@
    };
    proof {
        assert(crate::engine::claimed(movers, from.0 as int, from.1 as int));
    }
    let ghost pi = choose|i: int|
        0 <= i < 16 && crate::engine::entry_active(#[trigger] movers[i]) && movers[i].1
            == from.0 as int && movers[i].2 == from.1 as int;
    proof {
        assert(movers[pi] == (figure, from.0, from.1));
        crate::movegen::lemma_gen_move_capture_ok(
            board@,
            figure,
            from.0,
            from.1,
            to.0,
            to.1,
            white,
        );
        crate::transition::lemma_move_preserves_wf(
            board@,
            black_figures@,
            white_figures@,
            figure,
            from.0,
            from.1,
            to.0,
            to.1,
            white,
            pi,
        );
    }
    let m = crate::transition::move_figure(
        board,
        black_figures,
        white_figures,
        figure,
        from.0,
        from.1,
        to.0,
        to.1,
        white,
    );
    if !is_board_valid(m.0, m.1, m.2, white) {
        return Err(MoveError::InvalidMove);
    }
    Ok(m)
}

} // verus!
