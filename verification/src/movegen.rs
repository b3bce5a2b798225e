//! The move generator: instantiates a piece's movement template into
//! absolute squares, truncating each ray at the first disallowed step. The
//! result is pseudo-legal: safety of the mover's own king is not checked.

use vstd::prelude::*;

use crate::engine::{spec_get_figure, spec_on_board, spec_rights, Board};
use crate::figures;
use crate::figures::{Figure, Ray, BLACK_PAWN, KING, WHITE_PAWN};

verus! {

/// Generated moves: one list of absolute `(file, rank)` squares per ray of
/// the piece's template, in template order, truncated where the ray stops.
pub type MovementSet = Vec<Vec<(u8, u8)>>;

/// The mathematical contents of a [`MovementSet`].
pub open spec fn moves_view(ms: MovementSet) -> Seq<Seq<(u8, u8)>> {
    Seq::new(ms@.len(), |i: int| ms@[i]@)
}

/// The queenside two-step of a king is open: the queenside rights bit is
/// still set and the square beyond the king's destination is empty.
pub open spec fn queenside_castle_open(b: Seq<u8>, figure: Figure, ax: int, ay: int) -> bool {
    let rights = spec_rights(b, figure as int / 10);
    &&& (rights == 1 || rights == 3)
    &&& ax - 1 >= 1
    &&& spec_get_figure(b, ax - 1, ay) == 0
}

/// The squares one ray contributes, walking from `(cx, cy)` in direction
/// `(dx, dy)` for at most `rem` further steps; `ox` is the moving piece's
/// origin file. A step is kept until the ray leaves the board, runs into a
/// piece of the mover's own colour, breaks a pawn or castling rule, or
/// captures (a capture is kept and ends the ray).
pub open spec fn gen_ray(
    b: Seq<u8>,
    figure: Figure,
    ox: int,
    cx: int,
    cy: int,
    dx: int,
    dy: int,
    rem: nat,
) -> Seq<(u8, u8)>
    decreases rem,
{
    if rem == 0 {
        Seq::empty()
    } else {
        let ax = cx + dx;
        let ay = cy + dy;
        if !spec_on_board(ax, ay) {
            Seq::empty()
        } else {
            let occ = spec_get_figure(b, ax, ay);
            if occ != 0 && occ / 10 == figure / 10 {
                Seq::empty()
            } else if (figure == WHITE_PAWN || figure == BLACK_PAWN) && ((ax != ox && occ == 0)
                || (ax == ox && occ != 0)) {
                Seq::empty()
            } else if figure % 10 == KING && ax == ox - 2 && !queenside_castle_open(
                b,
                figure,
                ax,
                ay,
            ) {
                Seq::empty()
            } else if figure % 10 == KING && ax == ox + 2 && spec_rights(
                b,
                figure as int / 10,
            ) < 2 {
                Seq::empty()
            } else if occ != 0 {
                seq![(ax as u8, ay as u8)]
            } else {
                seq![(ax as u8, ay as u8)] + gen_ray(b, figure, ox, ax, ay, dx, dy, (rem - 1) as nat)
            }
        }
    }
}

/// All pseudo-legal destinations of `figure` standing on `(x, y)`: its
/// template with every ray instantiated and truncated by [`gen_ray`].
pub open spec fn spec_gen_moves(b: Seq<u8>, figure: Figure, x: u8, y: u8) -> Seq<Seq<(u8, u8)>> {
    let t = figures::spec_template(figure, y);
    Seq::new(
        t.len(),
        |i: int|
            gen_ray(
                b,
                figure,
                x as int,
                x as int,
                y as int,
                t[i].dx as int,
                t[i].dy as int,
                t[i].len as nat,
            ),
    )
}

/// Walks one template ray of `figure` from `(x, y)` across `board`.
fn gen_one_ray(board: Board, figure: Figure, x: u8, y: u8, r: Ray) -> (out: Vec<(u8, u8)>)
    requires
        figures::is_valid_figure(figure),
        spec_on_board(x as int, y as int),
    ensures
        out@ == gen_ray(
            board@,
            figure,
            x as int,
            x as int,
            y as int,
            r.dx as int,
            r.dy as int,
            r.len as nat,
        ),
{
    let ghost full = gen_ray(
        board@,
        figure,
        x as int,
        x as int,
        y as int,
        r.dx as int,
        r.dy as int,
        r.len as nat,
    );
    let mut out: Vec<(u8, u8)> = Vec::new();
    let mut cx: i16 = x as i16;
    let mut cy: i16 = y as i16;
    let mut j: u8 = 0;
    while j < r.len
        invariant_except_break
            figures::is_valid_figure(figure),
            j <= r.len,
            1 <= cx <= 8,
            1 <= cy <= 8,
            full == out@ + gen_ray(
                board@,
                figure,
                x as int,
                cx as int,
                cy as int,
                r.dx as int,
                r.dy as int,
                (r.len - j) as nat,
            ),
        ensures
            out@ == full,
        decreases r.len - j,
    {
        let ax: i16 = cx + r.dx as i16;
        let ay: i16 = cy + r.dy as i16;
        if !(1 <= ax && ax <= 8 && 1 <= ay && ay <= 8) {
            assert(out@ =~= full);
            break ;
        }
        let occ = crate::engine::get_figure(board, ax as u8, ay as u8);
        if occ != 0 && occ / 10 == figure / 10 {
            assert(out@ =~= full);
            break ;
        }
        if (figure == WHITE_PAWN || figure == BLACK_PAWN) && ((ax != x as i16 && occ == 0) || (ax
            == x as i16 && occ != 0)) {
            assert(out@ =~= full);
            break ;
        }
        if figure % 10 == KING && ax == x as i16 - 2 {
            let rights = board[(64 + figure / 10) as usize];
            let open_q = (rights == 1 || rights == 3) && ax - 1 >= 1 && crate::engine::get_figure(
                board,
                (ax - 1) as u8,
                ay as u8,
            ) == 0;
            if !open_q {
                assert(out@ =~= full);
                break ;
            }
        }
        if figure % 10 == KING && ax == x as i16 + 2 {
            let rights = board[(64 + figure / 10) as usize];
            if rights < 2 {
                assert(out@ =~= full);
                break ;
            }
        }
        out.push((ax as u8, ay as u8));
        if occ != 0 {
            assert(out@ =~= full);
            break ;
        }
        cx = ax;
        cy = ay;
        j += 1;
    }
    if j >= r.len {
        assert(out@ =~= full);
    }
    out
}

/// Move Generator: every pseudo-legal destination of `figure` standing on
/// `(x, y)`, ray by ray in template order. Own-colour squares are never
/// produced, pawns capture only diagonally and advance only onto empty
/// squares, and a king's two-square step obeys the castling-rights bits.
pub fn get_valid_moves(board: Board, figure: Figure, x: u8, y: u8) -> (r: MovementSet)
    requires
        figures::is_valid_figure(figure),
        spec_on_board(x as int, y as int),
    ensures
        moves_view(r) == spec_gen_moves(board@, figure, x, y),
{
    let template = figures::get_relative_moves(figure, y);
    let mut result: MovementSet = Vec::new();
    let mut i: usize = 0;
    while i < template.len()
        invariant
            figures::is_valid_figure(figure),
            spec_on_board(x as int, y as int),
            template@ == figures::spec_template(figure, y),
            i <= template@.len(),
            result@.len() == i,
            forall|k: int|
                0 <= k < i ==> #[trigger] result@[k]@ == spec_gen_moves(board@, figure, x, y)[k],
        decreases template@.len() - i,
    {
        let ray = template[i];
        let steps = gen_one_ray(board, figure, x, y, ray);
        result.push(steps);
        i += 1;
    }
    assert(moves_view(result) =~= spec_gen_moves(board@, figure, x, y));
    result
}

/// True if `position` occurs anywhere in the generated movement set.
pub open spec fn spec_contains_position(ms: Seq<Seq<(u8, u8)>>, p: (u8, u8)) -> bool {
    exists|i: int, j: int| 0 <= i < ms.len() && 0 <= j < ms[i].len() && ms[i][j] == p
}

/// Whether the generated movement set contains the square `position`.
pub fn contains_position(movement_set: &MovementSet, position: (u8, u8)) -> (r: bool)
    ensures
        r == spec_contains_position(moves_view(*movement_set), position),
{
    let ghost ms = moves_view(*movement_set);
    let mut i: usize = 0;
    while i < movement_set.len()
        invariant
            ms == moves_view(*movement_set),
            i <= movement_set@.len(),
            forall|k: int, j: int|
                0 <= k < i && 0 <= j < ms[k].len() ==> ms[k][j] != position,
        decreases movement_set@.len() - i,
    {
        let subset = &movement_set[i];
        let mut j: usize = 0;
        while j < subset.len()
            invariant
                ms == moves_view(*movement_set),
                i < movement_set@.len(),
                subset@ == ms[i as int],
                j <= subset@.len(),
                forall|k: int, l: int|
                    0 <= k < i && 0 <= l < ms[k].len() ==> ms[k][l] != position,
                forall|l: int| 0 <= l < j ==> ms[i as int][l] != position,
            decreases subset@.len() - j,
        {
            let m = subset[j];
            if m.0 == position.0 && m.1 == position.1 {
                assert(ms[i as int][j as int] == position);
                return true;
            }
            j += 1;
        }
        i += 1;
    }
    false
}

/// Whether the square `(x, y)` occurs in the generated movement set.
pub fn is_in_movement_set(moves: &MovementSet, x: u8, y: u8) -> (r: bool)
    ensures
        r == spec_contains_position(moves_view(*moves), (x, y)),
{
    contains_position(moves, (x, y))
}

/// Every square a ray contributes lies on the board and does not hold a
/// piece of the mover's own colour.
pub proof fn lemma_gen_ray_props(
    b: Seq<u8>,
    figure: Figure,
    ox: int,
    cx: int,
    cy: int,
    dx: int,
    dy: int,
    rem: nat,
)
    ensures
        forall|k: int|
            0 <= k < gen_ray(b, figure, ox, cx, cy, dx, dy, rem).len() ==> {
                let m = #[trigger] gen_ray(b, figure, ox, cx, cy, dx, dy, rem)[k];
                &&& spec_on_board(m.0 as int, m.1 as int)
                &&& !(spec_get_figure(b, m.0 as int, m.1 as int) != 0 && spec_get_figure(
                    b,
                    m.0 as int,
                    m.1 as int,
                ) / 10 == figure / 10)
            },
    decreases rem,
{
    let g = gen_ray(b, figure, ox, cx, cy, dx, dy, rem);
    if rem > 0 {
        let ax = cx + dx;
        let ay = cy + dy;
        if spec_on_board(ax, ay) {
            lemma_gen_ray_props(b, figure, ox, ax, ay, dx, dy, (rem - 1) as nat);
            let rest = gen_ray(b, figure, ox, ax, ay, dx, dy, (rem - 1) as nat);
            assert forall|k: int| 0 <= k < g.len() implies {
                let m = #[trigger] g[k];
                &&& spec_on_board(m.0 as int, m.1 as int)
                &&& !(spec_get_figure(b, m.0 as int, m.1 as int) != 0 && spec_get_figure(
                    b,
                    m.0 as int,
                    m.1 as int,
                ) / 10 == figure / 10)
            } by {
                if g.len() > 0 {
                    if k == 0 {
                        assert(g[0] == (ax as u8, ay as u8));
                    } else {
                        assert(g[k] == rest[k - 1]);
                    }
                }
            }
        }
    }
}

/// Move Generator soundness: every generated destination lies on the board
/// and never holds a piece of the mover's own colour (no self-captures).
pub proof fn lemma_gen_moves_sound(b: Seq<u8>, figure: Figure, x: u8, y: u8)
    ensures
        forall|i: int, j: int|
            0 <= i < spec_gen_moves(b, figure, x, y).len() && 0 <= j < spec_gen_moves(
                b,
                figure,
                x,
                y,
            )[i].len() ==> {
                let m = #[trigger] spec_gen_moves(b, figure, x, y)[i][j];
                &&& spec_on_board(m.0 as int, m.1 as int)
                &&& !(spec_get_figure(b, m.0 as int, m.1 as int) != 0 && spec_get_figure(
                    b,
                    m.0 as int,
                    m.1 as int,
                ) / 10 == figure / 10)
            },
{
    let t = figures::spec_template(figure, y);
    assert forall|i: int, j: int|
        0 <= i < spec_gen_moves(b, figure, x, y).len() && 0 <= j < spec_gen_moves(
            b,
            figure,
            x,
            y,
        )[i].len() implies {
        let m = #[trigger] spec_gen_moves(b, figure, x, y)[i][j];
        &&& spec_on_board(m.0 as int, m.1 as int)
        &&& !(spec_get_figure(b, m.0 as int, m.1 as int) != 0 && spec_get_figure(
            b,
            m.0 as int,
            m.1 as int,
        ) / 10 == figure / 10)
    } by {
        lemma_gen_ray_props(
            b,
            figure,
            x as int,
            x as int,
            y as int,
            t[i].dx as int,
            t[i].dy as int,
            t[i].len as nat,
        );
    }
}

/// A generated destination of the piece standing on `(fx, fy)` is a
/// permissible capture: after the origin square is cleared, the destination
/// holds nothing or an enemy piece, and it never equals the origin.
pub proof fn lemma_gen_move_capture_ok(
    b: Seq<u8>,
    figure: Figure,
    fx: u8,
    fy: u8,
    tx: u8,
    ty: u8,
    white: bool,
)
    requires
        crate::engine::wf_board(b),
        spec_on_board(fx as int, fy as int),
        spec_get_figure(b, fx as int, fy as int) == figure,
        figures::is_valid_figure(figure),
        figure / 10 == (if white {
            0u8
        } else {
            1u8
        }),
        spec_contains_position(spec_gen_moves(b, figure, fx, fy), (tx, ty)),
    ensures
        spec_on_board(tx as int, ty as int),
        !(tx == fx && ty == fy),
        crate::transition::capture_ok(b, fx, fy, tx, ty, white),
{
    lemma_gen_moves_sound(b, figure, fx, fy);
    let (i, j) = choose|i: int, j: int|
        0 <= i < spec_gen_moves(b, figure, fx, fy).len() && 0 <= j < spec_gen_moves(
            b,
            figure,
            fx,
            fy,
        )[i].len() && spec_gen_moves(b, figure, fx, fy)[i][j] == (tx, ty);
    let m = spec_gen_moves(b, figure, fx, fy)[i][j];
    assert(spec_on_board(m.0 as int, m.1 as int));
    if tx == fx && ty == fy {
        assert(spec_get_figure(b, tx as int, ty as int) == figure);
        assert(false);
    }
    let b1 = b.update(crate::engine::sq_index(fx as int, fy as int), 0u8);
    assert(crate::engine::sq_index(tx as int, ty as int) != crate::engine::sq_index(
        fx as int,
        fy as int,
    ));
    let caught = spec_get_figure(b1, tx as int, ty as int);
    assert(caught == spec_get_figure(b, tx as int, ty as int));
}

} // verus!
