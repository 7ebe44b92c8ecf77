//! Board-level laws of the movement rules, stated and proved once and
//! for all over the same spec functions the engine's contracts use.

use crate::board_manager::{spec_can_step, spec_move_error, spec_reach};
use crate::chessboard::{spec_after_move, Chessboard};
use crate::color::Color;
use crate::direction::{spec_dx, spec_dy, spec_from_offset, MoveDirection};
use crate::move_offsets::{
    dir_reaches, hit_step, hits_at, reach_at, spec_once_path, spec_walk_path, step_x, step_y,
    steps_on_board, walk_squares,
};
use crate::piece::{
    bishop_dirs, forward_dx, omni_dirs, pawn_forward_dirs, rook_dirs, spec_en_passant_shape,
    spec_on_starting_rank, Pawn, Piece,
};
use crate::position::{on_board, pos_at, Position};
use vstd::prelude::*;

verus! {

broadcast use crate::position::lemma_pos_at_coords, crate::position::lemma_pos_ext;

/// A unit direction: both offset components are at most one square.
pub open spec fn unit_dir(d: MoveDirection) -> bool {
    -1 <= spec_dx(d) <= 1 && -1 <= spec_dy(d) <= 1
}

/// Walking a unit direction between two on-board squares never leaves
/// the board: every intermediate step lies between the endpoints.
proof fn lemma_unit_steps_on_board(c: Position, d: MoveDirection, k: int)
    requires
        unit_dir(d),
        1 <= k,
        on_board(c.spec_x(), c.spec_y()),
        on_board(step_x(c, d, k), step_y(c, d, k)),
    ensures
        steps_on_board(c, d, k),
{
    assert forall|j: int| 1 <= j <= k implies on_board(
        #[trigger] step_x(c, d, j),
        step_y(c, d, j),
    ) by {
        assert(0 <= c.spec_x() + j * spec_dx(d) < 8) by (nonlinear_arith)
            requires
                -1 <= spec_dx(d) <= 1,
                1 <= j <= k,
                0 <= c.spec_x() < 8,
                0 <= c.spec_x() + k * spec_dx(d) < 8,
        ;
        assert(0 <= c.spec_y() + j * spec_dy(d) < 8) by (nonlinear_arith)
            requires
                -1 <= spec_dy(d) <= 1,
                1 <= j <= k,
                0 <= c.spec_y() < 8,
                0 <= c.spec_y() + k * spec_dy(d) < 8,
        ;
    }
}

/// Two unit-direction walks from the same square that meet the same
/// square use the same direction and the same number of steps.
proof fn lemma_unit_dir_determined(
    c: Position,
    t: Position,
    d1: MoveDirection,
    k1: int,
    d2: MoveDirection,
    k2: int,
)
    requires
        unit_dir(d1),
        unit_dir(d2),
        1 <= k1,
        1 <= k2,
        hits_at(c, d1, t, k1),
        hits_at(c, d2, t, k2),
    ensures
        d1 == d2,
        k1 == k2,
{
    crate::direction::lemma_offset_nonzero(d1);
    crate::direction::lemma_offset_nonzero(d2);
    assert(spec_dx(d1) == spec_dx(d2)) by (nonlinear_arith)
        requires
            k1 * spec_dx(d1) == k2 * spec_dx(d2),
            1 <= k1,
            1 <= k2,
            -1 <= spec_dx(d1) <= 1,
            -1 <= spec_dx(d2) <= 1,
    ;
    assert(spec_dy(d1) == spec_dy(d2)) by (nonlinear_arith)
        requires
            k1 * spec_dy(d1) == k2 * spec_dy(d2),
            1 <= k1,
            1 <= k2,
            -1 <= spec_dy(d1) <= 1,
            -1 <= spec_dy(d2) <= 1,
    ;
    crate::direction::lemma_offset_roundtrip(d1);
    crate::direction::lemma_offset_roundtrip(d2);
    assert(spec_from_offset(spec_dx(d1), spec_dy(d1)) == Some(d1));
    assert(d1 == d2);
    crate::move_offsets::lemma_hit_step_unique(c, d1, t, k1, k2);
}

/// A non-empty walking path names the first direction that reaches the
/// target and the squares its walk visits.
proof fn lemma_walk_path_decomposed(dirs: Seq<MoveDirection>, max: int, c: Position, t: Position)
    requires
        spec_walk_path(dirs, max, c, t) is Some,
    ensures
        exists|i: int|
            {
                &&& 0 <= i < dirs.len()
                &&& dir_reaches(c, #[trigger] dirs[i], t, max)
                &&& spec_walk_path(dirs, max, c, t) == Some(
                    walk_squares(c, dirs[i], hit_step(c, dirs[i], t, max)),
                )
            },
    decreases dirs.len(),
{
    if dirs.len() == 0 {
    } else if dir_reaches(c, dirs[0], t, max) {
    } else {
        lemma_walk_path_decomposed(dirs.drop_first(), max, c, t);
        let i = choose|i: int|
            {
                &&& 0 <= i < dirs.drop_first().len()
                &&& dir_reaches(c, #[trigger] dirs.drop_first()[i], t, max)
                &&& spec_walk_path(dirs.drop_first(), max, c, t) == Some(
                    walk_squares(
                        c,
                        dirs.drop_first()[i],
                        hit_step(c, dirs.drop_first()[i], t, max),
                    ),
                )
            };
        assert(dirs.drop_first()[i] == dirs[i + 1]);
        assert(dir_reaches(c, dirs[i + 1], t, max));
    }
}

/// An empty walking path means no declared direction reaches the target.
proof fn lemma_walk_path_missing(dirs: Seq<MoveDirection>, max: int, c: Position, t: Position)
    requires
        spec_walk_path(dirs, max, c, t) is None,
    ensures
        forall|i: int| 0 <= i < dirs.len() ==> !dir_reaches(c, #[trigger] dirs[i], t, max),
    decreases dirs.len(),
{
    if dirs.len() == 0 {
    } else {
        lemma_walk_path_missing(dirs.drop_first(), max, c, t);
        assert forall|i: int| 0 <= i < dirs.len() implies !dir_reaches(
            c,
            #[trigger] dirs[i],
            t,
            max,
        ) by {
            if i > 0 {
                assert(dirs.drop_first()[i - 1] == dirs[i]);
                assert(!dir_reaches(c, dirs.drop_first()[i - 1], t, max));
            }
        }
    }
}

/// `t` lies exactly `k` steps out on the ray from `c` along `d`, and
/// every square strictly between them is empty on `b`.
pub open spec fn spec_ray_clear_to(
    b: Chessboard,
    c: Position,
    d: MoveDirection,
    t: Position,
    k: int,
) -> bool {
    &&& 1 <= k <= 7
    &&& hits_at(c, d, t, k)
    &&& forall|j: int|
        1 <= j < k ==> b.spec_at(#[trigger] step_x(c, d, j), step_y(c, d, j)) is None
}

/// The piece kinds whose movement shape repeats until blocked.
pub open spec fn spec_is_slider(piece: Piece) -> bool {
    piece matches Piece::Bishop(_) || piece matches Piece::Rook(_) || piece matches Piece::Queen(_)
}

/// The direction set a sliding piece declares.
pub open spec fn spec_slider_dirs(piece: Piece) -> Seq<MoveDirection> {
    match piece {
        Piece::Bishop(_) => bishop_dirs(),
        Piece::Rook(_) => rook_dirs(),
        _ => omni_dirs(),
    }
}

/// Every direction a sliding piece declares is a unit direction.
proof fn lemma_slider_dirs_unit(piece: Piece)
    requires
        spec_is_slider(piece),
    ensures
        forall|m: int|
            0 <= m < spec_slider_dirs(piece).len() ==> unit_dir(
                #[trigger] spec_slider_dirs(piece)[m],
            ),
{
    let dirs = spec_slider_dirs(piece);
    assert forall|m: int| 0 <= m < dirs.len() implies unit_dir(#[trigger] dirs[m]) by {
        if piece matches Piece::Bishop(_) {
            assert(dirs[0] == MoveDirection::UpRight && dirs[1] == MoveDirection::UpLeft && dirs[2]
                == MoveDirection::DownRight && dirs[3] == MoveDirection::DownLeft);
        } else if piece matches Piece::Rook(_) {
            assert(dirs[0] == MoveDirection::Up && dirs[1] == MoveDirection::Down && dirs[2]
                == MoveDirection::Left && dirs[3] == MoveDirection::Right);
        } else {
            assert(dirs[0] == MoveDirection::Up && dirs[1] == MoveDirection::Down && dirs[2]
                == MoveDirection::Left && dirs[3] == MoveDirection::Right && dirs[4]
                == MoveDirection::UpLeft && dirs[5] == MoveDirection::UpRight && dirs[6]
                == MoveDirection::DownLeft && dirs[7] == MoveDirection::DownRight);
        }
    }
}

/// On any board, a sliding piece reaches exactly the squares it may step
/// into that lie on one of its declared directions' rays, stopping at the
/// first square the step predicate rejects: every square strictly between
/// the piece and the target must be empty.
pub proof fn lemma_sliding_reachable_set(
    b: Chessboard,
    piece: Piece,
    c: Position,
    t: Position,
    mover: Color,
)
    requires
        spec_is_slider(piece),
        on_board(c.spec_x(), c.spec_y()),
        on_board(t.spec_x(), t.spec_y()),
    ensures
        spec_reach(b, piece, c, t, mover) <==> (spec_can_step(b, t, mover, t) && exists|
            i: int,
            k: int,
        |
            0 <= i < spec_slider_dirs(piece).len() && #[trigger] spec_ray_clear_to(
                b,
                c,
                spec_slider_dirs(piece)[i],
                t,
                k,
            )),
{
    let dirs = spec_slider_dirs(piece);
    lemma_slider_dirs_unit(piece);
    assert(piece.spec_path(c, t) == spec_walk_path(dirs, 7, c, t));
    if spec_reach(b, piece, c, t, mover) {
        let sq = piece.spec_path(c, t).unwrap();
        lemma_walk_path_decomposed(dirs, 7, c, t);
        let i = choose|i: int|
            {
                &&& 0 <= i < dirs.len()
                &&& dir_reaches(c, #[trigger] dirs[i], t, 7)
                &&& spec_walk_path(dirs, 7, c, t) == Some(
                    walk_squares(c, dirs[i], hit_step(c, dirs[i], t, 7)),
                )
            };
        let d = dirs[i];
        let k = hit_step(c, d, t, 7);
        assert(reach_at(c, d, t, 7, k));
        assert(sq == walk_squares(c, d, k));
        assert forall|j: int| 1 <= j < k implies b.spec_at(
            #[trigger] step_x(c, d, j),
            step_y(c, d, j),
        ) is None by {
            assert(sq[j - 1] == pos_at(step_x(c, d, j), step_y(c, d, j)));
            assert(spec_can_step(b, t, mover, sq[j - 1]));
            if sq[j - 1] == t {
                assert(hits_at(c, d, t, j));
                crate::move_offsets::lemma_hit_step_unique(c, d, t, j, k);
                assert(false);
            }
            assert(b.spec_at_pos(sq[j - 1]) is None);
        }
        assert(sq[k - 1] == pos_at(step_x(c, d, k), step_y(c, d, k)));
        assert(sq[k - 1] == t);
        assert(spec_can_step(b, t, mover, t));
        assert(spec_ray_clear_to(b, c, dirs[i], t, k));
    }
    if spec_can_step(b, t, mover, t) && (exists|i: int, k: int|
        0 <= i < dirs.len() && #[trigger] spec_ray_clear_to(b, c, dirs[i], t, k)) {
        let (i, k) = choose|i: int, k: int|
            0 <= i < dirs.len() && #[trigger] spec_ray_clear_to(b, c, dirs[i], t, k);
        let d = dirs[i];
        lemma_unit_steps_on_board(c, d, k);
        assert(reach_at(c, d, t, 7, k));
        assert(dir_reaches(c, d, t, 7));
        if spec_walk_path(dirs, 7, c, t) is None {
            lemma_walk_path_missing(dirs, 7, c, t);
            assert(false);
        }
        lemma_walk_path_decomposed(dirs, 7, c, t);
        let i0 = choose|i0: int|
            {
                &&& 0 <= i0 < dirs.len()
                &&& dir_reaches(c, #[trigger] dirs[i0], t, 7)
                &&& spec_walk_path(dirs, 7, c, t) == Some(
                    walk_squares(c, dirs[i0], hit_step(c, dirs[i0], t, 7)),
                )
            };
        let d0 = dirs[i0];
        let k0 = hit_step(c, d0, t, 7);
        assert(reach_at(c, d0, t, 7, k0));
        lemma_unit_dir_determined(c, t, d0, k0, d, k);
        let sq = walk_squares(c, d, k);
        assert(piece.spec_path(c, t) == Some(sq));
        assert forall|j: int| 0 <= j < sq.len() implies spec_can_step(
            b,
            t,
            mover,
            #[trigger] sq[j],
        ) by {
            assert(sq[j] == pos_at(step_x(c, d, j + 1), step_y(c, d, j + 1)));
            if j < k - 1 {
                if sq[j] == t {
                    assert(hits_at(c, d, t, j + 1));
                    crate::move_offsets::lemma_hit_step_unique(c, d, t, j + 1, k);
                    assert(false);
                }
                assert(b.spec_at_pos(sq[j]) is None);
            } else {
                assert(sq[j] == t);
            }
        }
        assert(spec_reach(b, piece, c, t, mover));
    }
}

/// On a board that is empty apart from the pawn's own square, a pawn of
/// color `col` standing on `c` reaches exactly the square one step
/// forward and — from its starting rank only — also the square two steps
/// forward.
pub proof fn lemma_pawn_reachable_squares(
    b: Chessboard,
    col: Color,
    c: Position,
    t: Position,
    mover: Color,
)
    requires
        on_board(c.spec_x(), c.spec_y()),
        on_board(t.spec_x(), t.spec_y()),
        forall|x: int, y: int|
            on_board(x, y) && !(x == c.spec_x() && y == c.spec_y()) ==> #[trigger] b.spec_at(
                x,
                y,
            ) is None,
    ensures
        spec_reach(b, Piece::Pawn(Pawn { color: col }), c, t, mover) <==> (t.spec_y() == c.spec_y()
            && (t.spec_x() == c.spec_x() + forward_dx(col) || (spec_on_starting_rank(col, c)
            && t.spec_x() == c.spec_x() + 2 * forward_dx(col)))),
{
    let pawn = Piece::Pawn(Pawn { color: col });
    let dirs = pawn_forward_dirs(col);
    let f = dirs[0];
    assert(dirs.len() == 1);
    assert(spec_dx(f) == forward_dx(col) && spec_dy(f) == 0);
    assert(unit_dir(f));
    if spec_on_starting_rank(col, c) {
        assert(pawn.spec_path(c, t) == spec_walk_path(dirs, 2, c, t));
        if spec_reach(b, pawn, c, t, mover) {
            let sq = pawn.spec_path(c, t).unwrap();
            lemma_walk_path_decomposed(dirs, 2, c, t);
            let i = choose|i: int|
                {
                    &&& 0 <= i < dirs.len()
                    &&& dir_reaches(c, #[trigger] dirs[i], t, 2)
                    &&& spec_walk_path(dirs, 2, c, t) == Some(
                        walk_squares(c, dirs[i], hit_step(c, dirs[i], t, 2)),
                    )
                };
            let k = hit_step(c, f, t, 2);
            assert(reach_at(c, f, t, 2, k));
            if k == 1 {
                assert(t.spec_x() == c.spec_x() + 1 * spec_dx(f));
            } else {
                assert(t.spec_x() == c.spec_x() + 2 * spec_dx(f));
            }
        }
        if t.spec_y() == c.spec_y() && (t.spec_x() == c.spec_x() + forward_dx(col) || t.spec_x()
            == c.spec_x() + 2 * forward_dx(col)) {
            let k: int = if t.spec_x() == c.spec_x() + forward_dx(col) {
                1
            } else {
                2
            };
            assert(hits_at(c, f, t, k));
            lemma_unit_steps_on_board(c, f, k);
            assert(reach_at(c, f, t, 2, k));
            assert(dir_reaches(c, f, t, 2));
            if spec_walk_path(dirs, 2, c, t) is None {
                lemma_walk_path_missing(dirs, 2, c, t);
                assert(false);
            }
            lemma_walk_path_decomposed(dirs, 2, c, t);
            let k0 = hit_step(c, f, t, 2);
            assert(reach_at(c, f, t, 2, k0));
            crate::move_offsets::lemma_hit_step_unique(c, f, t, k0, k);
            let sq = walk_squares(c, f, k);
            assert(pawn.spec_path(c, t) == Some(sq));
            assert forall|j: int| 0 <= j < sq.len() implies spec_can_step(
                b,
                t,
                mover,
                #[trigger] sq[j],
            ) by {
                assert(sq[j] == pos_at(step_x(c, f, j + 1), step_y(c, f, j + 1)));
                if j < k - 1 {
                    if sq[j] == t {
                        assert(hits_at(c, f, t, j + 1));
                        crate::move_offsets::lemma_hit_step_unique(c, f, t, j + 1, k);
                        assert(false);
                    }
                    assert(b.spec_at_pos(sq[j]) is None);
                } else {
                    assert(sq[j] == t);
                    assert(b.spec_at_pos(t) is None);
                }
            }
            assert(spec_reach(b, pawn, c, t, mover));
        }
    } else {
        assert(pawn.spec_path(c, t) == spec_once_path(dirs, c, t));
        let dx = t.spec_x() - c.spec_x();
        let dy = t.spec_y() - c.spec_y();
        if spec_reach(b, pawn, c, t, mover) {
            let d = spec_from_offset(dx, dy).unwrap();
            assert(dirs.contains(d));
            assert(d == f);
            crate::direction::lemma_from_offset_inverse(dx, dy);
        }
        if t.spec_y() == c.spec_y() && t.spec_x() == c.spec_x() + forward_dx(col) {
            crate::direction::lemma_offset_roundtrip(f);
            assert(spec_from_offset(dx, dy) == Some(f));
            assert(dirs.contains(f)) by {
                assert(dirs[0] == f);
            }
            let sq = seq![t];
            assert(pawn.spec_path(c, t) == Some(sq));
            assert forall|j: int| 0 <= j < sq.len() implies spec_can_step(
                b,
                t,
                mover,
                #[trigger] sq[j],
            ) by {
                assert(sq[j] == t);
                assert(b.spec_at_pos(t) is None);
            }
            assert(spec_reach(b, pawn, c, t, mover));
        }
    }
}

/// The capturing diagonal pawn move succeeds exactly when the target
/// square holds an opposing piece; with the target empty or friendly,
/// the move is rejected as an invalid special move. Ordinary reach plays
/// no part: the special move's validation substitutes for it.
pub proof fn lemma_en_passant_capture_rule(
    b: Chessboard,
    from: Position,
    to: Position,
    mover: Color,
)
    requires
        b.spec_at_pos(from) matches Some(p) && (p matches Piece::Pawn(pw) && pw.color == mover),
        spec_en_passant_shape(mover, from, to),
    ensures
        (b.spec_at_pos(to) matches Some(q) && q.spec_color() != mover) ==> spec_move_error(
            b,
            from,
            to,
            mover,
        ) is None,
        !(b.spec_at_pos(to) matches Some(q) && q.spec_color() != mover) ==> spec_move_error(
            b,
            from,
            to,
            mover,
        ) == Some("Invalid special move"@),
{
}

/// A once-applied shape only reaches distinct squares.
proof fn lemma_once_path_distinct(dirs: Seq<MoveDirection>, c: Position, t: Position)
    requires
        spec_once_path(dirs, c, t) is Some,
    ensures
        t.spec_x() != c.spec_x() || t.spec_y() != c.spec_y(),
{
    let dx = t.spec_x() - c.spec_x();
    let dy = t.spec_y() - c.spec_y();
    let d = spec_from_offset(dx, dy).unwrap();
    crate::direction::lemma_from_offset_inverse(dx, dy);
    crate::direction::lemma_offset_nonzero(d);
}

/// A walking shape only reaches distinct squares.
proof fn lemma_walk_path_distinct(dirs: Seq<MoveDirection>, max: int, c: Position, t: Position)
    requires
        spec_walk_path(dirs, max, c, t) is Some,
    ensures
        t.spec_x() != c.spec_x() || t.spec_y() != c.spec_y(),
{
    lemma_walk_path_decomposed(dirs, max, c, t);
    let i = choose|i: int|
        {
            &&& 0 <= i < dirs.len()
            &&& dir_reaches(c, #[trigger] dirs[i], t, max)
            &&& spec_walk_path(dirs, max, c, t) == Some(
                walk_squares(c, dirs[i], hit_step(c, dirs[i], t, max)),
            )
        };
    let d = dirs[i];
    let k = hit_step(c, d, t, max);
    assert(reach_at(c, d, t, max, k));
    crate::direction::lemma_offset_nonzero(d);
    if t.spec_x() == c.spec_x() && t.spec_y() == c.spec_y() {
        assert(spec_dx(d) == 0) by (nonlinear_arith)
            requires
                k * spec_dx(d) == 0,
                1 <= k,
        ;
        assert(spec_dy(d) == 0) by (nonlinear_arith)
            requires
                k * spec_dy(d) == 0,
                1 <= k,
        ;
        assert(false);
    }
}

/// A legal move never stays on its source square.
proof fn lemma_legal_target_distinct(b: Chessboard, from: Position, to: Position, mover: Color)
    requires
        spec_move_error(b, from, to, mover) is None,
    ensures
        to.spec_x() != from.spec_x() || to.spec_y() != from.spec_y(),
{
    let piece = b.spec_at_pos(from).unwrap();
    if piece.spec_special_move(from, to) {
    } else {
        assert(spec_reach(b, piece, from, to, mover));
        match piece {
            Piece::Pawn(pw) => {
                if spec_on_starting_rank(pw.color, from) {
                    lemma_walk_path_distinct(pawn_forward_dirs(pw.color), 2, from, to);
                } else {
                    lemma_once_path_distinct(pawn_forward_dirs(pw.color), from, to);
                }
            },
            Piece::Knight(_) => {
                lemma_once_path_distinct(crate::piece::knight_dirs(), from, to);
            },
            Piece::Bishop(_) => {
                lemma_walk_path_distinct(bishop_dirs(), 7, from, to);
            },
            Piece::Rook(_) => {
                lemma_walk_path_distinct(rook_dirs(), 7, from, to);
            },
            Piece::Queen(_) => {
                lemma_walk_path_distinct(omni_dirs(), 7, from, to);
            },
            Piece::King(_) => {
                lemma_once_path_distinct(omni_dirs(), from, to);
            },
        }
    }
}

/// After any accepted move the source square is empty and the target
/// holds the moved piece, so immediately re-moving from the same source
/// is rejected because no piece stands there — whatever the new target
/// and whoever asks.
pub proof fn lemma_move_round_trip(
    b0: Chessboard,
    b1: Chessboard,
    from: Position,
    to: Position,
    mover: Color,
    next_target: Position,
    next_mover: Color,
)
    requires
        on_board(from.spec_x(), from.spec_y()),
        on_board(to.spec_x(), to.spec_y()),
        spec_move_error(b0, from, to, mover) is None,
        spec_after_move(b0, b1, from, to),
    ensures
        b1.spec_at_pos(from) is None,
        b1.spec_at_pos(to) == b0.spec_at_pos(from),
        spec_move_error(b1, from, next_target, next_mover) == Some(
            "No piece at the given position"@,
        ),
{
    lemma_legal_target_distinct(b0, from, to, mover);
    assert(b1.spec_at(from.spec_x(), from.spec_y()) is None);
    assert(b1.spec_at(to.spec_x(), to.spec_y()) == b0.spec_at_pos(from));
}

} // verus!
