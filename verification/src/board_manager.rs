use crate::chessboard::{
    spec_after_move, spec_after_upgrade, spec_king_pos, Chessboard, MoveResult,
};
use crate::color::Color;
use crate::direction::{SpecialMove, SpecialMoveValidationAction};
use crate::move_offsets::lemma_pos_coords_eq;
use crate::piece::{all_steps_accepted, some_step_rejected, spec_can_upgrade, Piece};
use crate::position::{on_board, pos_at, Position};
use vstd::prelude::*;

verus! {

broadcast use crate::position::lemma_inv_on_board, crate::position::lemma_pos_at_coords;

/// Whether the mover of color `mover` may step into square `p` on the way
/// to `target`: the target itself must be empty or hold an opposing piece
/// (a capture); every earlier square of the path must be empty.
pub open spec fn spec_can_step(b: Chessboard, target: Position, mover: Color, p: Position) -> bool {
    if p == target {
        match b.spec_at_pos(p) {
            Some(piece) => piece.spec_color() != mover,
            None => true,
        }
    } else {
        b.spec_at_pos(p) is None
    }
}

/// Ordinary reachability on a board: the piece's movement shape yields a
/// path from `from` to `to`, and the mover may step into every square of
/// that path in order.
pub open spec fn spec_reach(
    b: Chessboard,
    piece: Piece,
    from: Position,
    to: Position,
    mover: Color,
) -> bool {
    match piece.spec_path(from, to) {
        Some(sq) => forall|j: int|
            0 <= j < sq.len() ==> spec_can_step(b, to, mover, #[trigger] sq[j]),
        None => false,
    }
}

/// The special move's validation: the target square holds a piece of the
/// color opposite to the piece standing on `from`.
pub open spec fn spec_special_valid(b: Chessboard, from: Position, to: Position) -> bool {
    b.spec_at_pos(to) matches Some(q) && (b.spec_at_pos(from) matches Some(src)
        && q.spec_color() != src.spec_color())
}

/// The verdict on a proposed move: the rejection message, or `None` when
/// the move is legal. The checks run in order: the source square must
/// hold a piece, the piece must belong to the mover, the target must be
/// reachable ordinarily or by a special move, and a special move's
/// validation — which substitutes for ordinary reach — must pass.
pub open spec fn spec_move_error(
    b: Chessboard,
    from: Position,
    to: Position,
    mover: Color,
) -> Option<Seq<char>> {
    match b.spec_at_pos(from) {
        None => Some("No piece at the given position"@),
        Some(piece) => if piece.spec_color() != mover {
            Some("Not your piece"@)
        } else if !spec_reach(b, piece, from, to, mover) && !piece.spec_special_move(from, to) {
            Some("Invalid move"@)
        } else if piece.spec_special_move(from, to) && !spec_special_valid(b, from, to) {
            Some("Invalid special move"@)
        } else {
            None
        },
    }
}

/// Whether the player of color `atk_color` gives check on `b`: the
/// opposing king is on the board and some square holds a piece that could
/// legally move onto the king's square.
pub open spec fn spec_king_checked(b: Chessboard, atk_color: Color) -> bool {
    match spec_king_pos(b, atk_color.spec_next()) {
        None => false,
        Some(kp) => exists|x: int, y: int|
            on_board(x, y) && (#[trigger] spec_move_error(b, pos_at(x, y), kp, atk_color))
                is None,
    }
}

/// What a legal move reports once applied to the board: a pawn arriving
/// on its farthest rank asks for promotion (check detection is deferred
/// until the promotion completes); otherwise the opposing king's check
/// status on the new board `b1` decides.
pub open spec fn spec_move_outcome(
    b1: Chessboard,
    moved: Piece,
    to: Position,
    mover: Color,
) -> MoveResult {
    if (moved matches Piece::Pawn(p) && spec_can_upgrade(p.color, to)) {
        MoveResult::CanUpgradePiece
    } else if spec_king_checked(b1, mover) {
        MoveResult::CheckKing
    } else {
        MoveResult::Normal
    }
}

/// The result of asking for a promotion from `color`'s capture pool:
/// either the index was out of range and nothing changed, or the pooled
/// piece replaced the target square's occupant and the deferred check
/// detection for `color` decided the reported outcome.
pub open spec fn spec_after_upgrade_outcome(
    b0: Chessboard,
    b1: Chessboard,
    idx: int,
    color: Color,
    target: Position,
    r: Result<MoveResult, String>,
) -> bool {
    if idx >= b0.spec_dead_pieces(color).len() {
        b1 == b0 && (r matches Err(e) && e@ == "Invalid index for dead pieces vector"@)
    } else {
        &&& spec_after_upgrade(b0, b1, idx, color, target)
        &&& r == Ok::<MoveResult, String>(
            if spec_king_checked(b1, color) {
                MoveResult::CheckKing
            } else {
                MoveResult::Normal
            },
        )
    }
}

/// The orchestrator: validates proposed moves against the board, applies
/// the legal ones, manages promotion, and runs check detection.
pub struct BoardManager {
    chessboard: Chessboard,
}

impl BoardManager {
    /// The board this manager owns.
    pub closed spec fn spec_board(self) -> Chessboard {
        self.chessboard
    }

    pub fn new(chessboard: Chessboard) -> (r: Self)
        ensures
            r.spec_board() == chessboard,
    {
        BoardManager { chessboard }
    }

    /// Read-only access to the board.
    pub fn chessboard(&self) -> (r: &Chessboard)
        ensures
            *r == self.spec_board(),
    {
        &self.chessboard
    }

    /// Validates the proposed move and, when it is legal, applies it:
    /// relocates the piece, pools a captured piece under its own color,
    /// and reports promotion or check. On a rejection the board is left
    /// untouched and the verdict's message is returned.
    pub fn move_piece(
        &mut self,
        piece_position: Position,
        target_position: Position,
        current_player_color: Color,
    ) -> (r: Result<MoveResult, String>)
        ensures
            ({
                let b0 = old(self).spec_board();
                match spec_move_error(b0, piece_position, target_position, current_player_color) {
                    Some(m) => final(self).spec_board() == b0 && (r matches Err(e) && e@ == m),
                    None => {
                        &&& spec_after_move(
                            b0,
                            final(self).spec_board(),
                            piece_position,
                            target_position,
                        )
                        &&& r == Ok::<MoveResult, String>(
                            spec_move_outcome(
                                final(self).spec_board(),
                                b0.spec_at_pos(piece_position).unwrap(),
                                target_position,
                                current_player_color,
                            ),
                        )
                    },
                }
            }),
    {
        match self.can_apply_move(piece_position, target_position, current_player_color) {
            Ok(_) => {},
            Err(e) => {
                return Err(e);
            },
        }
        let res = match self.chessboard.move_piece(piece_position, target_position) {
            Ok(res) => res,
            Err(e) => {
                proof {
                    assert(false);
                }
                return Err(e);
            },
        };
        if res == MoveResult::CanUpgradePiece {
            return Ok(res);
        }
        if self.is_king_checked(current_player_color) {
            return Ok(MoveResult::CheckKing);
        }
        Ok(res)
    }

    /// Decides the verdict on a proposed move without touching the board:
    /// `Ok` exactly when the move is legal, otherwise the rejection.
    fn can_apply_move(
        &self,
        piece_position: Position,
        target_position: Position,
        current_player_color: Color,
    ) -> (r: Result<(), String>)
        ensures
            match r {
                Ok(_) => spec_move_error(
                    self.spec_board(),
                    piece_position,
                    target_position,
                    current_player_color,
                ) is None,
                Err(e) => spec_move_error(
                    self.spec_board(),
                    piece_position,
                    target_position,
                    current_player_color,
                ) matches Some(m) && e@ == m,
            },
    {
        match self.validate_move_basics(piece_position, current_player_color) {
            Ok(_) => {},
            Err(e) => {
                return Err(e);
            },
        }
        let moving_piece = match self.chessboard.get_piece(piece_position) {
            Some(p) => *p,
            None => {
                proof {
                    assert(false);
                }
                return Err("No piece at the given position".to_owned());
            },
        };
        let special_move_attempt = moving_piece.can_reach_via_special_move(
            piece_position,
            target_position,
        );
        let board = &self.chessboard;
        let can_step = |pos: Position| -> (b: bool)
            ensures
                b == spec_can_step(*board, target_position, current_player_color, pos),
            {
                if pos == target_position {
                    match board.get_piece(pos) {
                        Some(piece) => !piece.is_of_color(current_player_color),
                        None => true,
                    }
                } else {
                    board.is_position_empty(pos)
                }
            };
        let can_reach = moving_piece.can_reach(piece_position, target_position, &can_step);
        proof {
            assert(can_reach == spec_reach(
                self.chessboard,
                moving_piece,
                piece_position,
                target_position,
                current_player_color,
            )) by {
                let path = moving_piece.spec_path(piece_position, target_position);
                if can_reach {
                    let sq = path.unwrap();
                    assert forall|j: int| 0 <= j < sq.len() implies spec_can_step(
                        self.chessboard,
                        target_position,
                        current_player_color,
                        #[trigger] sq[j],
                    ) by {
                        assert(call_ensures(can_step, (sq[j],), true));
                    }
                } else {
                    if path is Some {
                        let sq = path.unwrap();
                        assert(some_step_rejected(can_step, sq));
                        let j = choose|j: int|
                            0 <= j < sq.len() && call_ensures(can_step, (#[trigger] sq[j],), false);
                        assert(!spec_can_step(
                            self.chessboard,
                            target_position,
                            current_player_color,
                            sq[j],
                        ));
                    }
                }
            }
        }
        if !can_reach && special_move_attempt.is_err() {
            return Err("Invalid move".to_owned());
        }
        if let Ok(SpecialMove::EnPassant(action)) = special_move_attempt {
            if !self.validate_special_move(action, piece_position, target_position) {
                return Err("Invalid special move".to_owned());
            }
        }
        Ok(())
    }

    /// The two checks that precede any reachability work: the source
    /// square holds a piece, and that piece belongs to the mover.
    fn validate_move_basics(&self, piece_position: Position, current_player_color: Color) -> (r:
        Result<(), String>)
        ensures
            match r {
                Ok(_) => self.spec_board().spec_at_pos(piece_position) matches Some(p)
                    && p.spec_color() == current_player_color,
                Err(e) => (self.spec_board().spec_at_pos(piece_position) is None && e@
                    == "No piece at the given position"@) || (
                self.spec_board().spec_at_pos(piece_position) matches Some(p) && p.spec_color()
                    != current_player_color && e@ == "Not your piece"@),
            },
    {
        match self.validate_piece_exists(piece_position) {
            Ok(_) => {},
            Err(e) => {
                return Err(e);
            },
        }
        match self.validate_player_owns_piece(piece_position, current_player_color) {
            Ok(_) => {},
            Err(e) => {
                return Err(e);
            },
        }
        Ok(())
    }

    /// Rejects a move whose source square is empty.
    fn validate_piece_exists(&self, piece_position: Position) -> (r: Result<(), String>)
        ensures
            match r {
                Ok(_) => self.spec_board().spec_at_pos(piece_position) is Some,
                Err(e) => self.spec_board().spec_at_pos(piece_position) is None && e@
                    == "No piece at the given position"@,
            },
    {
        if self.chessboard.is_position_empty(piece_position) {
            return Err("No piece at the given position".to_owned());
        }
        Ok(())
    }

    /// Rejects a move whose source piece is not the mover's.
    fn validate_player_owns_piece(
        &self,
        piece_position: Position,
        current_player_color: Color,
    ) -> (r: Result<(), String>)
        ensures
            match r {
                Ok(_) => self.spec_board().spec_at_pos(piece_position) matches Some(p)
                    && p.spec_color() == current_player_color,
                Err(e) => !(self.spec_board().spec_at_pos(piece_position) matches Some(p)
                    && p.spec_color() == current_player_color) && e@ == "Not your piece"@,
            },
    {
        if !self.can_player_move_piece_at(piece_position, current_player_color) {
            return Err("Not your piece".to_owned());
        }
        Ok(())
    }

    /// Whether the square holds a piece of the player's color.
    fn can_player_move_piece_at(&self, position: Position, player_color: Color) -> (r: bool)
        ensures
            r == (self.spec_board().spec_at_pos(position) matches Some(p) && p.spec_color()
                == player_color),
    {
        if let Some(piece) = self.chessboard.get_piece(position) {
            if piece.is_of_color(player_color) {
                return true;
            }
        }
        false
    }

    /// Runs the named validation of a special move against the board.
    fn validate_special_move(
        &self,
        action: SpecialMoveValidationAction,
        from: Position,
        to: Position,
    ) -> (r: bool)
        ensures
            r == spec_special_valid(self.spec_board(), from, to),
    {
        match action {
            SpecialMoveValidationAction::EnemyPieceExists => {
                if self.chessboard.is_position_empty(to) {
                    return false;
                }
                let source_color = match self.chessboard.get_piece(from) {
                    Some(piece) => *piece.color(),
                    None => {
                        return false;
                    },
                };
                if let Some(piece) = self.chessboard.get_piece(to) {
                    if piece.is_of_color(source_color) {
                        return false;
                    }
                }
                true
            },
        }
    }

    /// Check detection: whether some piece of `current_player_color`
    /// could legally move onto the opposing king's square. A board with
    /// no opposing king is never in check. Every call rescans the whole
    /// board and re-runs full move validation per candidate attacker.
    pub fn is_king_checked(&self, current_player_color: Color) -> (r: bool)
        ensures
            r == spec_king_checked(self.spec_board(), current_player_color),
    {
        let enemy_color = current_player_color.next();
        let king_position = self.chessboard.get_king_position(enemy_color);
        let kp = match king_position {
            Some(kp) => kp,
            None => {
                return false;
            },
        };
        let positions = self.chessboard.get_all_positions();
        let mut i: usize = 0;
        while i < positions.len()
            invariant
                0 <= i <= 64,
                positions@.len() == 64,
                forall|j: int|
                    0 <= j < 64 ==> (#[trigger] positions@[j]).spec_x() == j / 8
                        && positions@[j].spec_y() == j % 8,
                spec_king_pos(self.spec_board(), current_player_color.spec_next()) == Some(kp),
                forall|j: int|
                    0 <= j < i ==> !((#[trigger] spec_move_error(
                        self.spec_board(),
                        pos_at(j / 8, j % 8),
                        kp,
                        current_player_color,
                    )) is None),
            decreases 64 - i,
        {
            let position = positions[i];
            proof {
                use_type_invariant(position);
                lemma_pos_coords_eq(position, pos_at(i as int / 8, i as int % 8));
            }
            if !self.chessboard.is_position_empty(position) {
                let owned = self.can_player_move_piece_at(position, current_player_color);
                if owned {
                    if self.can_apply_move(position, kp, current_player_color).is_ok() {
                        return true;
                    }
                } else {
                    proof {
                        assert(spec_move_error(
                            self.spec_board(),
                            position,
                            kp,
                            current_player_color,
                        ) == Some("Not your piece"@));
                    }
                }
            }
            i += 1;
        }
        proof {
            assert forall|x: int, y: int|
                on_board(x, y) implies !((#[trigger] spec_move_error(
                self.spec_board(),
                pos_at(x, y),
                kp,
                current_player_color,
            )) is None) by {
                let j = 8 * x + y;
                assert(0 <= j < 64);
                assert(j / 8 == x && j % 8 == y);
                assert(!(spec_move_error(
                    self.spec_board(),
                    pos_at(j / 8, j % 8),
                    kp,
                    current_player_color,
                ) is None));
            }
        }
        false
    }

    /// Promotes: moves the piece at `piece_index_in_dead_pieces_vector`
    /// of `current_player_color`'s capture pool onto `target_position`,
    /// then runs the deferred check detection for that player. Fails,
    /// leaving the board untouched, when the index is out of range.
    pub fn upgrade_piece(
        &mut self,
        piece_index_in_dead_pieces_vector: usize,
        current_player_color: Color,
        target_position: Position,
    ) -> (r: Result<MoveResult, String>)
        ensures
            spec_after_upgrade_outcome(
                old(self).spec_board(),
                final(self).spec_board(),
                piece_index_in_dead_pieces_vector as int,
                current_player_color,
                target_position,
                r,
            ),
    {
        match self.chessboard.upgrade_piece(
            piece_index_in_dead_pieces_vector,
            current_player_color,
            target_position,
        ) {
            Ok(_) => {},
            Err(e) => {
                return Err(e);
            },
        }
        if self.is_king_checked(current_player_color) {
            return Ok(MoveResult::CheckKing);
        }
        Ok(MoveResult::Normal)
    }
}

} // verus!
