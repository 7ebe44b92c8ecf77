use crate::board_manager::{
    spec_after_upgrade_outcome, spec_king_checked, spec_move_error, spec_move_outcome,
    BoardManager,
};
use crate::chessboard::{
    spec_after_move, spec_after_upgrade, spec_standard_at, Chessboard, MoveResult,
};
use crate::color::Color;
use crate::position::{on_board, Position};
use vstd::prelude::*;

verus! {

/// A game: the board orchestrator plus whose turn it is. The color flips
/// after every accepted move; promotion does not flip it again.
pub struct Game {
    player_color: Color,
    board_manager: BoardManager,
}

impl Game {
    /// The color whose turn it is.
    pub closed spec fn spec_player_color(self) -> Color {
        self.player_color
    }

    /// The orchestrator this game owns.
    pub closed spec fn spec_board_manager(self) -> BoardManager {
        self.board_manager
    }

    /// A fresh game on the standard setup; `player_color` moves first.
    pub fn new(player_color: Color) -> (r: Self)
        ensures
            r.spec_player_color() == player_color,
            forall|x: int, y: int|
                on_board(x, y) ==> #[trigger] r.spec_board_manager().spec_board().spec_at(x, y)
                    == spec_standard_at(x, y),
            forall|c: Color| #[trigger]
                r.spec_board_manager().spec_board().spec_dead_pieces(c) == Seq::<
                    crate::piece::Piece,
                >::empty(),
    {
        let board = Chessboard::standard();
        let board_manager = BoardManager::new(board);
        Game { player_color, board_manager }
    }

    /// Plays one move for the current player and, when it is accepted,
    /// passes the turn to the opponent. A rejected move leaves both the
    /// board and the turn unchanged.
    pub fn play(&mut self, piece_position: Position, target_position: Position) -> (r: Result<
        MoveResult,
        String,
    >)
        ensures
            ({
                let b0 = old(self).spec_board_manager().spec_board();
                let mover = old(self).spec_player_color();
                match spec_move_error(b0, piece_position, target_position, mover) {
                    Some(m) => {
                        &&& final(self).spec_board_manager().spec_board() == b0
                        &&& final(self).spec_player_color() == mover
                        &&& (r matches Err(e) && e@ == m)
                    },
                    None => {
                        &&& spec_after_move(
                            b0,
                            final(self).spec_board_manager().spec_board(),
                            piece_position,
                            target_position,
                        )
                        &&& r == Ok::<MoveResult, String>(
                            spec_move_outcome(
                                final(self).spec_board_manager().spec_board(),
                                b0.spec_at_pos(piece_position).unwrap(),
                                target_position,
                                mover,
                            ),
                        )
                        &&& final(self).spec_player_color() == mover.spec_next()
                    },
                }
            }),
    {
        match self.board_manager.move_piece(
            piece_position,
            target_position,
            self.player_color,
        ) {
            Ok(res) => {
                self.player_color = self.player_color.next();
                Ok(res)
            },
            Err(e) => Err(e),
        }
    }

    /// Promotes using the previous mover's own capture pool: the turn has
    /// already passed, so the promoting side is the opponent of the
    /// current player. The turn does not change.
    pub fn upgrade_piece(&mut self, piece_index: usize, upgrade_position: Position) -> (r: Result<
        MoveResult,
        String,
    >)
        ensures
            final(self).spec_player_color() == old(self).spec_player_color(),
            ({
                let b0 = old(self).spec_board_manager().spec_board();
                let promoting = old(self).spec_player_color().spec_next();
                spec_after_upgrade_outcome(
                    b0,
                    final(self).spec_board_manager().spec_board(),
                    piece_index as int,
                    promoting,
                    upgrade_position,
                    r,
                )
            }),
    {
        let promoting_color = self.player_color().next();
        self.board_manager.upgrade_piece(piece_index, promoting_color, upgrade_position)
    }

    /// Read-only access to the orchestrator.
    pub fn board_manager(&self) -> (r: &BoardManager)
        ensures
            *r == self.spec_board_manager(),
    {
        &self.board_manager
    }

    /// The color whose turn it is.
    pub fn player_color(&self) -> (r: Color)
        ensures
            r == self.spec_player_color(),
    {
        self.player_color
    }
}

} // verus!
