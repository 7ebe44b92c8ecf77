use crate::chessboard::{spec_standard_at, Chessboard, ChessboardType};
use crate::position::on_board;
use vstd::prelude::*;

verus! {

/// Builds bare grids, apart from any board state.
pub struct ChessboardFactory;

impl ChessboardFactory {
    /// A grid in the standard starting setup.
    pub fn standard_board() -> (r: ChessboardType)
        ensures
            forall|x: int, y: int|
                on_board(x, y) ==> #[trigger] r@[x]@[y] == spec_standard_at(x, y),
    {
        let board = Chessboard::standard();
        *board.board()
    }
}

} // verus!
