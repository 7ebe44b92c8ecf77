use crate::color::Color;
use crate::piece::{
    spec_can_upgrade, Bishop, King, Knight, Pawn, Piece, Queen, Rook,
};
use crate::position::{on_board, pos_at, Position, BOARD_SIZE};
use vstd::prelude::*;

verus! {

broadcast use vstd::array::group_array_axioms, crate::position::lemma_inv_on_board, crate::position::lemma_pos_at_coords;

/// The 8x8 grid: an optional piece on each square.
pub type ChessboardType = [[Option<Piece>; BOARD_SIZE]; BOARD_SIZE];

/// What a successful move or promotion reports back to the caller.
#[derive(PartialEq, Eq, Structural, Debug, Clone, Copy)]
pub enum MoveResult {
    Normal,
    CanUpgradePiece,
    CheckKing,
}

/// The board state: the grid plus the two ordered capture pools.
/// A captured piece is appended to the pool of its own color.
pub struct Chessboard {
    chessboard: ChessboardType,
    white_dead_pieces: Vec<Piece>,
    black_dead_pieces: Vec<Piece>,
}

/// The back-rank piece of color `c` standing on file `y` in the standard
/// setup: rooks in the corners, then knights, then bishops, the queen on
/// file 3 and the king on file 4.
pub open spec fn spec_back_rank_piece(c: Color, y: int) -> Piece {
    if y == 0 || y == 7 {
        Piece::Rook(Rook { color: c })
    } else if y == 1 || y == 6 {
        Piece::Knight(Knight { color: c })
    } else if y == 2 || y == 5 {
        Piece::Bishop(Bishop { color: c })
    } else if y == 3 {
        Piece::Queen(Queen { color: c })
    } else {
        Piece::King(King { color: c })
    }
}

/// The standard setup: white's back rank on rank 0 and pawns on rank 1,
/// black's back rank on rank 7 and pawns on rank 6, all else empty.
pub open spec fn spec_standard_at(x: int, y: int) -> Option<Piece> {
    if x == 0 {
        Some(spec_back_rank_piece(Color::White, y))
    } else if x == 1 {
        Some(Piece::Pawn(Pawn { color: Color::White }))
    } else if x == 6 {
        Some(Piece::Pawn(Pawn { color: Color::Black }))
    } else if x == 7 {
        Some(spec_back_rank_piece(Color::Black, y))
    } else {
        None
    }
}

/// Whether a king of color `c` stands on square `(x, y)` of `b`.
pub open spec fn spec_king_at(b: Chessboard, c: Color, x: int, y: int) -> bool {
    b.spec_at(x, y) matches Some(p) && (p matches Piece::King(k) && k.color == c)
}

/// The first square, scanning ranks outward and files within each rank
/// (square index `x * 8 + y`), from index `i` on, holding a king of
/// color `c`.
pub open spec fn spec_king_pos_from(b: Chessboard, c: Color, i: int) -> Option<Position>
    decreases 64 - i,
{
    if i < 0 || i >= 64 {
        None
    } else if spec_king_at(b, c, i / 8, i % 8) {
        Some(pos_at(i / 8, i % 8))
    } else {
        spec_king_pos_from(b, c, i + 1)
    }
}

/// The square of the first king of color `c` in scan order, if any.
pub open spec fn spec_king_pos(b: Chessboard, c: Color) -> Option<Position> {
    spec_king_pos_from(b, c, 0)
}

/// Relates a board before and after a successful promotion: the piece at
/// index `idx` of `color`'s capture pool replaces whatever stands on
/// `target`, the pool closes over the gap, and everything else is
/// unchanged.
pub open spec fn spec_after_upgrade(
    b0: Chessboard,
    b1: Chessboard,
    idx: int,
    color: Color,
    target: Position,
) -> bool {
    &&& b1.spec_dead_pieces(color) == b0.spec_dead_pieces(color).remove(idx)
    &&& b1.spec_dead_pieces(color.spec_next()) == b0.spec_dead_pieces(color.spec_next())
    &&& forall|x: int, y: int|
        on_board(x, y) ==> #[trigger] b1.spec_at(x, y) == (if x == target.spec_x() && y
            == target.spec_y() {
            Some(b0.spec_dead_pieces(color)[idx])
        } else {
            b0.spec_at(x, y)
        })
}

/// Relates a board before and after a successful relocation of the piece
/// on `from` to `to`: the source square is cleared, the moved piece
/// stands on the target square, every other square is unchanged, and a
/// piece captured on the target square is appended to the capture pool
/// of its own color.
pub open spec fn spec_after_move(
    b0: Chessboard,
    b1: Chessboard,
    from: Position,
    to: Position,
) -> bool {
    match b0.spec_at_pos(from) {
        None => false,
        Some(moved) => {
            let captured = if from == to {
                None
            } else {
                b0.spec_at_pos(to)
            };
            &&& forall|x: int, y: int|
                on_board(x, y) ==> #[trigger] b1.spec_at(x, y) == (if x == from.spec_x() && y
                    == from.spec_y() {
                    None
                } else if x == to.spec_x() && y == to.spec_y() {
                    Some(moved)
                } else {
                    b0.spec_at(x, y)
                })
            &&& match captured {
                Some(q) => b1.spec_dead_pieces(q.spec_color()) == b0.spec_dead_pieces(
                    q.spec_color(),
                ).push(q) && b1.spec_dead_pieces(q.spec_color().spec_next())
                    == b0.spec_dead_pieces(q.spec_color().spec_next()),
                None => forall|c: Color| #[trigger] b1.spec_dead_pieces(c) == b0.spec_dead_pieces(
                    c,
                ),
            }
        },
    }
}

impl Chessboard {
    /// The piece on square `(x, y)`, if any.
    pub closed spec fn spec_at(self, x: int, y: int) -> Option<Piece> {
        self.chessboard@[x]@[y]
    }

    /// The piece on square `p`, if any.
    pub open spec fn spec_at_pos(self, p: Position) -> Option<Piece> {
        self.spec_at(p.spec_x(), p.spec_y())
    }

    /// The ordered capture pool of color `c`, oldest capture first.
    pub closed spec fn spec_dead_pieces(self, c: Color) -> Seq<Piece> {
        match c {
            Color::White => self.white_dead_pieces@,
            Color::Black => self.black_dead_pieces@,
        }
    }

    /// Wraps an existing grid and capture pools as a board.
    pub fn new(
        chessboard: ChessboardType,
        white_dead_pieces: Vec<Piece>,
        black_dead_pieces: Vec<Piece>,
    ) -> (r: Self)
        ensures
            forall|x: int, y: int|
                on_board(x, y) ==> #[trigger] r.spec_at(x, y) == chessboard@[x]@[y],
            r.spec_dead_pieces(Color::White) == white_dead_pieces@,
            r.spec_dead_pieces(Color::Black) == black_dead_pieces@,
    {
        Chessboard { chessboard, white_dead_pieces, black_dead_pieces }
    }

    /// A board with no pieces and empty capture pools.
    pub fn empty() -> (r: Self)
        ensures
            forall|x: int, y: int| on_board(x, y) ==> #[trigger] r.spec_at(x, y) is None,
            r.spec_dead_pieces(Color::White) == Seq::<Piece>::empty(),
            r.spec_dead_pieces(Color::Black) == Seq::<Piece>::empty(),
    {
        let grid: ChessboardType = [[None;BOARD_SIZE];BOARD_SIZE];
        let white_pool: Vec<Piece> = Vec::new();
        let black_pool: Vec<Piece> = Vec::new();
        proof {
            assert(white_pool@ =~= Seq::<Piece>::empty());
            assert(black_pool@ =~= Seq::<Piece>::empty());
        }
        Self::new(grid, white_pool, black_pool)
    }

    /// A board in the standard starting setup with empty capture pools.
    pub fn standard() -> (r: Self)
        ensures
            forall|x: int, y: int|
                on_board(x, y) ==> #[trigger] r.spec_at(x, y) == spec_standard_at(x, y),
            r.spec_dead_pieces(Color::White) == Seq::<Piece>::empty(),
            r.spec_dead_pieces(Color::Black) == Seq::<Piece>::empty(),
    {
        let mut board = Chessboard::empty();
        board.initialize_pieces(Color::White, 0, 1);
        board.initialize_pieces(Color::Black, 7, 6);
        board
    }

    /// Places `color`'s back rank on rank `first_row` and its pawns on
    /// rank `pawns_row`, leaving every other square as it was.
    fn initialize_pieces(&mut self, color: Color, first_row: usize, pawns_row: usize)
        requires
            first_row < 8,
            pawns_row < 8,
            first_row != pawns_row,
        ensures
            forall|x: int, y: int|
                on_board(x, y) ==> #[trigger] final(self).spec_at(x, y) == (if x == first_row {
                    Some(spec_back_rank_piece(color, y))
                } else if x == pawns_row {
                    Some(Piece::Pawn(Pawn { color }))
                } else {
                    old(self).spec_at(x, y)
                }),
            forall|c: Color| #[trigger]
                final(self).spec_dead_pieces(c) == old(self).spec_dead_pieces(c),
    {
        let back_row: [Piece; 8] = [
            Piece::Rook(Rook::new(color)),
            Piece::Knight(Knight::new(color)),
            Piece::Bishop(Bishop::new(color)),
            Piece::Queen(Queen::new(color)),
            Piece::King(King::new(color)),
            Piece::Bishop(Bishop::new(color)),
            Piece::Knight(Knight::new(color)),
            Piece::Rook(Rook::new(color)),
        ];
        let mut col: usize = 0;
        while col < 8
            invariant
                col <= 8,
                first_row < 8,
                pawns_row < 8,
                back_row@.len() == 8,
                forall|y: int| 0 <= y < 8 ==> #[trigger] back_row@[y] == spec_back_rank_piece(
                    color,
                    y,
                ),
                forall|x: int, y: int|
                    on_board(x, y) ==> #[trigger] self.spec_at(x, y) == (if x == first_row && y
                        < col {
                        Some(spec_back_rank_piece(color, y))
                    } else {
                        old(self).spec_at(x, y)
                    }),
                forall|c: Color| #[trigger] self.spec_dead_pieces(c) == old(self).spec_dead_pieces(
                    c,
                ),
            decreases 8 - col,
        {
            let pos = match Position::new(first_row, col) {
                Ok(p) => p,
                Err(_) => {
                    proof {
                        assert(false);
                    }
                    return;
                },
            };
            self.set_piece(pos, Some(back_row[col]));
            col += 1;
        }
        let mut col: usize = 0;
        while col < BOARD_SIZE
            invariant
                col <= 8,
                first_row < 8,
                pawns_row < 8,
                first_row != pawns_row,
                forall|x: int, y: int|
                    on_board(x, y) ==> #[trigger] self.spec_at(x, y) == (if x == first_row {
                        Some(spec_back_rank_piece(color, y))
                    } else if x == pawns_row && y < col {
                        Some(Piece::Pawn(Pawn { color }))
                    } else {
                        old(self).spec_at(x, y)
                    }),
                forall|c: Color| #[trigger] self.spec_dead_pieces(c) == old(self).spec_dead_pieces(
                    c,
                ),
            decreases 8 - col,
        {
            let pos = match Position::new(pawns_row, col) {
                Ok(p) => p,
                Err(_) => {
                    proof {
                        assert(false);
                    }
                    return;
                },
            };
            self.set_piece(pos, Some(Piece::Pawn(Pawn::new(color))));
            col += 1;
        }
    }

    /// The piece standing on `pos`, if any.
    pub fn get_piece(&self, pos: Position) -> (r: Option<&Piece>)
        ensures
            match r {
                Some(p) => self.spec_at_pos(pos) == Some(*p),
                None => self.spec_at_pos(pos) is None,
            },
    {
        proof {
            use_type_invariant(pos);
        }
        self.chessboard[pos.x()][pos.y()].as_ref()
    }

    /// Removes and returns the piece standing on `pos`, if any.
    fn take_piece(&mut self, pos: Position) -> (r: Option<Piece>)
        ensures
            r == old(self).spec_at_pos(pos),
            forall|x: int, y: int|
                on_board(x, y) ==> #[trigger] final(self).spec_at(x, y) == (if x == pos.spec_x()
                    && y == pos.spec_y() {
                    None
                } else {
                    old(self).spec_at(x, y)
                }),
            forall|c: Color| #[trigger]
                final(self).spec_dead_pieces(c) == old(self).spec_dead_pieces(c),
    {
        proof {
            use_type_invariant(pos);
        }
        let r = self.chessboard[pos.x()][pos.y()];
        self.set_piece(pos, None);
        r
    }

    /// Puts `piece` on `pos`, replacing whatever stood there.
    fn set_piece(&mut self, pos: Position, piece: Option<Piece>)
        ensures
            forall|x: int, y: int|
                on_board(x, y) ==> #[trigger] final(self).spec_at(x, y) == (if x == pos.spec_x()
                    && y == pos.spec_y() {
                    piece
                } else {
                    old(self).spec_at(x, y)
                }),
            forall|c: Color| #[trigger]
                final(self).spec_dead_pieces(c) == old(self).spec_dead_pieces(c),
    {
        proof {
            use_type_invariant(pos);
        }
        let mut row: [Option<Piece>; BOARD_SIZE] = self.chessboard[pos.x()];
        row[pos.y()] = piece;
        self.chessboard[pos.x()] = row;
    }

    /// Whether no piece stands on `position`.
    pub fn is_position_empty(&self, position: Position) -> (r: bool)
        ensures
            r == (self.spec_at_pos(position) is None),
    {
        proof {
            use_type_invariant(position);
        }
        self.chessboard[position.x()][position.y()].is_none()
    }

    /// Read-only access to the grid.
    pub fn board(&self) -> (r: &ChessboardType)
        ensures
            forall|x: int, y: int| on_board(x, y) ==> #[trigger] r@[x]@[y] == self.spec_at(x, y),
    {
        &self.chessboard
    }

    /// Read-only access to white's capture pool.
    pub fn white_dead_pieces(&self) -> (r: &Vec<Piece>)
        ensures
            r@ == self.spec_dead_pieces(Color::White),
    {
        &self.white_dead_pieces
    }

    /// Read-only access to black's capture pool.
    pub fn black_dead_pieces(&self) -> (r: &Vec<Piece>)
        ensures
            r@ == self.spec_dead_pieces(Color::Black),
    {
        &self.black_dead_pieces
    }

    /// Removes the piece on `target_position`, if any, and appends it to
    /// the capture pool of its own color — regardless of who captured it.
    pub fn capture_piece(&mut self, target_position: Position)
        ensures
            ({
                let captured = old(self).spec_at_pos(target_position);
                match captured {
                    Some(q) => {
                        &&& forall|x: int, y: int|
                            on_board(x, y) ==> #[trigger] final(self).spec_at(x, y) == (if x
                                == target_position.spec_x() && y == target_position.spec_y() {
                                None
                            } else {
                                old(self).spec_at(x, y)
                            })
                        &&& final(self).spec_dead_pieces(q.spec_color()) == old(
                            self,
                        ).spec_dead_pieces(q.spec_color()).push(q)
                        &&& final(self).spec_dead_pieces(q.spec_color().spec_next()) == old(
                            self,
                        ).spec_dead_pieces(q.spec_color().spec_next())
                    },
                    None => *final(self) == *old(self),
                }
            }),
    {
        let occupant = match self.get_piece(target_position) {
            Some(p) => Some(*p),
            None => None,
        };
        if let Some(target_piece) = occupant {
            let _ = self.take_piece(target_position);
            let ghost mid = *self;
            if *target_piece.color() == Color::White {
                self.white_dead_pieces.push(target_piece);
            } else {
                self.black_dead_pieces.push(target_piece);
            }
            proof {
                assert forall|x: int, y: int| on_board(x, y) implies #[trigger] self.spec_at(x, y)
                    == mid.spec_at(x, y) by {}
                assert(self.spec_dead_pieces(target_piece.spec_color()) == mid.spec_dead_pieces(
                    target_piece.spec_color(),
                ).push(target_piece));
                assert(self.spec_dead_pieces(target_piece.spec_color().spec_next())
                    == mid.spec_dead_pieces(target_piece.spec_color().spec_next()));
            }
        }
    }

    /// Relocates the piece on `piece_position` to `target_position`,
    /// pooling whatever stood on the target, and reports whether the
    /// moved piece is a pawn that may now be promoted. Fails, leaving the
    /// board unchanged, when the source square is empty. No legality
    /// check happens here: callers validate reachability first.
    pub fn move_piece(&mut self, piece_position: Position, target_position: Position) -> (r: Result<
        MoveResult,
        String,
    >)
        ensures
            old(self).spec_at_pos(piece_position) is None ==> (*final(self) == *old(self) && (
            r matches Err(e) && e@ == "No piece at the given position"@)),
            old(self).spec_at_pos(piece_position) matches Some(moved) ==> {
                &&& spec_after_move(*old(self), *final(self), piece_position, target_position)
                &&& r == Ok::<MoveResult, String>(
                    if moved matches Piece::Pawn(p) && spec_can_upgrade(
                        p.color,
                        target_position,
                    ) {
                        MoveResult::CanUpgradePiece
                    } else {
                        MoveResult::Normal
                    },
                )
            },
    {
        if self.is_position_empty(piece_position) {
            return Err("No piece at the given position".to_owned());
        }
        let piece = match self.take_piece(piece_position) {
            Some(p) => p,
            None => {
                proof {
                    assert(false);
                }
                return Err("No piece at the given position".to_owned());
            },
        };
        let ghost s1 = *self;
        self.capture_piece(target_position);
        let ghost s2 = *self;
        self.set_piece(target_position, Some(piece));
        let ghost s3 = *self;
        self.set_piece(piece_position, None);
        proof {
            use_type_invariant(piece_position);
            use_type_invariant(target_position);
            let s0 = *old(self);
            if piece_position.spec_x() == target_position.spec_x() && piece_position.spec_y()
                == target_position.spec_y() {
                crate::move_offsets::lemma_pos_coords_eq(piece_position, target_position);
            }
            assert forall|x: int, y: int| on_board(x, y) implies #[trigger] self.spec_at(x, y)
                == (if x == piece_position.spec_x() && y == piece_position.spec_y() {
                None
            } else if x == target_position.spec_x() && y == target_position.spec_y() {
                Some(piece)
            } else {
                s0.spec_at(x, y)
            }) by {
                assert(s1.spec_at(x, y) == (if x == piece_position.spec_x() && y
                    == piece_position.spec_y() {
                    None
                } else {
                    s0.spec_at(x, y)
                }));
                assert(s2.spec_at(x, y) == (if s1.spec_at_pos(target_position) is Some && x
                    == target_position.spec_x() && y == target_position.spec_y() {
                    None
                } else {
                    s1.spec_at(x, y)
                }));
                assert(s3.spec_at(x, y) == (if x == target_position.spec_x() && y
                    == target_position.spec_y() {
                    Some(piece)
                } else {
                    s2.spec_at(x, y)
                }));
            }
            let captured = if piece_position == target_position {
                None
            } else {
                s0.spec_at_pos(target_position)
            };
            assert(s1.spec_dead_pieces(Color::White) == s0.spec_dead_pieces(Color::White));
            assert(s1.spec_dead_pieces(Color::Black) == s0.spec_dead_pieces(Color::Black));
            assert(s1.spec_at_pos(target_position) == captured);
            match captured {
                Some(q) => {
                    assert(s2.spec_dead_pieces(q.spec_color()) == s1.spec_dead_pieces(
                        q.spec_color(),
                    ).push(q));
                    assert(s2.spec_dead_pieces(q.spec_color().spec_next()) == s1.spec_dead_pieces(
                        q.spec_color().spec_next(),
                    ));
                    assert(s3.spec_dead_pieces(q.spec_color()) == s2.spec_dead_pieces(
                        q.spec_color(),
                    ));
                    assert(s3.spec_dead_pieces(q.spec_color().spec_next()) == s2.spec_dead_pieces(
                        q.spec_color().spec_next(),
                    ));
                    assert(self.spec_dead_pieces(q.spec_color()) == s3.spec_dead_pieces(
                        q.spec_color(),
                    ));
                    assert(self.spec_dead_pieces(q.spec_color().spec_next()) == s3.spec_dead_pieces(
                        q.spec_color().spec_next(),
                    ));
                },
                None => {
                    assert forall|c: Color| #[trigger] self.spec_dead_pieces(c)
                        == s0.spec_dead_pieces(c) by {
                        assert(s2.spec_dead_pieces(c) == s1.spec_dead_pieces(c));
                        assert(s3.spec_dead_pieces(c) == s2.spec_dead_pieces(c));
                        assert(self.spec_dead_pieces(c) == s3.spec_dead_pieces(c));
                    }
                },
            }
            assert(spec_after_move(s0, *self, piece_position, target_position));
        }
        let is_upgradable_pawn = match piece {
            Piece::Pawn(pawn) => pawn.can_upgrade(target_position),
            _ => false,
        };
        if is_upgradable_pawn {
            return Ok(MoveResult::CanUpgradePiece);
        }
        Ok(MoveResult::Normal)
    }

    /// Removes the piece at `piece_index_in_dead_pieces_vector` from
    /// `current_player_color`'s capture pool and places it on
    /// `target_position`, replacing whatever stands there. Fails, leaving
    /// the board unchanged, when the index is out of range.
    pub fn upgrade_piece(
        &mut self,
        piece_index_in_dead_pieces_vector: usize,
        current_player_color: Color,
        target_position: Position,
    ) -> (r: Result<(), String>)
        ensures
            piece_index_in_dead_pieces_vector >= old(self).spec_dead_pieces(
                current_player_color,
            ).len() ==> (*final(self) == *old(self) && (r matches Err(e) && e@
                == "Invalid index for dead pieces vector"@)),
            piece_index_in_dead_pieces_vector < old(self).spec_dead_pieces(
                current_player_color,
            ).len() ==> {
                &&& r is Ok
                &&& spec_after_upgrade(
                    *old(self),
                    *final(self),
                    piece_index_in_dead_pieces_vector as int,
                    current_player_color,
                    target_position,
                )
            },
    {
        let pool_len = match current_player_color {
            Color::White => self.white_dead_pieces.len(),
            Color::Black => self.black_dead_pieces.len(),
        };
        if piece_index_in_dead_pieces_vector >= pool_len {
            return Err("Invalid index for dead pieces vector".to_owned());
        }
        let piece_to_upgrade = match current_player_color {
            Color::White => self.white_dead_pieces.remove(piece_index_in_dead_pieces_vector),
            Color::Black => self.black_dead_pieces.remove(piece_index_in_dead_pieces_vector),
        };
        self.set_piece(target_position, Some(piece_to_upgrade));
        Ok(())
    }

    /// The square of the first king of color `color` in scan order, or
    /// `None` when no such king is on the board.
    pub fn get_king_position(&self, color: Color) -> (r: Option<Position>)
        ensures
            r == spec_king_pos(*self, color),
    {
        let positions = self.get_all_positions();
        let mut i: usize = 0;
        while i < positions.len()
            invariant
                0 <= i <= 64,
                positions@.len() == 64,
                forall|j: int|
                    0 <= j < 64 ==> (#[trigger] positions@[j]).spec_x() == j / 8
                        && positions@[j].spec_y() == j % 8,
                spec_king_pos(*self, color) == spec_king_pos_from(*self, color, i as int),
            decreases 64 - i,
        {
            let position = positions[i];
            let mut found: bool = false;
            match self.get_piece(position) {
                Some(piece) => {
                    let is_king = match piece {
                        Piece::King(_) => true,
                        _ => false,
                    };
                    if is_king && *piece.color() == color {
                        found = true;
                    }
                },
                None => {},
            }
            if found {
                proof {
                    crate::move_offsets::lemma_pos_coords_eq(
                        position,
                        pos_at(i as int / 8, i as int % 8),
                    );
                }
                return Some(position);
            }
            i += 1;
        }
        None
    }

    /// Every square of the board, in scan order: rank `i / 8`, file `i % 8`.
    pub fn get_all_positions(&self) -> (r: Vec<Position>)
        ensures
            r@.len() == 64,
            forall|i: int|
                0 <= i < 64 ==> (#[trigger] r@[i]).spec_x() == i / 8 && r@[i].spec_y() == i % 8,
    {
        let mut positions: Vec<Position> = Vec::new();
        let mut x: usize = 0;
        while x < BOARD_SIZE
            invariant
                x <= 8,
                positions@.len() == 8 * x,
                forall|i: int|
                    0 <= i < 8 * x ==> (#[trigger] positions@[i]).spec_x() == i / 8
                        && positions@[i].spec_y() == i % 8,
            decreases 8 - x,
        {
            let mut y: usize = 0;
            while y < BOARD_SIZE
                invariant
                    x < 8,
                    y <= 8,
                    positions@.len() == 8 * x + y,
                    forall|i: int|
                        0 <= i < 8 * x + y ==> (#[trigger] positions@[i]).spec_x() == i / 8
                            && positions@[i].spec_y() == i % 8,
                decreases 8 - y,
            {
                match Position::new(x, y) {
                    Ok(p) => {
                        positions.push(p);
                    },
                    Err(_) => {
                        proof {
                            assert(false);
                        }
                    },
                }
                y += 1;
            }
            x += 1;
        }
        positions
    }
}

} // verus!
