use crate::color::Color;
use crate::direction::{MoveDirection, SpecialMove, SpecialMoveValidationAction};
use crate::move_offsets::{spec_once_path, spec_walk_path, MoveOffsets};
use crate::position::Position;
use vstd::prelude::*;

verus! {

broadcast use crate::position::lemma_inv_on_board;

/// A pawn: moves one square forward, two from its starting rank, and
/// captures diagonally forward through the special-move protocol.
#[derive(Clone, Copy, Debug, PartialEq, Eq, Structural)]
pub struct Pawn {
    pub color: Color,
}

/// A knight: moves exactly once by any knight-shaped offset.
#[derive(Clone, Copy, Debug, PartialEq, Eq, Structural)]
pub struct Knight {
    pub color: Color,
}

/// A bishop: slides along diagonals until blocked or off the board.
#[derive(Clone, Copy, Debug, PartialEq, Eq, Structural)]
pub struct Bishop {
    pub color: Color,
}

/// A rook: slides along ranks and files until blocked or off the board.
#[derive(Clone, Copy, Debug, PartialEq, Eq, Structural)]
pub struct Rook {
    pub color: Color,
}

/// A queen: slides in all eight unit directions until blocked.
#[derive(Clone, Copy, Debug, PartialEq, Eq, Structural)]
pub struct Queen {
    pub color: Color,
}

/// A king: moves exactly one square in any unit direction.
#[derive(Clone, Copy, Debug, PartialEq, Eq, Structural)]
pub struct King {
    pub color: Color,
}

impl Pawn {
    /// The owner's color.
    pub open spec fn spec_color(self) -> Color {
        self.color
    }

    pub fn new(color: Color) -> (r: Self)
        ensures
            r.spec_color() == color,
    {
        Pawn { color }
    }

    pub fn color(&self) -> (r: &Color)
        ensures
            *r == self.spec_color(),
    {
        &self.color
    }
}

impl Knight {
    /// The owner's color.
    pub open spec fn spec_color(self) -> Color {
        self.color
    }

    pub fn new(color: Color) -> (r: Self)
        ensures
            r.spec_color() == color,
    {
        Knight { color }
    }

    pub fn color(&self) -> (r: &Color)
        ensures
            *r == self.spec_color(),
    {
        &self.color
    }
}

impl Bishop {
    /// The owner's color.
    pub open spec fn spec_color(self) -> Color {
        self.color
    }

    pub fn new(color: Color) -> (r: Self)
        ensures
            r.spec_color() == color,
    {
        Bishop { color }
    }

    pub fn color(&self) -> (r: &Color)
        ensures
            *r == self.spec_color(),
    {
        &self.color
    }
}

impl Rook {
    /// The owner's color.
    pub open spec fn spec_color(self) -> Color {
        self.color
    }

    pub fn new(color: Color) -> (r: Self)
        ensures
            r.spec_color() == color,
    {
        Rook { color }
    }

    pub fn color(&self) -> (r: &Color)
        ensures
            *r == self.spec_color(),
    {
        &self.color
    }
}

impl Queen {
    /// The owner's color.
    pub open spec fn spec_color(self) -> Color {
        self.color
    }

    pub fn new(color: Color) -> (r: Self)
        ensures
            r.spec_color() == color,
    {
        Queen { color }
    }

    pub fn color(&self) -> (r: &Color)
        ensures
            *r == self.spec_color(),
    {
        &self.color
    }
}

impl King {
    /// The owner's color.
    pub open spec fn spec_color(self) -> Color {
        self.color
    }

    pub fn new(color: Color) -> (r: Self)
        ensures
            r.spec_color() == color,
    {
        King { color }
    }

    pub fn color(&self) -> (r: &Color)
        ensures
            *r == self.spec_color(),
    {
        &self.color
    }
}

/// The closed variant over the six piece kinds.
#[derive(Clone, Copy, Debug, PartialEq, Eq, Structural)]
pub enum Piece {
    Pawn(Pawn),
    Knight(Knight),
    Bishop(Bishop),
    Rook(Rook),
    Queen(Queen),
    King(King),
}

/// Every square of `sq` is a square the step predicate `f` accepts.
pub open spec fn all_steps_accepted<F: Fn(Position) -> bool>(f: F, sq: Seq<Position>) -> bool {
    forall|j: int| 0 <= j < sq.len() ==> call_ensures(f, (#[trigger] sq[j],), true)
}

/// Some square of `sq` is a square the step predicate `f` rejects.
pub open spec fn some_step_rejected<F: Fn(Position) -> bool>(f: F, sq: Seq<Position>) -> bool {
    exists|j: int| 0 <= j < sq.len() && call_ensures(f, (#[trigger] sq[j],), false)
}

/// The rank direction a pawn of color `c` advances in.
pub open spec fn forward_dx(c: Color) -> int {
    match c {
        Color::White => 1,
        Color::Black => -1,
    }
}

/// The single forward direction of a pawn of color `c`.
pub open spec fn pawn_forward_dirs(c: Color) -> Seq<MoveDirection> {
    match c {
        Color::White => seq![MoveDirection::Down],
        Color::Black => seq![MoveDirection::Up],
    }
}

/// The eight knight-shaped directions.
pub open spec fn knight_dirs() -> Seq<MoveDirection> {
    seq![
        MoveDirection::KnightUpLeft,
        MoveDirection::KnightUpRight,
        MoveDirection::KnightDownLeft,
        MoveDirection::KnightDownRight,
        MoveDirection::KnightLeftUp,
        MoveDirection::KnightLeftDown,
        MoveDirection::KnightRightUp,
        MoveDirection::KnightRightDown,
    ]
}

/// The four diagonal directions.
pub open spec fn bishop_dirs() -> Seq<MoveDirection> {
    seq![
        MoveDirection::UpRight,
        MoveDirection::UpLeft,
        MoveDirection::DownRight,
        MoveDirection::DownLeft,
    ]
}

/// The four orthogonal directions.
pub open spec fn rook_dirs() -> Seq<MoveDirection> {
    seq![MoveDirection::Up, MoveDirection::Down, MoveDirection::Left, MoveDirection::Right]
}

/// All eight unit directions, used by queens and kings.
pub open spec fn omni_dirs() -> Seq<MoveDirection> {
    seq![
        MoveDirection::Up,
        MoveDirection::Down,
        MoveDirection::Left,
        MoveDirection::Right,
        MoveDirection::UpLeft,
        MoveDirection::UpRight,
        MoveDirection::DownLeft,
        MoveDirection::DownRight,
    ]
}

/// Whether `p` is the starting rank of pawns of color `c`.
pub open spec fn spec_on_starting_rank(c: Color, p: Position) -> bool {
    match c {
        Color::White => p.spec_x() == 1,
        Color::Black => p.spec_x() == 6,
    }
}

/// Whether a pawn of color `c` standing on `p` has reached the farthest
/// rank from its own starting side and may be promoted.
pub open spec fn spec_can_upgrade(c: Color, p: Position) -> bool {
    match c {
        Color::White => p.spec_x() == 7,
        Color::Black => p.spec_x() == 0,
    }
}

/// Whether `target` is one forward-diagonal step from `current` for a
/// pawn of color `c`: the shape of the capturing special move. This is
/// independent of board occupancy.
pub open spec fn spec_en_passant_shape(c: Color, current: Position, target: Position) -> bool {
    target.spec_x() == current.spec_x() + forward_dx(c) && (target.spec_y() == current.spec_y() - 1
        || target.spec_y() == current.spec_y() + 1)
}

impl Pawn {
    /// Whether this pawn may be promoted when standing on `current_position`.
    pub fn can_upgrade(&self, current_position: Position) -> (r: bool)
        ensures
            r == spec_can_upgrade(self.spec_color(), current_position),
    {
        match self.color {
            Color::White => current_position.x() == 7,
            Color::Black => current_position.x() == 0,
        }
    }

    /// Reports the capturing diagonal special move when `target_position`
    /// is one forward-diagonal step away, independent of board occupancy.
    pub fn can_reach_via_special_move(
        &self,
        current_position: Position,
        target_position: Position,
    ) -> (r: Result<SpecialMove, ()>)
        ensures
            spec_en_passant_shape(self.spec_color(), current_position, target_position) ==> r
                == Ok::<SpecialMove, ()>(
                SpecialMove::EnPassant(SpecialMoveValidationAction::EnemyPieceExists),
            ),
            !spec_en_passant_shape(self.spec_color(), current_position, target_position) ==> r
                == Err::<SpecialMove, ()>(()),
    {
        proof {
            use_type_invariant(current_position);
            use_type_invariant(target_position);
        }
        let fdx: i32 = match self.color {
            Color::White => 1,
            Color::Black => -1,
        };
        let tx: i32 = target_position.x() as i32;
        let ty: i32 = target_position.y() as i32;
        let cx: i32 = current_position.x() as i32;
        let cy: i32 = current_position.y() as i32;
        if tx == cx + fdx && (ty == cy - 1 || ty == cy + 1) {
            Ok(SpecialMove::EnPassant(SpecialMoveValidationAction::EnemyPieceExists))
        } else {
            Err(())
        }
    }
}

impl Pawn {
    /// Reach test for a pawn standing alone; see `Piece::can_reach`.
    pub fn can_reach<F: Fn(Position) -> bool>(
        &self,
        current_position: Position,
        target_position: Position,
        can_step_into_position: &F,
    ) -> (r: bool)
        requires
            forall|p: Position| #[trigger] call_requires(*can_step_into_position, (p,)),
        ensures
            ({
                let path = Piece::Pawn(*self).spec_path(current_position, target_position);
                &&& r ==> (path matches Some(sq) && all_steps_accepted(
                    *can_step_into_position,
                    sq,
                ))
                &&& !r ==> (path is None || (path matches Some(sq) && some_step_rejected(
                    *can_step_into_position,
                    sq,
                )))
            }),
    {
        Piece::Pawn(*self).can_reach(current_position, target_position, can_step_into_position)
    }
}

impl Knight {
    /// Reach test for a knight standing alone; see `Piece::can_reach`.
    pub fn can_reach<F: Fn(Position) -> bool>(
        &self,
        current_position: Position,
        target_position: Position,
        can_step_into_position: &F,
    ) -> (r: bool)
        requires
            forall|p: Position| #[trigger] call_requires(*can_step_into_position, (p,)),
        ensures
            ({
                let path = Piece::Knight(*self).spec_path(current_position, target_position);
                &&& r ==> (path matches Some(sq) && all_steps_accepted(
                    *can_step_into_position,
                    sq,
                ))
                &&& !r ==> (path is None || (path matches Some(sq) && some_step_rejected(
                    *can_step_into_position,
                    sq,
                )))
            }),
    {
        Piece::Knight(*self).can_reach(current_position, target_position, can_step_into_position)
    }
}

impl Bishop {
    /// Reach test for a bishop standing alone; see `Piece::can_reach`.
    pub fn can_reach<F: Fn(Position) -> bool>(
        &self,
        current_position: Position,
        target_position: Position,
        can_step_into_position: &F,
    ) -> (r: bool)
        requires
            forall|p: Position| #[trigger] call_requires(*can_step_into_position, (p,)),
        ensures
            ({
                let path = Piece::Bishop(*self).spec_path(current_position, target_position);
                &&& r ==> (path matches Some(sq) && all_steps_accepted(
                    *can_step_into_position,
                    sq,
                ))
                &&& !r ==> (path is None || (path matches Some(sq) && some_step_rejected(
                    *can_step_into_position,
                    sq,
                )))
            }),
    {
        Piece::Bishop(*self).can_reach(current_position, target_position, can_step_into_position)
    }
}

impl Rook {
    /// Reach test for a rook standing alone; see `Piece::can_reach`.
    pub fn can_reach<F: Fn(Position) -> bool>(
        &self,
        current_position: Position,
        target_position: Position,
        can_step_into_position: &F,
    ) -> (r: bool)
        requires
            forall|p: Position| #[trigger] call_requires(*can_step_into_position, (p,)),
        ensures
            ({
                let path = Piece::Rook(*self).spec_path(current_position, target_position);
                &&& r ==> (path matches Some(sq) && all_steps_accepted(
                    *can_step_into_position,
                    sq,
                ))
                &&& !r ==> (path is None || (path matches Some(sq) && some_step_rejected(
                    *can_step_into_position,
                    sq,
                )))
            }),
    {
        Piece::Rook(*self).can_reach(current_position, target_position, can_step_into_position)
    }
}

impl Queen {
    /// Reach test for a queen standing alone; see `Piece::can_reach`.
    pub fn can_reach<F: Fn(Position) -> bool>(
        &self,
        current_position: Position,
        target_position: Position,
        can_step_into_position: &F,
    ) -> (r: bool)
        requires
            forall|p: Position| #[trigger] call_requires(*can_step_into_position, (p,)),
        ensures
            ({
                let path = Piece::Queen(*self).spec_path(current_position, target_position);
                &&& r ==> (path matches Some(sq) && all_steps_accepted(
                    *can_step_into_position,
                    sq,
                ))
                &&& !r ==> (path is None || (path matches Some(sq) && some_step_rejected(
                    *can_step_into_position,
                    sq,
                )))
            }),
    {
        Piece::Queen(*self).can_reach(current_position, target_position, can_step_into_position)
    }
}

impl King {
    /// Reach test for a king standing alone; see `Piece::can_reach`.
    pub fn can_reach<F: Fn(Position) -> bool>(
        &self,
        current_position: Position,
        target_position: Position,
        can_step_into_position: &F,
    ) -> (r: bool)
        requires
            forall|p: Position| #[trigger] call_requires(*can_step_into_position, (p,)),
        ensures
            ({
                let path = Piece::King(*self).spec_path(current_position, target_position);
                &&& r ==> (path matches Some(sq) && all_steps_accepted(
                    *can_step_into_position,
                    sq,
                ))
                &&& !r ==> (path is None || (path matches Some(sq) && some_step_rejected(
                    *can_step_into_position,
                    sq,
                )))
            }),
    {
        Piece::King(*self).can_reach(current_position, target_position, can_step_into_position)
    }
}

impl Piece {
    /// The owner's color.
    pub open spec fn spec_color(self) -> Color {
        match self {
            Piece::Pawn(p) => p.spec_color(),
            Piece::Knight(p) => p.spec_color(),
            Piece::Bishop(p) => p.spec_color(),
            Piece::Rook(p) => p.spec_color(),
            Piece::Queen(p) => p.spec_color(),
            Piece::King(p) => p.spec_color(),
        }
    }

    /// The path this piece's movement shape yields from `current` to
    /// `target`, if the target is reachable on an unobstructed board.
    pub open spec fn spec_path(self, current: Position, target: Position) -> Option<Seq<Position>> {
        match self {
            Piece::Pawn(p) => if spec_on_starting_rank(p.spec_color(), current) {
                spec_walk_path(pawn_forward_dirs(p.spec_color()), 2, current, target)
            } else {
                spec_once_path(pawn_forward_dirs(p.spec_color()), current, target)
            },
            Piece::Knight(_) => spec_once_path(knight_dirs(), current, target),
            Piece::Bishop(_) => spec_walk_path(bishop_dirs(), 7, current, target),
            Piece::Rook(_) => spec_walk_path(rook_dirs(), 7, current, target),
            Piece::Queen(_) => spec_walk_path(omni_dirs(), 7, current, target),
            Piece::King(_) => spec_once_path(omni_dirs(), current, target),
        }
    }

    /// Whether this piece offers a special move from `current` to `target`:
    /// only pawns do, along their forward diagonals.
    pub open spec fn spec_special_move(self, current: Position, target: Position) -> bool {
        self matches Piece::Pawn(p) && spec_en_passant_shape(p.spec_color(), current, target)
    }

    pub fn color(&self) -> (r: &Color)
        ensures
            *r == self.spec_color(),
    {
        match self {
            Piece::Pawn(p) => p.color(),
            Piece::Knight(p) => p.color(),
            Piece::Bishop(p) => p.color(),
            Piece::Rook(p) => p.color(),
            Piece::Queen(p) => p.color(),
            Piece::King(p) => p.color(),
        }
    }

    /// Whether this piece belongs to the player of color `color`.
    pub fn is_of_color(&self, color: Color) -> (r: bool)
        ensures
            r == (self.spec_color() == color),
    {
        *self.color() == color
    }

    /// The movement shape of this piece when standing on `current_position`.
    pub fn movement_pattern(&self, current_position: Position) -> (r: MoveOffsets)
        ensures
            match *self {
                Piece::Pawn(p) => if spec_on_starting_rank(p.color, current_position) {
                    r matches MoveOffsets::AppliableTwice(v) && v@ == pawn_forward_dirs(p.color)
                } else {
                    r matches MoveOffsets::AppliableOnce(v) && v@ == pawn_forward_dirs(p.color)
                },
                Piece::Knight(_) => r matches MoveOffsets::AppliableOnce(v) && v@ == knight_dirs(),
                Piece::Bishop(_) => r matches MoveOffsets::AppliableMultiple(v) && v@
                    == bishop_dirs(),
                Piece::Rook(_) => r matches MoveOffsets::AppliableMultiple(v) && v@ == rook_dirs(),
                Piece::Queen(_) => r matches MoveOffsets::AppliableMultiple(v) && v@
                    == omni_dirs(),
                Piece::King(_) => r matches MoveOffsets::AppliableOnce(v) && v@ == omni_dirs(),
            },
            forall|t: Position| r.spec_path(current_position, t) == self.spec_path(
                current_position,
                t,
            ),
    {
        match self {
            Piece::Pawn(p) => {
                let offsets = match p.color {
                    Color::White => vec![MoveDirection::Down],
                    Color::Black => vec![MoveDirection::Up],
                };
                proof {
                    assert(offsets@ =~= pawn_forward_dirs(p.spec_color()));
                }
                let on_start = match p.color {
                    Color::White => current_position.x() == 1,
                    Color::Black => current_position.x() == 6,
                };
                if on_start {
                    MoveOffsets::new_appliable_twice(offsets)
                } else {
                    MoveOffsets::new_appliable_once(offsets)
                }
            },
            Piece::Knight(_) => {
                let offsets = vec![
                    MoveDirection::KnightUpLeft,
                    MoveDirection::KnightUpRight,
                    MoveDirection::KnightDownLeft,
                    MoveDirection::KnightDownRight,
                    MoveDirection::KnightLeftUp,
                    MoveDirection::KnightLeftDown,
                    MoveDirection::KnightRightUp,
                    MoveDirection::KnightRightDown,
                ];
                proof {
                    assert(offsets@ =~= knight_dirs());
                }
                MoveOffsets::new_appliable_once(offsets)
            },
            Piece::Bishop(_) => {
                let offsets = vec![
                    MoveDirection::UpRight,
                    MoveDirection::UpLeft,
                    MoveDirection::DownRight,
                    MoveDirection::DownLeft,
                ];
                proof {
                    assert(offsets@ =~= bishop_dirs());
                }
                MoveOffsets::new_appliable_multiple(offsets)
            },
            Piece::Rook(_) => {
                let offsets = vec![
                    MoveDirection::Up,
                    MoveDirection::Down,
                    MoveDirection::Left,
                    MoveDirection::Right,
                ];
                proof {
                    assert(offsets@ =~= rook_dirs());
                }
                MoveOffsets::new_appliable_multiple(offsets)
            },
            Piece::Queen(_) => {
                let offsets = vec![
                    MoveDirection::Up,
                    MoveDirection::Down,
                    MoveDirection::Left,
                    MoveDirection::Right,
                    MoveDirection::UpLeft,
                    MoveDirection::UpRight,
                    MoveDirection::DownLeft,
                    MoveDirection::DownRight,
                ];
                proof {
                    assert(offsets@ =~= omni_dirs());
                }
                MoveOffsets::new_appliable_multiple(offsets)
            },
            Piece::King(_) => {
                let offsets = vec![
                    MoveDirection::Up,
                    MoveDirection::Down,
                    MoveDirection::Left,
                    MoveDirection::Right,
                    MoveDirection::UpLeft,
                    MoveDirection::UpRight,
                    MoveDirection::DownLeft,
                    MoveDirection::DownRight,
                ];
                proof {
                    assert(offsets@ =~= omni_dirs());
                }
                MoveOffsets::new_appliable_once(offsets)
            },
        }
    }

    /// The ordered squares this piece traverses moving from
    /// `current_position` to `target_position`, target included, or `None`
    /// when its movement shape cannot reach the target.
    pub fn get_path(&self, current_position: Position, target_position: Position) -> (r: Option<
        Vec<Position>,
    >)
        ensures
            match r {
                Some(v) => self.spec_path(current_position, target_position) == Some(v@),
                None => self.spec_path(current_position, target_position) is None,
            },
    {
        let pattern = self.movement_pattern(current_position);
        pattern.construct_path(current_position, target_position)
    }

    /// Reports this piece's special move from `current_position` to
    /// `target_position`, if it has one; board occupancy plays no part.
    pub fn can_reach_via_special_move(
        &self,
        current_position: Position,
        target_position: Position,
    ) -> (r: Result<SpecialMove, ()>)
        ensures
            self.spec_special_move(current_position, target_position) ==> r == Ok::<
                SpecialMove,
                (),
            >(SpecialMove::EnPassant(SpecialMoveValidationAction::EnemyPieceExists)),
            !self.spec_special_move(current_position, target_position) ==> r == Err::<
                SpecialMove,
                (),
            >(()),
    {
        match self {
            Piece::Pawn(p) => p.can_reach_via_special_move(current_position, target_position),
            _ => Err(()),
        }
    }

    /// The ordinary legality test: the movement shape must yield a path to
    /// `target_position`, every square of which `can_step_into_position`
    /// accepts. When the answer is `true`, the step predicate accepted every
    /// path square; when `false`, either no path exists or the predicate
    /// rejected some path square.
    pub fn can_reach<F: Fn(Position) -> bool>(
        &self,
        current_position: Position,
        target_position: Position,
        can_step_into_position: &F,
    ) -> (r: bool)
        requires
            forall|p: Position| #[trigger] call_requires(*can_step_into_position, (p,)),
        ensures
            ({
                let path = self.spec_path(current_position, target_position);
                &&& r ==> (path matches Some(sq) && all_steps_accepted(
                    *can_step_into_position,
                    sq,
                ))
                &&& !r ==> (path is None || (path matches Some(sq) && some_step_rejected(
                    *can_step_into_position,
                    sq,
                )))
            }),
    {
        let path = self.get_path(current_position, target_position);
        match path {
            None => false,
            Some(squares) => {
                let ghost sq = self.spec_path(current_position, target_position).unwrap();
                let mut i: usize = 0;
                while i < squares.len()
                    invariant
                        0 <= i <= squares@.len(),
                        squares@ == sq,
                        self.spec_path(current_position, target_position) == Some(sq),
                        forall|p: Position| #[trigger] call_requires(*can_step_into_position, (p,)),
                        forall|j: int|
                            0 <= j < i ==> call_ensures(
                                *can_step_into_position,
                                (#[trigger] sq[j],),
                                true,
                            ),
                    decreases squares@.len() - i,
                {
                    let allowed = can_step_into_position(squares[i]);
                    if !allowed {
                        proof {
                            assert(call_ensures(*can_step_into_position, (sq[i as int],), false));
                            assert(some_step_rejected(*can_step_into_position, sq));
                        }
                        return false;
                    }
                    i += 1;
                }
                proof {
                    assert(all_steps_accepted(*can_step_into_position, sq));
                }
                true
            },
        }
    }
}

} // verus!
