use vstd::prelude::*;

verus! {

/// A signed coordinate offset `(dx, dy)` of one application of a direction.
#[derive(PartialEq, Eq, Structural, Debug, Clone, Copy)]
pub struct MoveDirectionOffset {
    pub dx: i32,
    pub dy: i32,
}

/// The closed vocabulary of unit and knight-shaped directions.
#[derive(PartialEq, Eq, Structural, Debug, Clone, Copy)]
pub enum MoveDirection {
    Up,
    Down,
    Left,
    Right,
    UpLeft,
    UpRight,
    DownLeft,
    DownRight,
    KnightUpLeft,
    KnightUpRight,
    KnightDownLeft,
    KnightDownRight,
    KnightLeftUp,
    KnightLeftDown,
    KnightRightUp,
    KnightRightDown,
}

/// The rank component of a direction's fixed offset.
pub open spec fn spec_dx(d: MoveDirection) -> int {
    match d {
        MoveDirection::Up => -1,
        MoveDirection::Down => 1,
        MoveDirection::Left => 0,
        MoveDirection::Right => 0,
        MoveDirection::UpLeft => -1,
        MoveDirection::UpRight => -1,
        MoveDirection::DownLeft => 1,
        MoveDirection::DownRight => 1,
        MoveDirection::KnightUpLeft => -2,
        MoveDirection::KnightUpRight => -2,
        MoveDirection::KnightDownLeft => 2,
        MoveDirection::KnightDownRight => 2,
        MoveDirection::KnightLeftUp => -1,
        MoveDirection::KnightLeftDown => 1,
        MoveDirection::KnightRightUp => -1,
        MoveDirection::KnightRightDown => 1,
    }
}

/// The file component of a direction's fixed offset.
pub open spec fn spec_dy(d: MoveDirection) -> int {
    match d {
        MoveDirection::Up => 0,
        MoveDirection::Down => 0,
        MoveDirection::Left => -1,
        MoveDirection::Right => 1,
        MoveDirection::UpLeft => -1,
        MoveDirection::UpRight => 1,
        MoveDirection::DownLeft => -1,
        MoveDirection::DownRight => 1,
        MoveDirection::KnightUpLeft => -1,
        MoveDirection::KnightUpRight => 1,
        MoveDirection::KnightDownLeft => -1,
        MoveDirection::KnightDownRight => 1,
        MoveDirection::KnightLeftUp => -2,
        MoveDirection::KnightLeftDown => -2,
        MoveDirection::KnightRightUp => 2,
        MoveDirection::KnightRightDown => 2,
    }
}

/// The direction whose fixed offset is `(dx, dy)`, if one exists.
/// This is the inverse of the `spec_dx`/`spec_dy` mapping; offsets
/// outside the vocabulary (such as `(2, 2)` or `(0, 0)`) map to `None`.
pub open spec fn spec_from_offset(dx: int, dy: int) -> Option<MoveDirection> {
    if dx == -1 && dy == 0 {
        Some(MoveDirection::Up)
    } else if dx == 1 && dy == 0 {
        Some(MoveDirection::Down)
    } else if dx == 0 && dy == -1 {
        Some(MoveDirection::Left)
    } else if dx == 0 && dy == 1 {
        Some(MoveDirection::Right)
    } else if dx == -1 && dy == -1 {
        Some(MoveDirection::UpLeft)
    } else if dx == -1 && dy == 1 {
        Some(MoveDirection::UpRight)
    } else if dx == 1 && dy == -1 {
        Some(MoveDirection::DownLeft)
    } else if dx == 1 && dy == 1 {
        Some(MoveDirection::DownRight)
    } else if dx == -2 && dy == -1 {
        Some(MoveDirection::KnightUpLeft)
    } else if dx == -2 && dy == 1 {
        Some(MoveDirection::KnightUpRight)
    } else if dx == 2 && dy == -1 {
        Some(MoveDirection::KnightDownLeft)
    } else if dx == 2 && dy == 1 {
        Some(MoveDirection::KnightDownRight)
    } else if dx == -1 && dy == -2 {
        Some(MoveDirection::KnightLeftUp)
    } else if dx == 1 && dy == -2 {
        Some(MoveDirection::KnightLeftDown)
    } else if dx == -1 && dy == 2 {
        Some(MoveDirection::KnightRightUp)
    } else if dx == 1 && dy == 2 {
        Some(MoveDirection::KnightRightDown)
    } else {
        None
    }
}

/// `spec_from_offset` is a two-sided inverse of the offset of a direction.
pub broadcast proof fn lemma_offset_roundtrip(d: MoveDirection)
    ensures
        #![trigger spec_dx(d), spec_dy(d)]
        spec_from_offset(spec_dx(d), spec_dy(d)) == Some(d),
{
}

/// A matched offset determines the direction's components.
pub broadcast proof fn lemma_from_offset_inverse(dx: int, dy: int)
    ensures
        (#[trigger] spec_from_offset(dx, dy)) matches Some(d) ==> spec_dx(d) == dx && spec_dy(d)
            == dy,
{
}

/// No direction has a zero offset.
pub broadcast proof fn lemma_offset_nonzero(d: MoveDirection)
    ensures
        !(#[trigger] spec_dx(d) == 0 && #[trigger] spec_dy(d) == 0),
        -2 <= spec_dx(d) <= 2,
        -2 <= spec_dy(d) <= 2,
{
}

impl MoveDirection {
    /// The fixed `(dx, dy)` offset of one application of this direction.
    pub fn to_offset(&self) -> (r: MoveDirectionOffset)
        ensures
            r.dx == spec_dx(*self),
            r.dy == spec_dy(*self),
    {
        match self {
            MoveDirection::Up => MoveDirectionOffset { dx: -1, dy: 0 },
            MoveDirection::Down => MoveDirectionOffset { dx: 1, dy: 0 },
            MoveDirection::Left => MoveDirectionOffset { dx: 0, dy: -1 },
            MoveDirection::Right => MoveDirectionOffset { dx: 0, dy: 1 },
            MoveDirection::UpLeft => MoveDirectionOffset { dx: -1, dy: -1 },
            MoveDirection::UpRight => MoveDirectionOffset { dx: -1, dy: 1 },
            MoveDirection::DownLeft => MoveDirectionOffset { dx: 1, dy: -1 },
            MoveDirection::DownRight => MoveDirectionOffset { dx: 1, dy: 1 },
            MoveDirection::KnightUpLeft => MoveDirectionOffset { dx: -2, dy: -1 },
            MoveDirection::KnightUpRight => MoveDirectionOffset { dx: -2, dy: 1 },
            MoveDirection::KnightDownLeft => MoveDirectionOffset { dx: 2, dy: -1 },
            MoveDirection::KnightDownRight => MoveDirectionOffset { dx: 2, dy: 1 },
            MoveDirection::KnightLeftUp => MoveDirectionOffset { dx: -1, dy: -2 },
            MoveDirection::KnightLeftDown => MoveDirectionOffset { dx: 1, dy: -2 },
            MoveDirection::KnightRightUp => MoveDirectionOffset { dx: -1, dy: 2 },
            MoveDirection::KnightRightDown => MoveDirectionOffset { dx: 1, dy: 2 },
        }
    }

    /// The direction whose offset is `offset`, or `None` for unmapped offsets.
    pub fn from_offset(offset: MoveDirectionOffset) -> (r: Option<Self>)
        ensures
            r == spec_from_offset(offset.dx as int, offset.dy as int),
    {
        match offset {
            MoveDirectionOffset { dx: -1, dy: 0 } => Some(MoveDirection::Up),
            MoveDirectionOffset { dx: 1, dy: 0 } => Some(MoveDirection::Down),
            MoveDirectionOffset { dx: 0, dy: -1 } => Some(MoveDirection::Left),
            MoveDirectionOffset { dx: 0, dy: 1 } => Some(MoveDirection::Right),
            MoveDirectionOffset { dx: -1, dy: -1 } => Some(MoveDirection::UpLeft),
            MoveDirectionOffset { dx: -1, dy: 1 } => Some(MoveDirection::UpRight),
            MoveDirectionOffset { dx: 1, dy: -1 } => Some(MoveDirection::DownLeft),
            MoveDirectionOffset { dx: 1, dy: 1 } => Some(MoveDirection::DownRight),
            MoveDirectionOffset { dx: -2, dy: -1 } => Some(MoveDirection::KnightUpLeft),
            MoveDirectionOffset { dx: -2, dy: 1 } => Some(MoveDirection::KnightUpRight),
            MoveDirectionOffset { dx: 2, dy: -1 } => Some(MoveDirection::KnightDownLeft),
            MoveDirectionOffset { dx: 2, dy: 1 } => Some(MoveDirection::KnightDownRight),
            MoveDirectionOffset { dx: -1, dy: -2 } => Some(MoveDirection::KnightLeftUp),
            MoveDirectionOffset { dx: 1, dy: -2 } => Some(MoveDirection::KnightLeftDown),
            MoveDirectionOffset { dx: -1, dy: 2 } => Some(MoveDirection::KnightRightUp),
            MoveDirectionOffset { dx: 1, dy: 2 } => Some(MoveDirection::KnightRightDown),
            _ => None,
        }
    }
}

/// The check a special move's validator must run against the target square.
#[derive(Hash, Eq, PartialEq, Structural, Debug, Clone, Copy)]
pub enum SpecialMoveValidationAction {
    EnemyPieceExists,
}

/// A move legal by a rule other than the piece's ordinary movement shape,
/// tagged with the validation its acceptance requires.
#[derive(Hash, Eq, PartialEq, Structural, Debug, Clone, Copy)]
pub enum SpecialMove {
    EnPassant(SpecialMoveValidationAction),
}

} // verus!
