use vstd::string::StrSliceExecFns;
use crate::direction::MoveDirectionOffset;
use vstd::prelude::*;

verus! {

/// Number of files and ranks of the board.
pub const BOARD_SIZE: usize = 8;

/// True when `(x, y)` addresses a square of the 8x8 board.
pub open spec fn on_board(x: int, y: int) -> bool {
    0 <= x < 8 && 0 <= y < 8
}

/// A bounds-checked coordinate pair addressing one square of the board.
/// `x` is the rank index and `y` the file index, both in `[0, 8)`.
/// No `Position` value ever addresses an off-board square.
#[derive(Clone, Copy, Debug, PartialEq, Eq, Structural, PartialOrd, Ord, Hash)]
pub struct Position {
    x: usize,
    y: usize,
}

impl Position {
    /// Every `Position` value addresses an on-board square.
    #[verifier::type_invariant]
    pub closed spec fn inv(self) -> bool {
        self.x < 8 && self.y < 8
    }

    /// The rank coordinate as a mathematical integer.
    pub closed spec fn spec_x(self) -> int {
        self.x as int
    }

    /// The file coordinate as a mathematical integer.
    pub closed spec fn spec_y(self) -> int {
        self.y as int
    }

    /// Constructs a position, rejecting out-of-range coordinates.
    pub fn new(x: usize, y: usize) -> (r: Result<Self, ()>)
        ensures
            x < 8 && y < 8 ==> (r matches Ok(p) && p.spec_x() == x && p.spec_y() == y),
            !(x < 8 && y < 8) ==> r is Err,
    {
        if x >= BOARD_SIZE || y >= BOARD_SIZE {
            return Err(());
        }
        Ok(Position { x, y })
    }

    /// The rank coordinate.
    pub fn x(&self) -> (r: usize)
        ensures
            r == self.spec_x(),
    {
        self.x
    }

    /// The file coordinate.
    pub fn y(&self) -> (r: usize)
        ensures
            r == self.spec_y(),
    {
        self.y
    }

    /// Parses a two-character square address: a rank digit (`'1'` up)
    /// followed by a file letter (`'A'` up). Anything else of length two
    /// is out of this parser's domain; other lengths are rejected.
    pub fn from_str(position: &str) -> (r: Result<Self, String>)
        requires
            position@.len() == 2 ==> ('1' as int <= position@[0] as int <= '9' as int && 'A' as int
                <= position@[1] as int <= 255),
        ensures
            position@.len() != 2 ==> (r matches Err(e) && e@ == "Invalid position format"@),
            position@.len() == 2 ==> ({
                let x = position@[0] as int - '1' as int;
                let y = position@[1] as int - 'A' as int;
                if on_board(x, y) {
                    r matches Ok(p) && p.spec_x() == x && p.spec_y() == y
                } else {
                    r matches Err(e) && e@ == "Position out of bounds"@
                }
            }),
    {
        let len = position.unicode_len();
        if len != 2 {
            return Err("Invalid position format".to_owned());
        }
        let c0 = position.get_char(0);
        let c1 = position.get_char(1);
        let x = (c0 as u32 - '1' as u32) as usize;
        let y = (c1 as u32 - 'A' as u32) as usize;
        match Position::new(x, y) {
            Ok(p) => Ok(p),
            Err(_) => Err("Position out of bounds".to_owned()),
        }
    }
}

impl Position {
    /// The square reached by applying `off` once, or `None` when that
    /// square lies off the board.
    pub open spec fn spec_offset_by(self, off: MoveDirectionOffset) -> Option<Position> {
        if on_board(self.spec_x() + off.dx as int, self.spec_y() + off.dy as int) {
            Some(pos_at(self.spec_x() + off.dx as int, self.spec_y() + off.dy as int))
        } else {
            None
        }
    }

    /// Applies `off` once, returning `None` when the result leaves the board.
    pub fn offset_by(self, off: MoveDirectionOffset) -> (r: Option<Position>)
        ensures
            r == self.spec_offset_by(off),
    {
        proof {
            use_type_invariant(self);
        }
        let nx: i64 = self.x as i64 + off.dx as i64;
        let ny: i64 = self.y as i64 + off.dy as i64;
        if nx >= 0 && nx < 8 && ny >= 0 && ny < 8 {
            Some(Position { x: nx as usize, y: ny as usize })
        } else {
            None
        }
    }
}

/// The position with the given coordinates; meaningful when `on_board(x, y)`.
pub closed spec fn pos_at(x: int, y: int) -> Position {
    Position { x: x as usize, y: y as usize }
}

/// Every position is on the board, and `pos_at` inverts its coordinates.
pub broadcast proof fn lemma_pos_at_coords(x: int, y: int)
    requires
        on_board(x, y),
    ensures
        (#[trigger] pos_at(x, y)).spec_x() == x,
        pos_at(x, y).spec_y() == y,
{
}

/// What the position invariant means: the coordinates are on the board.
pub broadcast proof fn lemma_inv_on_board(p: Position)
    requires
        #[trigger] p.inv(),
    ensures
        on_board(p.spec_x(), p.spec_y()),
{
}

/// A position is determined by its coordinates.
pub broadcast proof fn lemma_pos_ext(p: Position)
    ensures
        #[trigger] pos_at(p.spec_x(), p.spec_y()) == p,
{
}

} // verus!
