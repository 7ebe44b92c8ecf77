use vstd::prelude::*;

verus! {

/// The color of a player and of each piece that player owns.
#[derive(Clone, Copy, Debug, PartialEq, Eq, Structural)]
pub enum Color {
    White,
    Black,
}

impl Color {
    /// The opposing color.
    pub open spec fn spec_next(self) -> Color {
        match self {
            Color::White => Color::Black,
            Color::Black => Color::White,
        }
    }

    /// Returns the opposing color.
    pub fn next(&self) -> (r: Color)
        ensures
            r == self.spec_next(),
    {
        match self {
            Color::White => Color::Black,
            Color::Black => Color::White,
        }
    }
}

} // verus!
