//! A cell position in a buffer.
use vstd::prelude::*;

verus! {

/// The position of a cell: column `x`, row `y`, both counted from zero.
#[derive(Clone, Copy, Default, Debug, PartialEq, Eq, Hash, Structural)]
pub struct Position {
    pub x: u16,
    pub y: u16,
}

impl Position {
    /// The origin, `(0, 0)`.
    pub fn zero() -> (p: Position)
        ensures
            p.x == 0,
            p.y == 0,
    {
        Position { x: 0, y: 0 }
    }

    pub fn new(x: u16, y: u16) -> (p: Position)
        ensures
            p.x == x,
            p.y == y,
    {
        Position { x, y }
    }

    /// Clamps each coordinate to the given maximum values.
    pub fn clamp(self, max_x: u16, max_y: u16) -> (p: Position)
        ensures
            p.x == if self.x <= max_x { self.x } else { max_x },
            p.y == if self.y <= max_y { self.y } else { max_y },
    {
        Position {
            x: if self.x <= max_x { self.x } else { max_x },
            y: if self.y <= max_y { self.y } else { max_y },
        }
    }

    /// Returns the position as a `(x, y)` tuple.
    pub fn as_tuple(self) -> (t: (u16, u16))
        ensures
            t == (self.x, self.y),
    {
        (self.x, self.y)
    }

    /// Whether the position lies inside `width x height` bounds.
    pub open spec fn spec_is_within(self, width: int, height: int) -> bool {
        self.x < width && self.y < height
    }

    /// Returns `true` if the position is inside a `width x height` bounds.
    pub fn is_within(self, width: u16, height: u16) -> (b: bool)
        ensures
            b == self.spec_is_within(width as int, height as int),
    {
        self.x < width && self.y < height
    }

    /// The row-major index of the position in a grid `width` cells wide.
    pub open spec fn spec_index(self, width: int) -> int {
        self.y * width + self.x
    }

    pub(crate) fn to_index(self, width: u16) -> (i: usize)
        ensures
            i == self.spec_index(width as int),
    {
        assert(self.y as int * width as int + self.x as int <= 0xFFFF_FFFF) by (nonlinear_arith)
            requires self.y <= 0xFFFF, width <= 0xFFFF, self.x <= 0xFFFF;
        self.y as usize * width as usize + self.x as usize
    }
}

} // verus!
