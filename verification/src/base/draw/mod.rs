//! Geometry of buffers: positions, sizes and rectangles, and the drawing
//! primitives built on them.
use vstd::prelude::*;

pub mod gfx;
pub mod position;

pub use position::Position;

verus! {

/// Which axes of a position fell outside a buffer.
#[derive(Clone, Copy, Debug, PartialEq, Eq, Structural)]
pub enum ErrorOutOfBoundsAxises {
    /// Only the column is out of bounds.
    X,
    /// Only the row is out of bounds.
    Y,
    /// Both the column and the row are out of bounds.
    XY,
}

/// The size of a buffer or an area, in cells.
#[derive(Clone, Copy, Default, Debug, PartialEq, Eq, Hash, Structural)]
pub struct Size {
    pub width: u16,
    pub height: u16,
}

impl Size {
    /// The empty size, `0 x 0`.
    pub fn zero() -> (s: Size)
        ensures
            s.width == 0,
            s.height == 0,
    {
        Size { width: 0, height: 0 }
    }

    pub fn new(width: u16, height: u16) -> (s: Size)
        ensures
            s.width == width,
            s.height == height,
    {
        Size { width, height }
    }

    /// The number of cells.
    pub open spec fn spec_area(self) -> int {
        self.width * self.height
    }

    /// The number of cells, `width * height`.
    pub fn area(self) -> (a: u32)
        ensures
            a == self.spec_area(),
    {
        assert(self.width as int * self.height as int <= 0xFFFF_FFFF) by (nonlinear_arith)
            requires self.width <= 0xFFFF, self.height <= 0xFFFF;
        self.width as u32 * self.height as u32
    }

    /// Whether `pos` names a cell of this size.
    pub open spec fn spec_is_within(self, pos: Position) -> bool {
        pos.x < self.width && pos.y < self.height
    }

    /// Returns `true` if `pos` names a cell of this size.
    pub fn is_within(self, pos: Position) -> (b: bool)
        ensures
            b == self.spec_is_within(pos),
    {
        pos.x < self.width && pos.y < self.height
    }

    /// The axes on which `pos` falls outside this size, if any.
    pub open spec fn spec_contains(self, pos: Position) -> Result<(), ErrorOutOfBoundsAxises> {
        if pos.x >= self.width && pos.y >= self.height {
            Err(ErrorOutOfBoundsAxises::XY)
        } else if pos.x >= self.width {
            Err(ErrorOutOfBoundsAxises::X)
        } else if pos.y >= self.height {
            Err(ErrorOutOfBoundsAxises::Y)
        } else {
            Ok(())
        }
    }

    /// `Ok` if `pos` names a cell of this size, otherwise the axes on which it
    /// falls outside.
    pub fn contains(self, pos: Position) -> (r: Result<(), ErrorOutOfBoundsAxises>)
        ensures
            r == self.spec_contains(pos),
            r is Ok <==> self.spec_is_within(pos),
    {
        let out_x = pos.x >= self.width;
        let out_y = pos.y >= self.height;
        if out_x && out_y {
            Err(ErrorOutOfBoundsAxises::XY)
        } else if out_x {
            Err(ErrorOutOfBoundsAxises::X)
        } else if out_y {
            Err(ErrorOutOfBoundsAxises::Y)
        } else {
            Ok(())
        }
    }

    /// Whether every cell of `area` lies inside this size.
    pub open spec fn spec_area_is_within(self, area: Rect) -> bool {
        area.pos.x + area.size.width <= self.width && area.pos.y + area.size.height <= self.height
    }

    /// Returns `true` if every cell of `area` lies inside this size.
    pub fn area_is_within(self, area: Rect) -> (b: bool)
        ensures
            b == self.spec_area_is_within(area),
    {
        (area.pos.x as u32 + area.size.width as u32) <= self.width as u32
            && (area.pos.y as u32 + area.size.height as u32) <= self.height as u32
    }
}

/// A rectangular area: its top left cell and its size.
#[derive(Clone, Copy, Default, Debug, PartialEq, Eq, Hash, Structural)]
pub struct Rect {
    pub pos: Position,
    pub size: Size,
}

impl Rect {
    pub fn new(pos: Position, size: Size) -> (r: Rect)
        ensures
            r.pos == pos,
            r.size == size,
    {
        Rect { pos, size }
    }
}

} // verus!
