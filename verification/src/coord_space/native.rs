//! Positions and sizes in the native terminal cell grid.
use vstd::prelude::*;

use crate::coord_space::div_toward_zero;
use crate::coord_space::CoordinateSpace;
use crate::coord_space::octad::OctadPosition;

verus! {

/// The native space: one unit per terminal cell.
#[derive(Copy, Clone)]
pub struct Native;

impl CoordinateSpace for Native {
    type X = i16;
    type Y = i16;
}

/// A position in the native terminal cell grid.
#[derive(Clone, Copy, PartialEq, Eq, Structural)]
pub struct NativePosition {
    pub x: i16,
    pub y: i16,
}

impl NativePosition {
    pub fn new(x: i16, y: i16) -> (p: Self)
        ensures
            p.x == x,
            p.y == y,
    {
        Self { x, y }
    }

    pub fn as_tuple(self) -> (t: (i16, i16))
        ensures
            t == (self.x, self.y),
    {
        (self.x, self.y)
    }

    /// Moves by `dx` along the first axis.
    pub fn offset_x(self, dx: i16) -> (p: Self)
        requires
            i16::MIN <= self.x + dx <= i16::MAX,
        ensures
            p.x == self.x + dx,
            p.y == self.y,
    {
        Self::new(self.x + dx, self.y)
    }

    /// Moves by `dy` along the second axis.
    pub fn offset_y(self, dy: i16) -> (p: Self)
        requires
            i16::MIN <= self.y + dy <= i16::MAX,
        ensures
            p.x == self.x,
            p.y == self.y + dy,
    {
        Self::new(self.x, self.y + dy)
    }

    /// Moves by `dx` and `dy`.
    pub fn offset_xy(self, dx: i16, dy: i16) -> (p: Self)
        requires
            i16::MIN <= self.x + dx <= i16::MAX,
            i16::MIN <= self.y + dy <= i16::MAX,
        ensures
            p.x == self.x + dx,
            p.y == self.y + dy,
    {
        Self::new(self.x + dx, self.y + dy)
    }
}

impl From<(i16, i16)> for NativePosition {
    fn from(t: (i16, i16)) -> (p: Self) {
        Self { x: t.0, y: t.1 }
    }
}

impl vstd::std_specs::convert::FromSpecImpl<(i16, i16)> for NativePosition {
    open spec fn obeys_from_spec() -> bool {
        true
    }

    open spec fn from_spec(t: (i16, i16)) -> Self {
        NativePosition { x: t.0, y: t.1 }
    }
}

/// A size in the native terminal cell grid.
#[derive(Clone, Copy, PartialEq, Eq, Structural)]
pub struct NativeSize {
    pub width: i16,
    pub height: i16,
}

impl NativeSize {
    pub fn new(width: i16, height: i16) -> (p: Self)
        ensures
            p.width == width,
            p.height == height,
    {
        Self { width, height }
    }

    pub fn as_tuple(self) -> (t: (i16, i16))
        ensures
            t == (self.width, self.height),
    {
        (self.width, self.height)
    }

    /// Grows by `dw` along the first axis.
    pub fn offset_w(self, dw: i16) -> (p: Self)
        requires
            i16::MIN <= self.width + dw <= i16::MAX,
        ensures
            p.width == self.width + dw,
            p.height == self.height,
    {
        Self::new(self.width + dw, self.height)
    }

    /// Grows by `dh` along the second axis.
    pub fn offset_h(self, dh: i16) -> (p: Self)
        requires
            i16::MIN <= self.height + dh <= i16::MAX,
        ensures
            p.width == self.width,
            p.height == self.height + dh,
    {
        Self::new(self.width, self.height + dh)
    }

    /// Grows by `dw` and `dh`.
    pub fn offset_wh(self, dw: i16, dh: i16) -> (p: Self)
        requires
            i16::MIN <= self.width + dw <= i16::MAX,
            i16::MIN <= self.height + dh <= i16::MAX,
        ensures
            p.width == self.width + dw,
            p.height == self.height + dh,
    {
        Self::new(self.width + dw, self.height + dh)
    }
}

impl From<(i16, i16)> for NativeSize {
    fn from(t: (i16, i16)) -> (p: Self) {
        Self { width: t.0, height: t.1 }
    }
}

impl vstd::std_specs::convert::FromSpecImpl<(i16, i16)> for NativeSize {
    open spec fn obeys_from_spec() -> bool {
        true
    }

    open spec fn from_spec(t: (i16, i16)) -> Self {
        NativeSize { width: t.0, height: t.1 }
    }
}

impl From<OctadPosition> for NativePosition {
    fn from(pos: OctadPosition) -> (p: Self) {
        NativePosition::new(pos.x / 2, pos.y / 4)
    }
}

impl vstd::std_specs::convert::FromSpecImpl<OctadPosition> for NativePosition {
    open spec fn obeys_from_spec() -> bool {
        true
    }

    open spec fn from_spec(pos: OctadPosition) -> Self {
        NativePosition {
            x: div_toward_zero(pos.x as int, 2) as i16,
            y: div_toward_zero(pos.y as int, 4) as i16,
        }
    }
}

} // verus!
