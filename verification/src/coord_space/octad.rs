//! Positions and sizes in the octad grid: two columns and four rows per cell.
use vstd::prelude::*;

use crate::coord_space::div_toward_zero;
use crate::coord_space::blocktad::{BlocktadPosition, BlocktadSize};
use crate::coord_space::native::{NativePosition, NativeSize};
use crate::coord_space::twoxel::{TwoxelPosition, TwoxelSize};

verus! {

/// A position in the octad grid: two columns and four rows per cell.
#[derive(Clone, Copy, PartialEq, Eq, Structural)]
pub struct OctadPosition {
    pub x: i16,
    pub y: i16,
}

impl OctadPosition {
    pub fn new(x: i16, y: i16) -> (p: Self)
        ensures
            p.x == x,
            p.y == y,
    {
        Self { x, y }
    }

    pub fn x(&self) -> (x: i16)
        ensures
            x == self.x,
    {
        self.x
    }

    pub fn y(&self) -> (y: i16)
        ensures
            y == self.y,
    {
        self.y
    }

    /// The same position in the native space.
    pub fn to_native(self) -> (p: NativePosition)
        ensures
            p.x == div_toward_zero(self.x as int, 2),
            p.y == div_toward_zero(self.y as int, 4),
    {
        NativePosition::new(self.x / 2, self.y / 4)
    }

    /// The same position in the twoxel space.
    pub fn to_twoxel(self) -> (p: TwoxelPosition)
        ensures
            p.x == div_toward_zero(self.x as int, 2),
            p.y == div_toward_zero(self.y as int, 2),
    {
        TwoxelPosition::new(self.x / 2, self.y / 2)
    }

    /// The same position in the blocktad space.
    pub fn to_blocktad(self) -> (p: BlocktadPosition)
        ensures
            p.x == self.x,
            p.y == self.y,
    {
        BlocktadPosition::new(self.x, self.y)
    }
}

impl From<(i16, i16)> for OctadPosition {
    fn from(t: (i16, i16)) -> (p: Self) {
        Self { x: t.0, y: t.1 }
    }
}

impl vstd::std_specs::convert::FromSpecImpl<(i16, i16)> for OctadPosition {
    open spec fn obeys_from_spec() -> bool {
        true
    }

    open spec fn from_spec(t: (i16, i16)) -> Self {
        OctadPosition { x: t.0, y: t.1 }
    }
}

/// A size in the octad grid: two columns and four rows per cell.
#[derive(Clone, Copy, PartialEq, Eq, Structural)]
pub struct OctadSize {
    pub width: i16,
    pub height: i16,
}

impl OctadSize {
    pub fn new(width: i16, height: i16) -> (p: Self)
        ensures
            p.width == width,
            p.height == height,
    {
        Self { width, height }
    }

    pub fn width(&self) -> (w: i16)
        ensures
            w == self.width,
    {
        self.width
    }

    pub fn height(&self) -> (h: i16)
        ensures
            h == self.height,
    {
        self.height
    }

    /// The same size in the native space.
    pub fn to_native(self) -> (p: NativeSize)
        ensures
            p.width == div_toward_zero(self.width as int, 2),
            p.height == div_toward_zero(self.height as int, 4),
    {
        NativeSize::new(self.width / 2, self.height / 4)
    }

    /// The same size in the twoxel space.
    pub fn to_twoxel(self) -> (p: TwoxelSize)
        ensures
            p.width == div_toward_zero(self.width as int, 2),
            p.height == div_toward_zero(self.height as int, 2),
    {
        TwoxelSize::new(self.width / 2, self.height / 2)
    }

    /// The same size in the blocktad space.
    pub fn to_blocktad(self) -> (p: BlocktadSize)
        ensures
            p.width == self.width,
            p.height == self.height,
    {
        BlocktadSize::new(self.width, self.height)
    }
}

impl From<(i16, i16)> for OctadSize {
    fn from(t: (i16, i16)) -> (p: Self) {
        Self { width: t.0, height: t.1 }
    }
}

impl vstd::std_specs::convert::FromSpecImpl<(i16, i16)> for OctadSize {
    open spec fn obeys_from_spec() -> bool {
        true
    }

    open spec fn from_spec(t: (i16, i16)) -> Self {
        OctadSize { width: t.0, height: t.1 }
    }
}

} // verus!
