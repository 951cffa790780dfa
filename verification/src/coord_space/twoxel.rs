//! Positions and sizes in the twoxel grid: one column and two rows per cell.
use vstd::prelude::*;

use crate::coord_space::div_toward_zero;
use crate::coord_space::blocktad::{BlocktadPosition, BlocktadSize};
use crate::coord_space::native::{NativePosition, NativeSize};
use crate::coord_space::octad::{OctadPosition, OctadSize};

verus! {

/// A position in the twoxel grid: one column and two rows per cell.
#[derive(Clone, Copy, PartialEq, Eq, Structural)]
pub struct TwoxelPosition {
    pub x: i16,
    pub y: i16,
}

impl TwoxelPosition {
    pub fn new(x: i16, y: i16) -> (p: Self)
        ensures
            p.x == x,
            p.y == y,
    {
        Self { x, y }
    }

    pub fn x(&self) -> (x: i16)
        ensures
            x == self.x,
    {
        self.x
    }

    pub fn y(&self) -> (y: i16)
        ensures
            y == self.y,
    {
        self.y
    }

    /// The same position in the native space.
    pub fn to_native(self) -> (p: NativePosition)
        ensures
            p.x == self.x,
            p.y == div_toward_zero(self.y as int, 2),
    {
        NativePosition::new(self.x, self.y / 2)
    }

    /// The same position in the octad space.
    pub fn to_octad(self) -> (p: OctadPosition)
        requires
            i16::MIN <= self.x * 2 <= i16::MAX,
            i16::MIN <= self.y * 2 <= i16::MAX,
        ensures
            p.x == self.x * 2,
            p.y == self.y * 2,
    {
        OctadPosition::new(self.x * 2, self.y * 2)
    }

    /// The same position in the blocktad space.
    pub fn to_blocktad(self) -> (p: BlocktadPosition)
        requires
            i16::MIN <= self.x * 2 <= i16::MAX,
            i16::MIN <= self.y * 2 <= i16::MAX,
        ensures
            p.x == self.x * 2,
            p.y == self.y * 2,
    {
        BlocktadPosition::new(self.x * 2, self.y * 2)
    }
}

impl From<(i16, i16)> for TwoxelPosition {
    fn from(t: (i16, i16)) -> (p: Self) {
        Self { x: t.0, y: t.1 }
    }
}

impl vstd::std_specs::convert::FromSpecImpl<(i16, i16)> for TwoxelPosition {
    open spec fn obeys_from_spec() -> bool {
        true
    }

    open spec fn from_spec(t: (i16, i16)) -> Self {
        TwoxelPosition { x: t.0, y: t.1 }
    }
}

/// A size in the twoxel grid: one column and two rows per cell.
#[derive(Clone, Copy, PartialEq, Eq, Structural)]
pub struct TwoxelSize {
    pub width: i16,
    pub height: i16,
}

impl TwoxelSize {
    pub fn new(width: i16, height: i16) -> (p: Self)
        ensures
            p.width == width,
            p.height == height,
    {
        Self { width, height }
    }

    pub fn width(&self) -> (w: i16)
        ensures
            w == self.width,
    {
        self.width
    }

    pub fn height(&self) -> (h: i16)
        ensures
            h == self.height,
    {
        self.height
    }

    /// The same size in the native space.
    pub fn to_native(self) -> (p: NativeSize)
        ensures
            p.width == self.width,
            p.height == div_toward_zero(self.height as int, 2),
    {
        NativeSize::new(self.width, self.height / 2)
    }

    /// The same size in the octad space.
    pub fn to_octad(self) -> (p: OctadSize)
        requires
            i16::MIN <= self.width * 2 <= i16::MAX,
            i16::MIN <= self.height * 2 <= i16::MAX,
        ensures
            p.width == self.width * 2,
            p.height == self.height * 2,
    {
        OctadSize::new(self.width * 2, self.height * 2)
    }

    /// The same size in the blocktad space.
    pub fn to_blocktad(self) -> (p: BlocktadSize)
        requires
            i16::MIN <= self.width * 2 <= i16::MAX,
            i16::MIN <= self.height * 2 <= i16::MAX,
        ensures
            p.width == self.width * 2,
            p.height == self.height * 2,
    {
        BlocktadSize::new(self.width * 2, self.height * 2)
    }
}

impl From<(i16, i16)> for TwoxelSize {
    fn from(t: (i16, i16)) -> (p: Self) {
        Self { width: t.0, height: t.1 }
    }
}

impl vstd::std_specs::convert::FromSpecImpl<(i16, i16)> for TwoxelSize {
    open spec fn obeys_from_spec() -> bool {
        true
    }

    open spec fn from_spec(t: (i16, i16)) -> Self {
        TwoxelSize { width: t.0, height: t.1 }
    }
}

} // verus!
