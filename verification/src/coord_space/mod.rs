//! Coordinate spaces: the native grid of terminal cells and the finer
//! sub-cell grids (twoxel, octad, blocktad), with conversions between them.
use vstd::prelude::*;

pub mod blocktad;
pub mod conversion;
pub mod native;
pub mod octad;
pub mod position;
pub mod size;
pub mod twoxel;

verus! {

/// Integer division rounded toward zero, as Rust's `/` on signed integers does.
pub open spec fn div_toward_zero(a: int, b: int) -> int {
    if a >= 0 {
        a / b
    } else {
        -((-a) / b)
    }
}

/// The remainder of integer division rounded toward zero, as Rust's `%` on
/// signed integers gives it.
pub open spec fn rem_toward_zero(a: int, b: int) -> int {
    if a >= 0 {
        a % b
    } else {
        -((-a) % b)
    }
}

/// Whether `v` fits in an `i16`.
pub open spec fn fits_i16(v: int) -> bool {
    i16::MIN <= v <= i16::MAX
}

/// Whether an `i16` `x` can be divided by `d`: `d` is not zero and the
/// quotient fits.
pub open spec fn divides_i16(x: i16, d: i16) -> bool {
    d != 0 && !(x == i16::MIN && d == -1)
}

/// A coordinate space and the scalar types of its axes.
pub trait CoordinateSpace {
    type X: Copy;
    type Y: Copy;
}

/// The twoxel space: two vertical sub-cells per terminal cell.
#[derive(Copy, Clone)]
pub struct Twoxel;

/// The octad space: a 2x4 grid of braille dots per terminal cell.
#[derive(Copy, Clone)]
pub struct Octad;

/// The blocktad space: a 2x4 grid of block sub-cells per terminal cell.
#[derive(Copy, Clone)]
pub struct Blocktad;

impl CoordinateSpace for Twoxel {
    type X = i16;
    type Y = i16;
}

impl CoordinateSpace for Octad {
    type X = i16;
    type Y = i16;
}

impl CoordinateSpace for Blocktad {
    type X = i16;
    type Y = i16;
}

} // verus!
