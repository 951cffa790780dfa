//! Conversions of 2D values between coordinate spaces, one axis at a time.
use vstd::prelude::*;

use crate::coord_space::div_toward_zero;
use crate::coord_space::position::Position;

verus! {

/// A 2D value whose two components can be read, rebuilt and mapped.
pub trait CoordinateSpaceConvert: Sized {
    type Scalar;

    spec fn spec_x(&self) -> Self::Scalar;

    spec fn spec_y(&self) -> Self::Scalar;

    fn x(&self) -> (r: Self::Scalar)
        ensures
            r == self.spec_x(),
    ;

    fn y(&self) -> (r: Self::Scalar)
        ensures
            r == self.spec_y(),
    ;

    fn from_xy(x: Self::Scalar, y: Self::Scalar) -> (r: Self)
        ensures
            r.spec_x() == x,
            r.spec_y() == y,
    ;

    /// Maps the first component with `fx` and the second with `fy`.
    fn convert<F, G>(self, fx: F, fy: G) -> (r: Self)
        where
            F: FnOnce(Self::Scalar) -> Self::Scalar,
            G: FnOnce(Self::Scalar) -> Self::Scalar,
        requires
            call_requires(fx, (self.spec_x(),)),
            call_requires(fy, (self.spec_y(),)),
        ensures
            call_ensures(fx, (self.spec_x(),), r.spec_x()),
            call_ensures(fy, (self.spec_y(),), r.spec_y()),
    {
        let x = self.x();
        let y = self.y();
        Self::from_xy(fx(x), fy(y))
    }
}

impl<T: Copy> CoordinateSpaceConvert for Position<T> {
    type Scalar = T;

    open spec fn spec_x(&self) -> T {
        self.x
    }

    open spec fn spec_y(&self) -> T {
        self.y
    }

    fn x(&self) -> (r: T) {
        self.x
    }

    fn y(&self) -> (r: T) {
        self.y
    }

    fn from_xy(x: T, y: T) -> (r: Self) {
        Position::new(x, y)
    }
}

/// Native cell coordinates to twoxel coordinates: rows double.
pub fn native_to_twoxel(position: Position<i16>) -> (r: Position<i16>)
    requires
        i16::MIN <= position.y * 2 <= i16::MAX,
    ensures
        r.x == position.x,
        r.y == position.y * 2,
{
    let keep = |x: i16| -> (r: i16)
        ensures
            r == x,
    {
        x
    };
    let double = |y: i16| -> (r: i16)
        requires
            i16::MIN <= y * 2 <= i16::MAX,
        ensures
            r == y * 2,
    {
        y * 2
    };
    position.convert(keep, double)
}

/// Native cell coordinates to octad coordinates: two columns and four rows per cell.
pub fn native_to_octad(position: Position<i16>) -> (r: Position<i16>)
    requires
        i16::MIN <= position.x * 2 <= i16::MAX,
        i16::MIN <= position.y * 4 <= i16::MAX,
    ensures
        r.x == position.x * 2,
        r.y == position.y * 4,
{
    let fx = |x: i16| -> (r: i16)
        requires
            i16::MIN <= x * 2 <= i16::MAX,
        ensures
            r == x * 2,
    {
        x * 2
    };
    let fy = |y: i16| -> (r: i16)
        requires
            i16::MIN <= y * 4 <= i16::MAX,
        ensures
            r == y * 4,
    {
        y * 4
    };
    position.convert(fx, fy)
}

/// Native cell coordinates to blocktad coordinates: two columns and four rows per cell.
pub fn native_to_blocktad(position: Position<i16>) -> (r: Position<i16>)
    requires
        i16::MIN <= position.x * 2 <= i16::MAX,
        i16::MIN <= position.y * 4 <= i16::MAX,
    ensures
        r.x == position.x * 2,
        r.y == position.y * 4,
{
    let fx = |x: i16| -> (r: i16)
        requires
            i16::MIN <= x * 2 <= i16::MAX,
        ensures
            r == x * 2,
    {
        x * 2
    };
    let fy = |y: i16| -> (r: i16)
        requires
            i16::MIN <= y * 4 <= i16::MAX,
        ensures
            r == y * 4,
    {
        y * 4
    };
    position.convert(fx, fy)
}

/// Twoxel coordinates to native cell coordinates: rows halve, rounding toward zero.
pub fn twoxel_to_native(position: Position<i16>) -> (r: Position<i16>)
    ensures
        r.x == position.x,
        r.y == div_toward_zero(position.y as int, 2),
{
    let fx = |x: i16| -> (r: i16)
        ensures
            r == x,
    {
        x
    };
    let fy = |y: i16| -> (r: i16)
        ensures
            r == div_toward_zero(y as int, 2),
    {
        y / 2
    };
    position.convert(fx, fy)
}

/// Twoxel coordinates to octad coordinates: both axes double.
pub fn twoxel_to_octad(position: Position<i16>) -> (r: Position<i16>)
    requires
        i16::MIN <= position.x * 2 <= i16::MAX,
        i16::MIN <= position.y * 2 <= i16::MAX,
    ensures
        r.x == position.x * 2,
        r.y == position.y * 2,
{
    let fx = |x: i16| -> (r: i16)
        requires
            i16::MIN <= x * 2 <= i16::MAX,
        ensures
            r == x * 2,
    {
        x * 2
    };
    let fy = |y: i16| -> (r: i16)
        requires
            i16::MIN <= y * 2 <= i16::MAX,
        ensures
            r == y * 2,
    {
        y * 2
    };
    position.convert(fx, fy)
}

/// Twoxel coordinates to blocktad coordinates: both axes double.
pub fn twoxel_to_blocktad(position: Position<i16>) -> (r: Position<i16>)
    requires
        i16::MIN <= position.x * 2 <= i16::MAX,
        i16::MIN <= position.y * 2 <= i16::MAX,
    ensures
        r.x == position.x * 2,
        r.y == position.y * 2,
{
    let fx = |x: i16| -> (r: i16)
        requires
            i16::MIN <= x * 2 <= i16::MAX,
        ensures
            r == x * 2,
    {
        x * 2
    };
    let fy = |y: i16| -> (r: i16)
        requires
            i16::MIN <= y * 2 <= i16::MAX,
        ensures
            r == y * 2,
    {
        y * 2
    };
    position.convert(fx, fy)
}

/// Scaling a coordinate up by a conversion factor and back down gives the
/// coordinate back: going from native to twoxel, octad or blocktad
/// coordinates (factors 1, 2 and 4) and back again, and from twoxel to octad
/// or blocktad coordinates and back, returns the position started from.
pub proof fn lemma_scale_round_trip(a: int, k: int)
    requires
        k > 0,
    ensures
        div_toward_zero(a * k, k) == a,
{
    if a >= 0 {
        assert((a * k) / k == a) by (nonlinear_arith)
            requires a >= 0, k > 0;
    } else {
        assert(a * k < 0) by (nonlinear_arith)
            requires a < 0, k > 0;
        assert(((-a) * k) / k == -a) by (nonlinear_arith)
            requires a < 0, k > 0;
        assert(-(a * k) == (-a) * k) by (nonlinear_arith);
    }
}

} // verus!
