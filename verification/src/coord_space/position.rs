//! A generic 2D position.
use vstd::prelude::*;
use vstd::std_specs::ops::{AddSpecImpl, DivSpecImpl, MulSpecImpl, RemSpecImpl, SubSpecImpl};

use crate::coord_space::{div_toward_zero, divides_i16, fits_i16, rem_toward_zero};

verus! {

/// A position with `x` and `y` of the scalar type `T`.
#[derive(Debug, Copy, Clone)]
pub struct Position<T = i16> {
    pub x: T,
    pub y: T,
}

impl<T> Position<T> {
    pub fn new(x: T, y: T) -> (p: Self)
        ensures
            p.x == x,
            p.y == y,
    {
        Position { x, y }
    }

    pub fn to_tuple(self) -> (t: (T, T))
        ensures
            t == (self.x, self.y),
    {
        (self.x, self.y)
    }
}

impl Position<i16> {
    /// Moves the position by `dx` along the x axis.
    pub fn offset_x(self, dx: i16) -> (p: Self)
        requires
            i16::MIN <= self.x + dx <= i16::MAX,
        ensures
            p.x == self.x + dx,
            p.y == self.y,
    {
        Self::new(self.x + dx, self.y)
    }

    /// Moves the position by `dy` along the y axis.
    pub fn offset_y(self, dy: i16) -> (p: Self)
        requires
            i16::MIN <= self.y + dy <= i16::MAX,
        ensures
            p.x == self.x,
            p.y == self.y + dy,
    {
        Self::new(self.x, self.y + dy)
    }

    /// Moves the position by `dx` and `dy`.
    pub fn offset_xy(self, dx: i16, dy: i16) -> (p: Self)
        requires
            i16::MIN <= self.x + dx <= i16::MAX,
            i16::MIN <= self.y + dy <= i16::MAX,
        ensures
            p.x == self.x + dx,
            p.y == self.y + dy,
    {
        Self::new(self.x + dx, self.y + dy)
    }
}

impl core::ops::Add for Position<i16> {
    type Output = Self;

    fn add(self, rhs: Self) -> (r: Self) {
        Position { x: self.x + rhs.x, y: self.y + rhs.y }
    }
}

impl AddSpecImpl for Position<i16> {
    open spec fn obeys_add_spec() -> bool {
        true
    }

    open spec fn add_req(self, rhs: Self) -> bool {
        fits_i16(self.x + rhs.x) && fits_i16(self.y + rhs.y)
    }

    open spec fn add_spec(self, rhs: Self) -> Self {
        Position { x: (self.x + rhs.x) as i16, y: (self.y + rhs.y) as i16 }
    }
}

impl core::ops::Sub for Position<i16> {
    type Output = Self;

    fn sub(self, rhs: Self) -> (r: Self) {
        Position { x: self.x - rhs.x, y: self.y - rhs.y }
    }
}

impl SubSpecImpl for Position<i16> {
    open spec fn obeys_sub_spec() -> bool {
        true
    }

    open spec fn sub_req(self, rhs: Self) -> bool {
        fits_i16(self.x - rhs.x) && fits_i16(self.y - rhs.y)
    }

    open spec fn sub_spec(self, rhs: Self) -> Self {
        Position { x: (self.x - rhs.x) as i16, y: (self.y - rhs.y) as i16 }
    }
}

impl core::ops::Mul<i16> for Position<i16> {
    type Output = Self;

    fn mul(self, rhs: i16) -> (r: Self) {
        Position { x: self.x * rhs, y: self.y * rhs }
    }
}

impl MulSpecImpl<i16> for Position<i16> {
    open spec fn obeys_mul_spec() -> bool {
        true
    }

    open spec fn mul_req(self, rhs: i16) -> bool {
        fits_i16(self.x * rhs) && fits_i16(self.y * rhs)
    }

    open spec fn mul_spec(self, rhs: i16) -> Self {
        Position { x: (self.x * rhs) as i16, y: (self.y * rhs) as i16 }
    }
}

impl core::ops::Div<i16> for Position<i16> {
    type Output = Self;

    fn div(self, rhs: i16) -> (r: Self) {
        Position { x: self.x / rhs, y: self.y / rhs }
    }
}

impl DivSpecImpl<i16> for Position<i16> {
    open spec fn obeys_div_spec() -> bool {
        true
    }

    open spec fn div_req(self, rhs: i16) -> bool {
        divides_i16(self.x, rhs) && divides_i16(self.y, rhs)
    }

    open spec fn div_spec(self, rhs: i16) -> Self {
        Position {
            x: div_toward_zero(self.x as int, rhs as int) as i16,
            y: div_toward_zero(self.y as int, rhs as int) as i16,
        }
    }
}

impl core::ops::Rem<i16> for Position<i16> {
    type Output = Self;

    fn rem(self, rhs: i16) -> (r: Self) {
        Position { x: self.x % rhs, y: self.y % rhs }
    }
}

impl RemSpecImpl<i16> for Position<i16> {
    open spec fn obeys_rem_spec() -> bool {
        true
    }

    open spec fn rem_req(self, rhs: i16) -> bool {
        divides_i16(self.x, rhs) && divides_i16(self.y, rhs)
    }

    open spec fn rem_spec(self, rhs: i16) -> Self {
        Position {
            x: rem_toward_zero(self.x as int, rhs as int) as i16,
            y: rem_toward_zero(self.y as int, rhs as int) as i16,
        }
    }
}

} // verus!
