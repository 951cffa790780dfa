//! A generic 2D size.
use vstd::prelude::*;
use vstd::std_specs::ops::{AddSpecImpl, DivSpecImpl, MulSpecImpl, RemSpecImpl, SubSpecImpl};

use crate::coord_space::{div_toward_zero, divides_i16, fits_i16, rem_toward_zero};

verus! {

/// A size with `width` and `height` of the scalar type `T`.
#[derive(Debug, Copy, Clone)]
pub struct Size<T = i16> {
    pub width: T,
    pub height: T,
}

impl<T> Size<T> {
    pub fn new(width: T, height: T) -> (p: Self)
        ensures
            p.width == width,
            p.height == height,
    {
        Size { width, height }
    }

    pub fn to_tuple(self) -> (t: (T, T))
        ensures
            t == (self.width, self.height),
    {
        (self.width, self.height)
    }
}

impl Size<i16> {
    /// Grows the size by `dw` in width.
    pub fn offset_w(self, dw: i16) -> (p: Self)
        requires
            i16::MIN <= self.width + dw <= i16::MAX,
        ensures
            p.width == self.width + dw,
            p.height == self.height,
    {
        Self::new(self.width + dw, self.height)
    }

    /// Grows the size by `dh` in height.
    pub fn offset_h(self, dh: i16) -> (p: Self)
        requires
            i16::MIN <= self.height + dh <= i16::MAX,
        ensures
            p.width == self.width,
            p.height == self.height + dh,
    {
        Self::new(self.width, self.height + dh)
    }

    /// Grows the size by `dw` and `dh`.
    pub fn offset_wh(self, dw: i16, dh: i16) -> (p: Self)
        requires
            i16::MIN <= self.width + dw <= i16::MAX,
            i16::MIN <= self.height + dh <= i16::MAX,
        ensures
            p.width == self.width + dw,
            p.height == self.height + dh,
    {
        Self::new(self.width + dw, self.height + dh)
    }
}

impl core::ops::Add for Size<i16> {
    type Output = Self;

    fn add(self, rhs: Self) -> (r: Self) {
        Size { width: self.width + rhs.width, height: self.height + rhs.height }
    }
}

impl AddSpecImpl for Size<i16> {
    open spec fn obeys_add_spec() -> bool {
        true
    }

    open spec fn add_req(self, rhs: Self) -> bool {
        fits_i16(self.width + rhs.width) && fits_i16(self.height + rhs.height)
    }

    open spec fn add_spec(self, rhs: Self) -> Self {
        Size { width: (self.width + rhs.width) as i16, height: (self.height + rhs.height) as i16 }
    }
}

impl core::ops::Sub for Size<i16> {
    type Output = Self;

    fn sub(self, rhs: Self) -> (r: Self) {
        Size { width: self.width - rhs.width, height: self.height - rhs.height }
    }
}

impl SubSpecImpl for Size<i16> {
    open spec fn obeys_sub_spec() -> bool {
        true
    }

    open spec fn sub_req(self, rhs: Self) -> bool {
        fits_i16(self.width - rhs.width) && fits_i16(self.height - rhs.height)
    }

    open spec fn sub_spec(self, rhs: Self) -> Self {
        Size { width: (self.width - rhs.width) as i16, height: (self.height - rhs.height) as i16 }
    }
}

impl core::ops::Mul<i16> for Size<i16> {
    type Output = Self;

    fn mul(self, rhs: i16) -> (r: Self) {
        Size { width: self.width * rhs, height: self.height * rhs }
    }
}

impl MulSpecImpl<i16> for Size<i16> {
    open spec fn obeys_mul_spec() -> bool {
        true
    }

    open spec fn mul_req(self, rhs: i16) -> bool {
        fits_i16(self.width * rhs) && fits_i16(self.height * rhs)
    }

    open spec fn mul_spec(self, rhs: i16) -> Self {
        Size { width: (self.width * rhs) as i16, height: (self.height * rhs) as i16 }
    }
}

impl core::ops::Div<i16> for Size<i16> {
    type Output = Self;

    fn div(self, rhs: i16) -> (r: Self) {
        Size { width: self.width / rhs, height: self.height / rhs }
    }
}

impl DivSpecImpl<i16> for Size<i16> {
    open spec fn obeys_div_spec() -> bool {
        true
    }

    open spec fn div_req(self, rhs: i16) -> bool {
        divides_i16(self.width, rhs) && divides_i16(self.height, rhs)
    }

    open spec fn div_spec(self, rhs: i16) -> Self {
        Size {
            width: div_toward_zero(self.width as int, rhs as int) as i16,
            height: div_toward_zero(self.height as int, rhs as int) as i16,
        }
    }
}

impl core::ops::Rem<i16> for Size<i16> {
    type Output = Self;

    fn rem(self, rhs: i16) -> (r: Self) {
        Size { width: self.width % rhs, height: self.height % rhs }
    }
}

impl RemSpecImpl<i16> for Size<i16> {
    open spec fn obeys_rem_spec() -> bool {
        true
    }

    open spec fn rem_req(self, rhs: i16) -> bool {
        divides_i16(self.width, rhs) && divides_i16(self.height, rhs)
    }

    open spec fn rem_spec(self, rhs: i16) -> Self {
        Size {
            width: rem_toward_zero(self.width as int, rhs as int) as i16,
            height: rem_toward_zero(self.height as int, rhs as int) as i16,
        }
    }
}

} // verus!
