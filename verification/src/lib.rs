use vstd::prelude::*;

pub mod color;
pub mod coord_space;
pub mod style;
pub mod base;
pub mod cell;
pub mod draw;

verus! {
} // verus!
