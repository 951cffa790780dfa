//! Timing information handed to widgets.
use vstd::prelude::*;

verus! {

/// A kind of frame timing a widget can be drawn with.
pub trait TimerDelta: Copy {
}

/// No timing at all: for widgets that do not animate.
#[derive(Clone, Copy, Debug, Default, PartialEq, Eq, Hash, Structural)]
pub struct NoDelta;

impl NoDelta {
    pub fn new() -> (d: NoDelta)
        ensures
            d == NoDelta,
    {
        NoDelta
    }
}

impl TimerDelta for NoDelta {
}

} // verus!
