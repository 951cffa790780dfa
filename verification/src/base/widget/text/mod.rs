//! Text widgets: styled spans, and lines made of spans.
use vstd::prelude::*;

use crate::base::DisplayWidth;

pub mod line;
pub mod span;

verus! {

/// Text that knows how many cells it takes on screen.
pub trait LineWidth {
    /// The cells the text takes.
    spec fn spec_line_width(&self) -> u16;

    /// The cells the text takes, measured with `display_width`.
    fn width(&self, display_width: &DisplayWidth) -> (w: u16)
        ensures
            w == self.spec_line_width(),
    ;
}

} // verus!
