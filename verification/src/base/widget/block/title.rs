//! Titles drawn on the border of a block.
use vstd::prelude::*;

use crate::base::timer::NoDelta;
use crate::base::widget::Widget;

verus! {

/// The border row a title is drawn on.
#[derive(Clone, Copy, Debug, PartialEq, Eq, Hash, Structural)]
pub enum TitlePosition {
    /// The top border.
    Top,
    /// The bottom border.
    Bottom,
}

impl Default for TitlePosition {
    /// The top border.
    fn default() -> (p: TitlePosition)
        ensures
            p == TitlePosition::Top,
    {
        TitlePosition::Top
    }
}

/// Where on its border row a title stands.
#[derive(Clone, Copy, Debug, PartialEq, Eq, Hash, Structural)]
pub enum TitleAlignment {
    /// Against the left edge.
    Left,
    /// In the middle.
    Center,
    /// Against the right edge.
    Right,
}

impl Default for TitleAlignment {
    /// Against the left edge.
    fn default() -> (a: TitleAlignment)
        ensures
            a == TitleAlignment::Left,
    {
        TitleAlignment::Left
    }
}

/// A widget drawn on a block's border, with the row and the place in the
/// row where it stands.
pub struct Title<W> {
    title: W,
    position: TitlePosition,
    alignment: TitleAlignment,
}

impl<W> Title<W> {
    /// The widget shown.
    pub closed spec fn spec_inner(&self) -> W {
        self.title
    }

    /// The border row of the title.
    pub closed spec fn spec_position(&self) -> TitlePosition {
        self.position
    }

    /// The place of the title in its row.
    pub closed spec fn spec_alignment(&self) -> TitleAlignment {
        self.alignment
    }

    /// A title showing `title` at the left of the top border.
    pub fn new(title: W) -> (t: Title<W>) where W: Widget<NoDelta>
        ensures
            t.spec_inner() == title,
            t.spec_position() == TitlePosition::Top,
            t.spec_alignment() == TitleAlignment::Left,
    {
        Title { title, position: TitlePosition::default(), alignment: TitleAlignment::default() }
    }

    pub fn position(&self) -> (p: TitlePosition)
        ensures
            p == self.spec_position(),
    {
        self.position
    }

    pub fn set_position(&mut self, position: TitlePosition)
        ensures
            final(self).spec_position() == position,
            final(self).spec_alignment() == old(self).spec_alignment(),
            final(self).spec_inner() == old(self).spec_inner(),
    {
        self.position = position;
    }

    /// The title moved to the border row `position`.
    pub fn with_position(self, position: TitlePosition) -> (t: Title<W>)
        ensures
            t.spec_position() == position,
            t.spec_alignment() == self.spec_alignment(),
            t.spec_inner() == self.spec_inner(),
    {
        let mut t = self;
        t.set_position(position);
        t
    }

    pub fn alignment(&self) -> (a: TitleAlignment)
        ensures
            a == self.spec_alignment(),
    {
        self.alignment
    }

    pub fn set_alignment(&mut self, alignment: TitleAlignment)
        ensures
            final(self).spec_alignment() == alignment,
            final(self).spec_position() == old(self).spec_position(),
            final(self).spec_inner() == old(self).spec_inner(),
    {
        self.alignment = alignment;
    }

    /// The title moved to `alignment` in its row.
    pub fn with_alignment(self, alignment: TitleAlignment) -> (t: Title<W>)
        ensures
            t.spec_alignment() == alignment,
            t.spec_position() == self.spec_position(),
            t.spec_inner() == self.spec_inner(),
    {
        let mut t = self;
        t.set_alignment(alignment);
        t
    }

    /// The widget shown.
    pub fn inner(&self) -> (w: &W)
        ensures
            *w == self.spec_inner(),
    {
        &self.title
    }
}

} // verus!
