//! The characters a block's border is drawn with.
use vstd::prelude::*;

use crate::base::{spec_str_display_width, DisplayWidth};

verus! {

/// A place on a block's border.
#[derive(Clone, Copy, Debug, PartialEq, Eq, Hash, Structural)]
pub enum BorderPiece {
    TopLeft,
    Top,
    TopRight,
    Left,
    Right,
    BottomLeft,
    Bottom,
    BottomRight,
}

/// How a block's border looks: the text drawn at each place of the border,
/// given the text the cell held, and the widths of the side borders.
pub trait BlockSet {
    /// The text drawn at `piece` over a cell that held `current`.
    spec fn spec_piece(&self, piece: BorderPiece, current: Seq<char>) -> Seq<char>;

    /// The width of the left border, in cells.
    spec fn spec_left_width(&self) -> u16;

    /// The width of the right border, in cells.
    spec fn spec_right_width(&self) -> u16;

    /// The text drawn at `piece` over a cell that holds `current`.
    fn piece(&self, piece: BorderPiece, current: &str) -> (s: String)
        ensures
            s@ == self.spec_piece(piece, current@),
    ;

    /// The width of the left border, measured with `display_width`.
    fn left_width(&self, display_width: &DisplayWidth) -> (w: u16)
        ensures
            w == self.spec_left_width(),
    ;

    /// The width of the right border, measured with `display_width`.
    fn right_width(&self, display_width: &DisplayWidth) -> (w: u16)
        ensures
            w == self.spec_right_width(),
    ;
}

/// A border drawn with one fixed text per place, whatever the cells held.
#[derive(Clone, Copy, Debug, PartialEq, Eq)]
pub struct SimpleBorderSet {
    pub top_left: &'static str,
    pub top: &'static str,
    pub top_right: &'static str,
    pub left: &'static str,
    pub right: &'static str,
    pub bottom_left: &'static str,
    pub bottom: &'static str,
    pub bottom_right: &'static str,
}

impl SimpleBorderSet {
    /// The text of a place.
    pub open spec fn spec_text(&self, piece: BorderPiece) -> Seq<char> {
        match piece {
            BorderPiece::TopLeft => self.top_left@,
            BorderPiece::Top => self.top@,
            BorderPiece::TopRight => self.top_right@,
            BorderPiece::Left => self.left@,
            BorderPiece::Right => self.right@,
            BorderPiece::BottomLeft => self.bottom_left@,
            BorderPiece::Bottom => self.bottom@,
            BorderPiece::BottomRight => self.bottom_right@,
        }
    }

    /// Corners of `+`, horizontal sides of `-` and vertical sides of `|`.
    pub fn ascii() -> (s: SimpleBorderSet)
        ensures
            s.top_left@ == seq!['+'],
            s.top@ == seq!['-'],
            s.top_right@ == seq!['+'],
            s.left@ == seq!['|'],
            s.right@ == seq!['|'],
            s.bottom_left@ == seq!['+'],
            s.bottom@ == seq!['-'],
            s.bottom_right@ == seq!['+'],
    {
        proof {
            reveal_strlit("+");
            reveal_strlit("-");
            reveal_strlit("|");
        }
        SimpleBorderSet {
            top_left: "+",
            top: "-",
            top_right: "+",
            left: "|",
            right: "|",
            bottom_left: "+",
            bottom: "-",
            bottom_right: "+",
        }
    }
}

impl BlockSet for SimpleBorderSet {
    open spec fn spec_piece(&self, piece: BorderPiece, current: Seq<char>) -> Seq<char> {
        self.spec_text(piece)
    }

    open spec fn spec_left_width(&self) -> u16 {
        spec_str_display_width(self.left@)
    }

    open spec fn spec_right_width(&self) -> u16 {
        spec_str_display_width(self.right@)
    }

    fn piece(&self, piece: BorderPiece, current: &str) -> (s: String) {
        let text = match piece {
            BorderPiece::TopLeft => self.top_left,
            BorderPiece::Top => self.top,
            BorderPiece::TopRight => self.top_right,
            BorderPiece::Left => self.left,
            BorderPiece::Right => self.right,
            BorderPiece::BottomLeft => self.bottom_left,
            BorderPiece::Bottom => self.bottom,
            BorderPiece::BottomRight => self.bottom_right,
        };
        String::from_str(text)
    }

    fn left_width(&self, display_width: &DisplayWidth) -> (w: u16) {
        display_width.str_width(self.left)
    }

    fn right_width(&self, display_width: &DisplayWidth) -> (w: u16) {
        display_width.str_width(self.right)
    }
}

} // verus!
