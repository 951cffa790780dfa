//! A single terminal cell: the text it shows, its style and its format.
use vstd::prelude::*;

use crate::color::Color;
use crate::style::{Attributes, Style};

verus! {

/// How the text of a cell was drawn.
#[derive(Clone, Copy, Debug, PartialEq, Eq, Structural)]
pub enum CellFormat {
    Standard,
    Twoxel,
    Octad,
    Blocktad,
}

/// A terminal cell: one grapheme of text, its style and its format.
pub struct Cell {
    pub ch: String,
    pub style: Style,
    pub format: CellFormat,
}

/// What a cell holds, as plain values.
pub struct CellView {
    pub ch: Seq<char>,
    pub style: Style,
    pub format: CellFormat,
}

impl View for Cell {
    type V = CellView;

    open spec fn view(&self) -> CellView {
        CellView { ch: self.ch@, style: self.style, format: self.format }
    }
}

impl Clone for Cell {
    fn clone(&self) -> (c: Cell)
        ensures
            c@ == self@,
    {
        Cell { ch: self.ch.clone(), style: self.style, format: self.format }
    }
}

impl PartialEq for Cell {
    fn eq(&self, other: &Cell) -> (b: bool) {
        self.ch == other.ch && self.style == other.style && self.format == other.format
    }
}

impl vstd::std_specs::cmp::PartialEqSpecImpl for Cell {
    open spec fn obeys_eq_spec() -> bool {
        true
    }

    open spec fn eq_spec(&self, other: &Cell) -> bool {
        self@ == other@
    }
}

impl Cell {
    /// A space with fully transparent colors and no attribute: what an
    /// untouched buffer holds, so that colors composed over it blend.
    pub open spec fn spec_empty() -> CellView {
        CellView {
            ch: seq![' '],
            style: Style { fg: Some(Color(0)), bg: Some(Color(0)), ..Style::spec_empty() },
            format: CellFormat::Standard,
        }
    }

    /// A space with fully transparent colors and no attribute: what an
    /// untouched buffer holds.
    pub fn empty() -> (c: Cell)
        ensures
            c@ == Cell::spec_empty(),
    {
        let ch = String::from_str(" ");
        proof {
            reveal_strlit(" ");
            assert(" "@ =~= seq![' ']);
        }
        let style = Style::new(Some(Color::clear()), Some(Color::clear()), Attributes::empty());
        Cell { ch, style, format: CellFormat::Standard }
    }

    pub fn new(s: &str, style: Style) -> (c: Cell)
        ensures
            c@ == (CellView { ch: s@, style, format: CellFormat::Standard }),
    {
        Cell { ch: String::from_str(s), style, format: CellFormat::Standard }
    }

    pub fn as_str(&self) -> (s: &str)
        ensures
            s@ == self.ch@,
    {
        self.ch.as_str()
    }

    pub fn style(&self) -> (s: Style)
        ensures
            s == self.style,
    {
        self.style
    }

    pub fn style_mut(&mut self) -> (s: &mut Style)
        ensures
            *s == old(self).style,
            final(self)@ == (CellView { style: *final(s), ..old(self)@ }),
    {
        &mut self.style
    }

    pub fn set_str(&mut self, s: &str)
        ensures
            final(self)@ == (CellView { ch: s@, ..old(self)@ }),
    {
        self.ch = String::from_str(s);
    }

    /// Takes the text of `other` and lays its style over this one.
    pub fn merge(&mut self, other: &Cell)
        ensures
            final(self)@ == (CellView {
                ch: other.ch@,
                style: old(self).style.spec_merged(other.style),
                format: old(self).format,
            }),
    {
        self.ch = other.ch.clone();
        self.style.merge(other.style);
    }
}

} // verus!
