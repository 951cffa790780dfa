//! The style of a cell: optional foreground and background colors and a set
//! of text attributes.
use vstd::prelude::*;

use crate::color::{mul_div_255, spec_mul_div_255, pack_rgba, Color};

verus! {

/// A set of text attributes, one bit each.
#[derive(Clone, Copy, Debug, PartialEq, Eq, Hash, Structural)]
pub struct Attributes(pub u16);

impl Attributes {
    /// The empty set.
    pub fn empty() -> (a: Attributes)
        ensures
            a.0 == 0,
    {
        Attributes(0)
    }

    /// Every attribute of `self` and of `other`.
    pub fn union(self, other: Attributes) -> (a: Attributes)
        ensures
            a.0 == self.0 | other.0,
    {
        Attributes(self.0 | other.0)
    }

    /// Whether every attribute of `other` is in `self`.
    pub fn contains(self, other: Attributes) -> (b: bool)
        ensures
            b == (self.0 & other.0 == other.0),
    {
        self.0 & other.0 == other.0
    }
}

/// The style of a cell. A missing color lets what lies below show through.
#[derive(Clone, Copy, Debug, PartialEq, Eq, Structural)]
pub struct Style {
    pub fg: Option<Color>,
    pub bg: Option<Color>,
    pub attributes: Attributes,
}

/// A color with each of its color channels scaled by its alpha.
pub open spec fn spec_premultiply(c: Color) -> Color {
    let a = c.spec_alpha() as int;
    Color(
        pack_rgba(
            spec_mul_div_255(c.spec_red() as int, a) as u8,
            spec_mul_div_255(c.spec_green() as int, a) as u8,
            spec_mul_div_255(c.spec_blue() as int, a) as u8,
            a as u8,
        ),
    )
}

/// A color with each of its color channels scaled by its alpha.
pub fn premultiply(c: Color) -> (r: Color)
    ensures
        r == spec_premultiply(c),
{
    let (red, green, blue, a) = c.rgba();
    Color::new(mul_div_255(red, a), mul_div_255(green, a), mul_div_255(blue, a), a)
}

impl Style {
    /// No colors and no attributes.
    pub open spec fn spec_empty() -> Style {
        Style { fg: None, bg: None, attributes: Attributes(0) }
    }

    /// No colors and no attributes.
    pub fn empty() -> (s: Style)
        ensures
            s == Style::spec_empty(),
    {
        Style { fg: None, bg: None, attributes: Attributes::empty() }
    }

    pub fn new(fg: Option<Color>, bg: Option<Color>, attributes: Attributes) -> (s: Style)
        ensures
            s.fg == fg,
            s.bg == bg,
            s.attributes == attributes,
    {
        Style { fg, bg, attributes }
    }

    pub fn fg(&self) -> (c: Option<Color>)
        ensures
            c == self.fg,
    {
        self.fg
    }

    pub fn bg(&self) -> (c: Option<Color>)
        ensures
            c == self.bg,
    {
        self.bg
    }

    pub fn has_fg(&self) -> (b: bool)
        ensures
            b == self.fg is Some,
    {
        self.fg.is_some()
    }

    pub fn has_bg(&self) -> (b: bool)
        ensures
            b == self.bg is Some,
    {
        self.bg.is_some()
    }

    pub fn attributes(&self) -> (a: Attributes)
        ensures
            a == self.attributes,
    {
        self.attributes
    }

    pub fn set_fg(&mut self, fg: Option<Color>)
        ensures
            *final(self) == (Style { fg, ..*old(self) }),
    {
        self.fg = fg;
    }

    pub fn set_bg(&mut self, bg: Option<Color>)
        ensures
            *final(self) == (Style { bg, ..*old(self) }),
    {
        self.bg = bg;
    }

    pub fn set_attributes(&mut self, attributes: Attributes)
        ensures
            *final(self) == (Style { attributes, ..*old(self) }),
    {
        self.attributes = attributes;
    }

    pub fn with_fg(self, fg: Option<Color>) -> (s: Style)
        ensures
            s == (Style { fg, ..self }),
    {
        Style { fg, ..self }
    }

    pub fn with_bg(self, bg: Option<Color>) -> (s: Style)
        ensures
            s == (Style { bg, ..self }),
    {
        Style { bg, ..self }
    }

    /// `self` with `other` laid over it: each color that `other` has replaces
    /// the one of `self`, and the attributes of both are kept.
    pub open spec fn spec_merged(self, other: Style) -> Style {
        Style {
            fg: if other.fg is Some { other.fg } else { self.fg },
            bg: if other.bg is Some { other.bg } else { self.bg },
            attributes: Attributes(self.attributes.0 | other.attributes.0),
        }
    }

    /// Lays `other` over `self`; see [`Style::spec_merged`].
    pub fn merge(&mut self, other: Style)
        ensures
            *final(self) == old(self).spec_merged(other),
    {
        if other.fg.is_some() {
            self.fg = other.fg;
        }
        if other.bg.is_some() {
            self.bg = other.bg;
        }
        self.attributes = self.attributes.union(other.attributes);
    }

    /// `self` with `other` laid over it; see [`Style::spec_merged`].
    pub fn merged(self, other: Style) -> (s: Style)
        ensures
            s == self.spec_merged(other),
    {
        let mut s = self;
        s.merge(other);
        s
    }

    /// Scales the color channels of both colors by their alpha.
    pub fn premultiply_fg_and_bg(&mut self)
        ensures
            final(self).fg == (match old(self).fg {
                Some(c) => Some(spec_premultiply(c)),
                None => None,
            }),
            final(self).bg == (match old(self).bg {
                Some(c) => Some(spec_premultiply(c)),
                None => None,
            }),
            final(self).attributes == old(self).attributes,
    {
        if let Some(c) = self.fg {
            self.fg = Some(premultiply(c));
        }
        if let Some(c) = self.bg {
            self.bg = Some(premultiply(c));
        }
    }
}

/// Merging is idempotent: laying a style over itself changes nothing.
pub proof fn lemma_merge_idempotent(s: Style)
    ensures
        s.spec_merged(s) == s,
{
    let a = s.attributes.0;
    assert(a | a == a) by (bit_vector);
}

/// Merging the empty style changes nothing.
pub proof fn lemma_merge_empty(s: Style)
    ensures
        s.spec_merged(Style::spec_empty()) == s,
{
    let a = s.attributes.0;
    assert(a | 0 == a) by (bit_vector);
}

/// Merging is associative.
pub proof fn lemma_merge_associative(a: Style, b: Style, c: Style)
    ensures
        a.spec_merged(b).spec_merged(c) == a.spec_merged(b.spec_merged(c)),
{
    let (x, y, z) = (a.attributes.0, b.attributes.0, c.attributes.0);
    assert((x | y) | z == x | (y | z)) by (bit_vector);
}

} // verus!
