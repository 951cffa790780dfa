//! Composition of one cell drawn over another.
use vstd::prelude::*;

use crate::cell::{Cell, CellView};
use crate::color::{blend_source_over, spec_blend_source_over, Color};
use crate::style::Style;

verus! {

/// The foreground color of a style, or cyan where it has none. Cyan only
/// stands in for the missing color in the decisions below; it never reaches
/// a composed cell.
pub open spec fn spec_fg_or_cyan(s: Style) -> Color {
    match s.fg {
        Some(c) => c,
        None => Color(0x00_FF_FF_FF),
    }
}

/// The background color of a style, or cyan where it has none.
pub open spec fn spec_bg_or_cyan(s: Style) -> Color {
    match s.bg {
        Some(c) => c,
        None => Color(0x00_FF_FF_FF),
    }
}

/// An invisible foreground over an opaque background: the top cell hides the
/// glyph below it.
pub open spec fn spec_covers_fg_with_bg(top: CellView) -> bool {
    &&& top.style.fg is Some
    &&& top.style.bg is Some
    &&& spec_fg_or_cyan(top.style).spec_alpha() == 0
    &&& spec_bg_or_cyan(top.style).spec_alpha() == 255
}

/// The top cell shows no glyph of its own: a space, or an invisible foreground.
pub open spec fn spec_keeps_old_glyph(top: CellView) -> bool {
    top.ch == seq![' '] || spec_fg_or_cyan(top.style).spec_alpha() == 0
}

/// Whether an alpha is strictly between transparent and nearly opaque, the
/// range in which colors are blended rather than kept or replaced.
pub open spec fn spec_is_blended_alpha(a: u8) -> bool {
    1 <= a && a < 254
}

/// The glyph of the composed cell.
pub open spec fn spec_composed_ch(bottom: CellView, top: CellView) -> Seq<char> {
    if spec_covers_fg_with_bg(top) {
        seq![' ']
    } else if spec_keeps_old_glyph(top) {
        bottom.ch
    } else {
        top.ch
    }
}

/// The foreground of the composed cell.
pub open spec fn spec_composed_fg(bottom: CellView, top: CellView) -> Option<Color> {
    let top_fg = spec_fg_or_cyan(top.style);
    if top.style.fg is None {
        None
    } else {
        match bottom.style.fg {
            None => None,
            Some(bottom_fg) => if spec_keeps_old_glyph(top) {
                Some(bottom_fg)
            } else if top_fg.spec_alpha() == 255 {
                Some(top_fg)
            } else if spec_is_blended_alpha(top_fg.spec_alpha()) {
                Some(spec_blend_source_over(bottom_fg, top_fg))
            } else if spec_covers_fg_with_bg(top) {
                None
            } else {
                Some(bottom_fg)
            },
        }
    }
}

/// The background of the composed cell.
pub open spec fn spec_composed_bg(bottom: CellView, top: CellView) -> Option<Color> {
    let top_bg = spec_bg_or_cyan(top.style);
    if top.style.bg is None {
        None
    } else {
        match bottom.style.bg {
            None => None,
            Some(bottom_bg) => if top_bg.spec_alpha() == 255 {
                Some(top_bg)
            } else if spec_is_blended_alpha(top_bg.spec_alpha()) {
                Some(spec_blend_source_over(bottom_bg, top_bg))
            } else {
                Some(bottom_bg)
            },
        }
    }
}

/// `top` drawn over `bottom`.
pub open spec fn spec_compose_cell(bottom: CellView, top: CellView) -> CellView {
    let takes_top_attributes = spec_covers_fg_with_bg(top) || !spec_keeps_old_glyph(top);
    CellView {
        ch: spec_composed_ch(bottom, top),
        style: Style {
            fg: spec_composed_fg(bottom, top),
            bg: spec_composed_bg(bottom, top),
            attributes: if takes_top_attributes {
                top.style.attributes
            } else {
                bottom.style.attributes
            },
        },
        format: bottom.format,
    }
}

/// What a cell drawn over another shows, and with which attributes:
/// - a top cell with an invisible foreground over an opaque background
///   covers the glyph below with a space and brings its own attributes;
/// - a top cell that shows no glyph of its own (a space, or an invisible
///   foreground) and does not cover keeps the glyph below and its
///   attributes;
/// - any other top cell puts its own glyph and attributes in place.
/// The format is always that of the cell below.
pub proof fn lemma_compose_glyph_and_attributes(bottom: CellView, top: CellView)
    ensures
        ({
            let c = spec_compose_cell(bottom, top);
            let invisible_fg = top.style.fg is Some && top.style.fg->0.spec_alpha() == 0;
            let covers = invisible_fg && top.style.bg is Some && top.style.bg->0.spec_alpha() == 255;
            let no_glyph = top.ch == seq![' '] || invisible_fg;
            &&& covers ==> c.ch == seq![' '] && c.style.attributes == top.style.attributes
            &&& no_glyph && !covers ==> c.ch == bottom.ch && c.style.attributes == bottom.style.attributes
            &&& !no_glyph ==> c.ch == top.ch && c.style.attributes == top.style.attributes
            &&& c.format == bottom.format
        }),
{
}

/// Whether `s` is the one-character string `" "`.
fn is_space(s: &String) -> (b: bool)
    ensures
        b == (s@ == seq![' ']),
{
    let t = s.as_str();
    if t.unicode_len() != 1 {
        return false;
    }
    let c = t.get_char(0);
    if c == ' ' {
        assert(t@ =~= seq![' ']);
        true
    } else {
        false
    }
}

/// Draws `top` over `bottom`, blending translucent colors and keeping the
/// glyph below where the top cell shows none of its own.
///
/// `bg_fallback` is the color the terminal background is assumed to have.
pub fn compose_cell(bottom: &mut Cell, top: &Cell, bg_fallback: Color)
    ensures
        final(bottom)@ == spec_compose_cell(old(bottom)@, top@),
{
    let top_has_fg: bool = top.style.has_fg();
    let top_has_bg: bool = top.style.has_bg();

    let top_fg: Color = match top.style.fg() {
        Some(c) => c,
        None => Color::cyan(),
    };
    let top_bg: Color = match top.style.bg() {
        Some(c) => c,
        None => Color::cyan(),
    };
    let top_fg_a = top_fg.a();
    let top_bg_a = top_bg.a();

    let cover_fg_with_bg: bool = top_has_fg && top_has_bg && top_fg_a == 0 && top_bg_a == 255;
    let translucent_fg_keep_char: bool = top_has_fg && top_fg_a == 0;
    let keep_old_ch_and_fg: bool = is_space(&top.ch) || top_fg_a == 0;

    // glyph and attributes
    if cover_fg_with_bg {
        bottom.ch = String::from_str(" ");
        proof {
            reveal_strlit(" ");
            assert(" "@ =~= seq![' ']);
        }
        bottom.style.set_attributes(top.style.attributes());
    } else if !(translucent_fg_keep_char || keep_old_ch_and_fg) {
        bottom.ch = top.ch.clone();
        bottom.style.set_attributes(top.style.attributes());
    }

    // foreground
    if top_has_fg {
        let override_fg: bool = top_fg_a == 255;
        let blend_fg_with_fg: bool = 1 <= top_fg_a && top_fg_a < 254;

        if let Some(bottom_fg) = bottom.style.fg() {
            if keep_old_ch_and_fg {
                // the glyph below stays, and so does its color
            } else if override_fg {
                bottom.style.set_fg(Some(top_fg));
            } else if blend_fg_with_fg {
                bottom.style.set_fg(Some(blend_source_over(bottom_fg, top_fg)));
            } else if cover_fg_with_bg {
                // a covered glyph keeps no color
                bottom.style.set_fg(None);
            }
        }
    } else {
        bottom.style.set_fg(None);
    }

    // background
    if top_has_bg {
        let override_bg: bool = top_bg_a == 255;
        let blend_bg_with_bg: bool = 1 <= top_bg_a && top_bg_a < 254;

        if let Some(bottom_bg) = bottom.style.bg() {
            if override_bg {
                bottom.style.set_bg(Some(top_bg));
            } else if blend_bg_with_bg {
                bottom.style.set_bg(Some(blend_source_over(bottom_bg, top_bg)));
            }
        }
    } else {
        bottom.style.set_bg(None);
    }
}

/// An opaque top cell with a glyph of its own replaces the glyph, the colors
/// and the attributes of a bottom cell that has both colors.
pub proof fn lemma_opaque_top_replaces(bottom: CellView, top: CellView)
    requires
        top.style.fg is Some,
        top.style.bg is Some,
        top.style.fg->0.spec_alpha() == 255,
        top.style.bg->0.spec_alpha() == 255,
        top.ch != seq![' '],
        bottom.style.fg is Some,
        bottom.style.bg is Some,
    ensures
        spec_compose_cell(bottom, top) == (CellView { format: bottom.format, ..top }),
{
}

/// A top cell without colors leaves a cell without colors.
pub proof fn lemma_colorless_top_clears_colors(bottom: CellView, top: CellView)
    requires
        top.style.fg is None,
        top.style.bg is None,
    ensures
        spec_compose_cell(bottom, top).style.fg is None,
        spec_compose_cell(bottom, top).style.bg is None,
{
}

/// The placeholder color never reaches a composed cell: each of its colors
/// is missing, is the bottom's color, is the top's color, or is the top's
/// color blended over the bottom's.
pub proof fn lemma_composed_colors_come_from_inputs(bottom: CellView, top: CellView)
    ensures
        ({
            let fg = spec_compose_cell(bottom, top).style.fg;
            ||| fg is None
            ||| fg == bottom.style.fg
            ||| fg == top.style.fg
            ||| (bottom.style.fg is Some && top.style.fg is Some && fg == Some(
                spec_blend_source_over(bottom.style.fg->0, top.style.fg->0),
            ))
        }),
        ({
            let bg = spec_compose_cell(bottom, top).style.bg;
            ||| bg is None
            ||| bg == bottom.style.bg
            ||| bg == top.style.bg
            ||| (bottom.style.bg is Some && top.style.bg is Some && bg == Some(
                spec_blend_source_over(bottom.style.bg->0, top.style.bg->0),
            ))
        }),
{
}

/// The colors of a cell drawn over another. Each color is missing where
/// either cell lacks it. Where both have it, the background is the top's
/// where that is opaque, the top's blended over the bottom's where the top's
/// alpha lies in `1..254`, and the bottom's otherwise; the foreground is the
/// bottom's where the top shows no glyph of its own (a space, or an
/// invisible foreground), and otherwise follows the same rule as the
/// background.
pub proof fn lemma_compose_colors(bottom: CellView, top: CellView)
    ensures
        ({
            let c = spec_compose_cell(bottom, top);
            let (bb, tb) = (bottom.style.bg, top.style.bg);
            &&& (bb is None || tb is None) ==> c.style.bg is None
            &&& (bb is Some && tb is Some && tb->0.spec_alpha() == 255) ==> c.style.bg == tb
            &&& (bb is Some && tb is Some && 1 <= tb->0.spec_alpha() < 254) ==> c.style.bg == Some(
                spec_blend_source_over(bb->0, tb->0),
            )
            &&& (bb is Some && tb is Some && (tb->0.spec_alpha() == 0 || tb->0.spec_alpha() == 254))
                ==> c.style.bg == bb
        }),
        ({
            let c = spec_compose_cell(bottom, top);
            let (bf, tf) = (bottom.style.fg, top.style.fg);
            let no_glyph = top.ch == seq![' '] || (tf is Some && tf->0.spec_alpha() == 0);
            &&& (bf is None || tf is None) ==> c.style.fg is None
            &&& (bf is Some && tf is Some && no_glyph) ==> c.style.fg == bf
            &&& (bf is Some && tf is Some && !no_glyph && tf->0.spec_alpha() == 255) ==> c.style.fg == tf
            &&& (bf is Some && tf is Some && !no_glyph && 1 <= tf->0.spec_alpha() < 254) ==> c.style.fg == Some(
                spec_blend_source_over(bf->0, tf->0),
            )
            &&& (bf is Some && tf is Some && !no_glyph && tf->0.spec_alpha() == 254) ==> c.style.fg == bf
        }),
{
}

/// Whether `v` is a Unicode scalar value.
pub open spec fn spec_is_scalar_value(v: u32) -> bool {
    v <= 0x10FFFF && !(0xD800 <= v && v <= 0xDFFF)
}

/// `char::from_u32`: the character with code point `v`, or `None` where `v`
/// is a surrogate or beyond `0x10FFFF`, as the standard library documents.
#[verifier::external_body]
pub(crate) fn char_from_u32(v: u32) -> (c: Option<char>)
    ensures
        c is Some <==> spec_is_scalar_value(v),
        c matches Some(ch) ==> ch as u32 == v,
{
    std::char::from_u32(v)
}

/// The code point of two braille patterns merged: the dots of both.
pub open spec fn spec_merge_octad(a: char, b: char) -> u32 {
    (0x2800 + ((a as u32 - 0x2800) as u32 | (b as u32 - 0x2800) as u32)) as u32
}

/// Merges two braille patterns into the one showing the dots of both.
pub fn merge_octad(a: char, b: char) -> (c: char)
    requires
        a as u32 >= 0x2800,
        b as u32 >= 0x2800,
        spec_is_scalar_value(spec_merge_octad(a, b)),
    ensures
        c as u32 == spec_merge_octad(a, b),
{
    let mask_a: u32 = (a as u32) - 0x2800;
    let mask_b: u32 = (b as u32) - 0x2800;
    assert(mask_a | mask_b < 0x20_0000) by (bit_vector)
        requires mask_a < 0x20_0000, mask_b < 0x20_0000;
    match char_from_u32(0x2800 + (mask_a | mask_b)) {
        Some(c) => c,
        None => {
            assert(false);
            ' '
        }
    }
}

} // verus!
