//! A styled run of text.
use vstd::prelude::*;

use crate::base::buffer::{cell_at, cell_index, lemma_cell_index, Buffer};
use crate::base::draw::{Position, Size};
use crate::base::timer::NoDelta;
use crate::base::widget::text::LineWidth;
use crate::base::widget::{FrameContext, SimpleWidget};
use crate::base::{spec_str_display_width, DisplayWidth};
use crate::cell::CellView;
use crate::style::Style;
use vstd::string::StringSliceAdditionalSpecFns;

verus! {

/// Whether a byte is an ASCII control character.
pub open spec fn is_ascii_control(b: u8) -> bool {
    b < 0x20 || b == 0x7F
}

/// Why a span could not be made.
#[derive(Clone, Copy, Debug, Hash, PartialEq, Eq, Structural)]
pub enum SpanError {
    /// The content holds an ASCII control character at byte offset `at`.
    ControlCharacter { at: usize },
}

/// A run of text with one style. It holds no ASCII control characters.
pub struct Span {
    pub(crate) content: String,
    style: Style,
}

impl Span {
    /// The text of the span.
    pub closed spec fn spec_content(&self) -> Seq<char> {
        self.content@
    }

    /// The style of the span.
    pub closed spec fn spec_style(&self) -> Style {
        self.style
    }

    /// A span of `content` with the empty style, or where `content` holds an
    /// ASCII control character, the byte offset of the first one.
    pub fn new(content: &str) -> (r: Result<Span, SpanError>)
        ensures
            match r {
                Ok(span) => span.spec_content() == content@ && span.spec_style() == Style::spec_empty()
                    && forall|i: int|
                    0 <= i < content.spec_bytes().len() ==> !is_ascii_control(#[trigger] content.spec_bytes()[i]),
                Err(SpanError::ControlCharacter { at }) => at < content.spec_bytes().len()
                    && is_ascii_control(content.spec_bytes()[at as int]) && forall|i: int|
                    0 <= i < at ==> !is_ascii_control(#[trigger] content.spec_bytes()[i]),
            },
    {
        let bytes = content.as_bytes();
        let mut offset: usize = 0;
        while offset < bytes.len()
            invariant
                bytes@ == content.spec_bytes(),
                offset <= bytes@.len(),
                forall|i: int| 0 <= i < offset ==> !is_ascii_control(#[trigger] content.spec_bytes()[i]),
            decreases bytes@.len() - offset,
        {
            let b = bytes[offset];
            if b < 0x20 || b == 0x7F {
                return Err(SpanError::ControlCharacter { at: offset });
            }
            offset += 1;
        }
        Ok(Span { content: String::from_str(content), style: Style::empty() })
    }

    /// A span of `content` with the empty style, without checking it.
    pub fn new_unchecked(content: &str) -> (span: Span)
        ensures
            span.spec_content() == content@,
            span.spec_style() == Style::spec_empty(),
    {
        Span { content: String::from_str(content), style: Style::empty() }
    }

    /// The span with its text replaced by `content`.
    pub fn set_content(self, content: &str) -> (span: Span)
        ensures
            span.spec_content() == content@,
            span.spec_style() == self.spec_style(),
    {
        Span { content: String::from_str(content), style: self.style }
    }

    /// The text of the span.
    pub fn content(&self) -> (s: &str)
        ensures
            s@ == self.spec_content(),
    {
        self.content.as_str()
    }

    pub fn style(&self) -> (s: Style)
        ensures
            s == self.spec_style(),
    {
        self.style
    }

    pub fn set_style(&mut self, style: Style)
        ensures
            final(self).spec_style() == style,
            final(self).spec_content() == old(self).spec_content(),
    {
        self.style = style;
    }

    /// The span with its style replaced by `style`.
    pub fn with_style(self, style: Style) -> (span: Span)
        ensures
            span.spec_style() == style,
            span.spec_content() == self.spec_content(),
    {
        let mut s = self;
        s.style = style;
        s
    }

    /// A copy of this span, with the same text and style.
    pub fn as_borrowed(&self) -> (span: Span)
        ensures
            span.spec_content() == self.spec_content(),
            span.spec_style() == self.spec_style(),
    {
        Span { content: self.content.clone(), style: self.style }
    }

    /// How many cells the span fills in a buffer `width` cells wide with at
    /// most `limit` cells: one per character, row by row.
    pub open spec fn spec_filled(&self, area: int, limit: int) -> int {
        let n = self.spec_content().len() as int;
        if n <= area && n <= limit {
            n
        } else if area <= limit {
            area
        } else {
            limit
        }
    }

    /// Fills the cells of `buf`, row by row from the top left, with the
    /// characters of the span, one per cell, laying the span's style over
    /// each filled cell; stops at the end of the text, at the end of the
    /// buffer or after `limit` cells. Returns the number of cells filled.
    pub fn fill_cells<Buf: Buffer>(&self, buf: &mut Buf, limit: u16) -> (written: u16)
        requires
            old(buf).wf(),
        ensures
            final(buf).wf(),
            final(buf).spec_size() == old(buf).spec_size(),
            written == self.spec_filled(old(buf).spec_size().spec_area(), limit as int),
            final(buf).spec_cells().len() == old(buf).spec_cells().len(),
            forall|i: int|
                0 <= i < old(buf).spec_cells().len() ==> #[trigger] final(buf).spec_cells()[i] == if i < written {
                    CellView {
                        ch: seq![self.spec_content()[i]],
                        style: old(buf).spec_cells()[i].style.spec_merged(self.spec_style()),
                        ..old(buf).spec_cells()[i]
                    }
                } else {
                    old(buf).spec_cells()[i]
                },
    {
        let sz = buf.size();
        let text = self.content.as_str();
        let n = text.unicode_len();
        let ghost old_cells = buf.spec_cells();
        proof {
            buf.lemma_wf();
        }
        let mut written: u16 = 0;
        let mut y: u16 = 0;
        while y < sz.height
            invariant
                buf.wf(),
                buf.spec_size() == sz,
                sz == old(buf).spec_size(),
                old_cells == old(buf).spec_cells(),
                old_cells.len() == sz.spec_area(),
                buf.spec_cells().len() == old_cells.len(),
                text@ == self.spec_content(),
                n == text@.len(),
                y <= sz.height,
                written as int == self.spec_filled(y * sz.width, limit as int),
                forall|i: int|
                    0 <= i < old_cells.len() ==> #[trigger] buf.spec_cells()[i] == if i < written {
                        CellView {
                            ch: seq![self.spec_content()[i]],
                            style: old_cells[i].style.spec_merged(self.spec_style()),
                            ..old_cells[i]
                        }
                    } else {
                        old_cells[i]
                    },
            decreases sz.height - y,
        {
            let mut x: u16 = 0;
            while x < sz.width
                invariant
                    buf.wf(),
                    buf.spec_size() == sz,
                    sz == old(buf).spec_size(),
                    old_cells == old(buf).spec_cells(),
                    old_cells.len() == sz.spec_area(),
                    buf.spec_cells().len() == old_cells.len(),
                    text@ == self.spec_content(),
                    n == text@.len(),
                    y < sz.height,
                    x <= sz.width,
                    written as int == self.spec_filled(y * sz.width + x, limit as int),
                    forall|i: int|
                        0 <= i < old_cells.len() ==> #[trigger] buf.spec_cells()[i] == if i < written {
                            CellView {
                                ch: seq![self.spec_content()[i]],
                                style: old_cells[i].style.spec_merged(self.spec_style()),
                                ..old_cells[i]
                            }
                        } else {
                            old_cells[i]
                        },
                decreases sz.width - x,
            {
                let pos = Position::new(x, y);
                proof {
                    lemma_cell_index(sz, pos, pos);
                }
                if (written as usize) < n && written < limit {
                    assert(written == y * sz.width + x);
                    let piece = text.substring_char(written as usize, written as usize + 1);
                    let ghost before = buf.spec_cells();
                    let cell = buf.get_cell_mut(pos);
                    cell.set_str(piece);
                    cell.style.merge(self.style);
                    proof {
                        assert(piece@ =~= seq![self.spec_content()[written as int]]);
                    }
                    written = written + 1;
                }
                x += 1;
            }
            proof {
                assert((y + 1) * sz.width == y * sz.width + sz.width) by (nonlinear_arith);
            }
            y += 1;
        }
        proof {
            assert(sz.height * sz.width == sz.width * sz.height) by (nonlinear_arith);
        }
        written
    }
}

impl LineWidth for Span {
    /// The display width of the text.
    open spec fn spec_line_width(&self) -> u16 {
        spec_str_display_width(self.spec_content())
    }

    fn width(&self, display_width: &DisplayWidth) -> (w: u16) {
        display_width.str_width(self.content.as_str())
    }
}

impl SimpleWidget for Span {
    /// The span fills at most one row's worth of cells, from the top left.
    open spec fn spec_simple_drew(&self, display_width: DisplayWidth, size: Size, before: Seq<CellView>, after: Seq<CellView>) -> bool {
        &&& after.len() == before.len()
        &&& forall|i: int|
            0 <= i < before.len() ==> #[trigger] after[i] == if i < self.spec_filled(
                size.spec_area(),
                size.width as int,
            ) {
                CellView { ch: seq![self.spec_content()[i]], style: before[i].style.spec_merged(self.spec_style()), ..before[i] }
            } else {
                before[i]
            }
    }

    /// Fills the buffer with the span, at most one row's worth of cells.
    fn draw<Buf: Buffer>(&self, ctx: FrameContext<'_, Buf>)
        ensures
            final(ctx.buffer).spec_cells().len() == old(ctx.buffer).spec_cells().len(),
            forall|i: int|
                0 <= i < old(ctx.buffer).spec_cells().len() ==> #[trigger] final(ctx.buffer).spec_cells()[i]
                    == if i < self.spec_filled(
                    old(ctx.buffer).spec_size().spec_area(),
                    old(ctx.buffer).spec_size().width as int,
                ) {
                    CellView {
                        ch: seq![self.spec_content()[i]],
                        style: old(ctx.buffer).spec_cells()[i].style.spec_merged(self.spec_style()),
                        ..old(ctx.buffer).spec_cells()[i]
                    }
                } else {
                    old(ctx.buffer).spec_cells()[i]
                },
    {
        let buf = ctx.buffer;
        let width = buf.size().width;
        self.fill_cells(buf, width);
    }
}

} // verus!
