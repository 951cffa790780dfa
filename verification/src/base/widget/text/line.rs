//! A row of styled spans.
use vstd::prelude::*;

use crate::base::buffer::{lemma_cell_index, Buffer};
use crate::base::draw::gfx::text::WrittenTracker;
use crate::base::draw::{Position, Size};
use crate::base::widget::text::span::Span;
use crate::base::widget::text::LineWidth;
use crate::base::widget::{FrameContext, SimpleWidget};
use crate::base::DisplayWidth;
use crate::cell::CellView;
use crate::style::Style;
use vstd::utf8::encode_utf8;

verus! {

/// The characters of `spans` in order, each with the style it is drawn in:
/// `style` with the span's own style laid over it.
pub open spec fn spec_glyphs(spans: Seq<Span>, style: Style) -> Seq<(char, Style)>
    decreases spans.len(),
{
    if spans.len() == 0 {
        seq![]
    } else {
        let last = spans.last();
        spec_glyphs(spans.drop_last(), style) + last.spec_content().map_values(
            |c: char| (c, style.spec_merged(last.spec_style())),
        )
    }
}

/// The sum of the display widths of `spans`.
pub open spec fn spec_widths_sum(spans: Seq<Span>) -> int
    decreases spans.len(),
{
    if spans.len() == 0 {
        0
    } else {
        spec_widths_sum(spans.drop_last()) + spans.last().spec_line_width()
    }
}

/// The number of UTF-8 bytes of the characters of `glyphs`.
pub open spec fn spec_utf8_len(glyphs: Seq<(char, Style)>) -> int {
    encode_utf8(glyphs.map_values(|g: (char, Style)| g.0)).len() as int
}

/// The glyphs of the first spans are the first glyphs of all of them.
proof fn lemma_glyphs_prefix(spans: Seq<Span>, style: Style, i: int)
    requires
        0 <= i <= spans.len(),
    ensures
        spec_glyphs(spans.take(i), style).len() <= spec_glyphs(spans, style).len(),
        forall|k: int|
            0 <= k < spec_glyphs(spans.take(i), style).len() ==> #[trigger] spec_glyphs(
                spans.take(i),
                style,
            )[k] == spec_glyphs(spans, style)[k],
    decreases spans.len(),
{
    if i == spans.len() {
        assert(spans.take(i) =~= spans);
    } else {
        assert(spans.take(i) =~= spans.drop_last().take(i));
        lemma_glyphs_prefix(spans.drop_last(), style, i);
    }
}

/// Taking one more span adds that span's glyphs at the end.
proof fn lemma_glyphs_step(spans: Seq<Span>, style: Style, i: int)
    requires
        0 <= i < spans.len(),
    ensures
        spec_glyphs(spans.take(i + 1), style) == spec_glyphs(spans.take(i), style)
            + spans[i].spec_content().map_values(
            |c: char| (c, style.spec_merged(spans[i].spec_style())),
        ),
{
    assert(spans.take(i + 1).drop_last() =~= spans.take(i));
}

/// UTF-8 encodes a sequence character by character.
proof fn lemma_encode_utf8_append(a: Seq<char>, b: Seq<char>)
    ensures
        encode_utf8(a + b) == encode_utf8(a) + encode_utf8(b),
    decreases a.len(),
{
    if a.len() == 0 {
        assert(a + b =~= b);
    } else {
        assert((a + b).drop_first() =~= a.drop_first() + b);
        lemma_encode_utf8_append(a.drop_first(), b);
    }
}

/// One character takes at most four bytes.
proof fn lemma_encode_utf8_char(c: char)
    ensures
        1 <= encode_utf8(seq![c]).len() <= 4,
{
    reveal_with_fuel(encode_utf8, 2);
    assert(seq![c].drop_first() =~= Seq::<char>::empty());
}

/// A row of spans, each in its own style, over a style of the line's own.
pub struct Line {
    spans: Vec<Span>,
    style: Style,
}

impl Line {
    /// The spans of the line, in order.
    pub closed spec fn spec_spans(&self) -> Seq<Span> {
        self.spans@
    }

    /// The style of the line.
    pub closed spec fn spec_style(&self) -> Style {
        self.style
    }

    /// What the line draws, character by character.
    pub open spec fn spec_line_glyphs(&self) -> Seq<(char, Style)> {
        spec_glyphs(self.spec_spans(), self.spec_style())
    }

    /// How many cells the line fills in a buffer of `size`: its characters,
    /// one per cell of the top row, as far as the row reaches.
    pub open spec fn spec_filled(&self, size: Size) -> int {
        if size.spec_area() == 0 {
            0
        } else if self.spec_line_glyphs().len() < size.width {
            self.spec_line_glyphs().len() as int
        } else {
            size.width as int
        }
    }

    /// The cells of a buffer of `size` after the line is drawn over `cells`:
    /// the characters in the first cells of the top row, each under its
    /// style, and the line's style over the rest of the top row.
    pub open spec fn spec_drawn(&self, size: Size, cells: Seq<CellView>) -> Seq<CellView> {
        let g = self.spec_line_glyphs();
        let n = self.spec_filled(size);
        Seq::new(
            cells.len(),
            |i: int|
                if i < n {
                    CellView { ch: seq![g[i].0], style: cells[i].style.spec_merged(g[i].1), ..cells[i] }
                } else if i < size.width {
                    CellView { style: cells[i].style.spec_merged(self.spec_style()), ..cells[i] }
                } else {
                    cells[i]
                },
        )
    }

    /// A line of `spans` with the empty style.
    pub fn new(spans: Vec<Span>) -> (l: Line)
        ensures
            l.spec_spans() == spans@,
            l.spec_style() == Style::spec_empty(),
    {
        Line { spans, style: Style::empty() }
    }

    pub fn style(&self) -> (s: Style)
        ensures
            s == self.spec_style(),
    {
        self.style
    }

    pub fn set_style(&mut self, style: Style)
        ensures
            final(self).spec_style() == style,
            final(self).spec_spans() == old(self).spec_spans(),
    {
        self.style = style;
    }

    /// Draws the line into the top row of `buf`; returns the cells filled
    /// and the UTF-8 bytes of the characters written.
    fn write_row<Buf: Buffer>(&self, buf: &mut Buf) -> (r: (u16, u32))
        requires
            old(buf).wf(),
        ensures
            final(buf).wf(),
            final(buf).spec_size() == old(buf).spec_size(),
            r.0 == self.spec_filled(old(buf).spec_size()),
            r.1 == spec_utf8_len(self.spec_line_glyphs().take(r.0 as int)),
            final(buf).spec_cells() == self.spec_drawn(old(buf).spec_size(), old(buf).spec_cells()),
    {
        let sz = buf.size();
        let ghost old_cells = buf.spec_cells();
        let ghost g = self.spec_line_glyphs();
        proof {
            buf.lemma_wf();
        }
        if sz.area() == 0 {
            assert(buf.spec_cells() =~= self.spec_drawn(sz, old_cells));
            assert(g.take(0).map_values(|g: (char, Style)| g.0) =~= Seq::<char>::empty());
            return (0, 0);
        }
        let mut offset: u16 = 0;
        let mut bytes: u32 = 0;
        let mut i: usize = 0;
        while i < self.spans.len() && offset < sz.width
            invariant
                buf.wf(),
                buf.spec_size() == sz,
                sz == old(buf).spec_size(),
                old_cells == old(buf).spec_cells(),
                old_cells.len() == sz.spec_area(),
                buf.spec_cells().len() == old_cells.len(),
                sz.spec_area() > 0,
                g == spec_glyphs(self.spans@, self.style),
                i <= self.spans@.len(),
                offset <= sz.width,
                offset as int == if spec_glyphs(self.spans@.take(i as int), self.style).len() < sz.width {
                    spec_glyphs(self.spans@.take(i as int), self.style).len() as int
                } else {
                    sz.width as int
                },
                offset <= g.len(),
                bytes == spec_utf8_len(g.take(offset as int)),
                bytes <= 4 * offset,
                forall|k: int|
                    0 <= k < old_cells.len() ==> #[trigger] buf.spec_cells()[k] == if k < offset {
                        CellView { ch: seq![g[k].0], style: old_cells[k].style.spec_merged(g[k].1), ..old_cells[k] }
                    } else {
                        old_cells[k]
                    },
            decreases self.spans@.len() - i,
        {
            proof {
                lemma_glyphs_prefix(self.spans@, self.style, i as int);
                lemma_glyphs_prefix(self.spans@, self.style, i as int + 1);
                lemma_glyphs_step(self.spans@, self.style, i as int);
            }
            let span = &self.spans[i];
            let text = span.content();
            let n = text.unicode_len();
            let ghost p = spec_glyphs(self.spans@.take(i as int), self.style).len() as int;
            let ghost st = self.style.spec_merged(span.spec_style());
            assert(text@ == span.spec_content());
            let mut j: usize = 0;
            while j < n && offset < sz.width
                invariant
                    buf.wf(),
                    buf.spec_size() == sz,
                    sz == old(buf).spec_size(),
                    old_cells == old(buf).spec_cells(),
                    old_cells.len() == sz.spec_area(),
                    buf.spec_cells().len() == old_cells.len(),
                    sz.spec_area() > 0,
                    g == spec_glyphs(self.spans@, self.style),
                    i < self.spans@.len(),
                    span == self.spans@[i as int],
                    text@ == span.spec_content(),
                    n == text@.len(),
                    st == self.style.spec_merged(span.spec_style()),
                    p == spec_glyphs(self.spans@.take(i as int), self.style).len(),
                    spec_glyphs(self.spans@.take(i as int + 1), self.style) == spec_glyphs(
                        self.spans@.take(i as int),
                        self.style,
                    ) + span.spec_content().map_values(|c: char| (c, st)),
                    forall|k: int|
                        0 <= k < spec_glyphs(self.spans@.take(i as int + 1), self.style).len() ==> #[trigger] spec_glyphs(
                            self.spans@.take(i as int + 1),
                            self.style,
                        )[k] == g[k],
                    spec_glyphs(self.spans@.take(i as int + 1), self.style).len() <= g.len(),
                    j <= n,
                    offset == p + j,
                    offset <= sz.width,
                    bytes == spec_utf8_len(g.take(offset as int)),
                    bytes <= 4 * offset,
                    forall|k: int|
                        0 <= k < old_cells.len() ==> #[trigger] buf.spec_cells()[k] == if k < offset {
                            CellView { ch: seq![g[k].0], style: old_cells[k].style.spec_merged(g[k].1), ..old_cells[k] }
                        } else {
                            old_cells[k]
                        },
                decreases n - j,
            {
                let pos = Position::new(offset, 0);
                proof {
                    lemma_cell_index(sz, pos, pos);
                }
                let piece = text.substring_char(j, j + 1);
                let ghost c = text@[j as int];
                assert(piece@ =~= seq![c]);
                assert(spec_glyphs(self.spans@.take(i as int + 1), self.style)[offset as int] == (c, st));
                assert(g[offset as int] == (c, st));
                proof {
                    lemma_encode_utf8_char(c);
                    let before = g.take(offset as int).map_values(|g: (char, Style)| g.0);
                    assert(g.take(offset + 1).map_values(|g: (char, Style)| g.0) =~= before + seq![c]);
                    lemma_encode_utf8_append(before, seq![c]);
                }
                let plen = piece.len();
                let cell = buf.get_cell_mut(pos);
                cell.set_str(piece);
                cell.style.merge(self.style.merged(span.style()));
                bytes = bytes + plen as u32;
                offset = offset + 1;
                j += 1;
            }
            i += 1;
        }
        proof {
            lemma_glyphs_prefix(self.spans@, self.style, i as int);
            if i == self.spans@.len() {
                assert(self.spans@.take(i as int) =~= self.spans@);
            }
        }
        let filled = offset;
        let mut x: u16 = offset;
        while x < sz.width
            invariant
                buf.wf(),
                buf.spec_size() == sz,
                sz == old(buf).spec_size(),
                old_cells == old(buf).spec_cells(),
                old_cells.len() == sz.spec_area(),
                buf.spec_cells().len() == old_cells.len(),
                sz.spec_area() > 0,
                filled as int == self.spec_filled(sz),
                g == self.spec_line_glyphs(),
                filled <= x <= sz.width,
                forall|k: int|
                    0 <= k < old_cells.len() ==> #[trigger] buf.spec_cells()[k] == if k < filled {
                        CellView { ch: seq![g[k].0], style: old_cells[k].style.spec_merged(g[k].1), ..old_cells[k] }
                    } else if k < x {
                        CellView { style: old_cells[k].style.spec_merged(self.spec_style()), ..old_cells[k] }
                    } else {
                        old_cells[k]
                    },
            decreases sz.width - x,
        {
            let pos = Position::new(x, 0);
            proof {
                lemma_cell_index(sz, pos, pos);
            }
            let cell = buf.get_cell_mut(pos);
            cell.style.merge(self.style);
            x += 1;
        }
        assert(buf.spec_cells() =~= self.spec_drawn(sz, old_cells));
        (filled, bytes)
    }

    /// Draws the line into the top row of the context's buffer: each span's
    /// characters one per cell, under the line's style with the span's own
    /// laid over it, and the line's style over the rest of the row. Returns
    /// the cells filled and the UTF-8 bytes written.
    pub fn fill_cells<Buf: Buffer>(&self, ctx: FrameContext<'_, Buf>) -> (wt: WrittenTracker)
        requires
            old(ctx.buffer).wf(),
            spec_utf8_len(
                self.spec_line_glyphs().take(self.spec_filled(old(ctx.buffer).spec_size())),
            ) <= u16::MAX,
        ensures
            final(ctx.buffer).wf(),
            final(ctx.buffer).spec_size() == old(ctx.buffer).spec_size(),
            wt.cells == self.spec_filled(old(ctx.buffer).spec_size()),
            wt.bytes == spec_utf8_len(self.spec_line_glyphs().take(wt.cells as int)),
            final(ctx.buffer).spec_cells() == self.spec_drawn(
                old(ctx.buffer).spec_size(),
                old(ctx.buffer).spec_cells(),
            ),
    {
        let buf = ctx.buffer;
        let (cells, bytes) = self.write_row(buf);
        WrittenTracker { cells, bytes: bytes as u16 }
    }
}

impl LineWidth for Line {
    /// The sum of the widths of the spans, saturated at `u16::MAX`.
    open spec fn spec_line_width(&self) -> u16 {
        let s = spec_widths_sum(self.spec_spans());
        if s > u16::MAX {
            u16::MAX
        } else {
            s as u16
        }
    }

    fn width(&self, display_width: &DisplayWidth) -> (w: u16) {
        let mut sum: u16 = 0;
        let mut i: usize = 0;
        assert(self.spans@.take(self.spans@.len() as int) =~= self.spans@);
        while i < self.spans.len()
            invariant
                i <= self.spans@.len(),
                self.spans@.take(self.spans@.len() as int) == self.spans@,
                sum as int == if spec_widths_sum(self.spans@.take(i as int)) > u16::MAX {
                    u16::MAX as int
                } else {
                    spec_widths_sum(self.spans@.take(i as int))
                },
            ensures
                sum as int == if spec_widths_sum(self.spans@) > u16::MAX {
                    u16::MAX as int
                } else {
                    spec_widths_sum(self.spans@)
                },
            decreases self.spans@.len() - i,
        {
            assert(self.spans@.take(i + 1).drop_last() =~= self.spans@.take(i as int));
            let w = self.spans[i].width(display_width);
            assert(spec_widths_sum(self.spans@.take(i + 1)) == spec_widths_sum(self.spans@.take(i as int)) + w);
            sum = sum.saturating_add(w);
            i += 1;
            if sum == u16::MAX {
                proof {
                    lemma_widths_sum_monotonic(self.spans@, i as int);
                }
                break;
            }
        }
        sum
    }
}

/// Adding spans never lowers the sum of widths.
proof fn lemma_widths_sum_monotonic(spans: Seq<Span>, i: int)
    requires
        0 <= i <= spans.len(),
    ensures
        spec_widths_sum(spans.take(i)) <= spec_widths_sum(spans),
    decreases spans.len(),
{
    if i < spans.len() {
        assert(spans.take(i) =~= spans.drop_last().take(i));
        lemma_widths_sum_monotonic(spans.drop_last(), i);
    } else {
        assert(spans.take(i) =~= spans);
    }
}

impl SimpleWidget for Line {
    /// The line leaves the cells [`Line::spec_drawn`] gives.
    open spec fn spec_simple_drew(&self, display_width: DisplayWidth, size: Size, before: Seq<CellView>, after: Seq<CellView>) -> bool {
        after == self.spec_drawn(size, before)
    }

    /// Draws the line as [`Line::fill_cells`] does.
    fn draw<Buf: Buffer>(&self, ctx: FrameContext<'_, Buf>)
        ensures
            final(ctx.buffer).spec_cells() == self.spec_drawn(
                old(ctx.buffer).spec_size(),
                old(ctx.buffer).spec_cells(),
            ),
    {
        let buf = ctx.buffer;
        let _ = self.write_row(buf);
    }
}

} // verus!
