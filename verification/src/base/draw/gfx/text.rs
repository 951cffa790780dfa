//! Drawing text: a string laid out grapheme by grapheme on one line.
use vstd::prelude::*;

use unicode_segmentation::UnicodeSegmentation;

use crate::base::buffer::{cell_index, lemma_cell_index, Buffer};
use crate::base::draw::{Position, Size};
use crate::base::widget::FrameContext;
use crate::base::{spec_str_display_width, DisplayWidth};
use crate::cell::CellView;
use crate::style::Style;

verus! {

/// The grapheme clusters that the `unicode-segmentation` crate splits a
/// string into (extended clusters where `is_extended` holds).
pub uninterp spec fn spec_graphemes(s: Seq<char>, is_extended: bool) -> Seq<Seq<char>>;

/// `UnicodeSegmentation::graphemes` of `unicode-segmentation`, collected:
/// the grapheme clusters of `s` in order. The clusters are named, not stated.
#[verifier::external_body]
fn graphemes(s: &str, is_extended: bool) -> (g: Vec<&str>)
    ensures
        g@.map_values(|t: &str| t@) == spec_graphemes(s@, is_extended),
{
    UnicodeSegmentation::graphemes(s, is_extended).collect()
}

/// How much of a text was written: the cells it now occupies and the bytes
/// of text written.
#[derive(Clone, Copy, Debug, Hash, PartialEq, Eq, Structural)]
pub struct WrittenTracker {
    pub cells: u16,
    pub bytes: u16,
}

impl Default for WrittenTracker {
    /// Nothing written.
    fn default() -> (w: WrittenTracker)
        ensures
            w == (WrittenTracker { cells: 0, bytes: 0 }),
    {
        WrittenTracker { cells: 0, bytes: 0 }
    }
}

/// The bytes a grapheme counts for: its UTF-8 length, truncated to 16 bits.
pub open spec fn spec_grapheme_bytes(g: Seq<char>) -> int {
    vstd::utf8::encode_utf8(g).len() as usize as u16 as int
}

/// Where the cursor of a text stands: its column, the bytes counted so far,
/// and whether writing has stopped.
pub struct TextCursor {
    pub x: int,
    pub bytes: int,
    pub stopped: bool,
}

/// Whether a grapheme of width `width` at column `x` is written: it must end
/// within the buffer's width.
pub open spec fn spec_accepts(size: Size, x: int, width: int) -> bool {
    x + width <= size.width
}

/// The cursor after the first `n` graphemes of a text started at column `x0`.
pub open spec fn spec_text_cursor(size: Size, x0: int, gs: Seq<Seq<char>>, n: int) -> TextCursor
    decreases n,
{
    if n <= 0 {
        TextCursor { x: x0, bytes: 0, stopped: false }
    } else {
        let c = spec_text_cursor(size, x0, gs, n - 1);
        let w = spec_str_display_width(gs[n - 1]) as int;
        if c.stopped || !spec_accepts(size, c.x, w) {
            TextCursor { stopped: true, ..c }
        } else {
            TextCursor { x: c.x + w, bytes: c.bytes + spec_grapheme_bytes(gs[n - 1]), stopped: false }
        }
    }
}

/// Whether writing the first `n` graphemes stays in the buffer and counts
/// at most `u16::MAX` bytes.
pub open spec fn spec_text_fits(size: Size, x0: int, gs: Seq<Seq<char>>, n: int) -> bool
    decreases n,
{
    if n <= 0 {
        true
    } else {
        let c = spec_text_cursor(size, x0, gs, n - 1);
        let w = spec_str_display_width(gs[n - 1]) as int;
        &&& spec_text_fits(size, x0, gs, n - 1)
        &&& (!c.stopped && spec_accepts(size, c.x, w) ==> c.x < size.width && c.bytes
            + spec_grapheme_bytes(gs[n - 1]) <= u16::MAX)
    }
}

/// A cell given the text `g`, with `style` laid over its style if given.
pub open spec fn spec_text_cell(cell: CellView, g: Seq<char>, style: Option<Style>) -> CellView {
    CellView {
        ch: g,
        style: match style {
            Some(s) => cell.style.spec_merged(s),
            None => cell.style,
        },
        ..cell
    }
}

/// The cells after the first `n` graphemes of a text are written at `pos`.
pub open spec fn spec_text_cells(
    cells: Seq<CellView>,
    size: Size,
    pos: Position,
    gs: Seq<Seq<char>>,
    style: Option<Style>,
    n: int,
) -> Seq<CellView>
    decreases n,
{
    if n <= 0 {
        cells
    } else {
        let prev = spec_text_cells(cells, size, pos, gs, style, n - 1);
        let c = spec_text_cursor(size, pos.x as int, gs, n - 1);
        let w = spec_str_display_width(gs[n - 1]) as int;
        if c.stopped || !spec_accepts(size, c.x, w) {
            prev
        } else {
            let i = pos.y * size.width + c.x;
            prev.update(i, spec_text_cell(prev[i], gs[n - 1], style))
        }
    }
}

/// Whether text at `pos` in a buffer of size `size` writes nothing at all.
pub open spec fn spec_text_skipped(size: Size, pos: Position) -> bool {
    size.spec_area() == 0 || !size.spec_is_within(pos)
}

/// What writing the graphemes `gs` at `pos` reports, and the cells after.
pub open spec fn spec_draw_text(
    cells: Seq<CellView>,
    size: Size,
    pos: Position,
    gs: Seq<Seq<char>>,
    style: Option<Style>,
) -> (WrittenTracker, Seq<CellView>) {
    if spec_text_skipped(size, pos) {
        (WrittenTracker { cells: 0, bytes: 0 }, cells)
    } else {
        let c = spec_text_cursor(size, pos.x as int, gs, gs.len() as int);
        (
            WrittenTracker { cells: (c.x - pos.x) as u16, bytes: c.bytes as u16 },
            spec_text_cells(cells, size, pos, gs, style, gs.len() as int),
        )
    }
}

proof fn lemma_text_fits_prefix(size: Size, x0: int, gs: Seq<Seq<char>>, i: int, n: int)
    requires
        0 <= i <= n,
        spec_text_fits(size, x0, gs, n),
    ensures
        spec_text_fits(size, x0, gs, i),
    decreases n - i,
{
    if i < n {
        lemma_text_fits_prefix(size, x0, gs, i, n - 1);
    }
}

proof fn lemma_cursor_monotonic(size: Size, x0: int, gs: Seq<Seq<char>>, n: int)
    requires
        0 <= x0 <= u16::MAX,
    ensures
        x0 <= spec_text_cursor(size, x0, gs, n).x <= u16::MAX,
        spec_text_cursor(size, x0, gs, n).x == x0 || spec_text_cursor(size, x0, gs, n).x
            <= size.width,
        0 <= spec_text_cursor(size, x0, gs, n).bytes,
    decreases n,
{
    if n > 0 {
        lemma_cursor_monotonic(size, x0, gs, n - 1);
    }
}

/// Writes `s` at `pos`, grapheme by grapheme, on one line of the buffer.
///
/// A grapheme is written while it ends within the buffer's width; the first
/// one that does not stops the writing, so the text is cut at the buffer's
/// edge, and cells past the text stay untouched. The limit (`_limit`) cuts
/// no text that fits the row, and a grapheme ending past the edge is never
/// written, so it has no effect. Where `style` is given it is laid over the
/// style of each written cell. Returns how much was written.
pub fn draw_text_inline<Buf: Buffer, D>(
    fc: FrameContext<'_, Buf, D>,
    pos: Position,
    s: &str,
    style: Option<Style>,
    _limit: u16,
) -> (wt: WrittenTracker)
    requires
        old(fc.buffer).wf(),
        !spec_text_skipped(old(fc.buffer).spec_size(), pos) ==> spec_text_fits(
            old(fc.buffer).spec_size(),
            pos.x as int,
            spec_graphemes(s@, true),
            spec_graphemes(s@, true).len() as int,
        ),
    ensures
        final(fc.buffer).wf(),
        final(fc.buffer).spec_size() == old(fc.buffer).spec_size(),
        (wt, final(fc.buffer).spec_cells()) == spec_draw_text(
            old(fc.buffer).spec_cells(),
            old(fc.buffer).spec_size(),
            pos,
            spec_graphemes(s@, true),
            style,
        ),
        !spec_text_skipped(old(fc.buffer).spec_size(), pos) ==> pos.x + wt.cells
            <= old(fc.buffer).spec_size().width,
        spec_text_skipped(old(fc.buffer).spec_size(), pos) ==> wt.cells == 0,
{
    let buf = fc.buffer;
    let display_width = fc.display_width;
    let sz = buf.size();
    if sz.area() == 0 || !sz.is_within(pos) {
        return WrittenTracker::default();
    }

    let gs = graphemes(s, true);
    let ghost gv = gs@.map_values(|t: &str| t@);
    let ghost old_cells = buf.spec_cells();
    let mut wt = WrittenTracker::default();
    let orig = pos.x;
    let mut x: u16 = pos.x;
    let mut k: usize = 0;
    while k < gs.len()
        invariant
            buf.wf(),
            buf.spec_size() == sz,
            sz == old(fc.buffer).spec_size(),
            old_cells == old(fc.buffer).spec_cells(),
            gv == gs@.map_values(|t: &str| t@),
            gv == spec_graphemes(s@, true),
            sz.spec_is_within(pos),
            orig == pos.x,
            k <= gs@.len(),
            spec_text_fits(sz, pos.x as int, gv, gv.len() as int),
            !spec_text_cursor(sz, pos.x as int, gv, k as int).stopped,
            x == spec_text_cursor(sz, pos.x as int, gv, k as int).x,
            wt.bytes == spec_text_cursor(sz, pos.x as int, gv, k as int).bytes,
            buf.spec_cells() == spec_text_cells(old_cells, sz, pos, gv, style, k as int),
        ensures
            buf.wf(),
            buf.spec_size() == sz,
            k <= gs@.len(),
            x == spec_text_cursor(sz, pos.x as int, gv, k as int).x,
            wt.bytes == spec_text_cursor(sz, pos.x as int, gv, k as int).bytes,
            buf.spec_cells() == spec_text_cells(old_cells, sz, pos, gv, style, k as int),
            k < gs@.len() ==> spec_text_cursor(sz, pos.x as int, gv, k + 1).stopped,
        decreases gs@.len() - k,
    {
        let g: &str = gs[k];
        assert(g@ == gv[k as int]);
        proof {
            lemma_text_fits_prefix(sz, pos.x as int, gv, k + 1, gv.len() as int);
            lemma_cursor_monotonic(sz, pos.x as int, gv, k as int);
        }
        let grapheme_width = display_width.str_width(g);
        if (x as u32) + (grapheme_width as u32) > 0xFFFF {
            assert(spec_text_cursor(sz, pos.x as int, gv, k + 1).stopped);
            break;
        }
        let added: u16 = x + grapheme_width;
        if sz.width < added {
            assert(spec_text_cursor(sz, pos.x as int, gv, k + 1).stopped);
            break;
        }
        assert(spec_text_fits(sz, pos.x as int, gv, k + 1));
        let glen = g.len();
        let cur_pos = Position::new(x, pos.y);
        proof {
            buf.lemma_wf();
            lemma_cell_index(sz, cur_pos, cur_pos);
        }
        let cell = buf.get_cell_mut(cur_pos);
        cell.set_str(g);
        if let Some(st) = style {
            cell.style_mut().merge(st);
        }
        wt.bytes = wt.bytes + glen as u16;
        x = added;
        k += 1;
    }
    proof {
        lemma_text_rest_unchanged(sz, pos, gv, style, old_cells, k as int);
        lemma_cursor_monotonic(sz, pos.x as int, gv, k as int);
    }
    wt.cells = x - orig;
    wt
}

/// Once writing has stopped, the rest of a text changes nothing.
proof fn lemma_text_rest_unchanged(
    size: Size,
    pos: Position,
    gs: Seq<Seq<char>>,
    style: Option<Style>,
    cells: Seq<CellView>,
    k: int,
)
    requires
        0 <= k <= gs.len(),
        k < gs.len() ==> spec_text_cursor(size, pos.x as int, gs, k + 1).stopped,
    ensures
        spec_text_cells(cells, size, pos, gs, style, gs.len() as int) == spec_text_cells(
            cells,
            size,
            pos,
            gs,
            style,
            k,
        ),
        spec_text_cursor(size, pos.x as int, gs, gs.len() as int).x == spec_text_cursor(
            size,
            pos.x as int,
            gs,
            k,
        ).x,
        spec_text_cursor(size, pos.x as int, gs, gs.len() as int).bytes == spec_text_cursor(
            size,
            pos.x as int,
            gs,
            k,
        ).bytes,
{
    if k < gs.len() {
        lemma_stopped_stays(size, pos, gs, style, cells, k, gs.len() as int);
    }
}

/// After writing stops at step `k`, every later step keeps the cursor and
/// the cells of step `k`.
proof fn lemma_stopped_stays(
    size: Size,
    pos: Position,
    gs: Seq<Seq<char>>,
    style: Option<Style>,
    cells: Seq<CellView>,
    k: int,
    n: int,
)
    requires
        0 <= k < n <= gs.len(),
        spec_text_cursor(size, pos.x as int, gs, k + 1).stopped,
    ensures
        spec_text_cursor(size, pos.x as int, gs, n).stopped,
        spec_text_cursor(size, pos.x as int, gs, n).x == spec_text_cursor(size, pos.x as int, gs, k).x,
        spec_text_cursor(size, pos.x as int, gs, n).bytes == spec_text_cursor(
            size,
            pos.x as int,
            gs,
            k,
        ).bytes,
        spec_text_cells(cells, size, pos, gs, style, n) == spec_text_cells(cells, size, pos, gs, style, k),
    decreases n - k,
{
    if n > k + 1 {
        lemma_stopped_stays(size, pos, gs, style, cells, k, n - 1);
    }
}

/// Writes `s` at `pos` with the style of the cells kept; see
/// [`draw_text_inline`].
pub fn draw_string<Buf: Buffer, D>(fc: FrameContext<'_, Buf, D>, pos: Position, s: &str) -> (wt: WrittenTracker)
    requires
        old(fc.buffer).wf(),
        !spec_text_skipped(old(fc.buffer).spec_size(), pos) ==> spec_text_fits(
            old(fc.buffer).spec_size(),
            pos.x as int,
            spec_graphemes(s@, true),
            spec_graphemes(s@, true).len() as int,
        ),
    ensures
        final(fc.buffer).wf(),
        final(fc.buffer).spec_size() == old(fc.buffer).spec_size(),
        (wt, final(fc.buffer).spec_cells()) == spec_draw_text(
            old(fc.buffer).spec_cells(),
            old(fc.buffer).spec_size(),
            pos,
            spec_graphemes(s@, true),
            None,
        ),
        !spec_text_skipped(old(fc.buffer).spec_size(), pos) ==> pos.x + wt.cells <= old(
            fc.buffer,
        ).spec_size().width,
{
    draw_text_inline(fc, pos, s, None, u16::MAX)
}

/// Writes `s` at `pos` with `style` laid over each written cell; see
/// [`draw_text_inline`].
pub fn draw_text<Buf: Buffer, D>(
    fc: FrameContext<'_, Buf, D>,
    pos: Position,
    s: &str,
    style: Style,
    limit: u16,
) -> (wt: WrittenTracker)
    requires
        old(fc.buffer).wf(),
        !spec_text_skipped(old(fc.buffer).spec_size(), pos) ==> spec_text_fits(
            old(fc.buffer).spec_size(),
            pos.x as int,
            spec_graphemes(s@, true),
            spec_graphemes(s@, true).len() as int,
        ),
    ensures
        final(fc.buffer).wf(),
        final(fc.buffer).spec_size() == old(fc.buffer).spec_size(),
        (wt, final(fc.buffer).spec_cells()) == spec_draw_text(
            old(fc.buffer).spec_cells(),
            old(fc.buffer).spec_size(),
            pos,
            spec_graphemes(s@, true),
            Some(style),
        ),
        !spec_text_skipped(old(fc.buffer).spec_size(), pos) ==> pos.x + wt.cells <= old(
            fc.buffer,
        ).spec_size().width,
{
    draw_text_inline(fc, pos, s, Some(style), limit)
}

/// Whether the graphemes `gs` written at column `x0` stay in a buffer of
/// size `size` and count at most `u16::MAX` bytes.
fn text_fits(gs: &Vec<&str>, size: Size, x0: u16, display_width: DisplayWidth) -> (b: bool)
    ensures
        b == spec_text_fits(size, x0 as int, gs@.map_values(|t: &str| t@), gs@.len() as int),
{
    let ghost gv = gs@.map_values(|t: &str| t@);
    let mut x: u16 = x0;
    let mut bytes: u16 = 0;
    let mut stopped = false;
    let mut k: usize = 0;
    while k < gs.len()
        invariant
            gv == gs@.map_values(|t: &str| t@),
            k <= gs@.len(),
            spec_text_fits(size, x0 as int, gv, k as int),
            stopped == spec_text_cursor(size, x0 as int, gv, k as int).stopped,
            x0 <= x,
            x == spec_text_cursor(size, x0 as int, gv, k as int).x,
            bytes == spec_text_cursor(size, x0 as int, gv, k as int).bytes,
        decreases gs@.len() - k,
    {
        let g: &str = gs[k];
        assert(g@ == gv[k as int]);
        if !stopped {
            let w = display_width.str_width(g);
            let accepted = size.width as u32 >= (x as u32) + (w as u32);
            if accepted {
                let glen = g.len();
                let b: u16 = glen as u16;
                if x >= size.width || (bytes as u32) + (b as u32) > 0xFFFF {
                    proof {
                        lemma_fits_false_after(size, x0 as int, gv, k + 1, gv.len() as int);
                    }
                    return false;
                }
                x = x + w;
                bytes = bytes + b;
            } else {
                stopped = true;
            }
        }
        k += 1;
    }
    true
}

/// A text that does not fit after `n` graphemes does not fit after more.
proof fn lemma_fits_false_after(size: Size, x0: int, gs: Seq<Seq<char>>, n: int, m: int)
    requires
        0 <= n <= m,
        !spec_text_fits(size, x0, gs, n),
    ensures
        !spec_text_fits(size, x0, gs, m),
    decreases m - n,
{
    if n < m {
        lemma_fits_false_after(size, x0, gs, n, m - 1);
    }
}

/// Writes `s` at `pos` as [`draw_text_inline`] does, where that stays in the
/// buffer and counts at most `u16::MAX` bytes; otherwise writes nothing and
/// returns `None`.
pub fn try_draw_text_inline<Buf: Buffer, D>(
    fc: FrameContext<'_, Buf, D>,
    pos: Position,
    s: &str,
    style: Option<Style>,
    limit: u16,
) -> (r: Option<WrittenTracker>)
    requires
        old(fc.buffer).wf(),
    ensures
        final(fc.buffer).wf(),
        final(fc.buffer).spec_size() == old(fc.buffer).spec_size(),
        r is Some <==> (spec_text_skipped(old(fc.buffer).spec_size(), pos) || spec_text_fits(
            old(fc.buffer).spec_size(),
            pos.x as int,
            spec_graphemes(s@, true),
            spec_graphemes(s@, true).len() as int,
        )),
        r matches Some(wt) ==> (wt, final(fc.buffer).spec_cells()) == spec_draw_text(
            old(fc.buffer).spec_cells(),
            old(fc.buffer).spec_size(),
            pos,
            spec_graphemes(s@, true),
            style,
        ),
        r is None ==> final(fc.buffer).spec_cells() == old(fc.buffer).spec_cells(),
{
    let sz = fc.buffer.size();
    if sz.area() == 0 || !sz.is_within(pos) {
        return Some(draw_text_inline(fc, pos, s, style, limit));
    }
    let gs = graphemes(s, true);
    if text_fits(&gs, sz, pos.x, fc.display_width) {
        Some(draw_text_inline(fc, pos, s, style, limit))
    } else {
        None
    }
}

/// [`draw_string`] where the text stays in the buffer and counts at most
/// `u16::MAX` bytes; otherwise writes nothing and returns `None`.
pub fn try_draw_string<Buf: Buffer, D>(fc: FrameContext<'_, Buf, D>, pos: Position, s: &str) -> (r: Option<
    WrittenTracker,
>)
    requires
        old(fc.buffer).wf(),
    ensures
        final(fc.buffer).wf(),
        final(fc.buffer).spec_size() == old(fc.buffer).spec_size(),
        r is Some <==> (spec_text_skipped(old(fc.buffer).spec_size(), pos) || spec_text_fits(
            old(fc.buffer).spec_size(),
            pos.x as int,
            spec_graphemes(s@, true),
            spec_graphemes(s@, true).len() as int,
        )),
        r matches Some(wt) ==> (wt, final(fc.buffer).spec_cells()) == spec_draw_text(
            old(fc.buffer).spec_cells(),
            old(fc.buffer).spec_size(),
            pos,
            spec_graphemes(s@, true),
            None,
        ),
        r is None ==> final(fc.buffer).spec_cells() == old(fc.buffer).spec_cells(),
{
    let sz = fc.buffer.size();
    if sz.area() == 0 || !sz.is_within(pos) {
        return Some(draw_string(fc, pos, s));
    }
    let gs = graphemes(s, true);
    if text_fits(&gs, sz, pos.x, fc.display_width) {
        Some(draw_string(fc, pos, s))
    } else {
        None
    }
}

/// [`draw_text`] where the text stays in the buffer and counts at most
/// `u16::MAX` bytes; otherwise writes nothing and returns `None`.
pub fn try_draw_text<Buf: Buffer, D>(
    fc: FrameContext<'_, Buf, D>,
    pos: Position,
    s: &str,
    style: Style,
    limit: u16,
) -> (r: Option<WrittenTracker>)
    requires
        old(fc.buffer).wf(),
    ensures
        final(fc.buffer).wf(),
        final(fc.buffer).spec_size() == old(fc.buffer).spec_size(),
        r is Some <==> (spec_text_skipped(old(fc.buffer).spec_size(), pos) || spec_text_fits(
            old(fc.buffer).spec_size(),
            pos.x as int,
            spec_graphemes(s@, true),
            spec_graphemes(s@, true).len() as int,
        )),
        r matches Some(wt) ==> (wt, final(fc.buffer).spec_cells()) == spec_draw_text(
            old(fc.buffer).spec_cells(),
            old(fc.buffer).spec_size(),
            pos,
            spec_graphemes(s@, true),
            Some(style),
        ),
        r is None ==> final(fc.buffer).spec_cells() == old(fc.buffer).spec_cells(),
{
    let sz = fc.buffer.size();
    if sz.area() == 0 || !sz.is_within(pos) {
        return Some(draw_text(fc, pos, s, style, limit));
    }
    let gs = graphemes(s, true);
    if text_fits(&gs, sz, pos.x, fc.display_width) {
        Some(draw_text(fc, pos, s, style, limit))
    } else {
        None
    }
}

} // verus!
