//! Buffer layouts written out row by row, and their rendering into buffers.
use vstd::prelude::*;

use crate::base::buffer::builder::row::{spec_consumed_total, BuilderRow, BuilderRowItem};
use crate::base::buffer::{lemma_cell_index, Buffer};
use crate::base::draw::{Position, Size};
use crate::cell::{Cell, CellFormat, CellView};

pub mod row;

verus! {

/// An item of a buffer layout: `n` skipped rows, or a row of cells.
pub enum BuilderBufferItem {
    /// Skip `n` rows.
    Empty(u16),
    /// A row of cells.
    Row(BuilderRow),
}

impl BuilderBufferItem {
    /// The columns the item takes: those of its row, none for skipped rows.
    pub fn consumed(&self) -> (c: Option<u16>)
        ensures
            c == match self {
                BuilderBufferItem::Empty(_) => None,
                BuilderBufferItem::Row(r) => Some(r.consumed),
            },
    {
        match self {
            BuilderBufferItem::Empty(_) => None,
            BuilderBufferItem::Row(builder_row) => Some(builder_row.consumed),
        }
    }

    /// The rows the item takes.
    pub open spec fn spec_rows(&self) -> int {
        match self {
            BuilderBufferItem::Empty(n) => *n as int,
            BuilderBufferItem::Row(_) => 1,
        }
    }
}

/// The rows the first `n` items take together.
pub open spec fn spec_height(items: Seq<BuilderBufferItem>, n: int) -> int
    decreases n,
{
    if n <= 0 {
        0
    } else {
        spec_height(items, n - 1) + items[n - 1].spec_rows()
    }
}

/// Whether every row of `items` takes `width` columns.
pub open spec fn spec_rows_take(items: Seq<BuilderBufferItem>, width: u16) -> bool {
    forall|i: int|
        0 <= i < items.len() ==> (#[trigger] items[i] matches BuilderBufferItem::Row(r) ==> r.consumed
            == width)
}

/// Whether `items` has a row.
pub open spec fn spec_has_row(items: Seq<BuilderBufferItem>) -> bool {
    exists|i: int| 0 <= i < items.len() && #[trigger] items[i] is Row
}

/// The width of a layout: the columns its rows take.
pub open spec fn spec_width(items: Seq<BuilderBufferItem>) -> u16 {
    let i = choose|i: int| 0 <= i < items.len() && #[trigger] items[i] is Row;
    items[i]->Row_0.consumed
}

/// A buffer layout: its items, and the size it covers.
pub struct BuilderBuffer {
    pub rows: Vec<BuilderBufferItem>,
    pub size: Size,
}

proof fn lemma_height_monotonic(items: Seq<BuilderBufferItem>, i: int, j: int)
    requires
        0 <= i <= j <= items.len(),
    ensures
        spec_height(items, i) <= spec_height(items, j),
    decreases j - i,
{
    if i < j {
        lemma_height_monotonic(items, i, j - 1);
    }
}

impl BuilderBuffer {
    /// The layout of `items`. Its rows must all take the same number of
    /// columns, there must be at least one, and the layout must be at most
    /// `u16::MAX` rows tall.
    pub fn new(items: Vec<BuilderBufferItem>) -> (b: BuilderBuffer)
        requires
            spec_height(items@, items@.len() as int) <= u16::MAX,
            spec_has_row(items@),
            spec_rows_take(items@, spec_width(items@)),
        ensures
            b.rows@ == items@,
            b.size.width == spec_width(items@),
            b.size.height == spec_height(items@, items@.len() as int),
    {
        let size = Self::size(&items);
        BuilderBuffer { rows: items, size }
    }

    /// The size `items` cover.
    pub fn size(items: &Vec<BuilderBufferItem>) -> (s: Size)
        requires
            spec_height(items@, items@.len() as int) <= u16::MAX,
            spec_has_row(items@),
            spec_rows_take(items@, spec_width(items@)),
        ensures
            s.width == spec_width(items@),
            s.height == spec_height(items@, items@.len() as int),
    {
        let width = Self::width(items);
        let height = Self::height(items);
        Size::new(width, height)
    }

    /// The rows `items` take together.
    pub fn height(items: &Vec<BuilderBufferItem>) -> (h: u16)
        requires
            spec_height(items@, items@.len() as int) <= u16::MAX,
        ensures
            h == spec_height(items@, items@.len() as int),
    {
        let mut i: usize = 0;
        let mut height: u16 = 0;
        while i < items.len()
            invariant
                i <= items@.len(),
                height == spec_height(items@, i as int),
                spec_height(items@, items@.len() as int) <= u16::MAX,
            decreases items@.len() - i,
        {
            proof {
                lemma_height_monotonic(items@, i + 1, items@.len() as int);
            }
            match &items[i] {
                BuilderBufferItem::Empty(n) => {
                    height += *n;
                },
                BuilderBufferItem::Row(_) => {
                    height += 1;
                },
            }
            i += 1;
        }
        height
    }

    /// The columns the rows of `items` take.
    pub fn width(items: &Vec<BuilderBufferItem>) -> (w: u16)
        requires
            spec_has_row(items@),
            spec_rows_take(items@, spec_width(items@)),
        ensures
            w == spec_width(items@),
    {
        let mut i: usize = 0;
        let mut width: Option<u16> = None;
        while i < items.len()
            invariant
                i <= items@.len(),
                spec_rows_take(items@, spec_width(items@)),
                width is None ==> forall|j: int| 0 <= j < i ==> !(#[trigger] items@[j] is Row),
                width matches Some(w) ==> w == spec_width(items@),
            decreases items@.len() - i,
        {
            if let Some(c) = items[i].consumed() {
                width = Some(c);
            }
            i += 1;
        }
        match width {
            Some(w) => w,
            None => {
                assert(false);
                0
            },
        }
    }
}

/// The cells after the first `m` items of a row at line `y` are written into
/// `cells`, and the column that follows them.
pub open spec fn spec_build_row<Buf: Buffer>(
    cells: Seq<CellView>,
    size: Size,
    items: Seq<BuilderRowItem>,
    m: int,
    y: int,
) -> Seq<CellView>
    decreases m,
{
    if m <= 0 {
        cells
    } else {
        let prev = spec_build_row::<Buf>(cells, size, items, m - 1, y);
        let x = spec_consumed_total(items, m - 1);
        match items[m - 1] {
            BuilderRowItem::Cell(s, style) => {
                let i = y * size.width + x;
                prev.update(
                    i,
                    Buf::spec_written(prev[i], CellView { ch: s@, style, format: CellFormat::Standard }),
                )
            },
            BuilderRowItem::Empty(_) => prev,
        }
    }
}

/// Whether the first `m` items of a row at line `y` stay in a buffer of
/// size `size`.
pub open spec fn spec_row_fits(size: Size, items: Seq<BuilderRowItem>, m: int, y: int) -> bool
    decreases m,
{
    if m <= 0 {
        true
    } else {
        &&& spec_row_fits(size, items, m - 1, y)
        &&& spec_consumed_total(items, m) <= size.width
        &&& (items[m - 1] is Cell ==> y < size.height)
    }
}

/// The line the cursor is on after the first `n` items of a layout.
pub open spec fn spec_build_line(rows: Seq<BuilderBufferItem>, n: int) -> int {
    spec_height(rows, n)
}

/// The cells after the first `n` items of a layout are written into `cells`.
pub open spec fn spec_build<Buf: Buffer>(
    cells: Seq<CellView>,
    size: Size,
    rows: Seq<BuilderBufferItem>,
    n: int,
) -> Seq<CellView>
    decreases n,
{
    if n <= 0 {
        cells
    } else {
        let prev = spec_build::<Buf>(cells, size, rows, n - 1);
        match rows[n - 1] {
            BuilderBufferItem::Empty(_) => prev,
            BuilderBufferItem::Row(r) => spec_build_row::<Buf>(
                prev,
                size,
                r.items@,
                r.items@.len() as int,
                spec_height(rows, n - 1),
            ),
        }
    }
}

/// Whether the first `n` items of a layout stay in a buffer of size `size`.
pub open spec fn spec_build_fits(size: Size, rows: Seq<BuilderBufferItem>, n: int) -> bool
    decreases n,
{
    if n <= 0 {
        true
    } else {
        &&& spec_build_fits(size, rows, n - 1)
        &&& spec_height(rows, n) <= u16::MAX
        &&& match rows[n - 1] {
            BuilderBufferItem::Empty(_) => spec_height(rows, n) <= size.height,
            BuilderBufferItem::Row(r) => spec_row_fits(
                size,
                r.items@,
                r.items@.len() as int,
                spec_height(rows, n - 1),
            ),
        }
    }
}

proof fn lemma_row_fits_prefix(size: Size, items: Seq<BuilderRowItem>, i: int, m: int, y: int)
    requires
        0 <= i <= m,
        spec_row_fits(size, items, m, y),
    ensures
        spec_row_fits(size, items, i, y),
    decreases m - i,
{
    if i < m {
        lemma_row_fits_prefix(size, items, i, m - 1, y);
    }
}

proof fn lemma_build_fits_prefix(size: Size, rows: Seq<BuilderBufferItem>, i: int, n: int)
    requires
        0 <= i <= n,
        spec_build_fits(size, rows, n),
    ensures
        spec_build_fits(size, rows, i),
    decreases n - i,
{
    if i < n {
        lemma_build_fits_prefix(size, rows, i, n - 1);
    }
}

/// Writes the items of one row into `buf` at line `y`.
fn build_row<Buf: Buffer>(buf: &mut Buf, items: &Vec<BuilderRowItem>, y: u16)
    requires
        old(buf).wf(),
        spec_row_fits(old(buf).spec_size(), items@, items@.len() as int, y as int),
    ensures
        final(buf).wf(),
        final(buf).spec_size() == old(buf).spec_size(),
        final(buf).spec_cells() == spec_build_row::<Buf>(
            old(buf).spec_cells(),
            old(buf).spec_size(),
            items@,
            items@.len() as int,
            y as int,
        ),
{
    let sz = buf.size();
    let mut x: u16 = 0;
    let mut i: usize = 0;
    while i < items.len()
        invariant
            buf.wf(),
            buf.spec_size() == sz,
            sz == old(buf).spec_size(),
            i <= items@.len(),
            x == spec_consumed_total(items@, i as int),
            spec_row_fits(sz, items@, items@.len() as int, y as int),
            buf.spec_cells() == spec_build_row::<Buf>(old(buf).spec_cells(), sz, items@, i as int, y as int),
        decreases items@.len() - i,
    {
        proof {
            lemma_row_fits_prefix(sz, items@, i + 1, items@.len() as int, y as int);
        }
        match &items[i] {
            BuilderRowItem::Cell(s, style) => {
                let pos = Position::new(x, y);
                proof {
                    lemma_cell_index(sz, pos, pos);
                }
                buf.set_cell(pos, Cell::new(s, *style));
                x = x + 1;
            },
            BuilderRowItem::Empty(n) => {
                x = x + *n;
            },
        }
        i += 1;
    }
}

/// Renders a layout into `buf`, from its top left corner.
///
/// The layout must fit: a skipped run of rows must end inside the buffer,
/// and each row must fit in the buffer's width, its cells on one of the
/// buffer's lines.
pub fn build<Buf: Buffer>(bb: &BuilderBuffer, buf: &mut Buf)
    requires
        old(buf).wf(),
        spec_build_fits(old(buf).spec_size(), bb.rows@, bb.rows@.len() as int),
    ensures
        final(buf).wf(),
        final(buf).spec_size() == old(buf).spec_size(),
        final(buf).spec_cells() == spec_build::<Buf>(
            old(buf).spec_cells(),
            old(buf).spec_size(),
            bb.rows@,
            bb.rows@.len() as int,
        ),
{
    let sz = buf.size();
    let mut y: u16 = 0;
    let mut i: usize = 0;
    while i < bb.rows.len()
        invariant
            buf.wf(),
            buf.spec_size() == sz,
            sz == old(buf).spec_size(),
            i <= bb.rows@.len(),
            y == spec_height(bb.rows@, i as int),
            spec_build_fits(sz, bb.rows@, bb.rows@.len() as int),
            buf.spec_cells() == spec_build::<Buf>(old(buf).spec_cells(), sz, bb.rows@, i as int),
        decreases bb.rows@.len() - i,
    {
        proof {
            lemma_build_fits_prefix(sz, bb.rows@, i + 1, bb.rows@.len() as int);
        }
        match &bb.rows[i] {
            BuilderBufferItem::Empty(n) => {
                y = y + *n;
            },
            BuilderBufferItem::Row(r) => {
                build_row(buf, &r.items, y);
                y = y + 1;
            },
        }
        i += 1;
    }
}

} // verus!
