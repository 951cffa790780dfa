//! Buffers of cells: the interface every buffer offers, and the plain
//! row-major buffer the others build on.
use vstd::prelude::*;

use crate::base::draw::{ErrorOutOfBoundsAxises, Position, Size};
use crate::base::DrawCall;
use crate::cell::{Cell, CellView};

pub mod blended;
pub mod classic_diffed;
pub mod builder;
pub mod flat;
pub mod layered;
pub mod paired;
pub mod utils;

verus! {

/// The row-major index of `pos` in a buffer of size `size`.
pub open spec fn cell_index(size: Size, pos: Position) -> int {
    pos.y * size.width + pos.x
}

/// The cell at `pos` of a row-major grid of the given size.
pub open spec fn cell_at(cells: Seq<CellView>, size: Size, pos: Position) -> CellView {
    cells[cell_index(size, pos)]
}

/// Distinct positions of a size have distinct indices, and every position
/// of a size has an index within its area.
pub proof fn lemma_cell_index(size: Size, p: Position, q: Position)
    requires
        size.spec_is_within(p),
        size.spec_is_within(q),
    ensures
        0 <= cell_index(size, p) < size.spec_area(),
        p != q ==> cell_index(size, p) != cell_index(size, q),
{
    assert(p.y * size.width + p.x < size.width * size.height) by (nonlinear_arith)
        requires p.x < size.width, p.y < size.height;
    assert(0 <= p.y * size.width) by (nonlinear_arith);
    if p != q && cell_index(size, p) == cell_index(size, q) {
        if p.y == q.y {
            assert(p.x == q.x);
        } else if p.y < q.y {
            assert(p.y * size.width + size.width <= q.y * size.width) by (nonlinear_arith)
                requires p.y < q.y, size.width >= 0;
        } else {
            assert(q.y * size.width + size.width <= p.y * size.width) by (nonlinear_arith)
                requires q.y < p.y, size.width >= 0;
        }
    }
}

/// A grid of cells that can be read and written by position.
pub trait Buffer {
    /// The size of the buffer.
    spec fn spec_size(&self) -> Size;

    /// The cells as they are read back, row by row.
    spec fn spec_cells(&self) -> Seq<CellView>;

    /// The buffer's own invariant.
    spec fn wf(&self) -> bool;

    /// What [`Buffer::set_cell_checked`] makes of the cell `under` when it
    /// writes `cell` over it.
    spec fn spec_written(under: CellView, cell: CellView) -> CellView;

    /// Every buffer holds one cell per position.
    proof fn lemma_wf(&self)
        requires
            self.wf(),
        ensures
            self.spec_cells().len() == self.spec_size().spec_area(),
    ;

    fn size(&self) -> (s: Size)
        requires
            self.wf(),
        ensures
            s == self.spec_size(),
    ;

    /// Writes `cell` at `pos`, or reports the axes on which `pos` is out of
    /// bounds and changes nothing.
    fn set_cell_checked(&mut self, pos: Position, cell: Cell) -> (r: Result<(), ErrorOutOfBoundsAxises>)
        requires
            old(self).wf(),
        ensures
            final(self).wf(),
            final(self).spec_size() == old(self).spec_size(),
            r == old(self).spec_size().spec_contains(pos),
            r is Ok ==> final(self).spec_cells() == old(self).spec_cells().update(
                cell_index(old(self).spec_size(), pos),
                Self::spec_written(
                    old(self).spec_cells()[cell_index(old(self).spec_size(), pos)],
                    cell@,
                ),
            ),
            r is Err ==> final(self).spec_cells() == old(self).spec_cells(),
    ;

    /// The cell at `pos`.
    fn get_cell(&self, pos: Position) -> (c: &Cell)
        requires
            self.wf(),
            self.spec_size().spec_is_within(pos),
        ensures
            c@ == self.spec_cells()[cell_index(self.spec_size(), pos)],
    ;

    /// Writes `cell` at `pos`.
    fn set_cell(&mut self, pos: Position, cell: Cell)
        requires
            old(self).wf(),
            old(self).spec_size().spec_is_within(pos),
        ensures
            final(self).wf(),
            final(self).spec_size() == old(self).spec_size(),
            final(self).spec_cells() == old(self).spec_cells().update(
                cell_index(old(self).spec_size(), pos),
                Self::spec_written(
                    old(self).spec_cells()[cell_index(old(self).spec_size(), pos)],
                    cell@,
                ),
            ),
    {
        let _ = self.set_cell_checked(pos, cell);
    }

    /// The cell at `pos`, or the axes on which `pos` is out of bounds.
    fn get_cell_checked(&self, pos: Position) -> (r: Result<&Cell, ErrorOutOfBoundsAxises>)
        requires
            self.wf(),
        ensures
            match r {
                Ok(c) => self.spec_size().spec_is_within(pos) && c@ == self.spec_cells()[cell_index(
                    self.spec_size(),
                    pos,
                )],
                Err(e) => self.spec_size().spec_contains(pos) == Err::<(), ErrorOutOfBoundsAxises>(e),
            },
    {
        match self.size().contains(pos) {
            Ok(()) => Ok(self.get_cell(pos)),
            Err(e) => Err(e),
        }
    }

    /// The cell at `pos`, to change in place.
    fn get_cell_mut(&mut self, pos: Position) -> (c: &mut Cell)
        requires
            old(self).wf(),
            old(self).spec_size().spec_is_within(pos),
        ensures
            c@ == old(self).spec_cells()[cell_index(old(self).spec_size(), pos)],
            final(self).wf(),
            final(self).spec_size() == old(self).spec_size(),
            final(self).spec_cells() == old(self).spec_cells().update(
                cell_index(old(self).spec_size(), pos),
                final(c)@,
            ),
    ;

    /// Replaces every cell with a copy of `cell`.
    fn fill(&mut self, cell: Cell)
        requires
            old(self).wf(),
        ensures
            final(self).wf(),
            final(self).spec_size() == old(self).spec_size(),
            final(self).spec_cells() == Seq::new(old(self).spec_size().spec_area() as nat, |i: int| cell@),
    {
        let sz = self.size();
        proof {
            self.lemma_wf();
        }
        let ghost n = sz.spec_area();
        let mut y: u16 = 0;
        while y < sz.height
            invariant
                self.wf(),
                self.spec_size() == sz,
                self.spec_cells().len() == n,
                n == sz.spec_area(),
                y <= sz.height,
                forall|p: Position|
                    sz.spec_is_within(p) && p.y < y ==> #[trigger] cell_at(self.spec_cells(), sz, p) == cell@,
            decreases sz.height - y,
        {
            let mut x: u16 = 0;
            while x < sz.width
                invariant
                    self.wf(),
                    self.spec_size() == sz,
                    self.spec_cells().len() == n,
                    n == sz.spec_area(),
                    y < sz.height,
                    x <= sz.width,
                    forall|p: Position|
                        sz.spec_is_within(p) && (p.y < y || (p.y == y && p.x < x)) ==> #[trigger] cell_at(
                            self.spec_cells(),
                            sz,
                            p,
                        ) == cell@,
                decreases sz.width - x,
            {
                let pos = Position::new(x, y);
                proof {
                    self.lemma_wf();
                    lemma_cell_index(sz, pos, pos);
                }
                let ghost before = self.spec_cells();
                let c = self.get_cell_mut(pos);
                *c = cell.clone();
                proof {
                    assert forall|p: Position|
                        sz.spec_is_within(p) && (p.y < y || (p.y == y && p.x < x + 1)) implies #[trigger] cell_at(
                            self.spec_cells(),
                            sz,
                            p,
                        ) == cell@ by {
                        lemma_cell_index(sz, p, pos);
                        if p != pos {
                            assert(cell_at(before, sz, p) == cell@);
                        }
                    }
                }
                x += 1;
            }
            y += 1;
        }
        proof {
            assert(self.spec_cells() =~= Seq::new(n as nat, |i: int| cell@)) by {
                assert forall|i: int| 0 <= i < n implies self.spec_cells()[i] == cell@ by {
                    let p = lemma_index_position(sz, i);
                    assert(cell_at(self.spec_cells(), sz, p) == cell@);
                }
            }
        }
    }

    /// Resets every cell to [`Cell::empty`].
    fn clear(&mut self)
        requires
            old(self).wf(),
        ensures
            final(self).wf(),
            final(self).spec_size() == old(self).spec_size(),
            final(self).spec_cells() == Seq::new(
                old(self).spec_size().spec_area() as nat,
                |i: int| Cell::spec_empty(),
            ),
    {
        self.fill(Cell::empty());
    }

    /// What starting a frame makes of the buffer: whether `after` is what
    /// `self` becomes.
    spec fn spec_frame_started(&self, after: &Self) -> bool;

    /// What ending a frame makes of the buffer: whether `after` is what
    /// `self` becomes.
    spec fn spec_frame_ended(&self, after: &Self) -> bool;

    /// Prepares the buffer for the draws of a new frame.
    fn start_frame(&mut self)
        requires
            old(self).wf(),
        ensures
            final(self).wf(),
            final(self).spec_size() == old(self).spec_size(),
            old(self).spec_frame_started(final(self)),
    ;

    /// Closes the frame once its draws have been rendered.
    fn end_frame(&mut self)
        requires
            old(self).wf(),
        ensures
            final(self).wf(),
            final(self).spec_size() == old(self).spec_size(),
            old(self).spec_frame_ended(final(self)),
    ;
}

/// A buffer that can hand out what to render.
pub trait Drawer: Buffer {
    /// The cells to render for the current frame, in order.
    spec fn spec_draw_calls(&self) -> Seq<(Position, CellView)>;

    /// The cells to render for the current frame, in order.
    fn draw(&mut self) -> (calls: Vec<DrawCall>)
        requires
            old(self).wf(),
        ensures
            final(self).wf(),
            final(self).spec_size() == old(self).spec_size(),
            final(self).spec_cells() == old(self).spec_cells(),
            final(self).spec_draw_calls() == old(self).spec_draw_calls(),
            calls@.map_values(|c: DrawCall| c@) == old(self).spec_draw_calls(),
    ;

    /// Every position to render lies in the buffer.
    proof fn lemma_draw_calls_within(&self)
        requires
            self.wf(),
        ensures
            forall|k: int|
                0 <= k < self.spec_draw_calls().len() ==> self.spec_size().spec_is_within(
                    #[trigger] self.spec_draw_calls()[k].0,
                ),
    ;
}

/// The position whose row-major index in a grid of the given width is `i`.
pub open spec fn position_of_index(width: int, i: int) -> Position {
    Position { x: (i % width) as u16, y: (i / width) as u16 }
}

/// Every cell of a buffer, row by row, with its position.
pub open spec fn spec_all_draw_calls(size: Size, cells: Seq<CellView>) -> Seq<(Position, CellView)> {
    Seq::new(cells.len(), |i: int| (position_of_index(size.width as int, i), cells[i]))
}

/// The position of a cell's row-major index is the cell's position.
pub proof fn lemma_position_of_cell_index(size: Size, pos: Position)
    requires
        size.spec_is_within(pos),
    ensures
        position_of_index(size.width as int, cell_index(size, pos)) == pos,
{
    let k = cell_index(size, pos);
    assert(k % (size.width as int) == pos.x && k / (size.width as int) == pos.y) by (nonlinear_arith)
        requires k == pos.y * size.width + pos.x, pos.x < size.width, 0 <= pos.y;
}

/// Every position of the calls listing a whole grid lies in the grid.
pub proof fn lemma_all_draw_calls_within(size: Size, cells: Seq<CellView>)
    requires
        cells.len() == size.spec_area(),
    ensures
        forall|k: int|
            0 <= k < spec_all_draw_calls(size, cells).len() ==> size.spec_is_within(
                #[trigger] spec_all_draw_calls(size, cells)[k].0,
            ),
{
    assert forall|k: int| 0 <= k < spec_all_draw_calls(size, cells).len() implies size.spec_is_within(
        #[trigger] spec_all_draw_calls(size, cells)[k].0,
    ) by {
        let w = size.width as int;
        let h = size.height as int;
        assert(k < w * h);
        assert(w > 0) by (nonlinear_arith)
            requires 0 <= k < w * h, w >= 0, h >= 0;
        assert(k / w < h) by (nonlinear_arith)
            requires 0 <= k < w * h, w > 0;
    }
}

/// Every index of a size's area is the index of a position of that size.
pub proof fn lemma_index_position(size: Size, i: int) -> (p: Position)
    requires
        0 <= i < size.spec_area(),
    ensures
        size.spec_is_within(p),
        cell_index(size, p) == i,
{
    let w = size.width as int;
    let h = size.height as int;
    assert(i < w * h);
    assert(w > 0) by (nonlinear_arith)
        requires 0 <= i < w * h, w >= 0, h >= 0;
    let y = i / w;
    let x = i % w;
    assert(y < h) by (nonlinear_arith)
        requires 0 <= i < w * h, w > 0, y == i / w;
    assert(y * w + x == i) by (nonlinear_arith)
        requires w > 0, y == i / w, x == i % w;
    Position { x: x as u16, y: y as u16 }
}

} // verus!
