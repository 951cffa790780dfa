//! The plain buffer: one cell per position, row by row.
use vstd::prelude::*;

use crate::base::buffer::{
    cell_at, cell_index, lemma_all_draw_calls_within, lemma_cell_index, position_of_index, spec_all_draw_calls, Buffer, Drawer,
};
use crate::base::DrawCall;
use crate::base::draw::{ErrorOutOfBoundsAxises, Position, Size};
use crate::cell::{Cell, CellView};

verus! {

/// A buffer that stores its cells row by row and writes cells as given.
pub struct FlatBuffer {
    size: Size,
    cells: Vec<Cell>,
}

impl FlatBuffer {
    /// The cells' views.
    pub closed spec fn views(&self) -> Seq<CellView> {
        self.cells@.map_values(|c: Cell| c@)
    }

    /// A buffer of the given size filled with [`Cell::empty`].
    pub fn new(size: Size) -> (b: FlatBuffer)
        ensures
            b.wf(),
            b.spec_size() == size,
            b.spec_cells() == Seq::new(size.spec_area() as nat, |i: int| Cell::spec_empty()),
    {
        Self::new_with_cell(size, Cell::empty())
    }

    /// A buffer of the given size filled with copies of `cell`.
    pub fn new_with_cell(size: Size, cell: Cell) -> (b: FlatBuffer)
        ensures
            b.wf(),
            b.spec_size() == size,
            b.spec_cells() == Seq::new(size.spec_area() as nat, |i: int| cell@),
    {
        let area = size.area() as usize;
        let mut cells: Vec<Cell> = Vec::new();
        let mut i: usize = 0;
        while i < area
            invariant
                i <= area,
                area == size.spec_area(),
                cells.len() == i,
                forall|j: int| 0 <= j < i ==> #[trigger] cells@[j]@ == cell@,
            decreases area - i,
        {
            cells.push(cell.clone());
            i += 1;
        }
        let b = FlatBuffer { size, cells };
        assert(b.views() =~= Seq::new(size.spec_area() as nat, |i: int| cell@));
        b
    }
}

impl Buffer for FlatBuffer {
    closed spec fn spec_size(&self) -> Size {
        self.size
    }

    closed spec fn spec_cells(&self) -> Seq<CellView> {
        self.views()
    }

    closed spec fn wf(&self) -> bool {
        self.cells.len() == self.size.spec_area()
    }

    open spec fn spec_written(under: CellView, cell: CellView) -> CellView {
        cell
    }

    proof fn lemma_wf(&self) {
    }

    fn size(&self) -> (s: Size) {
        self.size
    }

    fn set_cell_checked(&mut self, pos: Position, cell: Cell) -> (r: Result<(), ErrorOutOfBoundsAxises>) {
        match self.size.contains(pos) {
            Err(e) => Err(e),
            Ok(()) => {
                let i = pos.to_index(self.size.width);
                proof {
                    lemma_index_in_bounds(self.size, pos);
                }
                let ghost before = self.views();
                self.cells.set(i, cell);
                assert(self.views() =~= before.update(i as int, self.cells@[i as int]@));
                Ok(())
            }
        }
    }

    fn get_cell(&self, pos: Position) -> (c: &Cell) {
        proof {
            lemma_index_in_bounds(self.size, pos);
        }
        &self.cells[pos.to_index(self.size.width)]
    }

    fn get_cell_mut(&mut self, pos: Position) -> (c: &mut Cell) {
        proof {
            lemma_index_in_bounds(self.size, pos);
        }
        let i = pos.to_index(self.size.width);
        &mut self.cells[i]
    }

    /// A plain buffer keeps its cells from frame to frame.
    open spec fn spec_frame_started(&self, after: &Self) -> bool {
        *after == *self
    }

    /// A plain buffer keeps its cells from frame to frame.
    open spec fn spec_frame_ended(&self, after: &Self) -> bool {
        *after == *self
    }

    fn start_frame(&mut self) {
    }

    fn end_frame(&mut self) {
    }
}

impl Drawer for FlatBuffer {
    /// Every cell, row by row.
    open spec fn spec_draw_calls(&self) -> Seq<(Position, CellView)> {
        spec_all_draw_calls(self.spec_size(), self.spec_cells())
    }

    proof fn lemma_draw_calls_within(&self) {
        lemma_all_draw_calls_within(self.size, self.spec_cells());
    }

    fn draw(&mut self) -> (calls: Vec<DrawCall>) {
        let sz = self.size;
        let mut calls: Vec<DrawCall> = Vec::new();
        let ghost all = spec_all_draw_calls(sz, self.spec_cells());
        let mut y: u16 = 0;
        while y < sz.height
            invariant
                self.wf(),
                self.size == sz,
                all == spec_all_draw_calls(sz, self.spec_cells()),
                y <= sz.height,
                calls.len() == y * sz.width,
                forall|k: int| 0 <= k < calls.len() ==> #[trigger] calls@[k]@ == all[k],
            decreases sz.height - y,
        {
            let mut x: u16 = 0;
            while x < sz.width
                invariant
                    self.wf(),
                    self.size == sz,
                    all == spec_all_draw_calls(sz, self.spec_cells()),
                    y < sz.height,
                    x <= sz.width,
                    calls.len() == y * sz.width + x,
                    forall|k: int| 0 <= k < calls.len() ==> #[trigger] calls@[k]@ == all[k],
                decreases sz.width - x,
            {
                let pos = Position::new(x, y);
                proof {
                    lemma_cell_index(sz, pos, pos);
                    let k = y * sz.width + x;
                    assert(k % (sz.width as int) == x && k / (sz.width as int) == y) by (nonlinear_arith)
                        requires k == y * sz.width + x, x < sz.width, 0 <= y;
                    assert(position_of_index(sz.width as int, k) == pos);
                }
                let c = self.get_cell(pos).clone();
                calls.push(DrawCall { pos, cell: c });
                x += 1;
            }
            proof {
                assert((y + 1) * sz.width == y * sz.width + sz.width) by (nonlinear_arith);
            }
            y += 1;
        }
        proof {
            assert(sz.height * sz.width == sz.width * sz.height) by (nonlinear_arith);
            assert(calls.len() == self.spec_cells().len());
            assert(calls@.map_values(|c: DrawCall| c@) =~= all);
        }
        calls
    }
}

/// A position inside a size has an index inside its area.
pub proof fn lemma_index_in_bounds(size: Size, pos: Position)
    requires
        size.spec_is_within(pos),
    ensures
        0 <= cell_index(size, pos) < size.spec_area(),
{
    assert(pos.y * size.width + pos.x < size.width * size.height) by (nonlinear_arith)
        requires pos.x < size.width, pos.y < size.height;
    assert(0 <= pos.y * size.width) by (nonlinear_arith);
}

} // verus!
