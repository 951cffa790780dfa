//! The default buffer: the current frame and the previous one side by side,
//! so that drawing hands out only the cells that changed.
use vstd::prelude::*;

use crate::base::buffer::{
    cell_index, lemma_cell_index, lemma_index_position, position_of_index, Buffer, Drawer,
};
use crate::base::draw::{ErrorOutOfBoundsAxises, Position, Size};
use crate::base::DrawCall;
use crate::cell::{Cell, CellView};

verus! {

/// The cells that differ between `current` and `previous` among the first `n`
/// positions, in order, each with its position and its current value.
pub open spec fn spec_changed_calls(
    width: int,
    current: Seq<CellView>,
    previous: Seq<CellView>,
    n: int,
) -> Seq<(Position, CellView)>
    decreases n,
{
    if n <= 0 {
        Seq::empty()
    } else {
        let before = spec_changed_calls(width, current, previous, n - 1);
        if current[n - 1] != previous[n - 1] {
            before.push((position_of_index(width, n - 1), current[n - 1]))
        } else {
            before
        }
    }
}

/// Two frames of cells. Reads and writes go to the current frame; drawing
/// hands out the cells of the current frame that differ from the previous
/// one, and ending a frame swaps the two.
pub struct PairedBuffer {
    size: Size,
    current: Vec<Cell>,
    previous: Vec<Cell>,
}

impl PairedBuffer {
    /// The cells of the previous frame.
    pub closed spec fn spec_previous(&self) -> Seq<CellView> {
        self.previous@.map_values(|c: Cell| c@)
    }

    /// Creates a buffer of the given size; both frames hold [`Cell::empty`].
    pub fn new(size: Size) -> (b: PairedBuffer)
        ensures
            b.wf(),
            b.spec_size() == size,
            b.spec_cells() == Seq::new(size.spec_area() as nat, |i: int| Cell::spec_empty()),
            b.spec_previous() == Seq::new(size.spec_area() as nat, |i: int| Cell::spec_empty()),
    {
        let area = size.area() as usize;
        let mut current: Vec<Cell> = Vec::new();
        let mut previous: Vec<Cell> = Vec::new();
        let mut i: usize = 0;
        while i < area
            invariant
                i <= area,
                area == size.spec_area(),
                current.len() == i,
                previous.len() == i,
                forall|j: int| 0 <= j < i ==> #[trigger] current@[j]@ == Cell::spec_empty(),
                forall|j: int| 0 <= j < i ==> #[trigger] previous@[j]@ == Cell::spec_empty(),
            decreases area - i,
        {
            current.push(Cell::empty());
            previous.push(Cell::empty());
            i += 1;
        }
        let b = PairedBuffer { size, current, previous };
        assert(b.spec_cells() =~= Seq::new(size.spec_area() as nat, |i: int| Cell::spec_empty()));
        assert(b.spec_previous() =~= Seq::new(size.spec_area() as nat, |i: int| Cell::spec_empty()));
        b
    }

    /// Swaps the current and the previous frame.
    pub fn swap_frames(&mut self)
        ensures
            final(self).wf() == old(self).wf(),
            final(self).spec_size() == old(self).spec_size(),
            final(self).spec_cells() == old(self).spec_previous(),
            final(self).spec_previous() == old(self).spec_cells(),
    {
        std::mem::swap(&mut self.current, &mut self.previous);
    }
}

impl Buffer for PairedBuffer {
    closed spec fn spec_size(&self) -> Size {
        self.size
    }

    /// The cells of the current frame.
    closed spec fn spec_cells(&self) -> Seq<CellView> {
        self.current@.map_values(|c: Cell| c@)
    }

    closed spec fn wf(&self) -> bool {
        &&& self.current@.len() == self.size.spec_area()
        &&& self.previous@.len() == self.size.spec_area()
    }

    open spec fn spec_written(under: CellView, cell: CellView) -> CellView {
        cell
    }

    proof fn lemma_wf(&self) {
    }

    fn size(&self) -> (s: Size) {
        self.size
    }

    fn set_cell_checked(&mut self, pos: Position, cell: Cell) -> (r: Result<(), ErrorOutOfBoundsAxises>)
        ensures
            final(self).spec_previous() == old(self).spec_previous(),
    {
        if let Err(e) = self.size.contains(pos) {
            return Err(e);
        }
        let i = pos.to_index(self.size.width);
        proof {
            lemma_cell_index(self.size, pos, pos);
        }
        let ghost before = self.spec_cells();
        self.current.set(i, cell);
        proof {
            assert(self.spec_cells() =~= before.update(i as int, self.current@[i as int]@));
        }
        Ok(())
    }

    fn get_cell(&self, pos: Position) -> (c: &Cell) {
        proof {
            lemma_cell_index(self.size, pos, pos);
        }
        let i = pos.to_index(self.size.width);
        &self.current[i]
    }

    fn get_cell_mut(&mut self, pos: Position) -> (c: &mut Cell) {
        proof {
            lemma_cell_index(self.size, pos, pos);
        }
        let i = pos.to_index(self.size.width);
        &mut self.current[i]
    }

    /// Resets the current frame to [`Cell::empty`]; the previous frame stays.
    /// Starting a frame clears the current frame and keeps the previous one.
    open spec fn spec_frame_started(&self, after: &Self) -> bool {
        &&& after.spec_size() == self.spec_size()
        &&& after.spec_cells() == Seq::new(self.spec_size().spec_area() as nat, |i: int| Cell::spec_empty())
        &&& after.spec_previous() == self.spec_previous()
    }

    /// Ending a frame swaps the two frames.
    open spec fn spec_frame_ended(&self, after: &Self) -> bool {
        &&& after.spec_size() == self.spec_size()
        &&& after.spec_cells() == self.spec_previous()
        &&& after.spec_previous() == self.spec_cells()
    }

    fn start_frame(&mut self)
        ensures
            final(self).spec_cells() == Seq::new(old(self).spec_size().spec_area() as nat, |i: int| Cell::spec_empty()),
            final(self).spec_previous() == old(self).spec_previous(),
    {
        let n = self.current.len();
        let mut i: usize = 0;
        while i < n
            invariant
                n == self.current@.len(),
                n == self.size.spec_area(),
                i <= n,
                self.size == old(self).size,
                self.previous == old(self).previous,
                forall|j: int| 0 <= j < i ==> #[trigger] self.current@[j]@ == Cell::spec_empty(),
            decreases n - i,
        {
            self.current.set(i, Cell::empty());
            i += 1;
        }
        assert(self.spec_cells() =~= Seq::new(self.size.spec_area() as nat, |i: int| Cell::spec_empty()));
    }

    /// Swaps the frames: what was drawn becomes the previous frame.
    fn end_frame(&mut self)
        ensures
            final(self).spec_cells() == old(self).spec_previous(),
            final(self).spec_previous() == old(self).spec_cells(),
    {
        self.swap_frames();
    }
}

impl Drawer for PairedBuffer {
    /// The cells of the current frame that differ from the previous frame.
    open spec fn spec_draw_calls(&self) -> Seq<(Position, CellView)> {
        spec_changed_calls(
            self.spec_size().width as int,
            self.spec_cells(),
            self.spec_previous(),
            self.spec_size().spec_area(),
        )
    }

    proof fn lemma_draw_calls_within(&self) {
        lemma_changed_calls_within(self.size, self.spec_cells(), self.spec_previous(), self.size.spec_area());
    }

    fn draw(&mut self) -> (calls: Vec<DrawCall>) {
        let n = self.current.len();
        let width = self.size.width as usize;
        let mut calls: Vec<DrawCall> = Vec::new();
        let mut i: usize = 0;
        while i < n
            invariant
                self.wf(),
                n == self.current@.len(),
                n == self.size.spec_area(),
                width == self.size.width,
                i <= n,
                calls@.map_values(|c: DrawCall| c@) == spec_changed_calls(
                    width as int,
                    self.spec_cells(),
                    self.spec_previous(),
                    i as int,
                ),
            decreases n - i,
        {
            let same = self.current[i] == self.previous[i];
            assert(self.spec_cells()[i as int] == self.current@[i as int]@);
            assert(self.spec_previous()[i as int] == self.previous@[i as int]@);
            if !same {
                proof {
                    let h = self.size.height as int;
                    assert(i < width * h);
                    assert(width > 0) by (nonlinear_arith)
                        requires 0 <= i < width * h, width >= 0, h >= 0;
                    assert(i / width <= i) by (nonlinear_arith)
                        requires width > 0, i >= 0;
                }
                let pos = Position { x: (i % width) as u16, y: (i / width) as u16 };
                let ghost before = calls@.map_values(|c: DrawCall| c@);
                calls.push(DrawCall { pos, cell: self.current[i].clone() });
                assert(calls@.map_values(|c: DrawCall| c@) =~= before.push(
                    (position_of_index(width as int, i as int), self.spec_cells()[i as int]),
                ));
            }
            i += 1;
        }
        calls
    }
}

/// The calls drawn from two frames are exactly the cells that changed: every
/// cell of the current frame that differs in any way (text, style or format)
/// from the cell at the same index of the previous frame is handed out, at
/// its position and with its current value, and every call handed out is
/// such a cell.
pub proof fn lemma_changed_calls_exact(width: int, current: Seq<CellView>, previous: Seq<CellView>, n: int)
    requires
        0 <= n <= current.len(),
        n <= previous.len(),
    ensures
        forall|i: int|
            0 <= i < n && #[trigger] current[i] != previous[i] ==> spec_changed_calls(
                width,
                current,
                previous,
                n,
            ).contains((position_of_index(width, i), current[i])),
        forall|k: int|
            0 <= k < spec_changed_calls(width, current, previous, n).len() ==> exists|i: int|
                0 <= i < n && current[i] != previous[i] && #[trigger] spec_changed_calls(
                    width,
                    current,
                    previous,
                    n,
                )[k] == (position_of_index(width, i), current[i]),
    decreases n,
{
    if n > 0 {
        lemma_changed_calls_exact(width, current, previous, n - 1);
        let before = spec_changed_calls(width, current, previous, n - 1);
        let after = spec_changed_calls(width, current, previous, n);
        let changed = current[n - 1] != previous[n - 1];
        assert forall|i: int| 0 <= i < n && #[trigger] current[i] != previous[i] implies after.contains(
            (position_of_index(width, i), current[i]),
        ) by {
            let e = (position_of_index(width, i), current[i]);
            if i < n - 1 {
                assert(before.contains(e));
                let k = choose|k: int| 0 <= k < before.len() && before[k] == e;
                if changed {
                    assert(after[k] == e);
                }
                assert(after[k] == e);
            } else {
                assert(after[before.len() as int] == e);
            }
        }
        assert forall|k: int| 0 <= k < after.len() implies exists|i: int|
            0 <= i < n && current[i] != previous[i] && #[trigger] after[k] == (position_of_index(width, i), current[i]) by {
            if k < before.len() {
                assert(after[k] == before[k]);
                let i = choose|i: int|
                    0 <= i < n - 1 && current[i] != previous[i] && #[trigger] before[k] == (
                        position_of_index(width, i),
                        current[i],
                    );
                assert(0 <= i < n && current[i] != previous[i] && after[k] == (position_of_index(width, i), current[i]));
            } else {
                assert(changed && after[k] == (position_of_index(width, n - 1), current[n - 1]));
            }
        }
    }
}

/// Drawing a paired buffer hands out exactly the cells of the current frame
/// that differ in any way from the previous frame, each at its position and
/// with its current value.
pub proof fn lemma_paired_draws_changed_cells(b: &PairedBuffer)
    requires
        b.wf(),
    ensures
        forall|i: int|
            0 <= i < b.spec_size().spec_area() && #[trigger] b.spec_cells()[i] != b.spec_previous()[i]
                ==> b.spec_draw_calls().contains(
                (position_of_index(b.spec_size().width as int, i), b.spec_cells()[i]),
            ),
        forall|k: int|
            0 <= k < b.spec_draw_calls().len() ==> exists|i: int|
                0 <= i < b.spec_size().spec_area() && b.spec_cells()[i] != b.spec_previous()[i]
                    && #[trigger] b.spec_draw_calls()[k] == (
                    position_of_index(b.spec_size().width as int, i),
                    b.spec_cells()[i],
                ),
{
    lemma_changed_calls_exact(
        b.spec_size().width as int,
        b.spec_cells(),
        b.spec_previous(),
        b.spec_size().spec_area(),
    );
}

/// Every changed cell lies in the grid.
pub proof fn lemma_changed_calls_within(size: Size, current: Seq<CellView>, previous: Seq<CellView>, n: int)
    requires
        0 <= n <= size.spec_area(),
    ensures
        forall|k: int|
            0 <= k < spec_changed_calls(size.width as int, current, previous, n).len() ==> size.spec_is_within(
                #[trigger] spec_changed_calls(size.width as int, current, previous, n)[k].0,
            ),
    decreases n,
{
    if n > 0 {
        lemma_changed_calls_within(size, current, previous, n - 1);
        let w = size.width as int;
        let h = size.height as int;
        assert(n - 1 < w * h);
        assert(w > 0) by (nonlinear_arith)
            requires 0 <= n - 1 < w * h, w >= 0, h >= 0;
        assert((n - 1) / w < h) by (nonlinear_arith)
            requires 0 <= n - 1 < w * h, w > 0;
        assert(size.spec_is_within(position_of_index(w, n - 1)));
        let before = spec_changed_calls(w, current, previous, n - 1);
        let after = spec_changed_calls(w, current, previous, n);
        assert forall|k: int| 0 <= k < after.len() implies size.spec_is_within(#[trigger] after[k].0) by {
            if k < before.len() {
                assert(after[k] == before[k]);
            }
        }
    }
}

/// Equal frames hold no changed cell.
proof fn lemma_no_changes(width: int, cells: Seq<CellView>, n: int)
    ensures
        spec_changed_calls(width, cells, cells, n) == Seq::<(Position, CellView)>::empty(),
    decreases n,
{
    if n > 0 {
        lemma_no_changes(width, cells, n - 1);
    }
}

/// A buffer whose current frame equals its previous one has nothing to draw.
pub proof fn lemma_unchanged_frame_draws_nothing(b: PairedBuffer)
    requires
        b.wf(),
        b.spec_cells() == b.spec_previous(),
    ensures
        b.spec_draw_calls() == Seq::<(Position, CellView)>::empty(),
{
    lemma_no_changes(b.spec_size().width as int, b.spec_cells(), b.spec_size().spec_area());
}

} // verus!
