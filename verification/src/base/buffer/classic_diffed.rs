//! A buffer that remembers the cells it last handed out and hands out only
//! those that differ from them.
use vstd::prelude::*;

use crate::base::buffer::{Buffer, Drawer};
use crate::base::draw::{ErrorOutOfBoundsAxises, Position, Size};
use crate::base::DrawCall;
use crate::cell::{Cell, CellView};

verus! {

/// The calls among the first `n` of `calls` whose cell differs from the cell
/// at the same index of `last`, or that have no counterpart in `last`.
pub open spec fn spec_new_calls(
    calls: Seq<(Position, CellView)>,
    last: Seq<(Position, CellView)>,
    n: int,
) -> Seq<(Position, CellView)>
    decreases n,
{
    if n <= 0 {
        Seq::empty()
    } else {
        let before = spec_new_calls(calls, last, n - 1);
        if n - 1 < last.len() && last[n - 1].1 == calls[n - 1].1 {
            before
        } else {
            before.push(calls[n - 1])
        }
    }
}

/// The calls of a first frame: the positions of a grid whose rows are
/// `size.width` long and whose columns are `size.height` high, read column
/// by column, each with an empty cell.
pub open spec fn spec_first_frame(size: Size) -> Seq<(Position, CellView)> {
    Seq::new(
        (size.width * size.height) as nat,
        |i: int|
            (
                Position { x: (i % (size.height as int)) as u16, y: (i / (size.height as int)) as u16 },
                Cell::spec_empty(),
            ),
    )
}

/// A buffer that draws into `Buf` and keeps the calls of the last frame it
/// ended; drawing hands out the calls of `Buf` whose cell differs from the
/// last frame's call at the same index.
pub struct ClassicDiffedBuffers<Buf: Buffer> {
    size: Size,
    current_buf: Buf,
    last_frame: Vec<DrawCall>,
}

impl<Buf: Buffer> ClassicDiffedBuffers<Buf> {
    /// The buffer drawn into.
    pub closed spec fn spec_current(&self) -> Buf {
        self.current_buf
    }

    /// The size the buffer reports.
    pub closed spec fn spec_frame_size(&self) -> Size {
        self.size
    }

    /// The calls of the last frame ended.
    pub closed spec fn spec_last_frame(&self) -> Seq<(Position, CellView)> {
        self.last_frame@.map_values(|c: DrawCall| c@)
    }

    /// Draws into `buf`, which has size `size`; the last frame holds an empty
    /// cell for every position.
    pub fn new(size: Size, buf: Buf) -> (b: Self)
        ensures
            b.spec_current() == buf,
            b.spec_frame_size() == size,
            b.spec_last_frame() == spec_first_frame(size),
    {
        let mut last_frame: Vec<DrawCall> = Vec::new();
        let mut y: u16 = 0;
        while y < size.width
            invariant
                y <= size.width,
                last_frame@.map_values(|c: DrawCall| c@) == spec_first_frame(size).take(y * size.height),
            decreases size.width - y,
        {
            let mut x: u16 = 0;
            while x < size.height
                invariant
                    y < size.width,
                    x <= size.height,
                    last_frame@.map_values(|c: DrawCall| c@) == spec_first_frame(size).take(y * size.height + x),
                decreases size.height - x,
            {
                proof {
                    let k = y * size.height + x;
                    assert(k < size.width * size.height) by (nonlinear_arith)
                        requires k == y * size.height + x, x < size.height, y < size.width;
                    assert(k % (size.height as int) == x && k / (size.height as int) == y) by (nonlinear_arith)
                        requires k == y * size.height + x, x < size.height, 0 <= y;
                }
                let ghost before = last_frame@.map_values(|c: DrawCall| c@);
                last_frame.push(DrawCall { pos: Position::new(x, y), cell: Cell::empty() });
                assert(last_frame@.map_values(|c: DrawCall| c@) =~= before.push(
                    spec_first_frame(size)[y * size.height + x],
                ));
                assert(last_frame@.map_values(|c: DrawCall| c@) =~= spec_first_frame(size).take(
                    y * size.height + x + 1,
                ));
                x += 1;
            }
            proof {
                assert((y + 1) * size.height == y * size.height + size.height) by (nonlinear_arith);
            }
            y += 1;
        }
        assert(spec_first_frame(size).take(size.width * size.height) =~= spec_first_frame(size));
        ClassicDiffedBuffers { size, current_buf: buf, last_frame }
    }

    /// The buffer drawn into, to change.
    pub fn current_buffer_mut(&mut self) -> (b: &mut Buf)
        ensures
            *b == old(self).spec_current(),
            final(self).spec_current() == *final(b),
            final(self).spec_last_frame() == old(self).spec_last_frame(),
            final(self).spec_frame_size() == old(self).spec_frame_size(),
    {
        &mut self.current_buf
    }
}

impl<Buf: Buffer + Drawer> Buffer for ClassicDiffedBuffers<Buf> {
    closed spec fn spec_size(&self) -> Size {
        self.size
    }

    closed spec fn spec_cells(&self) -> Seq<CellView> {
        self.current_buf.spec_cells()
    }

    closed spec fn wf(&self) -> bool {
        self.current_buf.wf() && self.current_buf.spec_size() == self.size
    }

    open spec fn spec_written(under: CellView, cell: CellView) -> CellView {
        Buf::spec_written(under, cell)
    }

    proof fn lemma_wf(&self) {
        self.current_buf.lemma_wf();
    }

    fn size(&self) -> (s: Size) {
        self.size
    }

    fn set_cell_checked(&mut self, pos: Position, cell: Cell) -> (r: Result<(), ErrorOutOfBoundsAxises>) {
        self.current_buf.set_cell_checked(pos, cell)
    }

    fn get_cell(&self, pos: Position) -> (c: &Cell) {
        self.current_buf.get_cell(pos)
    }

    fn get_cell_mut(&mut self, pos: Position) -> (c: &mut Cell) {
        self.current_buf.get_cell_mut(pos)
    }

    fn fill(&mut self, cell: Cell) {
        self.current_buf.fill(cell);
    }

    fn clear(&mut self) {
        self.current_buf.clear();
    }

    /// Starting a frame starts the frame of the buffer drawn into and keeps
    /// the last frame's calls.
    open spec fn spec_frame_started(&self, after: &Self) -> bool {
        &&& self.spec_current().spec_frame_started(&after.spec_current())
        &&& after.spec_frame_size() == self.spec_frame_size()
        &&& after.spec_last_frame() == self.spec_last_frame()
    }

    /// Ending a frame ends the frame of the buffer drawn into, which then
    /// hands out its calls; they are kept as the last frame.
    open spec fn spec_frame_ended(&self, after: &Self) -> bool {
        &&& after.spec_frame_size() == self.spec_frame_size()
        &&& after.spec_last_frame() == after.spec_current().spec_draw_calls()
        &&& exists|ended: Buf|
            #![trigger self.spec_current().spec_frame_ended(&ended)]
            self.spec_current().spec_frame_ended(&ended) && ended.spec_cells() == after.spec_current().spec_cells()
                && ended.spec_draw_calls() == after.spec_current().spec_draw_calls()
    }

    fn start_frame(&mut self) {
        self.current_buf.start_frame();
    }

    /// Ends the frame of the buffer drawn into and keeps the calls it then
    /// hands out as the last frame.
    fn end_frame(&mut self)
        ensures
            final(self).spec_last_frame() == final(self).spec_current().spec_draw_calls(),
    {
        self.current_buf.end_frame();
        let ghost ended = self.current_buf;
        let calls = self.current_buf.draw();
        self.last_frame = calls;
        assert(old(self).spec_current().spec_frame_ended(&ended) && ended.spec_cells()
            == self.spec_current().spec_cells() && ended.spec_draw_calls() == self.spec_current().spec_draw_calls());
    }
}

impl<Buf: Buffer + Drawer> Drawer for ClassicDiffedBuffers<Buf> {
    /// The calls of the buffer drawn into that differ from the last frame.
    open spec fn spec_draw_calls(&self) -> Seq<(Position, CellView)> {
        spec_new_calls(
            self.spec_current().spec_draw_calls(),
            self.spec_last_frame(),
            self.spec_current().spec_draw_calls().len() as int,
        )
    }

    proof fn lemma_draw_calls_within(&self) {
        self.current_buf.lemma_draw_calls_within();
        lemma_new_calls_from(
            self.current_buf.spec_draw_calls(),
            self.spec_last_frame(),
            self.current_buf.spec_draw_calls().len() as int,
        );
    }

    fn draw(&mut self) -> (calls: Vec<DrawCall>) {
        let all = self.current_buf.draw();
        let ghost calls_view = all@.map_values(|c: DrawCall| c@);
        let mut out: Vec<DrawCall> = Vec::new();
        let mut i: usize = 0;
        while i < all.len()
            invariant
                i <= all@.len(),
                calls_view == all@.map_values(|c: DrawCall| c@),
                out@.map_values(|c: DrawCall| c@) == spec_new_calls(
                    calls_view,
                    self.last_frame@.map_values(|c: DrawCall| c@),
                    i as int,
                ),
            decreases all@.len() - i,
        {
            let ghost before = out@.map_values(|c: DrawCall| c@);
            let keep = if i < self.last_frame.len() {
                self.last_frame[i].cell != all[i].cell
            } else {
                true
            };
            if keep {
                out.push(DrawCall { pos: all[i].pos, cell: all[i].cell.clone() });
                assert(out@.map_values(|c: DrawCall| c@) =~= before.push(calls_view[i as int]));
            }
            i += 1;
        }
        out
    }
}

/// Whether call `j` of `calls` is new: its cell differs in any way from the
/// cell of the call at the same index of `last`, or `last` has no such call.
pub open spec fn spec_is_new_call(calls: Seq<(Position, CellView)>, last: Seq<(Position, CellView)>, j: int) -> bool {
    j >= last.len() || last[j].1 != calls[j].1
}

/// Every new call is kept: a call whose cell differs in any way (text, style
/// or format) from the cell of the last frame's call at the same index, or
/// that has no such call, is among the calls kept.
pub proof fn lemma_new_calls_kept(calls: Seq<(Position, CellView)>, last: Seq<(Position, CellView)>, n: int)
    requires
        0 <= n <= calls.len(),
    ensures
        forall|j: int|
            0 <= j < n && spec_is_new_call(calls, last, j) ==> spec_new_calls(
                calls,
                last,
                n,
            ).contains(#[trigger] calls[j]),
    decreases n,
{
    if n > 0 {
        lemma_new_calls_kept(calls, last, n - 1);
        let before = spec_new_calls(calls, last, n - 1);
        let after = spec_new_calls(calls, last, n);
        assert forall|j: int|
            0 <= j < n && spec_is_new_call(calls, last, j) implies after.contains(#[trigger] calls[j]) by {
            if j < n - 1 {
                assert(before.contains(calls[j]));
                let k = choose|k: int| 0 <= k < before.len() && before[k] == calls[j];
                assert(after[k] == calls[j]);
            } else {
                assert(after[before.len() as int] == calls[j]);
            }
        }
    } else {
        assert(spec_new_calls(calls, last, n).len() == 0);
    }
}

/// No call that is not new is kept: among calls that are all different, a
/// call whose cell is the same as the last frame's cell at the same index is
/// not among the calls kept.
pub proof fn lemma_old_calls_dropped(calls: Seq<(Position, CellView)>, last: Seq<(Position, CellView)>, n: int)
    requires
        0 <= n <= calls.len(),
        forall|i: int, j: int| 0 <= i < j < n ==> calls[i] != calls[j],
    ensures
        forall|j: int|
            0 <= j < n && !spec_is_new_call(calls, last, j) ==> !spec_new_calls(calls, last, n).contains(
                #[trigger] calls[j],
            ),
    decreases n,
{
    if n > 0 {
        lemma_old_calls_dropped(calls, last, n - 1);
        let before = spec_new_calls(calls, last, n - 1);
        let after = spec_new_calls(calls, last, n);
        assert forall|j: int| 0 <= j < n && !spec_is_new_call(calls, last, j) implies !after.contains(
            #[trigger] calls[j],
        ) by {
            if after.contains(calls[j]) {
                let k = choose|k: int| 0 <= k < after.len() && after[k] == calls[j];
                if k < before.len() {
                    assert(after[k] == before[k]);
                    if j < n - 1 {
                        assert(!before.contains(calls[j]));
                        assert(before.contains(calls[j]));
                    } else {
                        lemma_new_calls_from(calls, last, n - 1);
                        let i = choose|i: int| 0 <= i < n - 1 && #[trigger] before[k] == calls[i];
                        assert(calls[i] != calls[j]);
                    }
                } else {
                    assert(after[k] == calls[n - 1]);
                    assert(spec_is_new_call(calls, last, n - 1));
                    if j < n - 1 {
                        assert(calls[j] != calls[n - 1]);
                    }
                }
            }
        }
    }
}

/// Drawing hands out every call of the buffer drawn into whose cell differs
/// in any way from the last frame's cell at the same index (or that has no
/// call there in the last frame).
pub proof fn lemma_classic_draws_new_calls<Buf: Buffer + Drawer>(b: &ClassicDiffedBuffers<Buf>)
    ensures
        forall|j: int|
            0 <= j < b.spec_current().spec_draw_calls().len() && spec_is_new_call(
                b.spec_current().spec_draw_calls(),
                b.spec_last_frame(),
                j,
            ) ==> b.spec_draw_calls().contains(#[trigger] b.spec_current().spec_draw_calls()[j]),
{
    lemma_new_calls_kept(
        b.spec_current().spec_draw_calls(),
        b.spec_last_frame(),
        b.spec_current().spec_draw_calls().len() as int,
    );
}

/// Every call kept is one of the calls given.
pub proof fn lemma_new_calls_from(calls: Seq<(Position, CellView)>, last: Seq<(Position, CellView)>, n: int)
    requires
        0 <= n <= calls.len(),
    ensures
        forall|k: int|
            0 <= k < spec_new_calls(calls, last, n).len() ==> exists|j: int|
                0 <= j < n && #[trigger] spec_new_calls(calls, last, n)[k] == calls[j],
    decreases n,
{
    if n > 0 {
        lemma_new_calls_from(calls, last, n - 1);
        let before = spec_new_calls(calls, last, n - 1);
        let after = spec_new_calls(calls, last, n);
        assert forall|k: int| 0 <= k < after.len() implies exists|j: int|
            0 <= j < n && #[trigger] after[k] == calls[j] by {
            if k < before.len() {
                assert(after[k] == before[k]);
                let j = choose|j: int| 0 <= j < n - 1 && #[trigger] before[k] == calls[j];
                assert(0 <= j < n && after[k] == calls[j]);
            } else {
                assert(after[k] == calls[n - 1]);
            }
        }
    }
}

} // verus!
