//! Line and style drawing.
use vstd::prelude::*;

use crate::base::buffer::{cell_at, cell_index, lemma_cell_index, lemma_index_position, Buffer};
use crate::base::draw::{Position, Rect, Size};
use crate::coord_space::div_toward_zero;
use crate::cell::{Cell, CellView};
use crate::style::Style;

verus! {

/// `cell` merged into `under`, as lines draw: the text of `cell`, its style
/// laid over the style of `under`, and the format of `under`.
pub open spec fn spec_merged_cell(under: CellView, cell: CellView) -> CellView {
    CellView { ch: cell.ch, style: under.style.spec_merged(cell.style), format: under.format }
}

/// How many cells a vertical line from `start` of up to `len` cells covers.
pub open spec fn spec_vline_len(size: Size, start: Position, len: u16) -> int {
    if !size.spec_is_within(start) {
        0
    } else if len <= size.height - start.y {
        len as int
    } else {
        size.height - start.y
    }
}

/// How many cells a horizontal line from `start` of up to `len` cells covers.
pub open spec fn spec_hline_len(size: Size, start: Position, len: u16) -> int {
    if !size.spec_is_within(start) {
        0
    } else if len <= size.width - start.x {
        len as int
    } else {
        size.width - start.x
    }
}

/// Whether `p` lies on the segment of column `x` from row `y0` up to, not
/// including, row `y1`.
pub open spec fn on_column(p: Position, x: int, y0: int, y1: int) -> bool {
    p.x == x && y0 <= p.y < y1
}

/// Whether `p` lies on the segment of row `y` from column `x0` up to, not
/// including, column `x1`.
pub open spec fn on_row(p: Position, y: int, x0: int, x1: int) -> bool {
    p.y == y && x0 <= p.x < x1
}

/// Draws a vertical line downward from `start` for up to `len` cells.
///
/// `cell` is merged into each cell the line touches. The line stops at the
/// bottom edge of the buffer; if `start` is outside the buffer nothing is
/// drawn. Returns the number of cells written.
pub fn draw_vline<Buf: Buffer>(buf: &mut Buf, start: Position, len: u16, cell: Cell) -> (n: u16)
    requires
        old(buf).wf(),
    ensures
        final(buf).wf(),
        final(buf).spec_size() == old(buf).spec_size(),
        n == spec_vline_len(old(buf).spec_size(), start, len),
        final(buf).spec_cells().len() == old(buf).spec_cells().len(),
        forall|p: Position|
            old(buf).spec_size().spec_is_within(p) ==> #[trigger] cell_at(
                final(buf).spec_cells(),
                old(buf).spec_size(),
                p,
            ) == if on_column(p, start.x as int, start.y as int, start.y + n) {
                spec_merged_cell(cell_at(old(buf).spec_cells(), old(buf).spec_size(), p), cell@)
            } else {
                cell_at(old(buf).spec_cells(), old(buf).spec_size(), p)
            },
{
    let sz = buf.size();
    if !sz.is_within(start) {
        return 0;
    }
    let renderable = sz.height - start.y;
    let to_render = if renderable <= len { renderable } else { len };
    let ghost old_cells = buf.spec_cells();
    let mut y = start.y;
    while y < start.y + to_render
        invariant
            buf.wf(),
            buf.spec_size() == sz,
            start.y <= y <= start.y + to_render,
            start.y + to_render <= sz.height,
            start.x < sz.width,
            buf.spec_cells().len() == old_cells.len(),
            forall|p: Position|
                sz.spec_is_within(p) ==> #[trigger] cell_at(buf.spec_cells(), sz, p) == if on_column(
                    p,
                    start.x as int,
                    start.y as int,
                    y as int,
                ) {
                    spec_merged_cell(cell_at(old_cells, sz, p), cell@)
                } else {
                    cell_at(old_cells, sz, p)
                },
        decreases start.y + to_render - y,
    {
        let pos = Position::new(start.x, y);
        proof {
            buf.lemma_wf();
        }
        let ghost before = buf.spec_cells();
        let cur = buf.get_cell_mut(pos);
        cur.merge(&cell);
        proof {
            lemma_cell_index(sz, pos, pos);
            assert(buf.spec_cells() == before.update(
                cell_index(sz, pos),
                spec_merged_cell(cell_at(before, sz, pos), cell@),
            ));
            assert forall|p: Position| sz.spec_is_within(p) implies #[trigger] cell_at(
                buf.spec_cells(),
                sz,
                p,
            ) == if on_column(p, start.x as int, start.y as int, y + 1) {
                spec_merged_cell(cell_at(old_cells, sz, p), cell@)
            } else {
                cell_at(old_cells, sz, p)
            } by {
                lemma_cell_index(sz, p, pos);
                lemma_cell_index(sz, p, p);
                assert(cell_at(before, sz, p) == (if on_column(p, start.x as int, start.y as int, y as int) {
                    spec_merged_cell(cell_at(old_cells, sz, p), cell@)
                } else {
                    cell_at(old_cells, sz, p)
                }));
                if p == pos {
                    assert(cell_at(buf.spec_cells(), sz, p) == spec_merged_cell(cell_at(before, sz, pos), cell@));
                } else {
                    assert(cell_at(buf.spec_cells(), sz, p) == cell_at(before, sz, p));
                }
            }
        }
        y = y + 1;
    }
    to_render
}

/// Draws a horizontal line rightward from `start` for up to `len` cells.
///
/// `cell` is merged into each cell the line touches. The line stops at the
/// right edge of the buffer; if `start` is outside the buffer nothing is
/// drawn. Returns the number of cells written.
pub fn draw_hline<Buf: Buffer>(buf: &mut Buf, start: Position, len: u16, cell: Cell) -> (n: u16)
    requires
        old(buf).wf(),
    ensures
        final(buf).wf(),
        final(buf).spec_size() == old(buf).spec_size(),
        n == spec_hline_len(old(buf).spec_size(), start, len),
        final(buf).spec_cells().len() == old(buf).spec_cells().len(),
        forall|p: Position|
            old(buf).spec_size().spec_is_within(p) ==> #[trigger] cell_at(
                final(buf).spec_cells(),
                old(buf).spec_size(),
                p,
            ) == if on_row(p, start.y as int, start.x as int, start.x + n) {
                spec_merged_cell(cell_at(old(buf).spec_cells(), old(buf).spec_size(), p), cell@)
            } else {
                cell_at(old(buf).spec_cells(), old(buf).spec_size(), p)
            },
{
    let sz = buf.size();
    if !sz.is_within(start) {
        return 0;
    }
    let renderable = sz.width - start.x;
    let to_render = if renderable <= len { renderable } else { len };
    let ghost old_cells = buf.spec_cells();
    let mut x = start.x;
    while x < start.x + to_render
        invariant
            buf.wf(),
            buf.spec_size() == sz,
            start.x <= x <= start.x + to_render,
            start.x + to_render <= sz.width,
            start.y < sz.height,
            buf.spec_cells().len() == old_cells.len(),
            forall|p: Position|
                sz.spec_is_within(p) ==> #[trigger] cell_at(buf.spec_cells(), sz, p) == if on_row(
                    p,
                    start.y as int,
                    start.x as int,
                    x as int,
                ) {
                    spec_merged_cell(cell_at(old_cells, sz, p), cell@)
                } else {
                    cell_at(old_cells, sz, p)
                },
        decreases start.x + to_render - x,
    {
        let pos = Position::new(x, start.y);
        proof {
            buf.lemma_wf();
        }
        let ghost before = buf.spec_cells();
        let cur = buf.get_cell_mut(pos);
        cur.merge(&cell);
        proof {
            lemma_cell_index(sz, pos, pos);
            assert(buf.spec_cells() == before.update(
                cell_index(sz, pos),
                spec_merged_cell(cell_at(before, sz, pos), cell@),
            ));
            assert forall|p: Position| sz.spec_is_within(p) implies #[trigger] cell_at(
                buf.spec_cells(),
                sz,
                p,
            ) == if on_row(p, start.y as int, start.x as int, x + 1) {
                spec_merged_cell(cell_at(old_cells, sz, p), cell@)
            } else {
                cell_at(old_cells, sz, p)
            } by {
                lemma_cell_index(sz, p, pos);
                lemma_cell_index(sz, p, p);
                assert(cell_at(before, sz, p) == (if on_row(p, start.y as int, start.x as int, x as int) {
                    spec_merged_cell(cell_at(old_cells, sz, p), cell@)
                } else {
                    cell_at(old_cells, sz, p)
                }));
                if p == pos {
                    assert(cell_at(buf.spec_cells(), sz, p) == spec_merged_cell(cell_at(before, sz, pos), cell@));
                } else {
                    assert(cell_at(buf.spec_cells(), sz, p) == cell_at(before, sz, p));
                }
            }
        }
        x = x + 1;
    }
    to_render
}

/// The end points of a line in drawing order: top to bottom, and left to
/// right along a row.
pub open spec fn spec_line_ends(start: Position, end: Position) -> (Position, Position) {
    if start.y < end.y || (start.y == end.y && start.x <= end.x) {
        (start, end)
    } else {
        (end, start)
    }
}

/// The walk a line takes, in a coordinate space where each cell column is two
/// units wide: where it starts, how far it may go, how each step moves and
/// how the error term of the walk evolves.
pub struct LinePlan {
    pub x0: int,
    pub y0: int,
    pub w: int,
    pub h: int,
    pub major_x: int,
    pub major_y: int,
    pub minor_x: int,
    pub minor_y: int,
    pub steps: int,
    pub step_inc: int,
    pub error0: int,
    pub error_dec: int,
}

pub open spec fn spec_signum(v: int) -> int {
    if v > 0 {
        1
    } else if v < 0 {
        -1
    } else {
        0
    }
}

pub open spec fn spec_abs(v: int) -> int {
    if v < 0 {
        -v
    } else {
        v
    }
}

pub open spec fn spec_min(a: int, b: int) -> int {
    if a <= b {
        a
    } else {
        b
    }
}

/// The walk of the line from `start` to `end` in a buffer of size `size`:
/// along its major axis one unit per step (one row when steep, one cell
/// column when shallow), at most up to the buffer's edge.
pub open spec fn spec_line_plan(size: Size, start: Position, end: Position) -> LinePlan {
    let (s, e) = spec_line_ends(start, end);
    let x0 = s.x * 2;
    let y0 = s.y as int;
    let ex = e.x * 2;
    let ey = e.y as int;
    let dy = ey - y0;
    let x_dir = spec_signum(ex - x0);
    let dx = spec_abs(ex - x0);
    let w = size.width * 2;
    let h = size.height as int;
    let steep = dy * 2 > dx;
    let bound = if steep {
        h - 1 - y0
    } else if x_dir >= 0 {
        div_toward_zero(w - 1 - x0, 2)
    } else {
        div_toward_zero(x0, 2)
    };
    LinePlan {
        x0,
        y0,
        w,
        h,
        major_x: if steep { 0 } else { 2 * x_dir },
        major_y: if steep { 1 } else { 0 },
        minor_x: if steep { 2 * x_dir } else { 0 },
        minor_y: if steep { 0 } else { 1 },
        steps: spec_min(if steep { dy } else { div_toward_zero(dx, 2) }, bound),
        step_inc: if steep { dx } else { 2 * dy },
        error0: if steep { -dy } else { 2 * dy - dx },
        error_dec: if steep { 2 * dy } else { dx },
    }
}

/// The cell a point of the doubled space falls in.
pub open spec fn spec_line_cell(x: int, y: int) -> Position {
    Position { x: (x / 2) as u16, y: y as u16 }
}

/// The cells a walk visits from step `i` on, at `(x, y)` with error `error`,
/// and the count the drawing reports when it ends. A minor step that would
/// leave the buffer ends the walk early.
pub open spec fn spec_line_walk(plan: LinePlan, x: int, y: int, error: int, i: int) -> (Seq<Position>, int)
    decreases plan.steps + 1 - i,
{
    if i > plan.steps {
        (Seq::empty(), plan.steps + 1)
    } else {
        let here = spec_line_cell(x, y);
        let e = error + plan.step_inc;
        if e >= 0 {
            let nx = x + plan.minor_x;
            let ny = y + plan.minor_y;
            if nx < 0 || nx >= plan.w || ny >= plan.h {
                (seq![here], i + 1)
            } else {
                let rest = spec_line_walk(plan, nx + plan.major_x, ny + plan.major_y, e - plan.error_dec, i + 1);
                (seq![here] + rest.0, rest.1)
            }
        } else {
            let rest = spec_line_walk(plan, x + plan.major_x, y + plan.major_y, e, i + 1);
            (seq![here] + rest.0, rest.1)
        }
    }
}

/// The cells a line from `start` to `end` covers in a buffer of size `size`,
/// and the count [`draw_line`] returns (taken modulo 2^32).
pub open spec fn spec_line(size: Size, start: Position, end: Position) -> (Seq<Position>, int) {
    if size.spec_area() == 0 {
        (Seq::empty(), 0)
    } else {
        let plan = spec_line_plan(size, start, end);
        spec_line_walk(plan, plan.x0, plan.y0, plan.error0, 0)
    }
}

/// The inputs on which drawing a line would write outside the buffer: its
/// first end point lies outside while the walk has steps to take.
pub open spec fn spec_line_leaves_buffer(size: Size, start: Position, end: Position) -> bool {
    &&& size.spec_area() != 0
    &&& !size.spec_is_within(spec_line_ends(start, end).0)
    &&& spec_line_plan(size, start, end).steps >= 0
}

/// Merging the same cell twice is merging it once.
pub proof fn lemma_merged_cell_idempotent(under: CellView, cell: CellView)
    ensures
        spec_merged_cell(spec_merged_cell(under, cell), cell) == spec_merged_cell(under, cell),
{
    let (a, b) = (under.style.attributes.0, cell.style.attributes.0);
    assert((a | b) | b == a | b) by (bit_vector);
}

/// Draws a line between two cells using Bresenham's line algorithm.
///
/// `cell` is merged into each cell the line touches. The line is cut at
/// the buffer edges; `start` and `end` may be given in either order with the
/// same result. The walk runs in a space where each cell column is two units
/// wide, so that diagonal lines look right on cells about twice as tall as
/// they are wide. Returns the number of cells written.
pub fn draw_line<Buf: Buffer>(buf: &mut Buf, start: Position, end: Position, cell: Cell) -> (n: u32)
    requires
        old(buf).wf(),
        !spec_line_leaves_buffer(old(buf).spec_size(), start, end),
    ensures
        final(buf).wf(),
        final(buf).spec_size() == old(buf).spec_size(),
        final(buf).spec_cells().len() == old(buf).spec_cells().len(),
        n == spec_line(old(buf).spec_size(), start, end).1 as u32,
        forall|p: Position|
            old(buf).spec_size().spec_is_within(p) ==> #[trigger] cell_at(
                final(buf).spec_cells(),
                old(buf).spec_size(),
                p,
            ) == if spec_line(old(buf).spec_size(), start, end).0.contains(p) {
                spec_merged_cell(cell_at(old(buf).spec_cells(), old(buf).spec_size(), p), cell@)
            } else {
                cell_at(old(buf).spec_cells(), old(buf).spec_size(), p)
            },
{
    let sz = buf.size();
    if sz.area() == 0 {
        return 0;
    }
    let ghost plan = spec_line_plan(sz, start, end);
    let ghost old_cells = buf.spec_cells();

    // Always walk top to bottom (left to right along a row), so that
    // swapping the end points draws the same cells.
    let (first, last) = if start.y < end.y || (start.y == end.y && start.x <= end.x) {
        (start, end)
    } else {
        (end, start)
    };

    let mut x: i32 = first.x as i32 * 2;
    let mut y: i32 = first.y as i32;
    let ex: i32 = last.x as i32 * 2;
    let ey: i32 = last.y as i32;

    let dy: i32 = ey - y;
    let x_dir: i32 = if ex - x > 0 {
        1
    } else if ex - x < 0 {
        -1
    } else {
        0
    };
    let dx: i32 = if ex - x < 0 { x - ex } else { ex - x };

    let w: i32 = sz.width as i32 * 2;
    let h: i32 = sz.height as i32;

    // Steep lines advance one row per step, shallow ones one cell column.
    let steep: bool = dy * 2 > dx;
    let (full_steps, major_x, major_y, minor_x, minor_y) = if steep {
        (dy, 0i32, 1i32, 2 * x_dir, 0i32)
    } else {
        (dx / 2, 2 * x_dir, 0i32, 0i32, 1i32)
    };
    let bound: i32 = if steep {
        h - 1 - y
    } else if x_dir >= 0 {
        (w - 1 - x) / 2
    } else {
        x / 2
    };
    let steps: i32 = if full_steps <= bound { full_steps } else { bound };

    let (step_inc, error0, error_dec) = if steep {
        (dx, -dy, 2 * dy)
    } else {
        (2 * dy, 2 * dy - dx, dx)
    };
    let mut error: i32 = error0;

    assert(plan.x0 == x && plan.y0 == y && plan.w == w && plan.h == h);
    assert(plan.major_x == major_x && plan.major_y == major_y);
    assert(plan.minor_x == minor_x && plan.minor_y == minor_y);
    assert(plan.steps == steps && plan.step_inc == step_inc);
    assert(plan.error0 == error0 && plan.error_dec == error_dec);

    proof {
        if steps >= 0 {
            assert(sz.spec_is_within(first));
        }
    }
    let ghost mut done: Seq<Position> = Seq::empty();
    let ghost walk0 = spec_line_walk(plan, plan.x0, plan.y0, plan.error0, 0);
    let mut i: i32 = 0;
    while i <= steps
        invariant
            buf.wf(),
            buf.spec_size() == sz,
            sz == old(buf).spec_size(),
            old_cells == old(buf).spec_cells(),
            buf.spec_cells().len() == old_cells.len(),
            plan == spec_line_plan(sz, start, end),
            walk0 == spec_line_walk(plan, plan.x0, plan.y0, plan.error0, 0),
            plan.w == w && plan.h == h && plan.steps == steps,
            plan.major_x == major_x && plan.major_y == major_y,
            plan.minor_x == minor_x && plan.minor_y == minor_y,
            plan.step_inc == step_inc && plan.error_dec == error_dec,
            w == sz.width * 2 && h == sz.height,
            0 <= step_inc <= 0x4_0000,
            0 <= error_dec <= 0x4_0000,
            step_inc <= error_dec || (step_inc == 0 && error_dec == 0),
            -error_dec <= error <= step_inc,
            0 <= i,
            steps >= 0 ==> i <= steps + 1,
            i <= steps ==> 0 <= x < w && 0 <= y < h,
            -0x4_0000 <= x <= 0x4_0000,
            -0x4_0000 <= y <= 0x4_0000,
            steep ==> major_x == 0 && major_y == 1 && y == plan.y0 + i && steps <= h - 1 - plan.y0,
            steep ==> (minor_x == 2 || minor_x == -2 || minor_x == 0) && minor_y == 0,
            !steep ==> major_y == 0 && minor_x == 0 && minor_y == 1,
            !steep && major_x == 2 ==> x == plan.x0 + 2 * i && (steps >= 0 ==> plan.x0 + 2 * steps <= w - 1),
            !steep && major_x == -2 ==> x == plan.x0 - 2 * i && (steps >= 0 ==> plan.x0 - 2 * steps >= 0),
            !steep && major_x == 0 ==> x == plan.x0 && steps <= 0,
            walk0 == (done + spec_line_walk(plan, x as int, y as int, error as int, i as int).0,
                spec_line_walk(plan, x as int, y as int, error as int, i as int).1),
            forall|p: Position|
                sz.spec_is_within(p) ==> #[trigger] cell_at(buf.spec_cells(), sz, p) == if done.contains(p) {
                    spec_merged_cell(cell_at(old_cells, sz, p), cell@)
                } else {
                    cell_at(old_cells, sz, p)
                },
        decreases steps + 1 - i,
    {
        let pos = Position::new((x / 2) as u16, y as u16);
        assert(pos == spec_line_cell(x as int, y as int));
        proof {
            buf.lemma_wf();
            lemma_cell_index(sz, pos, pos);
        }
        let ghost before = buf.spec_cells();
        let cur = buf.get_cell_mut(pos);
        cur.merge(&cell);
        proof {
            assert(buf.spec_cells() == before.update(
                cell_index(sz, pos),
                spec_merged_cell(cell_at(before, sz, pos), cell@),
            ));
            let new_done = done.push(pos);
            assert forall|p: Position| sz.spec_is_within(p) implies #[trigger] cell_at(
                buf.spec_cells(),
                sz,
                p,
            ) == if new_done.contains(p) {
                spec_merged_cell(cell_at(old_cells, sz, p), cell@)
            } else {
                cell_at(old_cells, sz, p)
            } by {
                lemma_cell_index(sz, p, pos);
                lemma_cell_index(sz, p, p);
                assert(cell_at(before, sz, p) == (if done.contains(p) {
                    spec_merged_cell(cell_at(old_cells, sz, p), cell@)
                } else {
                    cell_at(old_cells, sz, p)
                }));
                if p == pos {
                    assert(new_done.contains(p)) by {
                        assert(new_done[done.len() as int] == p);
                    }
                    lemma_merged_cell_idempotent(cell_at(old_cells, sz, p), cell@);
                } else {
                    assert(new_done.contains(p) == done.contains(p)) by {
                        if new_done.contains(p) {
                            let k = choose|k: int| 0 <= k < new_done.len() && new_done[k] == p;
                            assert(k < done.len());
                            assert(done[k] == p);
                        }
                        if done.contains(p) {
                            let k = choose|k: int| 0 <= k < done.len() && done[k] == p;
                            assert(new_done[k] == p);
                        }
                    }
                }
            }
        }

        let ghost rest_before = spec_line_walk(plan, x as int, y as int, error as int, i as int);
        error += step_inc;
        if error >= 0 {
            let nx = x + minor_x;
            let ny = y + minor_y;
            // The minor axis may only advance while it stays in the buffer.
            if nx < 0 || nx >= w || ny >= h {
                proof {
                    assert(rest_before == (seq![pos], i + 1));
                    assert(walk0.0 =~= done.push(pos));
                    done = done.push(pos);
                }
                return (i + 1) as u32;
            }
            x = nx;
            y = ny;
            error -= error_dec;
        }
        x += major_x;
        y += major_y;
        proof {
            let rest = spec_line_walk(plan, x as int, y as int, error as int, i + 1);
            assert(rest_before == (seq![pos] + rest.0, rest.1));
            assert(done + (seq![pos] + rest.0) =~= done.push(pos) + rest.0);
            done = done.push(pos);
        }
        i += 1;
    }
    proof {
        assert(spec_line_walk(plan, x as int, y as int, error as int, i as int).0 =~= Seq::<Position>::empty());
        assert(walk0.0 =~= done);
    }
    (steps + 1) as u32
}

/// A line drawn from `a` to `b` covers the same cells, and reports the same
/// count, as one drawn from `b` to `a`; both are drawable or neither is.
pub proof fn lemma_line_symmetric(size: Size, a: Position, b: Position)
    ensures
        spec_line(size, a, b) == spec_line(size, b, a),
        spec_line_leaves_buffer(size, a, b) == spec_line_leaves_buffer(size, b, a),
{
    assert(spec_line_ends(a, b) == spec_line_ends(b, a));
}

/// Swapping the end points of a line changes nothing: where [`draw_line`]
/// may draw from `a` to `b`, it may draw from `b` to `a` as well, and the two
/// drawings, over the same cells, return the same count and leave the same
/// cells. `n_ab`, `after_ab` and `n_ba`, `after_ba` are what [`draw_line`]
/// says each drawing returns and leaves.
pub proof fn lemma_draw_line_swap(
    size: Size,
    before: Seq<CellView>,
    a: Position,
    b: Position,
    cell: CellView,
    n_ab: u32,
    after_ab: Seq<CellView>,
    n_ba: u32,
    after_ba: Seq<CellView>,
)
    requires
        !spec_line_leaves_buffer(size, a, b),
        before.len() == size.spec_area(),
        n_ab == spec_line(size, a, b).1 as u32,
        n_ba == spec_line(size, b, a).1 as u32,
        after_ab.len() == before.len(),
        after_ba.len() == before.len(),
        forall|p: Position|
            size.spec_is_within(p) ==> #[trigger] cell_at(after_ab, size, p) == if spec_line(size, a, b).0.contains(p) {
                spec_merged_cell(cell_at(before, size, p), cell)
            } else {
                cell_at(before, size, p)
            },
        forall|p: Position|
            size.spec_is_within(p) ==> #[trigger] cell_at(after_ba, size, p) == if spec_line(size, b, a).0.contains(p) {
                spec_merged_cell(cell_at(before, size, p), cell)
            } else {
                cell_at(before, size, p)
            },
    ensures
        !spec_line_leaves_buffer(size, b, a),
        n_ab == n_ba,
        after_ab == after_ba,
{
    lemma_line_symmetric(size, a, b);
    assert forall|i: int| 0 <= i < after_ab.len() implies after_ab[i] == after_ba[i] by {
        let p = lemma_index_position(size, i);
        assert(cell_at(after_ab, size, p) == cell_at(after_ba, size, p));
    }
    assert(after_ab =~= after_ba);
}

/// A line whose first end point (in drawing order) lies in the buffer
/// starts at that end point: it is the first cell drawn.
pub proof fn lemma_line_starts_at_first_end(size: Size, a: Position, b: Position)
    requires
        size.spec_is_within(spec_line_ends(a, b).0),
    ensures
        spec_line(size, a, b).0.len() > 0,
        spec_line(size, a, b).0[0] == spec_line_ends(a, b).0,
        !spec_line_leaves_buffer(size, a, b),
{
    let plan = spec_line_plan(size, a, b);
    let s = spec_line_ends(a, b).0;
    assert(plan.steps >= 0);
    assert(spec_line_cell(plan.x0, plan.y0) == s);
    assert(size.spec_area() != 0) by (nonlinear_arith)
        requires
            size.width > 0,
            size.height > 0,
            size.spec_area() == size.width * size.height,
    ;
    let walk = spec_line_walk(plan, plan.x0, plan.y0, plan.error0, 0);
    assert(walk.0.len() > 0 && walk.0[0] == s);
}

/// The end, exclusive, of the run from `start` of `len` units cut at `limit`.
pub open spec fn spec_clipped_end(start: int, len: int, limit: int) -> int {
    if start >= limit {
        start
    } else if start + len <= limit {
        start + len
    } else {
        limit
    }
}

/// Whether `p` lies in the part of `area` inside a buffer of size `size`.
pub open spec fn in_clipped_area(p: Position, area: Rect, size: Size) -> bool {
    &&& area.pos.x <= p.x < spec_clipped_end(area.pos.x as int, area.size.width as int, size.width as int)
    &&& area.pos.y <= p.y < spec_clipped_end(area.pos.y as int, area.size.height as int, size.height as int)
}

/// `cell` with `style` laid over its style.
pub open spec fn spec_styled_cell(cell: CellView, style: Style) -> CellView {
    CellView { style: cell.style.spec_merged(style), ..cell }
}

fn clipped_end(start: u16, len: u16, limit: u16) -> (e: u16)
    ensures
        e == spec_clipped_end(start as int, len as int, limit as int),
{
    if start >= limit {
        start
    } else if (start as u32) + (len as u32) <= limit as u32 {
        start + len
    } else {
        limit
    }
}

/// Lays `style` over the style of each cell of `area` that lies in the
/// buffer, with [`Style::merge`]. Returns the number of cells styled.
pub fn draw_style<Buf: Buffer>(buf: &mut Buf, area: Rect, style: Style) -> (n: u32)
    requires
        old(buf).wf(),
    ensures
        final(buf).wf(),
        final(buf).spec_size() == old(buf).spec_size(),
        final(buf).spec_cells().len() == old(buf).spec_cells().len(),
        n == (spec_clipped_end(area.pos.x as int, area.size.width as int, old(buf).spec_size().width as int)
            - area.pos.x) * (spec_clipped_end(
            area.pos.y as int,
            area.size.height as int,
            old(buf).spec_size().height as int,
        ) - area.pos.y),
        forall|p: Position|
            old(buf).spec_size().spec_is_within(p) ==> #[trigger] cell_at(
                final(buf).spec_cells(),
                old(buf).spec_size(),
                p,
            ) == if in_clipped_area(p, area, old(buf).spec_size()) {
                spec_styled_cell(cell_at(old(buf).spec_cells(), old(buf).spec_size(), p), style)
            } else {
                cell_at(old(buf).spec_cells(), old(buf).spec_size(), p)
            },
{
    let sz = buf.size();
    let x_end = clipped_end(area.pos.x, area.size.width, sz.width);
    let y_end = clipped_end(area.pos.y, area.size.height, sz.height);
    let ghost old_cells = buf.spec_cells();
    let mut y = area.pos.y;
    while y < y_end
        invariant
            buf.wf(),
            buf.spec_size() == sz,
            sz == old(buf).spec_size(),
            old_cells == old(buf).spec_cells(),
            buf.spec_cells().len() == old_cells.len(),
            area.pos.y <= y <= y_end,
            y_end == spec_clipped_end(area.pos.y as int, area.size.height as int, sz.height as int),
            x_end == spec_clipped_end(area.pos.x as int, area.size.width as int, sz.width as int),
            y_end <= sz.height || y_end == area.pos.y,
            forall|p: Position|
                sz.spec_is_within(p) ==> #[trigger] cell_at(buf.spec_cells(), sz, p) == if in_clipped_area(
                    p,
                    area,
                    sz,
                ) && p.y < y {
                    spec_styled_cell(cell_at(old_cells, sz, p), style)
                } else {
                    cell_at(old_cells, sz, p)
                },
        decreases y_end - y,
    {
        let mut x = area.pos.x;
        while x < x_end
            invariant
                buf.wf(),
                buf.spec_size() == sz,
                sz == old(buf).spec_size(),
                old_cells == old(buf).spec_cells(),
                buf.spec_cells().len() == old_cells.len(),
                area.pos.y <= y < y_end,
                y < sz.height,
                area.pos.x <= x <= x_end,
                x_end <= sz.width || x_end == area.pos.x,
                y_end == spec_clipped_end(area.pos.y as int, area.size.height as int, sz.height as int),
                x_end == spec_clipped_end(area.pos.x as int, area.size.width as int, sz.width as int),
                forall|p: Position|
                    sz.spec_is_within(p) ==> #[trigger] cell_at(buf.spec_cells(), sz, p) == if in_clipped_area(
                        p,
                        area,
                        sz,
                    ) && (p.y < y || (p.y == y && p.x < x)) {
                        spec_styled_cell(cell_at(old_cells, sz, p), style)
                    } else {
                        cell_at(old_cells, sz, p)
                    },
            decreases x_end - x,
        {
            let pos = Position::new(x, y);
            proof {
                buf.lemma_wf();
                lemma_cell_index(sz, pos, pos);
            }
            let ghost before = buf.spec_cells();
            let cur = buf.get_cell_mut(pos);
            cur.style.merge(style);
            proof {
                assert(buf.spec_cells() == before.update(
                    cell_index(sz, pos),
                    spec_styled_cell(cell_at(before, sz, pos), style),
                ));
                assert forall|p: Position| sz.spec_is_within(p) implies #[trigger] cell_at(
                    buf.spec_cells(),
                    sz,
                    p,
                ) == if in_clipped_area(p, area, sz) && (p.y < y || (p.y == y && p.x < x + 1)) {
                    spec_styled_cell(cell_at(old_cells, sz, p), style)
                } else {
                    cell_at(old_cells, sz, p)
                } by {
                    lemma_cell_index(sz, p, pos);
                    lemma_cell_index(sz, p, p);
                    assert(cell_at(before, sz, p) == (if in_clipped_area(p, area, sz) && (p.y < y || (p.y
                        == y && p.x < x)) {
                        spec_styled_cell(cell_at(old_cells, sz, p), style)
                    } else {
                        cell_at(old_cells, sz, p)
                    }));
                }
            }
            x += 1;
        }
        y += 1;
    }
    let w = (x_end - area.pos.x) as u32;
    let h = (y_end - area.pos.y) as u32;
    assert(w * h <= 0xFFFF_FFFF) by (nonlinear_arith)
        requires w <= 0xFFFF, h <= 0xFFFF;
    w * h
}

} // verus!
