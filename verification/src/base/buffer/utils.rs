//! Comparing two buffers cell by cell.
use vstd::prelude::*;

use crate::base::buffer::{
    cell_at, lemma_cell_index, lemma_position_of_cell_index, position_of_index, Buffer,
};
use crate::base::draw::{Position, Size};
use crate::color::Color;

verus! {

/// A value that differs between two buffers: what the first holds and what
/// the second holds.
#[derive(Clone, Debug, Default, PartialEq, Eq)]
pub struct DiffItem<T> {
    pub expected: T,
    pub found: T,
}

/// How one cell differs between two buffers; `None` where it does not.
pub struct CellDiff {
    pub fg: Option<DiffItem<Option<Color>>>,
    pub bg: Option<DiffItem<Option<Color>>>,
    pub ch: Option<DiffItem<String>>,
}

/// A cell difference as plain values.
pub struct CellDiffView {
    pub fg: Option<(Option<Color>, Option<Color>)>,
    pub bg: Option<(Option<Color>, Option<Color>)>,
    pub ch: Option<(Seq<char>, Seq<char>)>,
}

impl View for CellDiff {
    type V = CellDiffView;

    open spec fn view(&self) -> CellDiffView {
        CellDiffView {
            fg: match self.fg {
                Some(d) => Some((d.expected, d.found)),
                None => None,
            },
            bg: match self.bg {
                Some(d) => Some((d.expected, d.found)),
                None => None,
            },
            ch: match self.ch {
                Some(d) => Some((d.expected@, d.found@)),
                None => None,
            },
        }
    }
}

/// The text differences between `lhs` and `rhs` among the first `n` cells,
/// row by row. Both colors are taken from `lhs`, so no color difference is
/// ever reported.
pub open spec fn spec_buf_diffs(
    size: Size,
    lhs: Seq<crate::cell::CellView>,
    rhs: Seq<crate::cell::CellView>,
    n: int,
) -> Seq<(Position, CellDiffView)>
    decreases n,
{
    if n <= 0 {
        Seq::empty()
    } else {
        let before = spec_buf_diffs(size, lhs, rhs, n - 1);
        let (l, r) = (lhs[n - 1], rhs[n - 1]);
        if l.ch != r.ch {
            before.push(
                (
                    position_of_index(size.width as int, n - 1),
                    CellDiffView { fg: None, bg: None, ch: Some((l.ch, r.ch)) },
                ),
            )
        } else {
            before
        }
    }
}

fn cmp_ret(lhs: Option<Color>, rhs: Option<Color>) -> (d: Option<DiffItem<Option<Color>>>)
    ensures
        d matches Some(item) <==> lhs != rhs,
        d matches Some(item) ==> item.expected == lhs && item.found == rhs,
{
    if lhs != rhs {
        Some(DiffItem { expected: lhs, found: rhs })
    } else {
        None
    }
}

/// The cells in which two buffers of the same size differ, row by row.
///
/// Both colors compared are those of `lhs`, so only text differences are
/// reported.
pub fn buf_cmp<L: Buffer, R: Buffer>(lhs: &L, rhs: &R) -> (diffs: Vec<(Position, CellDiff)>)
    requires
        lhs.wf(),
        rhs.wf(),
        lhs.spec_size() == rhs.spec_size(),
    ensures
        diffs@.map_values(|d: (Position, CellDiff)| (d.0, d.1@)) == spec_buf_diffs(
            lhs.spec_size(),
            lhs.spec_cells(),
            rhs.spec_cells(),
            lhs.spec_size().spec_area(),
        ),
{
    let sz = lhs.size();
    let mut diffs: Vec<(Position, CellDiff)> = Vec::new();
    proof {
        lhs.lemma_wf();
        rhs.lemma_wf();
    }
    let mut y: u16 = 0;
    while y < sz.height
        invariant
            sz == lhs.spec_size(),
            sz == rhs.spec_size(),
            lhs.wf(),
            rhs.wf(),
            y <= sz.height,
            diffs@.map_values(|d: (Position, CellDiff)| (d.0, d.1@)) == spec_buf_diffs(
                sz,
                lhs.spec_cells(),
                rhs.spec_cells(),
                y * sz.width,
            ),
        decreases sz.height - y,
    {
        let mut x: u16 = 0;
        while x < sz.width
            invariant
                sz == lhs.spec_size(),
                sz == rhs.spec_size(),
                lhs.wf(),
                rhs.wf(),
                y < sz.height,
                x <= sz.width,
                diffs@.map_values(|d: (Position, CellDiff)| (d.0, d.1@)) == spec_buf_diffs(
                    sz,
                    lhs.spec_cells(),
                    rhs.spec_cells(),
                    y * sz.width + x,
                ),
            decreases sz.width - x,
        {
            let pos = Position { x, y };
            proof {
                lemma_cell_index(sz, pos, pos);
                lemma_position_of_cell_index(sz, pos);
            }
            let lhs_cell = lhs.get_cell(pos);
            let lhs_style = lhs_cell.style();
            let rhs_cell = rhs.get_cell(pos);
            let rhs_style = lhs_cell.style();

            let fg = cmp_ret(lhs_style.fg(), rhs_style.fg());
            let bg = cmp_ret(lhs_style.bg(), rhs_style.bg());
            let ch = if lhs_cell.ch != rhs_cell.ch {
                Some(DiffItem { expected: lhs_cell.ch.clone(), found: rhs_cell.ch.clone() })
            } else {
                None
            };
            let ghost before = diffs@.map_values(|d: (Position, CellDiff)| (d.0, d.1@));
            if fg.is_some() || bg.is_some() || ch.is_some() {
                diffs.push((pos, CellDiff { fg, bg, ch }));
                proof {
                    assert(diffs@.map_values(|d: (Position, CellDiff)| (d.0, d.1@)) =~= before.push(
                        (pos, diffs@[diffs@.len() - 1].1@),
                    ));
                }
            }
            x += 1;
        }
        proof {
            assert((y + 1) * sz.width == y * sz.width + sz.width) by (nonlinear_arith);
        }
        y += 1;
    }
    assert(sz.height * sz.width == sz.width * sz.height) by (nonlinear_arith);
    diffs
}

/// A buffer compared with cells equal to its own shows no difference.
pub proof fn lemma_buf_cmp_same(size: Size, cells: Seq<crate::cell::CellView>, n: int)
    ensures
        spec_buf_diffs(size, cells, cells, n) == Seq::<(Position, CellDiffView)>::empty(),
    decreases n,
{
    if n > 0 {
        lemma_buf_cmp_same(size, cells, n - 1);
    }
}

} // verus!
