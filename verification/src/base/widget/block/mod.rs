//! A border around an area, with titles on its top and bottom rows.
use vstd::prelude::*;

use crate::base::buffer::flat::FlatBuffer;
use crate::base::buffer::{cell_at, cell_index, lemma_cell_index, Buffer};
use crate::base::draw::{Position, Rect, Size};
use crate::base::timer::TimerDelta;
use crate::base::widget::block::set::{BlockSet, BorderPiece};
use crate::base::widget::block::title::{Title, TitleAlignment, TitlePosition};
use crate::base::widget::text::line::Line;
use crate::base::widget::text::LineWidth;
use crate::base::widget::{FrameContext, Widget};
use crate::base::DisplayWidth;
use crate::cell::CellView;

pub mod set;
pub mod title;

verus! {

/// Which sides of a block have a border: a set of the bits of
/// [`BorderSides::top`], [`BorderSides::right`], [`BorderSides::bottom`]
/// and [`BorderSides::left`].
#[derive(Clone, Copy, Debug, PartialEq, Eq, Hash, Structural)]
pub struct BorderSides(pub u8);

impl BorderSides {
    pub fn top() -> (s: BorderSides)
        ensures
            s == BorderSides(1),
    {
        BorderSides(1)
    }

    pub fn right() -> (s: BorderSides)
        ensures
            s == BorderSides(2),
    {
        BorderSides(2)
    }

    pub fn bottom() -> (s: BorderSides)
        ensures
            s == BorderSides(4),
    {
        BorderSides(4)
    }

    pub fn left() -> (s: BorderSides)
        ensures
            s == BorderSides(8),
    {
        BorderSides(8)
    }

    /// Every side.
    pub fn all() -> (s: BorderSides)
        ensures
            s == BorderSides(15),
    {
        BorderSides(15)
    }

    /// No side.
    pub fn empty() -> (s: BorderSides)
        ensures
            s == BorderSides(0),
    {
        BorderSides(0)
    }

    /// Whether every side of `other` is in `self`.
    pub open spec fn spec_contains(self, other: BorderSides) -> bool {
        self.0 & other.0 == other.0
    }

    /// Whether every side of `other` is in `self`.
    pub fn contains(self, other: BorderSides) -> (b: bool)
        ensures
            b == self.spec_contains(other),
    {
        self.0 & other.0 == other.0
    }

    /// The sides of both.
    pub fn union(self, other: BorderSides) -> (s: BorderSides)
        ensures
            s.0 == self.0 | other.0,
    {
        BorderSides(self.0 | other.0)
    }

    /// Whether the top side is in the set.
    pub open spec fn has_top(self) -> bool {
        self.spec_contains(BorderSides(1))
    }

    /// Whether the right side is in the set.
    pub open spec fn has_right(self) -> bool {
        self.spec_contains(BorderSides(2))
    }

    /// Whether the bottom side is in the set.
    pub open spec fn has_bottom(self) -> bool {
        self.spec_contains(BorderSides(4))
    }

    /// Whether the left side is in the set.
    pub open spec fn has_left(self) -> bool {
        self.spec_contains(BorderSides(8))
    }
}

/// 1 where `has` holds, else 0.
pub open spec fn offset_of(has: bool) -> u16 {
    if has {
        1
    } else {
        0
    }
}

/// `a - b`, or 0 where `b` is larger.
pub open spec fn sat_sub(a: u16, b: u16) -> u16 {
    if a >= b {
        (a - b) as u16
    } else {
        0
    }
}

/// Whether a block with `sides` draws anything in a buffer of `size`: the
/// border must leave room inside it.
pub open spec fn spec_draws(sides: BorderSides, size: Size) -> bool {
    let h = offset_of(sides.has_left()) + offset_of(sides.has_right());
    let v = offset_of(sides.has_top()) + offset_of(sides.has_bottom());
    size.width > h && size.height > v && size.spec_area() != 0
}

/// The place of the border that a block with `sides` draws at `p` in a
/// buffer of `size`, if any.
pub open spec fn spec_piece_at(sides: BorderSides, size: Size, p: Position) -> Option<BorderPiece> {
    let (l, t, r, b) = (sides.has_left(), sides.has_top(), sides.has_right(), sides.has_bottom());
    let lo = offset_of(l);
    let ro = offset_of(r);
    let to = offset_of(t);
    let bo = offset_of(b);
    let x_end = size.width - ro;
    let h_end = size.height - bo;
    if l && t && p.x == 0 && p.y == 0 {
        Some(BorderPiece::TopLeft)
    } else if t && p.y == 0 && lo <= p.x < x_end {
        Some(BorderPiece::Top)
    } else if r && t && size.width > 2 && p.x == size.width - 1 && p.y == 0 {
        Some(BorderPiece::TopRight)
    } else if l && p.x == 0 && to <= p.y < h_end {
        Some(BorderPiece::Left)
    } else if r && p.x == size.width - 1 && to <= p.y < h_end {
        Some(BorderPiece::Right)
    } else if b && l && p.x == 0 && p.y == size.height - 1 {
        Some(BorderPiece::BottomLeft)
    } else if b && p.y == size.height - 1 && lo <= p.x < x_end {
        Some(BorderPiece::Bottom)
    } else if b && r && p.x == size.width - 1 && p.y == size.height - 1 {
        Some(BorderPiece::BottomRight)
    } else {
        None
    }
}

/// The order in which the places of the border are drawn.
pub open spec fn piece_order(k: BorderPiece) -> int {
    match k {
        BorderPiece::TopLeft => 0,
        BorderPiece::Top => 1,
        BorderPiece::TopRight => 2,
        BorderPiece::Left => 3,
        BorderPiece::Right => 4,
        BorderPiece::BottomLeft => 5,
        BorderPiece::Bottom => 6,
        BorderPiece::BottomRight => 7,
    }
}

/// The run of cells that a block with `sides` draws the place `k` on in a
/// buffer of `size`: across a row or down a column, the row or column, and
/// the range of columns or rows; empty where the place is not drawn.
pub open spec fn spec_run(sides: BorderSides, size: Size, k: BorderPiece) -> (bool, u16, u16, u16) {
    let (l, t, r, b) = (sides.has_left(), sides.has_top(), sides.has_right(), sides.has_bottom());
    let lo = offset_of(l);
    let to = offset_of(t);
    let x_end = (size.width - offset_of(r)) as u16;
    let h_end = (size.height - offset_of(b)) as u16;
    let w1 = (size.width - 1) as u16;
    let h1 = (size.height - 1) as u16;
    match k {
        BorderPiece::TopLeft => if l && t { (true, 0u16, 0u16, 1u16) } else { (true, 0u16, 0u16, 0u16) },
        BorderPiece::Top => if t { (true, 0u16, lo, x_end) } else { (true, 0u16, 0u16, 0u16) },
        BorderPiece::TopRight => if r && t && size.width > 2 { (true, 0u16, w1, size.width) } else { (true, 0u16, 0u16, 0u16) },
        BorderPiece::Left => if l { (false, 0u16, to, h_end) } else { (true, 0u16, 0u16, 0u16) },
        BorderPiece::Right => if r { (false, w1, to, h_end) } else { (true, 0u16, 0u16, 0u16) },
        BorderPiece::BottomLeft => if b && l { (true, h1, 0u16, 1u16) } else { (true, 0u16, 0u16, 0u16) },
        BorderPiece::Bottom => if b { (true, h1, lo, x_end) } else { (true, 0u16, 0u16, 0u16) },
        BorderPiece::BottomRight => if b && r { (true, h1, w1, size.width) } else { (true, 0u16, 0u16, 0u16) },
    }
}

/// Whether `p` lies on the run of `k`.
pub open spec fn on_piece_run(sides: BorderSides, size: Size, k: BorderPiece, p: Position) -> bool {
    let run = spec_run(sides, size, k);
    on_run(run.0, run.1, run.2, run.3, p)
}

/// The run of a place holds exactly the positions where the place goes.
proof fn lemma_run_exact(sides: BorderSides, size: Size, k: BorderPiece)
    requires
        spec_draws(sides, size),
    ensures
        forall|p: Position|
            size.spec_is_within(p) ==> (spec_piece_at(sides, size, p) == Some(k)) == #[trigger] on_piece_run(
                sides,
                size,
                k,
                p,
            ),
{
}

/// The text a cell shows after a border text `s` is put in it: the first
/// character of `s`, or the NUL character where `s` is empty.
pub open spec fn first_or_nul(s: Seq<char>) -> Seq<char> {
    if s.len() > 0 {
        seq![s[0]]
    } else {
        seq!['\0']
    }
}

/// Whether `p` lies on the run of cells of row `fixed` from column `from` up
/// to `to` (where `across`), or of column `fixed` from row `from` up to `to`.
pub open spec fn on_run(across: bool, fixed: u16, from: u16, to: u16, p: Position) -> bool {
    if across {
        p.y == fixed && from <= p.x < to
    } else {
        p.x == fixed && from <= p.y < to
    }
}

/// Whether `p` lies in `rect`.
pub open spec fn in_rect(rect: Rect, p: Position) -> bool {
    rect.pos.x <= p.x < rect.pos.x + rect.size.width && rect.pos.y <= p.y < rect.pos.y + rect.size.height
}

/// `rect` cut down to the part of it that lies inside `size`.
pub open spec fn spec_clip(rect: Rect, size: Size) -> Rect {
    let x = if rect.pos.x < size.width {
        rect.pos.x
    } else {
        size.width
    };
    let y = if rect.pos.y < size.height {
        rect.pos.y
    } else {
        size.height
    };
    let w = if rect.size.width <= size.width - x {
        rect.size.width
    } else {
        (size.width - x) as u16
    };
    let h = if rect.size.height <= size.height - y {
        rect.size.height
    } else {
        (size.height - y) as u16
    };
    Rect { pos: Position { x, y }, size: Size { width: w, height: h } }
}

/// Where a title `width` cells wide is drawn on row `y` of a buffer of
/// `size` whose side borders are `lo` and `ro` cells wide.
pub open spec fn spec_title_rect(size: Size, width: u16, alignment: TitleAlignment, y: u16, lo: u16, ro: u16) -> Rect {
    let free = sat_sub(sat_sub(size.width, lo), ro);
    let w = if width < free {
        width
    } else {
        free
    };
    let x = match alignment {
        TitleAlignment::Left => lo,
        TitleAlignment::Center => (sat_sub(size.width, width) / 2) as u16,
        TitleAlignment::Right => sat_sub(size.width, width),
    };
    Rect { pos: Position { x, y }, size: Size { width: w, height: 1 } }
}

/// The cells of row `y` of a grid of `size`, from column `x` on, `w` wide.
pub open spec fn spec_window(size: Size, x: u16, w: u16, y: u16, cells: Seq<CellView>) -> Seq<CellView> {
    Seq::new(w as nat, |k: int| cell_at(cells, size, Position { x: (x + k) as u16, y }))
}

/// Whether `after` holds the cells of `before`, but for those of row `y`
/// from column `x` on, `w` wide, which hold `window`.
pub open spec fn spec_window_put(
    size: Size,
    x: u16,
    w: u16,
    y: u16,
    before: Seq<CellView>,
    window: Seq<CellView>,
    after: Seq<CellView>,
) -> bool {
    &&& after.len() == before.len()
    &&& forall|p: Position|
        size.spec_is_within(p) ==> #[trigger] cell_at(after, size, p) == if p.y == y && x <= p.x < x + w {
            window[p.x - x]
        } else {
            cell_at(before, size, p)
        }
}

/// A border around an area, drawn with the border set `B`, with titles of
/// kind `T` on its top and bottom rows.
pub struct Block<B, T = Line> {
    set: B,
    sides: BorderSides,
    titles: Vec<Title<T>>,
}

impl<B> Block<B, Line> {
    /// A block with a border on every side and no title.
    pub fn new(set: B) -> (b: Block<B, Line>)
        ensures
            b.spec_set() == set,
            b.spec_sides() == BorderSides(15),
            b.spec_titles() == Seq::<Title<Line>>::empty(),
    {
        Block { set, sides: BorderSides::all(), titles: Vec::new() }
    }
}

impl<B, T> Block<B, T> {
    /// The border set.
    pub closed spec fn spec_set(&self) -> B {
        self.set
    }

    /// The sides with a border.
    pub closed spec fn spec_sides(&self) -> BorderSides {
        self.sides
    }

    /// The titles, in the order they are drawn.
    pub closed spec fn spec_titles(&self) -> Seq<Title<T>> {
        self.titles@
    }

    /// The block with its titles replaced by `titles`.
    pub fn with_titles<T2>(self, titles: Vec<Title<T2>>) -> (b: Block<B, T2>)
        ensures
            b.spec_set() == self.spec_set(),
            b.spec_sides() == self.spec_sides(),
            b.spec_titles() == titles@,
    {
        Block { set: self.set, sides: self.sides, titles }
    }
}

impl<B: BlockSet, T: LineWidth> Block<B, T> {
    /// A cell after the border place `k` is drawn over it.
    pub open spec fn spec_put(&self, k: BorderPiece, c: CellView) -> CellView {
        CellView { ch: first_or_nul(self.spec_set().spec_piece(k, c.ch)), ..c }
    }

    /// Whether title `i` is drawn on border row `position` and covers `p`,
    /// the row being `y` of a buffer of `size`.
    pub open spec fn spec_title_covers(&self, i: int, position: TitlePosition, size: Size, y: u16, p: Position) -> bool {
        let title = self.spec_titles()[i];
        let lo = offset_of(self.spec_sides().has_left());
        let ro = offset_of(self.spec_sides().has_right());
        &&& title.spec_position() == position
        &&& in_rect(
            spec_clip(
                spec_title_rect(size, title.spec_inner().spec_line_width(), title.spec_alignment(), y, lo, ro),
                size,
            ),
            p,
        )
    }

    /// Whether one of the first `n` titles is drawn on border row `position`
    /// and covers `p`.
    pub open spec fn spec_titles_cover(&self, n: int, position: TitlePosition, size: Size, y: u16, p: Position) -> bool {
        exists|i: int| 0 <= i < n && #[trigger] self.spec_title_covers(i, position, size, y, p)
    }

    /// Whether a title drawn by the block covers `p` in a buffer of `size`.
    pub open spec fn spec_in_titles(&self, size: Size, p: Position) -> bool {
        let n = self.spec_titles().len() as int;
        ||| self.spec_sides().has_top() && self.spec_titles_cover(n, TitlePosition::Top, size, 0, p)
        ||| self.spec_sides().has_bottom() && self.spec_titles_cover(
            n,
            TitlePosition::Bottom,
            size,
            (size.height - 1) as u16,
            p,
        )
    }

    /// The cell at `p`, held `c` before, after the border places that come
    /// before `stage` in drawing order are drawn.
    pub open spec fn spec_staged(&self, size: Size, p: Position, c: CellView, stage: int) -> CellView {
        match spec_piece_at(self.spec_sides(), size, p) {
            Some(k) => if piece_order(k) < stage {
                self.spec_put(k, c)
            } else {
                c
            },
            None => c,
        }
    }

    /// The cell at `p`, held `c` before, after the block's border is drawn.
    pub open spec fn spec_bordered(&self, size: Size, p: Position, c: CellView) -> CellView {
        self.spec_staged(size, p, c, 8)
    }

    /// Whether `cells` hold, at every position of `size` that the titles
    /// drawn so far do not cover, what `old_cells` held there after the
    /// border places before `stage` are drawn.
    #[verifier::opaque]
    pub open spec fn spec_stage_holds(
        &self,
        size: Size,
        old_cells: Seq<CellView>,
        cells: Seq<CellView>,
        stage: int,
        tops: bool,
        bottoms: bool,
    ) -> bool {
        let n = self.spec_titles().len() as int;
        forall|p: Position|
            size.spec_is_within(p) && !(tops && self.spec_titles_cover(n, TitlePosition::Top, size, 0, p)) && !(
            bottoms && self.spec_titles_cover(n, TitlePosition::Bottom, size, (size.height - 1) as u16, p))
                ==> #[trigger] cell_at(cells, size, p) == self.spec_staged(size, p, cell_at(old_cells, size, p), stage)
    }

    /// Drawing the run of the place of order `stage` moves the drawing on by
    /// one stage.
    proof fn lemma_stage_step(
        &self,
        size: Size,
        old_cells: Seq<CellView>,
        cells: Seq<CellView>,
        next: Seq<CellView>,
        stage: int,
        tops: bool,
        bottoms: bool,
        piece: BorderPiece,
    )
        requires
            spec_draws(self.spec_sides(), size),
            self.spec_stage_holds(size, old_cells, cells, stage, tops, bottoms),
            piece_order(piece) == stage,
            forall|p: Position|
                size.spec_is_within(p) ==> #[trigger] cell_at(next, size, p) == if on_piece_run(
                    self.spec_sides(),
                    size,
                    piece,
                    p,
                ) {
                    self.spec_put(piece, cell_at(cells, size, p))
                } else {
                    cell_at(cells, size, p)
                },
        ensures
            self.spec_stage_holds(size, old_cells, next, stage + 1, tops, bottoms),
    {
        reveal(Block::spec_stage_holds);
        lemma_run_exact(self.spec_sides(), size, piece);
        let n = self.spec_titles().len() as int;
        assert forall|p: Position|
            size.spec_is_within(p) && !(tops && self.spec_titles_cover(n, TitlePosition::Top, size, 0, p)) && !(
            bottoms && self.spec_titles_cover(n, TitlePosition::Bottom, size, (size.height - 1) as u16, p))
            implies #[trigger] cell_at(next, size, p) == self.spec_staged(
            size,
            p,
            cell_at(old_cells, size, p),
            stage + 1,
        ) by {
            assert(cell_at(cells, size, p) == self.spec_staged(size, p, cell_at(old_cells, size, p), stage));
            if on_piece_run(self.spec_sides(), size, piece, p) {
                assert(spec_piece_at(self.spec_sides(), size, p) == Some(piece));
            } else {
                assert(spec_piece_at(self.spec_sides(), size, p) != Some(piece));
            }
        }
    }

    /// Titles drawn over cells that keep their content outside the titles
    /// leave the drawing where it was, outside the titles.
    proof fn lemma_stage_titles(
        &self,
        size: Size,
        old_cells: Seq<CellView>,
        cells: Seq<CellView>,
        next: Seq<CellView>,
        stage: int,
        tops: bool,
        bottoms: bool,
        position: TitlePosition,
        y: u16,
    )
        requires
            self.spec_stage_holds(size, old_cells, cells, stage, tops, bottoms),
            position == TitlePosition::Top ==> y == 0 && !tops,
            position == TitlePosition::Bottom ==> y == size.height - 1 && !bottoms && size.height > 0,
            forall|p: Position|
                size.spec_is_within(p) && !self.spec_titles_cover(self.spec_titles().len() as int, position, size, y, p)
                    ==> #[trigger] cell_at(next, size, p) == cell_at(cells, size, p),
        ensures
            self.spec_stage_holds(
                size,
                old_cells,
                next,
                stage,
                tops || position == TitlePosition::Top,
                bottoms || position == TitlePosition::Bottom,
            ),
    {
        reveal(Block::spec_stage_holds);
    }

    /// The cell at `p`, held `c` before, after the border places of order
    /// `from` up to before `stage` are drawn over it.
    pub open spec fn spec_staged_between(&self, size: Size, p: Position, c: CellView, from: int, stage: int) -> CellView {
        match spec_piece_at(self.spec_sides(), size, p) {
            Some(k) => if from <= piece_order(k) < stage {
                self.spec_put(k, c)
            } else {
                c
            },
            None => c,
        }
    }

    /// Whether row `y` of `cells` holds what row `y` of `titled` held, with
    /// the border places of order `from` up to before `stage` drawn over it.
    #[verifier::opaque]
    pub open spec fn spec_row_holds(
        &self,
        size: Size,
        titled: Seq<CellView>,
        cells: Seq<CellView>,
        y: u16,
        from: int,
        stage: int,
    ) -> bool {
        forall|p: Position|
            size.spec_is_within(p) && p.y == y ==> #[trigger] cell_at(cells, size, p) == self.spec_staged_between(
                size,
                p,
                cell_at(titled, size, p),
                from,
                stage,
            )
    }

    /// Whether the titles on border row `position`, drawn in turn on row `y`
    /// over that row as it stands once the border places before `stage` are
    /// drawn on `old_cells`, and then the border places from `stage` on, give
    /// row `y` of `after`.
    #[verifier::opaque]
    pub open spec fn spec_titles_row<D: TimerDelta>(
        &self,
        total_time: D,
        delta: D,
        display_width: DisplayWidth,
        position: TitlePosition,
        size: Size,
        y: u16,
        stage: int,
        old_cells: Seq<CellView>,
        after: Seq<CellView>,
    ) -> bool where T: Widget<D> {
        exists|before: Seq<CellView>, titled: Seq<CellView>|
            {
                &&& before.len() == old_cells.len()
                &&& forall|p: Position|
                    size.spec_is_within(p) && p.y == y ==> #[trigger] cell_at(before, size, p) == self.spec_staged(
                        size,
                        p,
                        cell_at(old_cells, size, p),
                        stage,
                    )
                &&& #[trigger] self.spec_titles_rendered(
                    self.spec_titles().len() as int,
                    total_time,
                    delta,
                    display_width,
                    position,
                    size,
                    y,
                    before,
                    titled,
                )
                &&& self.spec_row_holds(size, titled, after, y, stage, 8)
            }
    }

    /// Nothing is drawn over a row yet.
    proof fn lemma_row_start(&self, size: Size, titled: Seq<CellView>, y: u16, stage: int)
        ensures
            self.spec_row_holds(size, titled, titled, y, stage, stage),
    {
        reveal(Block::spec_row_holds);
    }

    /// Drawing the run of the place of order `stage` moves a row on by one
    /// stage.
    proof fn lemma_row_step(
        &self,
        size: Size,
        titled: Seq<CellView>,
        cells: Seq<CellView>,
        next: Seq<CellView>,
        y: u16,
        from: int,
        stage: int,
        piece: BorderPiece,
    )
        requires
            spec_draws(self.spec_sides(), size),
            from <= stage,
            self.spec_row_holds(size, titled, cells, y, from, stage),
            piece_order(piece) == stage,
            forall|p: Position|
                size.spec_is_within(p) ==> #[trigger] cell_at(next, size, p) == if on_piece_run(
                    self.spec_sides(),
                    size,
                    piece,
                    p,
                ) {
                    self.spec_put(piece, cell_at(cells, size, p))
                } else {
                    cell_at(cells, size, p)
                },
        ensures
            self.spec_row_holds(size, titled, next, y, from, stage + 1),
    {
        reveal(Block::spec_row_holds);
        lemma_run_exact(self.spec_sides(), size, piece);
        assert forall|p: Position| size.spec_is_within(p) && p.y == y implies #[trigger] cell_at(
            next,
            size,
            p,
        ) == self.spec_staged_between(size, p, cell_at(titled, size, p), from, stage + 1) by {
            assert(cell_at(cells, size, p) == self.spec_staged_between(size, p, cell_at(titled, size, p), from, stage));
            if on_piece_run(self.spec_sides(), size, piece, p) {
                assert(spec_piece_at(self.spec_sides(), size, p) == Some(piece));
            } else {
                assert(spec_piece_at(self.spec_sides(), size, p) != Some(piece));
            }
        }
    }

    /// A title on another row covers no cell of row `y`.
    proof fn lemma_titles_cover_row(&self, position: TitlePosition, size: Size, ty: u16, p: Position)
        requires
            ty < size.height,
            self.spec_titles_cover(self.spec_titles().len() as int, position, size, ty, p),
        ensures
            p.y == ty,
    {
        let n = self.spec_titles().len() as int;
        let j = choose|j: int| 0 <= j < n && #[trigger] self.spec_title_covers(j, position, size, ty, p);
        assert(self.spec_title_covers(j, position, size, ty, p));
    }

    /// Titles drawn on row `ty` leave row `y` where it was.
    proof fn lemma_row_past_titles(
        &self,
        size: Size,
        titled: Seq<CellView>,
        cells: Seq<CellView>,
        next: Seq<CellView>,
        y: u16,
        from: int,
        stage: int,
        position: TitlePosition,
        ty: u16,
    )
        requires
            self.spec_row_holds(size, titled, cells, y, from, stage),
            y != ty,
            ty < size.height,
            forall|p: Position|
                size.spec_is_within(p) && !self.spec_titles_cover(self.spec_titles().len() as int, position, size, ty, p)
                    ==> #[trigger] cell_at(next, size, p) == cell_at(cells, size, p),
        ensures
            self.spec_row_holds(size, titled, next, y, from, stage),
    {
        reveal(Block::spec_row_holds);
        assert forall|p: Position| size.spec_is_within(p) && p.y == y implies #[trigger] cell_at(
            next,
            size,
            p,
        ) == self.spec_staged_between(size, p, cell_at(titled, size, p), from, stage) by {
            if self.spec_titles_cover(self.spec_titles().len() as int, position, size, ty, p) {
                self.lemma_titles_cover_row(position, size, ty, p);
            }
            assert(cell_at(next, size, p) == cell_at(cells, size, p));
        }
    }

    /// Titles drawn over a row as the border left it, with the later border
    /// places drawn over them, give the row as [`Block::spec_titles_row`]
    /// says.
    proof fn lemma_titles_row<D: TimerDelta>(
        &self,
        total_time: D,
        delta: D,
        display_width: DisplayWidth,
        position: TitlePosition,
        size: Size,
        y: u16,
        stage: int,
        old_cells: Seq<CellView>,
        before: Seq<CellView>,
        titled: Seq<CellView>,
        after: Seq<CellView>,
        tops: bool,
    ) where T: Widget<D>
        requires
            before.len() == old_cells.len(),
            self.spec_stage_holds(size, old_cells, before, stage, tops, false),
            tops ==> y != 0,
            y < size.height,
            self.spec_titles_rendered(
                self.spec_titles().len() as int,
                total_time,
                delta,
                display_width,
                position,
                size,
                y,
                before,
                titled,
            ),
            self.spec_row_holds(size, titled, after, y, stage, 8),
        ensures
            self.spec_titles_row(total_time, delta, display_width, position, size, y, stage, old_cells, after),
    {
        reveal(Block::spec_titles_row);
        reveal(Block::spec_stage_holds);
        let n = self.spec_titles().len() as int;
        assert forall|p: Position| size.spec_is_within(p) && p.y == y implies #[trigger] cell_at(
            before,
            size,
            p,
        ) == self.spec_staged(size, p, cell_at(old_cells, size, p), stage) by {
            if tops && self.spec_titles_cover(n, TitlePosition::Top, size, 0, p) {
                self.lemma_titles_cover_row(TitlePosition::Top, size, 0, p);
            }
        }
        assert(self.spec_titles_rendered(n, total_time, delta, display_width, position, size, y, before, titled));
    }

    /// Where the block's content goes in an area of `sz`: inside the borders,
    /// the side borders measured by the border set; the whole area where the
    /// borders would leave no room.
    pub open spec fn spec_inner_area(&self, sz: Size) -> Rect {
        let sides = self.spec_sides();
        let lo = if sides.has_left() {
            self.spec_set().spec_left_width() as int
        } else {
            0
        };
        let ro = if sides.has_right() {
            self.spec_set().spec_right_width() as int
        } else {
            0
        };
        let h = if lo + ro > u16::MAX {
            u16::MAX as int
        } else {
            lo + ro
        };
        let to = offset_of(sides.has_top());
        let v = to + offset_of(sides.has_bottom());
        if sz.width <= h || sz.height <= v {
            Rect { pos: Position { x: 0, y: 0 }, size: sz }
        } else {
            Rect {
                pos: Position { x: lo as u16, y: to },
                size: Size { width: (sz.width - h) as u16, height: (sz.height - v) as u16 },
            }
        }
    }

    /// The content area of a block always lies inside the area it is given.
    pub proof fn lemma_inner_area_within(&self, sz: Size)
        ensures
            sz.spec_area_is_within(self.spec_inner_area(sz)),
    {
    }

    /// Where the block's content goes in an area of `sz`.
    pub fn inner_area(&self, sz: Size, display_width: &DisplayWidth) -> (r: Rect)
        ensures
            r == self.spec_inner_area(sz),
    {
        let set = &self.set;
        let left_offset: u16 = if self.sides.contains(BorderSides::left()) {
            set.left_width(display_width)
        } else {
            0
        };
        let right_offset: u16 = if self.sides.contains(BorderSides::right()) {
            set.right_width(display_width)
        } else {
            0
        };
        let horizontal_offset = left_offset.saturating_add(right_offset);
        let top_offset: u16 = if self.sides.contains(BorderSides::top()) {
            1
        } else {
            0
        };
        let bottom_offset: u16 = if self.sides.contains(BorderSides::bottom()) {
            1
        } else {
            0
        };
        let vertical_offset = top_offset.saturating_add(bottom_offset);
        if sz.width <= horizontal_offset || sz.height <= vertical_offset {
            return Rect::new(Position::zero(), sz);
        }
        Rect::new(
            Position::new(left_offset, top_offset),
            Size::new(sz.width.saturating_sub(horizontal_offset), sz.height.saturating_sub(vertical_offset)),
        )
    }

    /// Whether title `i`, drawn at the given times into a window of the
    /// cells of row `y` from column `x` on, `w` wide, may turn `before` into
    /// `after`: the window starts with those cells, and what the title leaves
    /// in it is put back in their place.
    #[verifier::opaque]
    pub open spec fn spec_title_window_drawn<D: TimerDelta>(
        &self,
        i: int,
        total_time: D,
        delta: D,
        display_width: DisplayWidth,
        size: Size,
        x: u16,
        w: u16,
        y: u16,
        before: Seq<CellView>,
        after: Seq<CellView>,
    ) -> bool where T: Widget<D> {
        exists|win: Seq<CellView>|
            #[trigger] self.spec_titles()[i].spec_inner().spec_drew(
                total_time,
                delta,
                display_width,
                Size { width: w, height: 1 },
                spec_window(size, x, w, y, before),
                win,
            ) && win.len() == w && spec_window_put(size, x, w, y, before, win, after)
    }

    /// Whether the first `n` titles, those on border row `position` drawn in
    /// turn into their windows on row `y` of a buffer of `size`, may turn
    /// `before` into `after`.
    #[verifier::opaque]
    pub open spec fn spec_titles_rendered<D: TimerDelta>(
        &self,
        n: int,
        total_time: D,
        delta: D,
        display_width: DisplayWidth,
        position: TitlePosition,
        size: Size,
        y: u16,
        before: Seq<CellView>,
        after: Seq<CellView>,
    ) -> bool where T: Widget<D>
        decreases n,
    {
        if n <= 0 {
            after == before
        } else {
            exists|mid: Seq<CellView>|
                self.spec_titles_rendered(n - 1, total_time, delta, display_width, position, size, y, before, mid)
                    && #[trigger] self.spec_title_step(n - 1, total_time, delta, display_width, position, size, y, mid, after)
        }
    }

    /// Whether title `i`, drawn into its window on row `y` of a buffer of
    /// `size` where it stands on border row `position`, may turn `before`
    /// into `after`; a title on another row leaves the cells as they are.
    pub open spec fn spec_title_step<D: TimerDelta>(
        &self,
        i: int,
        total_time: D,
        delta: D,
        display_width: DisplayWidth,
        position: TitlePosition,
        size: Size,
        y: u16,
        before: Seq<CellView>,
        after: Seq<CellView>,
    ) -> bool where T: Widget<D> {
        let title = self.spec_titles()[i];
        if title.spec_position() == position {
            let r = spec_clip(
                spec_title_rect(
                    size,
                    title.spec_inner().spec_line_width(),
                    title.spec_alignment(),
                    y,
                    offset_of(self.spec_sides().has_left()),
                    offset_of(self.spec_sides().has_right()),
                ),
                size,
            );
            self.spec_title_window_drawn(i, total_time, delta, display_width, size, r.pos.x, r.size.width, y, before, after)
        } else {
            after == before
        }
    }

    /// Draws the titles on border row `position` into row `y_pos` of `buf`,
    /// each in a window of its own: at `left_offset` where it aligns left,
    /// in the middle of the row where it is centred, against the right edge
    /// where it aligns right; as wide as the title but no wider than the
    /// room between the side borders. Cells outside those windows keep
    /// their content.
    fn render_titles<Buf: Buffer, D: TimerDelta>(
        &self,
        buf: &mut Buf,
        total_time: D,
        delta: D,
        display_width: DisplayWidth,
        position: TitlePosition,
        y_pos: u16,
        left_offset: u16,
        right_offset: u16,
    ) where T: Widget<D>
        requires
            old(buf).wf(),
            y_pos < old(buf).spec_size().height,
            left_offset == offset_of(self.spec_sides().has_left()),
            right_offset == offset_of(self.spec_sides().has_right()),
        ensures
            final(buf).wf(),
            final(buf).spec_size() == old(buf).spec_size(),
            final(buf).spec_cells().len() == old(buf).spec_cells().len(),
            sat_sub(sat_sub(old(buf).spec_size().width, left_offset), right_offset) == 0 ==> final(buf).spec_cells()
                == old(buf).spec_cells(),
            sat_sub(sat_sub(old(buf).spec_size().width, left_offset), right_offset) != 0
                ==> self.spec_titles_rendered(
                self.spec_titles().len() as int,
                total_time,
                delta,
                display_width,
                position,
                old(buf).spec_size(),
                y_pos,
                old(buf).spec_cells(),
                final(buf).spec_cells(),
            ),
            forall|p: Position|
                old(buf).spec_size().spec_is_within(p) && !self.spec_titles_cover(
                    self.spec_titles().len() as int,
                    position,
                    old(buf).spec_size(),
                    y_pos,
                    p,
                ) ==> #[trigger] cell_at(final(buf).spec_cells(), old(buf).spec_size(), p) == cell_at(
                    old(buf).spec_cells(),
                    old(buf).spec_size(),
                    p,
                ),
    {
        let size = buf.size();
        let ghost old_cells = buf.spec_cells();
        proof {
            buf.lemma_wf();
        }
        let free_width = size.width.saturating_sub(left_offset).saturating_sub(right_offset);
        if free_width == 0 {
            return;
        }
        proof {
            reveal(Block::spec_titles_rendered);
            assert(self.spec_titles_rendered(0, total_time, delta, display_width, position, size, y_pos, old_cells, old_cells));
        }
        let mut i: usize = 0;
        while i < self.titles.len()
            invariant
                buf.wf(),
                buf.spec_size() == size,
                size == old(buf).spec_size(),
                old_cells == old(buf).spec_cells(),
                buf.spec_cells().len() == old_cells.len(),
                old_cells.len() == size.spec_area(),
                i <= self.titles@.len(),
                y_pos < size.height,
                free_width == sat_sub(sat_sub(size.width, left_offset), right_offset),
                left_offset == offset_of(self.spec_sides().has_left()),
                right_offset == offset_of(self.spec_sides().has_right()),
                forall|p: Position|
                    size.spec_is_within(p) && !self.spec_titles_cover(i as int, position, size, y_pos, p)
                        ==> #[trigger] cell_at(buf.spec_cells(), size, p) == cell_at(old_cells, size, p),
                self.spec_titles_rendered(
                    i as int,
                    total_time,
                    delta,
                    display_width,
                    position,
                    size,
                    y_pos,
                    old_cells,
                    buf.spec_cells(),
                ),
            decreases self.titles@.len() - i,
        {
            let title = &self.titles[i];
            let ghost before = buf.spec_cells();
            if title.position() == position {
                let title_width = title.inner().width(&display_width);
                let w = if title_width < free_width {
                    title_width
                } else {
                    free_width
                };
                let x = match title.alignment() {
                    TitleAlignment::Left => left_offset,
                    TitleAlignment::Center => size.width.saturating_sub(title_width) / 2,
                    TitleAlignment::Right => size.width.saturating_sub(title_width),
                };
                let rect = Rect::new(Position::new(x, y_pos), Size::new(w, 1));
                assert(rect == spec_title_rect(size, title_width, title.spec_alignment(), y_pos, left_offset, right_offset));
                let cx = if x < size.width {
                    x
                } else {
                    size.width
                };
                let cw = if w <= size.width - cx {
                    w
                } else {
                    size.width - cx
                };
                assert(spec_clip(rect, size) == Rect {
                    pos: Position { x: cx, y: y_pos },
                    size: Size { width: cw, height: 1 },
                });
                self.draw_title_window(buf, i, total_time, delta, display_width, cx, cw, y_pos);
                proof {
                    let r = spec_clip(
                        spec_title_rect(
                            size,
                            title.spec_inner().spec_line_width(),
                            title.spec_alignment(),
                            y_pos,
                            offset_of(self.spec_sides().has_left()),
                            offset_of(self.spec_sides().has_right()),
                        ),
                        size,
                    );
                    assert(r.pos.x == cx && r.size.width == cw);
                    assert(self.spec_title_window_drawn(
                        i as int,
                        total_time,
                        delta,
                        display_width,
                        size,
                        r.pos.x,
                        r.size.width,
                        y_pos,
                        before,
                        buf.spec_cells(),
                    ));
                }
            } else {
                assert(buf.spec_cells() == before);
            }
            proof {
                reveal(Block::spec_titles_rendered);
                assert(self.spec_titles()[i as int] == *title);
                assert(self.spec_titles_rendered(
                    i as int,
                    total_time,
                    delta,
                    display_width,
                    position,
                    size,
                    y_pos,
                    old_cells,
                    before,
                ));
                assert(self.spec_title_step(
                    i as int,
                    total_time,
                    delta,
                    display_width,
                    position,
                    size,
                    y_pos,
                    before,
                    buf.spec_cells(),
                ));
                let n1: int = i + 1;
                assert(self.spec_titles_rendered(
                    n1 - 1,
                    total_time,
                    delta,
                    display_width,
                    position,
                    size,
                    y_pos,
                    old_cells,
                    before,
                ));
                assert(self.spec_titles_rendered(
                    n1,
                    total_time,
                    delta,
                    display_width,
                    position,
                    size,
                    y_pos,
                    old_cells,
                    buf.spec_cells(),
                ));
                assert forall|p: Position|
                    size.spec_is_within(p) && !self.spec_titles_cover(i + 1, position, size, y_pos, p) implies #[trigger] cell_at(
                    buf.spec_cells(),
                    size,
                    p,
                ) == cell_at(old_cells, size, p) by {
                    if self.spec_titles_cover(i as int, position, size, y_pos, p) {
                        let j = choose|j: int| 0 <= j < i && #[trigger] self.spec_title_covers(j, position, size, y_pos, p);
                        assert(0 <= j < i + 1 && self.spec_title_covers(j, position, size, y_pos, p));
                    }
                    if self.spec_title_covers(i as int, position, size, y_pos, p) {
                        assert(0 <= i < i + 1 && self.spec_title_covers(i as int, position, size, y_pos, p));
                    }
                    lemma_cell_index(size, p, p);
                }
            }
            i += 1;
        }
    }

    /// Draws title `i` into a window of the cells of row `y` from column `x`
    /// on, `w` cells wide: a plain buffer that starts with a copy of those
    /// cells and whose cells are put back once the title is drawn.
    fn draw_title_window<Buf: Buffer, D: TimerDelta>(
        &self,
        buf: &mut Buf,
        i: usize,
        total_time: D,
        delta: D,
        display_width: DisplayWidth,
        x: u16,
        w: u16,
        y: u16,
    ) where T: Widget<D>
        requires
            old(buf).wf(),
            i < self.spec_titles().len(),
            y < old(buf).spec_size().height,
            x + w <= old(buf).spec_size().width,
        ensures
            final(buf).wf(),
            final(buf).spec_size() == old(buf).spec_size(),
            final(buf).spec_cells().len() == old(buf).spec_cells().len(),
            self.spec_title_window_drawn(
                i as int,
                total_time,
                delta,
                display_width,
                old(buf).spec_size(),
                x,
                w,
                y,
                old(buf).spec_cells(),
                final(buf).spec_cells(),
            ),
            forall|p: Position|
                old(buf).spec_size().spec_is_within(p) && !(p.y == y && x <= p.x < x + w) ==> #[trigger] cell_at(
                    final(buf).spec_cells(),
                    old(buf).spec_size(),
                    p,
                ) == cell_at(old(buf).spec_cells(), old(buf).spec_size(), p),
    {
        let size = buf.size();
        let ghost old_cells = buf.spec_cells();
        proof {
            buf.lemma_wf();
        }
        let wsize = Size::new(w, 1);
        let mut window = FlatBuffer::new(wsize);
        proof {
            window.lemma_wf();
        }
        let mut k: u16 = 0;
        while k < w
            invariant
                window.wf(),
                window.spec_size() == wsize,
                wsize.width == w && wsize.height == 1,
                buf.wf(),
                buf.spec_size() == size,
                buf.spec_cells() == old_cells,
                old_cells.len() == size.spec_area(),
                y < size.height,
                x + w <= size.width,
                k <= w,
                window.spec_cells().len() == w,
                forall|k0: int|
                    0 <= k0 < k ==> #[trigger] window.spec_cells()[k0] == cell_at(
                        old_cells,
                        size,
                        Position { x: (x + k0) as u16, y },
                    ),
            decreases w - k,
        {
            let src = Position::new(x + k, y);
            let dst = Position::new(k, 0);
            proof {
                lemma_cell_index(size, src, src);
            }
            let c = buf.get_cell(src).clone();
            let target = window.get_cell_mut(dst);
            *target = c;
            k += 1;
        }
        let ghost win_before = window.spec_cells();
        assert(win_before =~= spec_window(size, x, w, y, old_cells));
        self.titles[i].inner().draw(FrameContext { total_time, delta, buffer: &mut window, display_width });
        let ghost win = window.spec_cells();
        proof {
            window.lemma_wf();
        }
        let mut k: u16 = 0;
        while k < w
            invariant
                window.wf(),
                window.spec_size() == wsize,
                wsize.width == w && wsize.height == 1,
                buf.wf(),
                buf.spec_size() == size,
                size == old(buf).spec_size(),
                old_cells == old(buf).spec_cells(),
                buf.spec_cells().len() == old_cells.len(),
                old_cells.len() == size.spec_area(),
                y < size.height,
                x + w <= size.width,
                k <= w,
                window.spec_cells() == win,
                win.len() == w,
                forall|p: Position|
                    size.spec_is_within(p) && !(p.y == y && x <= p.x < x + k) ==> #[trigger] cell_at(
                        buf.spec_cells(),
                        size,
                        p,
                    ) == cell_at(old_cells, size, p),
                forall|p: Position|
                    size.spec_is_within(p) && p.y == y && x <= p.x < x + k ==> #[trigger] cell_at(
                        buf.spec_cells(),
                        size,
                        p,
                    ) == win[p.x - x],
            decreases w - k,
        {
            let src = Position::new(k, 0);
            let dst = Position::new(x + k, y);
            let c = window.get_cell(src).clone();
            let ghost before = buf.spec_cells();
            proof {
                buf.lemma_wf();
                lemma_cell_index(size, dst, dst);
                assert forall|p: Position| size.spec_is_within(p) && p != dst implies #[trigger] cell_index(size, p)
                    != cell_index(size, dst) && 0 <= cell_index(size, p) < size.spec_area() by {
                    lemma_cell_index(size, p, dst);
                }
            }
            let target = buf.get_cell_mut(dst);
            *target = c;
            proof {
                assert forall|p: Position|
                    size.spec_is_within(p) && !(p.y == y && x <= p.x < x + k + 1) implies #[trigger] cell_at(
                    buf.spec_cells(),
                    size,
                    p,
                ) == cell_at(old_cells, size, p) by {
                    assert(cell_at(before, size, p) == cell_at(buf.spec_cells(), size, p));
                }
                assert forall|p: Position|
                    size.spec_is_within(p) && p.y == y && x <= p.x < x + k + 1 implies #[trigger] cell_at(
                    buf.spec_cells(),
                    size,
                    p,
                ) == win[p.x - x] by {
                    if p != dst {
                        assert(cell_at(before, size, p) == cell_at(buf.spec_cells(), size, p));
                    }
                }
            }
            k += 1;
        }
        proof {
            assert(spec_window_put(size, x, w, y, old_cells, win, buf.spec_cells()));
            assert(self.spec_titles()[i as int].spec_inner().spec_drew(
                total_time,
                delta,
                display_width,
                Size { width: w, height: 1 },
                spec_window(size, x, w, y, old_cells),
                win,
            ));
            reveal(Block::spec_title_window_drawn);
        }
    }

    /// Puts the border place `piece` in the cells of a run of `buf`: row
    /// `fixed` from column `from` up to `to` where `across`, else column
    /// `fixed` from row `from` up to `to`.
    fn put_run<Buf: Buffer>(&self, buf: &mut Buf, piece: BorderPiece, across: bool, fixed: u16, from: u16, to: u16)
        requires
            old(buf).wf(),
            across ==> fixed < old(buf).spec_size().height && to <= old(buf).spec_size().width,
            !across ==> fixed < old(buf).spec_size().width && to <= old(buf).spec_size().height,
        ensures
            final(buf).wf(),
            final(buf).spec_size() == old(buf).spec_size(),
            final(buf).spec_cells().len() == old(buf).spec_cells().len(),
            forall|p: Position|
                old(buf).spec_size().spec_is_within(p) ==> #[trigger] cell_at(
                    final(buf).spec_cells(),
                    old(buf).spec_size(),
                    p,
                ) == if on_run(across, fixed, from, to, p) {
                    self.spec_put(piece, cell_at(old(buf).spec_cells(), old(buf).spec_size(), p))
                } else {
                    cell_at(old(buf).spec_cells(), old(buf).spec_size(), p)
                },
    {
        let sz = buf.size();
        let ghost old_cells = buf.spec_cells();
        proof {
            buf.lemma_wf();
        }
        let mut k: u16 = from;
        while k < to
            invariant
                buf.wf(),
                buf.spec_size() == sz,
                sz == old(buf).spec_size(),
                old_cells == old(buf).spec_cells(),
                buf.spec_cells().len() == old_cells.len(),
                old_cells.len() == sz.spec_area(),
                across ==> fixed < sz.height && to <= sz.width,
                !across ==> fixed < sz.width && to <= sz.height,
                from <= to ==> from <= k <= to,
                from > to ==> k == from,
                forall|p: Position|
                    sz.spec_is_within(p) ==> #[trigger] cell_at(buf.spec_cells(), sz, p) == if on_run(
                        across,
                        fixed,
                        from,
                        k,
                        p,
                    ) {
                        self.spec_put(piece, cell_at(old_cells, sz, p))
                    } else {
                        cell_at(old_cells, sz, p)
                    },
            decreases to - k,
        {
            let pos = if across {
                Position::new(k, fixed)
            } else {
                Position::new(fixed, k)
            };
            let ghost before = buf.spec_cells();
            proof {
                lemma_cell_index(sz, pos, pos);
                assert forall|p: Position| sz.spec_is_within(p) && p != pos implies #[trigger] cell_index(sz, p)
                    != cell_index(sz, pos) && 0 <= cell_index(sz, p) < sz.spec_area() by {
                    lemma_cell_index(sz, p, pos);
                }
            }
            let cell = buf.get_cell_mut(pos);
            let s = self.set.piece(piece, cell.as_str());
            if s.unicode_len() > 0 {
                let first = s.as_str().substring_char(0, 1);
                assert(first@ =~= seq![s@[0]]);
                cell.set_str(first);
            } else {
                let nul = "\0";
                proof {
                    reveal_strlit("\0");
                    assert(nul@ =~= seq!['\0']);
                }
                cell.set_str(nul);
            }
            proof {
                assert forall|p: Position| sz.spec_is_within(p) implies #[trigger] cell_at(buf.spec_cells(), sz, p)
                    == if on_run(across, fixed, from, (k + 1) as u16, p) {
                    self.spec_put(piece, cell_at(old_cells, sz, p))
                } else {
                    cell_at(old_cells, sz, p)
                } by {
                    if p != pos {
                        assert(cell_at(before, sz, p) == cell_at(buf.spec_cells(), sz, p));
                    } else {
                        assert(cell_at(before, sz, p) == cell_at(old_cells, sz, p));
                    }
                }
            }
            k = k + 1;
        }
    }
}

impl<D: TimerDelta, B: BlockSet, T: Widget<D> + LineWidth> Widget<D> for Block<B, T> {
    /// Where the sides leave no room inside the border, nothing changes;
    /// otherwise every cell that no title covers ends bordered.
    open spec fn spec_drew(
        &self,
        total_time: D,
        delta: D,
        display_width: DisplayWidth,
        size: Size,
        before: Seq<CellView>,
        after: Seq<CellView>,
    ) -> bool {
        &&& !spec_draws(self.spec_sides(), size) ==> after == before
        &&& spec_draws(self.spec_sides(), size) ==> forall|p: Position|
            size.spec_is_within(p) && !self.spec_in_titles(size, p) ==> #[trigger] cell_at(after, size, p)
                == self.spec_bordered(size, p, cell_at(before, size, p))
    }

    /// Draws the border, then the titles over the top and bottom rows:
    /// where the sides leave no room inside the border, nothing. Every cell
    /// that no title covers ends as [`Block::spec_bordered`] says.
    #[verifier::rlimit(40)]
    fn draw<Buf: Buffer>(&self, ctx: FrameContext<'_, Buf, D>)
        ensures
            !spec_draws(self.spec_sides(), old(ctx.buffer).spec_size()) ==> final(ctx.buffer).spec_cells()
                == old(ctx.buffer).spec_cells(),
            spec_draws(self.spec_sides(), old(ctx.buffer).spec_size()) ==> forall|p: Position|
                old(ctx.buffer).spec_size().spec_is_within(p) && !self.spec_in_titles(
                    old(ctx.buffer).spec_size(),
                    p,
                ) ==> #[trigger] cell_at(final(ctx.buffer).spec_cells(), old(ctx.buffer).spec_size(), p)
                    == self.spec_bordered(
                    old(ctx.buffer).spec_size(),
                    p,
                    cell_at(old(ctx.buffer).spec_cells(), old(ctx.buffer).spec_size(), p),
                ),
            spec_draws(self.spec_sides(), old(ctx.buffer).spec_size()) && self.spec_sides().has_top()
                ==> self.spec_titles_row(
                ctx.total_time,
                ctx.delta,
                ctx.display_width,
                TitlePosition::Top,
                old(ctx.buffer).spec_size(),
                0,
                2,
                old(ctx.buffer).spec_cells(),
                final(ctx.buffer).spec_cells(),
            ),
            spec_draws(self.spec_sides(), old(ctx.buffer).spec_size()) && self.spec_sides().has_bottom()
                ==> self.spec_titles_row(
                ctx.total_time,
                ctx.delta,
                ctx.display_width,
                TitlePosition::Bottom,
                old(ctx.buffer).spec_size(),
                (old(ctx.buffer).spec_size().height - 1) as u16,
                7,
                old(ctx.buffer).spec_cells(),
                final(ctx.buffer).spec_cells(),
            ),
    {
        let buf = ctx.buffer;
        let total_time = ctx.total_time;
        let delta = ctx.delta;
        let display_width = ctx.display_width;
        let size = buf.size();
        let ghost old_cells = buf.spec_cells();
        let ghost sides = self.spec_sides();
        proof {
            buf.lemma_wf();
        }
        let l = self.sides.contains(BorderSides::left());
        let t = self.sides.contains(BorderSides::top());
        let r = self.sides.contains(BorderSides::right());
        let b = self.sides.contains(BorderSides::bottom());
        let left_offset: u16 = if l {
            1
        } else {
            0
        };
        let right_offset: u16 = if r {
            1
        } else {
            0
        };
        let top_offset: u16 = if t {
            1
        } else {
            0
        };
        let bottom_offset: u16 = if b {
            1
        } else {
            0
        };
        let horizontal_offset = left_offset.saturating_add(right_offset);
        let x_end = size.width.saturating_sub(right_offset);
        let vertical_offset = top_offset.saturating_add(bottom_offset);
        if size.width <= horizontal_offset || size.height <= vertical_offset || size.area() == 0 {
            return;
        }
        assert(spec_draws(sides, size));
        let bottom_y = size.height - 1;
        let h_end = if size.height - bottom_offset > 1 {
            size.height - bottom_offset
        } else {
            1
        };
        proof {
            reveal(Block::spec_stage_holds);
            assert(self.spec_stage_holds(size, old_cells, old_cells, 0, false, false));
        }

        // top left corner
        let ghost c0 = buf.spec_cells();
        if l && t && size.width > 0 {
            self.put_run(buf, BorderPiece::TopLeft, true, 0, 0, 1);
        }
        proof {
            self.lemma_stage_step(size, old_cells, c0, buf.spec_cells(), 0, false, false, BorderPiece::TopLeft);
        }

        // top side, then the top titles
        let ghost c1 = buf.spec_cells();
        let ghost mut c1b: Seq<CellView> = c1;
        let ghost mut t1: Seq<CellView> = c1;
        if t && size.width > horizontal_offset {
            self.put_run(buf, BorderPiece::Top, true, 0, left_offset, x_end);
            proof {
                self.lemma_stage_step(size, old_cells, c1, buf.spec_cells(), 1, false, false, BorderPiece::Top);
            }
            proof {
                c1b = buf.spec_cells();
            }
            self.render_titles(buf, total_time, delta, display_width, TitlePosition::Top, 0, left_offset, right_offset);
            proof {
                self.lemma_stage_titles(size, old_cells, c1b, buf.spec_cells(), 2, false, false, TitlePosition::Top, 0);
                t1 = buf.spec_cells();
                self.lemma_row_start(size, t1, 0, 2);
            }
        } else {
            proof {
                self.lemma_stage_step(size, old_cells, c1, c1, 1, false, false, BorderPiece::Top);
            }
        }
        let ghost tops = t;

        // top right corner
        let ghost c2 = buf.spec_cells();
        if r && t && size.width > 2 {
            self.put_run(buf, BorderPiece::TopRight, true, 0, size.width - 1, size.width);
        }
        proof {
            self.lemma_stage_step(size, old_cells, c2, buf.spec_cells(), 2, tops, false, BorderPiece::TopRight);
            if tops {
                self.lemma_row_step(size, t1, c2, buf.spec_cells(), 0, 2, 2, BorderPiece::TopRight);
            }
        }

        // left and right sides
        let ghost c3 = buf.spec_cells();
        if l {
            self.put_run(buf, BorderPiece::Left, false, 0, top_offset, h_end);
        }
        proof {
            self.lemma_stage_step(size, old_cells, c3, buf.spec_cells(), 3, tops, false, BorderPiece::Left);
            if tops {
                self.lemma_row_step(size, t1, c3, buf.spec_cells(), 0, 2, 3, BorderPiece::Left);
            }
        }
        let ghost c4 = buf.spec_cells();
        if r {
            self.put_run(buf, BorderPiece::Right, false, size.width - right_offset, top_offset, h_end);
        }
        proof {
            self.lemma_stage_step(size, old_cells, c4, buf.spec_cells(), 4, tops, false, BorderPiece::Right);
            if tops {
                self.lemma_row_step(size, t1, c4, buf.spec_cells(), 0, 2, 4, BorderPiece::Right);
            }
        }

        // bottom left corner
        let ghost c5 = buf.spec_cells();
        if b && l {
            self.put_run(buf, BorderPiece::BottomLeft, true, bottom_y, 0, 1);
        }
        proof {
            self.lemma_stage_step(size, old_cells, c5, buf.spec_cells(), 5, tops, false, BorderPiece::BottomLeft);
            if tops {
                self.lemma_row_step(size, t1, c5, buf.spec_cells(), 0, 2, 5, BorderPiece::BottomLeft);
            }
        }

        // bottom side, then the bottom titles
        let ghost c6 = buf.spec_cells();
        let ghost mut c6b: Seq<CellView> = c6;
        let ghost mut t2: Seq<CellView> = c6;
        if b {
            self.put_run(buf, BorderPiece::Bottom, true, bottom_y, left_offset, x_end);
            proof {
                self.lemma_stage_step(size, old_cells, c6, buf.spec_cells(), 6, tops, false, BorderPiece::Bottom);
                if tops {
                    self.lemma_row_step(size, t1, c6, buf.spec_cells(), 0, 2, 6, BorderPiece::Bottom);
                }
                c6b = buf.spec_cells();
            }
            self.render_titles(buf, total_time, delta, display_width, TitlePosition::Bottom, bottom_y, left_offset, right_offset);
            proof {
                self.lemma_stage_titles(size, old_cells, c6b, buf.spec_cells(), 7, tops, false, TitlePosition::Bottom, bottom_y);
                if tops {
                    self.lemma_row_past_titles(size, t1, c6b, buf.spec_cells(), 0, 2, 7, TitlePosition::Bottom, bottom_y);
                }
                t2 = buf.spec_cells();
                self.lemma_row_start(size, t2, bottom_y, 7);
            }
        } else {
            proof {
                self.lemma_stage_step(size, old_cells, c6, c6, 6, tops, false, BorderPiece::Bottom);
                if tops {
                    self.lemma_row_step(size, t1, c6, c6, 0, 2, 6, BorderPiece::Bottom);
                }
            }
        }
        let ghost bottoms = b;

        // bottom right corner
        let ghost c7 = buf.spec_cells();
        if b && r {
            self.put_run(buf, BorderPiece::BottomRight, true, bottom_y, size.width - 1, size.width);
        }
        proof {
            self.lemma_stage_step(size, old_cells, c7, buf.spec_cells(), 7, tops, bottoms, BorderPiece::BottomRight);
            if tops {
                self.lemma_row_step(size, t1, c7, buf.spec_cells(), 0, 2, 7, BorderPiece::BottomRight);
                self.lemma_titles_row(
                    total_time,
                    delta,
                    display_width,
                    TitlePosition::Top,
                    size,
                    0,
                    2,
                    old_cells,
                    c1b,
                    t1,
                    buf.spec_cells(),
                    false,
                );
            }
            if bottoms {
                self.lemma_row_step(size, t2, c7, buf.spec_cells(), bottom_y, 7, 7, BorderPiece::BottomRight);
                self.lemma_titles_row(
                    total_time,
                    delta,
                    display_width,
                    TitlePosition::Bottom,
                    size,
                    bottom_y,
                    7,
                    old_cells,
                    c6b,
                    t2,
                    buf.spec_cells(),
                    tops,
                );
            }
            reveal(Block::spec_stage_holds);
        }
    }
}

} // verus!
