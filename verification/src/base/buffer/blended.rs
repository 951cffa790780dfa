//! A buffer that blends each written cell into the cell below it.
use vstd::prelude::*;

use crate::base::buffer::{cell_index, lemma_cell_index, Buffer, Drawer};
use crate::base::compositor::{compose_cell, spec_compose_cell};
use crate::base::draw::{ErrorOutOfBoundsAxises, Position, Size};
use crate::base::DrawCall;
use crate::cell::{Cell, CellView};
use crate::color::Color;
use crate::style::{spec_premultiply, Style};

verus! {

/// A cell with both its colors premultiplied by their alpha.
pub open spec fn spec_premultiplied_cell(c: CellView) -> CellView {
    CellView {
        style: Style {
            fg: match c.style.fg {
                Some(col) => Some(spec_premultiply(col)),
                None => None,
            },
            bg: match c.style.bg {
                Some(col) => Some(spec_premultiply(col)),
                None => None,
            },
            ..c.style
        },
        ..c
    }
}

/// Wraps a buffer so that writing a cell composes it, with its colors
/// premultiplied by their alpha, over the cell already there.
pub struct BlendedBuffer<Buf: Buffer> {
    inner: Buf,
    bg_fallback: Color,
}

impl<Buf: Buffer> BlendedBuffer<Buf> {
    /// The wrapped buffer.
    pub closed spec fn spec_inner(&self) -> Buf {
        self.inner
    }

    /// The color the terminal background is assumed to have.
    pub closed spec fn spec_bg_fallback(&self) -> Color {
        self.bg_fallback
    }

    /// Wraps `inner`; the background is assumed black.
    pub fn new(inner: Buf) -> (b: Self)
        ensures
            b.spec_inner() == inner,
            b.spec_bg_fallback() == Color(0x00_00_00_FF),
            b.spec_size() == inner.spec_size(),
            b.spec_cells() == inner.spec_cells(),
    {
        Self { inner, bg_fallback: Color::black() }
    }

    /// The same buffer with the background assumed to be `color`.
    pub fn with_bg_fallback(self, color: Color) -> (b: Self)
        ensures
            b.spec_inner() == self.spec_inner(),
            b.spec_bg_fallback() == color,
            b.spec_size() == self.spec_size(),
            b.spec_cells() == self.spec_cells(),
    {
        let mut s = self;
        s.bg_fallback = color;
        s
    }
}

impl<Buf: Buffer> Buffer for BlendedBuffer<Buf> {
    /// The size of the wrapped buffer.
    open spec fn spec_size(&self) -> Size {
        self.spec_inner().spec_size()
    }

    /// The cells of the wrapped buffer.
    open spec fn spec_cells(&self) -> Seq<CellView> {
        self.spec_inner().spec_cells()
    }

    open spec fn wf(&self) -> bool {
        self.spec_inner().wf()
    }

    open spec fn spec_written(under: CellView, cell: CellView) -> CellView {
        spec_compose_cell(under, spec_premultiplied_cell(cell))
    }

    proof fn lemma_wf(&self) {
        self.inner.lemma_wf();
    }

    fn size(&self) -> (s: Size) {
        self.inner.size()
    }

    fn set_cell_checked(&mut self, pos: Position, cell: Cell) -> (r: Result<(), ErrorOutOfBoundsAxises>) {
        let bg_fallback: Color = self.bg_fallback;
        match self.inner.size().contains(pos) {
            Err(e) => Err(e),
            Ok(()) => {
                let mut cell = cell;
                cell.style.premultiply_fg_and_bg();
                let bottom = self.inner.get_cell_mut(pos);
                compose_cell(bottom, &cell, bg_fallback);
                Ok(())
            },
        }
    }

    fn get_cell(&self, pos: Position) -> (c: &Cell) {
        self.inner.get_cell(pos)
    }

    fn get_cell_mut(&mut self, pos: Position) -> (c: &mut Cell) {
        self.inner.get_cell_mut(pos)
    }

    fn clear(&mut self) {
        self.inner.clear()
    }

    /// Starting a frame starts the frame of the wrapped buffer.
    open spec fn spec_frame_started(&self, after: &Self) -> bool {
        &&& self.spec_inner().spec_frame_started(&after.spec_inner())
        &&& after.spec_bg_fallback() == self.spec_bg_fallback()
    }

    /// Ending a frame ends the frame of the wrapped buffer.
    open spec fn spec_frame_ended(&self, after: &Self) -> bool {
        &&& self.spec_inner().spec_frame_ended(&after.spec_inner())
        &&& after.spec_bg_fallback() == self.spec_bg_fallback()
    }

    fn start_frame(&mut self) {
        self.inner.start_frame()
    }

    fn end_frame(&mut self) {
        self.inner.end_frame()
    }
}

impl<Buf: Buffer + Drawer> Drawer for BlendedBuffer<Buf> {
    open spec fn spec_draw_calls(&self) -> Seq<(Position, CellView)> {
        self.spec_inner().spec_draw_calls()
    }

    proof fn lemma_draw_calls_within(&self) {
        self.inner.lemma_draw_calls_within();
    }

    fn draw(&mut self) -> (calls: Vec<DrawCall>) {
        self.inner.draw()
    }
}

} // verus!
