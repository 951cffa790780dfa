//! Widgets: things that draw themselves into a buffer. [`SimpleWidget`] is
//! for static content, [`Widget`] for content that needs timing.
use vstd::prelude::*;

use crate::base::buffer::Buffer;
use crate::base::draw::Size;
use crate::cell::CellView;
use crate::base::timer::{NoDelta, TimerDelta};
use crate::base::DisplayWidth;

pub mod block;
pub mod text;

verus! {

/// What a widget is drawn with: the buffer to draw into, the timing of the
/// frame and the way text is measured.
pub struct FrameContext<'a, Buf: Buffer, Delta = NoDelta> {
    pub total_time: Delta,
    pub delta: Delta,
    pub buffer: &'a mut Buf,
    pub display_width: DisplayWidth,
}

impl<'a, Buf: Buffer, Delta: TimerDelta> FrameContext<'a, Buf, Delta> {
    /// The time elapsed since the application started.
    pub fn total_time(&self) -> (t: Delta)
        ensures
            t == self.total_time,
    {
        self.total_time
    }

    /// The time elapsed since the last frame.
    pub fn delta(&self) -> (t: Delta)
        ensures
            t == self.delta,
    {
        self.delta
    }
}

impl<'a, Buf: Buffer, Delta> FrameContext<'a, Buf, Delta> {
    pub fn new(total_time: Delta, delta: Delta, buffer: &'a mut Buf, display_width: DisplayWidth) -> (c: Self)
        ensures
            c.total_time == total_time,
            c.delta == delta,
            *c.buffer == *old(buffer),
            *final(c.buffer) == *final(buffer),
            c.display_width == display_width,
    {
        FrameContext { total_time, delta, buffer, display_width }
    }

    /// The buffer drawn into.
    pub fn buffer(&self) -> (b: &Buf)
        ensures
            *b == *old(self.buffer),
    {
        self.buffer
    }

    /// The buffer drawn into, to change.
    pub fn buffer_mut(&mut self) -> (b: &mut Buf)
        ensures
            *b == *old(self).buffer,
            *final(self).buffer == *final(b),
            final(self).total_time == old(self).total_time,
            final(self).delta == old(self).delta,
            final(self).display_width == old(self).display_width,
    {
        &mut *self.buffer
    }
}

/// A widget for static content, drawn without timing.
pub trait SimpleWidget {
    /// Whether drawing the widget, text measured with `display_width`, into
    /// a buffer of `size` holding `before` may leave it holding `after`.
    spec fn spec_simple_drew(&self, display_width: DisplayWidth, size: Size, before: Seq<CellView>, after: Seq<CellView>) -> bool;

    /// Draws the widget into the context's buffer.
    fn draw<Buf: Buffer>(&self, ctx: FrameContext<'_, Buf>)
        requires
            old(ctx.buffer).wf(),
        ensures
            final(ctx.buffer).wf(),
            final(ctx.buffer).spec_size() == old(ctx.buffer).spec_size(),
            self.spec_simple_drew(
                ctx.display_width,
                old(ctx.buffer).spec_size(),
                old(ctx.buffer).spec_cells(),
                final(ctx.buffer).spec_cells(),
            ),
    ;
}

/// Every simple widget is a widget for any kind of timing: it is drawn
/// without the timing.
impl<W: SimpleWidget, T: TimerDelta> Widget<T> for W {
    /// What drawing the simple widget does; the timing plays no part.
    open spec fn spec_drew(
        &self,
        total_time: T,
        delta: T,
        display_width: DisplayWidth,
        size: Size,
        before: Seq<CellView>,
        after: Seq<CellView>,
    ) -> bool {
        self.spec_simple_drew(display_width, size, before, after)
    }

    fn draw<Buf: Buffer>(&self, ctx: FrameContext<'_, Buf, T>) {
        SimpleWidget::draw(
            self,
            FrameContext {
                total_time: NoDelta::new(),
                delta: NoDelta::new(),
                display_width: ctx.display_width,
                buffer: ctx.buffer,
            },
        );
    }
}

/// A widget drawn with frame timing of kind `Delta`.
pub trait Widget<Delta: TimerDelta = NoDelta> {
    /// Whether drawing the widget at the given times, text measured with
    /// `display_width`, into a buffer of `size` holding `before` may leave it
    /// holding `after`.
    spec fn spec_drew(
        &self,
        total_time: Delta,
        delta: Delta,
        display_width: DisplayWidth,
        size: Size,
        before: Seq<CellView>,
        after: Seq<CellView>,
    ) -> bool;

    /// Draws the widget into the context's buffer.
    fn draw<Buf: Buffer>(&self, ctx: FrameContext<'_, Buf, Delta>)
        requires
            old(ctx.buffer).wf(),
        ensures
            final(ctx.buffer).wf(),
            final(ctx.buffer).spec_size() == old(ctx.buffer).spec_size(),
            self.spec_drew(
                ctx.total_time,
                ctx.delta,
                ctx.display_width,
                old(ctx.buffer).spec_size(),
                old(ctx.buffer).spec_cells(),
                final(ctx.buffer).spec_cells(),
            ),
    ;
}

} // verus!
