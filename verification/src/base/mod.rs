//! The core of the library: buffers, composition, drawing and widgets.
use vstd::prelude::*;

use unicode_width::{UnicodeWidthChar, UnicodeWidthStr};

use crate::cell::{Cell, CellView};

pub mod buffer;
pub mod compositor;
pub mod draw;
pub mod timer;
pub mod widget;

pub use draw::Position;

verus! {

/// The display width that the `unicode-width` crate gives a character, or
/// `None` for a control character.
pub uninterp spec fn spec_unicode_char_width(c: char) -> Option<usize>;

/// The display width that the `unicode-width` crate gives a string.
pub uninterp spec fn spec_unicode_str_width(s: Seq<char>) -> usize;

/// `UnicodeWidthChar::width` of `unicode-width`: the columns the character
/// takes, `None` for a control character. The result is named, not stated.
#[verifier::external_body]
fn unicode_char_width(c: char) -> (w: Option<usize>)
    ensures
        w == spec_unicode_char_width(c),
{
    UnicodeWidthChar::width(c)
}

/// `UnicodeWidthStr::width` of `unicode-width`: the columns the string takes.
/// The result is named, not stated.
#[verifier::external_body]
fn unicode_str_width(s: &str) -> (w: usize)
    ensures
        w == spec_unicode_str_width(s@),
{
    UnicodeWidthStr::width(s)
}

/// How wide a character is on screen, in cells: its Unicode width, or 0 for
/// a control character.
pub open spec fn spec_char_display_width(c: char) -> u16 {
    match spec_unicode_char_width(c) {
        Some(w) => w as u16,
        None => 0,
    }
}

/// How wide a string is on screen, in cells: its Unicode width, truncated to
/// 16 bits.
pub open spec fn spec_str_display_width(s: Seq<char>) -> u16 {
    spec_unicode_str_width(s) as u16
}

/// The strategy that measures how many cells text takes on screen.
#[derive(Clone, Copy, Debug, Hash)]
pub struct DisplayWidth;

impl DisplayWidth {
    /// The number of cells `ch` takes.
    pub fn char_width(self, ch: char) -> (w: u16)
        ensures
            w == spec_char_display_width(ch),
    {
        match unicode_char_width(ch) {
            Some(w) => w as u16,
            None => 0,
        }
    }

    /// The number of cells `s` takes.
    pub fn str_width(self, s: &str) -> (w: u16)
        ensures
            w == spec_str_display_width(s@),
    {
        unicode_str_width(s) as u16
    }
}

impl Default for DisplayWidth {
    /// Unicode display widths, as the `unicode-width` crate gives them.
    fn default() -> (d: DisplayWidth)
        ensures
            d == DisplayWidth,
    {
        DisplayWidth
    }
}

/// A cell to render at a position.
pub struct DrawCall {
    pub pos: Position,
    pub cell: Cell,
}

impl View for DrawCall {
    type V = (Position, CellView);

    open spec fn view(&self) -> (Position, CellView) {
        (self.pos, self.cell@)
    }
}

/// What running an engine gives once the terminal is restored: the result of
/// the frames where restoring succeeds, the restoring error where it fails.
pub fn run_outcome<B, E>(frames: Result<B, E>, restore: Result<(), E>) -> (r: Result<B, E>)
    ensures
        restore is Ok ==> r == frames,
        restore matches Err(e) ==> r == Err::<B, E>(e),
{
    match restore {
        Ok(()) => frames,
        Err(e) => Err(e),
    }
}

/// A step of the engine's frame loop.
#[derive(Clone, Copy, Debug, PartialEq, Eq, Structural)]
pub enum FrameStep {
    /// The buffer is prepared for the frame's drawing.
    StartFrame,
    /// The caller's update draws into the buffer and says whether to stop.
    Update,
    /// The cells the buffer hands out are rendered.
    Render,
    /// The buffer ends the frame.
    EndFrame,
    /// The terminal is restored and the loop ends.
    Restore,
}

/// The step of the frame loop after `step`, given whether the update asked
/// to stop and whether `step` failed; `None` once the terminal is restored.
/// Each frame prepares the buffer, updates, renders and ends the frame, in
/// that order; the loop goes on to the next frame unless the update asked to
/// stop, and a failed rendering ends it at once.
pub open spec fn spec_next_frame_step(step: FrameStep, stop: bool, failed: bool) -> Option<FrameStep> {
    match step {
        FrameStep::StartFrame => Some(FrameStep::Update),
        FrameStep::Update => Some(FrameStep::Render),
        FrameStep::Render => if failed {
            Some(FrameStep::Restore)
        } else {
            Some(FrameStep::EndFrame)
        },
        FrameStep::EndFrame => if stop {
            Some(FrameStep::Restore)
        } else {
            Some(FrameStep::StartFrame)
        },
        FrameStep::Restore => None,
    }
}

/// The step of the frame loop after `step`; see [`spec_next_frame_step`].
pub fn next_frame_step(step: FrameStep, stop: bool, failed: bool) -> (next: Option<FrameStep>)
    ensures
        next == spec_next_frame_step(step, stop, failed),
{
    match step {
        FrameStep::StartFrame => Some(FrameStep::Update),
        FrameStep::Update => Some(FrameStep::Render),
        FrameStep::Render => if failed {
            Some(FrameStep::Restore)
        } else {
            Some(FrameStep::EndFrame)
        },
        FrameStep::EndFrame => if stop {
            Some(FrameStep::Restore)
        } else {
            Some(FrameStep::StartFrame)
        },
        FrameStep::Restore => None,
    }
}

/// The terminal is restored only after a failed rendering or after a frame
/// whose update asked to stop has ended.
pub proof fn lemma_restore_follows_stop_or_failure(step: FrameStep, stop: bool, failed: bool)
    ensures
        spec_next_frame_step(step, stop, failed) == Some(FrameStep::Restore) ==> (step == FrameStep::Render
            && failed) || (step == FrameStep::EndFrame && stop),
{
}

} // verus!
