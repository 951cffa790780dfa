use germterm::base::{next_frame_step, FrameStep};

#[test]
fn frame_steps_follow_the_documented_order() {
    assert_eq!(next_frame_step(FrameStep::StartFrame, false, false), Some(FrameStep::Update));
    assert_eq!(next_frame_step(FrameStep::Update, false, false), Some(FrameStep::Render));
    assert_eq!(next_frame_step(FrameStep::Render, false, false), Some(FrameStep::EndFrame));
    assert_eq!(next_frame_step(FrameStep::EndFrame, false, false), Some(FrameStep::StartFrame));
    assert_eq!(next_frame_step(FrameStep::Restore, false, false), None);
}

#[test]
fn a_stop_ends_the_loop_after_the_frame_is_rendered() {
    // The update asks to stop: the frame is still rendered and ended.
    assert_eq!(next_frame_step(FrameStep::Update, true, false), Some(FrameStep::Render));
    assert_eq!(next_frame_step(FrameStep::Render, true, false), Some(FrameStep::EndFrame));
    assert_eq!(next_frame_step(FrameStep::EndFrame, true, false), Some(FrameStep::Restore));
}

#[test]
fn a_failed_render_restores_at_once() {
    assert_eq!(next_frame_step(FrameStep::Render, false, true), Some(FrameStep::Restore));
}

#[test]
fn two_frames_then_stop() {
    let mut step = Some(FrameStep::StartFrame);
    let mut seen = Vec::new();
    let mut frames = 0;
    while let Some(s) = step {
        seen.push(s);
        if s == FrameStep::Update {
            frames += 1;
        }
        step = next_frame_step(s, frames == 2, false);
    }
    assert_eq!(
        seen,
        vec![
            FrameStep::StartFrame,
            FrameStep::Update,
            FrameStep::Render,
            FrameStep::EndFrame,
            FrameStep::StartFrame,
            FrameStep::Update,
            FrameStep::Render,
            FrameStep::EndFrame,
            FrameStep::Restore,
        ]
    );
}
