use vstd::prelude::*;

verus! {

/// The frame that a one-shot animation whose frames run from 0 to
/// `last_frame` shows once `elapsed_frames` animation frames have passed since
/// it started: it stops on its last frame, and a reversed animation plays the
/// frames from the last one back to 0.
pub open spec fn animation_frame_spec(elapsed_frames: u32, last_frame: u32, is_reversed: bool) -> u32 {
    let frame = if elapsed_frames > last_frame {
        last_frame
    } else {
        elapsed_frames
    };
    if is_reversed {
        (last_frame - frame) as u32
    } else {
        frame
    }
}

/// The frame that a one-shot animation with frames 0 to `last_frame` shows
/// after `elapsed_frames` animation frames.
pub fn animation_frame(elapsed_frames: u32, last_frame: u32, is_reversed: bool) -> (result: u32)
    ensures
        result == animation_frame_spec(elapsed_frames, last_frame, is_reversed),
        result <= last_frame,
{
    let frame = if elapsed_frames > last_frame {
        last_frame
    } else {
        elapsed_frames
    };
    if is_reversed {
        last_frame - frame
    } else {
        frame
    }
}

/// Whether a one-shot animation with frames 0 to `last_frame` is over after
/// `elapsed_frames` animation frames: once its last frame has been shown for a
/// whole animation frame.
pub fn animation_is_done(elapsed_frames: u32, last_frame: u32) -> (result: bool)
    ensures
        result == (elapsed_frames > last_frame),
{
    elapsed_frames > last_frame
}

} // verus!
