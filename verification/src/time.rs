use vstd::prelude::*;

verus! {

/// The frame to show of a looping animation of `num_frames` frames at
/// animation frame `absolute_frame_number`.
pub fn looping_frame_number(absolute_frame_number: u64, num_frames: u32) -> (result: u32)
    requires
        num_frames > 0,
    ensures
        result == absolute_frame_number % (num_frames as u64),
        result < num_frames,
{
    (absolute_frame_number % (num_frames as u64)) as u32
}

} // verus!
